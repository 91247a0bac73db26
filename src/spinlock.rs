//! Spinlocks with optional interrupt masking.
//!
//! `SpinLock<T>` owns the value it protects; `ISpinLock<T, A>` is embedded in
//! the object it protects and locates that object through adapters. Both hand
//! out the same guards. A guard taken by an `irqsave_*` acquisition carries the
//! duty to restore interrupts; releasing it first releases the lock and only
//! then restores the interrupt state it found.
use crate::intrusive::{host_addr, Adapter, Nested};
use crate::irq::{Cpu, DisableInterruptGuard};
use crate::rwlock::{unlocked, IRwLock, LockState, RwLock, RwLockReadGuard, RwLockWriteGuard};
use core::marker::PhantomData;
use vstd::prelude::*;

verus! {

/// The state of a lock after a successful write acquisition.
pub open spec fn write_held() -> LockState {
    LockState { readers: 0, writer: true }
}

/// Exclusive access to the value of a lock, with an optional duty to restore
/// interrupts.
pub struct SpinLockGuard<T> {
    lock_guard: RwLockWriteGuard,
    irq_guard: Option<DisableInterruptGuard>,
    value: PhantomData<T>,
}

/// Shared access to the value of a lock, with an optional duty to restore
/// interrupts.
pub struct SpinLockReadGuard<T> {
    lock_guard: RwLockReadGuard,
    irq_guard: Option<DisableInterruptGuard>,
    value: PhantomData<T>,
}

impl<T> SpinLockGuard<T> {
    /// The identity of the lock this guard was taken from.
    pub closed spec fn lock_id(&self) -> int {
        self.lock_guard.lock_id()
    }

    /// The interrupt guard this guard restores on release, if any.
    pub closed spec fn irq(&self) -> Option<DisableInterruptGuard> {
        self.irq_guard
    }

    /// Whether releasing this guard restores interrupts.
    pub open spec fn restores_irq(&self) -> bool {
        self.irq() is Some
    }

    /// Moves the duty to restore interrupts from `other` to `self`.
    ///
    /// An interrupt guard that `self` held before is restored at once, as
    /// dropping it would.
    pub fn take_irq_guard<S>(&mut self, other: &mut SpinLockGuard<S>, cpu: &mut Cpu)
        ensures
            final(self).irq() == old(other).irq(),
            final(other).irq() is None,
            final(self).lock_id() == old(self).lock_id(),
            final(other).lock_id() == old(other).lock_id(),
            old(self).irq() is Some ==> final(cpu).irq_on() == old(self).irq()->0.saved(),
            old(self).irq() is None ==> final(cpu).irq_on() == old(cpu).irq_on(),
            old(other).restores_irq() ==> final(self).restores_irq() && !final(other).restores_irq(),
            !old(other).restores_irq() ==> !final(self).restores_irq() && !final(other).restores_irq(),
    {
        let taken = other.irq_guard.take();
        let previous = self.irq_guard.take();
        self.irq_guard = taken;
        if let Some(p) = previous {
            p.restore(cpu);
        }
    }

    /// Gives up the duty to restore interrupts without restoring them.
    pub fn forget_irq(&mut self)
        ensures
            final(self).irq() is None,
            final(self).lock_id() == old(self).lock_id(),
    {
        if self.irq_guard.is_none() {
            return;
        }
        self.irq_guard = None;
    }

    pub fn holds_irq_guard(&self) -> (r: bool)
        ensures
            r == self.restores_irq(),
    {
        self.irq_guard.is_some()
    }
}

impl<T> SpinLockReadGuard<T> {
    pub closed spec fn lock_id(&self) -> int {
        self.lock_guard.lock_id()
    }

    pub closed spec fn irq(&self) -> Option<DisableInterruptGuard> {
        self.irq_guard
    }

    pub open spec fn restores_irq(&self) -> bool {
        self.irq() is Some
    }

    /// Moves the duty to restore interrupts from `other` to `self`.
    ///
    /// An interrupt guard that `self` held before is restored at once, as
    /// dropping it would.
    pub fn take_irq_guard<S>(&mut self, other: &mut SpinLockReadGuard<S>, cpu: &mut Cpu)
        ensures
            final(self).irq() == old(other).irq(),
            final(other).irq() is None,
            final(self).lock_id() == old(self).lock_id(),
            final(other).lock_id() == old(other).lock_id(),
            old(self).irq() is Some ==> final(cpu).irq_on() == old(self).irq()->0.saved(),
            old(self).irq() is None ==> final(cpu).irq_on() == old(cpu).irq_on(),
            old(other).restores_irq() ==> final(self).restores_irq() && !final(other).restores_irq(),
            !old(other).restores_irq() ==> !final(self).restores_irq() && !final(other).restores_irq(),
    {
        let taken = other.irq_guard.take();
        let previous = self.irq_guard.take();
        self.irq_guard = taken;
        if let Some(p) = previous {
            p.restore(cpu);
        }
    }

    pub fn holds_irq_guard(&self) -> (r: bool)
        ensures
            r == self.restores_irq(),
    {
        self.irq_guard.is_some()
    }
}

/// A reader/writer spinlock that owns the value it protects.
pub struct SpinLock<T> {
    lock: RwLock<T>,
}

impl<T> SpinLock<T> {
    pub closed spec fn state(&self) -> LockState {
        self.lock.state()
    }

    pub closed spec fn data(&self) -> T {
        self.lock.data()
    }

    pub closed spec fn id(&self) -> int {
        self.lock.id()
    }

    pub open spec fn wf(&self) -> bool {
        self.state().wf()
    }

    pub fn const_new(val: T) -> (r: Self)
        ensures
            r.state() == unlocked(),
            r.data() == val,
    {
        SpinLock { lock: RwLock::new(val) }
    }

    pub fn new(val: T) -> (r: Self)
        ensures
            r.state() == unlocked(),
            r.data() == val,
    {
        Self::const_new(val)
    }

    /// Masks interrupts, then tries once to take the lock for writing.
    ///
    /// On failure the interrupt state is put back as it was.
    pub fn try_irqsave_lock(&mut self, cpu: &mut Cpu) -> (r: Option<SpinLockGuard<T>>)
        ensures
            r is Some == old(self).state().can_write(),
            final(self).state() == old(self).state().write_step(),
            final(self).data() == old(self).data(),
            final(self).id() == old(self).id(),
            r matches Some(g) ==> {
                &&& g.lock_id() == old(self).id()
                &&& g.irq() is Some
                &&& g.irq()->0.saved() == old(cpu).irq_on()
                &&& !final(cpu).irq_on()
            },
            r is None ==> final(cpu).irq_on() == old(cpu).irq_on(),
    {
        let irq_guard = DisableInterruptGuard::new(cpu);
        match self.try_lock() {
            Some(mut guard) => {
                guard.irq_guard = Some(irq_guard);
                Some(guard)
            },
            None => {
                irq_guard.restore(cpu);
                None
            },
        }
    }

    /// Masks interrupts and takes the lock for writing.
    ///
    /// The lock must be free: with no other party to release it, the spin
    /// would never end.
    pub fn irqsave_lock(&mut self, cpu: &mut Cpu) -> (g: SpinLockGuard<T>)
        requires
            old(self).state().can_write(),
        ensures
            final(self).state() == write_held(),
            final(self).data() == old(self).data(),
            final(self).id() == old(self).id(),
            g.lock_id() == old(self).id(),
            g.irq() is Some,
            g.irq()->0.saved() == old(cpu).irq_on(),
            !final(cpu).irq_on(),
    {
        match self.try_irqsave_lock(cpu) {
            Some(g) => g,
            None => vstd::pervasive::unreached(),
        }
    }

    /// Tries once to take the lock for writing.
    pub fn try_lock(&mut self) -> (r: Option<SpinLockGuard<T>>)
        ensures
            r is Some == old(self).state().can_write(),
            final(self).state() == old(self).state().write_step(),
            final(self).data() == old(self).data(),
            final(self).id() == old(self).id(),
            r matches Some(g) ==> g.lock_id() == old(self).id() && g.irq() is None,
    {
        match self.lock.try_write() {
            Some(lock_guard) => Some(SpinLockGuard { irq_guard: None, lock_guard, value: PhantomData }),
            None => None,
        }
    }

    /// Takes the lock for writing; the lock must be free.
    pub fn lock(&mut self) -> (g: SpinLockGuard<T>)
        requires
            old(self).state().can_write(),
        ensures
            final(self).state() == write_held(),
            final(self).data() == old(self).data(),
            final(self).id() == old(self).id(),
            g.lock_id() == old(self).id(),
            g.irq() is None,
    {
        match self.try_lock() {
            Some(g) => g,
            None => vstd::pervasive::unreached(),
        }
    }

    pub fn write(&mut self) -> (g: SpinLockGuard<T>)
        requires
            old(self).state().can_write(),
        ensures
            final(self).state() == write_held(),
            final(self).data() == old(self).data(),
            final(self).id() == old(self).id(),
            g.lock_id() == old(self).id(),
            g.irq() is None,
    {
        self.lock()
    }

    pub fn try_write(&mut self) -> (r: Option<SpinLockGuard<T>>)
        ensures
            r is Some == old(self).state().can_write(),
            final(self).state() == old(self).state().write_step(),
            final(self).data() == old(self).data(),
            final(self).id() == old(self).id(),
            r matches Some(g) ==> g.lock_id() == old(self).id() && g.irq() is None,
    {
        self.try_lock()
    }

    pub fn try_irqsave_write(&mut self, cpu: &mut Cpu) -> (r: Option<SpinLockGuard<T>>)
        ensures
            r is Some == old(self).state().can_write(),
            final(self).state() == old(self).state().write_step(),
            final(self).data() == old(self).data(),
            final(self).id() == old(self).id(),
            r matches Some(g) ==> {
                &&& g.lock_id() == old(self).id()
                &&& g.irq() is Some
                &&& g.irq()->0.saved() == old(cpu).irq_on()
                &&& !final(cpu).irq_on()
            },
            r is None ==> final(cpu).irq_on() == old(cpu).irq_on(),
    {
        self.try_irqsave_lock(cpu)
    }

    pub fn irqsave_write(&mut self, cpu: &mut Cpu) -> (g: SpinLockGuard<T>)
        requires
            old(self).state().can_write(),
        ensures
            final(self).state() == write_held(),
            final(self).data() == old(self).data(),
            final(self).id() == old(self).id(),
            g.lock_id() == old(self).id(),
            g.irq() is Some,
            g.irq()->0.saved() == old(cpu).irq_on(),
            !final(cpu).irq_on(),
    {
        self.irqsave_lock(cpu)
    }

    /// Tries once to take the lock for reading.
    pub fn try_read(&mut self) -> (r: Option<SpinLockReadGuard<T>>)
        ensures
            r is Some == old(self).state().can_read(),
            final(self).state() == old(self).state().read_step(),
            final(self).data() == old(self).data(),
            final(self).id() == old(self).id(),
            r matches Some(g) ==> g.lock_id() == old(self).id() && g.irq() is None,
    {
        match self.lock.try_read() {
            Some(lock_guard) => Some(
                SpinLockReadGuard { irq_guard: None, lock_guard, value: PhantomData },
            ),
            None => None,
        }
    }

    /// Takes the lock for reading; no writer may hold it.
    pub fn read(&mut self) -> (g: SpinLockReadGuard<T>)
        requires
            old(self).state().can_read(),
        ensures
            final(self).state() == old(self).state().read_step(),
            final(self).data() == old(self).data(),
            final(self).id() == old(self).id(),
            g.lock_id() == old(self).id(),
            g.irq() is None,
    {
        match self.try_read() {
            Some(g) => g,
            None => vstd::pervasive::unreached(),
        }
    }

    /// Masks interrupts, then tries once to take the lock for reading.
    pub fn try_irqsave_read(&mut self, cpu: &mut Cpu) -> (r: Option<SpinLockReadGuard<T>>)
        ensures
            r is Some == old(self).state().can_read(),
            final(self).state() == old(self).state().read_step(),
            final(self).data() == old(self).data(),
            final(self).id() == old(self).id(),
            r matches Some(g) ==> {
                &&& g.lock_id() == old(self).id()
                &&& g.irq() is Some
                &&& g.irq()->0.saved() == old(cpu).irq_on()
                &&& !final(cpu).irq_on()
            },
            r is None ==> final(cpu).irq_on() == old(cpu).irq_on(),
    {
        let irq_guard = DisableInterruptGuard::new(cpu);
        match self.try_read() {
            Some(mut guard) => {
                guard.irq_guard = Some(irq_guard);
                Some(guard)
            },
            None => {
                irq_guard.restore(cpu);
                None
            },
        }
    }

    pub fn irqsave_read(&mut self, cpu: &mut Cpu) -> (g: SpinLockReadGuard<T>)
        requires
            old(self).state().can_read(),
        ensures
            final(self).state() == old(self).state().read_step(),
            final(self).data() == old(self).data(),
            final(self).id() == old(self).id(),
            g.lock_id() == old(self).id(),
            g.irq() is Some,
            g.irq()->0.saved() == old(cpu).irq_on(),
            !final(cpu).irq_on(),
    {
        match self.try_irqsave_read(cpu) {
            Some(g) => g,
            None => vstd::pervasive::unreached(),
        }
    }

    /// Releases a write guard of this lock, then restores interrupts if the
    /// guard carries that duty.
    pub fn unlock(&mut self, g: SpinLockGuard<T>, cpu: &mut Cpu)
        requires
            old(self).wf(),
            old(self).state().writer,
            g.lock_id() == old(self).id(),
        ensures
            final(self).state() == unlocked(),
            final(self).data() == old(self).data(),
            final(self).id() == old(self).id(),
            g.irq() is Some ==> final(cpu).irq_on() == g.irq()->0.saved(),
            g.irq() is None ==> final(cpu).irq_on() == old(cpu).irq_on(),
    {
        let SpinLockGuard { lock_guard, irq_guard, value: _ } = g;
        self.lock.unlock_write(lock_guard);
        if let Some(i) = irq_guard {
            i.restore(cpu);
        }
    }

    /// Releases a read guard of this lock, then restores interrupts if the
    /// guard carries that duty.
    pub fn unlock_read(&mut self, g: SpinLockReadGuard<T>, cpu: &mut Cpu)
        requires
            old(self).wf(),
            old(self).state().readers > 0,
            g.lock_id() == old(self).id(),
        ensures
            final(self).state() == old(self).state().read_release(),
            final(self).data() == old(self).data(),
            final(self).id() == old(self).id(),
            g.irq() is Some ==> final(cpu).irq_on() == g.irq()->0.saved(),
            g.irq() is None ==> final(cpu).irq_on() == old(cpu).irq_on(),
    {
        let SpinLockReadGuard { lock_guard, irq_guard, value: _ } = g;
        self.lock.unlock_read(lock_guard);
        if let Some(i) = irq_guard {
            i.restore(cpu);
        }
    }

    /// The protected value, seen through a write guard of this lock.
    pub fn get(&self, g: &SpinLockGuard<T>) -> (r: &T)
        requires
            g.lock_id() == self.id(),
        ensures
            *r == self.data(),
    {
        self.lock.get(&g.lock_guard)
    }

    /// The protected value, changed through a write guard of this lock.
    pub fn get_mut(&mut self, g: &SpinLockGuard<T>) -> (r: &mut T)
        requires
            g.lock_id() == old(self).id(),
        ensures
            *r == old(self).data(),
            final(self).data() == *final(r),
            final(self).state() == old(self).state(),
            final(self).id() == old(self).id(),
    {
        self.lock.get_mut(&g.lock_guard)
    }

    /// The protected value, seen through a read guard of this lock.
    pub fn get_read(&self, g: &SpinLockReadGuard<T>) -> (r: &T)
        requires
            g.lock_id() == self.id(),
        ensures
            *r == self.data(),
    {
        self.lock.get_read(&g.lock_guard)
    }

    pub fn reader_count(&self) -> (r: usize)
        ensures
            r == self.state().readers,
    {
        self.lock.reader_count()
    }

    pub fn writer_count(&self) -> (r: usize)
        ensures
            r == (if self.state().writer { 1usize } else { 0usize }),
    {
        self.lock.writer_count()
    }
}

/// Locates the embedded lock inside an `ISpinLock`: it is the only field, so
/// it starts where the `ISpinLock` starts.
pub struct ISpinLockOffset<T, A>(PhantomData<T>, PhantomData<A>);

impl<T, A: Adapter<T>> Adapter<ISpinLock<T, A>> for ISpinLockOffset<T, A> {
    open spec fn spec_offset() -> usize {
        0
    }

    fn offset() -> (r: usize) {
        0
    }
}

/// The adapter from the embedded lock to the object that `ISpinLock<T, A>`
/// protects.
pub type ISpinLockHost<T, A> = Nested<T, A, ISpinLock<T, A>, ISpinLockOffset<T, A>>;

/// A spinlock stored as a field of the object it protects.
///
/// `A` locates this lock inside `T`; the protected `T` is found from the
/// address of the embedded lock by subtracting the composed offset
/// (`ISpinLockHost<T, A>`).
pub struct ISpinLock<T, A: Adapter<T>> {
    lock: IRwLock<T, A>,
}

impl<T, A: Adapter<T>> ISpinLock<T, A> {
    pub closed spec fn state(&self) -> LockState {
        self.lock.state()
    }

    pub closed spec fn id(&self) -> int {
        self.lock.id()
    }

    pub open spec fn wf(&self) -> bool {
        self.state().wf()
    }

    pub fn new() -> (r: Self)
        ensures
            r.state() == unlocked(),
    {
        ISpinLock { lock: IRwLock::new() }
    }

    /// The address of the protected object, given the address of this lock.
    pub fn host_of(lock_addr: usize) -> (r: usize)
        ensures
            r == host_addr(lock_addr, ISpinLockHost::<T, A>::spec_offset()),
    {
        lock_addr.wrapping_sub(ISpinLockHost::<T, A>::offset())
    }

    /// Takes the lock for writing; the lock must be free.
    pub fn lock(&mut self) -> (g: SpinLockGuard<T>)
        requires
            old(self).state().can_write(),
        ensures
            final(self).state() == write_held(),
            final(self).id() == old(self).id(),
            g.lock_id() == old(self).id(),
            g.irq() is None,
    {
        match self.lock.try_write() {
            Some(l) => SpinLockGuard { lock_guard: l, irq_guard: None, value: PhantomData },
            None => vstd::pervasive::unreached(),
        }
    }

    /// Masks interrupts and takes the lock for writing; the lock must be free.
    pub fn irqsave_lock(&mut self, cpu: &mut Cpu) -> (g: SpinLockGuard<T>)
        requires
            old(self).state().can_write(),
        ensures
            final(self).state() == write_held(),
            final(self).id() == old(self).id(),
            g.lock_id() == old(self).id(),
            g.irq() is Some,
            g.irq()->0.saved() == old(cpu).irq_on(),
            !final(cpu).irq_on(),
    {
        let irq_guard = DisableInterruptGuard::new(cpu);
        let mut g = self.lock();
        g.irq_guard = Some(irq_guard);
        g
    }

    /// Takes the lock for reading; no writer may hold it.
    pub fn read(&mut self) -> (g: SpinLockReadGuard<T>)
        requires
            old(self).state().can_read(),
        ensures
            final(self).state() == old(self).state().read_step(),
            final(self).id() == old(self).id(),
            g.lock_id() == old(self).id(),
            g.irq() is None,
    {
        match self.lock.try_read() {
            Some(l) => SpinLockReadGuard { lock_guard: l, irq_guard: None, value: PhantomData },
            None => vstd::pervasive::unreached(),
        }
    }

    /// Masks interrupts and takes the lock for reading; no writer may hold it.
    pub fn irqsave_read(&mut self, cpu: &mut Cpu) -> (g: SpinLockReadGuard<T>)
        requires
            old(self).state().can_read(),
        ensures
            final(self).state() == old(self).state().read_step(),
            final(self).id() == old(self).id(),
            g.lock_id() == old(self).id(),
            g.irq() is Some,
            g.irq()->0.saved() == old(cpu).irq_on(),
            !final(cpu).irq_on(),
    {
        let irq_guard = DisableInterruptGuard::new(cpu);
        let mut g = self.read();
        g.irq_guard = Some(irq_guard);
        g
    }

    /// Releases a write guard of this lock, then restores interrupts if the
    /// guard carries that duty.
    pub fn unlock(&mut self, g: SpinLockGuard<T>, cpu: &mut Cpu)
        requires
            old(self).wf(),
            old(self).state().writer,
            g.lock_id() == old(self).id(),
        ensures
            final(self).state() == unlocked(),
            final(self).id() == old(self).id(),
            g.irq() is Some ==> final(cpu).irq_on() == g.irq()->0.saved(),
            g.irq() is None ==> final(cpu).irq_on() == old(cpu).irq_on(),
    {
        let SpinLockGuard { lock_guard, irq_guard, value: _ } = g;
        self.lock.unlock_write(lock_guard);
        if let Some(i) = irq_guard {
            i.restore(cpu);
        }
    }

    /// Releases a read guard of this lock, then restores interrupts if the
    /// guard carries that duty.
    pub fn unlock_read(&mut self, g: SpinLockReadGuard<T>, cpu: &mut Cpu)
        requires
            old(self).wf(),
            old(self).state().readers > 0,
            g.lock_id() == old(self).id(),
        ensures
            final(self).state() == old(self).state().read_release(),
            final(self).id() == old(self).id(),
            g.irq() is Some ==> final(cpu).irq_on() == g.irq()->0.saved(),
            g.irq() is None ==> final(cpu).irq_on() == old(cpu).irq_on(),
    {
        let SpinLockReadGuard { lock_guard, irq_guard, value: _ } = g;
        self.lock.unlock_read(lock_guard);
        if let Some(i) = irq_guard {
            i.restore(cpu);
        }
    }

    pub fn reader_count(&self) -> (r: usize)
        ensures
            r == self.state().readers,
    {
        self.lock.reader_count()
    }

    pub fn writer_count(&self) -> (r: usize)
        ensures
            r == (if self.state().writer { 1usize } else { 0usize }),
    {
        self.lock.writer_count()
    }
}

} // verus!
