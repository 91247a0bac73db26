//! Reader/writer lock state.
//!
//! A lock is in one of three states: unlocked, shared by `n >= 1` readers, or
//! held by one writer. A write acquisition succeeds only from unlocked; a read
//! acquisition succeeds from unlocked or shared. Releasing the writer or the
//! last reader returns the lock to unlocked.
//!
//! Each operation is one atomic step of the lock. A step that cannot succeed
//! from the current state leaves the state as it was and fails.
use core::marker::PhantomData;
use vstd::prelude::*;

verus! {

/// The counters of a reader/writer lock.
#[derive(Clone, Copy, Debug, PartialEq, Eq, Structural)]
pub struct LockState {
    pub readers: usize,
    pub writer: bool,
}

/// The unlocked state.
pub open spec fn unlocked() -> LockState {
    LockState { readers: 0, writer: false }
}

impl LockState {
    /// At most one writer, and never a writer together with readers.
    pub open spec fn wf(self) -> bool {
        self.writer ==> self.readers == 0
    }

    pub open spec fn is_unlocked(self) -> bool {
        !self.writer && self.readers == 0
    }

    /// A write acquisition succeeds from this state.
    pub open spec fn can_write(self) -> bool {
        self.is_unlocked()
    }

    /// A read acquisition succeeds from this state (the reader count has room).
    pub open spec fn can_read(self) -> bool {
        !self.writer && self.readers < usize::MAX
    }

    /// The state after a write attempt.
    pub open spec fn write_step(self) -> LockState {
        if self.can_write() {
            LockState { readers: 0, writer: true }
        } else {
            self
        }
    }

    /// The state after a read attempt.
    pub open spec fn read_step(self) -> LockState {
        if self.can_read() {
            LockState { readers: (self.readers + 1) as usize, writer: false }
        } else {
            self
        }
    }

    /// The state after the writer releases.
    pub open spec fn write_release(self) -> LockState {
        unlocked()
    }

    /// The state after one reader releases.
    pub open spec fn read_release(self) -> LockState {
        LockState { readers: (self.readers - 1) as usize, writer: false }
    }

    pub fn new() -> (r: Self)
        ensures
            r == unlocked(),
    {
        LockState { readers: 0, writer: false }
    }

    pub fn try_write(&mut self) -> (ok: bool)
        ensures
            ok == old(self).can_write(),
            *final(self) == old(self).write_step(),
    {
        if !self.writer && self.readers == 0 {
            self.writer = true;
            true
        } else {
            false
        }
    }

    pub fn try_read(&mut self) -> (ok: bool)
        ensures
            ok == old(self).can_read(),
            *final(self) == old(self).read_step(),
    {
        if !self.writer && self.readers < usize::MAX {
            self.readers = self.readers + 1;
            true
        } else {
            false
        }
    }

    pub fn release_write(&mut self)
        requires
            old(self).wf(),
            old(self).writer,
        ensures
            *final(self) == old(self).write_release(),
    {
        self.writer = false;
    }

    pub fn release_read(&mut self)
        requires
            old(self).wf(),
            !old(self).writer,
            old(self).readers > 0,
        ensures
            *final(self) == old(self).read_release(),
    {
        self.readers = self.readers - 1;
    }
}

/// Proof that the holder of a write acquisition of the lock `id()` exists.
pub struct RwLockWriteGuard {
    id: Ghost<int>,
}

/// Proof that the holder of a read acquisition of the lock `id()` exists.
pub struct RwLockReadGuard {
    id: Ghost<int>,
}

impl RwLockWriteGuard {
    pub closed spec fn lock_id(&self) -> int {
        self.id@
    }
}

impl RwLockReadGuard {
    pub closed spec fn lock_id(&self) -> int {
        self.id@
    }
}

/// A reader/writer lock that owns the value it protects.
pub struct RwLock<T> {
    state: LockState,
    data: T,
    /// An identity seen by proofs only: the guards carry it, so a guard is
    /// accepted only by the lock that handed it out.
    id: Ghost<int>,
}

impl<T> RwLock<T> {
    pub closed spec fn state(&self) -> LockState {
        self.state
    }

    pub closed spec fn data(&self) -> T {
        self.data
    }

    /// The identity that this lock's guards carry.
    pub closed spec fn id(&self) -> int {
        self.id@
    }

    pub open spec fn wf(&self) -> bool {
        self.state().wf()
    }

    pub fn new(val: T) -> (r: Self)
        ensures
            r.state() == unlocked(),
            r.data() == val,
    {
        RwLock { state: LockState::new(), data: val, id: Ghost(vstd::pervasive::arbitrary()) }
    }

    pub fn try_write(&mut self) -> (r: Option<RwLockWriteGuard>)
        ensures
            r is Some == old(self).state().can_write(),
            r is Some ==> r->0.lock_id() == old(self).id(),
            final(self).state() == old(self).state().write_step(),
            final(self).data() == old(self).data(),
            final(self).id() == old(self).id(),
    {
        if self.state.try_write() {
            Some(RwLockWriteGuard { id: Ghost(self.id@) })
        } else {
            None
        }
    }

    pub fn try_read(&mut self) -> (r: Option<RwLockReadGuard>)
        ensures
            r is Some == old(self).state().can_read(),
            r is Some ==> r->0.lock_id() == old(self).id(),
            final(self).state() == old(self).state().read_step(),
            final(self).data() == old(self).data(),
            final(self).id() == old(self).id(),
    {
        if self.state.try_read() {
            Some(RwLockReadGuard { id: Ghost(self.id@) })
        } else {
            None
        }
    }

    /// Ends the write acquisition that `g` stands for.
    pub fn unlock_write(&mut self, g: RwLockWriteGuard)
        requires
            old(self).wf(),
            old(self).state().writer,
            g.lock_id() == old(self).id(),
        ensures
            final(self).state() == unlocked(),
            final(self).data() == old(self).data(),
            final(self).id() == old(self).id(),
    {
        self.state.release_write();
    }

    /// Ends the read acquisition that `g` stands for.
    pub fn unlock_read(&mut self, g: RwLockReadGuard)
        requires
            old(self).wf(),
            old(self).state().readers > 0,
            g.lock_id() == old(self).id(),
        ensures
            final(self).state() == old(self).state().read_release(),
            final(self).data() == old(self).data(),
            final(self).id() == old(self).id(),
    {
        self.state.release_read();
    }

    pub fn get(&self, g: &RwLockWriteGuard) -> (r: &T)
        requires
            g.lock_id() == self.id(),
        ensures
            *r == self.data(),
    {
        &self.data
    }

    pub fn get_read(&self, g: &RwLockReadGuard) -> (r: &T)
        requires
            g.lock_id() == self.id(),
        ensures
            *r == self.data(),
    {
        &self.data
    }

    pub fn get_mut(&mut self, g: &RwLockWriteGuard) -> (r: &mut T)
        requires
            g.lock_id() == old(self).id(),
        ensures
            *r == old(self).data(),
            final(self).data() == *final(r),
            final(self).state() == old(self).state(),
            final(self).id() == old(self).id(),
    {
        &mut self.data
    }

    pub fn reader_count(&self) -> (r: usize)
        ensures
            r == self.state().readers,
    {
        self.state.readers
    }

    pub fn writer_count(&self) -> (r: usize)
        ensures
            r == (if self.state().writer { 1usize } else { 0usize }),
    {
        if self.state.writer {
            1
        } else {
            0
        }
    }
}

/// A reader/writer lock embedded in the value it protects.
///
/// It holds no value: the protected `T` is the object that embeds it, found
/// from the lock's address through the adapter `A`.
pub struct IRwLock<T, A> {
    state: LockState,
    /// As for `RwLock`: the identity that this lock's guards carry.
    id: Ghost<int>,
    host: PhantomData<(T, A)>,
}

impl<T, A> IRwLock<T, A> {
    pub closed spec fn state(&self) -> LockState {
        self.state
    }

    pub closed spec fn id(&self) -> int {
        self.id@
    }

    pub open spec fn wf(&self) -> bool {
        self.state().wf()
    }

    pub fn new() -> (r: Self)
        ensures
            r.state() == unlocked(),
    {
        IRwLock { state: LockState::new(), id: Ghost(vstd::pervasive::arbitrary()), host: PhantomData }
    }

    pub fn try_write(&mut self) -> (r: Option<RwLockWriteGuard>)
        ensures
            r is Some == old(self).state().can_write(),
            r is Some ==> r->0.lock_id() == old(self).id(),
            final(self).state() == old(self).state().write_step(),
            final(self).id() == old(self).id(),
    {
        if self.state.try_write() {
            Some(RwLockWriteGuard { id: Ghost(self.id@) })
        } else {
            None
        }
    }

    pub fn try_read(&mut self) -> (r: Option<RwLockReadGuard>)
        ensures
            r is Some == old(self).state().can_read(),
            r is Some ==> r->0.lock_id() == old(self).id(),
            final(self).state() == old(self).state().read_step(),
            final(self).id() == old(self).id(),
    {
        if self.state.try_read() {
            Some(RwLockReadGuard { id: Ghost(self.id@) })
        } else {
            None
        }
    }

    pub fn unlock_write(&mut self, g: RwLockWriteGuard)
        requires
            old(self).wf(),
            old(self).state().writer,
            g.lock_id() == old(self).id(),
        ensures
            final(self).state() == unlocked(),
            final(self).id() == old(self).id(),
    {
        self.state.release_write();
    }

    pub fn unlock_read(&mut self, g: RwLockReadGuard)
        requires
            old(self).wf(),
            old(self).state().readers > 0,
            g.lock_id() == old(self).id(),
        ensures
            final(self).state() == old(self).state().read_release(),
            final(self).id() == old(self).id(),
    {
        self.state.release_read();
    }

    pub fn reader_count(&self) -> (r: usize)
        ensures
            r == self.state().readers,
    {
        self.state.readers
    }

    pub fn writer_count(&self) -> (r: usize)
        ensures
            r == (if self.state().writer { 1usize } else { 0usize }),
    {
        if self.state.writer {
            1
        } else {
            0
        }
    }
}

} // verus!
