//! A list of reference-counted nodes together with the lock that guards it.
//!
//! Every change of the list happens under the lock, taken with interrupts
//! masked, so the list may be changed from interrupt context too.
use crate::irq::Cpu;
use crate::rwlock::{unlocked, LockState};
use crate::spinlock::{write_held, SpinLock, SpinLockGuard};
use crate::tinyarc::{ArcList, TinyArc};
use vstd::prelude::*;

verus! {

/// One list of nodes and its lock.
pub struct UniqueListHead<T> {
    list: SpinLock<ArcList<T>>,
}

impl<T> UniqueListHead<T> {
    /// The list and its nodes.
    pub closed spec fn list(&self) -> ArcList<T> {
        self.list.data()
    }

    pub closed spec fn state(&self) -> LockState {
        self.list.state()
    }

    pub closed spec fn id(&self) -> int {
        self.list.id()
    }

    pub open spec fn wf(&self) -> bool {
        self.list().wf() && self.state().wf()
    }

    pub fn new() -> (r: Self)
        ensures
            r.wf(),
            r.state() == unlocked(),
            r.list().order() == Seq::<usize>::empty(),
            r.list().len() == 0,
    {
        UniqueListHead { list: SpinLock::new(ArcList::new()) }
    }

    /// Masks interrupts and takes the lock; the lock must be free.
    pub fn lock(&mut self, cpu: &mut Cpu) -> (g: SpinLockGuard<ArcList<T>>)
        requires
            old(self).state().can_write(),
        ensures
            final(self).state() == write_held(),
            final(self).list() == old(self).list(),
            final(self).id() == old(self).id(),
            g.lock_id() == old(self).id(),
            g.restores_irq(),
            g.irq()->0.saved() == old(cpu).irq_on(),
            !final(cpu).irq_on(),
    {
        self.list.irqsave_lock(cpu)
    }

    /// The list, changed through a guard of this head's lock.
    pub fn get_list_mut(&mut self, g: &SpinLockGuard<ArcList<T>>) -> (r: &mut ArcList<T>)
        requires
            g.lock_id() == old(self).id(),
        ensures
            *r == old(self).list(),
            final(self).list() == *final(r),
            final(self).state() == old(self).state(),
            final(self).id() == old(self).id(),
    {
        self.list.get_mut(g)
    }

    /// Releases the lock, then restores interrupts if `g` carries that duty.
    pub fn unlock(&mut self, g: SpinLockGuard<ArcList<T>>, cpu: &mut Cpu)
        requires
            old(self).state() == write_held(),
            g.lock_id() == old(self).id(),
        ensures
            final(self).state() == unlocked(),
            final(self).list() == old(self).list(),
            final(self).id() == old(self).id(),
            g.irq() is Some ==> final(cpu).irq_on() == g.irq()->0.saved(),
            g.irq() is None ==> final(cpu).irq_on() == old(cpu).irq_on(),
    {
        self.list.unlock(g, cpu);
    }

    /// Links the node of `me` at the front of the list under the lock.
    ///
    /// A node that is linked already is refused and the handle `me` is given
    /// up. Interrupts end as they were.
    pub fn insert(&mut self, me: TinyArc, cpu: &mut Cpu) -> (r: bool)
        requires
            old(self).wf(),
            old(self).state().can_write(),
            old(self).list().valid(&me),
        ensures
            final(self).wf(),
            final(self).state() == unlocked(),
            final(self).id() == old(self).id(),
            final(cpu).irq_on() == old(cpu).irq_on(),
            final(self).list().id() == old(self).list().id(),
            final(self).list().len() == old(self).list().len(),
            r == !old(self).list().linked(me.node()),
            r ==> final(self).list().order() == seq![me.node() as usize] + old(self).list().order(),
            !r ==> final(self).list().order() == old(self).list().order(),
    {
        let g = self.lock(cpu);
        let r = self.list.get_mut(&g).insert(me);
        self.list.unlock(g, cpu);
        r
    }

    /// Unlinks the node of `me` under the lock and gives up the list's share
    /// of it; `false` where it was not linked. Interrupts end as they were.
    pub fn detach(&mut self, me: &TinyArc, cpu: &mut Cpu) -> (r: bool)
        requires
            old(self).wf(),
            old(self).state().can_write(),
            old(self).list().valid(me),
        ensures
            final(self).wf(),
            final(self).state() == unlocked(),
            final(self).id() == old(self).id(),
            final(cpu).irq_on() == old(cpu).irq_on(),
            final(self).list().id() == old(self).list().id(),
            final(self).list().len() == old(self).list().len(),
            final(self).list().valid(me),
            r == old(self).list().linked(me.node()),
            r ==> final(self).list().order() == crate::tinyarc::detached(
                old(self).list().order(),
                me.node() as usize,
            ),
            !r ==> final(self).list().order() == old(self).list().order(),
    {
        let g = self.lock(cpu);
        let r = self.list.get_mut(&g).detach(me);
        self.list.unlock(g, cpu);
        r
    }
}

} // verus!
