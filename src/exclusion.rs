//! Mutual exclusion of the reader/writer lock over every interleaving.
//!
//! Threads are numbered `0..n`. Each holds nothing, a read acquisition or a
//! write acquisition. A run is any sequence of steps, each naming a thread and
//! what it attempts; every step moves the lock by the same transition that the
//! executable lock operations are specified by.
use crate::rwlock::{unlocked, LockState};
use vstd::prelude::*;

verus! {

/// What one thread holds of the lock.
#[derive(PartialEq, Eq, Structural)]
pub enum Hold {
    Idle,
    Reading,
    Writing,
}

/// What one thread attempts.
pub enum LockOp {
    Write,
    Read,
    Release,
}

/// How many threads hold `h`.
pub open spec fn count(holds: Seq<Hold>, h: Hold) -> nat
    decreases holds.len(),
{
    if holds.len() == 0 {
        0
    } else {
        count(holds.drop_last(), h) + if holds.last() == h {
            1nat
        } else {
            0nat
        }
    }
}

/// The lock's counters agree with what the threads hold.
pub open spec fn consistent(lock: LockState, holds: Seq<Hold>) -> bool {
    &&& lock.wf()
    &&& lock.readers == count(holds, Hold::Reading)
    &&& lock.writer <==> count(holds, Hold::Writing) == 1
    &&& count(holds, Hold::Writing) <= 1
}

/// While a thread writes, every other thread holds nothing.
pub open spec fn exclusive(holds: Seq<Hold>) -> bool {
    forall|i: int, j: int|
        0 <= i < holds.len() && 0 <= j < holds.len() && i != j && holds[i] == Hold::Writing
            ==> holds[j] == Hold::Idle
}

/// One step of thread `t`. An acquisition is attempted only by a thread that
/// holds nothing, and fails (changing nothing) where the lock refuses it.
pub open spec fn step(lock: LockState, holds: Seq<Hold>, t: int, op: LockOp) -> (LockState, Seq<Hold>) {
    if t < 0 || t >= holds.len() {
        (lock, holds)
    } else {
        match op {
            LockOp::Write => if holds[t] == Hold::Idle && lock.can_write() {
                (lock.write_step(), holds.update(t, Hold::Writing))
            } else {
                (lock, holds)
            },
            LockOp::Read => if holds[t] == Hold::Idle && lock.can_read() {
                (lock.read_step(), holds.update(t, Hold::Reading))
            } else {
                (lock, holds)
            },
            LockOp::Release => if holds[t] == Hold::Writing {
                (lock.write_release(), holds.update(t, Hold::Idle))
            } else if holds[t] == Hold::Reading {
                (lock.read_release(), holds.update(t, Hold::Idle))
            } else {
                (lock, holds)
            },
        }
    }
}

/// The state after the steps of `trace`, in order.
pub open spec fn run(lock: LockState, holds: Seq<Hold>, trace: Seq<(int, LockOp)>) -> (LockState, Seq<Hold>)
    decreases trace.len(),
{
    if trace.len() == 0 {
        (lock, holds)
    } else {
        let (l, h) = run(lock, holds, trace.drop_last());
        step(l, h, trace.last().0, trace.last().1)
    }
}

/// `n` threads, none holding anything.
pub open spec fn idle_threads(n: nat) -> Seq<Hold> {
    Seq::new(n, |i: int| Hold::Idle)
}

proof fn lemma_count_update(s: Seq<Hold>, i: int, v: Hold, h: Hold)
    requires
        0 <= i < s.len(),
    ensures
        count(s.update(i, v), h) + (if s[i] == h { 1int } else { 0int }) == count(s, h) + (if v
            == h {
            1int
        } else {
            0int
        }),
    decreases s.len(),
{
    let u = s.update(i, v);
    if i == s.len() - 1 {
        assert(u.drop_last() =~= s.drop_last());
    } else {
        assert(u.drop_last() =~= s.drop_last().update(i, v));
        lemma_count_update(s.drop_last(), i, v, h);
    }
}

proof fn lemma_count_idle(n: nat, h: Hold)
    requires
        h != Hold::Idle,
    ensures
        count(idle_threads(n), h) == 0,
    decreases n,
{
    if n > 0 {
        assert(idle_threads(n).drop_last() =~= idle_threads((n - 1) as nat));
        lemma_count_idle((n - 1) as nat, h);
    }
}

proof fn lemma_count_positive(s: Seq<Hold>, i: int, h: Hold)
    requires
        0 <= i < s.len(),
        s[i] == h,
        h != Hold::Idle,
    ensures
        count(s, h) >= 1 + count(s.update(i, Hold::Idle), h),
{
    lemma_count_update(s, i, Hold::Idle, h);
}

proof fn lemma_consistent_exclusive(lock: LockState, holds: Seq<Hold>)
    requires
        consistent(lock, holds),
    ensures
        exclusive(holds),
{
    assert forall|i: int, j: int|
        0 <= i < holds.len() && 0 <= j < holds.len() && i != j && holds[i]
            == Hold::Writing implies holds[j] == Hold::Idle by {
        let rest = holds.update(i, Hold::Idle);
        lemma_count_positive(holds, i, Hold::Writing);
        if holds[j] == Hold::Writing {
            lemma_count_positive(rest, j, Hold::Writing);
        } else if holds[j] == Hold::Reading {
            lemma_count_positive(holds, j, Hold::Reading);
        }
    }
}

proof fn lemma_step_consistent(lock: LockState, holds: Seq<Hold>, t: int, op: LockOp)
    requires
        consistent(lock, holds),
    ensures
        consistent(step(lock, holds, t, op).0, step(lock, holds, t, op).1),
{
    if 0 <= t < holds.len() {
        lemma_consistent_exclusive(lock, holds);
        lemma_count_update(holds, t, Hold::Writing, Hold::Writing);
        lemma_count_update(holds, t, Hold::Writing, Hold::Reading);
        lemma_count_update(holds, t, Hold::Reading, Hold::Writing);
        lemma_count_update(holds, t, Hold::Reading, Hold::Reading);
        lemma_count_update(holds, t, Hold::Idle, Hold::Writing);
        lemma_count_update(holds, t, Hold::Idle, Hold::Reading);
        if holds[t] == Hold::Writing {
            lemma_count_positive(holds, t, Hold::Writing);
        }
        if holds[t] == Hold::Reading {
            lemma_count_positive(holds, t, Hold::Reading);
        }
    }
}

/// Starting from an unlocked lock and idle threads, every interleaving of
/// acquisitions and releases keeps the lock's counters equal to what the
/// threads hold, and never lets a writer overlap with another writer or with a
/// reader.
pub proof fn lemma_mutual_exclusion(n: nat, trace: Seq<(int, LockOp)>)
    ensures
        consistent(run(unlocked(), idle_threads(n), trace).0, run(unlocked(), idle_threads(n), trace).1),
        exclusive(run(unlocked(), idle_threads(n), trace).1),
    decreases trace.len(),
{
    if trace.len() == 0 {
        lemma_count_idle(n, Hold::Writing);
        lemma_count_idle(n, Hold::Reading);
    } else {
        lemma_mutual_exclusion(n, trace.drop_last());
        let (l, h) = run(unlocked(), idle_threads(n), trace.drop_last());
        lemma_step_consistent(l, h, trace.last().0, trace.last().1);
    }
    let (l, h) = run(unlocked(), idle_threads(n), trace);
    lemma_consistent_exclusive(l, h);
}

/// Readers may overlap: while no thread writes and the reader count has room,
/// a read attempt by an idle thread succeeds, whoever else is reading.
pub proof fn lemma_readers_overlap(lock: LockState, holds: Seq<Hold>, t: int)
    requires
        consistent(lock, holds),
        0 <= t < holds.len(),
        holds[t] == Hold::Idle,
        count(holds, Hold::Writing) == 0,
        lock.readers < usize::MAX,
    ensures
        step(lock, holds, t, LockOp::Read).1[t] == Hold::Reading,
        step(lock, holds, t, LockOp::Read).0.readers == lock.readers + 1,
        consistent(step(lock, holds, t, LockOp::Read).0, step(lock, holds, t, LockOp::Read).1),
{
    lemma_step_consistent(lock, holds, t, LockOp::Read);
}

} // verus!
