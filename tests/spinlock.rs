use kernel_sync::intrusive::Adapter;
use kernel_sync::irq::{Cpu, DisableInterruptGuard};
use kernel_sync::rwlock::LockState;
use kernel_sync::spinlock::{ISpinLock, SpinLock};

#[test]
fn new_lock_is_unlocked() {
    let l = SpinLock::new(5u32);
    assert_eq!(l.reader_count(), 0);
    assert_eq!(l.writer_count(), 0);
    let c = SpinLock::const_new(6u32);
    assert_eq!(c.writer_count(), 0);
}

#[test]
fn writer_excludes_writer_and_reader() {
    let mut cpu = Cpu::new(true);
    let mut l = SpinLock::new(1u32);
    let g = l.try_lock().expect("free lock");
    assert_eq!(l.writer_count(), 1);
    assert!(l.try_lock().is_none());
    assert!(l.try_write().is_none());
    assert!(l.try_read().is_none());
    assert_eq!(l.reader_count(), 0);
    l.unlock(g, &mut cpu);
    assert_eq!(l.writer_count(), 0);
    assert!(l.try_write().is_some());
}

#[test]
fn readers_share_and_exclude_writer() {
    let mut cpu = Cpu::new(true);
    let mut l = SpinLock::new(7u32);
    let r1 = l.read();
    let r2 = l.try_read().expect("readers share");
    assert_eq!(l.reader_count(), 2);
    assert_eq!(*l.get_read(&r1), 7);
    assert!(l.try_lock().is_none());
    l.unlock_read(r1, &mut cpu);
    assert_eq!(l.reader_count(), 1);
    assert!(l.try_write().is_none());
    l.unlock_read(r2, &mut cpu);
    assert_eq!(l.reader_count(), 0);
    let w = l.write();
    assert_eq!(l.writer_count(), 1);
    l.unlock(w, &mut cpu);
}

#[test]
fn value_changes_through_write_guard() {
    let mut cpu = Cpu::new(false);
    let mut l = SpinLock::new(10u32);
    let g = l.lock();
    *l.get_mut(&g) += 5;
    assert_eq!(*l.get(&g), 15);
    l.unlock(g, &mut cpu);
    let r = l.read();
    assert_eq!(*l.get_read(&r), 15);
    l.unlock_read(r, &mut cpu);
}

#[test]
fn three_threads_interleaved() {
    // Threads t0, t1, t2 take turns on one lock.
    let mut cpu = Cpu::new(true);
    let mut l = SpinLock::new(0u32);
    let w0 = l.try_write().expect("t0 writes");
    assert!(l.try_write().is_none()); // t1 waits
    assert!(l.try_read().is_none()); // t2 waits
    l.unlock(w0, &mut cpu);
    let r1 = l.try_read().expect("t1 reads");
    let r2 = l.try_read().expect("t2 reads");
    assert!(l.try_write().is_none()); // t0 waits
    l.unlock_read(r2, &mut cpu);
    assert!(l.try_write().is_none()); // t0 still waits
    l.unlock_read(r1, &mut cpu);
    let w0 = l.try_write().expect("t0 writes again");
    assert_eq!(l.writer_count(), 1);
    assert_eq!(l.reader_count(), 0);
    l.unlock(w0, &mut cpu);
}

#[test]
fn reader_count_saturates() {
    let mut s = LockState { readers: usize::MAX - 1, writer: false };
    assert!(s.try_read());
    assert_eq!(s.readers, usize::MAX);
    assert!(!s.try_read());
    assert_eq!(s.readers, usize::MAX);
    assert!(!s.try_write());
}

#[test]
fn irqsave_lock_masks_until_release() {
    let mut cpu = Cpu::new(true);
    let mut l = SpinLock::new(0u8);
    let g = l.irqsave_lock(&mut cpu);
    assert!(!cpu.irq_enabled());
    assert!(g.holds_irq_guard());
    assert_eq!(l.writer_count(), 1);
    l.unlock(g, &mut cpu);
    assert!(cpu.irq_enabled());
    assert_eq!(l.writer_count(), 0);
}

#[test]
fn irqsave_keeps_interrupts_off_when_they_were_off() {
    let mut cpu = Cpu::new(false);
    let mut l = SpinLock::new(0u8);
    let g = l.irqsave_write(&mut cpu);
    l.unlock(g, &mut cpu);
    assert!(!cpu.irq_enabled());
}

#[test]
fn failed_try_irqsave_restores_interrupts() {
    let mut cpu = Cpu::new(true);
    let mut l = SpinLock::new(0u8);
    let g = l.lock();
    assert!(l.try_irqsave_lock(&mut cpu).is_none());
    assert!(cpu.irq_enabled());
    assert!(l.try_irqsave_write(&mut cpu).is_none());
    assert!(l.try_irqsave_read(&mut cpu).is_none());
    assert!(cpu.irq_enabled());
    l.unlock(g, &mut cpu);
    let r = l.try_irqsave_read(&mut cpu).expect("free lock");
    assert!(!cpu.irq_enabled());
    l.unlock_read(r, &mut cpu);
    assert!(cpu.irq_enabled());
}

#[test]
fn irqsave_read_masks_until_release() {
    let mut cpu = Cpu::new(true);
    let mut l = SpinLock::new(3u8);
    let r = l.irqsave_read(&mut cpu);
    assert!(!cpu.irq_enabled());
    assert!(r.holds_irq_guard());
    l.unlock_read(r, &mut cpu);
    assert!(cpu.irq_enabled());
}

#[test]
fn take_irq_guard_moves_the_duty() {
    let mut cpu = Cpu::new(true);
    let mut outer = SpinLock::new(1u8);
    let mut inner = SpinLock::new(2u16);
    let mut a = outer.irqsave_lock(&mut cpu);
    let mut b = inner.irqsave_lock(&mut cpu);
    b.take_irq_guard(&mut a, &mut cpu);
    assert!(b.holds_irq_guard());
    assert!(!a.holds_irq_guard());
    assert!(!cpu.irq_enabled());
    // The outer lock goes first; interrupts stay off while the inner is held.
    outer.unlock(a, &mut cpu);
    assert!(!cpu.irq_enabled());
    inner.unlock(b, &mut cpu);
    assert!(cpu.irq_enabled());
}

#[test]
fn take_irq_guard_between_read_guards() {
    let mut cpu = Cpu::new(true);
    let mut outer = SpinLock::new(1u8);
    let mut inner = SpinLock::new(2u8);
    let mut a = outer.irqsave_read(&mut cpu);
    let mut b = inner.irqsave_read(&mut cpu);
    b.take_irq_guard(&mut a, &mut cpu);
    assert!(b.holds_irq_guard() && !a.holds_irq_guard());
    outer.unlock_read(a, &mut cpu);
    assert!(!cpu.irq_enabled());
    inner.unlock_read(b, &mut cpu);
    assert!(cpu.irq_enabled());
}

#[test]
fn forget_irq_leaves_interrupts_masked() {
    let mut cpu = Cpu::new(true);
    let mut l = SpinLock::new(0u8);
    let mut g = l.irqsave_lock(&mut cpu);
    g.forget_irq();
    assert!(!g.holds_irq_guard());
    l.unlock(g, &mut cpu);
    assert!(!cpu.irq_enabled());
}

#[test]
fn interrupt_guard_restores_saved_state() {
    let mut cpu = Cpu::new(true);
    let g = DisableInterruptGuard::new(&mut cpu);
    assert!(g.was_enabled());
    assert!(!cpu.irq_enabled());
    let h = DisableInterruptGuard::new(&mut cpu);
    assert!(!h.was_enabled());
    h.restore(&mut cpu);
    assert!(!cpu.irq_enabled());
    g.restore(&mut cpu);
    assert!(cpu.irq_enabled());
}

#[allow(dead_code)]
struct Node {
    link: u64,
    lock: u64,
}

struct LockField;

impl Adapter<Node> for LockField {
    fn offset() -> usize {
        8
    }

    fn spec_offset() -> usize {
        8
    }
}

#[test]
fn ispinlock_locks_and_locates_its_host() {
    let mut cpu = Cpu::new(true);
    let mut l: ISpinLock<Node, LockField> = ISpinLock::new();
    assert_eq!(l.writer_count(), 0);
    let g = l.irqsave_lock(&mut cpu);
    assert!(!cpu.irq_enabled());
    assert_eq!(l.writer_count(), 1);
    l.unlock(g, &mut cpu);
    assert!(cpu.irq_enabled());
    let r1 = l.read();
    let r2 = l.irqsave_read(&mut cpu);
    assert_eq!(l.reader_count(), 2);
    l.unlock_read(r2, &mut cpu);
    l.unlock_read(r1, &mut cpu);
    assert_eq!(l.reader_count(), 0);
    let g = l.lock();
    assert!(!g.holds_irq_guard());
    l.unlock(g, &mut cpu);
    assert_eq!(ISpinLock::<Node, LockField>::host_of(0x3008), 0x3000);
}
