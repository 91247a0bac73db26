use kernel_sync::irq::Cpu;
use kernel_sync::tinyarc::ArcList;
use kernel_sync::unique_list::UniqueListHead;

#[test]
fn value_lives_until_last_handle_drops() {
    let mut pool: ArcList<u32> = ArcList::new();
    let first = pool.new_arc(42);
    assert_eq!(pool.strong_count(&first), 1);
    let c1 = pool.clone_arc(&first);
    let c2 = pool.clone_arc(&first);
    let c3 = pool.clone_arc(&c1);
    assert_eq!(pool.strong_count(&first), 4);
    assert_eq!(pool.drop_arc(c2), None);
    assert_eq!(*pool.get(&first), 42);
    assert_eq!(pool.drop_arc(first), None);
    assert_eq!(*pool.get(&c3), 42);
    assert_eq!(pool.drop_arc(c3), None);
    assert_eq!(pool.strong_count(&c1), 1);
    assert_eq!(pool.drop_arc(c1), Some(42));
}

#[test]
fn single_handle_releases_at_once() {
    let mut pool: ArcList<&str> = ArcList::new();
    let h = pool.new_arc("x");
    let other = pool.new_arc("y");
    assert_eq!(pool.drop_arc(h), Some("x"));
    assert_eq!(*pool.get(&other), "y");
}

#[test]
fn list_order_forward_and_backward() {
    let mut l: ArcList<char> = ArcList::new();
    let head = l.new_arc('h');
    let a = l.new_arc('a');
    let b = l.new_arc('b');
    let (ih, ia, ib) = (head.index(), a.index(), b.index());
    let head_ref = l.clone_arc(&head);
    let a_ref = l.clone_arc(&a);
    let b_ref = l.clone_arc(&b);
    assert!(l.insert(head));
    assert!(l.insert_after(&head_ref, a));
    assert!(l.insert_after(&a_ref, b));
    assert_eq!(l.forward(), vec![ih, ia, ib]);
    assert_eq!(l.backward(), vec![ib, ia, ih]);
    assert!(l.detach(&a_ref));
    assert_eq!(l.forward(), vec![ih, ib]);
    assert_eq!(l.backward(), vec![ib, ih]);
    assert!(!l.is_linked(&a_ref));
    assert!(l.is_linked(&b_ref));
}

#[test]
fn insert_after_head_goes_in_front_of_earlier_nodes() {
    let mut l: ArcList<u8> = ArcList::new();
    let head = l.new_arc(0);
    let a = l.new_arc(1);
    let b = l.new_arc(2);
    let (ih, ia, ib) = (head.index(), a.index(), b.index());
    let head_ref = l.clone_arc(&head);
    assert!(l.insert(head));
    assert!(l.insert_after(&head_ref, a));
    assert!(l.insert_after(&head_ref, b));
    assert_eq!(l.forward(), vec![ih, ib, ia]);
}

#[test]
fn detaching_unlinked_node_changes_nothing() {
    let mut l: ArcList<u8> = ArcList::new();
    let a = l.new_arc(1);
    let b = l.new_arc(2);
    let loose = l.new_arc(3);
    let ia = a.index();
    let b_ref = l.clone_arc(&b);
    assert!(l.insert(a));
    assert!(l.insert(b));
    let before = l.forward();
    assert!(!l.detach(&loose));
    assert_eq!(l.forward(), before);
    assert_eq!(l.strong_count(&loose), 1);
    assert_eq!(l.strong_count(&b_ref), 2);
    assert_eq!(l.forward(), vec![b_ref.index(), ia]);
}

#[test]
fn inserting_linked_node_is_refused() {
    let mut l: ArcList<u8> = ArcList::new();
    let a = l.new_arc(1);
    let a2 = l.clone_arc(&a);
    let a3 = l.clone_arc(&a);
    assert!(l.insert(a));
    assert_eq!(l.strong_count(&a3), 3);
    assert!(!l.insert(a2));
    assert_eq!(l.forward(), vec![a3.index()]);
    assert_eq!(l.strong_count(&a3), 2);
}

#[test]
fn list_share_is_released_by_detach() {
    let mut l: ArcList<u8> = ArcList::new();
    let a = l.new_arc(9);
    let keep = l.clone_arc(&a);
    assert!(l.insert(a));
    assert_eq!(l.strong_count(&keep), 2);
    assert!(l.detach(&keep));
    assert_eq!(l.strong_count(&keep), 1);
    assert_eq!(l.drop_arc(keep), Some(9));
}

#[test]
fn detach_then_reinsert_restores_list() {
    let mut l: ArcList<u8> = ArcList::new();
    let head = l.new_arc(0);
    let a = l.new_arc(1);
    let b = l.new_arc(2);
    let head_ref = l.clone_arc(&head);
    let a_ref = l.clone_arc(&a);
    assert!(l.insert(head));
    assert!(l.insert_after(&head_ref, b));
    let without_a = l.forward();
    assert!(l.insert_after(&head_ref, a));
    let with_a = l.forward();
    assert!(l.detach(&a_ref));
    assert_eq!(l.forward(), without_a);
    let again = l.clone_arc(&a_ref);
    assert!(l.insert_after(&head_ref, again));
    assert_eq!(l.forward(), with_a);
}

#[test]
fn unique_list_head_inserts_and_detaches_under_lock() {
    let mut cpu = Cpu::new(true);
    let mut head: UniqueListHead<u32> = UniqueListHead::new();
    let mut g = head.lock(&mut cpu);
    assert!(!cpu.irq_enabled());
    let a = head.get_list_mut(&g).new_arc(1);
    let b = head.get_list_mut(&g).new_arc(2);
    let a_ref = head.get_list_mut(&g).clone_arc(&a);
    let b_ref = head.get_list_mut(&g).clone_arc(&b);
    g.forget_irq();
    head.unlock(g, &mut cpu);
    assert!(!cpu.irq_enabled());
    let mut cpu = Cpu::new(true);
    assert!(head.insert(a, &mut cpu));
    assert!(cpu.irq_enabled());
    assert!(head.insert(b, &mut cpu));
    assert!(head.detach(&a_ref, &mut cpu));
    assert!(!head.detach(&a_ref, &mut cpu));
    assert!(cpu.irq_enabled());
    let g = head.lock(&mut cpu);
    assert_eq!(head.get_list_mut(&g).forward(), vec![b_ref.index()]);
    head.unlock(g, &mut cpu);
    assert!(cpu.irq_enabled());
}
