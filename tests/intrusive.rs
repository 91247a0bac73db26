use kernel_sync::intrusive::{container_of, field_of, Adapter, Nested, Relative};

#[allow(dead_code)]
struct Foo {
    a: u32,
    b: u32,
}

#[allow(dead_code)]
struct Outer {
    tag: u64,
    foo: Foo,
}

struct A;
struct B;
struct InnerFoo;

impl Adapter<Foo> for A {
    fn offset() -> usize {
        0
    }

    fn spec_offset() -> usize {
        0
    }
}

impl Adapter<Foo> for B {
    fn offset() -> usize {
        core::mem::size_of::<u32>()
    }

    fn spec_offset() -> usize {
        core::mem::size_of::<u32>()
    }
}

impl Adapter<Outer> for InnerFoo {
    fn offset() -> usize {
        core::mem::size_of::<u64>()
    }

    fn spec_offset() -> usize {
        core::mem::size_of::<u64>()
    }
}

#[test]
fn test_relative_adapter() {
    assert_eq!(
        Relative::<Foo, B, A, u32>::offset(),
        core::mem::size_of::<u32>()
    );
}

#[test]
fn relative_offset_is_difference_of_field_offsets() {
    assert_eq!(Relative::<Foo, B, A, u32>::offset(), B::offset() - A::offset());
    assert_eq!(Relative::<Foo, A, A, u32>::offset(), 0);
}

#[test]
fn relative_offset_wraps_when_target_lies_after_source() {
    assert_eq!(Relative::<Foo, A, B, u32>::offset(), 0usize.wrapping_sub(4));
    assert_eq!(
        Relative::<Foo, A, B, u32>::offset().wrapping_add(B::offset()),
        A::offset()
    );
}

#[test]
fn relative_adapter_steps_to_sibling_field() {
    let host: usize = 0x1000;
    let b_addr = field_of::<Foo, B>(host);
    assert_eq!(b_addr, 0x1004);
    let a_addr = container_of::<u32, Relative<Foo, B, A, u32>>(b_addr);
    assert_eq!(a_addr, field_of::<Foo, A>(host));
    assert_eq!(a_addr, 0x1000);
}

#[test]
fn nested_offset_is_sum() {
    assert_eq!(Nested::<Outer, InnerFoo, Foo, B>::offset(), 12);
}

#[test]
fn nested_adapter_reaches_host() {
    let host: usize = 0x2000;
    let inner = field_of::<Foo, B>(field_of::<Outer, InnerFoo>(host));
    assert_eq!(inner, 0x200c);
    assert_eq!(container_of::<Outer, Nested<Outer, InnerFoo, Foo, B>>(inner), host);
}

#[test]
fn field_and_host_round_trip() {
    assert_eq!(container_of::<Foo, B>(field_of::<Foo, B>(0x40)), 0x40);
    assert_eq!(container_of::<Foo, B>(field_of::<Foo, B>(usize::MAX)), usize::MAX);
    assert_eq!(field_of::<Foo, B>(usize::MAX), 3);
}
