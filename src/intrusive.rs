//! Field-offset adapters.
//!
//! An adapter says that a field lives at a fixed byte offset inside a host
//! type. Addresses are plain `usize` values: the host of a field is found by
//! stepping back by the offset, and a field of a host by stepping forward.
use core::marker::PhantomData;
use vstd::prelude::*;
use vstd::wrapping::usize_specs::{wrapping_add, wrapping_sub};

verus! {

/// The byte offset of one field inside the host type `T`.
pub trait Adapter<T> {
    /// The offset, fixed for the whole program.
    spec fn spec_offset() -> usize;

    fn offset() -> (r: usize)
        ensures
            r == Self::spec_offset(),
    ;
}

/// Address of the field at `offset` inside the host at `host`.
pub open spec fn field_addr(host: usize, offset: usize) -> usize {
    wrapping_add(host, offset)
}

/// Address of the host whose field at `offset` lives at `field`.
pub open spec fn host_addr(field: usize, offset: usize) -> usize {
    wrapping_sub(field, offset)
}

/// Locates a sibling field from a given one inside the same host `T`.
///
/// Holding the address of the field that `From` locates, this adapter (as an
/// adapter of `S`, the type of the field that `To` locates) steps to the field
/// that `To` locates, without going through the host.
pub struct Relative<T, From: Adapter<T>, To: Adapter<T>, S>(
    PhantomData<T>,
    PhantomData<From>,
    PhantomData<To>,
    PhantomData<S>,
);

impl<T, From: Adapter<T>, To: Adapter<T>, S> Adapter<S> for Relative<T, From, To, S> {
    open spec fn spec_offset() -> usize {
        wrapping_sub(From::spec_offset(), To::spec_offset())
    }

    fn offset() -> (r: usize) {
        From::offset().wrapping_sub(To::offset())
    }
}

/// Locates the host `P` from a field inside a field of `P`.
///
/// `S` locates a field of type `N` inside `P`, and `T` locates a field inside
/// `N`; the composed offset is the sum of the two.
pub struct Nested<P, S: Adapter<P>, N, T: Adapter<N>>(
    PhantomData<P>,
    PhantomData<S>,
    PhantomData<N>,
    PhantomData<T>,
);

impl<P, S: Adapter<P>, N, T: Adapter<N>> Adapter<P> for Nested<P, S, N, T> {
    open spec fn spec_offset() -> usize {
        wrapping_add(S::spec_offset(), T::spec_offset())
    }

    fn offset() -> (r: usize) {
        S::offset().wrapping_add(T::offset())
    }
}

/// The address of the host of type `T` whose field (located by `A`) is at
/// `field`.
pub fn container_of<T, A: Adapter<T>>(field: usize) -> (r: usize)
    ensures
        r == host_addr(field, A::spec_offset()),
{
    field.wrapping_sub(A::offset())
}

/// The address of the field (located by `A`) of the host of type `T` at `host`.
pub fn field_of<T, A: Adapter<T>>(host: usize) -> (r: usize)
    ensures
        r == field_addr(host, A::spec_offset()),
{
    host.wrapping_add(A::offset())
}

/// A relative adapter's offset is the difference of the two field offsets:
/// exactly when `From` lies after `To`, and modulo the address width always.
pub proof fn lemma_relative_offset<T, From: Adapter<T>, To: Adapter<T>, S>()
    ensures
        From::spec_offset() >= To::spec_offset() ==> Relative::<T, From, To, S>::spec_offset()
            == From::spec_offset() - To::spec_offset(),
        wrapping_add(Relative::<T, From, To, S>::spec_offset(), To::spec_offset())
            == From::spec_offset(),
{
}

/// From the address of the `From` field of any host, the relative adapter
/// reaches the address of the `To` field of that same host.
pub proof fn lemma_relative_reaches_sibling<T, From: Adapter<T>, To: Adapter<T>, S>(host: usize)
    ensures
        host_addr(field_addr(host, From::spec_offset()), Relative::<T, From, To, S>::spec_offset())
            == field_addr(host, To::spec_offset()),
{
}

/// From the address of a field nested one level down inside any host, the
/// nested adapter reaches the host itself.
pub proof fn lemma_nested_reaches_host<P, S: Adapter<P>, N, T: Adapter<N>>(host: usize)
    ensures
        host_addr(
            field_addr(field_addr(host, S::spec_offset()), T::spec_offset()),
            Nested::<P, S, N, T>::spec_offset(),
        ) == host,
{
}

/// Stepping to a field and back to its host is the identity.
pub proof fn lemma_field_host_round_trip(host: usize, offset: usize)
    ensures
        host_addr(field_addr(host, offset), offset) == host,
{
}

} // verus!
