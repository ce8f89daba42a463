//! Address batches stored in a `smallvec::SmallVec`.
//!
//! A request carries two batches of addresses (blacklist and connect).  They
//! are held in a small-vector with inline capacity, as a plain sequence of
//! [`Addr`] values.  Verus refuses a declaration of the vector's type (its
//! generic parameter is bound by the crate's `Array` trait), so the vector
//! sits in a private field of [`AddrBuf`], its contents are named by an
//! uninterpreted sequence, [`addr_buf_seq`], and each operation the crate
//! performs is stated over that name.

use vstd::prelude::*;

use crate::addr::Addr;

verus! {

/// A batch of addresses, backed by `smallvec::SmallVec` with inline room
/// for eight entries.
#[verifier::external_body]
#[derive(Debug)]
pub struct AddrBuf {
    inner: smallvec::SmallVec<[Addr; 8]>,
}

/// The addresses an address batch holds, in order.
pub uninterp spec fn addr_buf_seq(v: AddrBuf) -> Seq<Addr>;

/// Relies on `smallvec::SmallVec::new`: the new vector is empty.
#[verifier::external_body]
pub(crate) fn buf_new() -> (r: AddrBuf)
    ensures
        addr_buf_seq(r) == Seq::<Addr>::empty(),
{
    AddrBuf { inner: smallvec::SmallVec::new() }
}

/// Relies on `smallvec::SmallVec::push`: appends one element at the end.
#[verifier::external_body]
pub(crate) fn buf_push(v: &mut AddrBuf, a: Addr)
    ensures
        addr_buf_seq(*final(v)) == addr_buf_seq(*old(v)).push(a),
{
    v.inner.push(a);
}

/// Relies on `smallvec::SmallVec::append`: moves every element of `other`
/// to the end of `v`, preserving order, and leaves `other` empty.
#[verifier::external_body]
pub(crate) fn buf_append(v: &mut AddrBuf, other: &mut AddrBuf)
    ensures
        addr_buf_seq(*final(v)) == addr_buf_seq(*old(v)) + addr_buf_seq(*old(other)),
        addr_buf_seq(*final(other)) == Seq::<Addr>::empty(),
{
    v.inner.append(&mut other.inner);
}

/// Relies on `smallvec::SmallVec::is_empty`.
#[verifier::external_body]
pub(crate) fn buf_is_empty(v: &AddrBuf) -> (r: bool)
    ensures
        r <==> addr_buf_seq(*v).len() == 0,
{
    v.inner.is_empty()
}

/// Relies on `core::mem::take` (leaves a fresh empty vector behind, since
/// the small-vector's `Default` is the empty vector) and
/// `smallvec::SmallVec::into_vec` (hands the elements out in order).  The
/// two calls are one operation to the callers — empty the batch and keep
/// its elements — so they share this one wrapper.
#[verifier::external_body]
pub(crate) fn buf_take(v: &mut AddrBuf) -> (r: Vec<Addr>)
    ensures
        r@ == addr_buf_seq(*old(v)),
        addr_buf_seq(*final(v)) == Seq::<Addr>::empty(),
{
    core::mem::take(&mut v.inner).into_vec()
}

} // verus!
