//! The two calls into std that owning and viewing go through, and what may
//! be said of their results: each result is one that the call may give.

use vstd::prelude::*;

verus! {

/// Hands out an owned copy of `t` by `ToOwned::to_owned`.
#[verifier::external_body]
pub(crate) fn to_owned_of<T: ToOwned + ?Sized>(t: &T) -> T::Owned {
    t.to_owned()
}

/// Borrows `owned` as a `B` by `Borrow::borrow`.
#[verifier::external_body]
pub(crate) fn borrow_of<'a, O: std::borrow::Borrow<B>, B: ?Sized>(owned: &'a O) -> &'a B {
    owned.borrow()
}

/// `owned` is a value that `ToOwned::to_owned` may make of `t`.
pub closed spec fn is_to_owned_of<T: ToOwned + ?Sized>(t: &T, owned: T::Owned) -> bool {
    call_ensures(to_owned_of::<T>, (t,), owned)
}

/// `b` is a reference that `Borrow::borrow` may give for `owned`.
pub closed spec fn is_borrow_of<O: std::borrow::Borrow<B>, B: ?Sized>(owned: &O, b: &B) -> bool {
    call_ensures(borrow_of::<O, B>, (owned,), b)
}

/// What a call of `to_owned_of` returned is a value that `ToOwned::to_owned`
/// may make.
pub(crate) proof fn lemma_is_to_owned_of<T: ToOwned + ?Sized>(t: &T, owned: T::Owned)
    requires
        call_ensures(to_owned_of::<T>, (t,), owned),
    ensures
        is_to_owned_of(t, owned),
{
}

/// What a call of `borrow_of` returned is a reference that `Borrow::borrow`
/// may give.
pub(crate) proof fn lemma_is_borrow_of<O: std::borrow::Borrow<B>, B: ?Sized>(owned: &O, b: &B)
    requires
        call_ensures(borrow_of::<O, B>, (owned,), b),
    ensures
        is_borrow_of(owned, b),
{
}

} // verus!
