//! Borrowed-or-owned values (`Boo`) over any borrowed type whose lifetime can
//! be shortened (reborrowed) and that can produce an owned value, with the
//! rules of the derive that writes the reborrow impls.
//!
//! `into_owned` holds the reborrow traits whose reborrows reborrow again
//! (re-exported at the crate root), `to_own` the plain form of the same
//! design, and `derive` the decisions of the derive.

pub mod derive;
pub mod into_owned;
pub mod std_calls;
pub mod to_own;

pub use into_owned::{
    Boo, BooRef, IntoOwned, IntoOwnedImpl, Reborrow, ReborrowMethods, ReborrowType, ToRef,
};
