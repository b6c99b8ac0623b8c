//! Borrowed-or-owned values whose borrowed form is any type with a
//! lifetime that can be shortened (a "reborrow") and turned into an owned
//! value (`ToOwn`).

use vstd::prelude::*;

use crate::std_calls::{
    borrow_of, is_borrow_of, is_to_owned_of, lemma_is_borrow_of, lemma_is_to_owned_of, to_owned_of,
};

verus! {

/// A type with a lifetime `'a` that names the same type at every shorter
/// lifetime `'b`.
pub trait ReborrowType<'a>: 'a {
    type Reborrow<'b>;
}

/// Shortening the lifetime of a value, by value or behind a reference.
pub trait Reborrow<'a>: ReborrowType<'a> {
    fn reborrow<'b>(self) -> Self::Reborrow<'b>
    where
        'a: 'b,
    ;

    fn reborrow_ref<'b>(&'b self) -> &'b Self::Reborrow<'b>
    where
        'a: 'b,
    ;
}

/// A plain reference reborrows as the same reference at a shorter lifetime.
type Ref<'a, T> = &'a T;

impl<'a, T: 'static + ?Sized> ReborrowType<'a> for Ref<'a, T> {
    type Reborrow<'b> = Ref<'b, T>;
}

impl<'a, T: 'static + ?Sized> Reborrow<'a> for Ref<'a, T> {
    fn reborrow<'b>(self) -> (r: &'b T)
    where
        'a: 'b,
        ensures
            r == self,
    {
        self
    }

    fn reborrow_ref<'b>(&'b self) -> (r: &'b &'b T)
    where
        'a: 'b,
        ensures
            *r == *self,
    {
        self
    }
}

/// A borrowed value that can produce an owned value, which in turn can be
/// viewed again as the borrowed type (see `ToRef`).
pub trait ToOwn<'a>: Reborrow<'a> {
    type Owned;

    fn to_own(&self) -> Self::Owned;
}

/// A plain reference owns through `ToOwned`.
impl<'a, T: ToOwned + 'static + ?Sized> ToOwn<'a> for &'a T {
    type Owned = T::Owned;

    fn to_own(&self) -> (owned: T::Owned)
        ensures
            is_to_owned_of(*self, owned),
    {
        let owned = to_owned_of(*self);
        proof {
            lemma_is_to_owned_of(*self, owned);
        }
        owned
    }
}

/// Viewing an owned value as a (reborrowed) reference type.
pub trait ToRef<'a, Reference: 'a> {
    fn to_ref(&'a self) -> Reference;
}

/// Anything that borrows as `B` views itself as a `&B` through `Borrow`.
impl<'a, O: std::borrow::Borrow<B> + 'static, B: ?Sized> ToRef<'a, &'a B> for O {
    fn to_ref(&'a self) -> (r: &'a B)
        ensures
            is_borrow_of(self, r),
    {
        let r = borrow_of(self);
        proof {
            lemma_is_borrow_of(self, r);
        }
        r
    }
}

/// Either a borrowed value `R` or the owned value that it turns into.
pub enum Boo<'a, R: ToOwn<'a>> {
    Reference(R),
    Owned(R::Owned),
}

impl<'a, R: ToOwn<'a>> Boo<'a, R> {
    /// `owned` is a value that `into_owned` may hand out for `self`: what
    /// `R::to_own` gives for a reference, the value itself when owned.
    pub open spec fn owns_as(self, owned: R::Owned) -> bool {
        match self {
            Boo::Reference(r) => call_ensures(<R as ToOwn<'a>>::to_own, (&r,), owned),
            Boo::Owned(o) => owned == o,
        }
    }

    /// `r` is a value that `to_ref` may hand out for `self`: the reborrow of
    /// a reference, or the owned value viewed through `ToRef`.
    pub open spec fn refs_as<'b>(&'b self, r: BooRef<'b, 'a, R>) -> bool
        where
            R::Owned: ToRef<'b, R::Reborrow<'b>>,
    {
        match *self {
            Boo::Reference(x) => r matches BooRef::Reference(y) && call_ensures(
                <R as Reborrow<'a>>::reborrow_ref,
                (&x,),
                y,
            ),
            Boo::Owned(o) => r matches BooRef::Owned(y) && call_ensures(
                <R::Owned as ToRef<'b, R::Reborrow<'b>>>::to_ref,
                (&o,),
                y,
            ),
        }
    }

    pub fn into_owned(self) -> (owned: R::Owned)
        ensures
            self.owns_as(owned),
    {
        match self {
            Boo::Reference(reference) => reference.to_own(),
            Boo::Owned(owned) => owned,
        }
    }

    /// Makes the boo owned (by `to_own` when it holds a reference) and hands
    /// out the owned value for change in place.
    pub fn to_mut(&mut self) -> (owned: &mut R::Owned)
        where
            R: Clone,
        ensures
            *final(self) == Boo::<'a, R>::Owned(*final(owned)),
            old(self).owns_as(*owned),
    {
        if let Boo::Reference(reference) = self {
            let o = reference.to_own();
            *self = Boo::Owned(o);
        }
        match self {
            Boo::Owned(owned) => owned,
            Boo::Reference(_) => vstd::pervasive::unreached(),
        }
    }

    pub fn to_ref<'b>(&'b self) -> (r: BooRef<'b, 'a, R>)
        where
            'a: 'b,
            R::Owned: ToRef<'b, R::Reborrow<'b>>,
        ensures
            self.refs_as(r),
    {
        match self {
            Boo::Reference(reference) => BooRef::Reference(reference.reborrow_ref()),
            Boo::Owned(owned) => BooRef::Owned(owned.to_ref()),
        }
    }

    pub fn to_owned_ref<'b>(&'b self) -> (r: R::Reborrow<'b>)
        where
            'a: 'b,
            R::Owned: ToRef<'b, R::Reborrow<'b>>,
            R::Reborrow<'b>: Clone,
        ensures
            exists|via: BooRef<'b, 'a, R>| #[trigger] self.refs_as(via) && via.copies_as(r),
    {
        let via = self.to_ref();
        via.into_owned_ref()
    }

    /// Returns `true` if the boo is [`Reference`].
    ///
    /// [`Reference`]: Boo::Reference
    #[must_use]
    pub fn is_reference(&self) -> (b: bool)
        ensures
            b == (*self is Reference),
    {
        matches!(self, Boo::Reference(..))
    }

    /// Returns `true` if the boo is [`Owned`].
    ///
    /// [`Owned`]: Boo::Owned
    #[must_use]
    pub fn is_owned(&self) -> (b: bool)
        ensures
            b == (*self is Owned),
    {
        matches!(self, Boo::Owned(..))
    }
}

impl<'b, 'a: 'b, R: ToOwn<'a>> ToRef<'b, BooRef<'b, 'a, R>> for Boo<'a, R> where
    R::Owned: ToRef<'b, R::Reborrow<'b>>,
 {
    fn to_ref(&'b self) -> (r: BooRef<'b, 'a, R>)
        ensures
            self.refs_as(r),
            call_ensures(Boo::<'a, R>::to_ref::<'b>, (self,), r),
    {
        Boo::to_ref(self)
    }
}

/// What `Boo::to_ref` gives: a reference to the reborrowed value, or a
/// reborrowed view of the owned value.
pub enum BooRef<'b, 'a: 'b, R: ToOwn<'a>> {
    Reference(&'b R::Reborrow<'b>),
    Owned(R::Reborrow<'b>),
}

impl<'b, 'a: 'b, R: ToOwn<'a>> BooRef<'b, 'a, R> {
    /// The reborrowed value that this `BooRef` stands for.
    pub open spec fn target(self) -> R::Reborrow<'b> {
        match self {
            BooRef::Reference(x) => *x,
            BooRef::Owned(o) => o,
        }
    }

    /// `r` is a value that `into_owned_ref` may hand out: a clone of the
    /// referenced value, or the held value itself.
    pub open spec fn copies_as(self, r: R::Reborrow<'b>) -> bool
        where
            R::Reborrow<'b>: Clone,
    {
        match self {
            BooRef::Reference(x) => cloned(*x, r),
            BooRef::Owned(o) => r == o,
        }
    }

    pub fn into_owned_ref(self) -> (r: R::Reborrow<'b>)
        where
            R::Reborrow<'b>: Clone,
        ensures
            self.copies_as(r),
    {
        match self {
            BooRef::Reference(reference) => reference.clone(),
            BooRef::Owned(owned) => owned,
        }
    }
}

impl<'b, 'a: 'b, R: ToOwn<'a>> std::ops::Deref for BooRef<'b, 'a, R> {
    type Target = R::Reborrow<'b>;

    fn deref(&self) -> (target: &R::Reborrow<'b>)
        ensures
            *target == self.target(),
    {
        match self {
            BooRef::Reference(reference) => reference,
            BooRef::Owned(owned) => owned,
        }
    }
}

/// Every boo is exactly one of a reference and an owned value, so exactly
/// one of `is_reference` and `is_owned` answers `true`.
pub proof fn lemma_reference_xor_owned<'a, R: ToOwn<'a>>(b: Boo<'a, R>)
    ensures
        (b is Reference) != (b is Owned),
{
}

/// An owned boo hands out exactly the value it holds.
pub proof fn lemma_owned_owns_as_itself<'a, R: ToOwn<'a>>(o: R::Owned, x: R::Owned)
    ensures
        Boo::<'a, R>::Owned(o).owns_as(x) <==> x == o,
{
}

/// What a write through `to_mut` leaves is what `into_owned` reads back:
/// after `to_mut` turned `before` into `after`, with the handed-out value
/// ending as `written`, `into_owned` on `after` gives `written` and nothing
/// else, and the value first handed out is one that `into_owned` on
/// `before` may have given.
pub proof fn lemma_into_owned_reads_to_mut_write<'a, R: ToOwn<'a>>(
    before: Boo<'a, R>,
    handed_out: R::Owned,
    after: Boo<'a, R>,
    written: R::Owned,
    read: R::Owned,
)
    requires
        after == Boo::<'a, R>::Owned(written),
        before.owns_as(handed_out),
        after.owns_as(read),
    ensures
        read == written,
        before is Owned ==> handed_out == before->Owned_0,
{
}

/// `to_ref` keeps the variant: a reference stays a reference, an owned value
/// is viewed as an owned reborrow.
pub proof fn lemma_to_ref_keeps_variant<'b, 'a: 'b, R: ToOwn<'a>>(
    b: &'b Boo<'a, R>,
    r: BooRef<'b, 'a, R>,
)
    where
        R::Owned: ToRef<'b, R::Reborrow<'b>>,
    requires
        b.refs_as(r),
    ensures
        (*b is Reference) == (r is Reference),
        (*b is Owned) == (r is Owned),
{
}

/// `into_owned_ref` gives a clone of the value that `deref` shows.
pub proof fn lemma_owned_ref_clones_target<'b, 'a: 'b, R: ToOwn<'a>>(
    r: BooRef<'b, 'a, R>,
    c: R::Reborrow<'b>,
)
    where
        R::Reborrow<'b>: Clone,
    requires
        r.copies_as(c),
    ensures
        cloned(r.target(), c),
{
}

} // verus!
