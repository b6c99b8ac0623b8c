//! Borrowed-or-owned values, where the borrowed form reborrows with the same
//! type at every shorter lifetime (`Reborrow`) and owns by value or by
//! copy (`IntoOwnedImpl`).

use vstd::prelude::*;

use crate::std_calls::{
    borrow_of, is_borrow_of, is_to_owned_of, lemma_is_borrow_of, lemma_is_to_owned_of, to_owned_of,
};

verus! {

/// A type with a lifetime `'a` that names the same type at every shorter
/// lifetime `'b`.
pub trait ReborrowType<'a>: 'a {
    type Reborrow<'b>;
}

/// Shortening the lifetime of a value, by value or behind a reference.
pub trait ReborrowMethods<'a>: ReborrowType<'a> {
    fn reborrow<'b>(self) -> Self::Reborrow<'b>
    where
        'a: 'b,
    ;

    fn reborrow_ref<'b>(&'b self) -> &'b Self::Reborrow<'b>
    where
        'a: 'b,
    ;
}

/// A reborrowable type whose reborrows reborrow again, each into a type that
/// converts into the matching reborrow of `Self`: the reborrow stands for
/// `Self` up to lifetimes.
pub trait Reborrow<'a>:
    for<'b, 'c> ReborrowMethods<
        'a,
        Reborrow<'b>: ReborrowMethods<'b, Reborrow<'c>: Into<Self::Reborrow<'c>>>,
    >
{
}

impl<'a, T> Reborrow<'a> for T
where
    T: ReborrowMethods<'a>,
    for<'b> T::Reborrow<'b>: ReborrowMethods<'b>,
    for<'b, 'c> <T::Reborrow<'b> as ReborrowType<'b>>::Reborrow<'c>: Into<T::Reborrow<'c>>,
{
}

/// Plain references reborrow as the same reference at a shorter lifetime.
#[allow(type_alias_bounds)]
type Ref<'a, T: 'static + ?Sized> = &'a T;

impl<'gat_borrow, T: 'static + ?Sized> ReborrowType<'gat_borrow> for Ref<'gat_borrow, T> {
    type Reborrow<'a> = Ref<'a, T>;
}

impl<'gat_borrow, T: 'static + ?Sized> ReborrowMethods<'gat_borrow> for Ref<'gat_borrow, T> {
    fn reborrow<'b>(self) -> (r: Self::Reborrow<'b>)
    where
        'gat_borrow: 'b,
        ensures
            r == self,
    {
        self
    }

    fn reborrow_ref<'b>(&'b self) -> (r: &'b Self::Reborrow<'b>)
    where
        'gat_borrow: 'b,
        ensures
            *r == *self,
    {
        self
    }
}

/// A reborrowable value that turns into an owned value, by value
/// (`into_owned`) or from behind a reference (`to_own`, by default the
/// owned value of a clone).
pub trait IntoOwnedImpl<'a>: ReborrowMethods<'a> + Clone {
    type Owned;

    fn into_owned(self) -> Self::Owned;

    #[inline]
    fn to_own(&self) -> (owned: Self::Owned)
        default_ensures
            exists|c: Self| #[trigger] cloned(*self, c) && call_ensures(Self::into_owned, (c,), owned),
    {
        let copy = self.clone();
        proof {
            assert(cloned(*self, copy));
        }
        copy.into_owned()
    }
}

/// An `IntoOwnedImpl` whose reborrows own into values that convert into
/// `Self::Owned`.
pub trait IntoOwned<'a>:
    for<'b> IntoOwnedImpl<'a, Reborrow<'b>: IntoOwnedImpl<'b, Owned: Into<Self::Owned>>>
{
}

impl<'a, T> IntoOwned<'a> for T
where
    T: IntoOwnedImpl<'a>,
    for<'b> Self::Reborrow<'b>: IntoOwnedImpl<'b> + Clone,
    for<'b> <Self::Reborrow<'b> as IntoOwnedImpl<'b>>::Owned: Into<Self::Owned>,
{
}

/// A plain reference owns through `ToOwned`.
impl<'a, T: ToOwned + 'static + ?Sized> IntoOwnedImpl<'a> for &'a T {
    type Owned = T::Owned;

    fn into_owned(self) -> (owned: T::Owned)
        ensures
            is_to_owned_of(self, owned),
    {
        let owned = to_owned_of(self);
        proof {
            lemma_is_to_owned_of(self, owned);
        }
        owned
    }
}

/// Viewing an owned value as a (reborrowed) reference type.
pub trait ToRef<'a, Reference: 'a> {
    fn to_ref(&'a self) -> Reference;
}

/// Anything that borrows as `B` views itself as a `&B` through `Borrow`.
impl<'a, O: std::borrow::Borrow<B> + 'static, B: ?Sized> ToRef<'a, &'a B> for O {
    fn to_ref(&'a self) -> (r: &'a B)
        ensures
            is_borrow_of(self, r),
    {
        let r = borrow_of(self);
        proof {
            lemma_is_borrow_of(self, r);
        }
        r
    }
}

/// Either a borrowed value `R` or the owned value that it turns into.
pub enum Boo<'a, R: IntoOwnedImpl<'a>> {
    Borrowed(R),
    Owned(R::Owned),
}

impl<'a, R: IntoOwnedImpl<'a>> Boo<'a, R> {
    /// `owned` is a value that `into_owned` may hand out for `self`: what
    /// `R::into_owned` gives for a borrowed value, the value itself when
    /// owned.
    pub open spec fn owns_as(self, owned: R::Owned) -> bool {
        match self {
            Boo::Borrowed(r) => call_ensures(<R as IntoOwnedImpl<'a>>::into_owned, (r,), owned),
            Boo::Owned(o) => owned == o,
        }
    }

    /// `r` is a value that `to_ref` may hand out for `self`: the reborrow of
    /// a reference, or the owned value viewed through `ToRef`.
    pub open spec fn refs_as<'b>(&'b self, r: BooRef<'b, 'a, R>) -> bool
        where
            R::Owned: ToRef<'b, R::Reborrow<'b>>,
    {
        match *self {
            Boo::Borrowed(x) => r matches BooRef::Reference(y) && call_ensures(
                <R as ReborrowMethods<'a>>::reborrow_ref,
                (&x,),
                y,
            ),
            Boo::Owned(o) => r matches BooRef::Owned(y) && call_ensures(
                <R::Owned as ToRef<'b, R::Reborrow<'b>>>::to_ref,
                (&o,),
                y,
            ),
        }
    }

    /// `owned` is a value that `to_mut` may hand out for `self`: what
    /// `R::to_own` gives for a borrowed value, the value itself when owned.
    pub open spec fn owns_by_copy_as(self, owned: R::Owned) -> bool {
        match self {
            Boo::Borrowed(r) => call_ensures(<R as IntoOwnedImpl<'a>>::to_own, (&r,), owned),
            Boo::Owned(o) => owned == o,
        }
    }

    pub fn into_owned(self) -> (owned: R::Owned)
        ensures
            self.owns_as(owned),
    {
        match self {
            Boo::Borrowed(reference) => reference.into_owned(),
            Boo::Owned(owned) => owned,
        }
    }

    /// Makes the boo owned (by `to_own` when it is borrowed) and hands
    /// out the owned value for change in place.
    pub fn to_mut(&mut self) -> (owned: &mut R::Owned)
        ensures
            *final(self) == Boo::<'a, R>::Owned(*final(owned)),
            old(self).owns_by_copy_as(*owned),
    {
        if let Boo::Borrowed(reference) = self {
            let o = reference.to_own();
            *self = Boo::Owned(o);
        }
        match self {
            Boo::Owned(owned) => owned,
            Boo::Borrowed(_) => vstd::pervasive::unreached(),
        }
    }

    pub fn to_ref<'b>(&'b self) -> (r: BooRef<'b, 'a, R>)
        where
            'a: 'b,
            R::Owned: ToRef<'b, R::Reborrow<'b>>,
        ensures
            self.refs_as(r),
    {
        match self {
            Boo::Borrowed(reference) => BooRef::Reference(reference.reborrow_ref()),
            Boo::Owned(owned) => BooRef::Owned(owned.to_ref()),
        }
    }

    pub fn to_owned_ref<'b>(&'b self) -> (r: R::Reborrow<'b>)
        where
            'a: 'b,
            R::Owned: ToRef<'b, R::Reborrow<'b>>,
            R::Reborrow<'b>: Clone,
        ensures
            exists|via: BooRef<'b, 'a, R>| #[trigger] self.refs_as(via) && via.copies_as(r),
    {
        let via = self.to_ref();
        via.into_owned_ref()
    }

    /// Returns `true` if the boo is [`Borrowed`].
    ///
    /// [`Borrowed`]: Boo::Borrowed
    #[must_use]
    pub fn is_borrowed(&self) -> (b: bool)
        ensures
            b == (*self is Borrowed),
    {
        matches!(self, Boo::Borrowed(..))
    }

    /// Returns `true` if the boo is [`Owned`].
    ///
    /// [`Owned`]: Boo::Owned
    #[must_use]
    pub fn is_owned(&self) -> (b: bool)
        ensures
            b == (*self is Owned),
    {
        matches!(self, Boo::Owned(..))
    }
}

impl<'b, 'a: 'b, R: IntoOwnedImpl<'a>> ToRef<'b, BooRef<'b, 'a, R>> for Boo<'a, R> where
    R::Owned: ToRef<'b, R::Reborrow<'b>>,
 {
    fn to_ref(&'b self) -> (r: BooRef<'b, 'a, R>)
        ensures
            self.refs_as(r),
            call_ensures(Boo::<'a, R>::to_ref::<'b>, (self,), r),
    {
        Boo::to_ref(self)
    }
}

/// What `Boo::to_ref` gives: a reference to the reborrowed value, or a
/// reborrowed view of the owned value.
pub enum BooRef<'b, 'a: 'b, R: IntoOwnedImpl<'a>> {
    Reference(&'b R::Reborrow<'b>),
    Owned(R::Reborrow<'b>),
}

impl<'b, 'a: 'b, R: IntoOwnedImpl<'a>> BooRef<'b, 'a, R> {
    /// The reborrowed value that this `BooRef` stands for.
    pub open spec fn target(self) -> R::Reborrow<'b> {
        match self {
            BooRef::Reference(x) => *x,
            BooRef::Owned(o) => o,
        }
    }

    /// `r` is a value that `into_owned_ref` may hand out: a clone of the
    /// referenced value, or the held value itself.
    pub open spec fn copies_as(self, r: R::Reborrow<'b>) -> bool
        where
            R::Reborrow<'b>: Clone,
    {
        match self {
            BooRef::Reference(x) => cloned(*x, r),
            BooRef::Owned(o) => r == o,
        }
    }

    pub fn into_owned_ref(self) -> (r: R::Reborrow<'b>)
        where
            R::Reborrow<'b>: Clone,
        ensures
            self.copies_as(r),
    {
        match self {
            BooRef::Reference(reference) => reference.clone(),
            BooRef::Owned(owned) => owned,
        }
    }
}

impl<'b, 'a: 'b, R: IntoOwnedImpl<'a>> std::ops::Deref for BooRef<'b, 'a, R> {
    type Target = R::Reborrow<'b>;

    fn deref(&self) -> (target: &R::Reborrow<'b>)
        ensures
            *target == self.target(),
    {
        match self {
            BooRef::Reference(reference) => reference,
            BooRef::Owned(owned) => owned,
        }
    }
}

/// Every boo is exactly one of a borrowed and an owned value, so exactly
/// one of `is_borrowed` and `is_owned` answers `true`.
pub proof fn lemma_borrowed_xor_owned<'a, R: IntoOwnedImpl<'a>>(b: Boo<'a, R>)
    ensures
        (b is Borrowed) != (b is Owned),
{
}

/// An owned boo hands out exactly the value it holds.
pub proof fn lemma_owned_owns_as_itself<'a, R: IntoOwnedImpl<'a>>(o: R::Owned, x: R::Owned)
    ensures
        Boo::<'a, R>::Owned(o).owns_as(x) <==> x == o,
{
}

/// What a write through `to_mut` leaves is what `into_owned` reads back:
/// after `to_mut` turned `before` into `after`, with the handed-out value
/// ending as `written`, `into_owned` on `after` gives `written` and nothing
/// else, and an owned `before` handed out the value it held.
pub proof fn lemma_into_owned_reads_to_mut_write<'a, R: IntoOwnedImpl<'a>>(
    before: Boo<'a, R>,
    handed_out: R::Owned,
    after: Boo<'a, R>,
    written: R::Owned,
    read: R::Owned,
)
    requires
        after == Boo::<'a, R>::Owned(written),
        before.owns_by_copy_as(handed_out),
        after.owns_as(read),
    ensures
        read == written,
        before is Owned ==> handed_out == before->Owned_0,
{
}

/// `to_ref` keeps the variant: a borrowed value is viewed by reference, an
/// owned value as an owned reborrow.
pub proof fn lemma_to_ref_keeps_variant<'b, 'a: 'b, R: IntoOwnedImpl<'a>>(
    b: &'b Boo<'a, R>,
    r: BooRef<'b, 'a, R>,
)
    where
        R::Owned: ToRef<'b, R::Reborrow<'b>>,
    requires
        b.refs_as(r),
    ensures
        (*b is Borrowed) == (r is Reference),
        (*b is Owned) == (r is Owned),
{
}

/// `into_owned_ref` gives a clone of the value that `deref` shows.
pub proof fn lemma_owned_ref_clones_target<'b, 'a: 'b, R: IntoOwnedImpl<'a>>(
    r: BooRef<'b, 'a, R>,
    c: R::Reborrow<'b>,
)
    where
        R::Reborrow<'b>: Clone,
    requires
        r.copies_as(c),
    ensures
        cloned(r.target(), c),
{
}

/// A plain reference keeps the default `to_own`, which owns a clone of the
/// reference; a reference clones as itself, so `to_own` gives what
/// `ToOwned::to_owned` makes of the referenced value, as `into_owned` does.
pub proof fn lemma_reference_to_own_is_into_owned<'a, T: ToOwned + 'static + ?Sized>(
    x: &'a T,
    owned: T::Owned,
)
    requires
        call_ensures(<&'a T as IntoOwnedImpl<'a>>::to_own, (&x,), owned),
    ensures
        is_to_owned_of(x, owned),
{
    let c = choose|c: &'a T| #[trigger] cloned(x, c) && call_ensures(
        <&'a T as IntoOwnedImpl<'a>>::into_owned,
        (c,),
        owned,
    );
    assert(c == x);
}

} // verus!
