//! The decisions behind deriving the reborrow traits for a type with one
//! lifetime: which items are accepted (and their parts), how many lifetimes
//! they may have, which attributes carry options, what an option must be
//! named, which option wins, and which lifetimes are renamed.

use syn::Item;
use vstd::prelude::*;

verus! {

/// The name of the attribute that carries options (`#[gat_borrow(..)]`).
pub const OPTION_ATTRIBUTE: &'static str = "gat_borrow";

/// The one option key (`reborrow = <type>`).
pub const OPTION_KEY: &'static str = "reborrow";

/// The lifetime that the generated impls are generic over, in place of the
/// item's own lifetime.
pub const OUTER_LIFETIME: &'static str = "'gat_borrow";

/// Why the derive refuses an item.
#[derive(Clone, Copy, PartialEq, Eq, Structural, Debug)]
pub enum DeriveError {
    /// The item is none of a struct, an enum, a union or a type alias.
    UnsupportedItem,
    /// The item does not have exactly one lifetime parameter.
    LifetimeCount,
    /// An option attribute holds something other than `reborrow = <type>`.
    UnknownOption,
}

impl DeriveError {
    /// The text of the compile error for this refusal.
    pub open spec fn message_text(self) -> Seq<char> {
        match self {
            DeriveError::UnsupportedItem => "expected a struct, enum, union, or typedef"@,
            DeriveError::LifetimeCount => "expected exactly one lifetime"@,
            DeriveError::UnknownOption => "expected 'reborrow = <type>'"@,
        }
    }

    pub fn message(&self) -> (m: &'static str)
        ensures
            m@ == self.message_text(),
    {
        match self {
            DeriveError::UnsupportedItem => "expected a struct, enum, union, or typedef",
            DeriveError::LifetimeCount => "expected exactly one lifetime",
            DeriveError::UnknownOption => "expected 'reborrow = <type>'",
        }
    }
}

/// The item's lifetime parameter, which must be its only one.
pub fn sole_lifetime<T>(lifetimes: Vec<T>) -> (r: Result<T, DeriveError>)
    ensures
        lifetimes@.len() == 1 ==> r == Ok::<T, DeriveError>(lifetimes@[0]),
        lifetimes@.len() != 1 ==> r == Err::<T, DeriveError>(DeriveError::LifetimeCount),
{
    let mut lifetimes = lifetimes;
    if lifetimes.len() == 1 {
        match lifetimes.pop() {
            Some(lifetime) => Ok(lifetime),
            None => Err(DeriveError::LifetimeCount),
        }
    } else {
        Err(DeriveError::LifetimeCount)
    }
}

/// Text equality of two strings.
fn same_text(a: &str, b: &str) -> (r: bool)
    ensures
        r == (a@ == b@),
{
    let n = a.unicode_len();
    if n != b.unicode_len() {
        return false;
    }
    let mut i: usize = 0;
    while i < n
        invariant
            n == a@.len(),
            n == b@.len(),
            i <= n,
            forall|k: int| 0 <= k < i ==> a@[k] == b@[k],
        decreases n - i,
    {
        if a.get_char(i) != b.get_char(i) {
            return false;
        }
        i = i + 1;
    }
    proof {
        assert(a@ =~= b@);
    }
    true
}

/// A path names the option attribute when it is that single identifier.
pub open spec fn names_option_attribute(path_ident: Option<String>) -> bool {
    path_ident matches Some(name) && name@ == OPTION_ATTRIBUTE@
}

/// Whether an attribute carries options, from its path taken as a single
/// identifier (`None` when the path is not one).
pub fn is_option_attribute(path_ident: &Option<String>) -> (b: bool)
    ensures
        b == names_option_attribute(*path_ident),
{
    match path_ident {
        Some(name) => same_text(name.as_str(), OPTION_ATTRIBUTE),
        None => false,
    }
}

/// The positions, in order, of the paths that name the option attribute.
pub open spec fn option_indices(path_idents: Seq<Option<String>>) -> Seq<usize>
    decreases path_idents.len(),
{
    if path_idents.len() == 0 {
        Seq::empty()
    } else {
        let rest = option_indices(path_idents.drop_last());
        if names_option_attribute(path_idents.last()) {
            rest.push((path_idents.len() - 1) as usize)
        } else {
            rest
        }
    }
}

/// The positions of the attributes that carry options, in order.
pub fn option_attributes(path_idents: &Vec<Option<String>>) -> (positions: Vec<usize>)
    ensures
        positions@ == option_indices(path_idents@),
        forall|k: int|
            #![trigger positions@[k]]
            0 <= k < positions@.len() ==> positions@[k] < path_idents@.len()
                && names_option_attribute(path_idents@[positions@[k] as int]),
        forall|k: int, l: int| 0 <= k < l < positions@.len() ==> positions@[k] < positions@[l],
        forall|i: int|
            0 <= i < path_idents@.len() && names_option_attribute(#[trigger] path_idents@[i])
                ==> positions@.contains(i as usize),
{
    let mut positions: Vec<usize> = Vec::new();
    let n = path_idents.len();
    let mut i: usize = 0;
    while i < n
        invariant
            n == path_idents@.len(),
            i <= n,
            positions@ == option_indices(path_idents@.take(i as int)),
            forall|k: int|
                #![trigger positions@[k]]
                0 <= k < positions@.len() ==> positions@[k] < i
                    && names_option_attribute(path_idents@[positions@[k] as int]),
            forall|k: int, l: int| 0 <= k < l < positions@.len() ==> positions@[k] < positions@[l],
            forall|j: int|
                0 <= j < i && names_option_attribute(#[trigger] path_idents@[j])
                    ==> positions@.contains(j as usize),
        decreases n - i,
    {
        assert(path_idents@.take(i + 1).drop_last() =~= path_idents@.take(i as int));
        assert(path_idents@.take(i + 1).last() == path_idents@[i as int]);
        if is_option_attribute(&path_idents[i]) {
            let ghost before = positions@;
            positions.push(i);
            proof {
                assert forall|j: int|
                    0 <= j < i + 1 && names_option_attribute(#[trigger] path_idents@[j])
                    implies positions@.contains(j as usize) by {
                    if j < i {
                        let k = choose|k: int| 0 <= k < before.len() && before[k] == j as usize;
                        assert(positions@[k] == j as usize);
                    } else {
                        assert(positions@[before.len() as int] == j as usize);
                    }
                }
            }
        }
        i = i + 1;
    }
    assert(path_idents@.take(n as int) =~= path_idents@);
    positions
}

/// An option is written `reborrow = <type>`: its key must be `reborrow`.
pub fn check_option_key(key: &str) -> (r: Result<(), DeriveError>)
    ensures
        r == (if key@ == OPTION_KEY@ {
            Ok(())
        } else {
            Err(DeriveError::UnknownOption)
        }),
{
    if same_text(key, OPTION_KEY) {
        Ok(())
    } else {
        Err(DeriveError::UnknownOption)
    }
}

/// Of several options the last one wins; with none, the default applies
/// (`None`).
pub fn chosen_option<T>(options: Vec<T>) -> (r: Option<T>)
    ensures
        options@.len() == 0 ==> r == None::<T>,
        options@.len() > 0 ==> r == Some(options@.last()),
{
    let mut options = options;
    options.pop()
}

/// A lifetime is renamed to the outer lifetime exactly when it is the item's
/// own lifetime.
pub fn renames_lifetime(lifetime: &str, own: &str) -> (b: bool)
    ensures
        b == (lifetime@ == own@),
{
    same_text(lifetime, own)
}

#[verifier::external_type_specification]
#[verifier::external_body]
pub struct ExTokenStream(proc_macro2::TokenStream);

#[verifier::external_type_specification]
#[verifier::external_body]
pub struct ExIdent(proc_macro2::Ident);

#[verifier::external_type_specification]
#[verifier::external_body]
pub struct ExItem(syn::Item);

#[verifier::external_type_specification]
#[verifier::external_body]
pub struct ExGenerics(syn::Generics);

#[verifier::external_type_specification]
#[verifier::external_body]
pub struct ExAttribute(syn::Attribute);

#[verifier::external_type_specification]
#[verifier::external_body]
pub struct ExSynError(syn::Error);

/// The name, generics and attributes of an item.
pub type ItemParts = (proc_macro2::Ident, syn::Generics, Vec<syn::Attribute>);

/// A parsed item: the name, generics and attributes of an item of an
/// accepted kind, or an item of another kind.
pub enum ParsedItem {
    Struct(proc_macro2::Ident, syn::Generics, Vec<syn::Attribute>),
    Enum(proc_macro2::Ident, syn::Generics, Vec<syn::Attribute>),
    Union(proc_macro2::Ident, syn::Generics, Vec<syn::Attribute>),
    TypeAlias(proc_macro2::Ident, syn::Generics, Vec<syn::Attribute>),
    Other(syn::Item),
}

/// Why no item parts came out of the tokens: they do not parse as an item
/// (syn's error), or the item is refused for the reason given (the compile
/// error is then placed at the item, with the reason's message).
pub enum ItemFailure {
    Syntax(syn::Error),
    Refused(syn::Item, DeriveError),
}

/// Parses `tokens` as an item with `syn::parse2::<syn::Item>` and moves the
/// name, generics and attributes out of a struct, enum, union or type alias.
/// Nothing is stated of the result: what `syn` parses is its own grammar.
#[verifier::external_body]
fn parse_syn_item(tokens: proc_macro2::TokenStream) -> Result<ParsedItem, syn::Error> {
    match syn::parse2::<Item>(tokens) {
        Ok(Item::Struct(s)) => Ok(ParsedItem::Struct(s.ident, s.generics, s.attrs)),
        Ok(Item::Enum(e)) => Ok(ParsedItem::Enum(e.ident, e.generics, e.attrs)),
        Ok(Item::Union(u)) => Ok(ParsedItem::Union(u.ident, u.generics, u.attrs)),
        Ok(Item::Type(t)) => Ok(ParsedItem::TypeAlias(t.ident, t.generics, t.attrs)),
        Ok(other) => Ok(ParsedItem::Other(other)),
        Err(err) => Err(err),
    }
}

/// `r` is what `item_parts` gives for `parsed`: the parts of an accepted
/// item, and for an item of another kind its refusal as
/// `DeriveError::UnsupportedItem`.
pub open spec fn parts_of(parsed: ParsedItem, r: Result<ItemParts, ItemFailure>) -> bool {
    match parsed {
        ParsedItem::Struct(ident, generics, attrs) => r == Ok::<ItemParts, ItemFailure>(
            (ident, generics, attrs),
        ),
        ParsedItem::Enum(ident, generics, attrs) => r == Ok::<ItemParts, ItemFailure>(
            (ident, generics, attrs),
        ),
        ParsedItem::Union(ident, generics, attrs) => r == Ok::<ItemParts, ItemFailure>(
            (ident, generics, attrs),
        ),
        ParsedItem::TypeAlias(ident, generics, attrs) => r == Ok::<ItemParts, ItemFailure>(
            (ident, generics, attrs),
        ),
        ParsedItem::Other(item) => r == Err::<ItemParts, ItemFailure>(
            ItemFailure::Refused(item, DeriveError::UnsupportedItem),
        ),
    }
}

/// The name, generics and attributes of an accepted item; an item of any
/// other kind is refused with `DeriveError::UnsupportedItem`.
pub fn item_parts(parsed: ParsedItem) -> (r: Result<ItemParts, ItemFailure>)
    ensures
        parts_of(parsed, r),
{
    match parsed {
        ParsedItem::Struct(ident, generics, attrs) => Ok((ident, generics, attrs)),
        ParsedItem::Enum(ident, generics, attrs) => Ok((ident, generics, attrs)),
        ParsedItem::Union(ident, generics, attrs) => Ok((ident, generics, attrs)),
        ParsedItem::TypeAlias(ident, generics, attrs) => Ok((ident, generics, attrs)),
        ParsedItem::Other(item) => Err(ItemFailure::Refused(item, DeriveError::UnsupportedItem)),
    }
}

/// An accepted item hands on its own name, generics and attributes, all of
/// them and unchanged (so an item's `#[gat_borrow(..)]` options and every
/// generic parameter reach the impls); only an item of another kind is
/// refused, and then as `UnsupportedItem`, with that item.
pub proof fn lemma_accepted_items_keep_their_parts(
    parsed: ParsedItem,
    r: Result<ItemParts, ItemFailure>,
)
    requires
        parts_of(parsed, r),
    ensures
        r is Ok <==> !(parsed is Other),
        parsed is Struct ==> r->Ok_0 == (parsed->Struct_0, parsed->Struct_1, parsed->Struct_2),
        parsed is Enum ==> r->Ok_0 == (parsed->Enum_0, parsed->Enum_1, parsed->Enum_2),
        parsed is Union ==> r->Ok_0 == (parsed->Union_0, parsed->Union_1, parsed->Union_2),
        parsed is TypeAlias ==> r->Ok_0 == (
            parsed->TypeAlias_0,
            parsed->TypeAlias_1,
            parsed->TypeAlias_2,
        ),
        r is Ok ==> (r->Ok_0).2@ == match parsed {
            ParsedItem::Struct(_, _, attrs) => attrs@,
            ParsedItem::Enum(_, _, attrs) => attrs@,
            ParsedItem::Union(_, _, attrs) => attrs@,
            ParsedItem::TypeAlias(_, _, attrs) => attrs@,
            ParsedItem::Other(_) => Seq::empty(),
        },
        parsed is Other ==> r == Err::<ItemParts, ItemFailure>(
            ItemFailure::Refused(parsed->Other_0, DeriveError::UnsupportedItem),
        ),
{
}

/// `parsed` is what `syn::parse2::<syn::Item>` may make of `tokens`, split by
/// kind (see `parse_syn_item`).
pub closed spec fn parses_as(tokens: proc_macro2::TokenStream, parsed: Result<ParsedItem, syn::Error>) -> bool {
    call_ensures(parse_syn_item, (tokens,), parsed)
}

/// Parses the item that the derive is applied to and takes its parts (see
/// `item_parts`); a parse error of `syn` is handed on as it came.
pub fn parse_item(tokens: proc_macro2::TokenStream) -> (r: Result<ItemParts, ItemFailure>)
    ensures
        exists|parsed: Result<ParsedItem, syn::Error>|
            #[trigger] parses_as(tokens, parsed) && match parsed {
                Ok(p) => parts_of(p, r),
                Err(e) => r == Err::<ItemParts, ItemFailure>(ItemFailure::Syntax(e)),
            },
{
    let ghost given = tokens;
    let parsed = parse_syn_item(tokens);
    let ghost seen = parsed;
    assert(parses_as(given, seen));
    match parsed {
        Ok(parsed) => item_parts(parsed),
        Err(err) => Err(ItemFailure::Syntax(err)),
    }
}

/// Why the reborrow impls cannot be written: the item's lifetimes, or the
/// first of its options that failed to parse.
pub enum PlanFailure<E> {
    Lifetimes(DeriveError),
    Option(E),
}

/// Every option parsed.
pub open spec fn all_parsed<T, E>(options: Seq<Result<T, E>>) -> bool {
    forall|i: int| 0 <= i < options.len() ==> (#[trigger] options[i]) is Ok
}

/// What the reborrow impls are written from, decided in this order: the
/// item must have exactly one lifetime; then every option must have parsed,
/// and the first that did not is the failure; then the last option wins
/// (`None`: the default reborrow type).
pub fn reborrow_plan<L, T, E>(lifetimes: Vec<L>, options: Vec<Result<T, E>>) -> (r: Result<
    (L, Option<T>),
    PlanFailure<E>,
>)
    ensures
        lifetimes@.len() != 1 ==> r == Err::<(L, Option<T>), PlanFailure<E>>(
            PlanFailure::Lifetimes(DeriveError::LifetimeCount),
        ),
        lifetimes@.len() == 1 && all_parsed(options@) ==> r == Ok::<(L, Option<T>), PlanFailure<E>>(
            (
                lifetimes@[0],
                if options@.len() == 0 {
                    None
                } else {
                    Some(options@.last()->Ok_0)
                },
            ),
        ),
        lifetimes@.len() == 1 && !all_parsed(options@) ==> exists|k: int|
            0 <= k < options@.len() && (#[trigger] options@[k]) is Err && (forall|j: int|
                0 <= j < k ==> (#[trigger] options@[j]) is Ok) && r == Err::<
                (L, Option<T>),
                PlanFailure<E>,
            >(PlanFailure::Option(options@[k]->Err_0)),
{
    let ghost lts = lifetimes@;
    let lifetime = match sole_lifetime(lifetimes) {
        Ok(lifetime) => lifetime,
        Err(err) => return Err(PlanFailure::Lifetimes(err)),
    };
    let ghost all = options@;
    let n = options.len();
    let mut rest = options;
    let mut parsed: Vec<T> = Vec::new();
    let mut k: usize = 0;
    while rest.len() > 0
        invariant
            lts.len() == 1,
            lts == lifetimes@,
            lifetime == lts[0],
            all == options@,
            all.len() == n,
            k + rest@.len() == all.len(),
            rest@ == all.skip(k as int),
            parsed@.len() == k,
            forall|j: int| 0 <= j < k ==> (#[trigger] all[j]) is Ok && parsed@[j] == all[j]->Ok_0,
        decreases rest@.len(),
    {
        let option = rest.remove(0);
        assert(option == all[k as int]);
        match option {
            Ok(value) => parsed.push(value),
            Err(err) => {
                assert(!all_parsed(all));
                return Err(PlanFailure::Option(err));
            },
        }
        k = k + 1;
        assert(rest@ =~= all.skip(k as int));
    }
    assert(all_parsed(all));
    Ok((lifetime, chosen_option(parsed)))
}

/// The attributes that carry options, in order, out of `attrs`, whose paths
/// (taken as single identifiers) are `path_idents`.
pub open spec fn options_of<A>(attrs: Seq<A>, path_idents: Seq<Option<String>>) -> Seq<A>
    decreases path_idents.len(),
{
    if path_idents.len() == 0 {
        Seq::empty()
    } else {
        let rest = options_of(attrs.drop_last(), path_idents.drop_last());
        if names_option_attribute(path_idents.last()) {
            rest.push(attrs.last())
        } else {
            rest
        }
    }
}

/// Every position that `option_indices` gives lies inside the paths.
pub proof fn lemma_option_indices_inside(path_idents: Seq<Option<String>>)
    requires
        path_idents.len() <= usize::MAX,
    ensures
        forall|k: int|
            0 <= k < option_indices(path_idents).len() ==> (#[trigger] option_indices(
                path_idents,
            )[k]) < path_idents.len(),
    decreases path_idents.len(),
{
    if path_idents.len() > 0 {
        let rest = path_idents.drop_last();
        lemma_option_indices_inside(rest);
        assert forall|k: int| 0 <= k < option_indices(path_idents).len() implies (#[trigger] option_indices(
            path_idents,
        )[k]) < path_idents.len() by {
            if k < option_indices(rest).len() {
                assert(option_indices(path_idents)[k] == option_indices(rest)[k]);
            }
        }
    }
}

/// The attributes at the positions that `option_attributes` gives are
/// exactly `options_of` the attributes: the ones that carry options, in
/// order.
pub proof fn lemma_positions_pick_options<A>(attrs: Seq<A>, path_idents: Seq<Option<String>>)
    requires
        attrs.len() == path_idents.len(),
        path_idents.len() <= usize::MAX,
    ensures
        option_indices(path_idents).map_values(|p: usize| attrs[p as int]) == options_of(
            attrs,
            path_idents,
        ),
    decreases path_idents.len(),
{
    if path_idents.len() > 0 {
        let shorter = attrs.drop_last();
        let rest = path_idents.drop_last();
        lemma_positions_pick_options(shorter, rest);
        lemma_option_indices_inside(rest);
        let picked_rest = option_indices(rest).map_values(|p: usize| shorter[p as int]);
        assert(option_indices(rest).map_values(|p: usize| attrs[p as int]) =~= picked_rest);
        if names_option_attribute(path_idents.last()) {
            let last = (path_idents.len() - 1) as usize;
            assert(option_indices(path_idents) == option_indices(rest).push(last));
            assert(option_indices(path_idents).map_values(|p: usize| attrs[p as int])
                =~= picked_rest.push(attrs.last()));
        }
    }
}

/// Attributes that do not carry options leave the options alone: putting one
/// in at any place gives the same options in the same order, so the derive
/// writes the same impls (or refuses the same way).
pub proof fn lemma_other_attribute_inserted<A>(
    attrs: Seq<A>,
    path_idents: Seq<Option<String>>,
    i: int,
    attr: A,
    path_ident: Option<String>,
)
    requires
        attrs.len() == path_idents.len(),
        0 <= i <= attrs.len(),
        !names_option_attribute(path_ident),
    ensures
        options_of(attrs.insert(i, attr), path_idents.insert(i, path_ident)) == options_of(
            attrs,
            path_idents,
        ),
    decreases path_idents.len(),
{
    let more_attrs = attrs.insert(i, attr);
    let more_paths = path_idents.insert(i, path_ident);
    if i == attrs.len() {
        assert(more_attrs.drop_last() =~= attrs);
        assert(more_paths.drop_last() =~= path_idents);
        assert(more_paths.last() == path_ident);
    } else {
        lemma_other_attribute_inserted(
            attrs.drop_last(),
            path_idents.drop_last(),
            i,
            attr,
            path_ident,
        );
        assert(more_attrs.drop_last() =~= attrs.drop_last().insert(i, attr));
        assert(more_paths.drop_last() =~= path_idents.drop_last().insert(i, path_ident));
        assert(more_attrs.last() == attrs.last());
        assert(more_paths.last() == path_idents.last());
    }
}

/// Taking out an attribute that does not carry options leaves the options
/// alone.
pub proof fn lemma_other_attribute_removed<A>(
    attrs: Seq<A>,
    path_idents: Seq<Option<String>>,
    i: int,
)
    requires
        attrs.len() == path_idents.len(),
        0 <= i < attrs.len(),
        !names_option_attribute(path_idents[i]),
    ensures
        options_of(attrs.remove(i), path_idents.remove(i)) == options_of(attrs, path_idents),
{
    lemma_other_attribute_inserted(
        attrs.remove(i),
        path_idents.remove(i),
        i,
        attrs[i],
        path_idents[i],
    );
    assert(attrs.remove(i).insert(i, attrs[i]) =~= attrs);
    assert(path_idents.remove(i).insert(i, path_idents[i]) =~= path_idents);
}

} // verus!
