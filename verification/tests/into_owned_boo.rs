use std::ops::Deref;

use gat_borrow::into_owned::{Boo, BooRef, IntoOwnedImpl, ReborrowMethods, ToRef};

#[test]
fn gat_into_owned_of_reference_copies_the_text() {
    let text = String::from("hello");
    let boo: Boo<&str> = Boo::Borrowed(text.as_str());
    let owned: String = boo.into_owned();
    assert_eq!(owned, "hello");
}

#[test]
fn gat_into_owned_of_owned_gives_it_back() {
    let boo: Boo<&str> = Boo::Owned(String::from("kept"));
    assert_eq!(boo.into_owned(), "kept");
}

#[test]
fn gat_to_mut_turns_a_borrow_owned_and_writes_through() {
    let text = "abc";
    let mut boo: Boo<&str> = Boo::Borrowed(text);
    assert!(boo.is_borrowed());
    {
        let owned = boo.to_mut();
        assert_eq!(owned, "abc");
        owned.push('d');
    }
    assert!(boo.is_owned());
    assert!(!boo.is_borrowed());
    assert_eq!(boo.into_owned(), "abcd");
    assert_eq!(text, "abc");
}

#[test]
fn gat_to_mut_on_owned_keeps_the_value() {
    let mut boo: Boo<&str> = Boo::Owned(String::from("x"));
    assert_eq!(boo.to_mut().as_str(), "x");
    boo.to_mut().push('y');
    assert_eq!(boo.into_owned(), "xy");
}

#[test]
fn gat_to_ref_keeps_the_variant() {
    let reference: Boo<&str> = Boo::Borrowed("r");
    assert!(matches!(reference.to_ref(), BooRef::Reference(_)));
    assert_eq!(*reference.to_ref(), "r");
    let owned: Boo<&str> = Boo::Owned(String::from("o"));
    assert!(matches!(owned.to_ref(), BooRef::Owned(_)));
    assert_eq!(*owned.to_ref(), "o");
}

#[test]
fn gat_to_owned_ref_shows_the_contents() {
    let reference: Boo<&str> = Boo::Borrowed("shared");
    assert_eq!(reference.to_owned_ref(), "shared");
    let owned: Boo<&str> = Boo::Owned(String::from("mine"));
    assert_eq!(owned.to_owned_ref(), "mine");
}

#[test]
fn gat_into_owned_ref_of_boo_ref() {
    let inner: &str = "in";
    let by_reference: BooRef<'_, '_, &str> = BooRef::Reference(&inner);
    assert_eq!(by_reference.into_owned_ref(), "in");
    let by_value: BooRef<'_, '_, &str> = BooRef::Owned("val");
    assert_eq!(by_value.into_owned_ref(), "val");
}

#[test]
fn gat_deref_of_boo_ref_shows_the_target() {
    let inner: &str = "target";
    let by_reference: BooRef<'_, '_, &str> = BooRef::Reference(&inner);
    assert_eq!(*by_reference.deref(), "target");
    let by_value: BooRef<'_, '_, &str> = BooRef::Owned("value");
    assert_eq!(*by_value.deref(), "value");
}

#[test]
fn gat_boo_is_borrowed_or_owned() {
    let a: Boo<&str> = Boo::Borrowed("a");
    assert!(a.is_borrowed() && !a.is_owned());
    let b: Boo<&str> = Boo::Owned(String::from("b"));
    assert!(b.is_owned() && !b.is_borrowed());
}

#[test]
fn gat_slices_own_as_vectors() {
    let data = [1, 2, 3];
    let mut boo: Boo<&[i32]> = Boo::Borrowed(&data[..]);
    boo.to_mut().push(4);
    assert_eq!(boo.into_owned(), vec![1, 2, 3, 4]);
    assert_eq!(data, [1, 2, 3]);
}

#[test]
fn gat_plain_references_reborrow_and_own() {
    let text: &str = "plain";
    let again: &str = text.reborrow();
    assert!(std::ptr::eq(again, text));
    assert!(std::ptr::eq(*text.reborrow_ref(), text));
    let owned: String = text.into_owned();
    let copied: String = text.to_own();
    assert_eq!(copied, "plain");
    assert_eq!(owned, "plain");
}

#[test]
fn gat_owned_values_view_as_references() {
    let owned = String::from("view");
    let seen: &str = owned.to_ref();
    assert_eq!(seen, "view");
    let boo: Boo<&str> = Boo::Owned(String::from("via trait"));
    let by_trait: BooRef<'_, '_, &str> = ToRef::to_ref(&boo);
    assert_eq!(*by_trait, "via trait");
}
