use gat_borrow::derive::{
    check_option_key, chosen_option, is_option_attribute, item_parts, option_attributes,
    parse_item, reborrow_plan, renames_lifetime, sole_lifetime, DeriveError, ItemFailure,
    ParsedItem, PlanFailure, OPTION_ATTRIBUTE, OPTION_KEY, OUTER_LIFETIME,
};

fn tokens(text: &str) -> proc_macro2::TokenStream {
    text.parse().unwrap()
}

fn refusal_reason<T>(result: Result<T, ItemFailure>) -> DeriveError {
    match result {
        Err(ItemFailure::Refused(_, reason)) => reason,
        Err(ItemFailure::Syntax(err)) => panic!("unexpected syntax error: {}", err),
        Ok(_) => panic!("expected a refusal"),
    }
}

#[test]
fn accepted_items_give_their_parts() {
    let cases = [
        ("struct Holder<'a>(&'a u8);", "Holder"),
        ("#[gat_borrow(reborrow = X<'a>)] enum Choice<'a> { One(&'a str) }", "Choice"),
        ("union Bits<'a> { r: &'a u8 }", "Bits"),
        ("type Ref<'a, T: 'static + ?Sized> = &'a T;", "Ref"),
    ];
    for (text, name) in cases {
        let (ident, generics, _attrs) = parse_item(tokens(text)).ok().unwrap();
        assert_eq!(ident.to_string(), name);
        assert_eq!(generics.lifetimes().count(), 1);
    }
    let (_, _, attrs) = parse_item(tokens(cases[1].0)).ok().unwrap();
    assert_eq!(attrs.len(), 1);
}

#[test]
fn other_items_are_refused() {
    let reason = refusal_reason(parse_item(tokens("fn f() {}")));
    assert_eq!(reason, DeriveError::UnsupportedItem);
    assert_eq!(reason.message(), "expected a struct, enum, union, or typedef");
    assert_eq!(
        refusal_reason(parse_item(tokens("impl X {}"))),
        DeriveError::UnsupportedItem
    );
    match parse_item(tokens("fn named() {}")) {
        Err(ItemFailure::Refused(syn::Item::Fn(f), _)) => assert_eq!(f.sig.ident, "named"),
        _ => panic!("expected the function to be refused"),
    }
}

#[test]
fn syntax_errors_are_handed_on() {
    assert!(matches!(parse_item(tokens("struct")), Err(ItemFailure::Syntax(_))));
}

#[test]
fn item_parts_by_kind() {
    let item: syn::Item = syn::parse_str("const C: u8 = 1;").unwrap();
    assert_eq!(refusal_reason(item_parts(ParsedItem::Other(item))), DeriveError::UnsupportedItem);
    let ident = proc_macro2::Ident::new("S", proc_macro2::Span::call_site());
    let generics: syn::Generics = syn::parse_str("<'a>").unwrap();
    let (name, generics, attrs) =
        item_parts(ParsedItem::Struct(ident, generics, Vec::new())).ok().unwrap();
    assert_eq!(name.to_string(), "S");
    assert_eq!(generics.lifetimes().count(), 1);
    assert!(attrs.is_empty());
}

#[test]
fn exactly_one_lifetime_is_required() {
    assert_eq!(sole_lifetime(vec!["a"]), Ok("a"));
    assert_eq!(sole_lifetime(Vec::<&str>::new()), Err(DeriveError::LifetimeCount));
    assert_eq!(sole_lifetime(vec!["a", "b"]), Err(DeriveError::LifetimeCount));
}

#[test]
fn option_attributes_are_found_in_order() {
    let paths = vec![
        Some(String::from("derive")),
        Some(String::from("gat_borrow")),
        None,
        Some(String::from("gat_borrow")),
        Some(String::from("gat_borrowed")),
    ];
    assert_eq!(option_attributes(&paths), vec![1, 3]);
    assert_eq!(option_attributes(&Vec::new()), Vec::<usize>::new());
    assert!(is_option_attribute(&Some(String::from("gat_borrow"))));
    assert!(!is_option_attribute(&Some(String::from("gat"))));
    assert!(!is_option_attribute(&None));
}

#[test]
fn only_the_reborrow_key_is_accepted() {
    assert_eq!(check_option_key("reborrow"), Ok(()));
    assert_eq!(check_option_key("reborrows"), Err(DeriveError::UnknownOption));
    assert_eq!(check_option_key("owned"), Err(DeriveError::UnknownOption));
    assert_eq!(check_option_key(""), Err(DeriveError::UnknownOption));
}

#[test]
fn the_last_option_wins() {
    assert_eq!(chosen_option(vec![1, 2, 3]), Some(3));
    assert_eq!(chosen_option(vec![7]), Some(7));
    assert_eq!(chosen_option(Vec::<i32>::new()), None);
}

#[test]
fn only_the_own_lifetime_is_renamed() {
    assert!(renames_lifetime("a", "a"));
    assert!(!renames_lifetime("b", "a"));
    assert!(!renames_lifetime("static", "a"));
}

#[test]
fn refusal_messages() {
    assert_eq!(
        DeriveError::UnsupportedItem.message(),
        "expected a struct, enum, union, or typedef"
    );
    assert_eq!(DeriveError::LifetimeCount.message(), "expected exactly one lifetime");
    assert_eq!(DeriveError::UnknownOption.message(), "expected 'reborrow = <type>'");
}

#[test]
fn fixed_names() {
    assert_eq!(OPTION_ATTRIBUTE, "gat_borrow");
    assert_eq!(OPTION_KEY, "reborrow");
    assert_eq!(OUTER_LIFETIME, "'gat_borrow");
}

#[test]
fn plan_checks_lifetimes_first() {
    let options: Vec<Result<i32, &str>> = vec![Err("bad option")];
    assert!(matches!(
        reborrow_plan(Vec::<&str>::new(), options),
        Err(PlanFailure::Lifetimes(DeriveError::LifetimeCount))
    ));
    assert!(matches!(
        reborrow_plan(vec!["a", "b"], vec![Ok::<i32, &str>(1)]),
        Err(PlanFailure::Lifetimes(DeriveError::LifetimeCount))
    ));
}

#[test]
fn plan_reports_the_first_failed_option() {
    let options: Vec<Result<i32, &str>> = vec![Ok(1), Err("second"), Err("third")];
    assert!(matches!(reborrow_plan(vec!["a"], options), Err(PlanFailure::Option("second"))));
}

#[test]
fn plan_takes_the_last_option_or_none() {
    let options: Vec<Result<i32, &str>> = vec![Ok(1), Ok(2), Ok(3)];
    assert!(matches!(reborrow_plan(vec!["a"], options), Ok(("a", Some(3)))));
    let none: Vec<Result<i32, &str>> = Vec::new();
    assert!(matches!(reborrow_plan(vec!["a"], none), Ok(("a", None))));
}

#[test]
fn other_attributes_leave_the_options_alone() {
    let attrs = vec!["gat_borrow(reborrow = A)", "gat_borrow(reborrow = B)"];
    let paths = vec![Some(String::from("gat_borrow")), Some(String::from("gat_borrow"))];
    let more_attrs = vec![
        "doc = \"x\"",
        "gat_borrow(reborrow = A)",
        "derive(Clone)",
        "gat_borrow(reborrow = B)",
        "path::to::attr",
    ];
    let more_paths = vec![
        Some(String::from("doc")),
        Some(String::from("gat_borrow")),
        Some(String::from("derive")),
        Some(String::from("gat_borrow")),
        None,
    ];
    let picked: Vec<&str> = option_attributes(&paths).into_iter().map(|p| attrs[p]).collect();
    let more_picked: Vec<&str> =
        option_attributes(&more_paths).into_iter().map(|p| more_attrs[p]).collect();
    assert_eq!(picked, more_picked);
    let plan = reborrow_plan(vec!["a"], picked.into_iter().map(Ok::<&str, ()>).collect());
    let more_plan = reborrow_plan(vec!["a"], more_picked.into_iter().map(Ok::<&str, ()>).collect());
    assert!(matches!(plan, Ok(("a", Some("gat_borrow(reborrow = B)")))));
    assert!(matches!(more_plan, Ok(("a", Some("gat_borrow(reborrow = B)")))));
}
