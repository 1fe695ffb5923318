//! The whole way from tokens to tokens.

use foundations_settings::error::ExpandError;
use foundations_settings::expand::{
    expand, expand_from_parsed, find_refused, ERR_NON_UNIT_OR_NEW_TYPE_VARIANT,
    ERR_NOT_STRUCT_OR_ENUM, ERR_TUPLE_STRUCT,
};
use foundations_settings::options::{Features, Options};
use foundations_settings::read::read_item;
use foundations_settings::syntax::Item;
use proc_macro2::{Span, TokenStream};

const FEATURES: Features = Features { deny_unknown_fields_by_default: true, unstable: false };

fn tokens(code: &str) -> TokenStream {
    code.parse().unwrap()
}

/// What the attribute with these arguments turns an item into.
fn expanded(args: &str, item: &str) -> String {
    expand(&tokens(args), &tokens(item), FEATURES).unwrap().to_string()
}

fn report(text: &str) -> String {
    tokens(&format!("::core::compile_error! {{ {text:?} }}")).to_string()
}

fn refused(item: &str) -> ExpandError {
    let options = Options::default(FEATURES, Span::call_site());
    expand_from_parsed(options, read_item(&tokens(item)).unwrap(), false).unwrap_err()
}

#[test]
fn an_accepted_item_is_expanded() {
    let item = r#"#[doc = " S."] struct S { #[doc = " X."] x: u8 }"#;
    let options = Options::parse(&tokens("impl_debug = false"), FEATURES, Span::call_site()).unwrap();
    assert_eq!(
        expanded("impl_debug = false", item),
        expand_from_parsed(options, read_item(&tokens(item)).unwrap(), false).unwrap().to_string(),
    );
}

#[test]
fn options_are_honoured() {
    let all = expanded("", "struct S(u8);");
    assert!(all.contains("# [derive (Debug)]"));
    assert!(all.contains("# [serde (deny_unknown_fields)]"));
    assert!(all.contains("# [derive (Default)]"));

    let none = expanded(
        "impl_debug = false, deny_unknown_fields = false, impl_default = false",
        "struct S(u8);",
    );
    assert!(!none.contains("# [derive (Debug)]"));
    assert!(!none.contains("# [serde (deny_unknown_fields)]"));
    assert!(!none.contains("# [derive (Default)]"));
}

#[test]
fn default_is_all_that_is_added() {
    let with = expanded("", "struct S { x: u8 }");
    let without = expanded("impl_default = false", "struct S { x: u8 }");
    assert_eq!(
        with.strip_prefix(&without).unwrap().trim(),
        tokens("impl Default for S { fn default() -> Self { Self { x: Default::default(), } } }")
            .to_string(),
    );

    let with = expanded("", "#[own] enum E { A }");
    let without = expanded("impl_default = false", "#[own] enum E { A }");
    assert_eq!(with.replacen("# [derive (Default)] ", "", 1), without);
    assert!(with.starts_with("# [own] # [derive (Default)] "));
}

#[test]
fn refused_items_are_reported() {
    assert_eq!(expanded("", "struct S(u8, u8);"), report(ERR_TUPLE_STRUCT));
    assert_eq!(expanded("", "enum E { A { x: u8 } }"), report(ERR_NON_UNIT_OR_NEW_TYPE_VARIANT));
    assert_eq!(expanded("", "enum E { A, B(u8, u8) }"), report(ERR_NON_UNIT_OR_NEW_TYPE_VARIANT));
    assert_eq!(expanded("", "fn f() {}"), report(ERR_NOT_STRUCT_OR_ENUM));
    assert_eq!(expanded("", "union U { x: u8 }"), report(ERR_NOT_STRUCT_OR_ENUM));
}

#[test]
fn all_that_is_wrong_with_a_field_is_reported() {
    assert_eq!(
        expanded("", "struct S { #[serde(1, flatten, flatten)] x: X }"),
        format!(
            "{} {}",
            report("Unexpected meta-item format `literal`"),
            report("Duplicate field `flatten`"),
        ),
    );
}

#[test]
fn wrong_options_are_reported_before_the_item() {
    assert_eq!(
        expanded("1, impl_default, impl_default", "struct S(u8, u8);"),
        format!(
            "{} {}",
            report("Unexpected meta-item format `literal`"),
            report("Duplicate field `impl_default`"),
        ),
    );
    assert_eq!(expanded("a b", "struct"), report("expected `,`"));
}

#[test]
fn what_is_no_item_is_reported() {
    assert!(expanded("", "struct").starts_with(":: core :: compile_error ! {"));
    assert!(expanded("", "1 + 1").starts_with(":: core :: compile_error ! {"));
}

#[test]
fn an_empty_list_behind_flatten_is_not_expanded() {
    for args in ["", "impl_default = false"] {
        let item = tokens("struct S { #[serde(flatten())] x: X }");
        assert!(expand(&tokens(args), &item, FEATURES).is_none());
    }
    // Wrong options are reported all the same.
    assert!(expand(&tokens("x"), &tokens("struct S { #[serde(flatten())] x: X }"), FEATURES).is_some());
}

#[test]
fn the_first_refused_variant_is_blamed() {
    let item = "enum E { A, B(X), #[x] C(X, Y), D { x: X } }";
    match refused(item) {
        ExpandError::Message { text, blamed } => {
            assert_eq!(text, ERR_NON_UNIT_OR_NEW_TYPE_VARIANT);
            assert_eq!(blamed.to_string(), "# [x] C (X , Y)");
        }
        ExpandError::Outside(e) => panic!("{e}"),
    }
    match read_item(&tokens(item)).unwrap() {
        Item::Enum(item) => assert_eq!(find_refused(&item.variants).unwrap().ident.name, "C"),
        _ => unreachable!(),
    }
}

#[test]
fn a_refused_structure_is_blamed_as_a_whole() {
    match refused("#[x] pub struct S(X, Y);") {
        ExpandError::Message { blamed, .. } => {
            assert_eq!(blamed.to_string(), "# [x] pub struct S (X , Y) ;");
        }
        ExpandError::Outside(e) => panic!("{e}"),
    }
}

#[test]
fn errors_as_text() {
    assert_eq!(refused("struct S(u8, u8);").to_string(), ERR_TUPLE_STRUCT);
    assert_eq!(
        refused("struct S { #[serde(1, flatten, flatten)] x: X }").to_string(),
        "Unexpected meta-item format `literal`",
    );
}

#[test]
fn where_tokens_point_does_not_matter() {
    let code = r#"struct S { #[doc = " X."] #[cfg(a)] x: Vec<u8> }"#;
    let respanned: TokenStream = tokens(code)
        .into_iter()
        .map(|mut tree| {
            tree.set_span(Span::mixed_site());
            tree
        })
        .collect();
    let left = expand(&TokenStream::new(), &tokens(code), FEATURES).unwrap();
    let right = expand(&TokenStream::new(), &respanned, FEATURES).unwrap();
    assert_eq!(left.to_string(), right.to_string());
}
