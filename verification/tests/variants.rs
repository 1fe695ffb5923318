//! What is done for the variants of enums.

use foundations_settings::error::ExpandError;
use foundations_settings::expand::expand_from_parsed;
use foundations_settings::options::{Features, Options};
use foundations_settings::read::read_item;
use foundations_settings::syntax::{Item, Shape, Variant};
use foundations_settings::variant::{
    is_documented_variant, is_serde_skipped, is_tuple, serde_args, serde_variant_name, strip_raw,
    to_snake_case,
};
use proc_macro2::{Span, TokenStream};

fn tokens(code: &str) -> TokenStream {
    code.parse().unwrap()
}

fn printed(code: &str) -> String {
    tokens(code).to_string()
}

fn variant(code: &str) -> Variant {
    match read_item(&tokens(&format!("enum E {{ {code} }}"))).unwrap() {
        Item::Enum(mut item) => item.variants.remove(0),
        _ => unreachable!(),
    }
}

fn expand(variants: &str, unstable: bool) -> Result<TokenStream, ExpandError> {
    let features = Features { deny_unknown_fields_by_default: false, unstable };
    let options = Options::parse(&TokenStream::new(), features, Span::call_site()).unwrap();
    let item = read_item(&tokens(&format!("enum E {{ {variants} }}"))).unwrap();
    expand_from_parsed(options, item, unstable)
}

/// The arms of `add_docs`.
fn arms(variants: &str) -> String {
    let all = expand(variants, true).unwrap().to_string();
    let (_, arms) = all.split_once("match self {").unwrap();
    arms.trim().to_string()
}

#[test]
fn snake_case() {
    assert_eq!(to_snake_case("NewTypeVariant"), "new_type_variant");
    assert_eq!(to_snake_case("A"), "a");
    assert_eq!(to_snake_case("HTTPServer2"), "h_t_t_p_server2");
    assert_eq!(to_snake_case("already_lower"), "already_lower");
    assert_eq!(to_snake_case("With_Underscore"), "with__underscore");
    assert_eq!(to_snake_case("aÄ"), "a_Ä");
    assert_eq!(to_snake_case("Äa"), "Äa");
    assert_eq!(to_snake_case(""), "");
}

#[test]
fn snake_case_word_by_word() {
    for (first, next) in [("New", "Type"), ("A", "B"), ("x", "Yz")] {
        assert_eq!(
            to_snake_case(&format!("{first}{next}")),
            format!("{}_{}", to_snake_case(first), to_snake_case(next)),
        );
    }
}

#[test]
fn keys_of_variants() {
    assert_eq!(serde_variant_name(&variant("SomeName(X)")), "some_name");
    assert_eq!(serde_variant_name(&variant(r#"#[serde(rename = "other")] SomeName(X)"#)), "other");
    assert_eq!(
        serde_variant_name(&variant(r#"#[serde(alias = "x", rename = "a")] #[serde(rename = "b")] N(X)"#)),
        "a",
    );
    assert_eq!(
        serde_variant_name(&variant(r#"#[serde(rename)] #[serde(rename = 1, rename = "b")] N(X)"#)),
        "b",
    );
    assert_eq!(serde_variant_name(&variant(r#"#[other(rename = "a")] N(X)"#)), "n");
}

#[test]
fn keys_in_rename_lists() {
    assert_eq!(
        serde_variant_name(&variant(
            r#"#[serde(rename(serialize = "ser", deserialize = "de"))] MyVariant(u8)"#,
        )),
        "ser",
    );
    assert_eq!(
        serde_variant_name(&variant(
            r#"#[serde(rename(deserialize = "de", serialize = "ser"))] MyVariant(u8)"#,
        )),
        "ser",
    );
    assert_eq!(
        serde_variant_name(&variant(r#"#[serde(rename(deserialize = "de"))] MyVariant(u8)"#)),
        "my_variant",
    );
    assert_eq!(
        serde_variant_name(&variant(
            r#"#[serde(rename(deserialize = "de"))] #[serde(rename = "ser")] MyVariant(u8)"#,
        )),
        "ser",
    );
    assert_eq!(
        serde_variant_name(&variant(
            r#"#[cfg_attr(a, serde(rename(serialize = "ser", deserialize = "de")))] MyVariant(u8)"#,
        )),
        "ser",
    );
    assert_eq!(serde_variant_name(&variant(r#"#[serde(rename("x"))] N(X)"#)), "n");
    assert_eq!(serde_variant_name(&variant(r#"#[serde(other(serialize = "x"))] N(X)"#)), "n");
}

#[test]
fn keys_of_raw_identifiers() {
    assert_eq!(serde_variant_name(&variant("r#MyVariant(u8)")), "my_variant");
    assert_eq!(serde_variant_name(&variant("MyVariant(u8)")), "my_variant");
    assert_eq!(serde_variant_name(&variant("r#type(u8)")), "type");
    assert_eq!(serde_variant_name(&variant(r#"#[serde(rename = "r#x")] r#type(u8)"#)), "r#x");
    assert_eq!(strip_raw("r#a"), "a");
    assert_eq!(strip_raw("ra"), "ra");
    assert_eq!(strip_raw("r"), "r");
    assert_eq!(strip_raw(""), "");
    assert!(arms("r#MyVariant(X)").starts_with("Self :: r#MyVariant (value) => {"));
    assert!(arms("r#MyVariant(X)").contains(r#"key . push ("my_variant" . into ()) ;"#));
}

#[test]
fn every_guarded_serde_attribute_counts() {
    let names = |variant: &Variant| -> Vec<Option<String>> {
        serde_args(&variant.attrs).iter().map(|arg| arg.meta.ident.clone()).collect()
    };
    let skip = Some("skip".to_string());
    let rename = Some("rename".to_string());

    let both = variant(r#"#[cfg_attr(unix, serde(skip), serde(rename = "x"))] N(X)"#);
    assert_eq!(names(&both), [skip.clone(), rename.clone()]);
    assert!(is_serde_skipped(&both.attrs));
    assert_eq!(serde_variant_name(&both), "x");

    let both = variant(r#"#[cfg_attr(unix, serde(rename = "x"), other, serde, serde(skip))] N(X)"#);
    assert_eq!(names(&both), [rename, skip]);
    assert!(is_serde_skipped(&both.attrs));
}

#[test]
fn guarded_serde_attributes_count() {
    assert_eq!(
        serde_variant_name(&variant(r#"#[cfg_attr(feature = "x", serde(rename = "a"))] N(X)"#)),
        "a",
    );
    assert_eq!(
        serde_variant_name(&variant(
            r#"#[cfg_attr(feature = "x", other, serde(rename = "a"), serde(rename = "b"))] N(X)"#,
        )),
        "a",
    );
    // The first argument is the predicate.
    assert_eq!(serde_variant_name(&variant(r#"#[cfg_attr(serde(rename = "a"))] N(X)"#)), "n");
    assert_eq!(serde_variant_name(&variant(r#"#[cfg_attr] N(X)"#)), "n");
    assert!(is_serde_skipped(&variant("#[cfg_attr(a, serde(skip))] N(X)").attrs));
}

#[test]
fn guarded_and_plain_serde_arguments_are_the_same() {
    let guarded = variant(r#"#[cfg_attr(all(a, b), serde(skip, rename = "a"))] N(X)"#);
    let plain = variant(r#"#[serde(skip, rename = "a")] N(X)"#);
    let names = |variant: &Variant| -> Vec<Option<String>> {
        serde_args(&variant.attrs).iter().map(|arg| arg.meta.ident.clone()).collect()
    };
    assert_eq!(names(&guarded), names(&plain));
    assert_eq!(names(&plain), [Some("skip".to_string()), Some("rename".to_string())]);
}

#[test]
fn serde_arguments_that_are_no_meta_items_are_left_out() {
    let variant = variant(r#"#[serde("x", skip)] #[serde] #[serde(a::b, c)] N(X)"#);
    let args = serde_args(&variant.attrs);
    assert_eq!(args.len(), 2);
    assert_eq!(args[0].meta.ident, None);
    assert_eq!(args[1].meta.ident, Some("c".to_string()));
}

#[test]
fn which_variants_are_documented() {
    assert!(is_documented_variant(&variant("N(X)")));
    assert!(is_documented_variant(&variant("N()")));
    assert!(!is_documented_variant(&variant("N")));
    assert!(!is_documented_variant(&variant("#[serde(skip)] N(X)")));
    assert!(!is_documented_variant(&variant("#[serde(rename = \"a\", skip)] N(X)")));
    assert!(is_documented_variant(&variant("#[serde(skip_serializing)] N(X)")));
}

#[test]
fn tuples() {
    assert!(is_tuple(Shape::Unnamed(2)));
    assert!(!is_tuple(Shape::Unnamed(1)));
    assert!(!is_tuple(Shape::Unnamed(0)));
    assert!(!is_tuple(Shape::Named));
    assert!(!is_tuple(Shape::Unit));
}

#[test]
fn arms_behind_cfg_attributes() {
    assert_eq!(
        arms(r#"#[cfg(a)] #[doc = " A."] A(X), #[cfg(b)] B, #[serde(skip)] #[cfg(c)] C(X)"#),
        format!(
            "{} }} }} }}",
            printed(
                r#"
                #[cfg(a)] Self::A(value) => {
                    let mut key = parent_key.to_vec();
                    key.push("a".into());
                    ::foundations::settings::Settings::add_docs(value, &key, docs);
                    docs.insert(key, &[" A.",][..]);
                }
                #[cfg(b)] Self::B => {}
                #[cfg(c)] Self::C(..) => {}
                "#,
            ),
        ),
    );
}

#[test]
fn nothing_is_documented_unless_asked_for() {
    let impl_nothing = "impl :: foundations :: settings :: Settings for E { }";
    assert!(expand("A(X)", false).unwrap().to_string().ends_with(impl_nothing));
    assert!(!expand("A(X)", true).unwrap().to_string().ends_with(impl_nothing));
}

#[test]
fn nothing_is_documented_without_new_type_variants() {
    for variants in ["", "A, B", "A, #[serde(skip)] B(X)"] {
        assert_eq!(
            expand(variants, true).unwrap().to_string(),
            expand(variants, false).unwrap().to_string(),
        );
    }
}
