//! What is done for the fields of structures.

use foundations_settings::attr::{is_array_zst, is_serde_flattened, is_serde_readable, SerdeArgs};
use foundations_settings::error::ExpandError;
use foundations_settings::expand::{expand_from_parsed, is_item_readable};
use foundations_settings::options::{Features, Options};
use foundations_settings::read::{read_item, read_type};
use foundations_settings::syntax::{Field, Fields, Item};
use proc_macro2::{Span, TokenStream};

fn tokens(code: &str) -> TokenStream {
    code.parse().unwrap()
}

fn expand(args: &str, item: &str) -> Result<TokenStream, ExpandError> {
    let features = Features { deny_unknown_fields_by_default: false, unstable: false };
    let options = Options::parse(&tokens(args), features, Span::call_site()).unwrap();
    expand_from_parsed(options, read_item(&tokens(item)).unwrap(), false)
}

/// The expansion of a structure `S` with these fields and without a `Default` impl, from the body of
/// `add_docs` on.
fn docs(fields: &str) -> String {
    let all = expand("impl_default = false", &format!("struct S {{ {fields} }}")).unwrap().to_string();
    let start = tokens("&self, parent_key: &[String]").to_string();
    let (_, rest) = all.split_once(&start).unwrap();
    let (_, body) = rest.split_once(") {").unwrap();
    body.trim().to_string()
}

/// The initializers in the `Default` impl of a structure `S` with these fields.
fn defaults(fields: &str) -> String {
    let all = expand("", &format!("struct S {{ {fields} }}")).unwrap().to_string();
    let (_, rest) = all.split_once("-> Self { Self {").unwrap();
    rest.trim().to_string()
}

/// The texts of all that is wrong with a structure `S` with these fields.
fn wrong(fields: &str) -> Vec<String> {
    match expand("", &format!("struct S {{ {fields} }}")) {
        Err(ExpandError::Outside(e)) => e.into_iter().map(|e| e.to_string()).collect(),
        Err(e) => panic!("{}", e.to_string()),
        Ok(stream) => panic!("{stream}"),
    }
}

/// How code is printed.
fn printed(code: &str) -> String {
    tokens(code).to_string()
}

fn field(code: &str) -> Field {
    match read_item(&tokens(&format!("struct S {{ {code} }}"))).unwrap() {
        Item::Struct(item) => match item.fields {
            Fields::Named(mut fields) => fields.remove(0),
            _ => unreachable!(),
        },
        _ => unreachable!(),
    }
}

#[test]
fn arrays_of_length_zero() {
    for ty in ["[T; 0]", "[Vec<u8>; 0usize]", "[T; 0 as usize]", "[T; 0 as u8 as usize]", "[T; 0x0]"] {
        assert!(is_array_zst(&read_type(&tokens(ty))), "{ty}");
    }
    for ty in [
        "[T; 1]",
        "[T; N]",
        "[T; 0 + 0]",
        "[T; (0)]",
        "[T; 1 as usize]",
        "[T; 99999999999999999999]",
        "[T; 'a' as usize]",
        "[T]",
        "T",
        "Vec<[T; 0]>",
    ] {
        assert!(!is_array_zst(&read_type(&tokens(ty))), "{ty}");
    }
}

#[test]
fn arrays_of_length_zero_are_not_forwarded() {
    assert_eq!(
        docs(r#"#[doc = " Nothing."] none: [T; 0]"#),
        format!(
            "{} }} }}",
            printed(
                r#"let mut key = parent_key.to_vec(); key.push("none".into());
                docs.insert(key, &[" Nothing.",][..]);"#,
            ),
        ),
    );
    assert!(docs("one: [T; 1]").contains("add_docs (& self . one , & key , docs) ;"));
}

#[test]
fn all_doc_comments_are_handed_out_in_order() {
    let docs = docs(
        r#"#[doc = " First."] #[doc(hidden)] #[allow(unused)] #[doc = r" Second."] #[doc = FILE] x: u8"#,
    );
    assert!(docs.contains(
        &tokens(r#"docs.insert(key, &[" First.", r" Second.",][..]);"#).to_string(),
    ));
}

#[test]
fn a_field_without_doc_comments_is_forwarded_only() {
    assert_eq!(
        docs("x: u8"),
        format!(
            "{} }} }}",
            printed(
                r#"let mut key = parent_key.to_vec(); key.push("x".into());
                ::foundations::settings::Settings::add_docs(&self.x, &key, docs);"#,
            ),
        ),
    );
}

#[test]
fn raw_names_stay_raw() {
    let docs = docs("r#type: u8");
    assert!(docs.contains(r#"key . push ("r#type" . into ()) ;"#));
    assert!(docs.contains("& self . r#type ,"));
}

#[test]
fn a_flattened_field_has_no_key_and_no_docs() {
    let plain = docs("#[serde(flatten)] inner: Inner");
    let documented = docs(r#"#[doc = " Inner."] #[serde(flatten, rename = "x")] inner: Inner"#);
    assert_eq!(plain, documented);
    assert_eq!(plain, docs("#[serde(flatten)] inner: Vec<Other>"));
    assert!(!plain.contains("key . push"));
    assert!(plain.starts_with("{ :: foundations :: settings :: Settings :: add_docs"));
}

#[test]
fn a_flattened_field_behind_cfg_attributes() {
    let docs = docs("#[cfg(a)] #[serde(flatten)] #[cfg(b)] inner: Inner");
    assert!(docs.starts_with("# [cfg (a)] # [cfg (b)] { :: foundations"));
}

#[test]
fn every_serde_attribute_of_a_field_can_flatten_it() {
    assert!(is_serde_flattened(&field("#[serde(flatten)] #[serde(default)] x: X").attrs));
    assert!(is_serde_flattened(&field("#[serde(default)] #[serde(flatten)] x: X").attrs));
    assert!(is_serde_flattened(&field("#[serde(1)] #[serde] #[serde(flatten)] x: X").attrs));
    assert!(is_serde_flattened(&field("#[serde(flatten)] #[serde(flatten())] x: X").attrs));
    assert!(!is_serde_flattened(&field("#[serde(default)] #[serde(flatten())] x: X").attrs));
    assert!(!is_serde_flattened(&field("#[other(flatten)] x: X").attrs));
    assert!(!is_serde_flattened(&field("x: X").attrs));
    assert!(!is_serde_flattened(&field("#[cfg_attr(a, serde(flatten))] x: X").attrs));

    let docs = docs("#[serde(default)] #[serde(flatten)] inner: Inner");
    assert!(docs.starts_with("{ :: foundations :: settings :: Settings :: add_docs"));
}

#[test]
fn the_first_serde_attribute_of_a_field_initializes_it() {
    let x = field(r#"#[serde(default = "a")] #[serde(default = "b")] x: X"#);
    let args = SerdeArgs::parse_from_attrs(&x.attrs).unwrap().unwrap();
    assert_eq!(args.default.unwrap().to_string(), "a");

    let x = field(r#"#[serde(flatten)] #[serde(default = "b")] x: X"#);
    let args = SerdeArgs::parse_from_attrs(&x.attrs).unwrap().unwrap();
    assert!(args.flatten);
    assert!(args.default.is_none());
}

#[test]
fn wrong_serde_arguments_do_not_flatten() {
    for attr in ["serde(flatten = true)", "serde(flatten(x))", "serde(flatten, flatten)", "serde"] {
        assert!(!is_serde_flattened(&field(&format!("#[{attr}] x: X")).attrs), "{attr}");
    }
}

#[test]
fn serde_arguments_of_a_field() {
    let args = SerdeArgs::parse_from_attrs(&field("x: X").attrs).unwrap();
    assert!(args.is_none());

    let x = field(r#"#[serde(rename = "y", default = "a::b", skip)] x: X"#);
    let args = SerdeArgs::parse_from_attrs(&x.attrs).unwrap().unwrap();
    assert!(!args.flatten);
    assert_eq!(args.default.unwrap().to_string(), "a :: b");

    let x = field("#[serde(default, flatten)] x: X");
    let args = SerdeArgs::parse_from_attrs(&x.attrs).unwrap().unwrap();
    assert!(args.flatten);
    assert!(args.default.is_none());
}

#[test]
fn initializers() {
    assert_eq!(
        defaults(
            r#"a: A, #[serde(default)] b: B, #[cfg(c)] #[serde(default = "make::c")] #[doc = "C"] c: C"#,
        ),
        format!(
            "{} }} }} }}",
            printed(
                "a: Default::default(), b: Default::default(), #[cfg(c)] c: make::c(),",
            ),
        ),
    );
}

#[test]
fn serde_arguments_that_are_wrong() {
    assert_eq!(
        wrong("#[serde(flatten, flatten)] x: X"),
        ["Duplicate field `flatten`"],
    );
    assert_eq!(
        wrong(r#"#[serde(default, default = "x")] x: X"#),
        ["Duplicate field `default`"],
    );
    assert_eq!(wrong(r#"#[serde("x")] x: X"#), ["Unexpected meta-item format `literal`"]);
    assert_eq!(wrong("#[serde] x: X"), ["Unexpected meta-item format `word`"]);
    assert_eq!(wrong(r#"#[serde = "x"] x: X"#), ["Unexpected type `string`"]);
    assert_eq!(wrong("#[serde(flatten = true)] x: X"), ["Unexpected type `bool`"]);
    assert_eq!(wrong("#[serde(flatten(y))] x: X"), ["Unknown field: `y`"]);
    assert_eq!(wrong("#[serde(default = 1)] x: X"), ["Unexpected type `int`"]);
    assert_eq!(wrong("#[serde(a b)] x: X"), ["expected `,`"]);
}

#[test]
fn negative_numbers_are_rejected_as_they_are_first_read() {
    // The last value in a list can be a negative literal.
    assert_eq!(wrong("#[serde(flatten = -1)] x: X"), ["Unexpected type `int`"]);
    assert_eq!(wrong("#[serde(default, flatten = -1.5)] x: X"), ["Unexpected type `float`"]);
    assert_eq!(wrong("#[serde(default = -1)] x: X"), ["Unexpected type `int`"]);
    assert_eq!(wrong("#[serde = -1] x: X"), ["Unexpected type `int`"]);
    // Any other is an expression.
    assert_eq!(wrong("#[serde(flatten = -1, default)] x: X"), ["Unexpected type `unary`"]);
    assert_eq!(wrong("#[serde(default = -1,)] x: X"), ["Unexpected type `unary`"]);
}

#[test]
fn the_first_wrong_field_is_reported_with_all_that_is_wrong() {
    assert_eq!(
        wrong(r#"a: A, #[serde(1, flatten, flatten)] b: B, #[serde("c")] c: C"#),
        ["Unexpected meta-item format `literal`", "Duplicate field `flatten`"],
    );
}

#[test]
fn wrong_serde_arguments_do_not_matter_without_a_default_impl() {
    assert!(expand("impl_default = false", "struct S { #[serde(1)] x: X }").is_ok());
    assert!(expand("impl_default = true", "struct S { #[serde(1)] x: X }").is_err());
}

#[test]
fn an_empty_list_behind_flatten_cannot_be_read() {
    assert!(!is_serde_readable(&field("#[serde(flatten())] x: X").attrs));
    assert!(is_serde_readable(&field("#[serde(flatten, flatten())] x: X").attrs));
    assert!(is_serde_readable(&field("#[serde(default)] #[serde(flatten())] x: X").attrs));
    assert!(!is_item_readable(&read_item(&tokens("struct S { a: A, #[serde(flatten())] x: X }")).unwrap()));
    assert!(is_item_readable(&read_item(&tokens("enum E { #[serde(flatten())] A(X) }")).unwrap()));
}

#[test]
fn the_item_is_kept_behind_its_own_attributes() {
    let all = expand(
        "impl_debug = false",
        "#[first] #[serde(second)] pub(crate) struct S<'a, T: Clone + 'a, const N: usize> where T: Copy { pub x: &'a [T; N] }",
    ).unwrap().to_string();
    let start = printed(
        r##"
        #[first] #[serde(second)]
        #[derive(
            Clone,
            ::foundations::reexports_for_macros::serde::Serialize,
            ::foundations::reexports_for_macros::serde::Deserialize,
        )]
        #[serde(crate = ":: foundations :: reexports_for_macros :: serde")]
        #[serde(default)]
        pub(crate) struct S< 'a, T: Clone + 'a, const N: usize> where T: Copy { pub x: & 'a [T; N] }
        impl< 'a, T: Clone + 'a, const N: usize> ::foundations::settings::Settings for S< 'a, T, N> where T: Copy
        "##,
    );
    assert!(all.starts_with(&start), "{all}");
    let default = printed(
        "impl< 'a, T: Clone + 'a, const N: usize> Default for S< 'a, T, N> where T: Copy",
    );
    assert!(all.contains(&default), "{all}");
}

#[test]
fn unit_structures_and_empty_new_types() {
    let unit = expand("", "struct S;").unwrap().to_string();
    assert!(unit.contains("# [serde (default)] struct S ; impl"));
    assert!(unit.ends_with("impl Default for S { fn default () -> Self { Self { } } }"));

    let empty = expand("", "struct S();").unwrap().to_string();
    assert!(empty.starts_with("# [derive (Default)]"));
    assert!(empty.ends_with("struct S () ; impl :: foundations :: settings :: Settings for S { }"));
}
