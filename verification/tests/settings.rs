//! What structures and enums become.

use foundations_settings::error::ExpandError;
use foundations_settings::expand::{
    expand_from_parsed, ERR_NON_UNIT_OR_NEW_TYPE_VARIANT, ERR_NOT_STRUCT_OR_ENUM, ERR_TUPLE_STRUCT,
};
use foundations_settings::options::{Features, Options};
use foundations_settings::read::read_item;
use proc_macro2::{Span, TokenStream};

fn tokens(code: &str) -> TokenStream {
    code.parse().unwrap()
}

/// How code is printed.
fn code_str(code: &str) -> String {
    tokens(code).to_string()
}

fn expand_unstable(args: &str, item: &str, unstable: bool) -> Result<TokenStream, ExpandError> {
    let features = Features { deny_unknown_fields_by_default: true, unstable };
    let options = Options::parse(&tokens(args), features, Span::call_site()).unwrap();
    expand_from_parsed(options, read_item(&tokens(item)).unwrap(), unstable)
}

fn expand(args: &str, item: &str) -> Result<TokenStream, ExpandError> {
    expand_unstable(args, item, false)
}

/// The `Settings` impl expected for an enum with a new type variant.
fn test_enum_settings_impl(unstable: bool) -> String {
    if unstable {
        code_str(
            r##"
            impl ::foundations::settings::Settings for TestEnum {
                fn add_docs(
                    &self,
                    parent_key: &[String],
                    docs: &mut ::std::collections::HashMap<Vec<String> , & 'static [& 'static str]>)
                {
                    match self {
                        Self::UnitVariant => {}
                        Self::NewTypeVariant(value) => {
                            let mut key = parent_key.to_vec();
                            key.push("new_type_variant".into());
                            ::foundations::settings::Settings::add_docs(value, &key, docs);
                        }
                    }
                }
            }
            "##,
        )
    } else {
        code_str("impl ::foundations::settings::Settings for TestEnum { }")
    }
}

#[test]
fn expand_structure() {
    let actual = expand(
        "",
        r##"
            struct TestStruct {
                #[doc = r" A boolean value."]
                boolean: bool,

                #[doc = r" An integer value."]
                integer: i32,
            }
        "##,
    ).unwrap().to_string();

    let expected = code_str(
        r##"
            #[derive(
                Clone,
                ::foundations::reexports_for_macros::serde::Serialize,
                ::foundations::reexports_for_macros::serde::Deserialize,
            )]
            #[derive(Debug)]
            #[serde(crate = ":: foundations :: reexports_for_macros :: serde")]
            #[serde(deny_unknown_fields)]
            #[serde(default)]
            struct TestStruct {
                #[doc = r" A boolean value."]
                boolean: bool,
                #[doc = r" An integer value."]
                integer: i32,
            }

            impl ::foundations::settings::Settings for TestStruct {
                fn add_docs(
                    &self,
                    parent_key: &[String],
                    docs: &mut ::std::collections::HashMap<Vec<String> , & 'static [& 'static str]>
                ) {
                    let mut key = parent_key.to_vec();
                    key.push("boolean".into());
                    ::foundations::settings::Settings::add_docs(&self.boolean, &key, docs);
                    docs.insert(key, &[r" A boolean value.",][..]);
                    let mut key = parent_key.to_vec();
                    key.push("integer".into());
                    ::foundations::settings::Settings::add_docs(&self.integer, &key, docs);
                    docs.insert(key, &[r" An integer value.",][..]);
                }
            }

            impl Default for TestStruct {
                fn default() -> Self {
                    Self {
                        boolean: Default::default(),
                        integer: Default::default(),
                    }
                }
            }
        "##,
    );

    assert_eq!(actual, expected);
}

#[test]
fn expand_structure_with_cfg_attrs() {
    let actual = expand(
        "",
        r##"
            struct TestStruct {
                #[doc = r" A boolean value."]
                #[cfg(feature = "foobar")]
                boolean: bool,

                #[doc = r" An integer value."]
                #[cfg(test)]
                #[cfg(target_os = "linux")]
                integer: i32,
            }
        "##,
    ).unwrap().to_string();

    let expected = code_str(
        r##"
            #[derive(
                Clone,
                ::foundations::reexports_for_macros::serde::Serialize,
                ::foundations::reexports_for_macros::serde::Deserialize,
            )]
            #[derive(Debug)]
            #[serde(crate = ":: foundations :: reexports_for_macros :: serde")]
            #[serde(deny_unknown_fields)]
            #[serde(default)]
            struct TestStruct {
                #[doc = r" A boolean value."]
                #[cfg(feature = "foobar")]
                boolean: bool,
                #[doc = r" An integer value."]
                #[cfg(test)]
                #[cfg(target_os = "linux")]
                integer: i32,
            }

            impl ::foundations::settings::Settings for TestStruct {
                fn add_docs(
                    &self,
                    parent_key: &[String],
                    docs: &mut ::std::collections::HashMap<Vec<String> , & 'static [& 'static str]>
                ) {
                    #[cfg(feature = "foobar")]
                    {
                        let mut key = parent_key.to_vec();
                        key.push("boolean".into());
                        ::foundations::settings::Settings::add_docs(&self.boolean, &key, docs);
                        docs.insert(key, &[r" A boolean value.",][..]);
                    }
                    #[cfg(test)]
                    #[cfg(target_os = "linux")]
                    {
                        let mut key = parent_key.to_vec();
                        key.push("integer".into());
                        ::foundations::settings::Settings::add_docs(&self.integer, &key, docs);
                        docs.insert(key, &[r" An integer value.",][..]);
                    }
                }
            }

            impl Default for TestStruct {
                fn default() -> Self {
                    Self {
                        #[cfg(feature = "foobar")]
                        boolean: Default::default(),
                        #[cfg(test)]
                        #[cfg(target_os = "linux")]
                        integer: Default::default(),
                    }
                }
            }
        "##,
    );

    assert_eq!(actual, expected);
}

#[test]
fn expand_structure_with_crate_path() {
    let actual = expand(
        r#"crate_path = "::custom::path""#,
        r##"
            struct TestStruct {
                #[doc = r" A boolean value."]
                boolean: bool,

                #[doc = r" An integer value."]
                integer: i32,
            }
        "##,
    ).unwrap().to_string();

    let expected = code_str(
        r##"
            #[derive(
                Clone,
                ::custom::path::reexports_for_macros::serde::Serialize,
                ::custom::path::reexports_for_macros::serde::Deserialize,
            )]
            #[derive(Debug)]
            #[serde(crate = ":: custom :: path :: reexports_for_macros :: serde")]
            #[serde(deny_unknown_fields)]
            #[serde(default)]
            struct TestStruct {
                #[doc = r" A boolean value."]
                boolean: bool,
                #[doc = r" An integer value."]
                integer: i32,
            }

            impl ::custom::path::settings::Settings for TestStruct {
                fn add_docs(
                    &self,
                    parent_key: &[String],
                    docs: &mut ::std::collections::HashMap<Vec<String> , & 'static [& 'static str]>
                ) {
                    let mut key = parent_key.to_vec();
                    key.push("boolean".into());
                    ::custom::path::settings::Settings::add_docs(&self.boolean, &key, docs);
                    docs.insert(key, &[r" A boolean value.",][..]);
                    let mut key = parent_key.to_vec();
                    key.push("integer".into());
                    ::custom::path::settings::Settings::add_docs(&self.integer, &key, docs);
                    docs.insert(key, &[r" An integer value.",][..]);
                }
            }

            impl Default for TestStruct {
                fn default() -> Self {
                    Self {
                        boolean: Default::default(),
                        integer: Default::default(),
                    }
                }
            }
        "##,
    );

    assert_eq!(actual, expected);
}

#[test]
fn expand_structure_no_impl_default() {
    let actual = expand(
        "impl_default = false",
        r##"
            struct TestStruct {
                #[doc = r" A boolean value."]
                boolean: bool,

                #[doc = r" An integer value."]
                integer: i32,
            }
        "##,
    ).unwrap().to_string();

    let expected = code_str(
        r##"
            #[derive(
                Clone,
                ::foundations::reexports_for_macros::serde::Serialize,
                ::foundations::reexports_for_macros::serde::Deserialize,
            )]
            #[derive(Debug)]
            #[serde(crate = ":: foundations :: reexports_for_macros :: serde")]
            #[serde(deny_unknown_fields)]
            #[serde(default)]
            struct TestStruct {
                #[doc = r" A boolean value."]
                boolean: bool,
                #[doc = r" An integer value."]
                integer: i32,
            }

            impl ::foundations::settings::Settings for TestStruct {
                fn add_docs(
                    &self,
                    parent_key: &[String],
                    docs: &mut ::std::collections::HashMap<Vec<String> , & 'static [& 'static str]>
                ) {
                    let mut key = parent_key.to_vec();
                    key.push("boolean".into());
                    ::foundations::settings::Settings::add_docs(&self.boolean, &key, docs);
                    docs.insert(key, &[r" A boolean value.",][..]);
                    let mut key = parent_key.to_vec();
                    key.push("integer".into());
                    ::foundations::settings::Settings::add_docs(&self.integer, &key, docs);
                    docs.insert(key, &[r" An integer value.",][..]);
                }
            }
        "##,
    );

    assert_eq!(actual, expected);
}

#[test]
fn expand_structure_empty_no_deny_unknown_fields() {
    let actual = expand(
        "deny_unknown_fields = false",
        r##"
            struct TestStruct {
            }
        "##,
    ).unwrap().to_string();

    let expected = code_str(
        r##"
            #[derive(
                Clone,
                ::foundations::reexports_for_macros::serde::Serialize,
                ::foundations::reexports_for_macros::serde::Deserialize,
            )]
            #[derive(Debug)]
            #[serde(crate = ":: foundations :: reexports_for_macros :: serde")]
            #[serde(default)]
            struct TestStruct {
            }

            impl ::foundations::settings::Settings for TestStruct {
                fn add_docs(
                    &self,
                    parent_key: &[String],
                    docs: &mut ::std::collections::HashMap<Vec<String> , & 'static [& 'static str]>
                ) {
                }
            }

            impl Default for TestStruct {
                fn default() -> Self {
                    Self {
                    }
                }
            }
        "##,
    );

    assert_eq!(actual, expected);
}

#[test]
fn expand_structure_with_flattened_member() {
    let actual = expand(
        "impl_default = false",
        r##"
            struct TestStruct {
                #[doc = r" A flattened struct."]
                #[serde(flatten)]
                embedded: OtherSettings,
            }
        "##,
    ).unwrap().to_string();

    let expected = code_str(
        r##"
            #[derive(
                Clone,
                ::foundations::reexports_for_macros::serde::Serialize,
                ::foundations::reexports_for_macros::serde::Deserialize,
            )]
            #[derive(Debug)]
            #[serde(crate = ":: foundations :: reexports_for_macros :: serde")]
            #[serde(deny_unknown_fields)]
            #[serde(default)]
            struct TestStruct {
                #[doc = r" A flattened struct."]
                #[serde(flatten)]
                embedded: OtherSettings,
            }

            impl ::foundations::settings::Settings for TestStruct {
                fn add_docs(
                    &self,
                    parent_key: &[String],
                    docs: &mut ::std::collections::HashMap<Vec<String> , & 'static [& 'static str]>
                ) {
                    {
                        ::foundations::settings::Settings::add_docs(&self.embedded, parent_key, docs);
                    }
                }
            }
        "##,
    );

    assert_eq!(actual, expected);
}

#[test]
fn expand_newtype_struct() {
    let actual = expand(
        "",
        r##"
            struct TestStruct(u64);
        "##,
    ).unwrap().to_string();

    let expected = code_str(
        r##"
            #[derive(Default)]
            #[derive(
                Clone,
                ::foundations::reexports_for_macros::serde::Serialize,
                ::foundations::reexports_for_macros::serde::Deserialize,
            )]
            #[derive(Debug)]
            #[serde(crate = ":: foundations :: reexports_for_macros :: serde")]
            #[serde(deny_unknown_fields)]
            struct TestStruct(u64);

            impl ::foundations::settings::Settings for TestStruct { }
        "##,
    );

    assert_eq!(actual, expected);
}

#[test]
fn expand_no_impl_debug() {
    let actual = expand(
        "impl_debug = false",
        r##"
            struct TestStruct(u64);
        "##,
    ).unwrap().to_string();

    let expected = code_str(
        r##"
            #[derive(Default)]
            #[derive(
                Clone,
                ::foundations::reexports_for_macros::serde::Serialize,
                ::foundations::reexports_for_macros::serde::Deserialize,
            )]
            #[serde(crate = ":: foundations :: reexports_for_macros :: serde")]
            #[serde(deny_unknown_fields)]
            struct TestStruct(u64);

            impl ::foundations::settings::Settings for TestStruct { }
        "##,
    );

    assert_eq!(actual, expected);
}

#[test]
fn expand_newtype_no_deny_unknown_fields() {
    let actual = expand(
        "deny_unknown_fields = false",
        r##"
            struct TestStruct(u64);
        "##,
    ).unwrap().to_string();

    let expected = code_str(
        r##"
            #[derive(Default)]
            #[derive(
                Clone,
                ::foundations::reexports_for_macros::serde::Serialize,
                ::foundations::reexports_for_macros::serde::Deserialize,
            )]
            #[derive(Debug)]
            #[serde(crate = ":: foundations :: reexports_for_macros :: serde")]
            struct TestStruct(u64);

            impl ::foundations::settings::Settings for TestStruct { }
        "##,
    );

    assert_eq!(actual, expected);
}

#[test]
fn expand_newtype_struct_no_impl_default() {
    let actual = expand(
        "impl_default = false",
        r##"
            struct TestStruct(u64);
        "##,
    ).unwrap().to_string();

    let expected = code_str(
        r##"
            #[derive(
                Clone,
                ::foundations::reexports_for_macros::serde::Serialize,
                ::foundations::reexports_for_macros::serde::Deserialize,
            )]
            #[derive(Debug)]
            #[serde(crate = ":: foundations :: reexports_for_macros :: serde")]
            #[serde(deny_unknown_fields)]
            struct TestStruct(u64);

            impl ::foundations::settings::Settings for TestStruct { }
        "##,
    );

    assert_eq!(actual, expected);
}

#[test]
fn expand_enum() {
    for unstable in [false, true] {
        let actual = expand_unstable(
            "",
            r##"
                enum TestEnum {
                    #[default]
                    UnitVariant,
                    NewTypeVariant(String)
                }
            "##,
            unstable,
        ).unwrap().to_string();

        let mut expected = code_str(
            r##"
                #[derive(Default)]
                #[derive(
                    Clone,
                    ::foundations::reexports_for_macros::serde::Serialize,
                    ::foundations::reexports_for_macros::serde::Deserialize,
                )]
                #[derive(Debug)]
                #[serde(crate = ":: foundations :: reexports_for_macros :: serde")]
                #[serde(deny_unknown_fields)]
                #[serde(rename_all="snake_case")]
                enum TestEnum {
                    #[default]
                    UnitVariant,
                    NewTypeVariant(String)
                }
            "##,
        );
        expected.push(' ');
        expected.push_str(&test_enum_settings_impl(unstable));

        assert_eq!(actual, expected);
    }
}

#[test]
fn expand_enum_no_impl_default() {
    for unstable in [false, true] {
        let actual = expand_unstable(
            "impl_default = false",
            r##"
                enum TestEnum {
                    UnitVariant,
                    NewTypeVariant(String)
                }
            "##,
            unstable,
        ).unwrap().to_string();

        let mut expected = code_str(
            r##"
                #[derive(
                    Clone,
                    ::foundations::reexports_for_macros::serde::Serialize,
                    ::foundations::reexports_for_macros::serde::Deserialize,
                )]
                #[derive(Debug)]
                #[serde(crate = ":: foundations :: reexports_for_macros :: serde")]
                #[serde(deny_unknown_fields)]
                #[serde(rename_all="snake_case")]
                enum TestEnum {
                    UnitVariant,
                    NewTypeVariant(String)
                }
            "##,
        );
        expected.push(' ');
        expected.push_str(&test_enum_settings_impl(unstable));

        assert_eq!(actual, expected);
    }
}

#[test]
fn expand_enum_no_deny_unknown_fields() {
    for unstable in [false, true] {
        let actual = expand_unstable(
            "deny_unknown_fields = false",
            r##"
                enum TestEnum {
                    #[default]
                    UnitVariant,
                    NewTypeVariant(String)
                }
            "##,
            unstable,
        ).unwrap().to_string();

        let mut expected = code_str(
            r##"
                #[derive(Default)]
                #[derive(
                    Clone,
                    ::foundations::reexports_for_macros::serde::Serialize,
                    ::foundations::reexports_for_macros::serde::Deserialize,
                )]
                #[derive(Debug)]
                #[serde(crate = ":: foundations :: reexports_for_macros :: serde")]
                #[serde(rename_all="snake_case")]
                enum TestEnum {
                    #[default]
                    UnitVariant,
                    NewTypeVariant(String)
                }
            "##,
        );
        expected.push(' ');
        expected.push_str(&test_enum_settings_impl(unstable));

        assert_eq!(actual, expected);
    }
}

#[test]
fn expand_enum_with_variant_docs() {
    let actual = expand_unstable(
        "impl_default = false",
        r##"
            enum TestEnum {
                #[doc = r" Nested settings."]
                Nested(NestedStruct),
                #[doc = r" Renamed variant."]
                #[serde(rename = "RENAMED")]
                Renamed(NestedStruct),
                #[doc = r" Not serialized."]
                #[serde(skip)]
                Skipped(NotSettings),
                #[doc = r" A unit variant."]
                UnitVariant
            }
        "##,
        true,
    ).unwrap().to_string();

    let expected = code_str(
        r##"
            #[derive(
                Clone,
                ::foundations::reexports_for_macros::serde::Serialize,
                ::foundations::reexports_for_macros::serde::Deserialize,
            )]
            #[derive(Debug)]
            #[serde(crate = ":: foundations :: reexports_for_macros :: serde")]
            #[serde(deny_unknown_fields)]
            #[serde(rename_all="snake_case")]
            enum TestEnum {
                #[doc = r" Nested settings."]
                Nested(NestedStruct),
                #[doc = r" Renamed variant."]
                #[serde(rename = "RENAMED")]
                Renamed(NestedStruct),
                #[doc = r" Not serialized."]
                #[serde(skip)]
                Skipped(NotSettings),
                #[doc = r" A unit variant."]
                UnitVariant
            }

            impl ::foundations::settings::Settings for TestEnum {
                fn add_docs(
                    &self,
                    parent_key: &[String],
                    docs: &mut ::std::collections::HashMap<Vec<String> , & 'static [& 'static str]>)
                {
                    match self {
                        Self::Nested(value) => {
                            let mut key = parent_key.to_vec();
                            key.push("nested".into());
                            ::foundations::settings::Settings::add_docs(value, &key, docs);
                            docs.insert(key, &[r" Nested settings.",][..]);
                        }
                        Self::Renamed(value) => {
                            let mut key = parent_key.to_vec();
                            key.push("RENAMED".into());
                            ::foundations::settings::Settings::add_docs(value, &key, docs);
                            docs.insert(key, &[r" Renamed variant.",][..]);
                        }
                        Self::Skipped(..) => {}
                        Self::UnitVariant => {}
                    }
                }
            }
        "##,
    );

    assert_eq!(actual, expected);
}

#[test]
fn expand_tuple_struct() {
    let err = expand(
        "",
        r##"
            struct TestStruct(u64, String);
        "##,
    ).unwrap_err().to_string();

    assert_eq!(err, ERR_TUPLE_STRUCT);
}

#[test]
fn expand_enum_with_struct_variant() {
    let err = expand(
        "",
        r##"
            enum TestEnum {
                Variant {
                    field: u64
                }
            }
        "##,
    ).unwrap_err().to_string();

    assert_eq!(err, ERR_NON_UNIT_OR_NEW_TYPE_VARIANT);
}

#[test]
fn expand_enum_with_tuple_variant() {
    let err = expand(
        "",
        r##"
            enum TestEnum {
               Tuple(u64, String)
            }
        "##,
    ).unwrap_err().to_string();

    assert_eq!(err, ERR_NON_UNIT_OR_NEW_TYPE_VARIANT);
}

#[test]
fn expand_non_struct_or_enum() {
    let err = expand(
        "",
        r##"
            mod foo {
                const BAR: &str = "baz";
            }
        "##,
    ).unwrap_err().to_string();

    assert_eq!(err, ERR_NOT_STRUCT_OR_ENUM);
}

#[test]
fn expand_with_serde_defaults() {
    let actual = expand(
        "",
        r##"
            struct TestStruct {
                #[serde(default = "TestStruct::default_boolean")]
                boolean: bool,

                #[serde(default = "TestStruct::default_integer")]
                integer: i32,
            }
        "##,
    ).unwrap().to_string();

    let expected = code_str(
        r##"
            #[derive(
                Clone,
                ::foundations::reexports_for_macros::serde::Serialize,
                ::foundations::reexports_for_macros::serde::Deserialize,
            )]
            #[derive(Debug)]
            #[serde(crate = ":: foundations :: reexports_for_macros :: serde")]
            #[serde(deny_unknown_fields)]
            #[serde(default)]
            struct TestStruct {
                #[serde(default = "TestStruct::default_boolean")]
                boolean: bool,
                #[serde(default = "TestStruct::default_integer")]
                integer: i32,
            }

            impl ::foundations::settings::Settings for TestStruct {
                fn add_docs(
                    &self,
                    parent_key: &[String],
                    docs: &mut ::std::collections::HashMap<Vec<String> , & 'static [& 'static str]>
                ) {
                    let mut key = parent_key.to_vec();
                    key.push("boolean".into());
                    ::foundations::settings::Settings::add_docs(&self.boolean, &key, docs);
                    let mut key = parent_key.to_vec();
                    key.push("integer".into());
                    ::foundations::settings::Settings::add_docs(&self.integer, &key, docs);
                }
            }

            impl Default for TestStruct {
                fn default() -> Self {
                    Self {
                        boolean: TestStruct::default_boolean(),
                        integer: TestStruct::default_integer(),
                    }
                }
            }
        "##,
    );

    assert_eq!(actual, expected);
}
