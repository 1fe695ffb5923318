//! The arguments of the attribute.

use foundations_settings::options::{Features, Options};
use foundations_settings::token::Quote;
use proc_macro2::{Span, TokenStream};

const DENY: Features = Features { deny_unknown_fields_by_default: true, unstable: false };
const ALLOW: Features = Features { deny_unknown_fields_by_default: false, unstable: false };

fn tokens(code: &str) -> TokenStream {
    code.parse().unwrap()
}

fn parse(args: &str) -> Options {
    Options::parse(&tokens(args), DENY, Span::call_site()).unwrap()
}

/// The texts of all that is wrong with the arguments.
fn wrong(args: &str) -> Vec<String> {
    let error = Options::parse(&tokens(args), DENY, Span::call_site()).err().unwrap();
    error.into_iter().map(|e| e.to_string()).collect()
}

#[test]
fn defaults_without_arguments() {
    let options = parse("");
    assert!(options.impl_default);
    assert!(options.impl_debug);
    assert!(options.deny_unknown_fields);
    assert_eq!(options.crate_path.to_string(), ":: foundations");

    let options = Options::parse(&TokenStream::new(), ALLOW, Span::call_site()).unwrap();
    assert!(!options.deny_unknown_fields);
    assert!(!Options::default(ALLOW, Span::call_site()).deny_unknown_fields);
    assert!(Options::default(DENY, Span::call_site()).impl_debug);
}

#[test]
fn each_argument_sets_its_option_alone() {
    let options = parse("impl_default = false");
    assert!(!options.impl_default);
    assert!(options.impl_debug && options.deny_unknown_fields);

    let options = parse("impl_debug = false");
    assert!(!options.impl_debug);
    assert!(options.impl_default && options.deny_unknown_fields);

    let options = parse("deny_unknown_fields = false");
    assert!(!options.deny_unknown_fields);
    assert!(options.impl_default && options.impl_debug);

    let options = parse(r#"crate_path = "::custom::path""#);
    assert_eq!(options.crate_path.to_string(), ":: custom :: path");
    assert!(options.impl_default && options.impl_debug && options.deny_unknown_fields);
}

#[test]
fn all_arguments_together() {
    let options = parse(
        r#"deny_unknown_fields = false, crate_path = "x", impl_debug = false, impl_default = false,"#,
    );
    assert!(!options.impl_default && !options.impl_debug && !options.deny_unknown_fields);
    assert_eq!(options.crate_path.to_string(), "x");
}

#[test]
fn truth_values() {
    let args = tokens("deny_unknown_fields");
    assert!(Options::parse(&args, ALLOW, Span::call_site()).unwrap().deny_unknown_fields);
    let args = tokens("deny_unknown_fields = true");
    assert!(Options::parse(&args, ALLOW, Span::call_site()).unwrap().deny_unknown_fields);
    let args = tokens(r#"deny_unknown_fields = "true""#);
    assert!(Options::parse(&args, ALLOW, Span::call_site()).unwrap().deny_unknown_fields);
    assert!(!parse(r#"impl_debug = "false""#).impl_debug);
}

#[test]
fn values_that_are_no_truth_values() {
    assert_eq!(wrong("impl_default = 1"), ["Unexpected type `int`"]);
    assert_eq!(wrong(r#"impl_default = "maybe""#), ["Unknown value: `maybe`"]);
    assert_eq!(wrong("impl_default(true)"), ["Unexpected meta-item format `list`"]);
}

#[test]
fn negative_options_are_rejected_as_they_are_first_read() {
    assert_eq!(wrong("impl_default = -1"), ["Unexpected type `int`"]);
    assert_eq!(wrong("impl_default = -1, impl_debug"), ["Unexpected type `unary`"]);
    assert_eq!(wrong("impl_debug, crate_path = -1"), ["Unexpected type `int`"]);
    assert_eq!(wrong("crate_path = -1,"), ["Unexpected type `unary`"]);
}

#[test]
fn values_that_are_no_paths() {
    assert_eq!(wrong("crate_path"), ["Unexpected meta-item format `word`"]);
    assert_eq!(wrong("crate_path = true"), ["Unexpected type `bool`"]);
    assert_eq!(wrong(r#"crate_path = "a b""#).len(), 1);
}

#[test]
fn unknown_arguments() {
    assert_eq!(
        wrong("impl_defaults = false"),
        ["Unknown field: `impl_defaults`. Did you mean `impl_default`?"],
    );
    assert_eq!(
        wrong("zzz"),
        ["Unknown field: `zzz`. Available values: `crate_path`, `deny_unknown_fields`, `impl_debug`, `impl_default`"],
    );
    assert_eq!(wrong("some::path").len(), 1);
}

#[test]
fn arguments_given_twice() {
    assert_eq!(
        wrong("impl_debug = true, impl_debug = false"),
        ["Duplicate field `impl_debug`"],
    );
    assert_eq!(
        wrong(r#"crate_path = "a", crate_path = "b""#),
        ["Duplicate field `crate_path`"],
    );
}

#[test]
fn literals_are_no_arguments() {
    assert_eq!(wrong(r#""impl_debug""#), ["Unexpected meta-item format `literal`"]);
}

#[test]
fn all_that_is_wrong_is_reported_in_order() {
    assert_eq!(
        wrong(r#"impl_debug = 1, "x", impl_default, impl_debug, crate_path"#),
        [
            "Unexpected type `int`",
            "Unexpected meta-item format `literal`",
            "Duplicate field `impl_debug`",
            "Unexpected meta-item format `word`",
        ],
    );
}

#[test]
fn arguments_that_cannot_be_parsed() {
    assert_eq!(wrong("= 1").len(), 1);
    assert_eq!(wrong("impl_debug impl_default"), ["expected `,`"]);
}

#[test]
fn tokens_are_written_one_after_another() {
    let site = Span::call_site();
    let inner = Quote::new(site).punct('&').lifetime("a").word("str").stream;
    let written = Quote::new(site)
        .sep()
        .word("x")
        .pair('-', '>')
        .parens(inner.clone())
        .brackets(TokenStream::new())
        .braces(inner)
        .string("say \"hi\"\n", site)
        .stream;
    assert_eq!(
        written.to_string(),
        tokens(r#"::x -> (& 'a str) [] { & 'a str } "say \"hi\"\n""#).to_string(),
    );
}
