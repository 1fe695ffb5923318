//! The arguments of the `settings` attribute.

use crate::attr::{
    are_at, each_is_at, failures, first_named, is_at, lemma_added, lemma_each_is_at_goes_on, once,
    once_at,
};
use crate::error::{
    error_spans, error_texts, join_errors, joined_texts, option_spans, option_texts, result_view,
    Texts,
};
use crate::parse::{
    duplicate_field, format_text, unknown_field, unknown_text, unsupported_format,
};
use crate::read::{are_as_written, args_from, args_stand_in, read_args};
use crate::syntax::{all_plain, all_views, Arg, ArgView, Spanless};
use crate::token::{concat, is_word, kinds, quoted, tokens, Quote, Token, TokenKind};
use proc_macro2::{Span, TokenStream};
use vstd::prelude::*;

verus! {

/// How the macro is built.
#[derive(Clone, Copy, PartialEq, Eq, Structural)]
pub struct Features {
    /// Settings refuse unknown fields unless told otherwise.
    pub deny_unknown_fields_by_default: bool,
    /// What is not stable yet is expanded too: the documentation of what enum variants hold.
    pub unstable: bool,
}

/// What the arguments of the attribute ask for.
pub struct Options {
    /// Whether the settings get a `Default` impl.
    pub impl_default: bool,
    /// Whether the settings get a `Debug` impl.
    pub impl_debug: bool,
    /// Where the crate with the `Settings` trait is found.
    pub crate_path: TokenStream,
    /// Whether the settings refuse unknown fields.
    pub deny_unknown_fields: bool,
}

pub struct OptionsView<T> {
    pub impl_default: bool,
    pub impl_debug: bool,
    pub crate_path: Seq<T>,
    pub deny_unknown_fields: bool,
}

impl View for Options {
    type V = OptionsView<Token>;

    open spec fn view(&self) -> OptionsView<Token> {
        OptionsView {
            impl_default: self.impl_default,
            impl_debug: self.impl_debug,
            crate_path: tokens(self.crate_path),
            deny_unknown_fields: self.deny_unknown_fields,
        }
    }
}

impl Spanless for OptionsView<Token> {
    type Plain = OptionsView<TokenKind>;

    open spec fn plain(self) -> OptionsView<TokenKind> {
        OptionsView {
            impl_default: self.impl_default,
            impl_debug: self.impl_debug,
            crate_path: kinds(self.crate_path),
            deny_unknown_fields: self.deny_unknown_fields,
        }
    }
}

/// `::foundations`
pub open spec fn foundations(site: Span) -> Seq<Token> {
    quoted(site).sep().word("foundations").tokens
}

/// The options without any arguments.
pub open spec fn default_options(features: Features, site: Span) -> OptionsView<Token> {
    OptionsView {
        impl_default: true,
        impl_debug: true,
        crate_path: foundations(site),
        deny_unknown_fields: features.deny_unknown_fields_by_default,
    }
}

/// The arguments that there are.
pub open spec fn known_options() -> Seq<Seq<char>> {
    seq!["impl_default"@, "impl_debug"@, "crate_path"@, "deny_unknown_fields"@]
}

/// What is wrong with an argument.
pub open spec fn option_failure<T>(before: Seq<ArgView<T>>, arg: ArgView<T>) -> Option<Texts> {
    match arg {
        ArgView::Named(arg) => if arg.name == "impl_default"@ || arg.name == "impl_debug"@
            || arg.name == "deny_unknown_fields"@ {
            once(before, arg.name, arg.boolean)
        } else if arg.name == "crate_path"@ {
            once(before, arg.name, arg.path)
        } else {
            Some(seq![unknown_text(arg.name, known_options())])
        },
        ArgView::Lit(_) => Some(seq![format_text("literal"@)]),
    }
}

/// Whether `places` is where the messages about an argument point.
pub open spec fn option_failure_at(before: Seq<Arg>, arg: Arg, places: Seq<Span>) -> bool {
    match arg {
        Arg::Named(arg) => if arg.name@ == "impl_default"@ || arg.name@ == "impl_debug"@
            || arg.name@ == "deny_unknown_fields"@ {
            once_at(before, arg, arg.boolean, places)
        } else if arg.name@ == "crate_path"@ {
            once_at(before, arg, arg.path, places)
        } else {
            is_at(arg.tokens, places)
        },
        Arg::Lit(literal) => is_at(literal, places),
    }
}

/// The truth value of an argument, or `default` where it is not given.
pub open spec fn bool_arg<T>(args: Seq<ArgView<T>>, name: Seq<char>, default: bool) -> bool {
    match first_named(args, name) {
        Some(arg) => match arg.boolean {
            Ok(value) => value,
            Err(_) => default,
        },
        None => default,
    }
}

/// The path in an argument, or `default` where it is not given.
pub open spec fn path_arg<T>(args: Seq<ArgView<T>>, name: Seq<char>, default: Seq<T>) -> Seq<T> {
    match first_named(args, name) {
        Some(arg) => match arg.path {
            Ok(path) => path,
            Err(_) => default,
        },
        None => default,
    }
}

/// What the arguments ask for, or all that is wrong with them.
pub open spec fn options_in<T>(args: Seq<ArgView<T>>, defaults: OptionsView<T>) -> Result<
    OptionsView<T>,
    Texts,
> {
    match failures(
        args,
        |before: Seq<ArgView<T>>, arg: ArgView<T>| option_failure(before, arg),
    ) {
        Some(texts) => Err(texts),
        None => Ok(
            OptionsView {
                impl_default: bool_arg(args, "impl_default"@, defaults.impl_default),
                impl_debug: bool_arg(args, "impl_debug"@, defaults.impl_debug),
                crate_path: path_arg(args, "crate_path"@, defaults.crate_path),
                deny_unknown_fields: bool_arg(
                    args,
                    "deny_unknown_fields"@,
                    defaults.deny_unknown_fields,
                ),
            },
        ),
    }
}

/// The names of the four arguments differ.
pub proof fn lemma_options_differ()
    ensures
        "impl_default"@ != "impl_debug"@,
        "impl_default"@ != "crate_path"@,
        "impl_default"@ != "deny_unknown_fields"@,
        "impl_debug"@ != "crate_path"@,
        "impl_debug"@ != "deny_unknown_fields"@,
        "crate_path"@ != "deny_unknown_fields"@,
{
    reveal_strlit("impl_default");
    reveal_strlit("impl_debug");
    reveal_strlit("crate_path");
    reveal_strlit("deny_unknown_fields");
    assert("impl_default"@.len() == 12 && "impl_debug"@.len() == 10);
    assert("crate_path"@.len() == 10 && "deny_unknown_fields"@.len() == 19);
    assert("impl_debug"@[0] != "crate_path"@[0]);
}

/// Whether `given` is what the first argument of that name among `args` is read as.
spec fn holds_bool(given: Option<Option<bool>>, args: Seq<ArgView<Token>>, name: Seq<char>) -> bool {
    match first_named(args, name) {
        Some(arg) => given == Some(
            match arg.boolean {
                Ok(value) => Some(value),
                Err(_) => None,
            },
        ),
        None => given is None,
    }
}

/// Takes a truth value from an argument that may be given once.
fn take_bool(
    errors: Option<syn::Error>,
    given: Option<Option<bool>>,
    name: &str,
    value: &Result<bool, syn::Error>,
    blamed: &TokenStream,
    Ghost(before): Ghost<Seq<ArgView<Token>>>,
    Ghost(arg): Ghost<ArgView<Token>>,
) -> (res: (Option<syn::Error>, Option<Option<bool>>))
    requires
        holds_bool(given, before, name@),
        arg matches ArgView::Named(named) && named.name == name@ && named.boolean == (match *value {
            Ok(value) => Ok(value),
            Err(e) => Err(error_texts(e)),
        }),
    ensures
        holds_bool(res.1, before.push(arg), name@),
        option_texts(res.0) == joined_texts(
            option_texts(errors),
            once(before, name@, arg->Named_0.boolean),
        ),
        ({
            let next = option_spans(res.0).skip(option_spans(errors).len() as int);
            &&& option_spans(res.0) == option_spans(errors) + next
            &&& if first_named(before, name@) is Some {
                is_at(*blamed, next)
            } else {
                match *value {
                    Ok(_) => next.len() == 0,
                    Err(e) => next == error_spans(e),
                }
            }
        }),
{
    assert(before.push(arg).drop_last() =~= before);
    let ghost so_far = option_spans(errors);
    let res = if given.is_some() {
        (join_errors(errors, duplicate_field(name, blamed)), given)
    } else {
        match value {
            Ok(value) => (errors, Some(Some(*value))),
            Err(e) => (join_errors(errors, e.clone()), Some(None)),
        }
    };
    proof {
        let next = option_spans(res.0).skip(so_far.len() as int);
        lemma_added(so_far, option_spans(res.0), next);
        assert(option_spans(res.0) =~= so_far + next);
    }
    res
}

impl Options {
    pub fn default_impl_default() -> (res: bool)
        ensures
            res,
    {
        true
    }

    pub fn default_impl_debug() -> (res: bool)
        ensures
            res,
    {
        true
    }

    pub fn default_crate_path(site: Span) -> (res: TokenStream)
        ensures
            tokens(res) == foundations(site),
    {
        proof {
            reveal_strlit("foundations");
            assert(is_word("foundations"@));
        }
        Quote::new(site).sep().word("foundations").stream
    }

    pub fn default_deny_unknown_fields(features: Features) -> (res: bool)
        ensures
            res == features.deny_unknown_fields_by_default,
    {
        features.deny_unknown_fields_by_default
    }

    /// The options without any arguments.
    pub fn default(features: Features, site: Span) -> (res: Options)
        ensures
            res@ == default_options(features, site),
    {
        Options {
            impl_default: Options::default_impl_default(),
            impl_debug: Options::default_impl_debug(),
            crate_path: Options::default_crate_path(site),
            deny_unknown_fields: Options::default_deny_unknown_fields(features),
        }
    }

    /// Reads the options from arguments.
    pub fn from_list(args: &Vec<Arg>, features: Features, site: Span) -> (res: Result<
        Options,
        syn::Error,
    >)
        ensures
            match res {
                Ok(options) => options_in(all_views(args@), default_options(features, site)) == Ok::<
                    _,
                    Texts,
                >(options@),
                Err(e) => {
                    &&& options_in(all_views(args@), default_options(features, site)) == Err::<
                        OptionsView<Token>,
                        _,
                    >(error_texts(e))
                    &&& are_at(
                        args@,
                        error_spans(e),
                        |before: Seq<Arg>, arg: Arg, places: Seq<Span>|
                            option_failure_at(before, arg, places),
                    )
                },
            },
    {
        let ghost views = all_views(args@);
        let ghost check = |before: Seq<ArgView<Token>>, arg: ArgView<Token>|
            option_failure(before, arg);
        proof {
            lemma_options_differ();
        }
        let ghost at = |before: Seq<Arg>, arg: Arg, places: Seq<Span>|
            option_failure_at(before, arg, places);
        let ghost mut each = Seq::<Seq<Span>>::empty();
        let mut errors: Option<syn::Error> = None;
        let mut impl_default: Option<Option<bool>> = None;
        let mut impl_debug: Option<Option<bool>> = None;
        let mut crate_path: Option<Option<TokenStream>> = None;
        let mut deny_unknown_fields: Option<Option<bool>> = None;
        let mut i: usize = 0;
        while i < args.len()
            invariant
                i <= args.len(),
                views == all_views(args@),
                check == (|before: Seq<ArgView<Token>>, arg: ArgView<Token>|
                    option_failure(before, arg)),
                option_texts(errors) == failures(views.take(i as int), check),
                at == (|before: Seq<Arg>, arg: Arg, places: Seq<Span>|
                    option_failure_at(before, arg, places)),
                each_is_at(args@.take(i as int), each, at),
                option_spans(errors) == concat(each),
                holds_bool(impl_default, views.take(i as int), "impl_default"@),
                holds_bool(impl_debug, views.take(i as int), "impl_debug"@),
                holds_bool(deny_unknown_fields, views.take(i as int), "deny_unknown_fields"@),
                match first_named(views.take(i as int), "crate_path"@) {
                    Some(arg) => crate_path is Some && match arg.path {
                        Ok(path) => crate_path->0 is Some && tokens(crate_path->0->0) == path,
                        Err(_) => crate_path->0 is None,
                    },
                    None => crate_path is None,
                },
            decreases args.len() - i,
        {
            let ghost before = views.take(i as int);
            proof {
                lemma_options_differ();
                assert(views.take(i + 1).drop_last() =~= before);
                assert(views.take(i + 1) =~= before.push(views[i as int]));
                assert(all_views(args@.take(i as int)) =~= before);
            }
            let ghost so_far = option_spans(errors);
            match &args[i] {
                Arg::Named(arg) => {
                    let blamed = &arg.tokens;
                    if arg.name == "impl_default".to_owned() {
                        let (e, given) = take_bool(
                            errors,
                            impl_default,
                            "impl_default",
                            &arg.boolean,
                            blamed,
                            Ghost(before),
                            Ghost(views[i as int]),
                        );
                        errors = e;
                        impl_default = given;
                    } else if arg.name == "impl_debug".to_owned() {
                        let (e, given) = take_bool(
                            errors,
                            impl_debug,
                            "impl_debug",
                            &arg.boolean,
                            blamed,
                            Ghost(before),
                            Ghost(views[i as int]),
                        );
                        errors = e;
                        impl_debug = given;
                    } else if arg.name == "deny_unknown_fields".to_owned() {
                        let (e, given) = take_bool(
                            errors,
                            deny_unknown_fields,
                            "deny_unknown_fields",
                            &arg.boolean,
                            blamed,
                            Ghost(before),
                            Ghost(views[i as int]),
                        );
                        errors = e;
                        deny_unknown_fields = given;
                    } else if arg.name == "crate_path".to_owned() {
                        if crate_path.is_some() {
                            errors = join_errors(errors, duplicate_field("crate_path", blamed));
                        } else {
                            match &arg.path {
                                Ok(path) => crate_path = Some(Some(path.clone())),
                                Err(e) => {
                                    errors = join_errors(errors, e.clone());
                                    crate_path = Some(None);
                                },
                            }
                        }
                    } else {
                        let known = Options::known();
                        errors = join_errors(
                            errors,
                            unknown_field(arg.name.as_str(), &known, blamed),
                        );
                    }
                },
                Arg::Lit(literal) => {
                    errors = join_errors(errors, unsupported_format("literal", literal));
                },
            }
            proof {
                let next = option_spans(errors).skip(so_far.len() as int);
                assert(option_spans(errors) =~= so_far + next);
                assert(at(args@.take(i as int), args@[i as int], next)) by {
                    lemma_added(so_far, option_spans(errors), next);
                }
                lemma_each_is_at_goes_on(args@, each, next, at, i as int);
                each = each.push(next);
            }
            i += 1;
        }
        assert(views.take(i as int) =~= views);
        assert(args@.take(i as int) =~= args@);
        if let Some(e) = errors {
            return Err(e);
        }
        let defaults = Options::default(features, site);
        Ok(
            Options {
                impl_default: match impl_default {
                    Some(Some(value)) => value,
                    _ => defaults.impl_default,
                },
                impl_debug: match impl_debug {
                    Some(Some(value)) => value,
                    _ => defaults.impl_debug,
                },
                crate_path: match crate_path {
                    Some(Some(path)) => path,
                    _ => defaults.crate_path,
                },
                deny_unknown_fields: match deny_unknown_fields {
                    Some(Some(value)) => value,
                    _ => defaults.deny_unknown_fields,
                },
            },
        )
    }

    /// The arguments that there are.
    fn known() -> (res: Vec<String>)
        ensures
            all_views(res@) == known_options(),
    {
        let mut res: Vec<String> = Vec::new();
        res.push("impl_default".to_owned());
        res.push("impl_debug".to_owned());
        res.push("crate_path".to_owned());
        res.push("deny_unknown_fields".to_owned());
        assert(all_views(res@) =~= known_options());
        res
    }

    /// Reads the options from what stands in the parentheses of the attribute.
    pub fn parse(input: &TokenStream, features: Features, site: Span) -> (res: Result<
        Options,
        syn::Error,
    >)
        ensures
            options_read(tokens(*input), features, site, result_view(res)),
            res matches Err(e) ==> args_from(kinds(tokens(*input))) is Ok ==> options_fail_at(
                tokens(*input),
                error_spans(e),
            ),
    {
        if input.is_empty() {
            return Ok(Options::default(features, site));
        }
        match read_args(input) {
            Ok(args) => {
                let res = Options::from_list(&args, features, site);
                proof {
                    assert(reads_args(tokens(*input), all_views(args@)));
                }
                res
            },
            Err(e) => Err(e),
        }
    }
}

/// Whether `places` is where the messages about the parsed arguments point.
pub open spec fn options_fail_at(input: Seq<Token>, places: Seq<Span>) -> bool {
    exists|args: Seq<Arg>| #[trigger]
        reads_args(input, all_views(args)) && are_at(
            args,
            places,
            |before: Seq<Arg>, arg: Arg, places: Seq<Span>|
                option_failure_at(before, arg, places),
        )
}

/// Whether `args` is what the arguments are parsed as.
pub open spec fn reads_args(input: Seq<Token>, args: Seq<ArgView<Token>>) -> bool {
    &&& args_from(kinds(input)) == Ok::<_, Texts>(all_plain(args))
    &&& are_as_written(args)
    &&& args_stand_in(args, input)
}

/// Whether `res` is what the options are read as: the defaults where nothing is given, or else what
/// the parsed arguments ask for, if they are all right.
pub open spec fn options_read(
    input: Seq<Token>,
    features: Features,
    site: Span,
    res: Result<OptionsView<Token>, Texts>,
) -> bool {
    if input.len() == 0 {
        res == Ok::<_, Texts>(default_options(features, site))
    } else {
        match args_from(kinds(input)) {
            Ok(_) => exists|args: Seq<ArgView<Token>>| #[trigger]
                reads_args(input, args) && res == options_in(args, default_options(features, site)),
            Err(texts) => res == Err::<OptionsView<Token>, _>(texts),
        }
    }
}

} // verus!
