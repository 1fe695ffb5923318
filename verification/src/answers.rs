//! What is answered: which items are refused and how that is said, and what is returned for them.

use crate::attr::{are_at, each_is_at, fails_at, first_named, serde_args_of, serde_failure_at};
use crate::derive::{serde_path_tokens, EnvView};
use crate::error::{
    error_spans, error_texts, is_report, report, report_at, reports, result_view, starts, starts_at,
    ErrorView, ExpandError, Texts,
};
use crate::expand::{
    becomes, expanded, expands_to, expansion_fails_at, is_env, is_readable, is_refused,
    item_becomes, option_tokens, outcome, reads_item, reports_item, reports_options,
    ERR_NON_UNIT_OR_NEW_TYPE_VARIANT,
};
use crate::laws::{law_what_is_reported, lemma_not_named};
use crate::options::{
    default_options, lemma_options_differ, option_failure_at, options_fail_at, options_in,
    options_read, reads_args, Features, Options, OptionsView,
};
use crate::read::{are_as_written, args_from, args_stand_in, is_faithful, item_from};
use crate::syntax::{
    all_plain, all_views, Arg, ArgView, Attribute, EnumView, FieldsView, Flag, Item, ItemView,
    Shape, Spanless, StructView,
};
use crate::token::{concat, is_call_site, kinds, prints, spans, tokens, Token, TokenKind};
use crate::written::{at, joint, lbrace, lemma_concat_is_flatten, mark, rbrace, word};
use proc_macro2::{Span, TokenStream};
use vstd::prelude::*;

verus! {

/// An enum is refused for its first variant that has field names or more than one field. The message
/// blames all of that variant.
pub proof fn law_which_variant_is_refused(
    options: OptionsView<Token>,
    item: EnumView<Token>,
    i: int,
    env: EnvView,
)
    requires
        0 <= i < item.variants.len(),
        match item.variants[i].shape {
            Shape::Named => true,
            Shape::Unnamed(count) => count > 1,
            Shape::Unit => false,
        },
        forall|k: int|
            0 <= k < i ==> match (#[trigger] item.variants[k]).shape {
                Shape::Named => false,
                Shape::Unnamed(count) => count <= 1,
                Shape::Unit => true,
            },
    ensures
        expanded(options, ItemView::Enum(item), env) == Err::<Seq<Token>, _>(
            ErrorView::Message {
                text: "Settings enum variant should either be a unit variant (e.g. `Enum::Foo`) or a new type variant (e.g. `Enum::Foo(Bar)`)."@,
                blamed: item.variants[i].tokens,
            },
        ),
{
    law_what_is_reported(options, ItemView::Enum(item), env);
    let k = choose|k: int|
        0 <= k < item.variants.len() && is_refused(#[trigger] item.variants[k]) && (
        forall|j: int| 0 <= j < k ==> !is_refused(#[trigger] item.variants[j]))
            && expanded(options, ItemView::Enum(item), env)->Err_0 == (ErrorView::Message {
            text: ERR_NON_UNIT_OR_NEW_TYPE_VARIANT@,
            blamed: item.variants[k].tokens,
        });
    if k < i {
        assert(match item.variants[k].shape {
            Shape::Named => false,
            Shape::Unnamed(count) => count <= 1,
            Shape::Unit => true,
        });
    } else if i < k {
        assert(!is_refused(item.variants[i]));
    }
}

/// A structure without field names that has more than one field is refused. The message blames all of
/// it, its attributes among it.
pub proof fn law_which_structure_is_refused(
    options: OptionsView<Token>,
    item: StructView<Token>,
    count: usize,
    env: EnvView,
)
    requires
        item.fields == FieldsView::<Token>::Unnamed(count),
        count > 1,
    ensures
        expanded(options, ItemView::Struct(item), env) == Err::<Seq<Token>, _>(
            ErrorView::Message {
                text: "Settings with unnamed fields can only be new type structures (e.g. `struct Millimeters(u8)`)."@,
                blamed: item.attrs.flatten() + item.body,
            },
        ),
{
    lemma_concat_is_flatten(item.attrs);
}

/// Anything but a structure or an enum is refused. The message blames all of it.
pub proof fn law_which_item_is_refused(
    options: OptionsView<Token>,
    item: Seq<Token>,
    env: EnvView,
)
    ensures
        expanded(options, ItemView::Other(item), env) == Err::<Seq<Token>, _>(
            ErrorView::Message {
                text: "Settings should be either structure or enum."@,
                blamed: item,
            },
        ),
{
}

/// Each message is reported by `::core::compile_error! { "text" }`, in order and with none left out. A
/// message about some tokens points from the first of these to the last, and one about none to the call
/// site.
pub proof fn law_what_a_report_is(stream: Seq<Token>, text: Seq<char>, blamed: Seq<Token>, texts: Texts)
    ensures
        reports(texts) == texts.flat_map(
            |text: Seq<char>|
                seq![
                    joint(':'),
                    mark(':'),
                    word("core"),
                    joint(':'),
                    mark(':'),
                    word("compile_error"),
                    mark('!'),
                    lbrace(),
                    TokenKind::Str(text),
                    rbrace(),
                ],
        ),
        is_report(stream, ErrorView::Outside(texts)) <==> kinds(stream) == reports(texts),
        is_report(stream, ErrorView::Message { text, blamed }) && blamed.len() > 0 ==> stream == at(
            blamed.first().span,
            seq![
                joint(':'),
                mark(':'),
                word("core"),
                joint(':'),
                mark(':'),
                word("compile_error"),
                mark('!'),
            ],
        ) + at(blamed.last().span, seq![lbrace(), TokenKind::Str(text), rbrace()]),
        is_report(stream, ErrorView::Message { text, blamed }) && blamed.len() == 0 ==> exists|
            site: Span,
        | #[trigger]
            is_call_site(site) && stream == at(
                site,
                seq![
                    joint(':'),
                    mark(':'),
                    word("core"),
                    joint(':'),
                    mark(':'),
                    word("compile_error"),
                    mark('!'),
                ],
            ) + at(site, seq![lbrace(), TokenKind::Str(text), rbrace()]),
{
    lemma_reports(texts);
    if is_report(stream, ErrorView::Message { text, blamed }) {
        if blamed.len() > 0 {
            lemma_report_at(text, blamed.first().span, blamed.last().span);
        } else {
            let site = choose|site: Span| #[trigger]
                is_call_site(site) && stream == report_at(text, site, site);
            lemma_report_at(text, site, site);
        }
    }
}

proof fn lemma_report_at(text: Seq<char>, start: Span, end: Span)
    ensures
        report_at(text, start, end) == at(
            start,
            seq![
                joint(':'),
                mark(':'),
                word("core"),
                joint(':'),
                mark(':'),
                word("compile_error"),
                mark('!'),
            ],
        ) + at(end, seq![lbrace(), TokenKind::Str(text), rbrace()]),
{
    assert(report_at(text, start, end) =~= at(
        start,
        seq![
            joint(':'),
            mark(':'),
            word("core"),
            joint(':'),
            mark(':'),
            word("compile_error"),
            mark('!'),
        ],
    ) + at(end, seq![lbrace(), TokenKind::Str(text), rbrace()]));
}

proof fn lemma_reports(texts: Texts)
    ensures
        reports(texts) == texts.flat_map(
            |text: Seq<char>|
                seq![
                    joint(':'),
                    mark(':'),
                    word("core"),
                    joint(':'),
                    mark(':'),
                    word("compile_error"),
                    mark('!'),
                    lbrace(),
                    TokenKind::Str(text),
                    rbrace(),
                ],
        ),
    decreases texts.len(),
{
    let each = |text: Seq<char>|
        seq![
            joint(':'),
            mark(':'),
            word("core"),
            joint(':'),
            mark(':'),
            word("compile_error"),
            mark('!'),
            lbrace(),
            TokenKind::Str(text),
            rbrace(),
        ];
    if texts.len() == 0 {
        assert(texts.flat_map(each) =~= Seq::empty());
    } else {
        lemma_reports(texts.drop_last());
        assert(texts =~= texts.drop_last().push(texts.last()));
        texts.drop_last().lemma_flat_map_push(each, texts.last());
        assert(report(texts.last()) == each(texts.last()));
    }
}

/// The texts of an error are its one text, or all that the parsers report.
pub proof fn law_texts_of_an_error(text: Seq<char>, blamed: Seq<Token>, texts: Texts)
    ensures
        (ErrorView::Message { text, blamed }).texts() == seq![text],
        ErrorView::Outside(texts).texts() == texts,
{
}

/// An attribute without arguments turns an item into what it becomes under the options that there are
/// without arguments.
pub proof fn law_what_is_returned_without_arguments(
    args: Seq<Token>,
    input: Seq<Token>,
    features: Features,
    res: Option<Seq<Token>>,
)
    requires
        args.len() == 0,
        expands_to(args, input, features, res),
    ensures
        exists|site: Span| #[trigger]
            is_call_site(site) && item_becomes(
                default_options(features, site),
                input,
                features.unstable,
                res,
            ),
{
}

/// An attribute with arguments turns an item into what it becomes under the options that these ask
/// for. If the arguments cannot be parsed, or are not all taken, that is reported, and nothing else.
pub proof fn law_what_is_returned_with_arguments(
    args: Seq<Token>,
    input: Seq<Token>,
    features: Features,
    res: Option<Seq<Token>>,
)
    requires
        args.len() > 0,
        expands_to(args, input, features, res),
    ensures
        match args_from(kinds(args)) {
            Err(texts) => res is Some && kinds(res->0) == reports(texts),
            Ok(plain) => exists|site: Span, list: Seq<ArgView<Token>>|
                {
                    &&& #[trigger] is_call_site(site)
                    &&& #[trigger] all_plain(list) == plain
                    &&& are_as_written(list)
                    &&& args_stand_in(list, args)
                    &&& match options_in(list, default_options(features, site)) {
                        Ok(options) => item_becomes(options, input, features.unstable, res),
                        Err(texts) => res is Some && kinds(res->0) == reports(texts),
                    }
                },
        },
{
    let (site, options) = choose|site: Span, options: Result<OptionsView<Token>, Texts>| #[trigger]
        options_read(args, features, site, options) && is_call_site(site) && match options {
            Ok(options) => item_becomes(options, input, features.unstable, res),
            Err(texts) => res matches Some(stream) && reports_options(args, texts, stream),
        };
    if args_from(kinds(args)) is Ok {
        let list = choose|list: Seq<ArgView<Token>>| #[trigger]
            reads_args(args, list) && options == options_in(list, default_options(features, site));
        assert(is_call_site(site) && all_plain(list) == args_from(kinds(args))->Ok_0);
    }
}

/// What cannot be parsed as an item is reported. All else becomes what the item becomes that it is
/// parsed as.
pub proof fn law_what_tokens_become(
    options: OptionsView<Token>,
    input: Seq<Token>,
    unstable: bool,
    res: Option<Seq<Token>>,
)
    requires
        item_becomes(options, input, unstable, res),
    ensures
        match item_from(kinds(input)) {
            Err(texts) => res is Some && kinds(res->0) == reports(texts),
            Ok(plain) => exists|item: ItemView<Token>|
                #[trigger] item.plain() == plain && is_faithful(item, input) && becomes(
                    options,
                    item,
                    unstable,
                    res,
                ),
        },
{
    if item_from(kinds(input)) is Ok {
        let item = choose|item: ItemView<Token>| #[trigger]
            reads_item(input, item) && becomes(options, item, unstable, res);
        assert(item.plain() == item_from(kinds(input))->Ok_0);
    }
}

/// Every item that can be expanded at all is answered: by what it becomes, with the call site as the
/// place of all that is added and the printed path of `serde` under the crate path that is asked for,
/// or by a report of why it is refused. Nothing is returned for the others.
pub proof fn law_what_an_item_becomes(
    options: OptionsView<Token>,
    item: ItemView<Token>,
    unstable: bool,
    res: Option<Seq<Token>>,
)
    requires
        becomes(options, item, unstable, res),
    ensures
        !is_readable(item) ==> res is None,
        is_readable(item) ==> exists|env: EnvView|
            {
                &&& #[trigger] is_call_site(env.site)
                &&& env.unstable == unstable
                &&& prints(
                    kinds(options.crate_path) + seq![
                        joint(':'),
                        mark(':'),
                        word("reexports_for_macros"),
                        joint(':'),
                        mark(':'),
                        word("serde"),
                    ],
                    env.serde_path,
                )
                &&& match expanded(options, item, env) {
                    Ok(stream) => res == Some(stream),
                    Err(e) => res is Some && is_report(res->0, e),
                }
            },
{
    if is_readable(item) {
        let env = choose|env: EnvView| #[trigger]
            is_env(env, options, unstable) && match expanded(options, item, env) {
                Ok(stream) => res == Some(stream),
                Err(e) => res matches Some(stream) && reports_item(item, e, stream),
            };
        law_path_of_serde(options.crate_path, env.site);
        assert(is_call_site(env.site));
    }
}

/// The path of `serde` is `crate_path::reexports_for_macros::serde`, by exactly the crate path that is
/// asked for.
pub proof fn law_path_of_serde(crate_path: Seq<Token>, site: Span)
    ensures
        serde_path_tokens(crate_path, site) == crate_path + at(
            site,
            seq![
                joint(':'),
                mark(':'),
                word("reexports_for_macros"),
                joint(':'),
                mark(':'),
                word("serde"),
            ],
        ),
        kinds(serde_path_tokens(crate_path, site)) == kinds(crate_path) + seq![
            joint(':'),
            mark(':'),
            word("reexports_for_macros"),
            joint(':'),
            mark(':'),
            word("serde"),
        ],
{
    let added = seq![
        joint(':'),
        mark(':'),
        word("reexports_for_macros"),
        joint(':'),
        mark(':'),
        word("serde"),
    ];
    assert(serde_path_tokens(crate_path, site) =~= crate_path + at(site, added));
    assert(kinds(crate_path + at(site, added)) =~= kinds(crate_path) + added);
}

/// Whether an argument with that name comes before another.
proof fn lemma_earlier(args: Seq<Arg>, k: int, name: Seq<char>)
    requires
        0 <= k <= args.len(),
    ensures
        first_named(all_views(args.take(k)), name) is Some <==> exists|j: int|
            0 <= j < k && ((#[trigger] args[j]) matches Arg::Named(other) && other.name@ == name),
{
    let views = all_views(args.take(k));
    lemma_not_named(views, name);
    if first_named(views, name) is Some {
        let j = choose|j: int|
            0 <= j < views.len() && ((#[trigger] views[j]) matches ArgView::Named(arg) && arg.name
                == name);
        assert(views[j] == args[j]@);
    }
    if exists|j: int|
        0 <= j < k && ((#[trigger] args[j]) matches Arg::Named(other) && other.name@ == name) {
        let j = choose|j: int|
            0 <= j < k && ((#[trigger] args[j]) matches Arg::Named(other) && other.name@ == name);
        assert(views[j] == args[j]@);
    }
}

/// What is wrong with the arguments of the `settings` attribute is reported where it stands: a literal,
/// an argument that is not known, or one that is given twice, at the whole of it, and a value that cannot
/// be read where the reading of it failed.
pub proof fn law_where_settings_arguments_are_reported(args: Seq<Arg>, places: Seq<Span>)
    requires
        are_at(
            args,
            places,
            |before: Seq<Arg>, arg: Arg, places: Seq<Span>| option_failure_at(before, arg, places),
        ),
    ensures
        exists|each: Seq<Seq<Span>>|
            {
                &&& each.len() == args.len()
                &&& places == #[trigger] each.flatten()
                &&& forall|k: int|
                    0 <= k < args.len() ==> match #[trigger] args[k] {
                        Arg::Lit(literal) => each[k].len() == 1 && spans(tokens(literal), each[k][0]),
                        Arg::Named(arg) => if arg.name@ != "impl_default"@ && arg.name@
                            != "impl_debug"@ && arg.name@ != "crate_path"@ && arg.name@
                            != "deny_unknown_fields"@ || exists|j: int|
                            0 <= j < k && ((#[trigger] args[j]) matches Arg::Named(other)
                                && other.name@ == arg.name@) {
                            each[k].len() == 1 && spans(tokens(arg.tokens), each[k][0])
                        } else if arg.name@ == "crate_path"@ {
                            match arg.path {
                                Ok(_) => each[k].len() == 0,
                                Err(e) => each[k] == error_spans(e),
                            }
                        } else {
                            match arg.boolean {
                                Ok(_) => each[k].len() == 0,
                                Err(e) => each[k] == error_spans(e),
                            }
                        },
                    }
            },
{
    let at = |before: Seq<Arg>, arg: Arg, places: Seq<Span>| option_failure_at(before, arg, places);
    let each = choose|each: Seq<Seq<Span>>| #[trigger]
        each_is_at(args, each, at) && places == concat(each);
    lemma_concat_is_flatten(each);
    lemma_options_differ();
    assert forall|k: int| 0 <= k < args.len() implies match #[trigger] args[k] {
        Arg::Lit(literal) => each[k].len() == 1 && spans(tokens(literal), each[k][0]),
        Arg::Named(arg) => if arg.name@ != "impl_default"@ && arg.name@ != "impl_debug"@ && arg.name@
            != "crate_path"@ && arg.name@ != "deny_unknown_fields"@ || exists|j: int|
            0 <= j < k && ((#[trigger] args[j]) matches Arg::Named(other) && other.name@
                == arg.name@) {
            each[k].len() == 1 && spans(tokens(arg.tokens), each[k][0])
        } else if arg.name@ == "crate_path"@ {
            match arg.path {
                Ok(_) => each[k].len() == 0,
                Err(e) => each[k] == error_spans(e),
            }
        } else {
            match arg.boolean {
                Ok(_) => each[k].len() == 0,
                Err(e) => each[k] == error_spans(e),
            }
        },
    } by {
        assert(at(args.take(k), args[k], each[k]));
        if let Arg::Named(arg) = args[k] {
            lemma_earlier(args, k, arg.name@);
        }
    }
    assert(places == each.flatten());
}

/// What is wrong with the arguments of a `serde` attribute is reported where it stands: a literal, or
/// an argument that is given twice, at the whole of it, and a value that cannot be read where the reading
/// of it failed. Nothing is reported of arguments other than `flatten` and `default`.
pub proof fn law_where_serde_arguments_are_reported(args: Seq<Arg>, places: Seq<Span>)
    requires
        are_at(
            args,
            places,
            |before: Seq<Arg>, arg: Arg, places: Seq<Span>| serde_failure_at(before, arg, places),
        ),
    ensures
        exists|each: Seq<Seq<Span>>|
            {
                &&& each.len() == args.len()
                &&& places == #[trigger] each.flatten()
                &&& forall|k: int|
                    0 <= k < args.len() ==> match #[trigger] args[k] {
                        Arg::Lit(literal) => each[k].len() == 1 && spans(tokens(literal), each[k][0]),
                        Arg::Named(arg) => if arg.name@ != "flatten"@ && arg.name@ != "default"@ {
                            each[k].len() == 0
                        } else if exists|j: int|
                            0 <= j < k && ((#[trigger] args[j]) matches Arg::Named(other)
                                && other.name@ == arg.name@) {
                            each[k].len() == 1 && spans(tokens(arg.tokens), each[k][0])
                        } else if arg.name@ == "flatten"@ {
                            match arg.flag {
                                Flag::Rejected(e) => each[k] == error_spans(e),
                                _ => each[k].len() == 0,
                            }
                        } else {
                            match arg.optional_path {
                                Ok(_) => each[k].len() == 0,
                                Err(e) => each[k] == error_spans(e),
                            }
                        },
                    }
            },
{
    let at = |before: Seq<Arg>, arg: Arg, places: Seq<Span>| serde_failure_at(before, arg, places);
    let each = choose|each: Seq<Seq<Span>>| #[trigger]
        each_is_at(args, each, at) && places == concat(each);
    lemma_concat_is_flatten(each);
    assert forall|k: int| 0 <= k < args.len() implies match #[trigger] args[k] {
        Arg::Lit(literal) => each[k].len() == 1 && spans(tokens(literal), each[k][0]),
        Arg::Named(arg) => if arg.name@ != "flatten"@ && arg.name@ != "default"@ {
            each[k].len() == 0
        } else if exists|j: int|
            0 <= j < k && ((#[trigger] args[j]) matches Arg::Named(other) && other.name@
                == arg.name@) {
            each[k].len() == 1 && spans(tokens(arg.tokens), each[k][0])
        } else if arg.name@ == "flatten"@ {
            match arg.flag {
                Flag::Rejected(e) => each[k] == error_spans(e),
                _ => each[k].len() == 0,
            }
        } else {
            match arg.optional_path {
                Ok(_) => each[k].len() == 0,
                Err(e) => each[k] == error_spans(e),
            }
        },
    } by {
        assert(at(args.take(k), args[k], each[k]));
        if let Arg::Named(arg) = args[k] {
            lemma_earlier(args, k, arg.name@);
        }
    }
    assert(places == each.flatten());
}

/// Of the attributes of a field, the first `serde` attribute is the one that is reported: where its list
/// cannot be read, or else where its arguments are not taken.
pub proof fn law_which_attribute_is_reported(attrs: Seq<Attribute>, i: int, places: Seq<Span>)
    requires
        fails_at(attrs, places),
        0 <= i < attrs.len(),
        attrs[i]@.meta.ident == Some("serde"@),
        forall|k: int| 0 <= k < i ==> (#[trigger] attrs[k])@.meta.ident != Some("serde"@),
    ensures
        match attrs[i].args {
            Ok(args) => are_at(
                args@,
                places,
                |before: Seq<Arg>, arg: Arg, places: Seq<Span>|
                    serde_failure_at(before, arg, places),
            ),
            Err(e) => places == error_spans(e),
        },
{
    let k = choose|k: int|
        {
            &&& 0 <= k < attrs.len()
            &&& (#[trigger] attrs[k])@.meta.is("serde")
            &&& forall|j: int| 0 <= j < k ==> !(#[trigger] attrs[j])@.meta.is("serde")
            &&& match attrs[k].args {
                Ok(args) => are_at(
                    args@,
                    places,
                    |before: Seq<Arg>, arg: Arg, places: Seq<Span>|
                        serde_failure_at(before, arg, places),
                ),
                Err(e) => places == error_spans(e),
            }
        };
    if k < i {
        assert(attrs[k]@.meta.ident != Some("serde"@));
    } else if i < k {
        assert(!attrs[i]@.meta.is("serde"));
    }
}

/// Of the fields of a structure, the first whose `serde` arguments are not all right is the one that is
/// reported. Nothing else about a structure is reported by the parsers, and nothing about an enum.
pub proof fn law_which_field_is_reported(item: Item, i: int, places: Seq<Span>)
    requires
        expansion_fails_at(item, places),
    ensures
        item is Struct,
        item->Struct_0.fields is Named,
        ({
            let fields = item->Struct_0.fields->Named_0@;
            0 <= i < fields.len() && serde_args_of(fields[i]@.attrs) is Err && (forall|k: int|
                0 <= k < i ==> serde_args_of((#[trigger] fields[k])@.attrs) is Ok) ==> fails_at(
                fields[i].attrs@,
                places,
            )
        }),
{
    let fields = item->Struct_0.fields->Named_0@;
    let k = choose|k: int|
        {
            &&& 0 <= k < fields.len()
            &&& fails_at((#[trigger] fields[k]).attrs@, places)
            &&& serde_args_of(fields[k]@.attrs) is Err
            &&& forall|j: int| 0 <= j < k ==> serde_args_of((#[trigger] fields[j])@.attrs) is Ok
        };
    if 0 <= i < fields.len() && serde_args_of(fields[i]@.attrs) is Err && (forall|j: int|
        0 <= j < i ==> serde_args_of((#[trigger] fields[j])@.attrs) is Ok) {
        if k < i {
            assert(serde_args_of(fields[k]@.attrs) is Ok);
        } else if i < k {
            assert(serde_args_of(fields[i]@.attrs) is Ok);
        }
    }
}

/// What the parsers report starts where it stands, or at the call site: the path of each report, and all
/// of that path.
pub proof fn law_where_reports_start(stream: Seq<Token>, places: Seq<Span>, i: int, k: int)
    requires
        starts_at(stream, places),
        0 <= i < places.len(),
        0 <= k < 7,
    ensures
        stream[i * 10 + k].span == places[i] || is_call_site(stream[i * 10 + k].span),
{
    assert(starts(stream[i * 10 + k].span, places, i));
}

/// What the parsers report of an item, or of the arguments of the attribute, starts where it stands.
pub proof fn law_reports_start_where_it_is_wrong(
    args: Seq<Token>,
    item: ItemView<Token>,
    e: ErrorView,
    stream: Seq<Token>,
    texts: Texts,
)
    ensures
        reports_item(item, e, stream) ==> is_report(stream, e) && (e is Outside ==> exists|
            read: Item,
            places: Seq<Span>,
        | #[trigger]
            expansion_fails_at(read, places) && read@ == item && starts_at(stream, places)),
        reports_options(args, texts, stream) ==> kinds(stream) == reports(texts),
        reports_options(args, texts, stream) && args_from(kinds(args)) is Ok ==> exists|
            list: Seq<Arg>,
            places: Seq<Span>,
        |
            {
                &&& args_from(kinds(args)) == Ok::<_, Texts>(all_plain(#[trigger] all_views(list)))
                &&& #[trigger] starts_at(stream, places)
                &&& are_at(
                    list,
                    places,
                    |before: Seq<Arg>, arg: Arg, places: Seq<Span>|
                        option_failure_at(before, arg, places),
                )
            },
{
    if reports_options(args, texts, stream) && args_from(kinds(args)) is Ok {
        let places = choose|places: Seq<Span>| #[trigger]
            options_fail_at(args, places) && starts_at(stream, places);
        let list = choose|list: Seq<Arg>| #[trigger]
            reads_args(args, all_views(list)) && are_at(
                list,
                places,
                |before: Seq<Arg>, arg: Arg, places: Seq<Span>|
                    option_failure_at(before, arg, places),
            );
        assert(starts_at(stream, places) && reads_args(args, all_views(list)));
    }
}

/// What an expansion takes from its surroundings: the call site, the path of `serde` as it is printed
/// under the crate path that is asked for, and whether what is not stable is asked for.
pub proof fn law_what_surrounds_an_expansion(
    env: EnvView,
    options: OptionsView<Token>,
    unstable: bool,
)
    requires
        is_env(env, options, unstable),
    ensures
        is_call_site(env.site),
        env.unstable == unstable,
        prints(
            kinds(options.crate_path) + seq![
                joint(':'),
                mark(':'),
                word("reexports_for_macros"),
                joint(':'),
                mark(':'),
                word("serde"),
            ],
            env.serde_path,
        ),
{
    law_path_of_serde(options.crate_path, env.site);
}

/// Results stand for the tokens in them, and errors for their texts and what they blame.
pub proof fn law_what_a_result_stands_for(
    stream: TokenStream,
    text: String,
    e: syn::Error,
    options: Options,
)
    ensures
        outcome(Ok(stream)) == Ok::<_, ErrorView>(tokens(stream)),
        outcome(Err(ExpandError::Message { text, blamed: stream })) == Err::<Seq<Token>, _>(
            ErrorView::Message { text: text@, blamed: tokens(stream) },
        ),
        outcome(Err(ExpandError::Outside(e))) == Err::<Seq<Token>, _>(
            ErrorView::Outside(error_texts(e)),
        ),
        option_tokens(Some(stream)) == Some(tokens(stream)),
        option_tokens(None) is None,
        result_view(Ok::<Options, syn::Error>(options)) == Ok::<_, Texts>(options@),
        result_view(Err::<Options, syn::Error>(e)) == Err::<OptionsView<Token>, _>(error_texts(e)),
{
}

} // verus!
