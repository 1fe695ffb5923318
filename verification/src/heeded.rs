//! What of attributes and their arguments is heeded.

use crate::attr::{
    attr_named, failures, first_attr, first_named, first_picked, flattens, is_flattened, is_zero,
    is_zero_array, lemma_first_picked, lemma_first_picked_stays, named, serde_args_in,
    serde_args_of, serde_failure, serde_readable, SerdeArgsView,
};
use crate::error::Texts;
use crate::laws::{lemma_failures, lemma_not_named};
use crate::options::{
    default_options, lemma_options_differ, option_failure, options_in, Features, OptionsView,
};
use crate::parse::unknown_text;
use crate::syntax::{
    ArgView, AttrMetaView, AttributeView, FlagView, FormView, LengthView, ListedMetaView, MetaView,
    TypeView, ValueView, VariantView,
};
use crate::token::{Located, Token, TokenKind};
use crate::variant::{
    guarded_metas, is_skipped, is_upper, rename_in, serde_metas, serde_metas_of, snake_case,
    text_of, variant_name,
};
use proc_macro2::Span;
use vstd::prelude::*;

verus! {

/// A type is `[T; 0]` if and only if it is an array type whose length is an integer literal of value
/// zero, behind any number of casts.
pub proof fn law_which_types_are_empty_arrays<T: Located>(
    ty: TypeView<T>,
    length: LengthView,
    value: Option<u64>,
)
    ensures
        ty.array_len is None ==> !is_zero_array(ty),
        ty.array_len == Some(length) ==> is_zero_array(ty) == is_zero(length),
        is_zero(LengthView::Cast(Box::new(length))) == is_zero(length),
        is_zero(LengthView::Int(value)) <==> value == Some(0u64),
        !is_zero(LengthView::Other),
{
}

/// The arguments of a `serde` attribute are taken if and only if none of them is a literal, `flatten`
/// is given once at most and without a value or a list that holds anything, and `default` is given
/// once at most and can be read as a path that may be left out. No other arguments matter.
pub proof fn law_which_serde_arguments_are_taken<T>(args: Seq<ArgView<T>>)
    ensures
        serde_args_in(args) is Ok <==> forall|k: int|
            0 <= k < args.len() ==> {
                &&& (#[trigger] args[k]) matches ArgView::Named(arg)
                &&& arg.name == "flatten"@ ==> arg.flag !is Rejected
                &&& arg.name == "default"@ ==> arg.optional_path is Ok
                &&& arg.name == "flatten"@ || arg.name == "default"@ ==> forall|j: int|
                    0 <= j < k ==> !((#[trigger] args[j]) matches ArgView::Named(other)
                        && other.name == arg.name)
            },
{
    let check = |before: Seq<ArgView<T>>, arg: ArgView<T>| serde_failure(before, arg);
    lemma_failures(args, check);
    assert forall|k: int| 0 <= k < args.len() implies (check(#[trigger] args.take(k), args[k]) is None
        <==> {
        &&& args[k] matches ArgView::Named(arg)
        &&& arg.name == "flatten"@ ==> arg.flag !is Rejected
        &&& arg.name == "default"@ ==> arg.optional_path is Ok
        &&& arg.name == "flatten"@ || arg.name == "default"@ ==> forall|j: int|
            0 <= j < k ==> !((#[trigger] args[j]) matches ArgView::Named(other) && other.name
                == arg.name)
    }) by {
        lemma_differ();
        if let ArgView::Named(arg) = args[k] {
            lemma_not_named(args.take(k), arg.name);
            lemma_no_earlier(args, k, arg.name);
        }
    }
    if serde_args_in(args) is Ok {
        assert forall|k: int| 0 <= k < args.len() implies {
            &&& (#[trigger] args[k]) matches ArgView::Named(arg)
            &&& arg.name == "flatten"@ ==> arg.flag !is Rejected
            &&& arg.name == "default"@ ==> arg.optional_path is Ok
            &&& arg.name == "flatten"@ || arg.name == "default"@ ==> forall|j: int|
                0 <= j < k ==> !((#[trigger] args[j]) matches ArgView::Named(other) && other.name
                    == arg.name)
        } by {
            assert(check(args.take(k), args[k]) is None);
        }
    }
}

proof fn lemma_differ()
    ensures
        "flatten"@ != "default"@,
{
    reveal_strlit("flatten");
    reveal_strlit("default");
    assert("flatten"@[0] != "default"@[0]);
}

/// What is named among the first arguments is named among all, before those that come next.
proof fn lemma_no_earlier<T>(args: Seq<ArgView<T>>, k: int, name: Seq<char>)
    requires
        0 <= k <= args.len(),
    ensures
        (forall|j: int|
            0 <= j < args.take(k).len() ==> !((#[trigger] args.take(k)[j]) matches ArgView::Named(arg)
                && arg.name == name)) <==> (forall|j: int|
            0 <= j < k ==> !((#[trigger] args[j]) matches ArgView::Named(arg) && arg.name == name)),
{
    if forall|j: int|
        0 <= j < args.take(k).len() ==> !((#[trigger] args.take(k)[j]) matches ArgView::Named(arg)
            && arg.name == name) {
        assert forall|j: int| 0 <= j < k implies !((#[trigger] args[j]) matches ArgView::Named(arg)
            && arg.name == name) by {
            assert(args.take(k)[j] == args[j]);
        }
    }
}

/// The first argument with a name, where there is one.
proof fn lemma_first_named_at<T>(args: Seq<ArgView<T>>, k: int, name: Seq<char>)
    requires
        0 <= k < args.len(),
        args[k] matches ArgView::Named(arg) && arg.name == name,
        forall|j: int|
            0 <= j < k ==> !((#[trigger] args[j]) matches ArgView::Named(arg) && arg.name == name),
    ensures
        first_named(args, name) == Some(args[k]->Named_0),
{
    lemma_not_named(args.take(k), name);
    lemma_no_earlier(args, k, name);
    assert(args.take(k + 1).drop_last() =~= args.take(k));
    lemma_first_picked_stays(args, |arg: ArgView<T>| named(arg, name), k + 1);
}

/// Of the arguments of a `serde` attribute that are taken, `flatten` counts if and only if it is
/// given, wherever it stands, and the default path is exactly the one that `default` is given.
pub proof fn law_serde_arguments_are_as_given<T>(args: Seq<ArgView<T>>, read: SerdeArgsView<T>)
    requires
        serde_args_in(args) == Ok::<_, Texts>(read),
    ensures
        read.flatten <==> exists|k: int|
            0 <= k < args.len() && ((#[trigger] args[k]) matches ArgView::Named(arg) && arg.name
                == "flatten"@),
        forall|k: int|
            0 <= k < args.len() ==> ((#[trigger] args[k]) matches ArgView::Named(arg) && (arg.name
                == "default"@ ==> arg.optional_path == Ok::<_, Texts>(read.default))),
        read.default is Some ==> exists|k: int|
            0 <= k < args.len() && ((#[trigger] args[k]) matches ArgView::Named(arg) && arg.name
                == "default"@),
{
    law_which_serde_arguments_are_taken(args);
    lemma_not_named(args, "flatten"@);
    lemma_not_named(args, "default"@);
    assert forall|k: int| 0 <= k < args.len() implies ((#[trigger] args[k]) matches ArgView::Named(arg)
        && (arg.name == "default"@ ==> arg.optional_path == Ok::<_, Texts>(read.default))) by {
        let arg = args[k]->Named_0;
        if arg.name == "default"@ {
            lemma_first_named_at(args, k, "default"@);
        }
    }
}

/// All failures, one after another.
proof fn lemma_failures_are<T>(
    args: Seq<ArgView<T>>,
    check: spec_fn(Seq<ArgView<T>>, ArgView<T>) -> Option<Texts>,
    texts: Seq<Texts>,
)
    requires
        texts.len() == args.len(),
        forall|k: int|
            0 <= k < args.len() ==> (match check(#[trigger] args.take(k), args[k]) {
                Some(some) => some == texts[k],
                None => texts[k].len() == 0,
            }),
    ensures
        match failures(args, check) {
            Some(all) => all == texts.flatten(),
            None => texts.flatten().len() == 0,
        },
    decreases args.len(),
{
    if args.len() > 0 {
        let before = args.drop_last();
        assert forall|k: int| 0 <= k < before.len() implies (match check(
            #[trigger] before.take(k),
            before[k],
        ) {
            Some(some) => some == texts.drop_last()[k],
            None => texts.drop_last()[k].len() == 0,
        }) by {
            assert(before.take(k) =~= args.take(k));
        }
        lemma_failures_are(before, check, texts.drop_last());
        assert(args.take(args.len() - 1) =~= before);
        let last = texts.last();
        assert(texts =~= texts.drop_last().push(last));
        texts.drop_last().lemma_flatten_push(last);
        match (failures(before, check), check(before, args.last())) {
            (Some(first), Some(next)) => {},
            (Some(first), None) => {
                assert(first + last =~= first);
            },
            (None, Some(next)) => {
                assert(texts.drop_last().flatten() + last =~= last);
            },
            (None, None) => {},
        }
    }
}

/// What is said of the arguments of a `serde` attribute that are not taken: of each argument in turn,
/// that a literal is no argument, that `flatten` or `default` is given twice, or why it cannot be read.
pub proof fn law_what_is_said_of_serde_arguments<T>(args: Seq<ArgView<T>>)
    ensures
        serde_args_in(args) matches Err(texts) ==> texts == Seq::new(
            args.len(),
            |k: int|
                match args[k] {
                    ArgView::Lit(_) => seq!["Unexpected meta-item format `"@ + "literal"@ + "`"@],
                    ArgView::Named(arg) => if arg.name != "flatten"@ && arg.name != "default"@ {
                        Seq::empty()
                    } else if exists|j: int|
                        0 <= j < k && ((#[trigger] args[j]) matches ArgView::Named(other) && other.name
                            == arg.name) {
                        seq!["Duplicate field `"@ + arg.name + "`"@]
                    } else if arg.name == "flatten"@ {
                        match arg.flag {
                            FlagView::Rejected(texts) => texts,
                            _ => Seq::empty(),
                        }
                    } else {
                        match arg.optional_path {
                            Err(texts) => texts,
                            Ok(_) => Seq::empty(),
                        }
                    },
                },
        ).flatten(),
{
    let check = |before: Seq<ArgView<T>>, arg: ArgView<T>| serde_failure(before, arg);
    let each = |k: int|
        match args[k] {
            ArgView::Lit(_) => seq!["Unexpected meta-item format `"@ + "literal"@ + "`"@],
            ArgView::Named(arg) => if arg.name != "flatten"@ && arg.name != "default"@ {
                Seq::empty()
            } else if exists|j: int|
                0 <= j < k && ((#[trigger] args[j]) matches ArgView::Named(other) && other.name
                    == arg.name) {
                seq!["Duplicate field `"@ + arg.name + "`"@]
            } else if arg.name == "flatten"@ {
                match arg.flag {
                    FlagView::Rejected(texts) => texts,
                    _ => Seq::empty(),
                }
            } else {
                match arg.optional_path {
                    Err(texts) => texts,
                    Ok(_) => Seq::empty(),
                }
            },
        };
    let texts = Seq::new(args.len(), each);
    assert forall|k: int| 0 <= k < args.len() implies (match check(#[trigger] args.take(k), args[k]) {
        Some(some) => some == texts[k],
        None => texts[k].len() == 0,
    }) by {
        lemma_differ();
        assert(texts[k] == each(k));
        if let ArgView::Named(arg) = args[k] {
            lemma_not_named(args.take(k), arg.name);
            lemma_no_earlier(args, k, arg.name);
        }
    }
    lemma_failures_are(args, check, texts);
}

/// The `serde` arguments of a field are those of its first `serde` attribute. A field without such an
/// attribute has none.
pub proof fn law_which_serde_attribute_is_read<T>(attrs: Seq<AttributeView<T>>, i: int)
    ensures
        (forall|k: int| 0 <= k < attrs.len() ==> (#[trigger] attrs[k]).meta.ident != Some("serde"@))
            ==> serde_args_of(attrs) == Ok::<_, Texts>(None::<SerdeArgsView<T>>),
        0 <= i < attrs.len() && attrs[i].meta.ident == Some("serde"@) && (forall|k: int|
            0 <= k < i ==> (#[trigger] attrs[k]).meta.ident != Some("serde"@)) ==> serde_args_of(attrs)
            == match attrs[i].args {
            Ok(args) => match serde_args_in(args) {
                Ok(read) => Ok::<_, Texts>(Some(read)),
                Err(texts) => Err(texts),
            },
            Err(texts) => Err(texts),
        },
{
    lemma_first_serde(attrs, i);
}

proof fn lemma_first_serde<T>(attrs: Seq<AttributeView<T>>, i: int)
    ensures
        (forall|k: int| 0 <= k < attrs.len() ==> (#[trigger] attrs[k]).meta.ident != Some("serde"@))
            ==> first_attr(attrs, "serde") is None,
        0 <= i < attrs.len() && attrs[i].meta.ident == Some("serde"@) && (forall|k: int|
            0 <= k < i ==> (#[trigger] attrs[k]).meta.ident != Some("serde"@)) ==> first_attr(
            attrs,
            "serde",
        ) == Some(attrs[i]),
        first_attr(attrs, "serde") matches Some(attr) ==> exists|k: int|
            0 <= k < attrs.len() && #[trigger] attrs[k] == attr && attr.meta.ident == Some("serde"@)
                && forall|j: int| 0 <= j < k ==> (#[trigger] attrs[j]).meta.ident != Some("serde"@),
{
    let pick = |attr: AttributeView<T>| attr_named(attr, "serde");
    lemma_first_picked(attrs, pick);
    if let Some(found) = first_attr(attrs, "serde") {
        let k = choose|k: int|
            0 <= k < attrs.len() && pick(#[trigger] attrs[k]) == Some(found) && forall|j: int|
                0 <= j < k ==> pick(#[trigger] attrs[j]) is None;
        assert(attrs[k] == found && found.meta.ident == Some("serde"@));
        assert forall|j: int| 0 <= j < k implies (#[trigger] attrs[j]).meta.ident != Some(
            "serde"@,
        ) by {
            assert(pick(attrs[j]) is None);
        }
    } else {
        assert forall|k: int| 0 <= k < attrs.len() implies (#[trigger] attrs[k]).meta.ident != Some(
            "serde"@,
        ) by {
            assert(pick(attrs[k]) is None);
        }
    }
}

/// The attributes of a field can be looked at unless the first `flatten` in its first `serde`
/// attribute comes with an empty list.
pub proof fn law_which_attributes_are_readable<T>(attrs: Seq<AttributeView<T>>)
    ensures
        !serde_readable(attrs) <==> exists|i: int, k: int|
            {
                &&& 0 <= i < attrs.len()
                &&& attrs[i].meta.ident == Some("serde"@)
                &&& forall|j: int| 0 <= j < i ==> (#[trigger] attrs[j]).meta.ident != Some("serde"@)
                &&& attrs[i].args is Ok
                &&& 0 <= k < attrs[i].args->Ok_0.len()
                &&& (#[trigger] attrs[i].args->Ok_0[k]) matches ArgView::Named(arg)
                &&& arg.name == "flatten"@
                &&& arg.flag is EmptyList
                &&& forall|j: int|
                    0 <= j < k ==> !((#[trigger] attrs[i].args->Ok_0[j]) matches ArgView::Named(other)
                        && other.name == "flatten"@)
            },
{
    lemma_first_serde(attrs, 0);
    if !serde_readable(attrs) {
        let attr = first_attr(attrs, "serde")->0;
        let i = choose|i: int|
            0 <= i < attrs.len() && #[trigger] attrs[i] == attr && attr.meta.ident == Some("serde"@)
                && forall|j: int| 0 <= j < i ==> (#[trigger] attrs[j]).meta.ident != Some("serde"@);
        let args = attr.args->Ok_0;
        let arg = first_named(args, "flatten"@)->0;
        let pick = |arg: ArgView<T>| named(arg, "flatten"@);
        lemma_first_picked(args, pick);
        let k = choose|k: int|
            0 <= k < args.len() && pick(#[trigger] args[k]) == Some(arg) && forall|j: int|
                0 <= j < k ==> pick(#[trigger] args[j]) is None;
        assert(attrs[i].args->Ok_0[k] == ArgView::Named(arg));
        assert forall|j: int| 0 <= j < k implies !((
        #[trigger] attrs[i].args->Ok_0[j]) matches ArgView::Named(other) && other.name
            == "flatten"@) by {
            assert(pick(args[j]) is None);
        }
    }
    if exists|i: int, k: int|
        {
            &&& 0 <= i < attrs.len()
            &&& attrs[i].meta.ident == Some("serde"@)
            &&& forall|j: int| 0 <= j < i ==> (#[trigger] attrs[j]).meta.ident != Some("serde"@)
            &&& attrs[i].args is Ok
            &&& 0 <= k < attrs[i].args->Ok_0.len()
            &&& (#[trigger] attrs[i].args->Ok_0[k]) matches ArgView::Named(arg)
            &&& arg.name == "flatten"@
            &&& arg.flag is EmptyList
            &&& forall|j: int|
                0 <= j < k ==> !((#[trigger] attrs[i].args->Ok_0[j]) matches ArgView::Named(other)
                    && other.name == "flatten"@)
        } {
        let (i, k) = choose|i: int, k: int|
            {
                &&& 0 <= i < attrs.len()
                &&& attrs[i].meta.ident == Some("serde"@)
                &&& forall|j: int| 0 <= j < i ==> (#[trigger] attrs[j]).meta.ident != Some("serde"@)
                &&& attrs[i].args is Ok
                &&& 0 <= k < attrs[i].args->Ok_0.len()
                &&& (#[trigger] attrs[i].args->Ok_0[k]) matches ArgView::Named(arg)
                &&& arg.name == "flatten"@
                &&& arg.flag is EmptyList
                &&& forall|j: int|
                    0 <= j < k ==> !((#[trigger] attrs[i].args->Ok_0[j]) matches ArgView::Named(other)
                        && other.name == "flatten"@)
            };
        lemma_first_serde(attrs, i);
        lemma_first_named_at(attrs[i].args->Ok_0, k, "flatten"@);
    }
}

/// A field is flattened if and only if some `serde` attribute of it, whose arguments are taken, lists
/// `flatten` as a bare word.
pub proof fn law_which_fields_are_flattened<T>(attrs: Seq<AttributeView<T>>)
    ensures
        is_flattened(attrs) <==> exists|i: int, k: int|
            {
                &&& 0 <= i < attrs.len()
                &&& attrs[i].meta.ident == Some("serde"@)
                &&& attrs[i].args is Ok
                &&& serde_args_in(attrs[i].args->Ok_0) is Ok
                &&& 0 <= k < attrs[i].args->Ok_0.len()
                &&& (#[trigger] attrs[i].args->Ok_0[k]) matches ArgView::Named(arg)
                &&& arg.name == "flatten"@
                &&& arg.flag is Word
            },
{
    if is_flattened(attrs) {
        let i = choose|i: int| 0 <= i < attrs.len() && flattens(#[trigger] attrs[i]);
        let args = attrs[i].args->Ok_0;
        law_which_serde_arguments_are_taken(args);
        let arg = first_named(args, "flatten"@)->0;
        let pick = |arg: ArgView<T>| named(arg, "flatten"@);
        lemma_first_picked(args, pick);
        let k = choose|k: int|
            0 <= k < args.len() && pick(#[trigger] args[k]) == Some(arg) && forall|j: int|
                0 <= j < k ==> pick(#[trigger] args[j]) is None;
        assert(attrs[i].args->Ok_0[k] == ArgView::Named(arg));
    }
    if exists|i: int, k: int|
        {
            &&& 0 <= i < attrs.len()
            &&& attrs[i].meta.ident == Some("serde"@)
            &&& attrs[i].args is Ok
            &&& serde_args_in(attrs[i].args->Ok_0) is Ok
            &&& 0 <= k < attrs[i].args->Ok_0.len()
            &&& (#[trigger] attrs[i].args->Ok_0[k]) matches ArgView::Named(arg)
            &&& arg.name == "flatten"@
            &&& arg.flag is Word
        } {
        let (i, k) = choose|i: int, k: int|
            {
                &&& 0 <= i < attrs.len()
                &&& attrs[i].meta.ident == Some("serde"@)
                &&& attrs[i].args is Ok
                &&& serde_args_in(attrs[i].args->Ok_0) is Ok
                &&& 0 <= k < attrs[i].args->Ok_0.len()
                &&& (#[trigger] attrs[i].args->Ok_0[k]) matches ArgView::Named(arg)
                &&& arg.name == "flatten"@
                &&& arg.flag is Word
            };
        let args = attrs[i].args->Ok_0;
        law_which_serde_arguments_are_taken(args);
        assert(args[k] is Named);
        lemma_first_named_at(args, k, "flatten"@);
        assert(flattens(attrs[i]));
    }
}

/// The arguments of the `settings` attribute are taken if and only if none of them is a literal, each
/// is one of the four, none is given twice, `crate_path` can be read as a path, and the others as truth
/// values.
pub proof fn law_which_settings_arguments_are_taken<T>(
    args: Seq<ArgView<T>>,
    defaults: OptionsView<T>,
)
    ensures
        options_in(args, defaults) is Ok <==> forall|k: int|
            0 <= k < args.len() ==> {
                &&& (#[trigger] args[k]) matches ArgView::Named(arg)
                &&& {
                    ||| arg.name == "impl_default"@ && arg.boolean is Ok
                    ||| arg.name == "impl_debug"@ && arg.boolean is Ok
                    ||| arg.name == "deny_unknown_fields"@ && arg.boolean is Ok
                    ||| arg.name == "crate_path"@ && arg.path is Ok
                }
                &&& forall|j: int|
                    0 <= j < k ==> !((#[trigger] args[j]) matches ArgView::Named(other)
                        && other.name == arg.name)
            },
{
    let check = |before: Seq<ArgView<T>>, arg: ArgView<T>| option_failure(before, arg);
    lemma_failures(args, check);
    lemma_options_differ();
    assert forall|k: int| 0 <= k < args.len() implies (check(#[trigger] args.take(k), args[k]) is None
        <==> {
        &&& args[k] matches ArgView::Named(arg)
        &&& {
            ||| arg.name == "impl_default"@ && arg.boolean is Ok
            ||| arg.name == "impl_debug"@ && arg.boolean is Ok
            ||| arg.name == "deny_unknown_fields"@ && arg.boolean is Ok
            ||| arg.name == "crate_path"@ && arg.path is Ok
        }
        &&& forall|j: int|
            0 <= j < k ==> !((#[trigger] args[j]) matches ArgView::Named(other) && other.name
                == arg.name)
    }) by {
        if let ArgView::Named(arg) = args[k] {
            lemma_not_named(args.take(k), arg.name);
            lemma_no_earlier(args, k, arg.name);
        }
    }
    if options_in(args, defaults) is Ok {
        assert forall|k: int| 0 <= k < args.len() implies {
            &&& (#[trigger] args[k]) matches ArgView::Named(arg)
            &&& {
                ||| arg.name == "impl_default"@ && arg.boolean is Ok
                ||| arg.name == "impl_debug"@ && arg.boolean is Ok
                ||| arg.name == "deny_unknown_fields"@ && arg.boolean is Ok
                ||| arg.name == "crate_path"@ && arg.path is Ok
            }
            &&& forall|j: int|
                0 <= j < k ==> !((#[trigger] args[j]) matches ArgView::Named(other) && other.name
                    == arg.name)
        } by {
            assert(check(args.take(k), args[k]) is None);
        }
    }
}

/// What is said of the arguments of the `settings` attribute that are not taken: of each argument in
/// turn, that a literal is no argument, that it is not known, with the four that are, that it is given
/// twice, or why it cannot be read.
pub proof fn law_what_is_said_of_settings_arguments<T>(
    args: Seq<ArgView<T>>,
    defaults: OptionsView<T>,
)
    ensures
        options_in(args, defaults) matches Err(texts) ==> texts == Seq::new(
            args.len(),
            |k: int|
                match args[k] {
                    ArgView::Lit(_) => seq!["Unexpected meta-item format `"@ + "literal"@ + "`"@],
                    ArgView::Named(arg) => if arg.name != "impl_default"@ && arg.name
                        != "impl_debug"@ && arg.name != "crate_path"@ && arg.name
                        != "deny_unknown_fields"@ {
                        seq![
                            unknown_text(
                                arg.name,
                                seq![
                                    "impl_default"@,
                                    "impl_debug"@,
                                    "crate_path"@,
                                    "deny_unknown_fields"@,
                                ],
                            ),
                        ]
                    } else if exists|j: int|
                        0 <= j < k && ((#[trigger] args[j]) matches ArgView::Named(other) && other.name
                            == arg.name) {
                        seq!["Duplicate field `"@ + arg.name + "`"@]
                    } else if arg.name == "crate_path"@ {
                        match arg.path {
                            Err(texts) => texts,
                            Ok(_) => Seq::empty(),
                        }
                    } else {
                        match arg.boolean {
                            Err(texts) => texts,
                            Ok(_) => Seq::empty(),
                        }
                    },
                },
        ).flatten(),
{
    let check = |before: Seq<ArgView<T>>, arg: ArgView<T>| option_failure(before, arg);
    let each = |k: int|
        match args[k] {
            ArgView::Lit(_) => seq!["Unexpected meta-item format `"@ + "literal"@ + "`"@],
            ArgView::Named(arg) => if arg.name != "impl_default"@ && arg.name != "impl_debug"@
                && arg.name != "crate_path"@ && arg.name != "deny_unknown_fields"@ {
                seq![
                    unknown_text(
                        arg.name,
                        seq![
                            "impl_default"@,
                            "impl_debug"@,
                            "crate_path"@,
                            "deny_unknown_fields"@,
                        ],
                    ),
                ]
            } else if exists|j: int|
                0 <= j < k && ((#[trigger] args[j]) matches ArgView::Named(other) && other.name
                    == arg.name) {
                seq!["Duplicate field `"@ + arg.name + "`"@]
            } else if arg.name == "crate_path"@ {
                match arg.path {
                    Err(texts) => texts,
                    Ok(_) => Seq::empty(),
                }
            } else {
                match arg.boolean {
                    Err(texts) => texts,
                    Ok(_) => Seq::empty(),
                }
            },
        };
    let texts = Seq::new(args.len(), each);
    lemma_options_differ();
    assert forall|k: int| 0 <= k < args.len() implies (match check(#[trigger] args.take(k), args[k]) {
        Some(some) => some == texts[k],
        None => texts[k].len() == 0,
    }) by {
        assert(texts[k] == each(k));
        if let ArgView::Named(arg) = args[k] {
            lemma_not_named(args.take(k), arg.name);
            lemma_no_earlier(args, k, arg.name);
        }
    }
    lemma_failures_are(args, check, texts);
}

/// Without any arguments, the settings get a `Default` impl and a `Debug` impl, the `Settings` trait is
/// found in `::foundations`, and unknown fields are refused if the macro is built so.
pub proof fn law_options_without_arguments(features: Features, site: Span)
    ensures
        default_options(features, site).impl_default,
        default_options(features, site).impl_debug,
        default_options(features, site).crate_path == seq![
            Token { kind: TokenKind::Punct(':', true), span: site },
            Token { kind: TokenKind::Punct(':', false), span: site },
            Token { kind: TokenKind::Ident("foundations"@), span: site },
        ],
        default_options(features, site).deny_unknown_fields
            == features.deny_unknown_fields_by_default,
{
}

proof fn lemma_flat_map_step<A, B>(from: Seq<A>, each: spec_fn(A) -> Seq<B>)
    requires
        from.len() > 0,
    ensures
        from.flat_map(each) == from.drop_last().flat_map(each) + each(from.last()),
{
    assert(from =~= from.drop_last().push(from.last()));
    from.drop_last().lemma_flat_map_push(each, from.last());
}

proof fn lemma_guarded_metas_are<T>(metas: Seq<AttrMetaView<T>>)
    requires
        metas.len() > 0,
    ensures
        guarded_metas(metas) == metas.skip(1).flat_map(
            |meta: AttrMetaView<T>|
                match meta.inner {
                    Some(inner) => if meta.listed.meta.ident == Some("serde"@) {
                        inner
                    } else {
                        Seq::empty()
                    },
                    None => Seq::empty(),
                },
        ),
    decreases metas.len(),
{
    let each = |meta: AttrMetaView<T>|
        match meta.inner {
            Some(inner) => if meta.listed.meta.ident == Some("serde"@) {
                inner
            } else {
                Seq::empty()
            },
            None => Seq::empty(),
        };
    if metas.len() == 1 {
        assert(metas.skip(1).flat_map(each) =~= Seq::empty());
    } else {
        lemma_guarded_metas_are(metas.drop_last());
        assert(metas.skip(1).drop_last() =~= metas.drop_last().skip(1));
        lemma_flat_map_step(metas.skip(1), each);
    }
}

/// The `serde` arguments that a variant goes by are those of all its `serde` attributes and of all
/// `serde(..)` behind the predicate of its `cfg_attr` attributes, in order and with none left out.
/// Lists that cannot be read as meta items hold none.
pub proof fn law_which_serde_metas_count<T>(attrs: Seq<AttributeView<T>>)
    ensures
        serde_metas(attrs) == attrs.flat_map(
            |attr: AttributeView<T>|
                match attr.metas {
                    Some(metas) => if attr.meta.ident == Some("serde"@) {
                        metas.map_values(|meta: AttrMetaView<T>| meta.listed)
                    } else if attr.meta.ident == Some("cfg_attr"@) && metas.len() > 0 {
                        metas.skip(1).flat_map(
                            |meta: AttrMetaView<T>|
                                match meta.inner {
                                    Some(inner) => if meta.listed.meta.ident == Some("serde"@) {
                                        inner
                                    } else {
                                        Seq::empty()
                                    },
                                    None => Seq::empty(),
                                },
                        )
                    } else {
                        Seq::empty()
                    },
                    None => Seq::empty(),
                },
        ),
    decreases attrs.len(),
{
    let each = |attr: AttributeView<T>|
        match attr.metas {
            Some(metas) => if attr.meta.ident == Some("serde"@) {
                metas.map_values(|meta: AttrMetaView<T>| meta.listed)
            } else if attr.meta.ident == Some("cfg_attr"@) && metas.len() > 0 {
                metas.skip(1).flat_map(
                    |meta: AttrMetaView<T>|
                        match meta.inner {
                            Some(inner) => if meta.listed.meta.ident == Some("serde"@) {
                                inner
                            } else {
                                Seq::empty()
                            },
                            None => Seq::empty(),
                        },
                )
            } else {
                Seq::empty()
            },
            None => Seq::empty(),
        };
    if attrs.len() == 0 {
        assert(attrs.flat_map(each) =~= Seq::empty());
    } else {
        law_which_serde_metas_count(attrs.drop_last());
        let attr = attrs.last();
        if attr.metas is Some && attr.metas->0.len() > 0 {
            lemma_guarded_metas_are(attr.metas->0);
        }
        assert(serde_metas_of(attr) =~= each(attr));
        lemma_flat_map_step(attrs, each);
    }
}

/// A variant is skipped if and only if `skip` is among the `serde` arguments that it goes by.
pub proof fn law_which_variants_are_skipped<T>(attrs: Seq<AttributeView<T>>)
    ensures
        is_skipped(attrs) <==> exists|i: int|
            0 <= i < serde_metas(attrs).len() && (#[trigger] serde_metas(attrs)[i]).meta.ident == Some(
                "skip"@,
            ),
{
    if exists|i: int|
        0 <= i < serde_metas(attrs).len() && (#[trigger] serde_metas(attrs)[i]).meta.ident == Some(
            "skip"@,
        ) {
        let i = choose|i: int|
            0 <= i < serde_metas(attrs).len() && (#[trigger] serde_metas(attrs)[i]).meta.ident
                == Some("skip"@);
        assert(serde_metas(attrs)[i].meta.is("skip"));
    }
}

/// What a `serde` argument renames a variant to: the text in `rename = "text"`, or that of the first
/// `serialize = "text"` in the list of `rename`. No other argument renames it.
pub proof fn law_what_renames<T>(listed: ListedMetaView<T>)
    ensures
        listed.meta.ident != Some("rename"@) ==> rename_in(listed) is None,
        listed.meta.ident == Some("rename"@) ==> rename_in(listed) == match listed.meta.form {
            FormView::NameValue(ValueView::Str { text, .. }) => Some(text),
            _ => match listed.metas {
                Some(metas) => {
                    let texts = metas.filter_map(
                        |meta: MetaView<T>|
                            match meta.form {
                                FormView::NameValue(ValueView::Str { text, .. }) => if meta.ident
                                    == Some("serialize"@) {
                                    Some(text)
                                } else {
                                    None
                                },
                                _ => None,
                            },
                    );
                    if texts.len() == 0 {
                        None
                    } else {
                        Some(texts.first())
                    }
                },
                None => None,
            },
        },
{
    if let Some(metas) = listed.metas {
        let pick = |meta: MetaView<T>|
            match meta.form {
                FormView::NameValue(ValueView::Str { text, .. }) => if meta.ident == Some(
                    "serialize"@,
                ) {
                    Some(text)
                } else {
                    None
                },
                _ => None,
            };
        lemma_first_is_first(metas, |meta: MetaView<T>| text_of(meta, "serialize"), pick);
    }
}

/// What is picked first is the first of all that is picked.
proof fn lemma_first_is_first<A, B>(
    from: Seq<A>,
    pick: spec_fn(A) -> Option<B>,
    other: spec_fn(A) -> Option<B>,
)
    requires
        forall|a: A| #[trigger] pick(a) == other(a),
    ensures
        first_picked(from, pick) == if from.filter_map(other).len() == 0 {
            None
        } else {
            Some(from.filter_map(other).first())
        },
    decreases from.len(),
{
    if from.len() > 0 {
        lemma_first_is_first(from.drop_last(), pick, other);
        assert(pick(from.last()) == other(from.last()));
    }
}

/// The key of a variant is what the first `serde` argument renames it to that renames it at all. A
/// variant that is not renamed has the snake case of its name, without the prefix of raw identifiers.
pub proof fn law_which_key_a_variant_has<T: Located>(variant: VariantView<T>)
    ensures
        ({
            let renames = serde_metas(variant.attrs).filter_map(
                |listed: ListedMetaView<T>| rename_in(listed),
            );
            let name = variant.ident.name;
            variant_name(variant) == if renames.len() > 0 {
                renames.first()
            } else if "r#"@.is_prefix_of(name) {
                snake_case(name.skip(2))
            } else {
                snake_case(name)
            }
        }),
{
    let pick = |listed: ListedMetaView<T>| rename_in(listed);
    lemma_first_is_first(serde_metas(variant.attrs), pick, pick);
    let name = variant.ident.name;
    reveal_strlit("r#");
    if "r#"@.is_prefix_of(name) {
        assert("r#"@ =~= name.subrange(0, 2));
        assert(name[0] == name.subrange(0, 2)[0] && name[1] == name.subrange(0, 2)[1]);
    } else if name.len() >= 2 && name[0] == 'r' && name[1] == '#' {
        assert("r#"@ =~= name.subrange(0, 2));
    }
}

/// The snake case of a name: its first character in ASCII lower case, then each other one in ASCII
/// lower case, with `_` before it where it is upper case.
pub proof fn law_snake_case_is_written(name: Seq<char>)
    requires
        name.len() > 0,
    ensures
        ({
            let lower = |c: char|
                if 'A' <= c <= 'Z' {
                    (c as u32 + 32) as char
                } else {
                    c
                };
            snake_case(name) == seq![lower(name[0])] + name.skip(1).flat_map(
                |c: char|
                    if is_upper(c) {
                        seq!['_', lower(c)]
                    } else {
                        seq![lower(c)]
                    },
            )
        }),
    decreases name.len(),
{
    let lower = |c: char|
        if 'A' <= c <= 'Z' {
            (c as u32 + 32) as char
        } else {
            c
        };
    let each = |c: char|
        if is_upper(c) {
            seq!['_', lower(c)]
        } else {
            seq![lower(c)]
        };
    if name.len() == 1 {
        assert(name.skip(1).flat_map(each) =~= Seq::empty());
        assert(name.drop_last() =~= Seq::empty());
        assert(snake_case(name.drop_last()) =~= Seq::empty());
        assert(snake_case(name) =~= seq![lower(name[0])] + name.skip(1).flat_map(each));
    } else {
        let before = name.drop_last();
        law_snake_case_is_written(before);
        assert(before.skip(1) =~= name.skip(1).drop_last());
        lemma_flat_map_step(name.skip(1), each);
        assert(before[0] == name[0]);
        assert(snake_case(name) =~= snake_case(before) + each(name.last()));
        assert(snake_case(name) =~= seq![lower(name[0])] + name.skip(1).flat_map(each));
    }
}

/// The snake case of nothing is nothing.
pub proof fn law_snake_case_of_nothing(name: Seq<char>)
    requires
        name.len() == 0,
    ensures
        snake_case(name).len() == 0,
{
}

} // verus!
