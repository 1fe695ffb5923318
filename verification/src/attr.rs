//! What the attributes of fields and variants say.

use crate::error::{
    error_spans, error_texts, join_errors, joined_texts, option_spans, option_texts, Texts,
};
use crate::parse::{duplicate_field, duplicate_text, format_text, unsupported_format};
use crate::syntax::{
    all_views, option_view, Arg, ArgView, Attribute, AttributeView, Flag, FlagView, Form, FormView,
    Length, LengthView, NamedArg, NamedArgView, Spanless, Type, TypeView, Value, ValueView,
};
use crate::token::{all_tokens, concat, kinds, spans, tokens, Located, Token, TokenKind};
use proc_macro2::{Span, TokenStream};
use vstd::prelude::*;

verus! {

/// What is picked from the elements of a sequence, in order.
pub open spec fn picked<A, B>(from: Seq<A>, pick: spec_fn(A) -> Option<B>) -> Seq<B>
    decreases from.len(),
{
    if from.len() == 0 {
        Seq::empty()
    } else {
        match pick(from.last()) {
            Some(found) => picked(from.drop_last(), pick).push(found),
            None => picked(from.drop_last(), pick),
        }
    }
}

/// One step further in a sequence.
pub proof fn lemma_picked_goes_on<A, B>(from: Seq<A>, pick: spec_fn(A) -> Option<B>, i: int)
    requires
        0 <= i < from.len(),
    ensures
        picked(from.take(i + 1), pick) == match pick(from[i]) {
            Some(found) => picked(from.take(i), pick).push(found),
            None => picked(from.take(i), pick),
        },
{
    assert(from.take(i + 1).drop_last() =~= from.take(i));
}

/// What is picked from the first element of a sequence from which anything is.
pub open spec fn first_picked<A, B>(from: Seq<A>, pick: spec_fn(A) -> Option<B>) -> Option<B>
    decreases from.len(),
{
    if from.len() == 0 {
        None
    } else {
        match first_picked(from.drop_last(), pick) {
            Some(found) => Some(found),
            None => pick(from.last()),
        }
    }
}

/// What is picked from the first elements is what is picked from all.
pub proof fn lemma_first_picked_stays<A, B>(from: Seq<A>, pick: spec_fn(A) -> Option<B>, i: int)
    requires
        0 <= i <= from.len(),
        first_picked(from.take(i), pick) is Some,
    ensures
        first_picked(from, pick) == first_picked(from.take(i), pick),
    decreases from.len(),
{
    if i == from.len() {
        assert(from.take(i) =~= from);
    } else {
        assert(from.drop_last().take(i) =~= from.take(i));
        lemma_first_picked_stays(from.drop_last(), pick, i);
    }
}

/// What is picked is picked from some element, and nothing from those before it. Where nothing is
/// picked, nothing is from any.
pub proof fn lemma_first_picked<A, B>(from: Seq<A>, pick: spec_fn(A) -> Option<B>)
    ensures
        match first_picked(from, pick) {
            Some(found) => exists|i: int|
                0 <= i < from.len() && pick(#[trigger] from[i]) == Some(found) && forall|k: int|
                    0 <= k < i ==> pick(#[trigger] from[k]) is None,
            None => forall|i: int| 0 <= i < from.len() ==> pick(#[trigger] from[i]) is None,
        },
    decreases from.len(),
{
    if from.len() > 0 {
        let before = from.drop_last();
        lemma_first_picked(before, pick);
        assert forall|k: int| 0 <= k < before.len() implies #[trigger] from[k] == before[k] by {}
        assert(from[from.len() - 1] == from.last());
        if let Some(found) = first_picked(before, pick) {
            let i = choose|i: int|
                0 <= i < before.len() && pick(#[trigger] before[i]) == Some(found) && forall|k: int|
                    0 <= k < i ==> pick(#[trigger] before[k]) is None;
            assert(pick(from[i]) == Some(found));
        }
    }
}

/// The literal of a doc comment.
pub open spec fn doc_of<T>(attr: AttributeView<T>) -> Option<Seq<T>> {
    if attr.meta.is("doc") {
        match attr.meta.form {
            FormView::NameValue(ValueView::Str { tokens, .. }) => Some(tokens),
            _ => None,
        }
    } else {
        None
    }
}

/// The literals of all doc comments.
pub open spec fn doc_comments<T>(attrs: Seq<AttributeView<T>>) -> Seq<Seq<T>> {
    picked(attrs, |attr: AttributeView<T>| doc_of(attr))
}

/// The literals of all doc comments.
pub fn extract_doc_comments(attrs: &Vec<Attribute>) -> (res: Vec<TokenStream>)
    ensures
        all_tokens(res@) == doc_comments(all_views(attrs@)),
{
    let ghost from = all_views(attrs@);
    let ghost pick = |attr: AttributeView<Token>| doc_of(attr);
    let mut res: Vec<TokenStream> = Vec::new();
    assert(all_tokens(res@) =~= Seq::<Seq<Token>>::empty());
    let mut i: usize = 0;
    while i < attrs.len()
        invariant
            i <= attrs.len(),
            from == all_views(attrs@),
            pick == (|attr: AttributeView<Token>| doc_of(attr)),
            all_tokens(res@) == picked(from.take(i as int), pick),
        decreases attrs.len() - i,
    {
        let attr = &attrs[i];
        let ghost before = res@;
        proof {
            lemma_picked_goes_on(from, pick, i as int);
        }
        if attr.meta.is("doc") {
            if let Form::NameValue(Value::Str { tokens: literal, .. }) = &attr.meta.form {
                let literal = literal.clone();
                res.push(literal);
                assert(all_tokens(res@) =~= all_tokens(before).push(tokens(literal)));
            }
        }
        i += 1;
    }
    assert(from.take(i as int) =~= from);
    res
}

/// A `cfg` attribute as it is written.
pub open spec fn cfg_of<T>(attr: AttributeView<T>) -> Option<Seq<T>> {
    if attr.meta.is("cfg") {
        Some(attr.tokens)
    } else {
        None
    }
}

/// All `cfg` attributes as they are written.
pub open spec fn cfgs<T>(attrs: Seq<AttributeView<T>>) -> Seq<Seq<T>> {
    picked(attrs, |attr: AttributeView<T>| cfg_of(attr))
}

/// All `cfg` attributes as they are written.
pub fn cfg_attrs(attrs: &Vec<Attribute>) -> (res: Vec<TokenStream>)
    ensures
        all_tokens(res@) == cfgs(all_views(attrs@)),
{
    let ghost from = all_views(attrs@);
    let ghost pick = |attr: AttributeView<Token>| cfg_of(attr);
    let mut res: Vec<TokenStream> = Vec::new();
    assert(all_tokens(res@) =~= Seq::<Seq<Token>>::empty());
    let mut i: usize = 0;
    while i < attrs.len()
        invariant
            i <= attrs.len(),
            from == all_views(attrs@),
            pick == (|attr: AttributeView<Token>| cfg_of(attr)),
            all_tokens(res@) == picked(from.take(i as int), pick),
        decreases attrs.len() - i,
    {
        let attr = &attrs[i];
        let ghost before = res@;
        proof {
            lemma_picked_goes_on(from, pick, i as int);
        }
        if attr.meta.is("cfg") {
            let written = attr.tokens.clone();
            res.push(written);
            assert(all_tokens(res@) =~= all_tokens(before).push(tokens(written)));
        }
        i += 1;
    }
    assert(from.take(i as int) =~= from);
    res
}

/// Whether a length is zero, behind any casts.
pub open spec fn is_zero(length: LengthView) -> bool
    decreases length,
{
    match length {
        LengthView::Cast(operand) => is_zero(*operand),
        LengthView::Int(value) => value == Some(0u64),
        LengthView::Other => false,
    }
}

/// Whether a type is exactly `[T; 0]`, for some `T`.
pub open spec fn is_zero_array<T: Located>(ty: TypeView<T>) -> bool {
    ty.array_len matches Some(length) && is_zero(length)
}

/// Whether `ty` is exactly `[T; 0]`, for some `T`.
pub fn is_array_zst(ty: &Type) -> (res: bool)
    ensures
        res == is_zero_array(ty@),
{
    let mut length = match &ty.array_len {
        Some(length) => length,
        None => return false,
    };
    loop
        invariant
            ty@.array_len is Some,
            is_zero(length@) == is_zero(ty@.array_len->0),
        decreases *length,
    {
        match length {
            Length::Cast(operand) => length = &**operand,
            Length::Int(value) => {
                return match value {
                    Some(value) => *value == 0,
                    None => false,
                };
            },
            Length::Other => return false,
        }
    }
}

/// An argument with that name.
pub open spec fn named<T>(arg: ArgView<T>, name: Seq<char>) -> Option<NamedArgView<T>> {
    match arg {
        ArgView::Named(arg) => if arg.name == name {
            Some(arg)
        } else {
            None
        },
        ArgView::Lit(_) => None,
    }
}

/// The first argument with that name.
pub open spec fn first_named<T>(args: Seq<ArgView<T>>, name: Seq<char>) -> Option<NamedArgView<T>> {
    first_picked(args, |arg: ArgView<T>| named(arg, name))
}

/// What is wrong with the arguments, where `check` says what is wrong with one after those before
/// it.
pub open spec fn failures<T>(
    args: Seq<ArgView<T>>,
    check: spec_fn(Seq<ArgView<T>>, ArgView<T>) -> Option<Texts>,
) -> Option<Texts>
    decreases args.len(),
{
    if args.len() == 0 {
        None
    } else {
        joined_texts(failures(args.drop_last(), check), check(args.drop_last(), args.last()))
    }
}

/// What is wrong with an argument that may be given once and reads as `value`.
pub open spec fn once<T, V>(
    before: Seq<ArgView<T>>,
    name: Seq<char>,
    value: Result<V, Texts>,
) -> Option<Texts> {
    if first_named(before, name) is Some {
        Some(seq![duplicate_text(name)])
    } else {
        match value {
            Ok(_) => None,
            Err(texts) => Some(texts),
        }
    }
}

/// Whether `places` is one place, that of these tokens.
pub open spec fn is_at(blamed: TokenStream, places: Seq<Span>) -> bool {
    places.len() == 1 && spans(tokens(blamed), places[0])
}

/// Whether `places` is where the messages about an argument point that may be given once and reads as
/// `value`: at the argument if it was given before, else where the reading of it failed.
pub open spec fn once_at<V>(
    before: Seq<Arg>,
    arg: NamedArg,
    value: Result<V, syn::Error>,
    places: Seq<Span>,
) -> bool {
    if first_named(all_views(before), arg.name@) is Some {
        is_at(arg.tokens, places)
    } else {
        match value {
            Ok(_) => places.len() == 0,
            Err(e) => places == error_spans(e),
        }
    }
}

/// Whether `each` is where the messages about each of the arguments point, where `at` says so of one
/// after those before it.
pub open spec fn each_is_at(
    args: Seq<Arg>,
    each: Seq<Seq<Span>>,
    at: spec_fn(Seq<Arg>, Arg, Seq<Span>) -> bool,
) -> bool {
    &&& each.len() == args.len()
    &&& forall|i: int| 0 <= i < args.len() ==> at(args.take(i), args[i], #[trigger] each[i])
}

/// Whether `places` is where the messages about all arguments point, in order.
pub open spec fn are_at(
    args: Seq<Arg>,
    places: Seq<Span>,
    at: spec_fn(Seq<Arg>, Arg, Seq<Span>) -> bool,
) -> bool {
    exists|each: Seq<Seq<Span>>| #[trigger] each_is_at(args, each, at) && places == concat(each)
}

/// One argument further.
pub proof fn lemma_each_is_at_goes_on(
    args: Seq<Arg>,
    each: Seq<Seq<Span>>,
    next: Seq<Span>,
    at: spec_fn(Seq<Arg>, Arg, Seq<Span>) -> bool,
    i: int,
)
    requires
        0 <= i < args.len(),
        each_is_at(args.take(i), each, at),
        at(args.take(i), args[i], next),
    ensures
        each_is_at(args.take(i + 1), each.push(next), at),
        concat(each.push(next)) == concat(each) + next,
{
    assert(each.push(next).drop_last() =~= each);
    let upto = args.take(i + 1);
    assert forall|k: int| 0 <= k < upto.len() implies at(
        upto.take(k),
        upto[k],
        #[trigger] each.push(next)[k],
    ) by {
        assert(upto.take(k) =~= args.take(k));
        if k < i {
            assert(args.take(i).take(k) =~= args.take(k));
            assert(at(args.take(i).take(k), args.take(i)[k], each[k]));
        }
    }
}

/// What is added at the end is what is left without the rest.
pub proof fn lemma_added<T>(first: Seq<T>, both: Seq<T>, next: Seq<T>)
    requires
        next == both.skip(first.len() as int),
    ensures
        forall|more: Seq<T>| both == #[trigger] (first + more) ==> next == more,
{
    assert forall|more: Seq<T>| both == #[trigger] (first + more) implies next == more by {
        assert(next =~= more);
    }
}

/// Whether `places` is where the messages about an argument of a `serde` attribute point.
pub open spec fn serde_failure_at(before: Seq<Arg>, arg: Arg, places: Seq<Span>) -> bool {
    match arg {
        Arg::Named(arg) => if arg.name@ == "flatten"@ {
            once_at(
                before,
                arg,
                match arg.flag {
                    Flag::Rejected(e) => Err(e),
                    _ => Ok(()),
                },
                places,
            )
        } else if arg.name@ == "default"@ {
            once_at(before, arg, arg.optional_path, places)
        } else {
            places.len() == 0
        },
        Arg::Lit(literal) => is_at(literal, places),
    }
}

/// The arguments of a `serde` attribute that the expansion goes by.
pub struct SerdeArgs {
    /// Whether `flatten` is given.
    pub flatten: bool,
    /// The path in `default = "path"`.
    pub default: Option<TokenStream>,
}

pub struct SerdeArgsView<T> {
    pub flatten: bool,
    pub default: Option<Seq<T>>,
}

impl View for SerdeArgs {
    type V = SerdeArgsView<Token>;

    open spec fn view(&self) -> SerdeArgsView<Token> {
        SerdeArgsView {
            flatten: self.flatten,
            default: match self.default {
                Some(path) => Some(tokens(path)),
                None => None,
            },
        }
    }
}

impl Spanless for SerdeArgsView<Token> {
    type Plain = SerdeArgsView<TokenKind>;

    open spec fn plain(self) -> SerdeArgsView<TokenKind> {
        SerdeArgsView {
            flatten: self.flatten,
            default: match self.default {
                Some(path) => Some(kinds(path)),
                None => None,
            },
        }
    }
}

/// What an argument is read as where a bare word is asked for. Not for an empty list.
pub open spec fn flag_value(flag: FlagView) -> Result<(), Texts> {
    match flag {
        FlagView::Rejected(texts) => Err(texts),
        _ => Ok(()),
    }
}

/// What is wrong with an argument of a `serde` attribute. Arguments that the expansion does not know
/// are not its concern.
pub open spec fn serde_failure<T>(before: Seq<ArgView<T>>, arg: ArgView<T>) -> Option<Texts> {
    match arg {
        ArgView::Named(arg) => if arg.name == "flatten"@ {
            once(before, arg.name, flag_value(arg.flag))
        } else if arg.name == "default"@ {
            once(before, arg.name, arg.optional_path)
        } else {
            None
        },
        ArgView::Lit(_) => Some(seq![format_text("literal"@)]),
    }
}

/// The arguments of a `serde` attribute, or all that is wrong with them.
pub open spec fn serde_args_in<T>(args: Seq<ArgView<T>>) -> Result<SerdeArgsView<T>, Texts> {
    match failures(
        args,
        |before: Seq<ArgView<T>>, arg: ArgView<T>| serde_failure(before, arg),
    ) {
        Some(texts) => Err(texts),
        None => Ok(
            SerdeArgsView {
                flatten: first_named(args, "flatten"@) is Some,
                default: match first_named(args, "default"@) {
                    Some(arg) => match arg.optional_path {
                        Ok(path) => path,
                        Err(_) => None,
                    },
                    None => None,
                },
            },
        ),
    }
}

/// Whether `flatten`, if it is given, does not come with an empty list.
pub open spec fn flag_has_no_empty_list<T>(args: Seq<ArgView<T>>) -> bool {
    first_named(args, "flatten"@) matches Some(arg) ==> arg.flag !is EmptyList
}

/// An attribute with that name.
pub open spec fn attr_named<T>(attr: AttributeView<T>, name: &str) -> Option<AttributeView<T>> {
    if attr.meta.is(name) {
        Some(attr)
    } else {
        None
    }
}

/// The first attribute with that name.
pub open spec fn first_attr<T>(attrs: Seq<AttributeView<T>>, name: &str) -> Option<
    AttributeView<T>,
> {
    first_picked(attrs, |attr: AttributeView<T>| attr_named(attr, name))
}

/// The arguments of the first `serde` attribute, if there is one, or all that is wrong with them.
pub open spec fn serde_args_of<T>(attrs: Seq<AttributeView<T>>) -> Result<
    Option<SerdeArgsView<T>>,
    Texts,
> {
    match first_attr(attrs, "serde") {
        Some(attr) => match attr.args {
            Ok(args) => match serde_args_in(args) {
                Ok(args) => Ok(Some(args)),
                Err(texts) => Err(texts),
            },
            Err(texts) => Err(texts),
        },
        None => Ok(None),
    }
}

/// Whether the arguments of the first `serde` attribute, if there is one, can be looked at: an empty
/// list behind `flatten` cannot.
pub open spec fn serde_readable<T>(attrs: Seq<AttributeView<T>>) -> bool {
    first_attr(attrs, "serde") matches Some(attr) ==> (attr.args matches Ok(args)
        ==> flag_has_no_empty_list(args))
}

/// The first attribute with that name.
pub fn find_attr<'a>(attrs: &'a Vec<Attribute>, name: &str) -> (res: Option<&'a Attribute>)
    ensures
        first_attr(all_views(attrs@), name) == option_view(res),
        res matches Some(attr) ==> exists|i: int|
            0 <= i < attrs@.len() && #[trigger] attrs@[i] == *attr && attr@.meta.is(name)
                && forall|k: int| 0 <= k < i ==> !(#[trigger] attrs@[k])@.meta.is(name),
{
    let ghost views = all_views(attrs@);
    let mut i: usize = 0;
    while i < attrs.len()
        invariant
            i <= attrs.len(),
            views == all_views(attrs@),
            first_attr(views.take(i as int), name) is None,
            forall|k: int| 0 <= k < i ==> !(#[trigger] attrs@[k])@.meta.is(name),
        decreases attrs.len() - i,
    {
        assert(views.take(i + 1).drop_last() =~= views.take(i as int));
        if attrs[i].meta.is(name) {
            proof {
                lemma_first_picked_stays(
                    views,
                    |attr: AttributeView<Token>| attr_named(attr, name),
                    i + 1,
                );
            }
            return Some(&attrs[i]);
        }
        i += 1;
    }
    assert(views.take(i as int) =~= views);
    None
}

/// The first argument with that name.
pub fn find_named<'a>(args: &'a Vec<Arg>, name: &str) -> (res: Option<&'a NamedArg>)
    ensures
        first_named(all_views(args@), name@) == option_view(res),
{
    let ghost views = all_views(args@);
    let mut i: usize = 0;
    while i < args.len()
        invariant
            i <= args.len(),
            views == all_views(args@),
            first_named(views.take(i as int), name@) is None,
        decreases args.len() - i,
    {
        assert(views.take(i + 1).drop_last() =~= views.take(i as int));
        if let Arg::Named(arg) = &args[i] {
            if arg.name == name.to_owned() {
                proof {
                    lemma_first_picked_stays(
                        views,
                        |arg: ArgView<Token>| named(arg, name@),
                        i + 1,
                    );
                }
                return Some(arg);
            }
        }
        i += 1;
    }
    assert(views.take(i as int) =~= views);
    None
}

/// Whether `flatten`, if it is given, does not come with an empty list.
pub fn has_no_empty_list(args: &Vec<Arg>) -> (res: bool)
    ensures
        res == flag_has_no_empty_list(all_views(args@)),
{
    match find_named(args, "flatten") {
        Some(arg) => match arg.flag {
            Flag::EmptyList => false,
            _ => true,
        },
        None => true,
    }
}

/// Whether the arguments of the first `serde` attribute, if there is one, can be looked at.
pub fn is_serde_readable(attrs: &Vec<Attribute>) -> (res: bool)
    ensures
        res == serde_readable(all_views(attrs@)),
{
    match find_attr(attrs, "serde") {
        Some(attr) => match &attr.args {
            Ok(args) => has_no_empty_list(args),
            Err(_) => true,
        },
        None => true,
    }
}

/// Whether `places` is where the messages about the arguments of the first `serde` attribute point:
/// where its list cannot be read, or else at what is wrong in it.
pub open spec fn fails_at(attrs: Seq<Attribute>, places: Seq<Span>) -> bool {
    exists|i: int|
        {
            &&& 0 <= i < attrs.len()
            &&& (#[trigger] attrs[i])@.meta.is("serde")
            &&& forall|k: int| 0 <= k < i ==> !(#[trigger] attrs[k])@.meta.is("serde")
            &&& match attrs[i].args {
                Ok(args) => are_at(
                    args@,
                    places,
                    |before: Seq<Arg>, arg: Arg, places: Seq<Span>|
                        serde_failure_at(before, arg, places),
                ),
                Err(e) => places == error_spans(e),
            }
        }
}

impl SerdeArgs {
    /// Reads the arguments of a `serde` attribute.
    pub fn from_list(args: &Vec<Arg>) -> (res: Result<SerdeArgs, syn::Error>)
        requires
            flag_has_no_empty_list(all_views(args@)),
        ensures
            match res {
                Ok(read) => serde_args_in(all_views(args@)) == Ok::<_, Texts>(read@),
                Err(e) => {
                    &&& serde_args_in(all_views(args@)) == Err::<SerdeArgsView<Token>, _>(
                        error_texts(e),
                    )
                    &&& are_at(
                        args@,
                        error_spans(e),
                        |before: Seq<Arg>, arg: Arg, places: Seq<Span>|
                            serde_failure_at(before, arg, places),
                    )
                },
            },
    {
        let ghost views = all_views(args@);
        let ghost check = |before: Seq<ArgView<Token>>, arg: ArgView<Token>|
            serde_failure(before, arg);
        proof {
            reveal_strlit("flatten");
            reveal_strlit("default");
            assert("flatten"@[0] != "default"@[0]);
        }
        let ghost at = |before: Seq<Arg>, arg: Arg, places: Seq<Span>|
            serde_failure_at(before, arg, places);
        let ghost mut each = Seq::<Seq<Span>>::empty();
        let mut errors: Option<syn::Error> = None;
        let mut flatten: bool = false;
        let mut default: Option<Option<TokenStream>> = None;
        let mut i: usize = 0;
        while i < args.len()
            invariant
                i <= args.len(),
                views == all_views(args@),
                check == (|before: Seq<ArgView<Token>>, arg: ArgView<Token>|
                    serde_failure(before, arg)),
                "flatten"@ != "default"@,
                option_texts(errors) == failures(views.take(i as int), check),
                at == (|before: Seq<Arg>, arg: Arg, places: Seq<Span>|
                    serde_failure_at(before, arg, places)),
                each_is_at(args@.take(i as int), each, at),
                option_spans(errors) == concat(each),
                flatten == (first_named(views.take(i as int), "flatten"@) is Some),
                match first_named(views.take(i as int), "default"@) {
                    Some(arg) => default is Some && match arg.optional_path {
                        Ok(Some(path)) => default->0 is Some && tokens(default->0->0) == path,
                        _ => default->0 is None,
                    },
                    None => default is None,
                },
            decreases args.len() - i,
        {
            assert(views.take(i + 1).drop_last() =~= views.take(i as int));
            assert(all_views(args@.take(i as int)) =~= views.take(i as int));
            let ghost so_far = option_spans(errors);
            match &args[i] {
                Arg::Named(arg) => {
                    if arg.name == "flatten".to_owned() {
                        if flatten {
                            errors = join_errors(
                                errors,
                                duplicate_field("flatten", &arg.tokens),
                            );
                        } else {
                            if let Flag::Rejected(e) = &arg.flag {
                                errors = join_errors(errors, e.clone());
                            }
                            flatten = true;
                        }
                    } else if arg.name == "default".to_owned() {
                        if default.is_some() {
                            errors = join_errors(
                                errors,
                                duplicate_field("default", &arg.tokens),
                            );
                        } else {
                            match &arg.optional_path {
                                Ok(Some(path)) => default = Some(Some(path.clone())),
                                Ok(None) => default = Some(None),
                                Err(e) => {
                                    errors = join_errors(errors, e.clone());
                                    default = Some(None);
                                },
                            }
                        }
                    }
                },
                Arg::Lit(literal) => {
                    errors = join_errors(errors, unsupported_format("literal", literal));
                },
            }
            proof {
                let next = option_spans(errors).skip(so_far.len() as int);
                assert(option_spans(errors) =~= so_far + next);
                assert(at(args@.take(i as int), args@[i as int], next)) by {
                    lemma_added(so_far, option_spans(errors), next);
                }
                lemma_each_is_at_goes_on(args@, each, next, at, i as int);
                each = each.push(next);
            }
            i += 1;
        }
        assert(views.take(i as int) =~= views);
        assert(args@.take(i as int) =~= args@);
        match errors {
            Some(e) => Err(e),
            None => Ok(
                SerdeArgs {
                    flatten,
                    default: match default {
                        Some(path) => path,
                        None => None,
                    },
                },
            ),
        }
    }

    /// Reads the arguments of the first `serde` attribute, if there is one.
    pub fn parse_from_attrs(attrs: &Vec<Attribute>) -> (res: Result<Option<SerdeArgs>, syn::Error>)
        requires
            serde_readable(all_views(attrs@)),
        ensures
            match res {
                Ok(args) => serde_args_of(all_views(attrs@)) == Ok::<_, Texts>(option_view(args)),
                Err(e) => {
                    &&& serde_args_of(all_views(attrs@)) == Err::<
                        Option<SerdeArgsView<Token>>,
                        _,
                    >(error_texts(e))
                    &&& fails_at(attrs@, error_spans(e))
                },
            },
    {
        match find_attr(attrs, "serde") {
            Some(attr) => match &attr.args {
                Ok(args) => match SerdeArgs::from_list(args) {
                    Ok(read) => Ok(Some(read)),
                    Err(e) => Err(e),
                },
                Err(e) => Err(e.clone()),
            },
            None => Ok(None),
        }
    }
}

/// Whether an attribute is `serde` with arguments that are all right and list `flatten`.
pub open spec fn flattens<T>(attr: AttributeView<T>) -> bool {
    &&& attr.meta.is("serde")
    &&& attr.args matches Ok(args) && flag_has_no_empty_list(args) && (serde_args_in(
        args,
    ) matches Ok(read) && read.flatten)
}

/// Whether some `serde` attribute says `flatten`.
pub open spec fn is_flattened<T>(attrs: Seq<AttributeView<T>>) -> bool {
    exists|i: int| 0 <= i < attrs.len() && flattens(#[trigger] attrs[i])
}

/// Whether an attribute is `serde(flatten)`, possibly with more arguments.
pub fn is_flattening(attr: &Attribute) -> (res: bool)
    ensures
        res == flattens(attr@),
{
    if !attr.meta.is("serde") {
        return false;
    }
    match &attr.args {
        Ok(args) => if has_no_empty_list(args) {
            match SerdeArgs::from_list(args) {
                Ok(read) => read.flatten,
                Err(_) => false,
            }
        } else {
            false
        },
        Err(_) => false,
    }
}

/// Whether `attrs` contains `serde(flatten)`.
pub fn is_serde_flattened(attrs: &Vec<Attribute>) -> (res: bool)
    requires
        serde_readable(all_views(attrs@)),
    ensures
        res == is_flattened(all_views(attrs@)),
{
    let ghost views = all_views(attrs@);
    let mut i: usize = 0;
    while i < attrs.len()
        invariant
            i <= attrs.len(),
            views == all_views(attrs@),
            forall|k: int| 0 <= k < i ==> !flattens(#[trigger] views[k]),
        decreases attrs.len() - i,
    {
        assert(views[i as int] == attrs@[i as int]@);
        if is_flattening(&attrs[i]) {
            return true;
        }
        i += 1;
    }
    false
}

} // verus!
