//! From tokens to the items of [`crate::syntax`].

use crate::error::{error_texts, Texts};
use crate::parse::{
    assigns, bool_from, bool_from_arg, count_as, flag_rejection, form_stands_in, format_text, has_arg,
    is_bare, override_from, override_from_arg, parse_args, parse_array_len, parse_count, parse_enum,
    parse_fields, parse_kind, parse_length, parse_meta, parse_metas, parse_struct, parse_variant,
    parsed_args, parsed_array_len, parsed_count, parsed_enum, parsed_fields, parsed_kind,
    parsed_length, parsed_meta, parsed_metas, parsed_struct, parsed_variant, path_from, path_from_arg,
    raw_attribute_stands_in, raw_attributes_stand_in, raw_field_stands_in, raw_fields_stand_in,
    reject_flag, reject_value, unsupported_format, value_rejection, ItemKind, ItemKindView, RawArg,
    RawArgForm, RawArgFormView, RawArgView, RawAttribute, RawAttributeView, RawField, RawFieldView,
    RawLength, RawLengthView,
};
use crate::syntax::{
    all_plain, all_views, Arg, ArgView, AttrMeta, AttrMetaView, Attribute, AttributeView, EnumView, Field, FieldView, Fields,
    FieldsView, Flag, FlagView, Form, FormView, Item, ItemEnum, ItemStruct, ItemView, Length,
    LengthView, ListedMeta, ListedMetaView, Meta, MetaView, NamedArg, NamedArgView, Shape, Spanless,
    StructView, Type, TypeView, Variant, VariantView,
};
use crate::token::{
    all_come_from, all_kinds, all_tokens, concat, keeps_places, kinds, lemma_all_come_from,
    lemma_keeps_places, stands_at, stream_span, tokens, Token,
    TokenKind,
};
use proc_macro2::TokenStream;
use vstd::prelude::*;

verus! {

/// The results of all calls, if none failed, or else the first failure.
pub open spec fn collected<A, B>(
    inputs: Seq<A>,
    read: spec_fn(A) -> Result<B, Texts>,
) -> Result<Seq<B>, Texts>
    decreases inputs.len(),
{
    if inputs.len() == 0 {
        Ok(Seq::empty())
    } else {
        match collected(inputs.drop_last(), read) {
            Ok(results) => match read(inputs.last()) {
                Ok(result) => Ok(results.push(result)),
                Err(texts) => Err(texts),
            },
            Err(texts) => Err(texts),
        }
    }
}

/// A failure at `i`, with none before it, is the failure of the whole.
pub proof fn lemma_collected_fails<A, B>(
    inputs: Seq<A>,
    read: spec_fn(A) -> Result<B, Texts>,
    i: int,
)
    requires
        0 <= i < inputs.len(),
        collected(inputs.take(i), read) is Ok,
        read(inputs[i]) is Err,
    ensures
        collected(inputs, read) == Err::<Seq<B>, Texts>(read(inputs[i])->Err_0),
    decreases inputs.len(),
{
    if i == inputs.len() - 1 {
        assert(inputs.drop_last() =~= inputs.take(i));
    } else {
        assert(inputs.drop_last().take(i) =~= inputs.take(i));
        lemma_collected_fails(inputs.drop_last(), read, i);
    }
}

/// One more result after `i` that came out.
pub proof fn lemma_collected_goes_on<A, B>(
    inputs: Seq<A>,
    read: spec_fn(A) -> Result<B, Texts>,
    i: int,
)
    requires
        0 <= i < inputs.len(),
        collected(inputs.take(i), read) is Ok,
        read(inputs[i]) is Ok,
    ensures
        collected(inputs.take(i + 1), read) == Ok::<Seq<B>, Texts>(
            collected(inputs.take(i), read)->Ok_0.push(read(inputs[i])->Ok_0),
        ),
{
    assert(inputs.take(i + 1).drop_last() =~= inputs.take(i));
}

/// The length of an array, with all casts taken apart.
pub open spec fn length_from(length: Seq<TokenKind>) -> LengthView
    decreases count_as(length),
{
    match parsed_length(length) {
        RawLengthView::Cast(operand) => if count_as(operand) < count_as(length) {
            LengthView::Cast(Box::new(length_from(operand)))
        } else {
            LengthView::Other
        },
        RawLengthView::Int(value) => LengthView::Int(value),
        RawLengthView::Other => LengthView::Other,
    }
}

/// Reads the length of an array.
pub fn read_length(length: &TokenStream) -> (res: Length)
    ensures
        res@ == length_from(kinds(tokens(*length))),
    decreases count_as(kinds(tokens(*length))),
{
    match parse_length(length) {
        RawLength::Cast(operand) => Length::Cast(Box::new(read_length(&operand))),
        RawLength::Int(value) => Length::Int(value),
        RawLength::Other => Length::Other,
    }
}

/// What a type is read as.
pub open spec fn type_from(ty: Seq<TokenKind>) -> TypeView<TokenKind> {
    TypeView {
        tokens: ty,
        span: (),
        array_len: match parsed_array_len(ty) {
            Some(length) => Some(length_from(length)),
            None => None,
        },
    }
}

/// Reads a type.
pub fn read_type(ty: &TokenStream) -> (res: Type)
    ensures
        res@.plain() == type_from(kinds(tokens(*ty))),
        res@.tokens == tokens(*ty),
        stands_at(res@.tokens, res@.span),
{
    let array_len = match parse_array_len(ty) {
        Some(length) => Some(read_length(&length)),
        None => None,
    };
    let copy = ty.clone();
    Type { span: stream_span(&copy), tokens: copy, array_len }
}

/// What meta items with commas between them are read as.
pub open spec fn metas_from(list: Seq<TokenKind>) -> Option<Seq<MetaView<TokenKind>>> {
    match parsed_metas(list) {
        Some(metas) => match collected(metas, |meta: Seq<TokenKind>| parsed_meta(meta)) {
            Ok(metas) => Some(metas),
            Err(_) => None,
        },
        None => None,
    }
}

/// Reads meta items with commas between them.
pub fn read_metas(list: &TokenStream) -> (res: Option<Vec<Meta>>)
    ensures
        match res {
            Some(metas) => metas_from(kinds(tokens(*list))) == Some(all_plain(all_views(metas@))),
            None => metas_from(kinds(tokens(*list))) is None,
        },
{
    let metas = match parse_metas(list) {
        Some(metas) => metas,
        None => return None,
    };
    let ghost inputs = all_kinds(all_tokens(metas@));
    let ghost read = |meta: Seq<TokenKind>| parsed_meta(meta);
    let mut res: Vec<Meta> = Vec::new();
    assert(all_plain(all_views(res@)) =~= Seq::<MetaView<TokenKind>>::empty());
    let mut i: usize = 0;
    while i < metas.len()
        invariant
            i <= metas.len(),
            inputs == all_kinds(all_tokens(metas@)),
            parsed_metas(kinds(tokens(*list))) == Some(inputs),
            read == (|meta: Seq<TokenKind>| parsed_meta(meta)),
            collected(inputs.take(i as int), read) == Ok::<_, Texts>(all_plain(all_views(res@))),
        decreases metas.len() - i,
    {
        assert(inputs[i as int] == kinds(tokens(metas@[i as int])));
        let ghost before = res@;
        match parse_meta(&metas[i]) {
            Ok(meta) => {
                proof {
                    lemma_collected_goes_on(inputs, read, i as int);
                }
                res.push(meta);
                assert(all_plain(all_views(res@)) =~= all_plain(all_views(before)).push(
                    meta@.plain(),
                ));
            },
            Err(_) => {
                proof {
                    lemma_collected_fails(inputs, read, i as int);
                }
                return None;
            },
        }
        i += 1;
    }
    assert(inputs.take(i as int) =~= inputs);
    Some(res)
}

/// What a meta item with a list of its own is read as.
pub open spec fn listed_from(meta: MetaView<TokenKind>) -> ListedMetaView<TokenKind> {
    ListedMetaView {
        meta,
        metas: match meta.form {
            FormView::List(list) => metas_from(list),
            _ => None,
        },
    }
}

/// [`listed_from`] of all meta items in a list.
pub open spec fn all_listed_from(list: Seq<TokenKind>) -> Option<Seq<ListedMetaView<TokenKind>>> {
    match metas_from(list) {
        Some(metas) => Some(metas.map_values(|meta: MetaView<TokenKind>| listed_from(meta))),
        None => None,
    }
}

/// Reads the list of a meta item.
pub fn read_listed(meta: Meta) -> (res: ListedMeta)
    ensures
        res@.plain() == listed_from(meta@.plain()),
{
    let metas = match &meta.form {
        Form::List(list) => read_metas(list),
        _ => None,
    };
    ListedMeta { meta, metas }
}

/// Reads meta items with commas between them, and the lists of these.
pub fn read_all_listed(list: &TokenStream) -> (res: Option<Vec<ListedMeta>>)
    ensures
        match res {
            Some(metas) => all_listed_from(kinds(tokens(*list))) == Some(
                all_plain(all_views(metas@)),
            ),
            None => all_listed_from(kinds(tokens(*list))) is None,
        },
{
    let metas = match read_metas(list) {
        Some(metas) => metas,
        None => return None,
    };
    let ghost goal = all_listed_from(kinds(tokens(*list)))->0;
    let mut res: Vec<ListedMeta> = Vec::new();
    for meta in it: metas.into_iter()
        invariant
            it.seq() == metas@,
            goal == all_plain(all_views(metas@)).map_values(
                |meta: MetaView<TokenKind>| listed_from(meta),
            ),
            all_plain(all_views(res@)) == goal.take(it.index() as int),
    {
        let ghost before = res@;
        let listed = read_listed(meta);
        res.push(listed);
        assert(all_plain(all_views(res@)) =~= all_plain(all_views(before)).push(listed@.plain()));
    }
    assert(goal.take(metas@.len() as int) =~= goal);
    Some(res)
}

/// What a meta item in the list of an attribute is read as.
pub open spec fn attr_meta_from(meta: MetaView<TokenKind>) -> AttrMetaView<TokenKind> {
    AttrMetaView {
        listed: listed_from(meta),
        inner: match meta.form {
            FormView::List(list) => all_listed_from(list),
            _ => None,
        },
    }
}

/// [`attr_meta_from`] of all meta items in a list.
pub open spec fn all_attr_metas_from(list: Seq<TokenKind>) -> Option<Seq<AttrMetaView<TokenKind>>> {
    match metas_from(list) {
        Some(metas) => Some(metas.map_values(|meta: MetaView<TokenKind>| attr_meta_from(meta))),
        None => None,
    }
}

/// Reads the meta items in the list of an attribute.
pub fn read_attr_metas(list: &TokenStream) -> (res: Option<Vec<AttrMeta>>)
    ensures
        match res {
            Some(metas) => all_attr_metas_from(kinds(tokens(*list))) == Some(
                all_plain(all_views(metas@)),
            ),
            None => all_attr_metas_from(kinds(tokens(*list))) is None,
        },
{
    let metas = match read_metas(list) {
        Some(metas) => metas,
        None => return None,
    };
    let ghost goal = all_attr_metas_from(kinds(tokens(*list)))->0;
    let mut res: Vec<AttrMeta> = Vec::new();
    for meta in it: metas.into_iter()
        invariant
            it.seq() == metas@,
            goal == all_plain(all_views(metas@)).map_values(
                |meta: MetaView<TokenKind>| attr_meta_from(meta),
            ),
            all_plain(all_views(res@)) == goal.take(it.index() as int),
    {
        let ghost before = res@;
        let inner = match &meta.form {
            Form::List(list) => read_all_listed(list),
            _ => None,
        };
        let attr_meta = AttrMeta { listed: read_listed(meta), inner };
        assert(attr_meta@.plain() == attr_meta_from(meta@.plain()));
        res.push(attr_meta);
        assert(all_plain(all_views(res@)) =~= all_plain(all_views(before)).push(
            attr_meta@.plain(),
        ));
    }
    assert(goal.take(metas@.len() as int) =~= goal);
    Some(res)
}

/// What an argument in a list is read as where a bare word is asked for.
pub open spec fn flag_from(
    form: RawArgFormView<TokenKind>,
    list: Seq<TokenKind>,
    i: int,
) -> FlagView {
    match form {
        RawArgFormView::Word => FlagView::Word,
        RawArgFormView::List(inner) => if inner.len() == 0 {
            FlagView::EmptyList
        } else {
            FlagView::Rejected(flag_rejection(list, i))
        },
        RawArgFormView::NameValue => FlagView::Rejected(flag_rejection(list, i)),
    }
}

/// What an argument in a list is read as.
pub open spec fn arg_from(
    raw: RawArgView<TokenKind>,
    list: Seq<TokenKind>,
    i: int,
) -> ArgView<TokenKind> {
    match raw {
        RawArgView::Named { name, form, tokens } => ArgView::Named(
            NamedArgView {
                name,
                tokens,
                flag: flag_from(form, list, i),
                boolean: bool_from(list, i),
                path: path_from(list, i),
                optional_path: override_from(list, i),
            },
        ),
        RawArgView::Lit(literal) => ArgView::Lit(literal),
    }
}

/// Whether an argument is read as it is plainly written. A bare word is true where a truth value is
/// asked for, and where a path can be left out it is left out. `name = true` and `name = false` are
/// what they say, with the value in quotes or not.
pub open spec fn is_as_written(arg: ArgView<Token>) -> bool {
    arg matches ArgView::Named(arg) ==> {
        let written = kinds(arg.tokens);
        &&& is_bare(written) ==> arg.boolean == Ok::<_, Texts>(true) && arg.optional_path == Ok::<
            _,
            Texts,
        >(None::<Seq<Token>>)
        &&& assigns(written, TokenKind::Ident("true"@)) || assigns(written, TokenKind::Str("true"@))
            ==> arg.boolean == Ok::<_, Texts>(true)
        &&& assigns(written, TokenKind::Ident("false"@)) || assigns(
            written,
            TokenKind::Str("false"@),
        ) ==> arg.boolean == Ok::<_, Texts>(false)
    }
}

/// [`is_as_written`] of all arguments.
pub open spec fn are_as_written(args: Seq<ArgView<Token>>) -> bool {
    forall|i: int| 0 <= i < args.len() ==> is_as_written(#[trigger] args[i])
}

/// Whether the paths in an argument come from `list`.
pub open spec fn arg_stands_in(arg: ArgView<Token>, list: Seq<Token>) -> bool {
    arg matches ArgView::Named(arg) ==> {
        &&& arg.path matches Ok(path) ==> all_come_from(path, list)
        &&& arg.optional_path matches Ok(Some(path)) ==> all_come_from(path, list)
    }
}

/// [`arg_stands_in`] of all arguments.
pub open spec fn args_stand_in(args: Seq<ArgView<Token>>, list: Seq<Token>) -> bool {
    forall|i: int| 0 <= i < args.len() ==> arg_stands_in(#[trigger] args[i], list)
}

proof fn lemma_args_stand_in(args: Seq<ArgView<Token>>, next: Seq<Token>, first: Seq<Token>)
    requires
        args_stand_in(args, next),
        keeps_places(next, first),
    ensures
        args_stand_in(args, first),
{
    assert forall|i: int| 0 <= i < args.len() implies arg_stands_in(#[trigger] args[i], first) by {
        assert(arg_stands_in(args[i], next));
        if let ArgView::Named(arg) = args[i] {
            if let Ok(path) = arg.path {
                lemma_all_come_from(path, next, first);
            }
            if let Ok(Some(path)) = arg.optional_path {
                lemma_all_come_from(path, next, first);
            }
        }
    }
}

/// Reads an argument in a list.
fn read_arg(raw: RawArg, list: &TokenStream, i: usize) -> (res: Arg)
    requires
        has_arg(kinds(tokens(*list)), i as int),
        parsed_args(kinds(tokens(*list)))->Ok_0[i as int] == raw@.plain(),
    ensures
        res@.plain() == arg_from(raw@.plain(), kinds(tokens(*list)), i as int),
        is_as_written(res@),
        arg_stands_in(res@, tokens(*list)),
{
    match raw {
        RawArg::Named { name, form, tokens } => {
            let flag = match form {
                RawArgForm::Word => Flag::Word,
                RawArgForm::List(inner) => if inner.is_empty() {
                    Flag::EmptyList
                } else {
                    Flag::Rejected(reject_flag(list, i))
                },
                RawArgForm::NameValue => Flag::Rejected(reject_flag(list, i)),
            };
            let boolean = bool_from_arg(list, i);
            let path = path_from_arg(list, i);
            let optional_path = override_from_arg(list, i);
            Arg::Named(NamedArg { name, tokens, flag, boolean, path, optional_path })
        },
        RawArg::Lit(literal) => Arg::Lit(literal),
    }
}

/// What arguments with commas between them are read as.
pub open spec fn args_from(list: Seq<TokenKind>) -> Result<Seq<ArgView<TokenKind>>, Texts> {
    match parsed_args(list) {
        Ok(raws) => Ok(raws.map(|i: int, raw: RawArgView<TokenKind>| arg_from(raw, list, i))),
        Err(texts) => Err(texts),
    }
}

/// Reads the arguments in the list of an attribute.
pub fn read_args(list: &TokenStream) -> (res: Result<Vec<Arg>, syn::Error>)
    ensures
        match res {
            Ok(args) => args_from(kinds(tokens(*list))) == Ok::<_, Texts>(
                all_plain(all_views(args@)),
            ) && are_as_written(all_views(args@)) && args_stand_in(all_views(args@), tokens(*list)),
            Err(e) => args_from(kinds(tokens(*list))) == Err::<Seq<ArgView<TokenKind>>, _>(
                error_texts(e),
            ),
        },
{
    let raws = match parse_args(list) {
        Ok(raws) => raws,
        Err(e) => return Err(e),
    };
    let ghost input = kinds(tokens(*list));
    let ghost inputs = all_plain(all_views(raws@));
    let ghost goal = args_from(input)->Ok_0;
    let count = raws.len();
    let mut args: Vec<Arg> = Vec::new();
    let mut i: usize = 0;
    for raw in it: raws.into_iter()
        invariant
            it.seq() == raws@,
            i == it.index(),
            count == raws@.len(),
            input == kinds(tokens(*list)),
            inputs == all_plain(all_views(raws@)),
            parsed_args(input) == Ok::<_, Texts>(inputs),
            goal == inputs.map(|i: int, raw: RawArgView<TokenKind>| arg_from(raw, input, i)),
            all_plain(all_views(args@)) == goal.take(i as int),
            are_as_written(all_views(args@)),
            args_stand_in(all_views(args@), tokens(*list)),
    {
        let ghost before = args@;
        assert(inputs[i as int] == raw@.plain());
        let arg = read_arg(raw, list, i);
        args.push(arg);
        assert(all_views(args@) =~= all_views(before).push(arg@));
        assert(all_plain(all_views(args@)) =~= all_plain(all_views(before)).push(arg@.plain()));
        i += 1;
    }
    assert(goal.take(raws@.len() as int) =~= goal);
    Ok(args)
}

/// What an attribute is read as.
pub open spec fn attribute_from(raw: RawAttributeView<TokenKind>) -> Result<
    AttributeView<TokenKind>,
    Texts,
> {
    match parsed_meta(raw.meta) {
        Ok(meta) => Ok(
            AttributeView {
                tokens: raw.tokens,
                meta,
                args: match meta.form {
                    FormView::Word => Err(seq![format_text("word"@)]),
                    FormView::List(list) => args_from(list),
                    FormView::NameValue(_) => Err(value_rejection(raw.meta)),
                },
                metas: match meta.form {
                    FormView::List(list) => all_attr_metas_from(list),
                    _ => None,
                },
            },
        ),
        Err(texts) => Err(texts),
    }
}

/// Whether the arguments of an attribute are as they are written, where it has any.
pub open spec fn has_args_as_written(attr: AttributeView<Token>) -> bool {
    attr.args matches Ok(args) ==> are_as_written(args)
}

/// [`has_args_as_written`] of all attributes.
pub open spec fn have_args_as_written(attrs: Seq<AttributeView<Token>>) -> bool {
    forall|i: int| 0 <= i < attrs.len() ==> has_args_as_written(#[trigger] attrs[i])
}

/// Whether an attribute, what follows the path in it, and the paths in its arguments stand where they
/// stand in `input`.
pub open spec fn attribute_stands_in(attr: AttributeView<Token>, input: Seq<Token>) -> bool {
    &&& keeps_places(attr.tokens, input)
    &&& form_stands_in(attr.meta.form, input)
    &&& attr.args matches Ok(args) ==> args_stand_in(args, input)
}

/// [`attribute_stands_in`] of all attributes.
pub open spec fn attributes_stand_in(attrs: Seq<AttributeView<Token>>, input: Seq<Token>) -> bool {
    forall|i: int| 0 <= i < attrs.len() ==> attribute_stands_in(#[trigger] attrs[i], input)
}

proof fn lemma_form_stands_in(form: FormView<Token>, next: Seq<Token>, first: Seq<Token>)
    requires
        form_stands_in(form, next),
        keeps_places(next, first),
    ensures
        form_stands_in(form, first),
{
    match form {
        FormView::Word => {},
        FormView::List(list) => lemma_keeps_places(list, next, first),
        FormView::NameValue(value) => lemma_keeps_places(value.tokens(), next, first),
    }
}

proof fn lemma_attributes_stand_in(
    attrs: Seq<AttributeView<Token>>,
    next: Seq<Token>,
    first: Seq<Token>,
)
    requires
        attributes_stand_in(attrs, next),
        keeps_places(next, first),
    ensures
        attributes_stand_in(attrs, first),
{
    assert forall|i: int| 0 <= i < attrs.len() implies attribute_stands_in(
        #[trigger] attrs[i],
        first,
    ) by {
        assert(attribute_stands_in(attrs[i], next));
        lemma_keeps_places(attrs[i].tokens, next, first);
        lemma_form_stands_in(attrs[i].meta.form, next, first);
        if let Ok(args) = attrs[i].args {
            lemma_args_stand_in(args, next, first);
        }
    }
}

/// Reads an attribute.
pub fn read_attribute(raw: RawAttribute) -> (res: Result<Attribute, syn::Error>)
    ensures
        match res {
            Ok(attr) => {
                &&& attribute_from(raw@.plain()) == Ok::<_, Texts>(attr@.plain())
                &&& has_args_as_written(attr@)
                &&& forall|input: Seq<Token>| #[trigger]
                    raw_attribute_stands_in(raw@, input) ==> attribute_stands_in(attr@, input)
            },
            Err(e) => attribute_from(raw@.plain()) == Err::<AttributeView<TokenKind>, _>(
                error_texts(e),
            ),
        },
{
    let meta = match parse_meta(&raw.meta) {
        Ok(meta) => meta,
        Err(e) => return Err(e),
    };
    let args = match &meta.form {
        Form::Word => Err(unsupported_format("word", &raw.meta)),
        Form::List(list) => read_args(list),
        Form::NameValue(_) => Err(reject_value(&raw.meta)),
    };
    let metas = match &meta.form {
        Form::List(list) => read_attr_metas(list),
        _ => None,
    };
    proof {
        assert forall|input: Seq<Token>| #[trigger]
            raw_attribute_stands_in(raw@, input) implies form_stands_in(meta@.form, input) by {
            lemma_form_stands_in(meta@.form, raw@.meta, input);
        }
        if args is Ok {
            let views = all_views(args->Ok_0@);
            assert forall|input: Seq<Token>| #[trigger]
                raw_attribute_stands_in(raw@, input) implies args_stand_in(views, input) by {
                lemma_args_stand_in(views, meta@.form->List_0, input);
            }
        }
    }
    Ok(Attribute { tokens: raw.tokens, meta, args, metas })
}

/// What attributes are read as.
pub open spec fn attributes_from(raws: Seq<RawAttributeView<TokenKind>>) -> Result<
    Seq<AttributeView<TokenKind>>,
    Texts,
> {
    collected(raws, |raw: RawAttributeView<TokenKind>| attribute_from(raw))
}

/// Reads attributes.
pub fn read_attributes(raws: Vec<RawAttribute>) -> (res: Result<Vec<Attribute>, syn::Error>)
    ensures
        match res {
            Ok(attrs) => {
                &&& attributes_from(all_plain(all_views(raws@))) == Ok::<_, Texts>(
                    all_plain(all_views(attrs@)),
                )
                &&& have_args_as_written(all_views(attrs@))
                &&& forall|input: Seq<Token>| #[trigger]
                    raw_attributes_stand_in(all_views(raws@), input) ==> attributes_stand_in(
                        all_views(attrs@),
                        input,
                    )
            },
            Err(e) => attributes_from(all_plain(all_views(raws@))) == Err::<
                Seq<AttributeView<TokenKind>>,
                _,
            >(error_texts(e)),
        },
{
    let ghost inputs = all_plain(all_views(raws@));
    let ghost read = |raw: RawAttributeView<TokenKind>| attribute_from(raw);
    let mut attrs: Vec<Attribute> = Vec::new();
    assert(all_plain(all_views(attrs@)) =~= Seq::<AttributeView<TokenKind>>::empty());
    for raw in it: raws.into_iter()
        invariant
            it.seq() == raws@,
            inputs == all_plain(all_views(raws@)),
            read == (|raw: RawAttributeView<TokenKind>| attribute_from(raw)),
            collected(inputs.take(it.index() as int), read) == Ok::<_, Texts>(
                all_plain(all_views(attrs@)),
            ),
            have_args_as_written(all_views(attrs@)),
            forall|input: Seq<Token>| #[trigger]
                raw_attributes_stand_in(all_views(raws@), input) ==> attributes_stand_in(
                    all_views(attrs@),
                    input,
                ),
    {
        let ghost i = it.index() as int;
        let ghost before = attrs@;
        match read_attribute(raw) {
            Ok(attr) => {
                attrs.push(attr);
                proof {
                    lemma_collected_goes_on(inputs, read, i);
                    assert(all_views(attrs@) =~= all_views(before).push(attr@));
                    assert forall|input: Seq<Token>| #[trigger]
                        raw_attributes_stand_in(all_views(raws@), input) implies attributes_stand_in(
                        all_views(before).push(attr@),
                        input,
                    ) by {
                        assert(all_views(raws@)[i] == raw@);
                        assert(raw_attribute_stands_in(raw@, input));
                        assert(attributes_stand_in(all_views(before), input));
                    }
                    assert(all_plain(all_views(attrs@)) =~= all_plain(all_views(before)).push(
                        attr@.plain(),
                    ));
                }
            },
            Err(e) => {
                proof {
                    lemma_collected_fails(inputs, read, i);
                }
                return Err(e);
            },
        }
    }
    assert(inputs.take(raws@.len() as int) =~= inputs);
    Ok(attrs)
}

/// What a field is read as.
pub open spec fn field_from(raw: RawFieldView<TokenKind>) -> Result<FieldView<TokenKind>, Texts> {
    match attributes_from(raw.attrs) {
        Ok(attrs) => Ok(FieldView { attrs, ident: raw.ident, ty: type_from(raw.ty) }),
        Err(texts) => Err(texts),
    }
}

/// Whether the type of a field stands where its tokens do, the arguments of its attributes are as they
/// are written, and its parts stand where they stand in `input`.
pub open spec fn is_faithful_field(field: FieldView<Token>, input: Seq<Token>) -> bool {
    &&& stands_at(field.ty.tokens, field.ty.span)
    &&& have_args_as_written(field.attrs)
    &&& attributes_stand_in(field.attrs, input)
    &&& keeps_places(field.ident.tokens, input)
    &&& keeps_places(field.ty.tokens, input)
}

/// [`is_faithful_field`] of all fields with names.
pub open spec fn are_faithful_fields(fields: FieldsView<Token>, input: Seq<Token>) -> bool {
    fields matches FieldsView::Named(fields) ==> forall|i: int|
        0 <= i < fields.len() ==> is_faithful_field(#[trigger] fields[i], input)
}

proof fn lemma_faithful_fields(fields: FieldsView<Token>, next: Seq<Token>, first: Seq<Token>)
    requires
        are_faithful_fields(fields, next),
        keeps_places(next, first),
    ensures
        are_faithful_fields(fields, first),
{
    if let FieldsView::Named(fields) = fields {
        assert forall|i: int| 0 <= i < fields.len() implies is_faithful_field(
            #[trigger] fields[i],
            first,
        ) by {
            assert(is_faithful_field(fields[i], next));
            lemma_attributes_stand_in(fields[i].attrs, next, first);
            lemma_keeps_places(fields[i].ident.tokens, next, first);
            lemma_keeps_places(fields[i].ty.tokens, next, first);
        }
    }
}

/// Whether the fields of a variant stand where their tokens do, and its parts where they stand in
/// `input`.
pub open spec fn is_faithful_variant(variant: VariantView<Token>, input: Seq<Token>) -> bool {
    &&& stands_at(variant.fields, variant.span)
    &&& attributes_stand_in(variant.attrs, input)
    &&& keeps_places(variant.ident.tokens, input)
    &&& keeps_places(variant.fields, input)
    &&& keeps_places(variant.tokens, input)
}

/// [`is_faithful_variant`] of all variants.
pub open spec fn are_faithful_variants(
    variants: Seq<VariantView<Token>>,
    input: Seq<Token>,
) -> bool {
    forall|i: int| 0 <= i < variants.len() ==> is_faithful_variant(#[trigger] variants[i], input)
}

proof fn lemma_faithful_variant(variant: VariantView<Token>, next: Seq<Token>, first: Seq<Token>)
    requires
        is_faithful_variant(variant, next),
        keeps_places(next, first),
    ensures
        is_faithful_variant(variant, first),
{
    lemma_attributes_stand_in(variant.attrs, next, first);
    lemma_keeps_places(variant.ident.tokens, next, first);
    lemma_keeps_places(variant.fields, next, first);
    lemma_keeps_places(variant.tokens, next, first);
}

/// Whether a structure, and its fields, are as they are written in `input`.
pub open spec fn is_faithful_struct(item: StructView<Token>, input: Seq<Token>) -> bool {
    &&& are_faithful_fields(item.fields, input)
    &&& keeps_places(concat(item.attrs) + item.body, input)
    &&& keeps_places(item.ident.tokens, input)
    &&& keeps_places(item.generics.impl_generics, input)
    &&& keeps_places(item.generics.ty_generics, input)
    &&& keeps_places(item.generics.where_clause, input)
}

/// Whether an enum, and its variants, are as they are written in `input`.
pub open spec fn is_faithful_enum(item: EnumView<Token>, input: Seq<Token>) -> bool {
    &&& are_faithful_variants(item.variants, input)
    &&& keeps_places(concat(item.attrs) + item.body, input)
    &&& keeps_places(item.ident.tokens, input)
}

/// Whether a structure or an enum is as it is written in `input`.
pub open spec fn is_faithful(item: ItemView<Token>, input: Seq<Token>) -> bool {
    match item {
        ItemView::Struct(item) => is_faithful_struct(item, input),
        ItemView::Enum(item) => is_faithful_enum(item, input),
        ItemView::Other(_) => true,
    }
}

/// Reads a field.
pub fn read_field(raw: RawField) -> (res: Result<Field, syn::Error>)
    ensures
        match res {
            Ok(field) => field_from(raw@.plain()) == Ok::<_, Texts>(field@.plain()) && forall|
                input: Seq<Token>,
            | #[trigger]
                raw_field_stands_in(raw@, input) ==> is_faithful_field(field@, input),
            Err(e) => field_from(raw@.plain()) == Err::<FieldView<TokenKind>, _>(error_texts(e)),
        },
{
    match read_attributes(raw.attrs) {
        Ok(attrs) => Ok(Field { attrs, ident: raw.ident, ty: read_type(&raw.ty) }),
        Err(e) => Err(e),
    }
}

/// How fields are written: not at all, in parentheses, or else in braces.
pub open spec fn shape_from(fields: Seq<TokenKind>) -> Shape {
    if fields.len() == 0 {
        Shape::Unit
    } else {
        match parsed_count(fields) {
            Some(count) => Shape::Unnamed(count),
            None => Shape::Named,
        }
    }
}

/// Reads how fields are written.
pub fn read_shape(fields: &TokenStream) -> (res: Shape)
    ensures
        res == shape_from(kinds(tokens(*fields))),
{
    if fields.is_empty() {
        Shape::Unit
    } else {
        match parse_count(fields) {
            Some(count) => Shape::Unnamed(count),
            None => Shape::Named,
        }
    }
}

/// What the fields of a structure are read as.
pub open spec fn fields_from(fields: Seq<TokenKind>) -> Result<FieldsView<TokenKind>, Texts> {
    match shape_from(fields) {
        Shape::Named => match parsed_fields(fields) {
            Ok(raws) => match collected(raws, |raw: RawFieldView<TokenKind>| field_from(raw)) {
                Ok(fields) => Ok(FieldsView::Named(fields)),
                Err(texts) => Err(texts),
            },
            Err(texts) => Err(texts),
        },
        Shape::Unnamed(count) => Ok(FieldsView::Unnamed(count)),
        Shape::Unit => Ok(FieldsView::Unit),
    }
}

/// Reads the fields of a structure.
pub fn read_fields(fields: &TokenStream) -> (res: Result<Fields, syn::Error>)
    ensures
        match res {
            Ok(read) => fields_from(kinds(tokens(*fields))) == Ok::<_, Texts>(
                read@.plain(),
            ) && are_faithful_fields(read@, tokens(*fields)),
            Err(e) => fields_from(kinds(tokens(*fields))) == Err::<FieldsView<TokenKind>, _>(
                error_texts(e),
            ),
        },
{
    match read_shape(fields) {
        Shape::Named => {},
        Shape::Unnamed(count) => return Ok(Fields::Unnamed(count)),
        Shape::Unit => return Ok(Fields::Unit),
    }
    let raws = match parse_fields(fields) {
        Ok(raws) => raws,
        Err(e) => return Err(e),
    };
    let ghost inputs = all_plain(all_views(raws@));
    let ghost read = |raw: RawFieldView<TokenKind>| field_from(raw);
    let mut res: Vec<Field> = Vec::new();
    assert(all_plain(all_views(res@)) =~= Seq::<FieldView<TokenKind>>::empty());
    for raw in it: raws.into_iter()
        invariant
            it.seq() == raws@,
            shape_from(kinds(tokens(*fields))) is Named,
            parsed_fields(kinds(tokens(*fields))) == Ok::<_, Texts>(inputs),
            inputs == all_plain(all_views(raws@)),
            read == (|raw: RawFieldView<TokenKind>| field_from(raw)),
            collected(inputs.take(it.index() as int), read) == Ok::<_, Texts>(
                all_plain(all_views(res@)),
            ),
            raw_fields_stand_in(all_views(raws@), tokens(*fields)),
            forall|k: int|
                0 <= k < res@.len() ==> is_faithful_field((#[trigger] res@[k])@, tokens(*fields)),
    {
        let ghost i = it.index() as int;
        let ghost before = res@;
        assert(all_views(raws@)[i] == raw@);
        assert(raw_field_stands_in(raw@, tokens(*fields)));
        match read_field(raw) {
            Ok(field) => {
                res.push(field);
                proof {
                    lemma_collected_goes_on(inputs, read, i);
                    assert(all_plain(all_views(res@)) =~= all_plain(all_views(before)).push(
                        field@.plain(),
                    ));
                }
            },
            Err(e) => {
                proof {
                    lemma_collected_fails(inputs, read, i);
                }
                return Err(e);
            },
        }
    }
    assert(inputs.take(raws@.len() as int) =~= inputs);
    assert forall|k: int| 0 <= k < all_views(res@).len() implies is_faithful_field(
        #[trigger] all_views(res@)[k],
        tokens(*fields),
    ) by {
        assert(all_views(res@)[k] == res@[k]@);
    }
    Ok(Fields::Named(res))
}

/// What a variant is read as.
pub open spec fn variant_from(variant: Seq<TokenKind>) -> Result<VariantView<TokenKind>, Texts> {
    match parsed_variant(variant) {
        Ok(raw) => match attributes_from(raw.attrs) {
            Ok(attrs) => Ok(
                VariantView {
                    attrs,
                    ident: raw.ident,
                    shape: shape_from(raw.fields),
                    fields: raw.fields,
                    span: (),
                    tokens: variant,
                },
            ),
            Err(texts) => Err(texts),
        },
        Err(texts) => Err(texts),
    }
}

/// Reads a variant.
pub fn read_variant(variant: &TokenStream) -> (res: Result<Variant, syn::Error>)
    ensures
        match res {
            Ok(read) => variant_from(kinds(tokens(*variant))) == Ok::<_, Texts>(read@.plain())
                && is_faithful_variant(read@, tokens(*variant)),
            Err(e) => variant_from(kinds(tokens(*variant))) == Err::<VariantView<TokenKind>, _>(
                error_texts(e),
            ),
        },
{
    let raw = match parse_variant(variant) {
        Ok(raw) => raw,
        Err(e) => return Err(e),
    };
    match read_attributes(raw.attrs) {
        Ok(attrs) => Ok(
            Variant {
                attrs,
                ident: raw.ident,
                shape: read_shape(&raw.fields),
                span: stream_span(&raw.fields),
                fields: raw.fields,
                tokens: variant.clone(),
            },
        ),
        Err(e) => Err(e),
    }
}

/// [`keeps_places`] of all sequences.
pub open spec fn all_keep_places(streams: Seq<Seq<Token>>, input: Seq<Token>) -> bool {
    forall|i: int| 0 <= i < streams.len() ==> keeps_places(#[trigger] streams[i], input)
}

/// What the variants of an enum are read as.
pub open spec fn variants_from(variants: Seq<Seq<TokenKind>>) -> Result<
    Seq<VariantView<TokenKind>>,
    Texts,
> {
    collected(variants, |variant: Seq<TokenKind>| variant_from(variant))
}

/// Reads the variants of an enum.
pub fn read_variants(variants: &Vec<TokenStream>) -> (res: Result<Vec<Variant>, syn::Error>)
    ensures
        match res {
            Ok(read) => variants_from(all_kinds(all_tokens(variants@))) == Ok::<_, Texts>(
                all_plain(all_views(read@)),
            ) && forall|input: Seq<Token>| #[trigger]
                all_keep_places(all_tokens(variants@), input) ==> are_faithful_variants(
                    all_views(read@),
                    input,
                ),
            Err(e) => variants_from(all_kinds(all_tokens(variants@))) == Err::<
                Seq<VariantView<TokenKind>>,
                _,
            >(error_texts(e)),
        },
{
    let ghost inputs = all_kinds(all_tokens(variants@));
    let ghost read = |variant: Seq<TokenKind>| variant_from(variant);
    let mut res: Vec<Variant> = Vec::new();
    assert(all_plain(all_views(res@)) =~= Seq::<VariantView<TokenKind>>::empty());
    let mut i: usize = 0;
    while i < variants.len()
        invariant
            i <= variants.len(),
            inputs == all_kinds(all_tokens(variants@)),
            read == (|variant: Seq<TokenKind>| variant_from(variant)),
            collected(inputs.take(i as int), read) == Ok::<_, Texts>(all_plain(all_views(res@))),
            forall|input: Seq<Token>| #[trigger]
                all_keep_places(all_tokens(variants@), input) ==> are_faithful_variants(
                    all_views(res@),
                    input,
                ),
        decreases variants.len() - i,
    {
        assert(inputs[i as int] == kinds(tokens(variants@[i as int])));
        let ghost before = res@;
        match read_variant(&variants[i]) {
            Ok(variant) => {
                res.push(variant);
                proof {
                    lemma_collected_goes_on(inputs, read, i as int);
                    assert(all_views(res@) =~= all_views(before).push(variant@));
                    assert forall|input: Seq<Token>| #[trigger]
                        all_keep_places(all_tokens(variants@), input) implies are_faithful_variants(
                        all_views(before).push(variant@),
                        input,
                    ) by {
                        let own = all_tokens(variants@)[i as int];
                        assert(own == tokens(variants@[i as int]));
                        assert(keeps_places(own, input));
                        lemma_faithful_variant(variant@, own, input);
                        assert(are_faithful_variants(all_views(before), input));
                    }
                    assert(all_plain(all_views(res@)) =~= all_plain(all_views(before)).push(
                        variant@.plain(),
                    ));
                }
            },
            Err(e) => {
                proof {
                    lemma_collected_fails(inputs, read, i as int);
                }
                return Err(e);
            },
        }
        i += 1;
    }
    assert(inputs.take(i as int) =~= inputs);
    Ok(res)
}

/// What a structure is read as.
pub open spec fn struct_from(item: Seq<TokenKind>) -> Result<StructView<TokenKind>, Texts> {
    match parsed_struct(item) {
        Ok(raw) => match fields_from(raw.fields) {
            Ok(fields) => Ok(
                StructView {
                    attrs: raw.attrs,
                    ident: raw.ident,
                    generics: raw.generics,
                    fields,
                    body: raw.body,
                },
            ),
            Err(texts) => Err(texts),
        },
        Err(texts) => Err(texts),
    }
}

/// Reads a structure.
pub fn read_struct(item: &TokenStream) -> (res: Result<ItemStruct, syn::Error>)
    ensures
        match res {
            Ok(read) => struct_from(kinds(tokens(*item))) == Ok::<_, Texts>(read@.plain())
                && is_faithful_struct(read@, tokens(*item)),
            Err(e) => struct_from(kinds(tokens(*item))) == Err::<StructView<TokenKind>, _>(
                error_texts(e),
            ),
        },
{
    let raw = match parse_struct(item) {
        Ok(raw) => raw,
        Err(e) => return Err(e),
    };
    match read_fields(&raw.fields) {
        Ok(fields) => {
            proof {
                lemma_faithful_fields(fields@, tokens(raw.fields), tokens(*item));
            }
            Ok(
                ItemStruct {
                    attrs: raw.attrs,
                    ident: raw.ident,
                    generics: raw.generics,
                    fields,
                    body: raw.body,
                },
            )
        },
        Err(e) => Err(e),
    }
}

/// What an enum is read as.
pub open spec fn enum_from(item: Seq<TokenKind>) -> Result<EnumView<TokenKind>, Texts> {
    match parsed_enum(item) {
        Ok(raw) => match variants_from(raw.variants) {
            Ok(variants) => Ok(
                EnumView { attrs: raw.attrs, ident: raw.ident, variants, body: raw.body },
            ),
            Err(texts) => Err(texts),
        },
        Err(texts) => Err(texts),
    }
}

/// Reads an enum.
pub fn read_enum(item: &TokenStream) -> (res: Result<ItemEnum, syn::Error>)
    ensures
        match res {
            Ok(read) => enum_from(kinds(tokens(*item))) == Ok::<_, Texts>(read@.plain())
                && is_faithful_enum(read@, tokens(*item)),
            Err(e) => enum_from(kinds(tokens(*item))) == Err::<EnumView<TokenKind>, _>(
                error_texts(e),
            ),
        },
{
    let raw = match parse_enum(item) {
        Ok(raw) => raw,
        Err(e) => return Err(e),
    };
    assert(all_keep_places(all_tokens(raw.variants@), tokens(*item)));
    match read_variants(&raw.variants) {
        Ok(variants) => Ok(
            ItemEnum { attrs: raw.attrs, ident: raw.ident, variants, body: raw.body },
        ),
        Err(e) => Err(e),
    }
}

/// What an item is read as.
pub open spec fn item_from(item: Seq<TokenKind>) -> Result<ItemView<TokenKind>, Texts> {
    match parsed_kind(item) {
        Ok(ItemKindView::Struct) => match struct_from(item) {
            Ok(read) => Ok(ItemView::Struct(read)),
            Err(texts) => Err(texts),
        },
        Ok(ItemKindView::Enum) => match enum_from(item) {
            Ok(read) => Ok(ItemView::Enum(read)),
            Err(texts) => Err(texts),
        },
        Ok(ItemKindView::Other(other)) => Ok(ItemView::Other(other)),
        Err(texts) => Err(texts),
    }
}

/// Reads the item that the attribute stands on.
pub fn read_item(item: &TokenStream) -> (res: Result<Item, syn::Error>)
    ensures
        match res {
            Ok(read) => item_from(kinds(tokens(*item))) == Ok::<_, Texts>(read@.plain())
                && is_faithful(read@, tokens(*item)),
            Err(e) => item_from(kinds(tokens(*item))) == Err::<ItemView<TokenKind>, _>(
                error_texts(e),
            ),
        },
{
    match parse_kind(item) {
        Ok(ItemKind::Struct) => match read_struct(item) {
            Ok(read) => Ok(Item::Struct(read)),
            Err(e) => Err(e),
        },
        Ok(ItemKind::Enum) => match read_enum(item) {
            Ok(read) => Ok(Item::Enum(read)),
            Err(e) => Err(e),
        },
        Ok(ItemKind::Other(other)) => Ok(Item::Other(other)),
        Err(e) => Err(e),
    }
}

} // verus!
