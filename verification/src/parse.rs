//! What `syn` and `darling` make of tokens.
//!
//! Parsing goes by the kinds of the tokens alone, so each result is named as a function of those. A
//! result that holds tokens is named without their spans: where a parsed item lacks a separator,
//! `syn` adds it at the call site.

use crate::error::{error_spans, error_texts, Texts};
use crate::syntax::{
    all_plain, all_views, Form, FormView, Generics, GenericsView, Ident, IdentView, Meta,
    MetaView, Spanless, Value,
};
use crate::token::{
    all_come_from, all_kinds, all_tokens, concat, keeps_places, kinds, spans, tokens, Token, TokenKind,
};
use darling::ast::NestedMeta;
use darling::util::{path_to_string, Flag, Override};
use darling::FromMeta;
use proc_macro2::TokenStream;
use quote::ToTokens;
use syn::parse::Parser;
use vstd::prelude::*;

verus! {

/// Which kind of item the attribute stands on.
pub enum ItemKind {
    Struct,
    Enum,
    /// Anything else, as `syn` prints it.
    Other(TokenStream),
}

pub enum ItemKindView<T> {
    Struct,
    Enum,
    Other(Seq<T>),
}

impl View for ItemKind {
    type V = ItemKindView<Token>;

    open spec fn view(&self) -> ItemKindView<Token> {
        match *self {
            ItemKind::Struct => ItemKindView::Struct,
            ItemKind::Enum => ItemKindView::Enum,
            ItemKind::Other(item) => ItemKindView::Other(tokens(item)),
        }
    }
}

impl Spanless for ItemKindView<Token> {
    type Plain = ItemKindView<TokenKind>;

    open spec fn plain(self) -> ItemKindView<TokenKind> {
        match self {
            ItemKindView::Struct => ItemKindView::Struct,
            ItemKindView::Enum => ItemKindView::Enum,
            ItemKindView::Other(item) => ItemKindView::Other(kinds(item)),
        }
    }
}

/// What `syn` parses an item as.
pub uninterp spec fn parsed_kind(item: Seq<TokenKind>) -> Result<ItemKindView<TokenKind>, Texts>;

/// `syn::parse2::<syn::Item>`, of which only the kind of the item is kept.
#[verifier::external_body]
pub(crate) fn parse_kind(item: &TokenStream) -> (res: Result<ItemKind, syn::Error>)
    ensures
        match res {
            Ok(kind) => parsed_kind(kinds(tokens(*item))) == Ok::<_, Texts>(kind@.plain()),
            Err(e) => parsed_kind(kinds(tokens(*item))) == Err::<ItemKindView<TokenKind>, _>(
                error_texts(e),
            ),
        },
{
    Ok(match syn::parse2::<syn::Item>(item.clone())? {
        syn::Item::Struct(_) => ItemKind::Struct,
        syn::Item::Enum(_) => ItemKind::Enum,
        other => ItemKind::Other(other.into_token_stream()),
    })
}

/// A structure.
pub struct RawStruct {
    pub attrs: Vec<TokenStream>,
    pub ident: Ident,
    pub generics: Generics,
    pub fields: TokenStream,
    pub body: TokenStream,
}

pub struct RawStructView<T> {
    pub attrs: Seq<Seq<T>>,
    pub ident: IdentView<T>,
    pub generics: GenericsView<T>,
    pub fields: Seq<T>,
    pub body: Seq<T>,
}

impl View for RawStruct {
    type V = RawStructView<Token>;

    open spec fn view(&self) -> RawStructView<Token> {
        RawStructView {
            attrs: all_tokens(self.attrs@),
            ident: self.ident@,
            generics: self.generics@,
            fields: tokens(self.fields),
            body: tokens(self.body),
        }
    }
}

impl Spanless for RawStructView<Token> {
    type Plain = RawStructView<TokenKind>;

    open spec fn plain(self) -> RawStructView<TokenKind> {
        RawStructView {
            attrs: all_kinds(self.attrs),
            ident: self.ident.plain(),
            generics: self.generics.plain(),
            fields: kinds(self.fields),
            body: kinds(self.body),
        }
    }
}

/// Whether the parts of a structure stand where they stand in `input`.
pub open spec fn raw_struct_stands_in(item: RawStructView<Token>, input: Seq<Token>) -> bool {
    &&& keeps_places(concat(item.attrs) + item.body, input)
    &&& keeps_places(item.ident.tokens, input)
    &&& keeps_places(item.generics.impl_generics, input)
    &&& keeps_places(item.generics.ty_generics, input)
    &&& keeps_places(item.generics.where_clause, input)
    &&& keeps_places(item.fields, input)
}

/// What `syn` parses a structure as.
pub uninterp spec fn parsed_struct(item: Seq<TokenKind>) -> Result<
    RawStructView<TokenKind>,
    Texts,
>;

/// `syn::parse2::<syn::ItemStruct>` and `syn::Generics::split_for_impl`. The body is the parsed item
/// printed without its attributes. All that is printed stands where it stood, and what is added at
/// the call site. Nothing is claimed of where numbers stand.
#[verifier::external_body]
pub(crate) fn parse_struct(item: &TokenStream) -> (res: Result<RawStruct, syn::Error>)
    ensures
        match res {
            Ok(raw) => parsed_struct(kinds(tokens(*item))) == Ok::<_, Texts>(raw@.plain()),
            Err(e) => parsed_struct(kinds(tokens(*item))) == Err::<RawStructView<TokenKind>, _>(
                error_texts(e),
            ),
        },
        res is Ok ==> raw_struct_stands_in(res->Ok_0@, tokens(*item)),
{
    let mut item = syn::parse2::<syn::ItemStruct>(item.clone())?;
    let attrs = item.attrs.drain(..).map(ToTokens::into_token_stream).collect();
    let (impl_generics, ty_generics, where_clause) = item.generics.split_for_impl();
    let generics = Generics {
        impl_generics: impl_generics.to_token_stream(),
        ty_generics: ty_generics.to_token_stream(),
        where_clause: where_clause.to_token_stream(),
    };
    let ident = Ident { name: item.ident.to_string(), tokens: item.ident.to_token_stream() };
    let fields = item.fields.to_token_stream();
    Ok(RawStruct { attrs, ident, generics, fields, body: item.to_token_stream() })
}

/// An attribute: the whole, and the meta item in its brackets.
pub struct RawAttribute {
    pub tokens: TokenStream,
    pub meta: TokenStream,
}

pub struct RawAttributeView<T> {
    pub tokens: Seq<T>,
    pub meta: Seq<T>,
}

impl View for RawAttribute {
    type V = RawAttributeView<Token>;

    open spec fn view(&self) -> RawAttributeView<Token> {
        RawAttributeView { tokens: tokens(self.tokens), meta: tokens(self.meta) }
    }
}

impl Spanless for RawAttributeView<Token> {
    type Plain = RawAttributeView<TokenKind>;

    open spec fn plain(self) -> RawAttributeView<TokenKind> {
        RawAttributeView { tokens: kinds(self.tokens), meta: kinds(self.meta) }
    }
}

/// A field with a name.
pub struct RawField {
    pub attrs: Vec<RawAttribute>,
    pub ident: Ident,
    pub ty: TokenStream,
}

pub struct RawFieldView<T> {
    pub attrs: Seq<RawAttributeView<T>>,
    pub ident: IdentView<T>,
    pub ty: Seq<T>,
}

impl View for RawField {
    type V = RawFieldView<Token>;

    open spec fn view(&self) -> RawFieldView<Token> {
        RawFieldView { attrs: all_views(self.attrs@), ident: self.ident@, ty: tokens(self.ty) }
    }
}

impl Spanless for RawFieldView<Token> {
    type Plain = RawFieldView<TokenKind>;

    open spec fn plain(self) -> RawFieldView<TokenKind> {
        RawFieldView {
            attrs: all_plain(self.attrs),
            ident: self.ident.plain(),
            ty: kinds(self.ty),
        }
    }
}

/// How many fields `syn` parses tokens as, if it parses them as fields in parentheses.
pub uninterp spec fn parsed_count(fields: Seq<TokenKind>) -> Option<usize>;

/// `syn::parse2::<syn::FieldsUnnamed>`: the number of the fields.
#[verifier::external_body]
pub(crate) fn parse_count(fields: &TokenStream) -> (res: Option<usize>)
    ensures
        res == parsed_count(kinds(tokens(*fields))),
{
    Some(syn::parse2::<syn::FieldsUnnamed>(fields.clone()).ok()?.unnamed.len())
}

/// Whether the parts of an attribute stand where they stand in `input`.
pub open spec fn raw_attribute_stands_in(attr: RawAttributeView<Token>, input: Seq<Token>) -> bool {
    keeps_places(attr.tokens, input) && keeps_places(attr.meta, input)
}

/// [`raw_attribute_stands_in`] of all attributes.
pub open spec fn raw_attributes_stand_in(
    attrs: Seq<RawAttributeView<Token>>,
    input: Seq<Token>,
) -> bool {
    forall|i: int| 0 <= i < attrs.len() ==> raw_attribute_stands_in(#[trigger] attrs[i], input)
}

/// Whether the parts of a field stand where they stand in `input`.
pub open spec fn raw_field_stands_in(field: RawFieldView<Token>, input: Seq<Token>) -> bool {
    &&& raw_attributes_stand_in(field.attrs, input)
    &&& keeps_places(field.ident.tokens, input)
    &&& keeps_places(field.ty, input)
}

/// [`raw_field_stands_in`] of all fields.
pub open spec fn raw_fields_stand_in(fields: Seq<RawFieldView<Token>>, input: Seq<Token>) -> bool {
    forall|i: int| 0 <= i < fields.len() ==> raw_field_stands_in(#[trigger] fields[i], input)
}

/// What `syn` parses fields in braces as.
pub uninterp spec fn parsed_fields(fields: Seq<TokenKind>) -> Result<
    Seq<RawFieldView<TokenKind>>,
    Texts,
>;

/// `syn::parse2::<syn::FieldsNamed>`. Each of these fields has a name. What is printed of them stands
/// where it stood.
#[verifier::external_body]
pub(crate) fn parse_fields(fields: &TokenStream) -> (res: Result<Vec<RawField>, syn::Error>)
    ensures
        match res {
            Ok(raw) => parsed_fields(kinds(tokens(*fields))) == Ok::<_, Texts>(
                all_plain(all_views(raw@)),
            ),
            Err(e) => parsed_fields(kinds(tokens(*fields))) == Err::<
                Seq<RawFieldView<TokenKind>>,
                _,
            >(error_texts(e)),
        },
        res is Ok ==> raw_fields_stand_in(all_views(res->Ok_0@), tokens(*fields)),
{
    let attr = |a: &syn::Attribute| {
        RawAttribute { tokens: a.to_token_stream(), meta: a.meta.to_token_stream() }
    };
    let ident = |i: &syn::Ident| Ident { name: i.to_string(), tokens: i.to_token_stream() };
    let field = |f: &syn::Field| RawField {
        attrs: f.attrs.iter().map(attr).collect(),
        ident: f.ident.as_ref().map(ident).unwrap(),
        ty: f.ty.to_token_stream(),
    };
    Ok(syn::parse2::<syn::FieldsNamed>(fields.clone())?.named.iter().map(field).collect())
}

/// A variant of an enum.
pub struct RawVariant {
    pub attrs: Vec<RawAttribute>,
    pub ident: Ident,
    pub fields: TokenStream,
}

pub struct RawVariantView<T> {
    pub attrs: Seq<RawAttributeView<T>>,
    pub ident: IdentView<T>,
    pub fields: Seq<T>,
}

impl View for RawVariant {
    type V = RawVariantView<Token>;

    open spec fn view(&self) -> RawVariantView<Token> {
        RawVariantView {
            attrs: all_views(self.attrs@),
            ident: self.ident@,
            fields: tokens(self.fields),
        }
    }
}

impl Spanless for RawVariantView<Token> {
    type Plain = RawVariantView<TokenKind>;

    open spec fn plain(self) -> RawVariantView<TokenKind> {
        RawVariantView {
            attrs: all_plain(self.attrs),
            ident: self.ident.plain(),
            fields: kinds(self.fields),
        }
    }
}

/// Whether the parts of a variant stand where they stand in `input`.
pub open spec fn raw_variant_stands_in(variant: RawVariantView<Token>, input: Seq<Token>) -> bool {
    &&& raw_attributes_stand_in(variant.attrs, input)
    &&& keeps_places(variant.ident.tokens, input)
    &&& keeps_places(variant.fields, input)
}

/// What `syn` parses a variant of an enum as.
pub uninterp spec fn parsed_variant(variant: Seq<TokenKind>) -> Result<
    RawVariantView<TokenKind>,
    Texts,
>;

/// `syn::parse2::<syn::Variant>`. What is printed of it stands where it stood.
#[verifier::external_body]
pub(crate) fn parse_variant(variant: &TokenStream) -> (res: Result<RawVariant, syn::Error>)
    ensures
        match res {
            Ok(raw) => parsed_variant(kinds(tokens(*variant))) == Ok::<_, Texts>(raw@.plain()),
            Err(e) => parsed_variant(kinds(tokens(*variant))) == Err::<RawVariantView<TokenKind>, _>(
                error_texts(e),
            ),
        },
        res is Ok ==> raw_variant_stands_in(res->Ok_0@, tokens(*variant)),
{
    let attr = |a: &syn::Attribute| {
        RawAttribute { tokens: a.to_token_stream(), meta: a.meta.to_token_stream() }
    };
    let variant = syn::parse2::<syn::Variant>(variant.clone())?;
    let attrs = variant.attrs.iter().map(attr).collect();
    let ident = Ident { name: variant.ident.to_string(), tokens: variant.ident.to_token_stream() };
    Ok(RawVariant { attrs, ident, fields: variant.fields.to_token_stream() })
}

/// An enum.
pub struct RawEnum {
    pub attrs: Vec<TokenStream>,
    pub ident: Ident,
    pub variants: Vec<TokenStream>,
    pub body: TokenStream,
}

pub struct RawEnumView<T> {
    pub attrs: Seq<Seq<T>>,
    pub ident: IdentView<T>,
    pub variants: Seq<Seq<T>>,
    pub body: Seq<T>,
}

impl View for RawEnum {
    type V = RawEnumView<Token>;

    open spec fn view(&self) -> RawEnumView<Token> {
        RawEnumView {
            attrs: all_tokens(self.attrs@),
            ident: self.ident@,
            variants: all_tokens(self.variants@),
            body: tokens(self.body),
        }
    }
}

impl Spanless for RawEnumView<Token> {
    type Plain = RawEnumView<TokenKind>;

    open spec fn plain(self) -> RawEnumView<TokenKind> {
        RawEnumView {
            attrs: all_kinds(self.attrs),
            ident: self.ident.plain(),
            variants: all_kinds(self.variants),
            body: kinds(self.body),
        }
    }
}

/// Whether the parts of an enum stand where they stand in `input`.
pub open spec fn raw_enum_stands_in(item: RawEnumView<Token>, input: Seq<Token>) -> bool {
    &&& keeps_places(concat(item.attrs) + item.body, input)
    &&& keeps_places(item.ident.tokens, input)
    &&& forall|i: int|
        0 <= i < item.variants.len() ==> keeps_places(#[trigger] item.variants[i], input)
}

/// What `syn` parses an enum as.
pub uninterp spec fn parsed_enum(item: Seq<TokenKind>) -> Result<RawEnumView<TokenKind>, Texts>;

/// `syn::parse2::<syn::ItemEnum>`. The body is the parsed item printed without its attributes. All
/// that is printed stands where it stood, and what is added at the call site. Nothing is claimed of
/// where numbers stand.
#[verifier::external_body]
pub(crate) fn parse_enum(item: &TokenStream) -> (res: Result<RawEnum, syn::Error>)
    ensures
        match res {
            Ok(raw) => parsed_enum(kinds(tokens(*item))) == Ok::<_, Texts>(raw@.plain()),
            Err(e) => parsed_enum(kinds(tokens(*item))) == Err::<RawEnumView<TokenKind>, _>(
                error_texts(e),
            ),
        },
        res is Ok ==> raw_enum_stands_in(res->Ok_0@, tokens(*item)),
{
    let mut item = syn::parse2::<syn::ItemEnum>(item.clone())?;
    Ok(RawEnum {
        attrs: item.attrs.drain(..).map(ToTokens::into_token_stream).collect(),
        ident: Ident { name: item.ident.to_string(), tokens: item.ident.to_token_stream() },
        variants: item.variants.iter().map(ToTokens::to_token_stream).collect(),
        body: item.to_token_stream(),
    })
}

/// Whether what follows the path of a meta item stands where it stands in `input`.
pub open spec fn form_stands_in(form: FormView<Token>, input: Seq<Token>) -> bool {
    match form {
        FormView::Word => true,
        FormView::List(list) => keeps_places(list, input),
        FormView::NameValue(value) => keeps_places(value.tokens(), input),
    }
}

/// What `syn` parses a meta item as.
pub uninterp spec fn parsed_meta(meta: Seq<TokenKind>) -> Result<MetaView<TokenKind>, Texts>;

/// `syn::parse2::<syn::Meta>`, with its path by `syn::Path::get_ident`. Its list, or its value, stands
/// where it stood.
#[verifier::external_body]
pub(crate) fn parse_meta(meta: &TokenStream) -> (res: Result<Meta, syn::Error>)
    ensures
        match res {
            Ok(parsed) => parsed_meta(kinds(tokens(*meta))) == Ok::<_, Texts>(parsed@.plain()),
            Err(e) => parsed_meta(kinds(tokens(*meta))) == Err::<MetaView<TokenKind>, _>(
                error_texts(e),
            ),
        },
        res is Ok ==> form_stands_in(res->Ok_0@.form, tokens(*meta)),
{
    let value = |v: &syn::Expr| match v {
        syn::Expr::Lit(syn::ExprLit { lit: syn::Lit::Str(s), .. }) => {
            Value::Str { text: s.value(), tokens: s.to_token_stream() }
        },
        other => Value::Other(other.to_token_stream()),
    };
    let meta = syn::parse2::<syn::Meta>(meta.clone())?;
    let form = match &meta {
        syn::Meta::Path(_) => Form::Word,
        syn::Meta::List(list) => Form::List(list.tokens.clone()),
        syn::Meta::NameValue(pair) => Form::NameValue(value(&pair.value)),
    };
    Ok(Meta { ident: meta.path().get_ident().map(|i| i.to_string()), form })
}

/// The meta items that `syn` parses the list of an attribute into, if it does.
pub uninterp spec fn parsed_metas(list: Seq<TokenKind>) -> Option<Seq<Seq<TokenKind>>>;

/// `syn::punctuated::Punctuated::parse_terminated` for meta items with commas between them: each of
/// the items as it is printed.
#[verifier::external_body]
pub(crate) fn parse_metas(list: &TokenStream) -> (res: Option<Vec<TokenStream>>)
    ensures
        match res {
            Some(metas) => parsed_metas(kinds(tokens(*list))) == Some(all_kinds(all_tokens(metas@))),
            None => parsed_metas(kinds(tokens(*list))) is None,
        },
{
    let parser = syn::punctuated::Punctuated::<syn::Meta, syn::token::Comma>::parse_terminated;
    let metas = parser.parse2(list.clone()).ok()?;
    Some(metas.iter().map(ToTokens::to_token_stream).collect())
}

/// What follows the path of an argument.
pub enum RawArgForm {
    /// Nothing.
    Word,
    /// Tokens in brackets.
    List(TokenStream),
    /// `=` and a value.
    NameValue,
}

pub enum RawArgFormView<T> {
    Word,
    List(Seq<T>),
    NameValue,
}

impl View for RawArgForm {
    type V = RawArgFormView<Token>;

    open spec fn view(&self) -> RawArgFormView<Token> {
        match *self {
            RawArgForm::Word => RawArgFormView::Word,
            RawArgForm::List(list) => RawArgFormView::List(tokens(list)),
            RawArgForm::NameValue => RawArgFormView::NameValue,
        }
    }
}

impl Spanless for RawArgFormView<Token> {
    type Plain = RawArgFormView<TokenKind>;

    open spec fn plain(self) -> RawArgFormView<TokenKind> {
        match self {
            RawArgFormView::Word => RawArgFormView::Word,
            RawArgFormView::List(list) => RawArgFormView::List(kinds(list)),
            RawArgFormView::NameValue => RawArgFormView::NameValue,
        }
    }
}

/// An argument of an attribute.
pub enum RawArg {
    /// A meta item: the identifiers of its path with `::` between them, what follows the path, and
    /// the whole item.
    Named { name: String, form: RawArgForm, tokens: TokenStream },
    /// A literal.
    Lit(TokenStream),
}

pub enum RawArgView<T> {
    Named { name: Seq<char>, form: RawArgFormView<T>, tokens: Seq<T> },
    Lit(Seq<T>),
}

impl View for RawArg {
    type V = RawArgView<Token>;

    open spec fn view(&self) -> RawArgView<Token> {
        match *self {
            RawArg::Named { name, form, tokens: item } => RawArgView::Named {
                name: name@,
                form: form@,
                tokens: tokens(item),
            },
            RawArg::Lit(literal) => RawArgView::Lit(tokens(literal)),
        }
    }
}

impl Spanless for RawArgView<Token> {
    type Plain = RawArgView<TokenKind>;

    open spec fn plain(self) -> RawArgView<TokenKind> {
        match self {
            RawArgView::Named { name, form, tokens } => RawArgView::Named {
                name,
                form: form.plain(),
                tokens: kinds(tokens),
            },
            RawArgView::Lit(literal) => RawArgView::Lit(kinds(literal)),
        }
    }
}

/// The arguments that `darling` parses the list of an attribute into.
pub uninterp spec fn parsed_args(list: Seq<TokenKind>) -> Result<Seq<RawArgView<TokenKind>>, Texts>;

/// `darling::ast::NestedMeta::parse_meta_list`, with the name that `darling::util::path_to_string`
/// gives to the path of each meta item.
#[verifier::external_body]
pub(crate) fn parse_args(list: &TokenStream) -> (res: Result<Vec<RawArg>, syn::Error>)
    ensures
        match res {
            Ok(args) => parsed_args(kinds(tokens(*list))) == Ok::<_, Texts>(
                all_plain(all_views(args@)),
            ),
            Err(e) => parsed_args(kinds(tokens(*list))) == Err::<Seq<RawArgView<TokenKind>>, _>(
                error_texts(e),
            ),
        },
{
    let form = |meta: &syn::Meta| match meta {
        syn::Meta::Path(_) => RawArgForm::Word,
        syn::Meta::List(list) => RawArgForm::List(list.tokens.clone()),
        syn::Meta::NameValue(_) => RawArgForm::NameValue,
    };
    let arg = |arg: &NestedMeta| match arg {
        NestedMeta::Lit(literal) => RawArg::Lit(literal.to_token_stream()),
        NestedMeta::Meta(meta) => RawArg::Named {
            name: path_to_string(meta.path()),
            form: form(meta),
            tokens: meta.to_token_stream(),
        },
    };
    Ok(NestedMeta::parse_meta_list(list.clone())?.iter().map(arg).collect())
}

/// A bare word: an identifier that is not a literal.
pub open spec fn is_bare(arg: Seq<TokenKind>) -> bool {
    &&& arg.len() == 1
    &&& arg[0] matches TokenKind::Ident(name) && name != "true"@ && name != "false"@
}

/// `name = value`, with a value of one token.
pub open spec fn assigns(arg: Seq<TokenKind>, value: TokenKind) -> bool {
    &&& arg.len() == 3
    &&& arg[0] is Ident
    &&& arg[1] == TokenKind::Punct('=', false)
    &&& arg[2] == value
}

/// Whether `darling` parses a list into arguments of which `i` is one.
pub open spec fn has_arg(list: Seq<TokenKind>, i: int) -> bool {
    parsed_args(list) matches Ok(args) && 0 <= i < args.len()
}

/// How an argument in a list is printed.
pub open spec fn printed_arg(list: Seq<TokenKind>, i: int) -> Seq<TokenKind> {
    match parsed_args(list)->Ok_0[i] {
        RawArgView::Named { tokens, .. } => tokens,
        RawArgView::Lit(literal) => literal,
    }
}

/// What `darling` reads an argument in a list as where a truth value is asked for.
pub uninterp spec fn bool_from(list: Seq<TokenKind>, i: int) -> Result<bool, Texts>;

/// `darling::FromMeta` for `bool`, on an argument that `darling::ast::NestedMeta::parse_meta_list`
/// gives. A bare word is true; a literal, or the text of a string literal, is what it says.
#[verifier::external_body]
pub(crate) fn bool_from_arg(list: &TokenStream, i: usize) -> (res: Result<bool, syn::Error>)
    requires
        has_arg(kinds(tokens(*list)), i as int),
    ensures
        match res {
            Ok(value) => bool_from(kinds(tokens(*list)), i as int) == Ok::<_, Texts>(value),
            Err(e) => bool_from(kinds(tokens(*list)), i as int) == Err::<bool, _>(error_texts(e)),
        },
        is_bare(printed_arg(kinds(tokens(*list)), i as int)) ==> res is Ok && res->Ok_0,
        assigns(printed_arg(kinds(tokens(*list)), i as int), TokenKind::Ident("true"@)) ==> res is Ok
            && res->Ok_0,
        assigns(printed_arg(kinds(tokens(*list)), i as int), TokenKind::Ident("false"@)) ==> res is Ok
            && !res->Ok_0,
        assigns(printed_arg(kinds(tokens(*list)), i as int), TokenKind::Str("true"@)) ==> res is Ok
            && res->Ok_0,
        assigns(printed_arg(kinds(tokens(*list)), i as int), TokenKind::Str("false"@)) ==> res is Ok
            && !res->Ok_0,
{
    Ok(bool::from_nested_meta(&NestedMeta::parse_meta_list(list.clone())?[i])?)
}

/// What `darling` reads an argument in a list as where a path is asked for.
pub uninterp spec fn path_from(list: Seq<TokenKind>, i: int) -> Result<Seq<TokenKind>, Texts>;

/// `darling::FromMeta` for `syn::Path`, on an argument that
/// `darling::ast::NestedMeta::parse_meta_list` gives: the tokens of the path. They stand where they
/// stood, or where the string literal stands that the path is written in.
#[verifier::external_body]
pub(crate) fn path_from_arg(list: &TokenStream, i: usize) -> (res: Result<TokenStream, syn::Error>)
    requires
        has_arg(kinds(tokens(*list)), i as int),
    ensures
        match res {
            Ok(path) => path_from(kinds(tokens(*list)), i as int) == Ok::<_, Texts>(
                kinds(tokens(path)),
            ),
            Err(e) => path_from(kinds(tokens(*list)), i as int) == Err::<Seq<TokenKind>, _>(
                error_texts(e),
            ),
        },
        res is Ok ==> all_come_from(tokens(res->Ok_0), tokens(*list)),
{
    let args = NestedMeta::parse_meta_list(list.clone())?;
    Ok(syn::Path::from_nested_meta(&args[i])?.into_token_stream())
}

/// What `darling` reads an argument in a list as where a path can be given or inherited: `None` is
/// inherited.
pub uninterp spec fn override_from(list: Seq<TokenKind>, i: int) -> Result<
    Option<Seq<TokenKind>>,
    Texts,
>;

/// `darling::FromMeta` for `darling::util::Override<syn::Path>`, on an argument that
/// `darling::ast::NestedMeta::parse_meta_list` gives, and its `explicit`: the tokens of an explicit
/// path, which stand where they stood or where the string literal stands that the path is written in.
/// A bare word inherits.
#[verifier::external_body]
pub(crate) fn override_from_arg(list: &TokenStream, i: usize) -> (res: Result<
    Option<TokenStream>,
    syn::Error,
>)
    requires
        has_arg(kinds(tokens(*list)), i as int),
    ensures
        match res {
            Ok(Some(path)) => override_from(kinds(tokens(*list)), i as int) == Ok::<_, Texts>(
                Some(kinds(tokens(path))),
            ),
            Ok(None) => override_from(kinds(tokens(*list)), i as int) == Ok::<_, Texts>(
                None::<Seq<TokenKind>>,
            ),
            Err(e) => override_from(kinds(tokens(*list)), i as int) == Err::<
                Option<Seq<TokenKind>>,
                _,
            >(error_texts(e)),
        },
        is_bare(printed_arg(kinds(tokens(*list)), i as int)) ==> res is Ok && res->Ok_0 is None,
        res is Ok && res->Ok_0 is Some ==> all_come_from(tokens(res->Ok_0->0), tokens(*list)),
{
    let args = NestedMeta::parse_meta_list(list.clone())?;
    let path = Override::<syn::Path>::from_nested_meta(&args[i])?;
    Ok(path.explicit().map(ToTokens::into_token_stream))
}

/// Whether an argument is no bare word, and no word with an empty list.
pub open spec fn is_no_flag(list: Seq<TokenKind>, i: int) -> bool {
    parsed_args(list)->Ok_0[i] matches RawArgView::Named { form, .. } && match form {
        RawArgFormView::Word => false,
        RawArgFormView::List(inner) => inner.len() > 0,
        RawArgFormView::NameValue => true,
    }
}

/// Why `darling` rejects an argument in a list where a bare word is asked for.
pub uninterp spec fn flag_rejection(list: Seq<TokenKind>, i: int) -> Texts;

/// `darling::FromMeta` for `darling::util::Flag`, on an argument that
/// `darling::ast::NestedMeta::parse_meta_list` gives. It rejects all but a bare word. On an empty
/// list it panics.
#[verifier::external_body]
pub(crate) fn reject_flag(list: &TokenStream, i: usize) -> (e: syn::Error)
    requires
        has_arg(kinds(tokens(*list)), i as int),
        is_no_flag(kinds(tokens(*list)), i as int),
    ensures
        error_texts(e) == flag_rejection(kinds(tokens(*list)), i as int),
{
    match NestedMeta::parse_meta_list(list.clone()) {
        Ok(args) => Flag::from_nested_meta(&args[i]).unwrap_err().into(),
        Err(e) => e,
    }
}

/// Why `darling` rejects a meta item with a value where none can be given.
pub uninterp spec fn value_rejection(meta: Seq<TokenKind>) -> Texts;

/// `darling::FromMeta` on a meta item with a value, where `from_expr` and what it calls are not
/// overridden, as in the impl for `()`: every value is rejected.
#[verifier::external_body]
pub(crate) fn reject_value(meta: &TokenStream) -> (e: syn::Error)
    requires
        parsed_meta(kinds(tokens(*meta))) matches Ok(meta) && meta.form is NameValue,
    ensures
        error_texts(e) == value_rejection(kinds(tokens(*meta))),
{
    match syn::parse2(meta.clone()) {
        Ok(meta) => <()>::from_meta(&meta).unwrap_err().into(),
        Err(e) => e,
    }
}

/// The text about a meta item of a form that is not accepted.
pub open spec fn format_text(format: Seq<char>) -> Seq<char> {
    "Unexpected meta-item format `"@ + format + "`"@
}

/// `darling::Error::unsupported_format` and `with_span`, as a `syn::Error`: one message, which points
/// at the blamed tokens taken together.
#[verifier::external_body]
pub(crate) fn unsupported_format(format: &str, blamed: &TokenStream) -> (e: syn::Error)
    ensures
        error_texts(e) == seq![format_text(format@)],
        error_spans(e).len() == 1,
        spans(tokens(*blamed), error_spans(e)[0]),
{
    darling::Error::unsupported_format(format).with_span(blamed).into()
}

/// The text about an argument that is given twice.
pub open spec fn duplicate_text(name: Seq<char>) -> Seq<char> {
    "Duplicate field `"@ + name + "`"@
}

/// `darling::Error::duplicate_field` and `with_span`, as a `syn::Error`: one message, which points at
/// the blamed tokens taken together.
#[verifier::external_body]
pub(crate) fn duplicate_field(name: &str, blamed: &TokenStream) -> (e: syn::Error)
    ensures
        error_texts(e) == seq![duplicate_text(name@)],
        error_spans(e).len() == 1,
        spans(tokens(*blamed), error_spans(e)[0]),
{
    darling::Error::duplicate_field(name).with_span(blamed).into()
}

/// The text about an argument that is not among the known ones. It suggests the most similar of
/// these, or lists them.
pub uninterp spec fn unknown_text(name: Seq<char>, known: Seq<Seq<char>>) -> Seq<char>;

/// `darling::Error::unknown_field_with_alts` and `with_span`, as a `syn::Error`: one message, which
/// points at the blamed tokens taken together.
#[verifier::external_body]
pub(crate) fn unknown_field(name: &str, known: &Vec<String>, blamed: &TokenStream) -> (e: syn::Error)
    ensures
        error_texts(e) == seq![unknown_text(name@, all_views(known@))],
        error_spans(e).len() == 1,
        spans(tokens(*blamed), error_spans(e)[0]),
{
    darling::Error::unknown_field_with_alts(name, known).with_span(blamed).into()
}

/// The length in a type that `syn` parses as an array type.
pub uninterp spec fn parsed_array_len(ty: Seq<TokenKind>) -> Option<Seq<TokenKind>>;

/// `syn::parse2::<syn::Type>`: the tokens of the length, of an array type.
#[verifier::external_body]
pub(crate) fn parse_array_len(ty: &TokenStream) -> (res: Option<TokenStream>)
    ensures
        match res {
            Some(length) => parsed_array_len(kinds(tokens(*ty))) == Some(kinds(tokens(length))),
            None => parsed_array_len(kinds(tokens(*ty))) is None,
        },
{
    match syn::parse2(ty.clone()) {
        Ok(syn::Type::Array(array)) => Some(array.len.into_token_stream()),
        _ => None,
    }
}

/// An expression for the length of an array, one step into it.
pub enum RawLength {
    /// A cast of the operand with these tokens.
    Cast(TokenStream),
    /// An integer literal, by its value where 64 bits hold it.
    Int(Option<u64>),
    /// Anything else.
    Other,
}

pub enum RawLengthView<T> {
    Cast(Seq<T>),
    Int(Option<u64>),
    Other,
}

impl View for RawLength {
    type V = RawLengthView<Token>;

    open spec fn view(&self) -> RawLengthView<Token> {
        match *self {
            RawLength::Cast(operand) => RawLengthView::Cast(tokens(operand)),
            RawLength::Int(value) => RawLengthView::Int(value),
            RawLength::Other => RawLengthView::Other,
        }
    }
}

impl Spanless for RawLengthView<Token> {
    type Plain = RawLengthView<TokenKind>;

    open spec fn plain(self) -> RawLengthView<TokenKind> {
        match self {
            RawLengthView::Cast(operand) => RawLengthView::Cast(kinds(operand)),
            RawLengthView::Int(value) => RawLengthView::Int(value),
            RawLengthView::Other => RawLengthView::Other,
        }
    }
}

/// How often the keyword `as` occurs.
pub open spec fn count_as(tokens: Seq<TokenKind>) -> nat
    decreases tokens.len(),
{
    if tokens.len() == 0 {
        0
    } else {
        count_as(tokens.drop_last()) + (if tokens.last() == TokenKind::Ident("as"@) {
            1nat
        } else {
            0
        })
    }
}

/// What `syn` parses the length of an array as.
pub uninterp spec fn parsed_length(length: Seq<TokenKind>) -> RawLengthView<TokenKind>;

/// `syn::parse2::<syn::Expr>` and `syn::LitInt::base10_parse`. The keyword of a cast stands outside
/// of its operand.
#[verifier::external_body]
pub(crate) fn parse_length(length: &TokenStream) -> (res: RawLength)
    ensures
        parsed_length(kinds(tokens(*length))) == res@.plain(),
        res matches RawLength::Cast(operand) ==> count_as(kinds(tokens(operand))) < count_as(
            kinds(tokens(*length)),
        ),
{
    match syn::parse2(length.clone()) {
        Ok(syn::Expr::Cast(cast)) => RawLength::Cast(cast.expr.into_token_stream()),
        Ok(syn::Expr::Lit(syn::ExprLit { lit: syn::Lit::Int(literal), .. })) => {
            RawLength::Int(literal.base10_parse().ok())
        },
        _ => RawLength::Other,
    }
}

} // verus!
