//! The items that settings are declared by, as far as their expansion looks at them.
//!
//! Each type has a view over tokens `T`: with their spans ([`Token`]), as the type itself has it, or
//! without ([`TokenKind`]), which is what parsing goes by.

use crate::error::{error_texts, Texts};
use crate::token::{all_kinds, all_tokens, kinds, tokens, Located, Token, TokenKind};
use proc_macro2::{Span, TokenStream};
use vstd::prelude::*;

verus! {

/// A view that can be stripped of spans.
pub trait Spanless: Sized {
    type Plain;

    spec fn plain(self) -> Self::Plain;
}

/// The elements of a sequence, each stripped of spans.
pub open spec fn all_plain<V: Spanless>(views: Seq<V>) -> Seq<V::Plain> {
    views.map_values(|view: V| view.plain())
}

/// The views of the elements of a sequence.
pub open spec fn all_views<T: View>(values: Seq<T>) -> Seq<T::V> {
    values.map_values(|value: T| value@)
}

/// The view of a value, if there is one.
pub open spec fn option_view<T: View>(value: Option<T>) -> Option<T::V> {
    match value {
        Some(value) => Some(value@),
        None => None,
    }
}

/// A value stripped of spans, if there is one.
pub open spec fn option_plain<V: Spanless>(view: Option<V>) -> Option<V::Plain> {
    match view {
        Some(view) => Some(view.plain()),
        None => None,
    }
}

/// An identifier, as text and as a token.
pub struct Ident {
    pub name: String,
    pub tokens: TokenStream,
}

pub struct IdentView<T> {
    pub name: Seq<char>,
    pub tokens: Seq<T>,
}

impl View for Ident {
    type V = IdentView<Token>;

    open spec fn view(&self) -> IdentView<Token> {
        IdentView { name: self.name@, tokens: tokens(self.tokens) }
    }
}

impl Spanless for IdentView<Token> {
    type Plain = IdentView<TokenKind>;

    open spec fn plain(self) -> IdentView<TokenKind> {
        IdentView { name: self.name, tokens: kinds(self.tokens) }
    }
}

/// The value in `name = value`.
pub enum Value {
    /// A string literal: the text it denotes and the literal itself.
    Str { text: String, tokens: TokenStream },
    /// Any other expression.
    Other(TokenStream),
}

pub enum ValueView<T> {
    Str { text: Seq<char>, tokens: Seq<T> },
    Other(Seq<T>),
}

impl View for Value {
    type V = ValueView<Token>;

    open spec fn view(&self) -> ValueView<Token> {
        match *self {
            Value::Str { text, tokens: literal } => ValueView::Str {
                text: text@,
                tokens: tokens(literal),
            },
            Value::Other(value) => ValueView::Other(tokens(value)),
        }
    }
}

impl Spanless for ValueView<Token> {
    type Plain = ValueView<TokenKind>;

    open spec fn plain(self) -> ValueView<TokenKind> {
        match self {
            ValueView::Str { text, tokens } => ValueView::Str { text, tokens: kinds(tokens) },
            ValueView::Other(tokens) => ValueView::Other(kinds(tokens)),
        }
    }
}

impl<T> ValueView<T> {
    /// The whole value.
    pub open spec fn tokens(self) -> Seq<T> {
        match self {
            ValueView::Str { tokens, .. } => tokens,
            ValueView::Other(tokens) => tokens,
        }
    }
}

/// What follows the path of a meta item.
pub enum Form {
    /// Nothing.
    Word,
    /// Tokens in brackets.
    List(TokenStream),
    /// `= value`
    NameValue(Value),
}

pub enum FormView<T> {
    Word,
    List(Seq<T>),
    NameValue(ValueView<T>),
}

impl View for Form {
    type V = FormView<Token>;

    open spec fn view(&self) -> FormView<Token> {
        match *self {
            Form::Word => FormView::Word,
            Form::List(list) => FormView::List(tokens(list)),
            Form::NameValue(value) => FormView::NameValue(value@),
        }
    }
}

impl Spanless for FormView<Token> {
    type Plain = FormView<TokenKind>;

    open spec fn plain(self) -> FormView<TokenKind> {
        match self {
            FormView::Word => FormView::Word,
            FormView::List(list) => FormView::List(kinds(list)),
            FormView::NameValue(value) => FormView::NameValue(value.plain()),
        }
    }
}

/// A meta item: the content of an attribute, or an element of an attribute's list.
pub struct Meta {
    /// The path, where it is a single identifier.
    pub ident: Option<String>,
    pub form: Form,
}

pub struct MetaView<T> {
    pub ident: Option<Seq<char>>,
    pub form: FormView<T>,
}

impl View for Meta {
    type V = MetaView<Token>;

    open spec fn view(&self) -> MetaView<Token> {
        MetaView { ident: option_view(self.ident), form: self.form@ }
    }
}

impl Spanless for MetaView<Token> {
    type Plain = MetaView<TokenKind>;

    open spec fn plain(self) -> MetaView<TokenKind> {
        MetaView { ident: self.ident, form: self.form.plain() }
    }
}

impl<T> MetaView<T> {
    /// Whether the path is the identifier `name`.
    pub open spec fn is(self, name: &str) -> bool {
        self.ident == Some(name@)
    }
}

impl Meta {
    /// Whether the path is the identifier `name`.
    pub fn is(&self, name: &str) -> (res: bool)
        ensures
            res == self@.is(name),
    {
        match &self.ident {
            Some(ident) => *ident == name.to_owned(),
            None => false,
        }
    }
}

/// A meta item in a list.
pub struct ListedMeta {
    pub meta: Meta,
    /// The meta items in its own list, where it has one that can be read as such.
    pub metas: Option<Vec<Meta>>,
}

pub struct ListedMetaView<T> {
    pub meta: MetaView<T>,
    pub metas: Option<Seq<MetaView<T>>>,
}

impl View for ListedMeta {
    type V = ListedMetaView<Token>;

    open spec fn view(&self) -> ListedMetaView<Token> {
        ListedMetaView {
            meta: self.meta@,
            metas: match self.metas {
                Some(metas) => Some(all_views(metas@)),
                None => None,
            },
        }
    }
}

impl Spanless for ListedMetaView<Token> {
    type Plain = ListedMetaView<TokenKind>;

    open spec fn plain(self) -> ListedMetaView<TokenKind> {
        ListedMetaView {
            meta: self.meta.plain(),
            metas: match self.metas {
                Some(metas) => Some(all_plain(metas)),
                None => None,
            },
        }
    }
}

/// A meta item in the list of an attribute.
pub struct AttrMeta {
    pub listed: ListedMeta,
    /// The meta items in its own list, each with those in its list in turn.
    pub inner: Option<Vec<ListedMeta>>,
}

pub struct AttrMetaView<T> {
    pub listed: ListedMetaView<T>,
    pub inner: Option<Seq<ListedMetaView<T>>>,
}

impl View for AttrMeta {
    type V = AttrMetaView<Token>;

    open spec fn view(&self) -> AttrMetaView<Token> {
        AttrMetaView {
            listed: self.listed@,
            inner: match self.inner {
                Some(metas) => Some(all_views(metas@)),
                None => None,
            },
        }
    }
}

impl Spanless for AttrMetaView<Token> {
    type Plain = AttrMetaView<TokenKind>;

    open spec fn plain(self) -> AttrMetaView<TokenKind> {
        AttrMetaView {
            listed: self.listed.plain(),
            inner: match self.inner {
                Some(metas) => Some(all_plain(metas)),
                None => None,
            },
        }
    }
}

/// What an argument is where a bare word is asked for.
pub enum Flag {
    /// A bare word.
    Word,
    /// A word with an empty list.
    EmptyList,
    /// Anything else, with the reason why it is rejected.
    Rejected(syn::Error),
}

pub enum FlagView {
    Word,
    EmptyList,
    Rejected(Texts),
}

impl View for Flag {
    type V = FlagView;

    open spec fn view(&self) -> FlagView {
        match *self {
            Flag::Word => FlagView::Word,
            Flag::EmptyList => FlagView::EmptyList,
            Flag::Rejected(e) => FlagView::Rejected(error_texts(e)),
        }
    }
}

/// A meta item among the arguments of an attribute, with what it is read as where a value of some
/// type is asked for.
pub struct NamedArg {
    /// The identifiers of the path, with `::` between them.
    pub name: String,
    /// The whole item.
    pub tokens: TokenStream,
    pub flag: Flag,
    /// As a truth value.
    pub boolean: Result<bool, syn::Error>,
    /// As a path.
    pub path: Result<TokenStream, syn::Error>,
    /// As a path that may be left out.
    pub optional_path: Result<Option<TokenStream>, syn::Error>,
}

pub struct NamedArgView<T> {
    pub name: Seq<char>,
    pub tokens: Seq<T>,
    pub flag: FlagView,
    pub boolean: Result<bool, Texts>,
    pub path: Result<Seq<T>, Texts>,
    pub optional_path: Result<Option<Seq<T>>, Texts>,
}

impl View for NamedArg {
    type V = NamedArgView<Token>;

    open spec fn view(&self) -> NamedArgView<Token> {
        NamedArgView {
            name: self.name@,
            tokens: tokens(self.tokens),
            flag: self.flag@,
            boolean: match self.boolean {
                Ok(value) => Ok(value),
                Err(e) => Err(error_texts(e)),
            },
            path: match self.path {
                Ok(path) => Ok(tokens(path)),
                Err(e) => Err(error_texts(e)),
            },
            optional_path: match self.optional_path {
                Ok(Some(path)) => Ok(Some(tokens(path))),
                Ok(None) => Ok(None),
                Err(e) => Err(error_texts(e)),
            },
        }
    }
}

impl Spanless for NamedArgView<Token> {
    type Plain = NamedArgView<TokenKind>;

    open spec fn plain(self) -> NamedArgView<TokenKind> {
        NamedArgView {
            name: self.name,
            tokens: kinds(self.tokens),
            flag: self.flag,
            boolean: self.boolean,
            path: match self.path {
                Ok(path) => Ok(kinds(path)),
                Err(texts) => Err(texts),
            },
            optional_path: match self.optional_path {
                Ok(Some(path)) => Ok(Some(kinds(path))),
                Ok(None) => Ok(None),
                Err(texts) => Err(texts),
            },
        }
    }
}

/// An argument of an attribute.
pub enum Arg {
    Named(NamedArg),
    /// A literal.
    Lit(TokenStream),
}

pub enum ArgView<T> {
    Named(NamedArgView<T>),
    Lit(Seq<T>),
}

impl View for Arg {
    type V = ArgView<Token>;

    open spec fn view(&self) -> ArgView<Token> {
        match *self {
            Arg::Named(arg) => ArgView::Named(arg@),
            Arg::Lit(literal) => ArgView::Lit(tokens(literal)),
        }
    }
}

impl Spanless for ArgView<Token> {
    type Plain = ArgView<TokenKind>;

    open spec fn plain(self) -> ArgView<TokenKind> {
        match self {
            ArgView::Named(arg) => ArgView::Named(arg.plain()),
            ArgView::Lit(literal) => ArgView::Lit(kinds(literal)),
        }
    }
}

/// An attribute.
pub struct Attribute {
    /// The whole attribute.
    pub tokens: TokenStream,
    pub meta: Meta,
    /// The arguments in its list, or why it has none that can be read as such.
    pub args: Result<Vec<Arg>, syn::Error>,
    /// The meta items in its list, where it has one that can be read as such.
    pub metas: Option<Vec<AttrMeta>>,
}

pub struct AttributeView<T> {
    pub tokens: Seq<T>,
    pub meta: MetaView<T>,
    pub args: Result<Seq<ArgView<T>>, Texts>,
    pub metas: Option<Seq<AttrMetaView<T>>>,
}

impl View for Attribute {
    type V = AttributeView<Token>;

    open spec fn view(&self) -> AttributeView<Token> {
        AttributeView {
            tokens: tokens(self.tokens),
            meta: self.meta@,
            args: match self.args {
                Ok(args) => Ok(all_views(args@)),
                Err(e) => Err(error_texts(e)),
            },
            metas: match self.metas {
                Some(metas) => Some(all_views(metas@)),
                None => None,
            },
        }
    }
}

impl Spanless for AttributeView<Token> {
    type Plain = AttributeView<TokenKind>;

    open spec fn plain(self) -> AttributeView<TokenKind> {
        AttributeView {
            tokens: kinds(self.tokens),
            meta: self.meta.plain(),
            args: match self.args {
                Ok(args) => Ok(all_plain(args)),
                Err(texts) => Err(texts),
            },
            metas: match self.metas {
                Some(metas) => Some(all_plain(metas)),
                None => None,
            },
        }
    }
}

/// The length of an array type.
pub enum Length {
    /// A cast, of which only the operand is kept.
    Cast(Box<Length>),
    /// An integer literal, by its value where 64 bits hold it.
    Int(Option<u64>),
    /// Any other expression.
    Other,
}

pub enum LengthView {
    Cast(Box<LengthView>),
    Int(Option<u64>),
    Other,
}

impl Length {
    pub open spec fn model(self) -> LengthView
        decreases self,
    {
        match self {
            Length::Cast(operand) => LengthView::Cast(Box::new((*operand).model())),
            Length::Int(value) => LengthView::Int(value),
            Length::Other => LengthView::Other,
        }
    }
}

impl View for Length {
    type V = LengthView;

    open spec fn view(&self) -> LengthView {
        self.model()
    }
}

/// The type of a field.
pub struct Type {
    pub tokens: TokenStream,
    /// Where it stands.
    pub span: Span,
    /// The length, of an array type.
    pub array_len: Option<Length>,
}

pub struct TypeView<T: Located> {
    pub tokens: Seq<T>,
    pub span: T::Place,
    pub array_len: Option<LengthView>,
}

impl View for Type {
    type V = TypeView<Token>;

    open spec fn view(&self) -> TypeView<Token> {
        TypeView {
            tokens: tokens(self.tokens),
            span: self.span,
            array_len: option_view(self.array_len),
        }
    }
}

impl Spanless for TypeView<Token> {
    type Plain = TypeView<TokenKind>;

    open spec fn plain(self) -> TypeView<TokenKind> {
        TypeView { tokens: kinds(self.tokens), span: (), array_len: self.array_len }
    }
}

/// A field with a name.
pub struct Field {
    pub attrs: Vec<Attribute>,
    pub ident: Ident,
    pub ty: Type,
}

pub struct FieldView<T: Located> {
    pub attrs: Seq<AttributeView<T>>,
    pub ident: IdentView<T>,
    pub ty: TypeView<T>,
}

impl View for Field {
    type V = FieldView<Token>;

    open spec fn view(&self) -> FieldView<Token> {
        FieldView { attrs: all_views(self.attrs@), ident: self.ident@, ty: self.ty@ }
    }
}

impl Spanless for FieldView<Token> {
    type Plain = FieldView<TokenKind>;

    open spec fn plain(self) -> FieldView<TokenKind> {
        FieldView {
            attrs: all_plain(self.attrs),
            ident: self.ident.plain(),
            ty: self.ty.plain(),
        }
    }
}

/// The fields of a structure.
pub enum Fields {
    /// In braces, with names.
    Named(Vec<Field>),
    /// In parentheses, this many, without names.
    Unnamed(usize),
    /// None at all.
    Unit,
}

pub enum FieldsView<T: Located> {
    Named(Seq<FieldView<T>>),
    Unnamed(usize),
    Unit,
}

impl View for Fields {
    type V = FieldsView<Token>;

    open spec fn view(&self) -> FieldsView<Token> {
        match *self {
            Fields::Named(fields) => FieldsView::Named(all_views(fields@)),
            Fields::Unnamed(count) => FieldsView::Unnamed(count),
            Fields::Unit => FieldsView::Unit,
        }
    }
}

impl Spanless for FieldsView<Token> {
    type Plain = FieldsView<TokenKind>;

    open spec fn plain(self) -> FieldsView<TokenKind> {
        match self {
            FieldsView::Named(fields) => FieldsView::Named(all_plain(fields)),
            FieldsView::Unnamed(count) => FieldsView::Unnamed(count),
            FieldsView::Unit => FieldsView::Unit,
        }
    }
}

/// How the fields of an enum's variant are written.
#[derive(Clone, Copy, PartialEq, Eq, Structural)]
pub enum Shape {
    /// In braces, with names.
    Named,
    /// In parentheses, this many, without names.
    Unnamed(usize),
    /// Not at all.
    Unit,
}

/// What the generic parameters of a type become in an `impl` for it.
pub struct Generics {
    /// What follows `impl`.
    pub impl_generics: TokenStream,
    /// What follows the name of the type.
    pub ty_generics: TokenStream,
    /// What precedes the body.
    pub where_clause: TokenStream,
}

pub struct GenericsView<T> {
    pub impl_generics: Seq<T>,
    pub ty_generics: Seq<T>,
    pub where_clause: Seq<T>,
}

impl View for Generics {
    type V = GenericsView<Token>;

    open spec fn view(&self) -> GenericsView<Token> {
        GenericsView {
            impl_generics: tokens(self.impl_generics),
            ty_generics: tokens(self.ty_generics),
            where_clause: tokens(self.where_clause),
        }
    }
}

impl Spanless for GenericsView<Token> {
    type Plain = GenericsView<TokenKind>;

    open spec fn plain(self) -> GenericsView<TokenKind> {
        GenericsView {
            impl_generics: kinds(self.impl_generics),
            ty_generics: kinds(self.ty_generics),
            where_clause: kinds(self.where_clause),
        }
    }
}

/// A structure.
pub struct ItemStruct {
    /// Its attributes, each as it is written.
    pub attrs: Vec<TokenStream>,
    pub ident: Ident,
    pub generics: Generics,
    pub fields: Fields,
    /// The whole item but for its attributes.
    pub body: TokenStream,
}

pub struct StructView<T: Located> {
    pub attrs: Seq<Seq<T>>,
    pub ident: IdentView<T>,
    pub generics: GenericsView<T>,
    pub fields: FieldsView<T>,
    pub body: Seq<T>,
}

impl View for ItemStruct {
    type V = StructView<Token>;

    open spec fn view(&self) -> StructView<Token> {
        StructView {
            attrs: all_tokens(self.attrs@),
            ident: self.ident@,
            generics: self.generics@,
            fields: self.fields@,
            body: tokens(self.body),
        }
    }
}

impl Spanless for StructView<Token> {
    type Plain = StructView<TokenKind>;

    open spec fn plain(self) -> StructView<TokenKind> {
        StructView {
            attrs: all_kinds(self.attrs),
            ident: self.ident.plain(),
            generics: self.generics.plain(),
            fields: self.fields.plain(),
            body: kinds(self.body),
        }
    }
}

/// A variant of an enum.
pub struct Variant {
    pub attrs: Vec<Attribute>,
    pub ident: Ident,
    pub shape: Shape,
    /// The fields with the brackets around them.
    pub fields: TokenStream,
    /// Where the fields stand.
    pub span: Span,
    /// The whole variant.
    pub tokens: TokenStream,
}

pub struct VariantView<T: Located> {
    pub attrs: Seq<AttributeView<T>>,
    pub ident: IdentView<T>,
    pub shape: Shape,
    pub fields: Seq<T>,
    pub span: T::Place,
    pub tokens: Seq<T>,
}

impl View for Variant {
    type V = VariantView<Token>;

    open spec fn view(&self) -> VariantView<Token> {
        VariantView {
            attrs: all_views(self.attrs@),
            ident: self.ident@,
            shape: self.shape,
            fields: tokens(self.fields),
            span: self.span,
            tokens: tokens(self.tokens),
        }
    }
}

impl Spanless for VariantView<Token> {
    type Plain = VariantView<TokenKind>;

    open spec fn plain(self) -> VariantView<TokenKind> {
        VariantView {
            attrs: all_plain(self.attrs),
            ident: self.ident.plain(),
            shape: self.shape,
            fields: kinds(self.fields),
            span: (),
            tokens: kinds(self.tokens),
        }
    }
}

/// An enum.
pub struct ItemEnum {
    /// Its attributes, each as it is written.
    pub attrs: Vec<TokenStream>,
    pub ident: Ident,
    pub variants: Vec<Variant>,
    /// The whole item but for its attributes.
    pub body: TokenStream,
}

pub struct EnumView<T: Located> {
    pub attrs: Seq<Seq<T>>,
    pub ident: IdentView<T>,
    pub variants: Seq<VariantView<T>>,
    pub body: Seq<T>,
}

impl View for ItemEnum {
    type V = EnumView<Token>;

    open spec fn view(&self) -> EnumView<Token> {
        EnumView {
            attrs: all_tokens(self.attrs@),
            ident: self.ident@,
            variants: all_views(self.variants@),
            body: tokens(self.body),
        }
    }
}

impl Spanless for EnumView<Token> {
    type Plain = EnumView<TokenKind>;

    open spec fn plain(self) -> EnumView<TokenKind> {
        EnumView {
            attrs: all_kinds(self.attrs),
            ident: self.ident.plain(),
            variants: all_plain(self.variants),
            body: kinds(self.body),
        }
    }
}

/// An item that the attribute stands on.
pub enum Item {
    Struct(ItemStruct),
    Enum(ItemEnum),
    /// Anything else.
    Other(TokenStream),
}

pub enum ItemView<T: Located> {
    Struct(StructView<T>),
    Enum(EnumView<T>),
    Other(Seq<T>),
}

impl View for Item {
    type V = ItemView<Token>;

    open spec fn view(&self) -> ItemView<Token> {
        match *self {
            Item::Struct(item) => ItemView::Struct(item@),
            Item::Enum(item) => ItemView::Enum(item@),
            Item::Other(item) => ItemView::Other(tokens(item)),
        }
    }
}

impl Spanless for ItemView<Token> {
    type Plain = ItemView<TokenKind>;

    open spec fn plain(self) -> ItemView<TokenKind> {
        match self {
            ItemView::Struct(item) => ItemView::Struct(item.plain()),
            ItemView::Enum(item) => ItemView::Enum(item.plain()),
            ItemView::Other(item) => ItemView::Other(kinds(item)),
        }
    }
}

} // verus!
