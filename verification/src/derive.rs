//! The attributes that settings get, and their `Default` impl.

use crate::attr::{
    cfg_attrs, cfgs, fails_at, serde_args_of, serde_readable, SerdeArgs, SerdeArgsView,
};
use crate::docs::{fields_readable, push_commas, with_commas};
use crate::error::{error_spans, error_texts, Texts};
use crate::options::{Options, OptionsView};
use crate::read::{collected, lemma_collected_fails, lemma_collected_goes_on};
use crate::syntax::{all_views, Field, FieldView, Fields, FieldsView, ItemStruct, StructView};
use crate::token::{
    all_tokens, concat, concat_streams, is_word, kinds, print, prints, quoted, tokens, Located, Quote,
    Quoted, Token,
};
use proc_macro2::{Span, TokenStream};
use vstd::prelude::*;

verus! {

/// What an expansion takes from its surroundings.
pub struct Env {
    /// The place of the macro's invocation.
    pub site: Span,
    /// The printed path of `serde`.
    pub serde_path: String,
    /// Whether what is not stable yet is expanded too.
    pub unstable: bool,
}

pub struct EnvView {
    pub site: Span,
    pub serde_path: Seq<char>,
    pub unstable: bool,
}

impl View for Env {
    type V = EnvView;

    open spec fn view(&self) -> EnvView {
        EnvView { site: self.site, serde_path: self.serde_path@, unstable: self.unstable }
    }
}

/// The words in the generated attributes and `Default` impls are words.
proof fn lemma_words()
    ensures
        is_word("derive"@),
        is_word("Default"@),
        is_word("Clone"@),
        is_word("Debug"@),
        is_word("Serialize"@),
        is_word("Deserialize"@),
        is_word("reexports_for_macros"@),
        is_word("serde"@),
        is_word("crate"@),
        is_word("deny_unknown_fields"@),
        is_word("rename_all"@),
        is_word("default"@),
        is_word("impl"@),
        is_word("for"@),
        is_word("fn"@),
        is_word("Self"@),
{
    reveal_strlit("derive");
    reveal_strlit("Default");
    reveal_strlit("Clone");
    reveal_strlit("Debug");
    reveal_strlit("Serialize");
    reveal_strlit("Deserialize");
    reveal_strlit("reexports_for_macros");
    reveal_strlit("serde");
    reveal_strlit("crate");
    reveal_strlit("deny_unknown_fields");
    reveal_strlit("rename_all");
    reveal_strlit("default");
    reveal_strlit("impl");
    reveal_strlit("for");
    reveal_strlit("fn");
    reveal_strlit("Self");
}

/// `#[name(args)]`
pub open spec fn attribute(name: &str, args: Seq<Token>, site: Span) -> Seq<Token> {
    quoted(site).punct('#').brackets(quoted(site).word(name).parens(args).tokens).tokens
}

fn push_attribute(name: &str, args: TokenStream, site: Span) -> (res: TokenStream)
    requires
        is_word(name@),
    ensures
        tokens(res) == attribute(name, tokens(args), site),
{
    let meta = Quote::new(site).word(name).parens(args).stream;
    Quote::new(site).punct('#').brackets(meta).stream
}

/// `#[derive(Default)]`
pub open spec fn derive_default(site: Span) -> Seq<Token> {
    attribute("derive", quoted(site).word("Default").tokens, site)
}

/// `#[derive(Default)]`
pub fn push_derive_default(site: Span) -> (res: TokenStream)
    ensures
        tokens(res) == derive_default(site),
{
    proof {
        lemma_words();
    }
    push_attribute("derive", Quote::new(site).word("Default").stream, site)
}

/// `#[derive(Debug)]`
pub open spec fn derive_debug(site: Span) -> Seq<Token> {
    attribute("derive", quoted(site).word("Debug").tokens, site)
}

/// `crate_path::reexports_for_macros::serde`
pub open spec fn with_serde(quote: Quoted, crate_path: Seq<Token>) -> Quoted {
    quote.stream(crate_path).sep().word("reexports_for_macros").sep().word("serde")
}

fn push_serde(quote: Quote, crate_path: &TokenStream) -> (res: Quote)
    ensures
        res@ == with_serde(quote@, tokens(*crate_path)),
{
    proof {
        lemma_words();
    }
    quote.stream(crate_path).sep().word("reexports_for_macros").sep().word("serde")
}

/// `#[derive(Clone, .. serde::Serialize, .. serde::Deserialize,)]`
pub open spec fn derive_serde(crate_path: Seq<Token>, site: Span) -> Seq<Token> {
    attribute(
        "derive",
        with_serde(
            with_serde(quoted(site).word("Clone").punct(','), crate_path).sep().word(
                "Serialize",
            ).punct(','),
            crate_path,
        ).sep().word("Deserialize").punct(',').tokens,
        site,
    )
}

/// `#[serde(crate = "path")]`
pub open spec fn serde_crate(path: Seq<char>, site: Span) -> Seq<Token> {
    attribute("serde", quoted(site).word("crate").punct('=').string(path, site).tokens, site)
}

/// `#[serde(deny_unknown_fields)]`
pub open spec fn serde_deny_unknown_fields(site: Span) -> Seq<Token> {
    attribute("serde", quoted(site).word("deny_unknown_fields").tokens, site)
}

/// `#[serde(rename_all = "snake_case")]`
pub open spec fn serde_snake_case(site: Span) -> Seq<Token> {
    attribute(
        "serde",
        quoted(site).word("rename_all").punct('=').string("snake_case"@, site).tokens,
        site,
    )
}

/// `#[serde(rename_all = "snake_case")]`
pub fn push_serde_snake_case(site: Span) -> (res: TokenStream)
    ensures
        tokens(res) == serde_snake_case(site),
{
    proof {
        lemma_words();
    }
    let args = Quote::new(site).word("rename_all").punct('=').string("snake_case", site);
    push_attribute("serde", args.stream, site)
}

/// `#[serde(default)]`
pub open spec fn serde_default(site: Span) -> Seq<Token> {
    attribute("serde", quoted(site).word("default").tokens, site)
}

/// `#[serde(default)]`
pub fn push_serde_default(site: Span) -> (res: TokenStream)
    ensures
        tokens(res) == serde_default(site),
{
    proof {
        lemma_words();
    }
    push_attribute("serde", Quote::new(site).word("default").stream, site)
}

/// The attributes that all settings get.
pub open spec fn default_attrs(options: OptionsView<Token>, env: EnvView) -> Seq<Seq<Token>> {
    let derives = if options.impl_debug {
        seq![derive_serde(options.crate_path, env.site), derive_debug(env.site)]
    } else {
        seq![derive_serde(options.crate_path, env.site)]
    };
    let serde = if options.deny_unknown_fields {
        seq![serde_crate(env.serde_path, env.site), serde_deny_unknown_fields(env.site)]
    } else {
        seq![serde_crate(env.serde_path, env.site)]
    };
    derives + serde
}

/// Adds one attribute.
pub fn push_attr(attrs: &mut Vec<TokenStream>, attr: TokenStream)
    ensures
        all_tokens(final(attrs)@) == all_tokens(old(attrs)@).push(tokens(attr)),
{
    attrs.push(attr);
    assert(all_tokens(attrs@) =~= all_tokens(old(attrs)@).push(tokens(attr)));
}

/// Adds the attributes that all settings get.
pub fn add_default_attrs(options: &Options, attrs: &mut Vec<TokenStream>, env: &Env)
    ensures
        all_tokens(final(attrs)@) == all_tokens(old(attrs)@) + default_attrs(options@, env@),
{
    proof {
        lemma_words();
    }
    let site = env.site;
    let crate_path = &options.crate_path;
    let derives = push_serde(
        push_serde(Quote::new(site).word("Clone").punct(','), crate_path).sep().word(
            "Serialize",
        ).punct(','),
        crate_path,
    ).sep().word("Deserialize").punct(',');
    push_attr(attrs, push_attribute("derive", derives.stream, site));
    if options.impl_debug {
        push_attr(attrs, push_attribute("derive", Quote::new(site).word("Debug").stream, site));
    }
    let path = Quote::new(site).word("crate").punct('=').string(env.serde_path.as_str(), site);
    push_attr(attrs, push_attribute("serde", path.stream, site));
    if options.deny_unknown_fields {
        push_attr(
            attrs,
            push_attribute("serde", Quote::new(site).word("deny_unknown_fields").stream, site),
        );
    }
    assert(all_tokens(attrs@) =~= all_tokens(old(attrs)@) + default_attrs(options@, env@));
}

/// The path of `serde`.
pub open spec fn serde_path_tokens(crate_path: Seq<Token>, site: Span) -> Seq<Token> {
    with_serde(quoted(site), crate_path).tokens
}

/// The path of `serde`, printed.
pub fn print_serde_path(options: &Options, site: Span) -> (res: String)
    ensures
        prints(
            kinds(serde_path_tokens(tokens(options.crate_path), site)),
            res@,
        ),
{
    print(&push_serde(Quote::new(site), &options.crate_path).stream)
}

/// `name: path()`, subject to the `cfg` attributes of the field. The path is the one in the `serde`
/// argument `default`, or else `Default::default`.
pub open spec fn initializer(
    field: FieldView<Token>,
    args: Option<SerdeArgsView<Token>>,
    site: Span,
) -> Seq<Token> {
    let span = field.ty.span;
    let path = match args {
        Some(SerdeArgsView { default: Some(path), .. }) => path,
        _ => quoted(span).word("Default").sep().word("default").tokens,
    };
    quoted(span).stream(concat(cfgs(field.attrs))).stream(field.ident.tokens).punct(':').stream(
        path,
    ).parens(Seq::empty()).tokens
}

/// [`initializer`] with the `serde` arguments of the field, or all that is wrong with these.
pub open spec fn field_default(field: FieldView<Token>, site: Span) -> Result<Seq<Token>, Texts> {
    match serde_args_of(field.attrs) {
        Ok(args) => Ok(initializer(field, args, site)),
        Err(texts) => Err(texts),
    }
}

/// `name: path()`
pub fn impl_default_for_field(field: &Field, site: Span) -> (res: Result<TokenStream, syn::Error>)
    requires
        serde_readable(field@.attrs),
    ensures
        match res {
            Ok(stream) => field_default(field@, site) == Ok::<_, Texts>(tokens(stream)),
            Err(e) => field_default(field@, site) == Err::<Seq<Token>, _>(error_texts(e))
                && fails_at(field.attrs@, error_spans(e)),
        },
{
    proof {
        lemma_words();
    }
    let span = field.ty.span;
    let guards = concat_streams(&cfg_attrs(&field.attrs));
    let args = match SerdeArgs::parse_from_attrs(&field.attrs) {
        Ok(args) => args,
        Err(e) => return Err(e),
    };
    let path = match args {
        Some(SerdeArgs { default: Some(path), .. }) => path,
        _ => Quote::new(span).word("Default").sep().word("default").stream,
    };
    Ok(
        Quote::new(span).stream(&guards).stream(&field.ident.tokens).punct(':').stream(
            &path,
        ).parens(TokenStream::new()).stream,
    )
}

/// The initializers of all fields, or what is wrong with the first that is not all right.
pub open spec fn field_defaults(fields: FieldsView<Token>, site: Span) -> Result<
    Seq<Seq<Token>>,
    Texts,
> {
    match fields {
        FieldsView::Named(fields) => collected(
            fields,
            |field: FieldView<Token>| field_default(field, site),
        ),
        _ => Ok(Seq::empty()),
    }
}

/// The `Default` impl of a structure, or what is wrong with its fields.
pub open spec fn default_impl(item: StructView<Token>, site: Span) -> Result<Seq<Token>, Texts> {
    match field_defaults(item.fields, site) {
        Ok(initializers) => {
            let value = quoted(site).word("Self").braces(with_commas(initializers, site)).tokens;
            let function = quoted(site).word("fn").word("default").parens(Seq::empty()).pair(
                '-',
                '>',
            ).word("Self").braces(value).tokens;
            Ok(
                quoted(site).word("impl").stream(item.generics.impl_generics).word("Default").word(
                    "for",
                ).stream(item.ident.tokens).stream(item.generics.ty_generics).stream(
                    item.generics.where_clause,
                ).braces(function).tokens,
            )
        },
        Err(texts) => Err(texts),
    }
}

/// Whether each field has a name.
pub open spec fn has_no_nameless_field<T: Located>(fields: FieldsView<T>) -> bool {
    fields matches FieldsView::Unnamed(count) ==> count == 0
}

/// Whether `places` is where the messages about the first field of which anything is wrong point.
pub open spec fn default_fails_at(fields: Fields, places: Seq<Span>) -> bool {
    fields matches Fields::Named(fields) && exists|i: int|
        {
            &&& 0 <= i < fields@.len()
            &&& fails_at((#[trigger] fields@[i]).attrs@, places)
            &&& serde_args_of(fields@[i]@.attrs) is Err
            &&& forall|k: int|
                0 <= k < i ==> serde_args_of((#[trigger] fields@[k])@.attrs) is Ok
        }
}

/// The `Default` impl of a structure, in which `serde` defaults are honoured.
pub fn impl_serde_aware_default(item: &ItemStruct, site: Span) -> (res: Result<
    TokenStream,
    syn::Error,
>)
    requires
        has_no_nameless_field(item@.fields),
        fields_readable(item@.fields),
    ensures
        match res {
            Ok(stream) => default_impl(item@, site) == Ok::<_, Texts>(tokens(stream)),
            Err(e) => default_impl(item@, site) == Err::<Seq<Token>, _>(error_texts(e))
                && default_fails_at(item.fields, error_spans(e)),
        },
{
    proof {
        lemma_words();
    }
    let mut initializers: Vec<TokenStream> = Vec::new();
    assert(all_tokens(initializers@) =~= Seq::<Seq<Token>>::empty());
    if let Fields::Named(fields) = &item.fields {
        let ghost views = all_views(fields@);
        let ghost read = |field: FieldView<Token>| field_default(field, site);
        let mut i: usize = 0;
        while i < fields.len()
            invariant
                i <= fields.len(),
                views == all_views(fields@),
                item@.fields == FieldsView::Named(views),
                fields_readable(item@.fields),
                read == (|field: FieldView<Token>| field_default(field, site)),
                collected(views.take(i as int), read) == Ok::<_, Texts>(
                    all_tokens(initializers@),
                ),
                item.fields == Fields::Named(*fields),
                forall|k: int|
                    0 <= k < i ==> serde_args_of((#[trigger] fields@[k])@.attrs) is Ok,
            decreases fields.len() - i,
        {
            assert(views[i as int] == fields@[i as int]@);
            let ghost before = initializers@;
            match impl_default_for_field(&fields[i], site) {
                Ok(stream) => {
                    initializers.push(stream);
                    proof {
                        lemma_collected_goes_on(views, read, i as int);
                        assert(all_tokens(initializers@) =~= all_tokens(before).push(
                            tokens(stream),
                        ));
                    }
                },
                Err(e) => {
                    proof {
                        lemma_collected_fails(views, read, i as int);
                    }
                    return Err(e);
                },
            }
            i += 1;
        }
        assert(views.take(i as int) =~= views);
    }
    let value = Quote::new(site).word("Self").braces(push_commas(&initializers, site)).stream;
    let function = Quote::new(site).word("fn").word("default").parens(TokenStream::new()).pair(
        '-',
        '>',
    ).word("Self").braces(value).stream;
    Ok(
        Quote::new(site).word("impl").stream(&item.generics.impl_generics).word("Default").word(
            "for",
        ).stream(&item.ident.tokens).stream(&item.generics.ty_generics).stream(
            &item.generics.where_clause,
        ).braces(function).stream,
    )
}

} // verus!
