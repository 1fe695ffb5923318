//! The `Settings` impl, whose `add_docs` hands out the doc comments of fields and variants.

use crate::attr::{
    cfg_attrs, cfgs, doc_comments, extract_doc_comments, is_array_zst, is_flattened,
    is_serde_flattened, is_zero_array, serde_readable,
};
use crate::options::{Options, OptionsView};
use crate::syntax::{
    all_views, EnumView, Field, FieldView, Fields, FieldsView, ItemEnum, ItemStruct, Shape, StructView,
    Variant, VariantView,
};
use crate::token::{
    all_tokens, concat, concat_streams, is_word, quoted, tokens, Located, Quote, Quoted, Token,
};
use crate::variant::{is_documented, is_documented_variant, serde_variant_name, variant_name};
use proc_macro2::{Span, TokenStream};
use vstd::prelude::*;

verus! {

/// The words in the generated `Settings` impls are words.
proof fn lemma_words()
    ensures
        is_word("settings"@),
        is_word("Settings"@),
        is_word("add_docs"@),
        is_word("impl"@),
        is_word("for"@),
        is_word("fn"@),
        is_word("self"@),
        is_word("Self"@),
        is_word("parent_key"@),
        is_word("String"@),
        is_word("docs"@),
        is_word("mut"@),
        is_word("std"@),
        is_word("collections"@),
        is_word("HashMap"@),
        is_word("Vec"@),
        is_word("static"@),
        is_word("str"@),
        is_word("let"@),
        is_word("key"@),
        is_word("to_vec"@),
        is_word("push"@),
        is_word("into"@),
        is_word("insert"@),
        is_word("match"@),
        is_word("value"@),
{
    reveal_strlit("settings");
    reveal_strlit("Settings");
    reveal_strlit("add_docs");
    reveal_strlit("impl");
    reveal_strlit("for");
    reveal_strlit("fn");
    reveal_strlit("self");
    reveal_strlit("Self");
    reveal_strlit("parent_key");
    reveal_strlit("String");
    reveal_strlit("docs");
    reveal_strlit("mut");
    reveal_strlit("std");
    reveal_strlit("collections");
    reveal_strlit("HashMap");
    reveal_strlit("Vec");
    reveal_strlit("static");
    reveal_strlit("str");
    reveal_strlit("let");
    reveal_strlit("key");
    reveal_strlit("to_vec");
    reveal_strlit("push");
    reveal_strlit("into");
    reveal_strlit("insert");
    reveal_strlit("match");
    reveal_strlit("value");
}

/// `crate_path::settings::Settings`
pub open spec fn with_trait(quote: Quoted, crate_path: Seq<Token>) -> Quoted {
    quote.stream(crate_path).sep().word("settings").sep().word("Settings")
}

fn push_trait(quote: Quote, crate_path: &TokenStream) -> (res: Quote)
    ensures
        res@ == with_trait(quote@, tokens(*crate_path)),
{
    proof {
        lemma_words();
    }
    quote.stream(crate_path).sep().word("settings").sep().word("Settings")
}

/// `crate_path::settings::Settings::add_docs(target, key, docs);`
pub open spec fn with_call(
    quote: Quoted,
    crate_path: Seq<Token>,
    target: Seq<Token>,
    key: Seq<Token>,
) -> Quoted {
    with_trait(quote, crate_path).sep().word("add_docs").parens(
        quoted(quote.span).stream(target).punct(',').stream(key).punct(',').word("docs").tokens,
    ).punct(';')
}

fn push_call(
    quote: Quote,
    crate_path: &TokenStream,
    target: &TokenStream,
    key: &TokenStream,
) -> (res: Quote)
    ensures
        res@ == with_call(quote@, tokens(*crate_path), tokens(*target), tokens(*key)),
{
    proof {
        lemma_words();
    }
    let args = Quote::new(quote.span).stream(target).punct(',').stream(key).punct(',').word("docs");
    push_trait(quote, crate_path).sep().word("add_docs").parens(args.stream).punct(';')
}

/// `let mut key = parent_key.to_vec(); key.push("name".into());`
pub open spec fn with_key(quote: Quoted, name: Seq<char>, site: Span) -> Quoted {
    quote.word("let").word("mut").word("key").punct('=').word("parent_key").punct('.').word(
        "to_vec",
    ).parens(Seq::empty()).punct(';').word("key").punct('.').word("push").parens(
        quoted(quote.span).string(name, site).punct('.').word("into").parens(Seq::empty()).tokens,
    ).punct(';')
}

fn push_key(quote: Quote, name: &str, site: Span) -> (res: Quote)
    ensures
        res@ == with_key(quote@, name@, site),
{
    proof {
        lemma_words();
    }
    let text = Quote::new(quote.span).string(name, site).punct('.').word("into").parens(
        TokenStream::new(),
    );
    quote.word("let").word("mut").word("key").punct('=').word("parent_key").punct('.').word(
        "to_vec",
    ).parens(TokenStream::new()).punct(';').word("key").punct('.').word("push").parens(
        text.stream,
    ).punct(';')
}

/// Each of the sequences with a comma after it.
pub open spec fn with_commas(items: Seq<Seq<Token>>, site: Span) -> Seq<Token>
    decreases items.len(),
{
    if items.len() == 0 {
        Seq::empty()
    } else {
        with_commas(items.drop_last(), site) + quoted(site).stream(items.last()).punct(',').tokens
    }
}

/// Each of the streams with a comma after it.
pub fn push_commas(items: &Vec<TokenStream>, site: Span) -> (res: TokenStream)
    ensures
        tokens(res) == with_commas(all_tokens(items@), site),
{
    let ghost all = all_tokens(items@);
    let mut quote = Quote::new(site);
    let mut i: usize = 0;
    while i < items.len()
        invariant
            i <= items.len(),
            all == all_tokens(items@),
            quote@.span == site,
            quote@.tokens == with_commas(all.take(i as int), site),
        decreases items.len() - i,
    {
        assert(all.take(i + 1).drop_last() =~= all.take(i as int));
        let ghost before = quote@.tokens;
        quote = quote.stream(&items[i]).punct(',');
        assert(quote@.tokens =~= before + quoted(site).stream(all[i as int]).punct(',').tokens);
        i += 1;
    }
    assert(all.take(i as int) =~= all);
    quote.stream
}

/// `docs.insert(key, &[docs][..]);`, if there are any docs.
pub open spec fn with_docs(quote: Quoted, docs: Seq<Seq<Token>>, site: Span) -> Quoted {
    if docs.len() == 0 {
        quote
    } else {
        quote.stream(
            quoted(site).word("docs").punct('.').word("insert").parens(
                quoted(site).word("key").punct(',').punct('&').brackets(
                    with_commas(docs, site),
                ).brackets(quoted(site).pair('.', '.').tokens).tokens,
            ).punct(';').tokens,
        )
    }
}

fn push_docs(quote: Quote, docs: &Vec<TokenStream>, site: Span) -> (res: Quote)
    ensures
        res@ == with_docs(quote@, all_tokens(docs@), site),
{
    if docs.len() == 0 {
        return quote;
    }
    proof {
        lemma_words();
    }
    let all = Quote::new(site).pair('.', '.');
    let args = Quote::new(site).word("key").punct(',').punct('&').brackets(
        push_commas(docs, site),
    ).brackets(all.stream);
    let insert = Quote::new(site).word("docs").punct('.').word("insert").parens(args.stream).punct(
        ';',
    );
    quote.stream(&insert.stream)
}

/// What `add_docs` does for a field.
///
/// A flattened field is forwarded under the key of the structure itself. Any other gets a key of its
/// own, which is forwarded unless the type of the field is `[T; 0]`, and then its doc comments. All
/// of it is subject to the `cfg` attributes of the field.
pub open spec fn field_docs(
    options: OptionsView<Token>,
    field: FieldView<Token>,
    site: Span,
) -> Seq<Token> {
    let span = field.ty.span;
    let guards = cfgs(field.attrs);
    let target = quoted(span).punct('&').word("self").punct('.').stream(field.ident.tokens).tokens;
    if is_flattened(field.attrs) {
        quoted(span).stream(concat(guards)).braces(
            with_call(
                quoted(span),
                options.crate_path,
                target,
                quoted(span).word("parent_key").tokens,
            ).tokens,
        ).tokens
    } else {
        let key = with_key(quoted(span), field.ident.name, site);
        let call = if is_zero_array(field.ty) {
            key
        } else {
            with_call(
                key,
                options.crate_path,
                target,
                quoted(span).punct('&').word("key").tokens,
            )
        };
        let body = with_docs(call, doc_comments(field.attrs), site).tokens;
        if guards.len() == 0 {
            body
        } else {
            quoted(site).stream(concat(guards)).braces(body).tokens
        }
    }
}

/// What `add_docs` does for a field.
pub fn impl_settings_trait_for_field(options: &Options, field: &Field, site: Span) -> (res:
    TokenStream)
    requires
        serde_readable(field@.attrs),
    ensures
        tokens(res) == field_docs(options@, field@, site),
{
    proof {
        lemma_words();
    }
    let crate_path = &options.crate_path;
    let span = field.ty.span;
    let docs = extract_doc_comments(&field.attrs);
    let guards = cfg_attrs(&field.attrs);
    let target = Quote::new(span).punct('&').word("self").punct('.').stream(
        &field.ident.tokens,
    ).stream;
    // Flattened structs need to be forwarded directly, rather than under their own key.
    if is_serde_flattened(&field.attrs) {
        let parent_key = Quote::new(span).word("parent_key").stream;
        let call = push_call(Quote::new(span), crate_path, &target, &parent_key).stream;
        return Quote::new(span).stream(&concat_streams(&guards)).braces(call).stream;
    }
    let mut quote = push_key(Quote::new(span), field.ident.name.as_str(), site);
    // `[T; 0]` is no settings type where `T` has no default, and has nothing to document.
    if !is_array_zst(&field.ty) {
        let key = Quote::new(span).punct('&').word("key").stream;
        quote = push_call(quote, crate_path, &target, &key);
    }
    let body = push_docs(quote, &docs, site).stream;
    assert(cfgs(field@.attrs).len() == guards@.len());
    if guards.len() == 0 {
        body
    } else {
        Quote::new(site).stream(&concat_streams(&guards)).braces(body).stream
    }
}

/// `fn add_docs(..) { body }`
pub open spec fn with_add_docs(quote: Quoted, body: Seq<Token>) -> Quoted {
    let q = quoted(quote.span);
    let key = q.word("String").tokens;
    let text = q.punct('&').lifetime("static").word("str").tokens;
    let params = q.punct('&').word("self").punct(',').word("parent_key").punct(':').punct(
        '&',
    ).brackets(key).punct(',').word("docs").punct(':').punct('&').word("mut").sep().word(
        "std",
    ).sep().word("collections").sep().word("HashMap").punct('<').word("Vec").punct('<').stream(
        key,
    ).punct('>').punct(',').punct('&').lifetime("static").brackets(text).punct('>').tokens;
    quote.word("fn").word("add_docs").parens(params).braces(body)
}

fn push_add_docs(quote: Quote, body: TokenStream) -> (res: Quote)
    ensures
        res@ == with_add_docs(quote@, tokens(body)),
{
    proof {
        lemma_words();
    }
    let span = quote.span;
    let key = Quote::new(span).word("String").stream;
    let text = Quote::new(span).punct('&').lifetime("static").word("str").stream;
    let params = Quote::new(span).punct('&').word("self").punct(',').word("parent_key").punct(
        ':',
    ).punct('&').brackets(key.clone()).punct(',').word("docs").punct(':').punct('&').word(
        "mut",
    ).sep().word("std").sep().word("collections").sep().word("HashMap").punct('<').word("Vec").punct(
        '<',
    ).stream(&key).punct('>').punct(',').punct('&').lifetime("static").brackets(text).punct('>');
    quote.word("fn").word("add_docs").parens(params.stream).braces(body)
}

/// What `add_docs` does for each of the fields.
pub open spec fn all_field_docs(
    options: OptionsView<Token>,
    fields: FieldsView<Token>,
    site: Span,
) -> Seq<Seq<Token>> {
    match fields {
        FieldsView::Named(fields) => fields.map_values(
            |field: FieldView<Token>| field_docs(options, field, site),
        ),
        _ => Seq::empty(),
    }
}

/// The `Settings` impl of a structure, which documents its fields.
pub open spec fn struct_impl(
    options: OptionsView<Token>,
    item: StructView<Token>,
    site: Span,
) -> Seq<Token> {
    with_trait(
        quoted(site).word("impl").stream(item.generics.impl_generics),
        options.crate_path,
    ).word("for").stream(item.ident.tokens).stream(item.generics.ty_generics).stream(
        item.generics.where_clause,
    ).braces(
        with_add_docs(quoted(site), concat(all_field_docs(options, item.fields, site))).tokens,
    ).tokens
}

/// Whether the `serde` arguments of every field can be looked at.
pub open spec fn fields_readable<T: Located>(fields: FieldsView<T>) -> bool {
    fields matches FieldsView::Named(fields) ==> forall|i: int|
        0 <= i < fields.len() ==> serde_readable((#[trigger] fields[i]).attrs)
}

/// The `Settings` impl of a structure.
pub fn impl_settings_trait(options: &Options, item: &ItemStruct, site: Span) -> (res: TokenStream)
    requires
        fields_readable(item@.fields),
    ensures
        tokens(res) == struct_impl(options@, item@, site),
{
    proof {
        lemma_words();
    }
    let ghost goal = all_field_docs(options@, item@.fields, site);
    let mut docs: Vec<TokenStream> = Vec::new();
    assert(all_tokens(docs@) =~= Seq::<Seq<Token>>::empty());
    if let Fields::Named(fields) = &item.fields {
        let ghost views = all_views(fields@);
        let mut i: usize = 0;
        while i < fields.len()
            invariant
                i <= fields.len(),
                views == all_views(fields@),
                item@.fields == FieldsView::Named(views),
                fields_readable(item@.fields),
                goal == all_field_docs(options@, item@.fields, site),
                all_tokens(docs@) == goal.take(i as int),
            decreases fields.len() - i,
        {
            assert(views[i as int] == fields@[i as int]@);
            let ghost before = docs@;
            let doc = impl_settings_trait_for_field(options, &fields[i], site);
            docs.push(doc);
            assert(all_tokens(docs@) =~= all_tokens(before).push(tokens(doc)));
            assert(goal.take(i + 1) =~= goal.take(i as int).push(goal[i as int]));
            i += 1;
        }
        assert(goal.take(i as int) =~= goal);
    }
    let add_docs = push_add_docs(Quote::new(site), concat_streams(&docs)).stream;
    push_trait(
        Quote::new(site).word("impl").stream(&item.generics.impl_generics),
        &options.crate_path,
    ).word("for").stream(&item.ident.tokens).stream(&item.generics.ty_generics).stream(
        &item.generics.where_clause,
    ).braces(add_docs).stream
}

/// The arm of `add_docs` for a variant. A variant without a key of its own has an empty one.
pub open spec fn variant_docs(
    options: OptionsView<Token>,
    variant: VariantView<Token>,
    site: Span,
) -> Seq<Token> {
    let span = variant.span;
    let guards = concat(cfgs(variant.attrs));
    let path = quoted(span).word("Self").sep().stream(variant.ident.tokens);
    if !is_documented(variant) {
        let pattern = if variant.shape is Unnamed {
            path.parens(quoted(span).pair('.', '.').tokens)
        } else {
            path
        };
        quoted(site).stream(guards).stream(pattern.tokens).pair('=', '>').braces(Seq::empty()).tokens
    } else {
        let body = with_docs(
            with_call(
                with_key(quoted(span), variant_name(variant), site),
                options.crate_path,
                quoted(span).word("value").tokens,
                quoted(span).punct('&').word("key").tokens,
            ),
            doc_comments(variant.attrs),
            site,
        ).tokens;
        quoted(span).stream(guards).stream(
            path.parens(quoted(span).word("value").tokens).tokens,
        ).pair('=', '>').braces(body).tokens
    }
}

/// The arm of `add_docs` for a variant.
pub fn impl_settings_trait_for_variant(options: &Options, variant: &Variant, site: Span) -> (res:
    TokenStream)
    ensures
        tokens(res) == variant_docs(options@, variant@, site),
{
    proof {
        lemma_words();
    }
    let span = variant.span;
    let guards = concat_streams(&cfg_attrs(&variant.attrs));
    let path = Quote::new(span).word("Self").sep().stream(&variant.ident.tokens);
    if !is_documented_variant(variant) {
        let pattern = match variant.shape {
            Shape::Unnamed(_) => path.parens(Quote::new(span).pair('.', '.').stream),
            _ => path,
        };
        return Quote::new(site).stream(&guards).stream(&pattern.stream).pair('=', '>').braces(
            TokenStream::new(),
        ).stream;
    }
    let docs = extract_doc_comments(&variant.attrs);
    let name = serde_variant_name(variant);
    let value = Quote::new(span).word("value").stream;
    let key = Quote::new(span).punct('&').word("key").stream;
    let body = push_docs(
        push_call(
            push_key(Quote::new(span), name.as_str(), site),
            &options.crate_path,
            &value,
            &key,
        ),
        &docs,
        site,
    ).stream;
    let pattern = path.parens(value).stream;
    Quote::new(span).stream(&guards).stream(&pattern).pair('=', '>').braces(body).stream
}

/// Whether some variant gets a key of its own.
pub open spec fn any_documented<T: Located>(variants: Seq<VariantView<T>>) -> bool {
    exists|i: int| 0 <= i < variants.len() && is_documented(#[trigger] variants[i])
}

/// Whether some variant gets a key of its own.
pub fn has_documented_variant(variants: &Vec<Variant>) -> (res: bool)
    ensures
        res == any_documented(all_views(variants@)),
{
    let ghost views = all_views(variants@);
    let mut i: usize = 0;
    while i < variants.len()
        invariant
            i <= variants.len(),
            views == all_views(variants@),
            forall|k: int| 0 <= k < i ==> !is_documented(#[trigger] views[k]),
        decreases variants.len() - i,
    {
        assert(views[i as int] == variants@[i as int]@);
        if is_documented_variant(&variants[i]) {
            return true;
        }
        i += 1;
    }
    false
}

/// A `Settings` impl with nothing to document.
pub open spec fn plain_impl(
    options: OptionsView<Token>,
    ident: Seq<Token>,
    site: Span,
) -> Seq<Token> {
    with_trait(quoted(site).word("impl"), options.crate_path).word("for").stream(ident).braces(
        Seq::empty(),
    ).tokens
}

/// A `Settings` impl with nothing to document.
pub fn impl_plain_settings(options: &Options, ident: &TokenStream, site: Span) -> (res: TokenStream)
    ensures
        tokens(res) == plain_impl(options@, tokens(*ident), site),
{
    proof {
        lemma_words();
    }
    push_trait(Quote::new(site).word("impl"), &options.crate_path).word("for").stream(ident).braces(
        TokenStream::new(),
    ).stream
}

/// The arms of `add_docs`.
pub open spec fn all_variant_docs(
    options: OptionsView<Token>,
    variants: Seq<VariantView<Token>>,
    site: Span,
) -> Seq<Seq<Token>> {
    variants.map_values(|variant: VariantView<Token>| variant_docs(options, variant, site))
}

/// The `Settings` impl of an enum. It documents what the variants hold if that is asked for and there
/// is anything to document.
pub open spec fn enum_impl(
    options: OptionsView<Token>,
    item: EnumView<Token>,
    unstable: bool,
    site: Span,
) -> Seq<Token> {
    if !unstable || !any_documented(item.variants) {
        plain_impl(options, item.ident.tokens, site)
    } else {
        with_trait(quoted(site).word("impl"), options.crate_path).word("for").stream(
            item.ident.tokens,
        ).braces(
            with_add_docs(
                quoted(site),
                quoted(site).word("match").word("self").braces(
                    concat(all_variant_docs(options, item.variants, site)),
                ).tokens,
            ).tokens,
        ).tokens
    }
}

/// The `Settings` impl of an enum.
///
/// Documenting a new type variant makes the type it wraps reachable through `add_docs`, so that type
/// has to implement `Settings`. That is a new requirement on existing code, so it is only there
/// where it is asked for. Nothing under a variant can be documented otherwise, so the impl then
/// keeps the `add_docs` that does nothing.
pub fn impl_settings_trait_for_enum(
    options: &Options,
    item: &ItemEnum,
    unstable: bool,
    site: Span,
) -> (res: TokenStream)
    ensures
        tokens(res) == enum_impl(options@, item@, unstable, site),
{
    if !unstable || !has_documented_variant(&item.variants) {
        return impl_plain_settings(options, &item.ident.tokens, site);
    }
    proof {
        lemma_words();
    }
    let ghost views = all_views(item.variants@);
    let ghost goal = all_variant_docs(options@, views, site);
    let mut arms: Vec<TokenStream> = Vec::new();
    let mut i: usize = 0;
    while i < item.variants.len()
        invariant
            i <= item.variants.len(),
            views == all_views(item.variants@),
            goal == all_variant_docs(options@, views, site),
            all_tokens(arms@) == goal.take(i as int),
        decreases item.variants.len() - i,
    {
        assert(views[i as int] == item.variants@[i as int]@);
        let ghost before = arms@;
        let arm = impl_settings_trait_for_variant(options, &item.variants[i], site);
        arms.push(arm);
        assert(all_tokens(arms@) =~= all_tokens(before).push(tokens(arm)));
        assert(goal.take(i + 1) =~= goal.take(i as int).push(goal[i as int]));
        i += 1;
    }
    assert(goal.take(i as int) =~= goal);
    let body = Quote::new(site).word("match").word("self").braces(concat_streams(&arms));
    let add_docs = push_add_docs(Quote::new(site), body.stream).stream;
    push_trait(Quote::new(site).word("impl"), &options.crate_path).word("for").stream(
        &item.ident.tokens,
    ).braces(add_docs).stream
}

} // verus!
