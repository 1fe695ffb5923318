//! Where tokens point has no say in what an item becomes.

use crate::attr::{
    cfg_of, cfgs, doc_comments, doc_of, failures, first_attr, first_named, flag_has_no_empty_list,
    flattens, is_flattened, is_zero_array, serde_args_in, serde_args_of, serde_failure,
    serde_readable,
};
use crate::derive::{
    default_attrs, default_impl, derive_default, derive_serde, field_default, field_defaults,
    serde_default, serde_path_tokens, serde_snake_case, EnvView,
};
use crate::docs::{
    all_field_docs, all_variant_docs, any_documented, enum_impl, field_docs, fields_readable,
    plain_impl, struct_impl, variant_docs, with_add_docs, with_call, with_commas, with_docs, with_key, with_trait,
};
use crate::error::{reports, ErrorView, Texts};
use crate::expand::{
    becomes, derived_default, expanded, expanded_enum, expanded_struct,
    expanded_unnamed_field_struct, expands_to, first_refused, is_env, is_readable, is_refused,
    item_becomes, reads_item, reports_item, reports_options, with_attrs, Expanded,
};
use crate::options::{
    default_options, option_failure, options_in, options_read, reads_args, Features, OptionsView,
};
use crate::read::{args_from, item_from};
use crate::syntax::{
    all_plain, option_plain, ArgView, AttrMetaView, AttributeView, EnumView, FieldView, FieldsView, ItemView,
    ListedMetaView, MetaView, Spanless, StructView, VariantView,
};
use crate::token::{
    all_kinds, concat, is_call_site, kinds, prints, quoted, Quoted, Token, TokenKind,
};
use crate::variant::{
    first_rename, first_text_of, guarded_metas, is_documented, is_skipped, serde_metas, serde_metas_of,
    variant_name,
};
use proc_macro2::Span;
use vstd::prelude::*;

verus! {

broadcast proof fn lemma_kinds_push(stream: Seq<Token>, token: Token)
    ensures
        #[trigger] kinds(stream.push(token)) == kinds(stream).push(token.kind),
{
    assert(kinds(stream.push(token)) =~= kinds(stream).push(token.kind));
}

broadcast proof fn lemma_kinds_add(first: Seq<Token>, next: Seq<Token>)
    ensures
        #[trigger] kinds(first + next) == kinds(first) + kinds(next),
{
    assert(kinds(first + next) =~= kinds(first) + kinds(next));
}

broadcast proof fn lemma_kinds_empty(stream: Seq<Token>)
    requires
        stream.len() == 0,
    ensures
        #[trigger] kinds(stream) == Seq::<TokenKind>::empty(),
{
    assert(kinds(stream) =~= Seq::<TokenKind>::empty());
}

/// The last element and those before it.
proof fn lemma_all_plain_step<V: Spanless>(views: Seq<V>)
    ensures
        all_plain(views).len() == views.len(),
        views.len() > 0 ==> all_plain(views).drop_last() == all_plain(views.drop_last()),
        views.len() > 0 ==> all_plain(views).last() == views.last().plain(),
{
    if views.len() > 0 {
        assert(all_plain(views).drop_last() =~= all_plain(views.drop_last()));
    }
}

proof fn lemma_all_kinds_push(streams: Seq<Seq<Token>>, stream: Seq<Token>)
    ensures
        all_kinds(streams.push(stream)) == all_kinds(streams).push(kinds(stream)),
{
    assert(all_kinds(streams.push(stream)) =~= all_kinds(streams).push(kinds(stream)));
}

proof fn lemma_doc_comments_plain(attrs: Seq<AttributeView<Token>>)
    ensures
        doc_comments(all_plain(attrs)) == all_kinds(doc_comments(attrs)),
    decreases attrs.len(),
{
    lemma_all_plain_step(attrs);
    if attrs.len() == 0 {
        assert(doc_comments(all_plain(attrs)) =~= all_kinds(doc_comments(attrs)));
    } else {
        lemma_doc_comments_plain(attrs.drop_last());
        if let Some(literal) = doc_of(attrs.last()) {
            lemma_all_kinds_push(doc_comments(attrs.drop_last()), literal);
        }
    }
}

proof fn lemma_cfgs_plain(attrs: Seq<AttributeView<Token>>)
    ensures
        cfgs(all_plain(attrs)) == all_kinds(cfgs(attrs)),
    decreases attrs.len(),
{
    lemma_all_plain_step(attrs);
    if attrs.len() == 0 {
        assert(cfgs(all_plain(attrs)) =~= all_kinds(cfgs(attrs)));
    } else {
        lemma_cfgs_plain(attrs.drop_last());
        if let Some(attr) = cfg_of(attrs.last()) {
            lemma_all_kinds_push(cfgs(attrs.drop_last()), attr);
        }
    }
}

proof fn lemma_first_attr_plain(attrs: Seq<AttributeView<Token>>, name: &str)
    ensures
        first_attr(all_plain(attrs), name) == option_plain(first_attr(attrs, name)),
    decreases attrs.len(),
{
    lemma_all_plain_step(attrs);
    if attrs.len() > 0 {
        lemma_first_attr_plain(attrs.drop_last(), name);
    }
}

proof fn lemma_first_named_plain(args: Seq<ArgView<Token>>, name: Seq<char>)
    ensures
        first_named(all_plain(args), name) == option_plain(first_named(args, name)),
    decreases args.len(),
{
    lemma_all_plain_step(args);
    if args.len() > 0 {
        lemma_first_named_plain(args.drop_last(), name);
    }
}

proof fn lemma_serde_failures_plain(args: Seq<ArgView<Token>>)
    ensures
        failures(
            all_plain(args),
            |before: Seq<ArgView<TokenKind>>, arg: ArgView<TokenKind>| serde_failure(before, arg),
        ) == failures(
            args,
            |before: Seq<ArgView<Token>>, arg: ArgView<Token>| serde_failure(before, arg),
        ),
    decreases args.len(),
{
    lemma_all_plain_step(args);
    if args.len() > 0 {
        lemma_serde_failures_plain(args.drop_last());
        lemma_first_named_plain(args.drop_last(), "flatten"@);
        lemma_first_named_plain(args.drop_last(), "default"@);
    }
}

proof fn lemma_serde_args_in_plain(args: Seq<ArgView<Token>>)
    ensures
        serde_args_in(all_plain(args)) == match serde_args_in(args) {
            Ok(read) => Ok(read.plain()),
            Err(texts) => Err(texts),
        },
        flag_has_no_empty_list(all_plain(args)) == flag_has_no_empty_list(args),
{
    lemma_serde_failures_plain(args);
    lemma_first_named_plain(args, "flatten"@);
    lemma_first_named_plain(args, "default"@);
}

proof fn lemma_flattened_plain(attrs: Seq<AttributeView<Token>>)
    ensures
        is_flattened(all_plain(attrs)) == is_flattened(attrs),
{
    assert forall|i: int| 0 <= i < attrs.len() implies flattens(#[trigger] all_plain(attrs)[i])
        == flattens(attrs[i]) by {
        if let Ok(args) = attrs[i].args {
            lemma_serde_args_in_plain(args);
        }
    }
    if is_flattened(attrs) {
        let i = choose|i: int| 0 <= i < attrs.len() && flattens(#[trigger] attrs[i]);
        assert(flattens(all_plain(attrs)[i]));
    }
    if is_flattened(all_plain(attrs)) {
        let i = choose|i: int| 0 <= i < attrs.len() && flattens(#[trigger] all_plain(attrs)[i]);
        assert(flattens(attrs[i]));
    }
}

proof fn lemma_serde_args_plain(attrs: Seq<AttributeView<Token>>)
    ensures
        serde_args_of(all_plain(attrs)) == match serde_args_of(attrs) {
            Ok(args) => Ok(option_plain(args)),
            Err(texts) => Err(texts),
        },
        is_flattened(all_plain(attrs)) == is_flattened(attrs),
        serde_readable(all_plain(attrs)) == serde_readable(attrs),
{
    lemma_flattened_plain(attrs);
    lemma_first_attr_plain(attrs, "serde");
    if let Some(attr) = first_attr(attrs, "serde") {
        if let Ok(args) = attr.args {
            lemma_serde_args_in_plain(args);
        }
    }
}

proof fn lemma_guarded_metas_plain(metas: Seq<AttrMetaView<Token>>)
    ensures
        guarded_metas(all_plain(metas)) == all_plain(guarded_metas(metas)),
    decreases metas.len(),
{
    lemma_all_plain_step(metas);
    if metas.len() > 1 {
        lemma_guarded_metas_plain(metas.drop_last());
    }
    assert(guarded_metas(all_plain(metas)) =~= all_plain(guarded_metas(metas)));
}

proof fn lemma_serde_metas_plain(attrs: Seq<AttributeView<Token>>)
    ensures
        serde_metas(all_plain(attrs)) == all_plain(serde_metas(attrs)),
    decreases attrs.len(),
{
    lemma_all_plain_step(attrs);
    if attrs.len() == 0 {
        assert(serde_metas(all_plain(attrs)) =~= all_plain(serde_metas(attrs)));
    } else {
        let attr = attrs.last();
        lemma_serde_metas_plain(attrs.drop_last());
        if let Some(metas) = attr.metas {
            lemma_guarded_metas_plain(metas);
        }
        assert(serde_metas_of(attr.plain()) =~= all_plain(serde_metas_of(attr)));
        assert(serde_metas(all_plain(attrs)) =~= all_plain(serde_metas(attrs)));
    }
}

proof fn lemma_first_text_plain(metas: Seq<MetaView<Token>>, name: &str)
    ensures
        first_text_of(all_plain(metas), name) == first_text_of(metas, name),
    decreases metas.len(),
{
    lemma_all_plain_step(metas);
    if metas.len() > 0 {
        lemma_first_text_plain(metas.drop_last(), name);
    }
}

proof fn lemma_first_rename_plain(metas: Seq<ListedMetaView<Token>>)
    ensures
        first_rename(all_plain(metas)) == first_rename(metas),
    decreases metas.len(),
{
    lemma_all_plain_step(metas);
    if metas.len() > 0 {
        lemma_first_rename_plain(metas.drop_last());
        if let Some(inner) = metas.last().metas {
            lemma_first_text_plain(inner, "serialize");
        }
    }
}

proof fn lemma_variant_plain(variant: VariantView<Token>)
    ensures
        is_documented(variant.plain()) == is_documented(variant),
        variant_name(variant.plain()) == variant_name(variant),
        is_refused(variant.plain()) == is_refused(variant),
{
    let metas = serde_metas(variant.attrs);
    lemma_serde_metas_plain(variant.attrs);
    lemma_first_rename_plain(metas);
    if is_skipped(variant.attrs) {
        let i = choose|i: int| 0 <= i < metas.len() && (#[trigger] metas[i]).meta.is("skip");
        assert(all_plain(metas)[i].meta.is("skip"));
    }
    if is_skipped(variant.plain().attrs) {
        let i = choose|i: int|
            0 <= i < all_plain(metas).len() && (#[trigger] all_plain(metas)[i]).meta.is("skip");
        assert(metas[i].meta.is("skip"));
    }
}

proof fn lemma_variants_plain(variants: Seq<VariantView<Token>>)
    ensures
        any_documented(all_plain(variants)) == any_documented(variants),
        first_refused(all_plain(variants)) == option_plain(first_refused(variants)),
    decreases variants.len(),
{
    lemma_all_plain_step(variants);
    if any_documented(variants) {
        let i = choose|i: int| 0 <= i < variants.len() && is_documented(#[trigger] variants[i]);
        lemma_variant_plain(variants[i]);
        assert(is_documented(all_plain(variants)[i]));
    }
    if any_documented(all_plain(variants)) {
        let i = choose|i: int|
            0 <= i < variants.len() && is_documented(#[trigger] all_plain(variants)[i]);
        lemma_variant_plain(variants[i]);
        assert(is_documented(variants[i]));
    }
    if variants.len() > 0 {
        lemma_variants_plain(variants.drop_last());
        lemma_variant_plain(variants.last());
    }
}

proof fn lemma_option_failures_plain(args: Seq<ArgView<Token>>)
    ensures
        failures(
            all_plain(args),
            |before: Seq<ArgView<TokenKind>>, arg: ArgView<TokenKind>| option_failure(before, arg),
        ) == failures(
            args,
            |before: Seq<ArgView<Token>>, arg: ArgView<Token>| option_failure(before, arg),
        ),
    decreases args.len(),
{
    lemma_all_plain_step(args);
    if args.len() > 0 {
        lemma_option_failures_plain(args.drop_last());
        lemma_first_named_plain(args.drop_last(), "impl_default"@);
        lemma_first_named_plain(args.drop_last(), "impl_debug"@);
        lemma_first_named_plain(args.drop_last(), "crate_path"@);
        lemma_first_named_plain(args.drop_last(), "deny_unknown_fields"@);
    }
}

/// What the arguments of the attribute ask for does not depend on spans.
pub proof fn lemma_options_plain(args: Seq<ArgView<Token>>, defaults: OptionsView<Token>)
    ensures
        options_in(all_plain(args), defaults.plain()) == match options_in(args, defaults) {
            Ok(options) => Ok(options.plain()),
            Err(texts) => Err(texts),
        },
{
    lemma_option_failures_plain(args);
    lemma_first_named_plain(args, "impl_default"@);
    lemma_first_named_plain(args, "impl_debug"@);
    lemma_first_named_plain(args, "crate_path"@);
    lemma_first_named_plain(args, "deny_unknown_fields"@);
}

/// Whether an item can be expanded at all does not depend on spans.
pub proof fn lemma_readable_plain(item: ItemView<Token>)
    ensures
        is_readable(item.plain()) == is_readable(item),
{
    if let ItemView::Struct(item) = item {
        if let FieldsView::Named(fields) = item.fields {
            assert forall|i: int| 0 <= i < fields.len() implies serde_readable(
                (#[trigger] all_plain(fields)[i]).attrs,
            ) == serde_readable(fields[i].attrs) by {
                lemma_serde_args_plain(fields[i].attrs);
            }
            if fields_readable(item.plain().fields) {
                assert forall|i: int| 0 <= i < fields.len() implies serde_readable(
                    (#[trigger] fields[i]).attrs,
                ) by {
                    assert(serde_readable(all_plain(fields)[i].attrs));
                }
            }
        }
    }
}

proof fn lemma_concat_same(left: Seq<Seq<Token>>, right: Seq<Seq<Token>>)
    requires
        all_kinds(left) == all_kinds(right),
    ensures
        kinds(concat(left)) == kinds(concat(right)),
    decreases left.len(),
{
    broadcast use {lemma_kinds_add, lemma_kinds_empty};

    assert(left.len() == all_kinds(left).len() && right.len() == all_kinds(right).len());
    if left.len() > 0 {
        assert(all_kinds(left).drop_last() =~= all_kinds(left.drop_last()));
        assert(all_kinds(right).drop_last() =~= all_kinds(right.drop_last()));
        assert(all_kinds(left).last() == kinds(left.last()));
        assert(all_kinds(right).last() == kinds(right.last()));
        lemma_concat_same(left.drop_last(), right.drop_last());
    }
}

proof fn lemma_with_commas_same(
    left: Seq<Seq<Token>>,
    right: Seq<Seq<Token>>,
    left_site: Span,
    right_site: Span,
)
    requires
        all_kinds(left) == all_kinds(right),
    ensures
        kinds(with_commas(left, left_site)) == kinds(with_commas(right, right_site)),
    decreases left.len(),
{
    broadcast use {lemma_kinds_push, lemma_kinds_add, lemma_kinds_empty};

    assert(left.len() == all_kinds(left).len() && right.len() == all_kinds(right).len());
    if left.len() > 0 {
        assert(all_kinds(left).drop_last() =~= all_kinds(left.drop_last()));
        assert(all_kinds(right).drop_last() =~= all_kinds(right.drop_last()));
        assert(all_kinds(left).last() == kinds(left.last()));
        assert(all_kinds(right).last() == kinds(right.last()));
        lemma_with_commas_same(left.drop_last(), right.drop_last(), left_site, right_site);
    }
}

proof fn lemma_with_trait_same(
    left: Quoted,
    right: Quoted,
    left_path: Seq<Token>,
    right_path: Seq<Token>,
)
    requires
        kinds(left.tokens) == kinds(right.tokens),
        kinds(left_path) == kinds(right_path),
    ensures
        kinds(with_trait(left, left_path).tokens) == kinds(with_trait(right, right_path).tokens),
{
    broadcast use {lemma_kinds_push, lemma_kinds_add};

}

proof fn lemma_with_call_same(
    left: Quoted,
    right: Quoted,
    left_path: Seq<Token>,
    right_path: Seq<Token>,
    left_target: Seq<Token>,
    right_target: Seq<Token>,
    left_key: Seq<Token>,
    right_key: Seq<Token>,
)
    requires
        kinds(left.tokens) == kinds(right.tokens),
        kinds(left_path) == kinds(right_path),
        kinds(left_target) == kinds(right_target),
        kinds(left_key) == kinds(right_key),
    ensures
        kinds(with_call(left, left_path, left_target, left_key).tokens) == kinds(
            with_call(right, right_path, right_target, right_key).tokens,
        ),
{
    broadcast use {lemma_kinds_push, lemma_kinds_add, lemma_kinds_empty};

    lemma_with_trait_same(left, right, left_path, right_path);
}

proof fn lemma_with_key_same(
    left: Quoted,
    right: Quoted,
    name: Seq<char>,
    left_site: Span,
    right_site: Span,
)
    requires
        kinds(left.tokens) == kinds(right.tokens),
    ensures
        kinds(with_key(left, name, left_site).tokens) == kinds(
            with_key(right, name, right_site).tokens,
        ),
{
    broadcast use {lemma_kinds_push, lemma_kinds_add, lemma_kinds_empty};

}

proof fn lemma_with_docs_same(
    left: Quoted,
    right: Quoted,
    left_docs: Seq<Seq<Token>>,
    right_docs: Seq<Seq<Token>>,
    left_site: Span,
    right_site: Span,
)
    requires
        kinds(left.tokens) == kinds(right.tokens),
        all_kinds(left_docs) == all_kinds(right_docs),
    ensures
        kinds(with_docs(left, left_docs, left_site).tokens) == kinds(
            with_docs(right, right_docs, right_site).tokens,
        ),
{
    broadcast use {lemma_kinds_push, lemma_kinds_add, lemma_kinds_empty};

    assert(left_docs.len() == all_kinds(left_docs).len());
    assert(right_docs.len() == all_kinds(right_docs).len());
    lemma_with_commas_same(left_docs, right_docs, left_site, right_site);
}

proof fn lemma_with_add_docs_same(
    left: Quoted,
    right: Quoted,
    left_body: Seq<Token>,
    right_body: Seq<Token>,
)
    requires
        kinds(left.tokens) == kinds(right.tokens),
        kinds(left_body) == kinds(right_body),
    ensures
        kinds(with_add_docs(left, left_body).tokens) == kinds(
            with_add_docs(right, right_body).tokens,
        ),
{
    broadcast use {lemma_kinds_push, lemma_kinds_add, lemma_kinds_empty};

}

proof fn lemma_attrs_same(
    left: Seq<AttributeView<Token>>,
    right: Seq<AttributeView<Token>>,
)
    requires
        all_plain(left) == all_plain(right),
    ensures
        all_kinds(doc_comments(left)) == all_kinds(doc_comments(right)),
        all_kinds(cfgs(left)) == all_kinds(cfgs(right)),
        cfgs(left).len() == cfgs(right).len(),
        kinds(concat(cfgs(left))) == kinds(concat(cfgs(right))),
        is_flattened(left) == is_flattened(right),
{
    lemma_doc_comments_plain(left);
    lemma_doc_comments_plain(right);
    lemma_cfgs_plain(left);
    lemma_cfgs_plain(right);
    assert(cfgs(left).len() == all_kinds(cfgs(left)).len());
    assert(cfgs(right).len() == all_kinds(cfgs(right)).len());
    lemma_concat_same(cfgs(left), cfgs(right));
    lemma_serde_args_plain(left);
    lemma_serde_args_plain(right);
}

proof fn lemma_flattened_docs_same(
    left: OptionsView<Token>,
    right: OptionsView<Token>,
    left_field: FieldView<Token>,
    right_field: FieldView<Token>,
    left_site: Span,
    right_site: Span,
)
    requires
        is_flattened(left_field.attrs),
        is_flattened(right_field.attrs),
        kinds(left.crate_path) == kinds(right.crate_path),
        kinds(left_field.ident.tokens) == kinds(right_field.ident.tokens),
        kinds(concat(cfgs(left_field.attrs))) == kinds(concat(cfgs(right_field.attrs))),
    ensures
        kinds(field_docs(left, left_field, left_site)) == kinds(
            field_docs(right, right_field, right_site),
        ),
{
    broadcast use {lemma_kinds_push, lemma_kinds_add, lemma_kinds_empty};

    let left_span = left_field.ty.span;
    let right_span = right_field.ty.span;
    let left_target = quoted(left_span).punct('&').word("self").punct('.').stream(
        left_field.ident.tokens,
    ).tokens;
    let right_target = quoted(right_span).punct('&').word("self").punct('.').stream(
        right_field.ident.tokens,
    ).tokens;
    assert(kinds(left_target) == kinds(right_target));
    lemma_with_call_same(
        quoted(left_span),
        quoted(right_span),
        left.crate_path,
        right.crate_path,
        left_target,
        right_target,
        quoted(left_span).word("parent_key").tokens,
        quoted(right_span).word("parent_key").tokens,
    );
}

proof fn lemma_field_docs_same(
    left: OptionsView<Token>,
    right: OptionsView<Token>,
    left_field: FieldView<Token>,
    right_field: FieldView<Token>,
    left_site: Span,
    right_site: Span,
)
    requires
        left.plain() == right.plain(),
        left_field.plain() == right_field.plain(),
    ensures
        kinds(field_docs(left, left_field, left_site)) == kinds(
            field_docs(right, right_field, right_site),
        ),
{
    broadcast use {lemma_kinds_push, lemma_kinds_add, lemma_kinds_empty};

    lemma_attrs_same(left_field.attrs, right_field.attrs);
    let left_span = left_field.ty.span;
    let right_span = right_field.ty.span;
    let left_target = quoted(left_span).punct('&').word("self").punct('.').stream(
        left_field.ident.tokens,
    ).tokens;
    let right_target = quoted(right_span).punct('&').word("self").punct('.').stream(
        right_field.ident.tokens,
    ).tokens;
    assert(kinds(left_target) == kinds(right_target));
    if is_flattened(left_field.attrs) {
        lemma_flattened_docs_same(left, right, left_field, right_field, left_site, right_site);
    } else {
        let name = left_field.ident.name;
        let left_key = with_key(quoted(left_span), name, left_site);
        let right_key = with_key(quoted(right_span), name, right_site);
        lemma_with_key_same(quoted(left_span), quoted(right_span), name, left_site, right_site);
        let left_own = quoted(left_span).punct('&').word("key").tokens;
        let right_own = quoted(right_span).punct('&').word("key").tokens;
        lemma_with_call_same(
            left_key,
            right_key,
            left.crate_path,
            right.crate_path,
            left_target,
            right_target,
            left_own,
            right_own,
        );
        let left_call = if is_zero_array(left_field.ty) {
            left_key
        } else {
            with_call(left_key, left.crate_path, left_target, left_own)
        };
        let right_call = if is_zero_array(right_field.ty) {
            right_key
        } else {
            with_call(right_key, right.crate_path, right_target, right_own)
        };
        lemma_with_docs_same(
            left_call,
            right_call,
            doc_comments(left_field.attrs),
            doc_comments(right_field.attrs),
            left_site,
            right_site,
        );
    }
}

proof fn lemma_struct_impl_same(
    left: OptionsView<Token>,
    right: OptionsView<Token>,
    left_item: StructView<Token>,
    right_item: StructView<Token>,
    left_site: Span,
    right_site: Span,
)
    requires
        left.plain() == right.plain(),
        left_item.plain() == right_item.plain(),
    ensures
        kinds(struct_impl(left, left_item, left_site)) == kinds(
            struct_impl(right, right_item, right_site),
        ),
{
    broadcast use {lemma_kinds_push, lemma_kinds_add, lemma_kinds_empty};

    let left_docs = all_field_docs(left, left_item.fields, left_site);
    let right_docs = all_field_docs(right, right_item.fields, right_site);
    assert(all_kinds(left_docs) =~= all_kinds(right_docs)) by {
        if let FieldsView::Named(fields) = left_item.fields {
            let others = right_item.fields->Named_0;
            assert(fields.len() == all_plain(fields).len());
            assert(others.len() == all_plain(others).len());
            assert forall|i: int| 0 <= i < fields.len() implies kinds(
                #[trigger] left_docs[i],
            ) == kinds(right_docs[i]) by {
                assert(all_plain(fields)[i] == fields[i].plain());
                assert(all_plain(others)[i] == others[i].plain());
                lemma_field_docs_same(left, right, fields[i], others[i], left_site, right_site);
            }
        }
    }
    lemma_concat_same(left_docs, right_docs);
    lemma_with_add_docs_same(
        quoted(left_site),
        quoted(right_site),
        concat(left_docs),
        concat(right_docs),
    );
    lemma_with_trait_same(
        quoted(left_site).word("impl").stream(left_item.generics.impl_generics),
        quoted(right_site).word("impl").stream(right_item.generics.impl_generics),
        left.crate_path,
        right.crate_path,
    );
}

proof fn lemma_variant_docs_same(
    left: OptionsView<Token>,
    right: OptionsView<Token>,
    left_variant: VariantView<Token>,
    right_variant: VariantView<Token>,
    left_site: Span,
    right_site: Span,
)
    requires
        left.plain() == right.plain(),
        left_variant.plain() == right_variant.plain(),
    ensures
        kinds(variant_docs(left, left_variant, left_site)) == kinds(
            variant_docs(right, right_variant, right_site),
        ),
{
    broadcast use {lemma_kinds_push, lemma_kinds_add, lemma_kinds_empty};

    lemma_attrs_same(left_variant.attrs, right_variant.attrs);
    lemma_variant_plain(left_variant);
    lemma_variant_plain(right_variant);
    let left_span = left_variant.span;
    let right_span = right_variant.span;
    let name = variant_name(left_variant);
    let left_key = with_key(quoted(left_span), name, left_site);
    let right_key = with_key(quoted(right_span), name, right_site);
    lemma_with_key_same(quoted(left_span), quoted(right_span), name, left_site, right_site);
    let left_value = quoted(left_span).word("value").tokens;
    let right_value = quoted(right_span).word("value").tokens;
    let left_own = quoted(left_span).punct('&').word("key").tokens;
    let right_own = quoted(right_span).punct('&').word("key").tokens;
    lemma_with_call_same(
        left_key,
        right_key,
        left.crate_path,
        right.crate_path,
        left_value,
        right_value,
        left_own,
        right_own,
    );
    lemma_with_docs_same(
        with_call(left_key, left.crate_path, left_value, left_own),
        with_call(right_key, right.crate_path, right_value, right_own),
        doc_comments(left_variant.attrs),
        doc_comments(right_variant.attrs),
        left_site,
        right_site,
    );
}

proof fn lemma_enum_impl_same(
    left: OptionsView<Token>,
    right: OptionsView<Token>,
    left_item: EnumView<Token>,
    right_item: EnumView<Token>,
    unstable: bool,
    left_site: Span,
    right_site: Span,
)
    requires
        left.plain() == right.plain(),
        left_item.plain() == right_item.plain(),
    ensures
        kinds(enum_impl(left, left_item, unstable, left_site)) == kinds(
            enum_impl(right, right_item, unstable, right_site),
        ),
{
    broadcast use {lemma_kinds_push, lemma_kinds_add, lemma_kinds_empty};

    let left_variants = left_item.variants;
    let right_variants = right_item.variants;
    lemma_variants_plain(left_variants);
    lemma_variants_plain(right_variants);
    let left_docs = all_variant_docs(left, left_variants, left_site);
    let right_docs = all_variant_docs(right, right_variants, right_site);
    assert(all_kinds(left_docs) =~= all_kinds(right_docs)) by {
        assert(left_variants.len() == all_plain(left_variants).len());
        assert(right_variants.len() == all_plain(right_variants).len());
        assert forall|i: int| 0 <= i < left_variants.len() implies kinds(
            #[trigger] left_docs[i],
        ) == kinds(right_docs[i]) by {
            assert(all_plain(left_variants)[i] == left_variants[i].plain());
            assert(all_plain(right_variants)[i] == right_variants[i].plain());
            lemma_variant_docs_same(
                left,
                right,
                left_variants[i],
                right_variants[i],
                left_site,
                right_site,
            );
        }
    }
    lemma_concat_same(left_docs, right_docs);
    lemma_with_add_docs_same(
        quoted(left_site),
        quoted(right_site),
        quoted(left_site).word("match").word("self").braces(concat(left_docs)).tokens,
        quoted(right_site).word("match").word("self").braces(concat(right_docs)).tokens,
    );
    lemma_with_trait_same(
        quoted(left_site).word("impl"),
        quoted(right_site).word("impl"),
        left.crate_path,
        right.crate_path,
    );
}

proof fn lemma_default_attrs_same(
    left: OptionsView<Token>,
    right: OptionsView<Token>,
    left_env: EnvView,
    right_env: EnvView,
)
    requires
        left.plain() == right.plain(),
        left_env.serde_path == right_env.serde_path,
    ensures
        all_kinds(default_attrs(left, left_env)) == all_kinds(default_attrs(right, right_env)),
{
    broadcast use {lemma_kinds_push, lemma_kinds_add, lemma_kinds_empty};

    assert(kinds(derive_serde(left.crate_path, left_env.site)) == kinds(
        derive_serde(right.crate_path, right_env.site),
    ));
    assert(all_kinds(default_attrs(left, left_env)) =~= all_kinds(default_attrs(right, right_env)));
}

proof fn lemma_field_default_same(
    left: FieldView<Token>,
    right: FieldView<Token>,
    left_site: Span,
    right_site: Span,
)
    requires
        left.plain() == right.plain(),
    ensures
        match (field_default(left, left_site), field_default(right, right_site)) {
            (Ok(left), Ok(right)) => kinds(left) == kinds(right),
            (Err(left), Err(right)) => left == right,
            _ => false,
        },
{
    broadcast use {lemma_kinds_push, lemma_kinds_add, lemma_kinds_empty};

    lemma_attrs_same(left.attrs, right.attrs);
    lemma_serde_args_plain(left.attrs);
    lemma_serde_args_plain(right.attrs);
}

proof fn lemma_collected_defaults_same(
    left: Seq<FieldView<Token>>,
    right: Seq<FieldView<Token>>,
    left_site: Span,
    right_site: Span,
)
    requires
        all_plain(left) == all_plain(right),
    ensures
        match (
            field_defaults(FieldsView::Named(left), left_site),
            field_defaults(FieldsView::Named(right), right_site),
        ) {
            (Ok(left), Ok(right)) => all_kinds(left) == all_kinds(right),
            (Err(left), Err(right)) => left == right,
            _ => false,
        },
    decreases left.len(),
{
    lemma_all_plain_step(left);
    lemma_all_plain_step(right);
    if left.len() == 0 {
        assert(all_kinds(Seq::<Seq<Token>>::empty()) =~= Seq::<Seq<TokenKind>>::empty());
    } else {
        lemma_collected_defaults_same(left.drop_last(), right.drop_last(), left_site, right_site);
        lemma_field_default_same(left.last(), right.last(), left_site, right_site);
        let first = field_defaults(FieldsView::Named(left.drop_last()), left_site);
        let other = field_defaults(FieldsView::Named(right.drop_last()), right_site);
        if let (Ok(first), Ok(other)) = (first, other) {
            if let (Ok(last), Ok(others)) = (
                field_default(left.last(), left_site),
                field_default(right.last(), right_site),
            ) {
                lemma_all_kinds_push(first, last);
                lemma_all_kinds_push(other, others);
            }
        }
    }
}

proof fn lemma_default_impl_same(
    left: StructView<Token>,
    right: StructView<Token>,
    left_site: Span,
    right_site: Span,
)
    requires
        left.plain() == right.plain(),
    ensures
        match (default_impl(left, left_site), default_impl(right, right_site)) {
            (Ok(left), Ok(right)) => kinds(left) == kinds(right),
            (Err(left), Err(right)) => left == right,
            _ => false,
        },
{
    broadcast use {lemma_kinds_push, lemma_kinds_add, lemma_kinds_empty};

    if let (FieldsView::Named(fields), FieldsView::Named(others)) = (left.fields, right.fields) {
        lemma_collected_defaults_same(fields, others, left_site, right_site);
    }
    if let (Ok(first), Ok(other)) = (
        field_defaults(left.fields, left_site),
        field_defaults(right.fields, right_site),
    ) {
        lemma_with_commas_same(first, other, left_site, right_site);
    }
}

/// The same but for spans.
pub open spec fn same_outcome(left: Expanded, right: Expanded) -> bool {
    match (left, right) {
        (Ok(left), Ok(right)) => kinds(left) == kinds(right),
        (Err(left), Err(right)) => match (left, right) {
            (
                ErrorView::Message { text: left_text, blamed: left_blamed },
                ErrorView::Message { text: right_text, blamed: right_blamed },
            ) => left_text == right_text && kinds(left_blamed) == kinds(right_blamed),
            (ErrorView::Outside(left_texts), ErrorView::Outside(right_texts)) => left_texts
                == right_texts,
            _ => false,
        },
        _ => false,
    }
}

proof fn lemma_all_kinds_add(first: Seq<Seq<Token>>, next: Seq<Seq<Token>>)
    ensures
        all_kinds(first + next) == all_kinds(first) + all_kinds(next),
{
    assert(all_kinds(first + next) =~= all_kinds(first) + all_kinds(next));
}

proof fn lemma_with_attrs_same(
    left: Seq<Seq<Token>>,
    right: Seq<Seq<Token>>,
    left_body: Seq<Token>,
    right_body: Seq<Token>,
)
    requires
        all_kinds(left) == all_kinds(right),
        kinds(left_body) == kinds(right_body),
    ensures
        kinds(with_attrs(left, left_body)) == kinds(with_attrs(right, right_body)),
{
    lemma_concat_same(left, right);
    lemma_kinds_add(concat(left), left_body);
    lemma_kinds_add(concat(right), right_body);
}

proof fn lemma_added_attrs_same(left: Span, right: Span)
    ensures
        all_kinds(seq![derive_default(left)]) == all_kinds(seq![derive_default(right)]),
        all_kinds(seq![serde_snake_case(left)]) == all_kinds(seq![serde_snake_case(right)]),
        all_kinds(seq![serde_default(left)]) == all_kinds(seq![serde_default(right)]),
{
    broadcast use {lemma_kinds_push, lemma_kinds_add, lemma_kinds_empty};

    assert(all_kinds(seq![derive_default(left)]) =~= all_kinds(seq![derive_default(right)]));
    assert(all_kinds(seq![serde_snake_case(left)]) =~= all_kinds(seq![serde_snake_case(right)]));
    assert(all_kinds(seq![serde_default(left)]) =~= all_kinds(seq![serde_default(right)]));
}

proof fn lemma_plain_impl_same(
    left: OptionsView<Token>,
    right: OptionsView<Token>,
    left_ident: Seq<Token>,
    right_ident: Seq<Token>,
    left_site: Span,
    right_site: Span,
)
    requires
        left.plain() == right.plain(),
        kinds(left_ident) == kinds(right_ident),
    ensures
        kinds(plain_impl(left, left_ident, left_site)) == kinds(
            plain_impl(right, right_ident, right_site),
        ),
{
    broadcast use {lemma_kinds_push, lemma_kinds_add, lemma_kinds_empty};

    lemma_with_trait_same(
        quoted(left_site).word("impl"),
        quoted(right_site).word("impl"),
        left.crate_path,
        right.crate_path,
    );
}

proof fn lemma_enum_same(
    left: OptionsView<Token>,
    right: OptionsView<Token>,
    left_item: EnumView<Token>,
    right_item: EnumView<Token>,
    left_env: EnvView,
    right_env: EnvView,
)
    requires
        left.plain() == right.plain(),
        left_item.plain() == right_item.plain(),
        left_env.serde_path == right_env.serde_path,
        left_env.unstable == right_env.unstable,
    ensures
        same_outcome(
            expanded_enum(left, left_item, left_env),
            expanded_enum(right, right_item, right_env),
        ),
{
    lemma_variants_plain(left_item.variants);
    lemma_variants_plain(right_item.variants);
    let left_own = left_item.attrs + derived_default(left, left_env.site);
    let right_own = right_item.attrs + derived_default(right, right_env.site);
    let left_most = left_own + default_attrs(left, left_env);
    let right_most = right_own + default_attrs(right, right_env);
    let left_attrs = left_most + seq![serde_snake_case(left_env.site)];
    let right_attrs = right_most + seq![serde_snake_case(right_env.site)];
    lemma_added_attrs_same(left_env.site, right_env.site);
    lemma_default_attrs_same(left, right, left_env, right_env);
    lemma_all_kinds_add(left_item.attrs, derived_default(left, left_env.site));
    lemma_all_kinds_add(right_item.attrs, derived_default(right, right_env.site));
    lemma_all_kinds_add(left_own, default_attrs(left, left_env));
    lemma_all_kinds_add(right_own, default_attrs(right, right_env));
    lemma_all_kinds_add(left_most, seq![serde_snake_case(left_env.site)]);
    lemma_all_kinds_add(right_most, seq![serde_snake_case(right_env.site)]);
    lemma_with_attrs_same(left_attrs, right_attrs, left_item.body, right_item.body);
    lemma_enum_impl_same(
        left,
        right,
        left_item,
        right_item,
        left_env.unstable,
        left_env.site,
        right_env.site,
    );
    lemma_kinds_add(
        with_attrs(left_attrs, left_item.body),
        enum_impl(left, left_item, left_env.unstable, left_env.site),
    );
    lemma_kinds_add(
        with_attrs(right_attrs, right_item.body),
        enum_impl(right, right_item, right_env.unstable, right_env.site),
    );
}

proof fn lemma_unnamed_field_struct_same(
    left: OptionsView<Token>,
    right: OptionsView<Token>,
    left_item: StructView<Token>,
    right_item: StructView<Token>,
    count: usize,
    left_env: EnvView,
    right_env: EnvView,
)
    requires
        left.plain() == right.plain(),
        left_item.plain() == right_item.plain(),
        left_env.serde_path == right_env.serde_path,
    ensures
        same_outcome(
            expanded_unnamed_field_struct(left, left_item, count, left_env),
            expanded_unnamed_field_struct(right, right_item, count, right_env),
        ),
{
    lemma_with_attrs_same(left_item.attrs, right_item.attrs, left_item.body, right_item.body);
    let left_own = left_item.attrs + derived_default(left, left_env.site);
    let right_own = right_item.attrs + derived_default(right, right_env.site);
    let left_attrs = left_own + default_attrs(left, left_env);
    let right_attrs = right_own + default_attrs(right, right_env);
    lemma_added_attrs_same(left_env.site, right_env.site);
    lemma_default_attrs_same(left, right, left_env, right_env);
    lemma_all_kinds_add(left_item.attrs, derived_default(left, left_env.site));
    lemma_all_kinds_add(right_item.attrs, derived_default(right, right_env.site));
    lemma_all_kinds_add(left_own, default_attrs(left, left_env));
    lemma_all_kinds_add(right_own, default_attrs(right, right_env));
    lemma_with_attrs_same(left_attrs, right_attrs, left_item.body, right_item.body);
    let left_ident = left_item.ident.tokens;
    let right_ident = right_item.ident.tokens;
    lemma_plain_impl_same(left, right, left_ident, right_ident, left_env.site, right_env.site);
    lemma_kinds_add(
        with_attrs(left_attrs, left_item.body),
        plain_impl(left, left_ident, left_env.site),
    );
    lemma_kinds_add(
        with_attrs(right_attrs, right_item.body),
        plain_impl(right, right_ident, right_env.site),
    );
}

proof fn lemma_struct_same(
    left: OptionsView<Token>,
    right: OptionsView<Token>,
    left_item: StructView<Token>,
    right_item: StructView<Token>,
    left_env: EnvView,
    right_env: EnvView,
)
    requires
        left.plain() == right.plain(),
        left_item.plain() == right_item.plain(),
        left_env.serde_path == right_env.serde_path,
    ensures
        same_outcome(
            expanded_struct(left, left_item, left_env),
            expanded_struct(right, right_item, right_env),
        ),
{
    let left_most = left_item.attrs + default_attrs(left, left_env);
    let right_most = right_item.attrs + default_attrs(right, right_env);
    let left_attrs = left_most + seq![serde_default(left_env.site)];
    let right_attrs = right_most + seq![serde_default(right_env.site)];
    lemma_added_attrs_same(left_env.site, right_env.site);
    lemma_default_attrs_same(left, right, left_env, right_env);
    lemma_all_kinds_add(left_item.attrs, default_attrs(left, left_env));
    lemma_all_kinds_add(right_item.attrs, default_attrs(right, right_env));
    lemma_all_kinds_add(left_most, seq![serde_default(left_env.site)]);
    lemma_all_kinds_add(right_most, seq![serde_default(right_env.site)]);
    lemma_with_attrs_same(left_attrs, right_attrs, left_item.body, right_item.body);
    lemma_struct_impl_same(left, right, left_item, right_item, left_env.site, right_env.site);
    lemma_default_impl_same(left_item, right_item, left_env.site, right_env.site);
    let left_settings = with_attrs(left_attrs, left_item.body);
    let right_settings = with_attrs(right_attrs, right_item.body);
    let left_impl = struct_impl(left, left_item, left_env.site);
    let right_impl = struct_impl(right, right_item, right_env.site);
    lemma_kinds_add(left_settings, left_impl);
    lemma_kinds_add(right_settings, right_impl);
    if let (Ok(left_default), Ok(right_default)) = (
        default_impl(left_item, left_env.site),
        default_impl(right_item, right_env.site),
    ) {
        lemma_kinds_add(left_settings + left_impl, left_default);
        lemma_kinds_add(right_settings + right_impl, right_default);
    }
}

/// Where the tokens of an item point, and where the macro is invoked, has no say in whether the item
/// is refused, what is reported and blamed then, and which tokens it becomes otherwise.
pub proof fn law_spans_do_not_matter(
    left: OptionsView<Token>,
    right: OptionsView<Token>,
    left_item: ItemView<Token>,
    right_item: ItemView<Token>,
    left_env: EnvView,
    right_env: EnvView,
)
    requires
        left.plain() == right.plain(),
        left_item.plain() == right_item.plain(),
        left_env.serde_path == right_env.serde_path,
        left_env.unstable == right_env.unstable,
    ensures
        same_outcome(
            expanded(left, left_item, left_env),
            expanded(right, right_item, right_env),
        ),
{
    match (left_item, right_item) {
        (ItemView::Enum(item), ItemView::Enum(other)) => {
            lemma_enum_same(left, right, item, other, left_env, right_env);
        },
        (ItemView::Struct(item), ItemView::Struct(other)) => {
            if let FieldsView::Unnamed(count) = item.fields {
                lemma_unnamed_field_struct_same(
                    left,
                    right,
                    item,
                    other,
                    count,
                    left_env,
                    right_env,
                );
            } else {
                lemma_struct_same(left, right, item, other, left_env, right_env);
            }
        },
        _ => {},
    }
}

proof fn lemma_serde_path_same(
    left: Seq<Token>,
    right: Seq<Token>,
    left_site: Span,
    right_site: Span,
)
    requires
        kinds(left) == kinds(right),
    ensures
        kinds(serde_path_tokens(left, left_site)) == kinds(serde_path_tokens(right, right_site)),
{
    broadcast use {lemma_kinds_push, lemma_kinds_add, lemma_kinds_empty};

}

proof fn lemma_options_read_same(
    left_args: Seq<Token>,
    right_args: Seq<Token>,
    features: Features,
    left_site: Span,
    right_site: Span,
    left: Result<OptionsView<Token>, Texts>,
    right: Result<OptionsView<Token>, Texts>,
)
    requires
        kinds(left_args) == kinds(right_args),
        options_read(left_args, features, left_site, left),
        options_read(right_args, features, right_site, right),
    ensures
        match (left, right) {
            (Ok(left), Ok(right)) => left.plain() == right.plain(),
            (Err(left), Err(right)) => left == right,
            _ => false,
        },
{
    broadcast use {lemma_kinds_push, lemma_kinds_add, lemma_kinds_empty};

    let left_defaults = default_options(features, left_site);
    let right_defaults = default_options(features, right_site);
    assert(left_defaults.plain() == right_defaults.plain());
    assert(kinds(left_args).len() == left_args.len());
    assert(kinds(right_args).len() == right_args.len());
    if left_args.len() > 0 && args_from(kinds(left_args)) is Ok {
        let first = choose|args: Seq<ArgView<Token>>| #[trigger]
            reads_args(left_args, args) && left == options_in(args, left_defaults);
        let other = choose|args: Seq<ArgView<Token>>| #[trigger]
            reads_args(right_args, args) && right == options_in(args, right_defaults);
        lemma_options_plain(first, left_defaults);
        lemma_options_plain(other, right_defaults);
    }
}

proof fn lemma_becomes_same(
    left: OptionsView<Token>,
    right: OptionsView<Token>,
    left_item: ItemView<Token>,
    right_item: ItemView<Token>,
    unstable: bool,
    left_res: Option<Seq<Token>>,
    right_res: Option<Seq<Token>>,
)
    requires
        left.plain() == right.plain(),
        left_item.plain() == right_item.plain(),
        becomes(left, left_item, unstable, left_res),
        becomes(right, right_item, unstable, right_res),
        prints_one_way(),
    ensures
        option_kinds(left_res) == option_kinds(right_res),
{
    lemma_readable_plain(left_item);
    lemma_readable_plain(right_item);
    if is_readable(left_item) {
        let left_env = choose|env: EnvView| #[trigger]
            is_env(env, left, unstable) && match expanded(left, left_item, env) {
                Ok(stream) => left_res == Some(stream),
                Err(e) => left_res matches Some(stream) && reports_item(left_item, e, stream),
            };
        let right_env = choose|env: EnvView| #[trigger]
            is_env(env, right, unstable) && match expanded(right, right_item, env) {
                Ok(stream) => right_res == Some(stream),
                Err(e) => right_res matches Some(stream) && reports_item(right_item, e, stream),
            };
        lemma_serde_path_same(left.crate_path, right.crate_path, left_env.site, right_env.site);
        law_spans_do_not_matter(left, right, left_item, right_item, left_env, right_env);
    }
}

/// Whether the same tokens are always printed the same way.
pub open spec fn prints_one_way() -> bool {
    forall|stream: Seq<TokenKind>, text: Seq<char>, other: Seq<char>|
        #[trigger] prints(stream, text) && #[trigger] prints(stream, other) ==> text == other
}

/// The kinds of tokens, if there are any tokens.
pub open spec fn option_kinds(stream: Option<Seq<Token>>) -> Option<Seq<TokenKind>> {
    match stream {
        Some(stream) => Some(kinds(stream)),
        None => None,
    }
}

/// What the attribute turns an item into is settled, but for spans, by the tokens of its arguments
/// and of the item, wherever those point, as long as the same tokens are always printed the same
/// way.
pub proof fn law_expansion_is_settled(
    left_args: Seq<Token>,
    right_args: Seq<Token>,
    left_item: Seq<Token>,
    right_item: Seq<Token>,
    features: Features,
    left: Option<Seq<Token>>,
    right: Option<Seq<Token>>,
)
    requires
        kinds(left_args) == kinds(right_args),
        kinds(left_item) == kinds(right_item),
        expands_to(left_args, left_item, features, left),
        expands_to(right_args, right_item, features, right),
        prints_one_way(),
    ensures
        option_kinds(left) == option_kinds(right),
{
    let (left_site, left_options) = choose|site: Span, options: Result<OptionsView<Token>, Texts>|
     #[trigger]
        options_read(left_args, features, site, options) && is_call_site(site) && match options {
            Ok(options) => item_becomes(options, left_item, features.unstable, left),
            Err(texts) => left matches Some(stream) && reports_options(left_args, texts, stream),
        };
    let (right_site, right_options) = choose|
        site: Span,
        options: Result<OptionsView<Token>, Texts>,
    | #[trigger]
        options_read(right_args, features, site, options) && is_call_site(site) && match options {
            Ok(options) => item_becomes(options, right_item, features.unstable, right),
            Err(texts) => right matches Some(stream) && reports_options(right_args, texts, stream),
        };
    lemma_options_read_same(
        left_args,
        right_args,
        features,
        left_site,
        right_site,
        left_options,
        right_options,
    );
    if let (Ok(left_options), Ok(right_options)) = (left_options, right_options) {
        if item_from(kinds(left_item)) is Ok {
            let item = choose|item: ItemView<Token>| #[trigger]
                reads_item(left_item, item) && becomes(
                    left_options,
                    item,
                    features.unstable,
                    left,
                );
            let other = choose|item: ItemView<Token>| #[trigger]
                reads_item(right_item, item) && becomes(
                    right_options,
                    item,
                    features.unstable,
                    right,
                );
            lemma_becomes_same(
                left_options,
                right_options,
                item,
                other,
                features.unstable,
                left,
                right,
            );
        }
    }
}

/// All that is wrong with the arguments of the attribute.
pub open spec fn wrong_options(args: Seq<Token>) -> Option<Texts> {
    if args.len() == 0 {
        None
    } else {
        match args_from(kinds(args)) {
            Ok(args) => failures(
                args,
                |before: Seq<ArgView<TokenKind>>, arg: ArgView<TokenKind>|
                    option_failure(before, arg),
            ),
            Err(texts) => Some(texts),
        }
    }
}

/// What is wrong with the arguments of the attribute is reported, and nothing else then. If nothing
/// is wrong with them, an item that cannot be parsed is reported. If it can be, something is returned
/// unless the item cannot be expanded at all.
pub proof fn law_what_is_answered(
    args: Seq<Token>,
    input: Seq<Token>,
    features: Features,
    res: Option<Seq<Token>>,
)
    requires
        expands_to(args, input, features, res),
    ensures
        match wrong_options(args) {
            Some(texts) => option_kinds(res) == Some(reports(texts)),
            None => match item_from(kinds(input)) {
                Ok(item) => res is None <==> !is_readable(item),
                Err(texts) => option_kinds(res) == Some(reports(texts)),
            },
        },
{
    let (site, options) = choose|site: Span, options: Result<OptionsView<Token>, Texts>| #[trigger]
        options_read(args, features, site, options) && is_call_site(site) && match options {
            Ok(options) => item_becomes(options, input, features.unstable, res),
            Err(texts) => res matches Some(stream) && reports_options(args, texts, stream),
        };
    if args.len() > 0 && args_from(kinds(args)) is Ok {
        let list = choose|list: Seq<ArgView<Token>>| #[trigger]
            reads_args(args, list) && options == options_in(list, default_options(features, site));
        lemma_option_failures_plain(list);
    }
    if options is Ok && item_from(kinds(input)) is Ok {
        let item = choose|item: ItemView<Token>| #[trigger]
            reads_item(input, item) && becomes(options->Ok_0, item, features.unstable, res);
        lemma_readable_plain(item);
    }
}

/// A flattened field is forwarded under the key of the structure: neither its name nor its doc
/// comments are handed out. All that is done for it goes by its identifier and its `cfg` attributes.
pub proof fn law_flattened_field_has_no_key(
    options: OptionsView<Token>,
    left: FieldView<Token>,
    right: FieldView<Token>,
    left_site: Span,
    right_site: Span,
)
    requires
        is_flattened(left.attrs),
        is_flattened(right.attrs),
        kinds(left.ident.tokens) == kinds(right.ident.tokens),
        all_kinds(cfgs(left.attrs)) == all_kinds(cfgs(right.attrs)),
    ensures
        kinds(field_docs(options, left, left_site)) == kinds(
            field_docs(options, right, right_site),
        ),
{
    lemma_concat_same(cfgs(left.attrs), cfgs(right.attrs));
    lemma_flattened_docs_same(options, options, left, right, left_site, right_site);
}

} // verus!
