//! What is written out, token by token.

use crate::attr::{
    attr_named, cfg_of, cfgs, doc_comments, doc_of, first_attr, first_named, is_flattened,
    is_zero_array, lemma_first_picked, lemma_first_picked_stays, named, picked, serde_args_in,
    serde_args_of, serde_failure,
};
use crate::derive::{
    attribute, default_attrs, default_impl, derive_debug, derive_default, derive_serde,
    field_default, field_defaults, serde_crate, serde_default, serde_deny_unknown_fields,
    serde_snake_case, with_serde, EnvView,
};
use crate::docs::{
    all_field_docs, all_variant_docs, any_documented, enum_impl, field_docs, plain_impl,
    struct_impl, variant_docs, with_add_docs, with_call, with_commas, with_docs, with_key,
    with_trait,
};
use crate::error::{ErrorView, Texts};
use crate::expand::{
    derived_default, expanded, expanded_enum, expanded_struct, expanded_unnamed_field_struct,
};
use crate::laws::{law_what_is_accepted, lemma_failures};
use crate::options::OptionsView;
use crate::read::lemma_collected_fails;
use crate::syntax::{
    ArgView, AttributeView, EnumView, FieldView, FieldsView, FormView, ItemView, Shape, StructView,
    ValueView, VariantView,
};
use crate::token::{concat, quoted, Delimiter, Quoted, Token, TokenKind};
use crate::variant::{is_documented, is_skipped, variant_name};
use proc_macro2::Span;
use vstd::prelude::*;
use vstd::seq_lib::lemma_flatten_concat;

verus! {

/// Tokens of these kinds, all at one place.
pub open spec fn at(span: Span, kinds: Seq<TokenKind>) -> Seq<Token> {
    kinds.map_values(|kind: TokenKind| Token { kind, span })
}

/// An identifier or a keyword.
pub open spec fn word(text: &str) -> TokenKind {
    TokenKind::Ident(text@)
}

/// A punctuation character that stands alone.
pub open spec fn mark(c: char) -> TokenKind {
    TokenKind::Punct(c, false)
}

/// A punctuation character that is joined to the next.
pub open spec fn joint(c: char) -> TokenKind {
    TokenKind::Punct(c, true)
}

/// `(`
pub open spec fn lparen() -> TokenKind {
    TokenKind::Open(Delimiter::Parenthesis)
}

/// `)`
pub open spec fn rparen() -> TokenKind {
    TokenKind::Close(Delimiter::Parenthesis)
}

/// `{`
pub open spec fn lbrace() -> TokenKind {
    TokenKind::Open(Delimiter::Brace)
}

/// `}`
pub open spec fn rbrace() -> TokenKind {
    TokenKind::Close(Delimiter::Brace)
}

/// `[`
pub open spec fn lbracket() -> TokenKind {
    TokenKind::Open(Delimiter::Bracket)
}

/// `]`
pub open spec fn rbracket() -> TokenKind {
    TokenKind::Close(Delimiter::Bracket)
}

broadcast proof fn lemma_at_push(span: Span, kinds: Seq<TokenKind>, kind: TokenKind)
    ensures
        #[trigger] at(span, kinds.push(kind)) == at(span, kinds).push(Token { kind, span }),
{
    assert(at(span, kinds.push(kind)) =~= at(span, kinds).push(Token { kind, span }));
}

broadcast proof fn lemma_at_empty(span: Span)
    ensures
        #[trigger] at(span, Seq::empty()) == Seq::<Token>::empty(),
{
    assert(at(span, Seq::empty()) =~= Seq::<Token>::empty());
}

broadcast proof fn lemma_add_push(first: Seq<Token>, next: Seq<Token>, token: Token)
    ensures
        #[trigger] (first + next.push(token)) == (first + next).push(token),
{
    assert(first + next.push(token) =~= (first + next).push(token));
}

broadcast proof fn lemma_add_add(first: Seq<Token>, next: Seq<Token>, last: Seq<Token>)
    ensures
        #[trigger] (first + (next + last)) == first + next + last,
{
    assert(first + (next + last) =~= first + next + last);
}

broadcast proof fn lemma_add_empty(first: Seq<Token>)
    ensures
        #[trigger] (first + Seq::empty()) == first,
{
    assert(first + Seq::empty() =~= first);
}

broadcast proof fn lemma_empty_add(next: Seq<Token>)
    ensures
        #[trigger] (Seq::empty() + next) == next,
{
    assert(Seq::empty() + next =~= next);
}

broadcast group group_written {
    lemma_at_push,
    lemma_at_empty,
    lemma_add_push,
    lemma_add_add,
    lemma_add_empty,
    lemma_empty_add,
}

/// The sequences one after another.
pub proof fn lemma_concat_is_flatten<T>(streams: Seq<Seq<T>>)
    ensures
        concat(streams) == streams.flatten(),
    decreases streams.len(),
{
    streams.lemma_flatten_and_flatten_alt_are_equivalent();
    if streams.len() > 0 {
        lemma_concat_is_flatten(streams.drop_last());
        streams.drop_last().lemma_flatten_and_flatten_alt_are_equivalent();
    }
}

proof fn lemma_picked_is_filter_map<A, B>(
    from: Seq<A>,
    pick: spec_fn(A) -> Option<B>,
    other: spec_fn(A) -> Option<B>,
)
    requires
        forall|a: A| #[trigger] pick(a) == other(a),
    ensures
        picked(from, pick) == from.filter_map(other),
    decreases from.len(),
{
    if from.len() > 0 {
        lemma_picked_is_filter_map(from.drop_last(), pick, other);
        assert(pick(from.last()) == other(from.last()));
        assert(picked(from, pick) =~= from.filter_map(other));
    }
}

/// Of all attributes, the `cfg` attributes as they are written, and the literals of doc comments.
proof fn lemma_guards_and_docs(attrs: Seq<AttributeView<Token>>)
    ensures
        concat(cfgs(attrs)) == attrs.filter_map(
            |attr: AttributeView<Token>|
                if attr.meta.ident == Some("cfg"@) {
                    Some(attr.tokens)
                } else {
                    None
                },
        ).flatten(),
        cfgs(attrs).len() == 0 <==> forall|i: int|
            0 <= i < attrs.len() ==> (#[trigger] attrs[i]).meta.ident != Some("cfg"@),
        doc_comments(attrs) == attrs.filter_map(
            |attr: AttributeView<Token>|
                if attr.meta.ident == Some("doc"@) {
                    match attr.meta.form {
                        FormView::NameValue(ValueView::Str { tokens, .. }) => Some(tokens),
                        _ => None,
                    }
                } else {
                    None
                },
        ),
{
    let cfg = |attr: AttributeView<Token>|
        if attr.meta.ident == Some("cfg"@) {
            Some(attr.tokens)
        } else {
            None
        };
    lemma_picked_is_filter_map(attrs, |attr: AttributeView<Token>| cfg_of(attr), cfg);
    lemma_concat_is_flatten(cfgs(attrs));
    lemma_no_cfgs(attrs);
    let doc = |attr: AttributeView<Token>|
        if attr.meta.ident == Some("doc"@) {
            match attr.meta.form {
                FormView::NameValue(ValueView::Str { tokens, .. }) => Some(tokens),
                _ => None,
            }
        } else {
            None
        };
    lemma_picked_is_filter_map(attrs, |attr: AttributeView<Token>| doc_of(attr), doc);
}

proof fn lemma_no_cfgs(attrs: Seq<AttributeView<Token>>)
    ensures
        cfgs(attrs).len() == 0 <==> forall|i: int|
            0 <= i < attrs.len() ==> (#[trigger] attrs[i]).meta.ident != Some("cfg"@),
    decreases attrs.len(),
{
    if attrs.len() > 0 {
        let before = attrs.drop_last();
        lemma_no_cfgs(before);
        assert(attrs.last() == attrs[attrs.len() - 1]);
        if cfgs(attrs).len() == 0 {
            assert forall|i: int| 0 <= i < attrs.len() implies (#[trigger] attrs[i]).meta.ident
                != Some("cfg"@) by {
                if i < before.len() {
                    assert(attrs[i] == before[i]);
                }
            }
        } else if cfgs(before).len() > 0 {
            let i = choose|i: int|
                0 <= i < before.len() && (#[trigger] before[i]).meta.ident == Some("cfg"@);
            assert(attrs[i] == before[i]);
        }
    }
}

proof fn lemma_commas(items: Seq<Seq<Token>>, site: Span)
    ensures
        with_commas(items, site) == items.map_values(
            |item: Seq<Token>| item.push(Token { kind: mark(','), span: site }),
        ).flatten(),
    decreases items.len(),
{
    broadcast use group_written;

    let each = |item: Seq<Token>| item.push(Token { kind: mark(','), span: site });
    if items.len() > 0 {
        lemma_commas(items.drop_last(), site);
        let all = items.map_values(each);
        assert(all =~= items.drop_last().map_values(each).push(each(items.last())));
        items.drop_last().map_values(each).lemma_flatten_push(each(items.last()));
    }
}

proof fn lemma_braces(quote: Quoted, inner: Seq<Token>)
    ensures
        quote.braces(inner).tokens == quote.tokens + at(quote.span, seq![lbrace()]) + inner + at(
            quote.span,
            seq![rbrace()],
        ),
        quote.braces(inner).span == quote.span,
{
    broadcast use group_written;

}

proof fn lemma_key(quote: Quoted, name: Seq<char>, site: Span)
    ensures
        with_key(quote, name, site).span == quote.span,
        with_key(quote, name, site).tokens == quote.tokens + (at(
            quote.span,
            seq![
                word("let"),
                word("mut"),
                word("key"),
                mark('='),
                word("parent_key"),
                mark('.'),
                word("to_vec"),
                lparen(),
                rparen(),
                mark(';'),
                word("key"),
                mark('.'),
                word("push"),
                lparen(),
            ],
        ) + at(site, seq![TokenKind::Str(name)]) + at(
            quote.span,
            seq![mark('.'), word("into"), lparen(), rparen(), rparen(), mark(';')],
        )),
{
    broadcast use group_written;

}

/// What is forwarded under a key of its own.
proof fn lemma_own_call(quote: Quoted, path: Seq<Token>, ident: Seq<Token>)
    ensures
        ({
            let span = quote.span;
            let target = quoted(span).punct('&').word("self").punct('.').stream(ident).tokens;
            let key = quoted(span).punct('&').word("key").tokens;
            &&& with_call(quote, path, target, key).span == span
            &&& with_call(quote, path, target, key).tokens == quote.tokens + (path + at(
                span,
                seq![
                    joint(':'),
                    mark(':'),
                    word("settings"),
                    joint(':'),
                    mark(':'),
                    word("Settings"),
                    joint(':'),
                    mark(':'),
                    word("add_docs"),
                    lparen(),
                    mark('&'),
                    word("self"),
                    mark('.'),
                ],
            ) + ident + at(
                span,
                seq![
                    mark(','),
                    mark('&'),
                    word("key"),
                    mark(','),
                    word("docs"),
                    rparen(),
                    mark(';'),
                ],
            ))
        }),
{
    broadcast use group_written;

}

/// What a variant holds, forwarded under its key.
proof fn lemma_value_call(quote: Quoted, path: Seq<Token>)
    ensures
        ({
            let span = quote.span;
            let target = quoted(span).word("value").tokens;
            let key = quoted(span).punct('&').word("key").tokens;
            &&& with_call(quote, path, target, key).span == span
            &&& with_call(quote, path, target, key).tokens == quote.tokens + (path + at(
                span,
                seq![
                    joint(':'),
                    mark(':'),
                    word("settings"),
                    joint(':'),
                    mark(':'),
                    word("Settings"),
                    joint(':'),
                    mark(':'),
                    word("add_docs"),
                    lparen(),
                    word("value"),
                    mark(','),
                    mark('&'),
                    word("key"),
                    mark(','),
                    word("docs"),
                    rparen(),
                    mark(';'),
                ],
            ))
        }),
{
    broadcast use group_written;

}

/// The insertion of literals that are already listed.
proof fn lemma_insertion(list: Seq<Token>, site: Span)
    ensures
        quoted(site).word("docs").punct('.').word("insert").parens(
            quoted(site).word("key").punct(',').punct('&').brackets(list).brackets(
                quoted(site).pair('.', '.').tokens,
            ).tokens,
        ).punct(';').tokens == at(
            site,
            seq![
                word("docs"),
                mark('.'),
                word("insert"),
                lparen(),
                word("key"),
                mark(','),
                mark('&'),
                lbracket(),
            ],
        ) + list + at(
            site,
            seq![
                rbracket(),
                lbracket(),
                joint('.'),
                mark('.'),
                rbracket(),
                rparen(),
                mark(';'),
            ],
        ),
{
    broadcast use group_written;

}

proof fn lemma_insert(quote: Quoted, literals: Seq<Seq<Token>>, site: Span)
    ensures
        with_docs(quote, literals, site).span == quote.span,
        with_docs(quote, literals, site).tokens == quote.tokens + (if literals.len() == 0 {
            Seq::empty()
        } else {
            at(
                site,
                seq![
                    word("docs"),
                    mark('.'),
                    word("insert"),
                    lparen(),
                    word("key"),
                    mark(','),
                    mark('&'),
                    lbracket(),
                ],
            ) + literals.map_values(
                |item: Seq<Token>| item.push(Token { kind: mark(','), span: site }),
            ).flatten() + at(
                site,
                seq![
                    rbracket(),
                    lbracket(),
                    joint('.'),
                    mark('.'),
                    rbracket(),
                    rparen(),
                    mark(';'),
                ],
            )
        }),
{
    broadcast use lemma_add_empty;

    lemma_commas(literals, site);
    lemma_insertion(with_commas(literals, site), site);
}

/// The arm for a variant that holds something.
proof fn lemma_arm(guards: Seq<Token>, ident: Seq<Token>, body: Seq<Token>, span: Span)
    ensures
        quoted(span).stream(guards).stream(
            quoted(span).word("Self").sep().stream(ident).parens(
                quoted(span).word("value").tokens,
            ).tokens,
        ).pair('=', '>').braces(body).tokens == guards + at(
            span,
            seq![word("Self"), joint(':'), mark(':')],
        ) + ident + at(
            span,
            seq![lparen(), word("value"), rparen(), joint('='), mark('>'), lbrace()],
        ) + body + at(span, seq![rbrace()]),
{
    broadcast use group_written;

}

/// The tokens up to the name of the key.
proof fn lemma_arm_opens(span: Span)
    ensures
        at(
            span,
            seq![
                lparen(),
                word("value"),
                rparen(),
                joint('='),
                mark('>'),
                lbrace(),
                word("let"),
                word("mut"),
                word("key"),
                mark('='),
                word("parent_key"),
                mark('.'),
                word("to_vec"),
                lparen(),
                rparen(),
                mark(';'),
                word("key"),
                mark('.'),
                word("push"),
                lparen(),
            ],
        ) == at(
            span,
            seq![lparen(), word("value"), rparen(), joint('='), mark('>'), lbrace()],
        ) + at(
            span,
            seq![
                word("let"),
                word("mut"),
                word("key"),
                mark('='),
                word("parent_key"),
                mark('.'),
                word("to_vec"),
                lparen(),
                rparen(),
                mark(';'),
                word("key"),
                mark('.'),
                word("push"),
                lparen(),
            ],
        ),
{
    broadcast use group_written;

}

/// A field, forwarded under the key of the structure.
proof fn lemma_parent_call(path: Seq<Token>, ident: Seq<Token>, span: Span)
    ensures
        with_call(
            quoted(span),
            path,
            quoted(span).punct('&').word("self").punct('.').stream(ident).tokens,
            quoted(span).word("parent_key").tokens,
        ).tokens == path + at(
            span,
            seq![
                joint(':'),
                mark(':'),
                word("settings"),
                joint(':'),
                mark(':'),
                word("Settings"),
                joint(':'),
                mark(':'),
                word("add_docs"),
                lparen(),
                mark('&'),
                word("self"),
                mark('.'),
            ],
        ) + ident + at(
            span,
            seq![mark(','), word("parent_key"), mark(','), word("docs"), rparen(), mark(';')],
        ),
{
    broadcast use group_written;

}

/// A `Settings` impl without a body names the trait by exactly the crate path that is asked for:
/// `impl crate_path::settings::Settings for ident { }`.
pub proof fn law_plain_impl_is_written(options: OptionsView<Token>, ident: Seq<Token>, site: Span)
    ensures
        plain_impl(options, ident, site) == at(site, seq![word("impl")]) + options.crate_path + at(
            site,
            seq![
                joint(':'),
                mark(':'),
                word("settings"),
                joint(':'),
                mark(':'),
                word("Settings"),
                word("for"),
            ],
        ) + ident + at(site, seq![lbrace(), rbrace()]),
{
    broadcast use group_written;

}

/// What `add_docs` does for a field that is not flattened, token by token: it opens a key with the
/// name of the field, forwards the field under it unless its type is `[T; 0]`, and inserts the
/// literals of all doc comments of the field, in order and with nothing left out, if it has any:
///
/// ```text
/// let mut key = parent_key.to_vec();
/// key.push("name".into());
/// crate_path::settings::Settings::add_docs(&self.name, &key, docs);
/// docs.insert(key, &[literal, literal,][..]);
/// ```
///
/// All of it stands in a block behind the `cfg` attributes of the field, if it has any.
#[verifier::spinoff_prover]
#[verifier::rlimit(40)]
pub proof fn law_field_docs_are_written(
    options: OptionsView<Token>,
    field: FieldView<Token>,
    site: Span,
)
    requires
        !is_flattened(field.attrs),
    ensures
        ({
            let span = field.ty.span;
            let literals = field.attrs.filter_map(
                |attr: AttributeView<Token>|
                    if attr.meta.ident == Some("doc"@) {
                        match attr.meta.form {
                            FormView::NameValue(ValueView::Str { tokens, .. }) => Some(tokens),
                            _ => None,
                        }
                    } else {
                        None
                    },
            );
            let guards = field.attrs.filter_map(
                |attr: AttributeView<Token>|
                    if attr.meta.ident == Some("cfg"@) {
                        Some(attr.tokens)
                    } else {
                        None
                    },
            ).flatten();
            let open = at(
                span,
                seq![
                    word("let"),
                    word("mut"),
                    word("key"),
                    mark('='),
                    word("parent_key"),
                    mark('.'),
                    word("to_vec"),
                    lparen(),
                    rparen(),
                    mark(';'),
                    word("key"),
                    mark('.'),
                    word("push"),
                    lparen(),
                ],
            ) + at(site, seq![TokenKind::Str(field.ident.name)]) + at(
                span,
                seq![mark('.'), word("into"), lparen(), rparen(), rparen(), mark(';')],
            );
            let forward = if is_zero_array(field.ty) {
                Seq::empty()
            } else {
                options.crate_path + at(
                    span,
                    seq![
                        joint(':'),
                        mark(':'),
                        word("settings"),
                        joint(':'),
                        mark(':'),
                        word("Settings"),
                        joint(':'),
                        mark(':'),
                        word("add_docs"),
                        lparen(),
                        mark('&'),
                        word("self"),
                        mark('.'),
                    ],
                ) + field.ident.tokens + at(
                    span,
                    seq![
                        mark(','),
                        mark('&'),
                        word("key"),
                        mark(','),
                        word("docs"),
                        rparen(),
                        mark(';'),
                    ],
                )
            };
            let insert = if literals.len() == 0 {
                Seq::empty()
            } else {
                at(
                    site,
                    seq![
                        word("docs"),
                        mark('.'),
                        word("insert"),
                        lparen(),
                        word("key"),
                        mark(','),
                        mark('&'),
                        lbracket(),
                    ],
                ) + literals.map_values(
                    |item: Seq<Token>| item.push(Token { kind: mark(','), span: site }),
                ).flatten() + at(
                    site,
                    seq![
                        rbracket(),
                        lbracket(),
                        joint('.'),
                        mark('.'),
                        rbracket(),
                        rparen(),
                        mark(';'),
                    ],
                )
            };
            let is_guarded = exists|i: int|
                0 <= i < field.attrs.len() && (#[trigger] field.attrs[i]).meta.ident == Some("cfg"@);
            field_docs(options, field, site) == if is_guarded {
                guards + at(site, seq![lbrace()]) + open + forward + insert + at(
                    site,
                    seq![rbrace()],
                )
            } else {
                open + forward + insert
            }
        }),
{
    broadcast use {lemma_add_add, lemma_add_empty, lemma_empty_add};

    let span = field.ty.span;
    lemma_guards_and_docs(field.attrs);
    lemma_key(quoted(span), field.ident.name, site);
    let key = with_key(quoted(span), field.ident.name, site);
    lemma_own_call(key, options.crate_path, field.ident.tokens);
    let call = if is_zero_array(field.ty) {
        key
    } else {
        with_call(
            key,
            options.crate_path,
            quoted(span).punct('&').word("self").punct('.').stream(field.ident.tokens).tokens,
            quoted(span).punct('&').word("key").tokens,
        )
    };
    lemma_insert(call, doc_comments(field.attrs), site);
    let body = with_docs(call, doc_comments(field.attrs), site).tokens;
    lemma_braces(quoted(site).stream(concat(cfgs(field.attrs))), body);
}

/// What `add_docs` does for a flattened field, token by token: the field is forwarded under the key
/// of the structure itself, in a block behind the `cfg` attributes of the field:
/// `{ crate_path::settings::Settings::add_docs(&self.name, parent_key, docs); }`.
#[verifier::spinoff_prover]
#[verifier::rlimit(40)]
pub proof fn law_flattened_field_docs_are_written(
    options: OptionsView<Token>,
    field: FieldView<Token>,
    site: Span,
)
    requires
        is_flattened(field.attrs),
    ensures
        ({
            let span = field.ty.span;
            let guards = field.attrs.filter_map(
                |attr: AttributeView<Token>|
                    if attr.meta.ident == Some("cfg"@) {
                        Some(attr.tokens)
                    } else {
                        None
                    },
            ).flatten();
            field_docs(options, field, site) == guards + at(span, seq![lbrace()])
                + options.crate_path + at(
                span,
                seq![
                    joint(':'),
                    mark(':'),
                    word("settings"),
                    joint(':'),
                    mark(':'),
                    word("Settings"),
                    joint(':'),
                    mark(':'),
                    word("add_docs"),
                    lparen(),
                    mark('&'),
                    word("self"),
                    mark('.'),
                ],
            ) + field.ident.tokens + at(
                span,
                seq![
                    mark(','),
                    word("parent_key"),
                    mark(','),
                    word("docs"),
                    rparen(),
                    mark(';'),
                    rbrace(),
                ],
            )
        }),
{
    broadcast use {lemma_add_add, lemma_add_empty, lemma_empty_add};

    let span = field.ty.span;
    let target = quoted(span).punct('&').word("self").punct('.').stream(field.ident.tokens).tokens;
    let parent = quoted(span).word("parent_key").tokens;
    let call = with_call(quoted(span), options.crate_path, target, parent).tokens;
    lemma_guards_and_docs(field.attrs);
    lemma_parent_call(options.crate_path, field.ident.tokens, span);
    lemma_braces(quoted(span).stream(concat(cfgs(field.attrs))), call);
    assert(at(
        span,
        seq![
            mark(','),
            word("parent_key"),
            mark(','),
            word("docs"),
            rparen(),
            mark(';'),
            rbrace(),
        ],
    ) =~= at(
        span,
        seq![mark(','), word("parent_key"), mark(','), word("docs"), rparen(), mark(';')],
    ) + at(span, seq![rbrace()]));
}

/// The arm of `add_docs` for a variant with a key of its own, token by token: what the variant holds
/// is forwarded under the key, and the literals of all doc comments of the variant are inserted, in
/// order and with nothing left out, if it has any:
///
/// ```text
/// Self::Name(value) => {
///     let mut key = parent_key.to_vec();
///     key.push("name".into());
///     crate_path::settings::Settings::add_docs(value, &key, docs);
///     docs.insert(key, &[literal, literal,][..]);
/// }
/// ```
///
/// The `cfg` attributes of the variant stand before it.
#[verifier::spinoff_prover]
#[verifier::rlimit(40)]
pub proof fn law_variant_docs_are_written(
    options: OptionsView<Token>,
    variant: VariantView<Token>,
    site: Span,
)
    requires
        variant.shape is Unnamed,
        !is_skipped(variant.attrs),
    ensures
        ({
            let span = variant.span;
            let literals = variant.attrs.filter_map(
                |attr: AttributeView<Token>|
                    if attr.meta.ident == Some("doc"@) {
                        match attr.meta.form {
                            FormView::NameValue(ValueView::Str { tokens, .. }) => Some(tokens),
                            _ => None,
                        }
                    } else {
                        None
                    },
            );
            let guards = variant.attrs.filter_map(
                |attr: AttributeView<Token>|
                    if attr.meta.ident == Some("cfg"@) {
                        Some(attr.tokens)
                    } else {
                        None
                    },
            ).flatten();
            let insert = if literals.len() == 0 {
                Seq::empty()
            } else {
                at(
                    site,
                    seq![
                        word("docs"),
                        mark('.'),
                        word("insert"),
                        lparen(),
                        word("key"),
                        mark(','),
                        mark('&'),
                        lbracket(),
                    ],
                ) + literals.map_values(
                    |item: Seq<Token>| item.push(Token { kind: mark(','), span: site }),
                ).flatten() + at(
                    site,
                    seq![
                        rbracket(),
                        lbracket(),
                        joint('.'),
                        mark('.'),
                        rbracket(),
                        rparen(),
                        mark(';'),
                    ],
                )
            };
            variant_docs(options, variant, site) == guards + at(
                span,
                seq![word("Self"), joint(':'), mark(':')],
            ) + variant.ident.tokens + at(
                span,
                seq![
                    lparen(),
                    word("value"),
                    rparen(),
                    joint('='),
                    mark('>'),
                    lbrace(),
                    word("let"),
                    word("mut"),
                    word("key"),
                    mark('='),
                    word("parent_key"),
                    mark('.'),
                    word("to_vec"),
                    lparen(),
                    rparen(),
                    mark(';'),
                    word("key"),
                    mark('.'),
                    word("push"),
                    lparen(),
                ],
            ) + at(site, seq![TokenKind::Str(variant_name(variant))]) + at(
                span,
                seq![mark('.'), word("into"), lparen(), rparen(), rparen(), mark(';')],
            ) + options.crate_path + at(
                span,
                seq![
                    joint(':'),
                    mark(':'),
                    word("settings"),
                    joint(':'),
                    mark(':'),
                    word("Settings"),
                    joint(':'),
                    mark(':'),
                    word("add_docs"),
                    lparen(),
                    word("value"),
                    mark(','),
                    mark('&'),
                    word("key"),
                    mark(','),
                    word("docs"),
                    rparen(),
                    mark(';'),
                ],
            ) + insert + at(span, seq![rbrace()])
        }),
{
    let span = variant.span;
    lemma_guards_and_docs(variant.attrs);
    let key = with_key(quoted(span), variant_name(variant), site);
    let call = with_call(
        key,
        options.crate_path,
        quoted(span).word("value").tokens,
        quoted(span).punct('&').word("key").tokens,
    );
    lemma_key(quoted(span), variant_name(variant), site);
    lemma_value_call(key, options.crate_path);
    lemma_insert(call, doc_comments(variant.attrs), site);
    let body = with_docs(call, doc_comments(variant.attrs), site).tokens;
    lemma_arm(concat(cfgs(variant.attrs)), variant.ident.tokens, body, span);
    lemma_arm_opens(span);
    broadcast use {lemma_add_add, lemma_add_empty, lemma_empty_add};
}

/// The arm of `add_docs` for a variant without a key of its own, token by token:
/// `Self::Name(..) => { }` where the variant holds something, and `Self::Name => { }` where it does
/// not. The `cfg` attributes of the variant stand before it.
pub proof fn law_empty_arm_is_written(
    options: OptionsView<Token>,
    variant: VariantView<Token>,
    site: Span,
)
    requires
        variant.shape !is Unnamed || is_skipped(variant.attrs),
    ensures
        ({
            let span = variant.span;
            let guards = variant.attrs.filter_map(
                |attr: AttributeView<Token>|
                    if attr.meta.ident == Some("cfg"@) {
                        Some(attr.tokens)
                    } else {
                        None
                    },
            ).flatten();
            let held = if variant.shape is Unnamed {
                at(span, seq![lparen(), joint('.'), mark('.'), rparen()])
            } else {
                Seq::empty()
            };
            variant_docs(options, variant, site) == guards + at(
                span,
                seq![word("Self"), joint(':'), mark(':')],
            ) + variant.ident.tokens + held + at(
                site,
                seq![joint('='), mark('>'), lbrace(), rbrace()],
            )
        }),
{
    broadcast use group_written;

    lemma_guards_and_docs(variant.attrs);
}

proof fn lemma_add_docs(body: Seq<Token>, site: Span)
    ensures
        with_add_docs(quoted(site), body).tokens == at(
            site,
            seq![
                word("fn"),
            word("add_docs"),
            lparen(),
            mark('&'),
            word("self"),
            mark(','),
            word("parent_key"),
            mark(':'),
            mark('&'),
            lbracket(),
            word("String"),
            rbracket(),
            mark(','),
            word("docs"),
            mark(':'),
            mark('&'),
            word("mut"),
            joint(':'),
            mark(':'),
            word("std"),
            joint(':'),
            mark(':'),
            word("collections"),
            joint(':'),
            mark(':'),
            word("HashMap"),
            mark('<'),
            word("Vec"),
            mark('<'),
            word("String"),
            mark('>'),
            mark(','),
            mark('&'),
            joint('\''),
            word("static"),
            lbracket(),
            mark('&'),
            joint('\''),
            word("static"),
            word("str"),
            rbracket(),
            mark('>'),
            rparen(),
            lbrace(),
            ],
        ) + body + at(site, seq![rbrace()]),
{
    broadcast use group_written;

}

proof fn lemma_enum_head(path: Seq<Token>, ident: Seq<Token>, site: Span)
    ensures
        with_trait(quoted(site).word("impl"), path).word("for").stream(ident).tokens == at(
            site,
            seq![word("impl")],
        ) + path + at(
            site,
            seq![
                joint(':'),
            mark(':'),
            word("settings"),
            joint(':'),
            mark(':'),
            word("Settings"),
            word("for"),
            ],
        ) + ident,
        quoted(site).word("match").word("self").tokens + at(site, seq![lbrace()]) == at(
            site,
            seq![word("match"), word("self"), lbrace()],
        ),
{
    broadcast use group_written;

}

proof fn lemma_struct_head(path: Seq<Token>, item: StructView<Token>, site: Span)
    ensures
        with_trait(quoted(site).word("impl").stream(item.generics.impl_generics), path).word(
            "for",
        ).stream(item.ident.tokens).stream(item.generics.ty_generics).stream(
            item.generics.where_clause,
        ).tokens == at(site, seq![word("impl")]) + item.generics.impl_generics + path + at(
            site,
            seq![
                joint(':'),
            mark(':'),
            word("settings"),
            joint(':'),
            mark(':'),
            word("Settings"),
            word("for"),
            ],
        ) + item.ident.tokens + item.generics.ty_generics + item.generics.where_clause,
{
    broadcast use group_written;

}

proof fn lemma_default_head(item: StructView<Token>, site: Span)
    ensures
        quoted(site).word("impl").stream(item.generics.impl_generics).word("Default").word(
            "for",
        ).stream(item.ident.tokens).stream(item.generics.ty_generics).stream(
            item.generics.where_clause,
        ).tokens == at(site, seq![word("impl")]) + item.generics.impl_generics + at(
            site,
            seq![word("Default"), word("for")],
        ) + item.ident.tokens + item.generics.ty_generics + item.generics.where_clause,
{
    broadcast use group_written;

}

proof fn lemma_default_body(start: Quoted, list: Seq<Token>)
    ensures
        ({
            let site = start.span;
            let value = quoted(site).word("Self").braces(list).tokens;
            let function = quoted(site).word("fn").word("default").parens(Seq::empty()).pair(
                '-',
                '>',
            ).word("Self").braces(value).tokens;
            start.braces(function).tokens == start.tokens + at(
                site,
                seq![
                    lbrace(),
                    word("fn"),
                    word("default"),
                    lparen(),
                    rparen(),
                    joint('-'),
                    mark('>'),
                    word("Self"),
                    lbrace(),
                    word("Self"),
                    lbrace(),
                ],
            ) + list + at(site, seq![rbrace(), rbrace(), rbrace()])
        }),
{
    broadcast use group_written;

}

/// The `Settings` impl of a structure, token by token. Its `add_docs` does what is to be done for each
/// field, in order and with none left out. The trait is named by exactly the crate path that is asked
/// for, and the generic parameters of the structure are kept.
#[verifier::spinoff_prover]
#[verifier::rlimit(40)]
pub proof fn law_struct_impl_is_written(
    options: OptionsView<Token>,
    item: StructView<Token>,
    site: Span,
)
    ensures
        ({
            let docs = match item.fields {
                FieldsView::Named(fields) => fields.map_values(
                    |field: FieldView<Token>| field_docs(options, field, site),
                ).flatten(),
                _ => Seq::empty(),
            };
            struct_impl(options, item, site) == at(site, seq![word("impl")])
                + item.generics.impl_generics + options.crate_path + at(
                site,
                seq![
                    joint(':'),
            mark(':'),
            word("settings"),
            joint(':'),
            mark(':'),
            word("Settings"),
            word("for"),
                ],
            ) + item.ident.tokens + item.generics.ty_generics + item.generics.where_clause + at(
                site,
                seq![lbrace()],
            ) + at(
                site,
                seq![
                    word("fn"),
            word("add_docs"),
            lparen(),
            mark('&'),
            word("self"),
            mark(','),
            word("parent_key"),
            mark(':'),
            mark('&'),
            lbracket(),
            word("String"),
            rbracket(),
            mark(','),
            word("docs"),
            mark(':'),
            mark('&'),
            word("mut"),
            joint(':'),
            mark(':'),
            word("std"),
            joint(':'),
            mark(':'),
            word("collections"),
            joint(':'),
            mark(':'),
            word("HashMap"),
            mark('<'),
            word("Vec"),
            mark('<'),
            word("String"),
            mark('>'),
            mark(','),
            mark('&'),
            joint('\''),
            word("static"),
            lbracket(),
            mark('&'),
            joint('\''),
            word("static"),
            word("str"),
            rbracket(),
            mark('>'),
            rparen(),
            lbrace(),
                ],
            ) + docs + at(site, seq![rbrace()]) + at(site, seq![rbrace()])
        }),
{
    let docs = concat(all_field_docs(options, item.fields, site));
    lemma_concat_is_flatten(all_field_docs(options, item.fields, site));
    lemma_add_docs(docs, site);
    let start = quoted(site).word("impl").stream(item.generics.impl_generics);
    let head = with_trait(start, options.crate_path).word("for").stream(item.ident.tokens).stream(
        item.generics.ty_generics,
    ).stream(item.generics.where_clause);
    lemma_struct_head(options.crate_path, item, site);
    lemma_braces(head, with_add_docs(quoted(site), docs).tokens);
    broadcast use lemma_add_add;
}

/// The `Settings` impl of an enum whose variants are documented, token by token. Its `add_docs` has an
/// arm for each variant, in order and with none left out. The trait is named by exactly the crate path
/// that is asked for.
#[verifier::spinoff_prover]
#[verifier::rlimit(40)]
pub proof fn law_enum_impl_is_written(
    options: OptionsView<Token>,
    item: EnumView<Token>,
    i: int,
    site: Span,
)
    requires
        0 <= i < item.variants.len(),
        item.variants[i].shape is Unnamed,
        !is_skipped(item.variants[i].attrs),
    ensures
        enum_impl(options, item, true, site) == at(site, seq![word("impl")]) + options.crate_path + at(
            site,
            seq![
                joint(':'),
            mark(':'),
            word("settings"),
            joint(':'),
            mark(':'),
            word("Settings"),
            word("for"),
            ],
        ) + item.ident.tokens + at(site, seq![lbrace()]) + at(
            site,
            seq![
                word("fn"),
            word("add_docs"),
            lparen(),
            mark('&'),
            word("self"),
            mark(','),
            word("parent_key"),
            mark(':'),
            mark('&'),
            lbracket(),
            word("String"),
            rbracket(),
            mark(','),
            word("docs"),
            mark(':'),
            mark('&'),
            word("mut"),
            joint(':'),
            mark(':'),
            word("std"),
            joint(':'),
            mark(':'),
            word("collections"),
            joint(':'),
            mark(':'),
            word("HashMap"),
            mark('<'),
            word("Vec"),
            mark('<'),
            word("String"),
            mark('>'),
            mark(','),
            mark('&'),
            joint('\''),
            word("static"),
            lbracket(),
            mark('&'),
            joint('\''),
            word("static"),
            word("str"),
            rbracket(),
            mark('>'),
            rparen(),
            lbrace(),
            ],
        ) + at(site, seq![word("match"), word("self"), lbrace()]) + item.variants.map_values(
            |variant: VariantView<Token>| variant_docs(options, variant, site),
        ).flatten() + at(site, seq![rbrace()]) + at(site, seq![rbrace()]) + at(site, seq![rbrace()]),
{
    assert(is_documented(item.variants[i]));
    let arms = concat(all_variant_docs(options, item.variants, site));
    lemma_concat_is_flatten(all_variant_docs(options, item.variants, site));
    let body = quoted(site).word("match").word("self").braces(arms).tokens;
    lemma_braces(quoted(site).word("match").word("self"), arms);
    lemma_add_docs(body, site);
    let head = with_trait(quoted(site).word("impl"), options.crate_path).word("for").stream(
        item.ident.tokens,
    );
    lemma_enum_head(options.crate_path, item.ident.tokens, site);
    lemma_braces(head, with_add_docs(quoted(site), body).tokens);
    broadcast use lemma_add_add;
}

/// The `Settings` impl of an enum without the documentation of its variants has no body. That holds of
/// every enum unless what is not stable is asked for, and of every enum of whose variants none gets a
/// key of its own.
pub proof fn law_bare_enum_impl_is_written(
    options: OptionsView<Token>,
    item: EnumView<Token>,
    unstable: bool,
    site: Span,
)
    requires
        !unstable || forall|i: int|
            0 <= i < item.variants.len() ==> (#[trigger] item.variants[i]).shape !is Unnamed
                || is_skipped(item.variants[i].attrs),
    ensures
        enum_impl(options, item, unstable, site) == at(site, seq![word("impl")])
            + options.crate_path + at(
            site,
            seq![
                joint(':'),
            mark(':'),
            word("settings"),
            joint(':'),
            mark(':'),
            word("Settings"),
            word("for"),
            ],
        ) + item.ident.tokens + at(site, seq![lbrace(), rbrace()]),
{
    if any_documented(item.variants) {
        let i = choose|i: int|
            0 <= i < item.variants.len() && is_documented(#[trigger] item.variants[i]);
        assert(item.variants[i].shape is Unnamed);
    }
    law_plain_impl_is_written(options, item.ident.tokens, site);
}

/// The `Default` impl of a structure, token by token, out of the initializers of its fields, in order
/// and with none left out:
///
/// ```text
/// impl Default for Name {
///     fn default() -> Self { Self { initializer, initializer, } }
/// }
/// ```
#[verifier::spinoff_prover]
#[verifier::rlimit(40)]
pub proof fn law_default_impl_is_written(
    item: StructView<Token>,
    initializers: Seq<Seq<Token>>,
    site: Span,
)
    requires
        match item.fields {
            FieldsView::Named(fields) => initializers.len() == fields.len() && forall|i: int|
                0 <= i < fields.len() ==> field_default(#[trigger] fields[i], site) == Ok::<_, Texts>(
                    initializers[i],
                ),
            _ => initializers.len() == 0,
        },
    ensures
        default_impl(item, site) == Ok::<_, Texts>(
            at(site, seq![word("impl")]) + item.generics.impl_generics + at(
                site,
                seq![word("Default"), word("for")],
            ) + item.ident.tokens + item.generics.ty_generics + item.generics.where_clause + at(
                site,
                seq![
                    lbrace(),
                    word("fn"),
                    word("default"),
                    lparen(),
                    rparen(),
                    joint('-'),
                    mark('>'),
                    word("Self"),
                    lbrace(),
                    word("Self"),
                    lbrace(),
                ],
            ) + initializers.map_values(
                |item: Seq<Token>| item.push(Token { kind: mark(','), span: site }),
            ).flatten() + at(site, seq![rbrace(), rbrace(), rbrace()]),
        ),
{
    if let FieldsView::Named(fields) = item.fields {
        lemma_all_initialized(fields, initializers, site);
    } else {
        assert(initializers =~= Seq::empty());
    }
    let list = with_commas(initializers, site);
    lemma_commas(initializers, site);
    let start = quoted(site).word("impl").stream(item.generics.impl_generics).word("Default").word(
        "for",
    ).stream(item.ident.tokens).stream(item.generics.ty_generics).stream(item.generics.where_clause);
    lemma_default_head(item, site);
    lemma_default_body(start, list);
}

proof fn lemma_all_initialized(
    fields: Seq<FieldView<Token>>,
    initializers: Seq<Seq<Token>>,
    site: Span,
)
    requires
        initializers.len() == fields.len(),
        forall|i: int|
            0 <= i < fields.len() ==> field_default(#[trigger] fields[i], site) == Ok::<_, Texts>(
                initializers[i],
            ),
    ensures
        field_defaults(FieldsView::Named(fields), site) == Ok::<_, Texts>(initializers),
    decreases fields.len(),
{
    if fields.len() > 0 {
        let before = fields.drop_last();
        assert forall|i: int| 0 <= i < before.len() implies field_default(
            #[trigger] before[i],
            site,
        ) == Ok::<_, Texts>(initializers.drop_last()[i]) by {
            assert(before[i] == fields[i]);
        }
        lemma_all_initialized(before, initializers.drop_last(), site);
        assert(fields.last() == fields[fields.len() - 1]);
        assert(initializers =~= initializers.drop_last().push(initializers.last()));
    } else {
        assert(initializers =~= Seq::empty());
    }
}

/// There is no `Default` impl of a structure with a field whose `serde` arguments are not all right.
/// All that is wrong with those of the first such field is reported.
pub proof fn law_wrong_field_has_no_default(
    item: StructView<Token>,
    fields: Seq<FieldView<Token>>,
    i: int,
    site: Span,
)
    requires
        item.fields == FieldsView::Named(fields),
        0 <= i < fields.len(),
        field_default(fields[i], site) is Err,
        forall|k: int| 0 <= k < i ==> field_default(#[trigger] fields[k], site) is Ok,
    ensures
        default_impl(item, site) == Err::<Seq<Token>, _>(field_default(fields[i], site)->Err_0),
{
    let read = |field: FieldView<Token>| field_default(field, site);
    let before = fields.take(i);
    let initializers = Seq::new(before.len(), |k: int| field_default(before[k], site)->Ok_0);
    assert forall|k: int| 0 <= k < before.len() implies field_default(#[trigger] before[k], site)
        == Ok::<_, Texts>(initializers[k]) by {
        assert(before[k] == fields[k]);
    }
    lemma_all_initialized(before, initializers, site);
    lemma_collected_fails(fields, read, i);
}

proof fn lemma_first_attr(attrs: Seq<AttributeView<Token>>, name: &str, i: int)
    requires
        0 <= i < attrs.len(),
        attrs[i].meta.ident == Some(name@),
        forall|k: int| 0 <= k < i ==> (#[trigger] attrs[k]).meta.ident != Some(name@),
    ensures
        first_attr(attrs, name) == Some(attrs[i]),
{
    let pick = |attr: AttributeView<Token>| attr_named(attr, name);
    lemma_first_picked(attrs, pick);
    assert(pick(attrs[i]) is Some);
    let found = first_attr(attrs, name)->0;
    let k = choose|k: int|
        0 <= k < attrs.len() && pick(#[trigger] attrs[k]) == Some(found) && forall|j: int|
            0 <= j < k ==> pick(#[trigger] attrs[j]) is None;
    if k < i {
        assert(attrs[k].meta.ident != Some(name@));
    } else if i < k {
        assert(pick(attrs[i]) is None);
    }
}

/// A field whose first `serde` attribute gives it a default path is initialized by calling exactly
/// that path, whatever other attributes it has: `name: path()`, behind its `cfg` attributes.
pub proof fn law_default_path_initializes(
    field: FieldView<Token>,
    i: int,
    args: Seq<ArgView<Token>>,
    k: int,
    path: Seq<Token>,
    site: Span,
)
    requires
        0 <= i < field.attrs.len(),
        field.attrs[i].meta.ident == Some("serde"@),
        forall|j: int| 0 <= j < i ==> (#[trigger] field.attrs[j]).meta.ident != Some("serde"@),
        field.attrs[i].args == Ok::<_, Texts>(args),
        0 <= k < args.len(),
        args[k] matches ArgView::Named(arg) && arg.name == "default"@ && arg.optional_path == Ok::<
            _,
            Texts,
        >(Some(path)),
        field_default(field, site) is Ok,
    ensures
        ({
            let span = field.ty.span;
            let guards = field.attrs.filter_map(
                |attr: AttributeView<Token>|
                    if attr.meta.ident == Some("cfg"@) {
                        Some(attr.tokens)
                    } else {
                        None
                    },
            ).flatten();
            field_default(field, site)->Ok_0 == guards + field.ident.tokens + at(
                span,
                seq![mark(':')],
            ) + path + at(span, seq![lparen(), rparen()])
        }),
{
    lemma_first_attr(field.attrs, "serde", i);
    lemma_serde_default_is(args, k);
    lemma_guards_and_docs(field.attrs);
    broadcast use group_written;
}

/// A field whose first `serde` attribute, if it has any, gives it no default path is initialized by
/// `name: Default::default()`, behind its `cfg` attributes.
pub proof fn law_no_default_path_initializes(field: FieldView<Token>, site: Span)
    requires
        forall|i: int, k: int|
            {
                &&& 0 <= i < field.attrs.len()
                &&& field.attrs[i].meta.ident == Some("serde"@)
                &&& forall|j: int|
                    0 <= j < i ==> (#[trigger] field.attrs[j]).meta.ident != Some("serde"@)
                &&& field.attrs[i].args is Ok
                &&& 0 <= k < field.attrs[i].args->Ok_0.len()
            } ==> !((#[trigger] field.attrs[i].args->Ok_0[k]) matches ArgView::Named(arg) && arg.name
                == "default"@ && (arg.optional_path matches Ok(Some(_)))),
        field_default(field, site) is Ok,
    ensures
        ({
            let span = field.ty.span;
            let guards = field.attrs.filter_map(
                |attr: AttributeView<Token>|
                    if attr.meta.ident == Some("cfg"@) {
                        Some(attr.tokens)
                    } else {
                        None
                    },
            ).flatten();
            field_default(field, site)->Ok_0 == guards + field.ident.tokens + at(
                span,
                seq![
                    mark(':'),
                    word("Default"),
                    joint(':'),
                    mark(':'),
                    word("default"),
                    lparen(),
                    rparen(),
                ],
            )
        }),
{
    lemma_guards_and_docs(field.attrs);
    let pick = |attr: AttributeView<Token>| attr_named(attr, "serde");
    lemma_first_picked(field.attrs, pick);
    if let Some(found) = first_attr(field.attrs, "serde") {
        let i = choose|i: int|
            0 <= i < field.attrs.len() && pick(#[trigger] field.attrs[i]) == Some(found) && forall|
                j: int,
            |
                0 <= j < i ==> pick(#[trigger] field.attrs[j]) is None;
        assert forall|j: int| 0 <= j < i implies (#[trigger] field.attrs[j]).meta.ident != Some(
            "serde"@,
        ) by {
            assert(pick(field.attrs[j]) is None);
        }
        let args = found.args->Ok_0;
        let by_name = |arg: ArgView<Token>| named(arg, "default"@);
        lemma_first_picked(args, by_name);
        if let Some(arg) = first_named(args, "default"@) {
            let k = choose|k: int|
                0 <= k < args.len() && by_name(#[trigger] args[k]) == Some(arg) && forall|j: int|
                    0 <= j < k ==> by_name(#[trigger] args[j]) is None;
            assert(field.attrs[i].args->Ok_0[k] == ArgView::Named(arg));
        }
    }
    broadcast use group_written;
}

/// Where the arguments are all right, what `default` is given first is all that it is given.
proof fn lemma_serde_default_is(args: Seq<ArgView<Token>>, k: int)
    requires
        serde_args_in(args) is Ok,
        0 <= k < args.len(),
        args[k] matches ArgView::Named(arg) && arg.name == "default"@,
    ensures
        first_named(args, "default"@) == Some(args[k]->Named_0),
{
    let check = |before: Seq<ArgView<Token>>, arg: ArgView<Token>| serde_failure(before, arg);
    lemma_failures(args, check);
    assert(check(args.take(k), args[k]) is None);
    reveal_strlit("flatten");
    reveal_strlit("default");
    assert("flatten"@[0] != "default"@[0]);
    assert(first_named(args.take(k), "default"@) is None);
    assert(args.take(k + 1).drop_last() =~= args.take(k));
    lemma_first_picked_stays(args, |arg: ArgView<Token>| named(arg, "default"@), k + 1);
}

proof fn lemma_serde_path(quote: Quoted, path: Seq<Token>, name: &str)
    ensures
        with_serde(quote, path).sep().word(name).punct(',').span == quote.span,
        with_serde(quote, path).sep().word(name).punct(',').tokens == quote.tokens + path + at(
            quote.span,
            seq![
                joint(':'),
                mark(':'),
                word("reexports_for_macros"),
                joint(':'),
                mark(':'),
                word("serde"),
                joint(':'),
                mark(':'),
                word(name),
                mark(','),
            ],
        ),
{
    broadcast use group_written;

}

proof fn lemma_attribute(inner: Seq<Token>, site: Span)
    ensures
        attribute("derive", inner, site) == at(
            site,
            seq![mark('#'), lbracket(), word("derive"), lparen()],
        ) + inner + at(site, seq![rparen(), rbracket()]),
        quoted(site).word("Clone").punct(',').tokens == at(site, seq![word("Clone"), mark(',')]),
{
    broadcast use group_written;

}

proof fn lemma_derive_serde(path: Seq<Token>, site: Span)
    ensures
        derive_serde(path, site) == at(
            site,
            seq![mark('#'), lbracket(), word("derive"), lparen()],
        ) + (at(site, seq![word("Clone"), mark(',')]) + path + at(
            site,
            seq![
                joint(':'),
                mark(':'),
                word("reexports_for_macros"),
                joint(':'),
                mark(':'),
                word("serde"),
                joint(':'),
                mark(':'),
                word("Serialize"),
                mark(','),
            ],
        ) + path + at(
            site,
            seq![
                joint(':'),
                mark(':'),
                word("reexports_for_macros"),
                joint(':'),
                mark(':'),
                word("serde"),
                joint(':'),
                mark(':'),
                word("Deserialize"),
                mark(','),
            ],
        )) + at(site, seq![rparen(), rbracket()]),
{
    let first = with_serde(quoted(site).word("Clone").punct(','), path).sep().word(
        "Serialize",
    ).punct(',');
    lemma_serde_path(quoted(site).word("Clone").punct(','), path, "Serialize");
    lemma_serde_path(first, path, "Deserialize");
    lemma_attribute(
        with_serde(first, path).sep().word("Deserialize").punct(',').tokens,
        site,
    );
}

proof fn lemma_added_attributes(path: Seq<char>, site: Span)
    ensures
        derive_default(site) == at(
            site,
            seq![
                mark('#'),
                lbracket(),
                word("derive"),
                lparen(),
                word("Default"),
                rparen(),
                rbracket(),
            ],
        ),
        derive_debug(site) == at(
            site,
            seq![
                mark('#'),
                lbracket(),
                word("derive"),
                lparen(),
                word("Debug"),
                rparen(),
                rbracket(),
            ],
        ),
        serde_crate(path, site) == at(
            site,
            seq![
                mark('#'),
                lbracket(),
                word("serde"),
                lparen(),
                word("crate"),
                mark('='),
                TokenKind::Str(path),
                rparen(),
                rbracket(),
            ],
        ),
        serde_deny_unknown_fields(site) == at(
            site,
            seq![
                mark('#'),
                lbracket(),
                word("serde"),
                lparen(),
                word("deny_unknown_fields"),
                rparen(),
                rbracket(),
            ],
        ),
        serde_snake_case(site) == at(
            site,
            seq![
                mark('#'),
                lbracket(),
                word("serde"),
                lparen(),
                word("rename_all"),
                mark('='),
                TokenKind::Str("snake_case"@),
                rparen(),
                rbracket(),
            ],
        ),
        serde_default(site) == at(
            site,
            seq![
                mark('#'),
                lbracket(),
                word("serde"),
                lparen(),
                word("default"),
                rparen(),
                rbracket(),
            ],
        ),
{
    broadcast use group_written;

}

proof fn lemma_concat_add(first: Seq<Seq<Token>>, next: Seq<Seq<Token>>)
    ensures
        concat(first + next) == concat(first) + concat(next),
{
    lemma_concat_is_flatten(first + next);
    lemma_concat_is_flatten(first);
    lemma_concat_is_flatten(next);
    lemma_flatten_concat(first, next);
}

proof fn lemma_concat_one(one: Seq<Token>)
    ensures
        concat(seq![one]) == one,
{
    lemma_concat_is_flatten(seq![one]);
    seq![one].lemma_flatten_one_element();
}

proof fn lemma_concat_none()
    ensures
        concat(Seq::<Seq<Token>>::empty()) == Seq::<Token>::empty(),
{
}

proof fn lemma_default_attrs(options: OptionsView<Token>, env: EnvView)
    ensures
        ({
            let site = env.site;
            concat(default_attrs(options, env)) == (at(
                site,
                seq![mark('#'), lbracket(), word("derive"), lparen()],
            ) + (at(
                site,
                seq![word("Clone"), mark(',')],
            ) + options.crate_path + at(
                site,
                seq![
                    joint(':'),
                    mark(':'),
                    word("reexports_for_macros"),
                    joint(':'),
                    mark(':'),
                    word("serde"),
                    joint(':'),
                    mark(':'),
                    word("Serialize"),
                    mark(','),
                ],
            ) + options.crate_path + at(
                site,
                seq![
                    joint(':'),
                    mark(':'),
                    word("reexports_for_macros"),
                    joint(':'),
                    mark(':'),
                    word("serde"),
                    joint(':'),
                    mark(':'),
                    word("Deserialize"),
                    mark(','),
                ],
            )) + at(site, seq![rparen(), rbracket()])) + (if options.impl_debug {
                at(
                    site,
                    seq![
                        mark('#'),
                        lbracket(),
                        word("derive"),
                        lparen(),
                        word("Debug"),
                        rparen(),
                        rbracket(),
                    ],
                )
            } else {
                Seq::empty()
            }) + (at(
                site,
                seq![
                    mark('#'),
                    lbracket(),
                    word("serde"),
                    lparen(),
                    word("crate"),
                    mark('='),
                    TokenKind::Str(env.serde_path),
                    rparen(),
                    rbracket(),
                ],
            ) + (if options.deny_unknown_fields {
                at(
                    site,
                    seq![
                        mark('#'),
                        lbracket(),
                        word("serde"),
                        lparen(),
                        word("deny_unknown_fields"),
                        rparen(),
                        rbracket(),
                    ],
                )
            } else {
                Seq::empty()
            }))
        }),
{
    let site = env.site;
    let derive = derive_serde(options.crate_path, site);
    let debug = derive_debug(site);
    let path = serde_crate(env.serde_path, site);
    let deny = serde_deny_unknown_fields(site);
    lemma_derive_serde(options.crate_path, site);
    lemma_added_attributes(env.serde_path, site);
    assert(seq![derive, debug] =~= seq![derive] + seq![debug]);
    assert(seq![path, deny] =~= seq![path] + seq![deny]);
    lemma_concat_add(seq![derive], seq![debug]);
    lemma_concat_add(seq![path], seq![deny]);
    lemma_concat_one(derive);
    lemma_concat_one(debug);
    lemma_concat_one(path);
    lemma_concat_one(deny);
    let derives = if options.impl_debug {
        seq![derive, debug]
    } else {
        seq![derive]
    };
    let serde = if options.deny_unknown_fields {
        seq![path, deny]
    } else {
        seq![path]
    };
    lemma_concat_add(derives, serde);
    lemma_add_empty(derive);
    lemma_add_empty(path);
}

/// What an enum of unit variants and new type variants becomes, whatever attributes it has: these,
/// then `#[derive(Default)]` if that is asked for, the attributes that all settings get, and always
/// `#[serde(rename_all = "snake_case")]`; then the item itself and its `Settings` impl.
#[verifier::spinoff_prover]
#[verifier::rlimit(40)]
pub proof fn law_what_an_enum_becomes(
    options: OptionsView<Token>,
    item: EnumView<Token>,
    env: EnvView,
)
    requires
        forall|i: int|
            0 <= i < item.variants.len() ==> match (#[trigger] item.variants[i]).shape {
                Shape::Named => false,
                Shape::Unnamed(count) => count <= 1,
                Shape::Unit => true,
            },
    ensures
        expanded(options, ItemView::Enum(item), env) == expanded_enum(options, item, env),
        ({
            let site = env.site;
            let derived = (if options.impl_default {
                at(
                    site,
                    seq![
                        mark('#'),
                        lbracket(),
                        word("derive"),
                        lparen(),
                        word("Default"),
                        rparen(),
                        rbracket(),
                    ],
                )
            } else {
                Seq::empty()
            });
            let added = (at(site, seq![mark('#'), lbracket(), word("derive"), lparen()]) + (at(
                site,
                seq![word("Clone"), mark(',')],
            ) + options.crate_path + at(
                site,
                seq![
                    joint(':'),
                    mark(':'),
                    word("reexports_for_macros"),
                    joint(':'),
                    mark(':'),
                    word("serde"),
                    joint(':'),
                    mark(':'),
                    word("Serialize"),
                    mark(','),
                ],
            ) + options.crate_path + at(
                site,
                seq![
                    joint(':'),
                    mark(':'),
                    word("reexports_for_macros"),
                    joint(':'),
                    mark(':'),
                    word("serde"),
                    joint(':'),
                    mark(':'),
                    word("Deserialize"),
                    mark(','),
                ],
            )) + at(site, seq![rparen(), rbracket()])) + (if options.impl_debug {
                at(
                    site,
                    seq![
                        mark('#'),
                        lbracket(),
                        word("derive"),
                        lparen(),
                        word("Debug"),
                        rparen(),
                        rbracket(),
                    ],
                )
            } else {
                Seq::empty()
            }) + (at(
                site,
                seq![
                    mark('#'),
                    lbracket(),
                    word("serde"),
                    lparen(),
                    word("crate"),
                    mark('='),
                    TokenKind::Str(env.serde_path),
                    rparen(),
                    rbracket(),
                ],
            ) + (if options.deny_unknown_fields {
                at(
                    site,
                    seq![
                        mark('#'),
                        lbracket(),
                        word("serde"),
                        lparen(),
                        word("deny_unknown_fields"),
                        rparen(),
                        rbracket(),
                    ],
                )
            } else {
                Seq::empty()
            }));
            expanded_enum(options, item, env) == Ok::<_, ErrorView>(
                item.attrs.flatten() + derived + added + at(
                site,
                seq![
                    mark('#'),
                    lbracket(),
                    word("serde"),
                    lparen(),
                    word("rename_all"),
                    mark('='),
                    TokenKind::Str("snake_case"@),
                    rparen(),
                    rbracket(),
                ],
            ) + item.body + enum_impl(options, item, env.unstable, site),
            )
        }),
{
    let site = env.site;
    law_what_is_accepted(options, ItemView::Enum(item), env);
    let snake_case = seq![serde_snake_case(site)];
    let own = item.attrs + derived_default(options, site);
    let most = own + default_attrs(options, env);
    lemma_concat_add(item.attrs, derived_default(options, site));
    lemma_concat_add(own, default_attrs(options, env));
    lemma_concat_add(most, snake_case);
    lemma_concat_one(serde_snake_case(site));
    lemma_concat_one(derive_default(site));
    lemma_concat_none();
    lemma_add_empty(concat(item.attrs));
    lemma_concat_is_flatten(item.attrs);
    lemma_added_attributes(env.serde_path, site);
    lemma_default_attrs(options, env);
}

/// What a structure without field names that has one field at most becomes, whatever attributes it
/// has: these, then `#[derive(Default)]` if that is asked for and the attributes that all settings
/// get; then the item itself and a `Settings` impl without a body.
#[verifier::spinoff_prover]
#[verifier::rlimit(40)]
pub proof fn law_what_a_new_type_becomes(
    options: OptionsView<Token>,
    item: StructView<Token>,
    count: usize,
    env: EnvView,
)
    requires
        count <= 1,
    ensures
        item.fields == FieldsView::<Token>::Unnamed(count) ==> expanded(
            options,
            ItemView::Struct(item),
            env,
        ) == expanded_unnamed_field_struct(options, item, count, env),
        ({
            let site = env.site;
            let derived = (if options.impl_default {
                at(
                    site,
                    seq![
                        mark('#'),
                        lbracket(),
                        word("derive"),
                        lparen(),
                        word("Default"),
                        rparen(),
                        rbracket(),
                    ],
                )
            } else {
                Seq::empty()
            });
            let added = (at(site, seq![mark('#'), lbracket(), word("derive"), lparen()]) + (at(
                site,
                seq![word("Clone"), mark(',')],
            ) + options.crate_path + at(
                site,
                seq![
                    joint(':'),
                    mark(':'),
                    word("reexports_for_macros"),
                    joint(':'),
                    mark(':'),
                    word("serde"),
                    joint(':'),
                    mark(':'),
                    word("Serialize"),
                    mark(','),
                ],
            ) + options.crate_path + at(
                site,
                seq![
                    joint(':'),
                    mark(':'),
                    word("reexports_for_macros"),
                    joint(':'),
                    mark(':'),
                    word("serde"),
                    joint(':'),
                    mark(':'),
                    word("Deserialize"),
                    mark(','),
                ],
            )) + at(site, seq![rparen(), rbracket()])) + (if options.impl_debug {
                at(
                    site,
                    seq![
                        mark('#'),
                        lbracket(),
                        word("derive"),
                        lparen(),
                        word("Debug"),
                        rparen(),
                        rbracket(),
                    ],
                )
            } else {
                Seq::empty()
            }) + (at(
                site,
                seq![
                    mark('#'),
                    lbracket(),
                    word("serde"),
                    lparen(),
                    word("crate"),
                    mark('='),
                    TokenKind::Str(env.serde_path),
                    rparen(),
                    rbracket(),
                ],
            ) + (if options.deny_unknown_fields {
                at(
                    site,
                    seq![
                        mark('#'),
                        lbracket(),
                        word("serde"),
                        lparen(),
                        word("deny_unknown_fields"),
                        rparen(),
                        rbracket(),
                    ],
                )
            } else {
                Seq::empty()
            }));
            expanded_unnamed_field_struct(options, item, count, env) == Ok::<_, ErrorView>(
                item.attrs.flatten() + derived + added + item.body + (at(
                    site,
                    seq![word("impl")],
                ) + options.crate_path + at(
                    site,
                    seq![
                        joint(':'),
                        mark(':'),
                        word("settings"),
                        joint(':'),
                        mark(':'),
                        word("Settings"),
                        word("for"),
                    ],
                ) + item.ident.tokens + at(site, seq![lbrace(), rbrace()])),
            )
        }),
{
    let site = env.site;
    let own = item.attrs + derived_default(options, site);
    lemma_concat_add(item.attrs, derived_default(options, site));
    lemma_concat_add(own, default_attrs(options, env));
    lemma_concat_one(derive_default(site));
    lemma_concat_none();
    lemma_add_empty(concat(item.attrs));
    lemma_concat_is_flatten(item.attrs);
    lemma_added_attributes(env.serde_path, site);
    lemma_default_attrs(options, env);
    law_plain_impl_is_written(options, item.ident.tokens, site);
}

/// What a structure with field names, or without fields, becomes, whatever attributes it has: these,
/// the attributes that all settings get, and always `#[serde(default)]`; then the item itself, its
/// `Settings` impl and, if it is asked for, its `Default` impl. If there can be none, what is wrong is
/// reported.
#[verifier::spinoff_prover]
#[verifier::rlimit(40)]
pub proof fn law_what_a_structure_becomes(
    options: OptionsView<Token>,
    item: StructView<Token>,
    env: EnvView,
)
    ensures
        item.fields !is Unnamed ==> expanded(options, ItemView::Struct(item), env) == expanded_struct(
            options,
            item,
            env,
        ),
        ({
            let site = env.site;
            let added = (at(site, seq![mark('#'), lbracket(), word("derive"), lparen()]) + (at(
                site,
                seq![word("Clone"), mark(',')],
            ) + options.crate_path + at(
                site,
                seq![
                    joint(':'),
                    mark(':'),
                    word("reexports_for_macros"),
                    joint(':'),
                    mark(':'),
                    word("serde"),
                    joint(':'),
                    mark(':'),
                    word("Serialize"),
                    mark(','),
                ],
            ) + options.crate_path + at(
                site,
                seq![
                    joint(':'),
                    mark(':'),
                    word("reexports_for_macros"),
                    joint(':'),
                    mark(':'),
                    word("serde"),
                    joint(':'),
                    mark(':'),
                    word("Deserialize"),
                    mark(','),
                ],
            )) + at(site, seq![rparen(), rbracket()])) + (if options.impl_debug {
                at(
                    site,
                    seq![
                        mark('#'),
                        lbracket(),
                        word("derive"),
                        lparen(),
                        word("Debug"),
                        rparen(),
                        rbracket(),
                    ],
                )
            } else {
                Seq::empty()
            }) + (at(
                site,
                seq![
                    mark('#'),
                    lbracket(),
                    word("serde"),
                    lparen(),
                    word("crate"),
                    mark('='),
                    TokenKind::Str(env.serde_path),
                    rparen(),
                    rbracket(),
                ],
            ) + (if options.deny_unknown_fields {
                at(
                    site,
                    seq![
                        mark('#'),
                        lbracket(),
                        word("serde"),
                        lparen(),
                        word("deny_unknown_fields"),
                        rparen(),
                        rbracket(),
                    ],
                )
            } else {
                Seq::empty()
            }));
            let settings = item.attrs.flatten() + added + at(
                site,
                seq![
                    mark('#'),
                    lbracket(),
                    word("serde"),
                    lparen(),
                    word("default"),
                    rparen(),
                    rbracket(),
                ],
            ) + item.body + struct_impl(options, item, site);
            expanded_struct(options, item, env) == if options.impl_default {
                match default_impl(item, site) {
                    Ok(default) => Ok::<_, ErrorView>(settings + default),
                    Err(texts) => Err(ErrorView::Outside(texts)),
                }
            } else {
                Ok(settings)
            }
        }),
{
    let site = env.site;
    let most = item.attrs + default_attrs(options, env);
    lemma_concat_add(item.attrs, default_attrs(options, env));
    lemma_concat_add(most, seq![serde_default(site)]);
    lemma_concat_one(serde_default(site));
    lemma_concat_is_flatten(item.attrs);
    lemma_added_attributes(env.serde_path, site);
    lemma_default_attrs(options, env);
}

/// A field has an initializer if and only if its `serde` arguments are all right. Otherwise all that is
/// wrong with them is reported.
pub proof fn law_which_fields_are_initialized(field: FieldView<Token>, site: Span)
    ensures
        match (field_default(field, site), serde_args_of(field.attrs)) {
            (Ok(_), Ok(_)) => true,
            (Err(texts), Err(wrong)) => texts == wrong,
            _ => false,
        },
{
}

/// Where the `Settings` trait is found is all that the crate path decides about a `Settings` impl without
/// a body: the impls under two crate paths differ in the tokens of these and in nothing else.
pub proof fn law_crate_path_is_all_that_differs(
    left: OptionsView<Token>,
    right: OptionsView<Token>,
    ident: Seq<Token>,
    site: Span,
)
    ensures
        exists|before: Seq<Token>, after: Seq<Token>|
            plain_impl(left, ident, site) == #[trigger] (before + left.crate_path + after)
                && plain_impl(right, ident, site) == before + right.crate_path + after,
{
    law_plain_impl_is_written(left, ident, site);
    law_plain_impl_is_written(right, ident, site);
    let before = at(site, seq![word("impl")]);
    let named = at(
        site,
        seq![
            joint(':'),
            mark(':'),
            word("settings"),
            joint(':'),
            mark(':'),
            word("Settings"),
            word("for"),
        ],
    );
    let end = at(site, seq![lbrace(), rbrace()]);
    let after = named + ident + end;
    assert(before + left.crate_path + named + ident + end =~= before + left.crate_path + after);
    assert(before + right.crate_path + named + ident + end =~= before + right.crate_path + after);
}

} // verus!
