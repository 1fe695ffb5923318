//! What holds of every expansion.

use crate::attr::{
    attr_named, cfg_of, cfgs, doc_comments, doc_of, failures, first_attr, first_named,
    first_picked, flattens, is_flattened, is_zero_array, lemma_first_picked,
    lemma_first_picked_stays, named, picked, serde_args_in, serde_args_of, SerdeArgsView,
};
use crate::derive::{
    default_attrs, default_impl, derive_debug, derive_default, derive_serde, field_default,
    field_defaults, initializer, serde_crate, serde_default, serde_deny_unknown_fields,
    serde_snake_case, EnvView,
};
use crate::docs::{
    all_field_docs, all_variant_docs, enum_impl, field_docs, plain_impl, struct_impl, variant_docs,
};
use crate::error::{reports, ErrorView, Texts};
use crate::expand::{
    derived_default, expanded, expanded_enum, expanded_struct, expanded_unnamed_field_struct,
    first_refused, is_refused, refused, with_attrs, ERR_NON_UNIT_OR_NEW_TYPE_VARIANT,
    ERR_NOT_STRUCT_OR_ENUM, ERR_TUPLE_STRUCT,
};
use crate::options::{known_options, lemma_options_differ, option_failure, options_in, OptionsView};
use crate::parse::{assigns, is_bare};
use crate::read::{are_as_written, collected, is_as_written};
use crate::syntax::{
    ArgView, AttrMetaView, AttributeView, EnumView, FieldView, FieldsView, ItemView, ListedMetaView,
    MetaView, NamedArgView, Shape, StructView, VariantView,
};
use crate::token::{concat, kinds, Delimiter, Located, Token, TokenKind};
use crate::variant::{
    ascii_lower, first_text_of, guarded_metas, is_documented, is_skipped, is_upper, rename_in,
    serde_metas, serde_metas_of, snake_case, unraw, variant_name,
};
use proc_macro2::Span;
use vstd::prelude::*;

verus! {

proof fn lemma_concat_add(first: Seq<Seq<Token>>, next: Seq<Seq<Token>>)
    ensures
        concat(first + next) == concat(first) + concat(next),
    decreases next.len(),
{
    if next.len() == 0 {
        assert(first + next =~= first);
        assert(concat(first + next) =~= concat(first) + concat(next));
    } else {
        assert((first + next).drop_last() =~= first + next.drop_last());
        lemma_concat_add(first, next.drop_last());
        assert(concat(first + next) =~= concat(first) + concat(next));
    }
}

proof fn lemma_regrouped<T>(first: Seq<T>, next: Seq<T>, last: Seq<T>)
    ensures
        first + (next + last) == first + next + last,
{
    assert(first + (next + last) =~= first + next + last);
}

/// The item itself within what it becomes: its own attributes, those that are added, the rest of it,
/// and the impls that are added.
pub open spec fn is_kept(
    stream: Seq<Token>,
    attrs: Seq<Seq<Token>>,
    body: Seq<Token>,
    added: Seq<Seq<Token>>,
    impls: Seq<Token>,
) -> bool {
    stream == concat(attrs) + concat(added) + body + impls
}

/// What an item becomes holds the item unchanged, with more attributes after its own and impls after
/// the whole.
pub proof fn law_item_is_kept(options: OptionsView<Token>, item: ItemView<Token>, env: EnvView)
    requires
        expanded(options, item, env) is Ok,
    ensures
        match item {
            ItemView::Struct(item) => exists|added: Seq<Seq<Token>>, impls: Seq<Token>| #[trigger]
                is_kept(
                    expanded(options, ItemView::Struct(item), env)->Ok_0,
                    item.attrs,
                    item.body,
                    added,
                    impls,
                ),
            ItemView::Enum(item) => exists|added: Seq<Seq<Token>>, impls: Seq<Token>| #[trigger]
                is_kept(
                    expanded(options, ItemView::Enum(item), env)->Ok_0,
                    item.attrs,
                    item.body,
                    added,
                    impls,
                ),
            ItemView::Other(_) => false,
        },
{
    match item {
        ItemView::Enum(item) => lemma_enum_is_kept(options, item, env),
        ItemView::Struct(item) => {
            if let FieldsView::Unnamed(_) = item.fields {
                lemma_new_type_is_kept(options, item, env);
            } else {
                lemma_structure_is_kept(options, item, env);
            }
        },
        ItemView::Other(_) => {},
    }
}

proof fn lemma_is_kept(
    attrs: Seq<Seq<Token>>,
    body: Seq<Token>,
    added: Seq<Seq<Token>>,
    impls: Seq<Token>,
)
    ensures
        is_kept(with_attrs(attrs + added, body) + impls, attrs, body, added, impls),
{
    lemma_concat_add(attrs, added);
}

proof fn lemma_enum_is_kept(options: OptionsView<Token>, item: EnumView<Token>, env: EnvView)
    requires
        expanded_enum(options, item, env) is Ok,
    ensures
        exists|added: Seq<Seq<Token>>, impls: Seq<Token>| #[trigger]
            is_kept(
                expanded_enum(options, item, env)->Ok_0,
                item.attrs,
                item.body,
                added,
                impls,
            ),
{
    let derived = derived_default(options, env.site);
    let defaults = default_attrs(options, env);
    let snake_case = seq![serde_snake_case(env.site)];
    let impls = enum_impl(options, item, env.unstable, env.site);
    lemma_regrouped(item.attrs, derived, defaults);
    lemma_regrouped(item.attrs, derived + defaults, snake_case);
    let added = derived + defaults + snake_case;
    lemma_is_kept(item.attrs, item.body, added, impls);
    let stream = expanded_enum(options, item, env)->Ok_0;
    assert(is_kept(stream, item.attrs, item.body, added, impls));
}

proof fn lemma_new_type_is_kept(options: OptionsView<Token>, item: StructView<Token>, env: EnvView)
    requires
        item.fields matches FieldsView::Unnamed(count) && count <= 1,
    ensures
        exists|added: Seq<Seq<Token>>, impls: Seq<Token>| #[trigger]
            is_kept(
                expanded_unnamed_field_struct(options, item, item.fields->Unnamed_0, env)->Ok_0,
                item.attrs,
                item.body,
                added,
                impls,
            ),
{
    let derived = derived_default(options, env.site);
    let defaults = default_attrs(options, env);
    let impls = plain_impl(options, item.ident.tokens, env.site);
    lemma_regrouped(item.attrs, derived, defaults);
    let added = derived + defaults;
    lemma_is_kept(item.attrs, item.body, added, impls);
    let count = item.fields->Unnamed_0;
    let stream = expanded_unnamed_field_struct(options, item, count, env)->Ok_0;
    assert(is_kept(stream, item.attrs, item.body, added, impls));
}

proof fn lemma_structure_is_kept(
    options: OptionsView<Token>,
    item: StructView<Token>,
    env: EnvView,
)
    requires
        expanded_struct(options, item, env) is Ok,
    ensures
        exists|added: Seq<Seq<Token>>, impls: Seq<Token>| #[trigger]
            is_kept(
                expanded_struct(options, item, env)->Ok_0,
                item.attrs,
                item.body,
                added,
                impls,
            ),
{
    let defaults = default_attrs(options, env);
    let optional = seq![serde_default(env.site)];
    let added = defaults + optional;
    let settings = struct_impl(options, item, env.site);
    lemma_regrouped(item.attrs, defaults, optional);
    let stream = expanded_struct(options, item, env)->Ok_0;
    if options.impl_default {
        let default = default_impl(item, env.site)->Ok_0;
        lemma_regrouped(with_attrs(item.attrs + added, item.body), settings, default);
        lemma_is_kept(item.attrs, item.body, added, settings + default);
        assert(is_kept(stream, item.attrs, item.body, added, settings + default));
    } else {
        lemma_is_kept(item.attrs, item.body, added, settings);
        assert(is_kept(stream, item.attrs, item.body, added, settings));
    }
}

/// Whether an item can be turned into settings.
pub open spec fn is_accepted(options: OptionsView<Token>, item: ItemView<Token>) -> bool {
    match item {
        ItemView::Enum(item) => forall|i: int|
            0 <= i < item.variants.len() ==> match (#[trigger] item.variants[i]).shape {
                Shape::Named => false,
                Shape::Unnamed(count) => count <= 1,
                Shape::Unit => true,
            },
        ItemView::Struct(item) => match item.fields {
            FieldsView::Unnamed(count) => count <= 1,
            FieldsView::Named(fields) => options.impl_default ==> forall|i: int|
                0 <= i < fields.len() ==> serde_args_of((#[trigger] fields[i]).attrs) is Ok,
            FieldsView::Unit => true,
        },
        ItemView::Other(_) => false,
    }
}

proof fn lemma_first_refused<T: Located>(variants: Seq<VariantView<T>>)
    ensures
        match first_refused(variants) {
            Some(variant) => exists|i: int|
                0 <= i < variants.len() && variant == #[trigger] variants[i] && is_refused(variant)
                    && forall|k: int| 0 <= k < i ==> !is_refused(#[trigger] variants[k]),
            None => forall|i: int| 0 <= i < variants.len() ==> !is_refused(#[trigger] variants[i]),
        },
{
    let pick = |variant: VariantView<T>| refused(variant);
    lemma_first_picked(variants, pick);
    match first_refused(variants) {
        Some(variant) => {
            let i = choose|i: int|
                0 <= i < variants.len() && pick(#[trigger] variants[i]) == Some(variant)
                    && forall|k: int| 0 <= k < i ==> pick(#[trigger] variants[k]) is None;
            assert(variants[i] == variant && is_refused(variant));
            assert forall|k: int| 0 <= k < i implies !is_refused(#[trigger] variants[k]) by {
                assert(pick(variants[k]) is None);
            }
        },
        None => {
            assert forall|i: int| 0 <= i < variants.len() implies !is_refused(
                #[trigger] variants[i],
            ) by {
                assert(pick(variants[i]) is None);
            }
        },
    }
}

/// Whether all calls succeed, and what is returned otherwise.
pub proof fn lemma_collected<A, B>(inputs: Seq<A>, read: spec_fn(A) -> Result<B, Texts>)
    ensures
        match collected(inputs, read) {
            Ok(results) => results.len() == inputs.len() && forall|i: int|
                0 <= i < inputs.len() ==> read(#[trigger] inputs[i]) == Ok::<_, Texts>(results[i]),
            Err(texts) => exists|i: int|
                0 <= i < inputs.len() && read(#[trigger] inputs[i]) == Err::<B, _>(texts)
                    && forall|k: int| 0 <= k < i ==> read(#[trigger] inputs[k]) is Ok,
        },
    decreases inputs.len(),
{
    if inputs.len() > 0 {
        let before = inputs.drop_last();
        lemma_collected(before, read);
        assert forall|k: int| 0 <= k < before.len() implies #[trigger] inputs[k] == before[k] by {}
        match collected(before, read) {
            Ok(results) => {
                if read(inputs.last()) is Err {
                    assert(read(inputs[inputs.len() - 1]) is Err);
                }
            },
            Err(texts) => {
                let i = choose|i: int|
                    0 <= i < before.len() && read(#[trigger] before[i]) == Err::<B, _>(texts)
                        && forall|k: int| 0 <= k < i ==> read(#[trigger] before[k]) is Ok;
                assert(read(inputs[i]) == Err::<B, _>(texts));
            },
        }
    }
}

/// What is turned into settings: enums whose variants are all unit variants or new type variants,
/// structures without field names that have one field at most, and structures with field names, or
/// no fields at all, of which a `Default` impl can be written if it is asked for. It can if the
/// `serde` arguments of each field are all right.
pub proof fn law_what_is_accepted(options: OptionsView<Token>, item: ItemView<Token>, env: EnvView)
    ensures
        expanded(options, item, env) is Ok <==> is_accepted(options, item),
{
    match item {
        ItemView::Enum(item) => {
            lemma_first_refused(item.variants);
        },
        ItemView::Struct(item) => {
            if let FieldsView::Named(fields) = item.fields {
                let read = |field: FieldView<Token>| field_default(field, env.site);
                lemma_collected(fields, read);
                assert(field_defaults(item.fields, env.site) == collected(fields, read));
                if collected(fields, read) is Ok {
                    assert forall|i: int| 0 <= i < fields.len() implies serde_args_of(
                        (#[trigger] fields[i]).attrs,
                    ) is Ok by {
                        assert(read(fields[i]) is Ok);
                    }
                } else {
                    let i = choose|i: int|
                        0 <= i < fields.len() && read(#[trigger] fields[i]) is Err;
                    assert(serde_args_of(fields[i].attrs) is Err);
                }
            }
        },
        ItemView::Other(_) => {},
    }
}

/// What is said of an item that is not accepted: of an enum, that its first variant that is neither
/// a unit variant nor a new type variant should be one; of a tuple structure, that it should be a
/// new type; of a structure with field names, all that is wrong with the `serde` arguments of the
/// first field of which anything is; and of anything else, that it should be an enum or a structure.
pub proof fn law_what_is_reported(options: OptionsView<Token>, item: ItemView<Token>, env: EnvView)
    requires
        !is_accepted(options, item),
    ensures
        expanded(options, item, env) is Err,
        match item {
            ItemView::Enum(item) => exists|i: int|
                0 <= i < item.variants.len() && is_refused(#[trigger] item.variants[i]) && (
                forall|k: int| 0 <= k < i ==> !is_refused(#[trigger] item.variants[k]))
                    && expanded(options, ItemView::Enum(item), env)->Err_0 == (
                ErrorView::Message {
                    text: ERR_NON_UNIT_OR_NEW_TYPE_VARIANT@,
                    blamed: item.variants[i].tokens,
                }),
            ItemView::Struct(item) => match item.fields {
                FieldsView::Named(fields) => exists|i: int|
                    0 <= i < fields.len() && (forall|k: int|
                        0 <= k < i ==> serde_args_of((#[trigger] fields[k]).attrs) is Ok)
                        && serde_args_of((#[trigger] fields[i]).attrs) is Err && expanded(
                        options,
                        ItemView::Struct(item),
                        env,
                    )->Err_0 == ErrorView::Outside(serde_args_of(fields[i].attrs)->Err_0),
                _ => expanded(options, ItemView::Struct(item), env)->Err_0 == (
                ErrorView::Message {
                    text: ERR_TUPLE_STRUCT@,
                    blamed: concat(item.attrs) + item.body,
                }),
            },
            ItemView::Other(item) => expanded(options, ItemView::Other(item), env)->Err_0 == (
            ErrorView::Message { text: ERR_NOT_STRUCT_OR_ENUM@, blamed: item }),
        },
{
    law_what_is_accepted(options, item, env);
    match item {
        ItemView::Enum(item) => {
            lemma_first_refused(item.variants);
        },
        ItemView::Struct(item) => {
            if let FieldsView::Named(fields) = item.fields {
                let read = |field: FieldView<Token>| field_default(field, env.site);
                lemma_collected(fields, read);
                let texts = collected(fields, read)->Err_0;
                let i = choose|i: int|
                    0 <= i < fields.len() && read(#[trigger] fields[i]) == Err::<Seq<Token>, _>(
                        texts,
                    ) && forall|k: int| 0 <= k < i ==> read(#[trigger] fields[k]) is Ok;
                assert(serde_args_of(fields[i].attrs) == Err::<
                    Option<SerdeArgsView<Token>>,
                    _,
                >(texts));
                assert forall|k: int| 0 <= k < i implies serde_args_of(
                    (#[trigger] fields[k]).attrs,
                ) is Ok by {
                    assert(read(fields[k]) is Ok);
                }
            }
        },
        ItemView::Other(_) => {},
    }
}

/// The derived `Debug` is added if and only if it is asked for, and so is the refusal of unknown
/// fields. The derived `Clone`, `Serialize` and `Deserialize` and the path of `serde` are always
/// added.
pub proof fn law_added_attributes(options: OptionsView<Token>, env: EnvView)
    ensures
        default_attrs(options, env).contains(derive_serde(options.crate_path, env.site)),
        default_attrs(options, env).contains(serde_crate(env.serde_path, env.site)),
        default_attrs(options, env).contains(derive_debug(env.site)) <==> options.impl_debug,
        default_attrs(options, env).contains(serde_deny_unknown_fields(env.site))
            <==> options.deny_unknown_fields,
{
    let attrs = default_attrs(options, env);
    let site = env.site;
    let serde = derive_serde(options.crate_path, site);
    let debug = derive_debug(site);
    let path = serde_crate(env.serde_path, site);
    let deny = serde_deny_unknown_fields(site);
    reveal_strlit("derive");
    reveal_strlit("serde");
    reveal_strlit("Clone");
    reveal_strlit("Debug");
    reveal_strlit("crate");
    reveal_strlit("deny_unknown_fields");
    assert("derive"@[0] != "serde"@[0]);
    assert("Clone"@[0] != "Debug"@[0]);
    assert("crate"@[0] != "deny_unknown_fields"@[0]);
    assert(serde[2].kind == TokenKind::Ident("derive"@));
    assert(serde[4].kind == TokenKind::Ident("Clone"@));
    assert(debug[2].kind == TokenKind::Ident("derive"@));
    assert(debug[4].kind == TokenKind::Ident("Debug"@));
    assert(path[2].kind == TokenKind::Ident("serde"@));
    assert(path[4].kind == TokenKind::Ident("crate"@));
    assert(deny[2].kind == TokenKind::Ident("serde"@));
    assert(deny[4].kind == TokenKind::Ident("deny_unknown_fields"@));
    assert(attrs[0] == serde);
    if options.impl_debug {
        assert(attrs[1] == debug);
        assert(attrs[2] == path);
        if options.deny_unknown_fields {
            assert(attrs[3] == deny);
        }
    } else {
        assert(attrs[1] == path);
        if options.deny_unknown_fields {
            assert(attrs[2] == deny);
        }
    }
}

/// Asking for `Default` changes nothing but that it is there. A structure with field names, or
/// without fields, gets an impl of it behind all else. Other items get `#[derive(Default)]` right
/// behind their own attributes.
pub proof fn law_default_is_all_that_is_added(
    options: OptionsView<Token>,
    item: ItemView<Token>,
    env: EnvView,
)
    requires
        expanded(OptionsView { impl_default: true, ..options }, item, env) is Ok,
    ensures
        ({
            let with = expanded(OptionsView { impl_default: true, ..options }, item, env)->Ok_0;
            let without = expanded(OptionsView { impl_default: false, ..options }, item, env);
            match item {
                ItemView::Struct(item) => match item.fields {
                    FieldsView::Unnamed(_) => exists|rest: Seq<Token>|
                        without == Ok::<_, ErrorView>(#[trigger] (concat(item.attrs) + rest))
                            && with == concat(item.attrs) + derive_default(env.site) + rest,
                    _ => without is Ok && default_impl(item, env.site) is Ok && with == without->Ok_0
                        + default_impl(item, env.site)->Ok_0,
                },
                ItemView::Enum(item) => exists|rest: Seq<Token>|
                    without == Ok::<_, ErrorView>(#[trigger] (concat(item.attrs) + rest)) && with
                        == concat(item.attrs) + derive_default(env.site) + rest,
                ItemView::Other(_) => false,
            }
        }),
{
    let asking = OptionsView { impl_default: true, ..options };
    let not_asking = OptionsView { impl_default: false, ..options };
    let derive = derive_default(env.site);
    let defaults = default_attrs(options, env);
    assert(default_attrs(asking, env) == defaults);
    assert(default_attrs(not_asking, env) == defaults);
    match item {
        ItemView::Struct(item) => {
            if let FieldsView::Unnamed(_) = item.fields {
                let impls = plain_impl(options, item.ident.tokens, env.site);
                assert(impls == plain_impl(asking, item.ident.tokens, env.site));
                assert(impls == plain_impl(not_asking, item.ident.tokens, env.site));
                lemma_one_more(item.attrs, derive, defaults, item.body, impls);
                let rest = concat(defaults) + item.body + impls;
                assert(concat(item.attrs) + rest == expanded(
                    not_asking,
                    ItemView::Struct(item),
                    env,
                )->Ok_0);
            } else {
                lemma_struct_impl_by_path(asking, not_asking, item, env.site);
            }
        },
        ItemView::Enum(item) => {
            let snake_case = seq![serde_snake_case(env.site)];
            let impls = enum_impl(options, item, env.unstable, env.site);
            lemma_enum_impl_by_path(options, asking, item, env.unstable, env.site);
            lemma_enum_impl_by_path(options, not_asking, item, env.unstable, env.site);
            lemma_one_more(item.attrs, derive, defaults + snake_case, item.body, impls);
            assert(item.attrs + seq![derive] + defaults + snake_case =~= item.attrs + seq![derive]
                + (defaults + snake_case));
            assert(item.attrs + Seq::empty() + defaults + snake_case =~= item.attrs + Seq::empty()
                + (defaults + snake_case));
            let rest = concat(defaults + snake_case) + item.body + impls;
            assert(concat(item.attrs) + rest == expanded(
                not_asking,
                ItemView::Enum(item),
                env,
            )->Ok_0);
        },
        ItemView::Other(_) => {},
    }
}

proof fn lemma_one_more(
    attrs: Seq<Seq<Token>>,
    one: Seq<Token>,
    added: Seq<Seq<Token>>,
    body: Seq<Token>,
    impls: Seq<Token>,
)
    ensures
        with_attrs(attrs + seq![one] + added, body) + impls == concat(attrs) + one + (concat(added)
            + body + impls),
        with_attrs(attrs + Seq::empty() + added, body) + impls == concat(attrs) + (concat(added)
            + body + impls),
{
    assert(seq![one].drop_last() =~= Seq::<Seq<Token>>::empty());
    assert(concat(seq![one].drop_last()) =~= Seq::<Token>::empty());
    assert(concat(seq![one]) =~= one);
    lemma_concat_add(attrs + seq![one], added);
    lemma_concat_add(attrs, seq![one]);
    lemma_concat_add(attrs + Seq::empty(), added);
    assert(attrs + Seq::<Seq<Token>>::empty() =~= attrs);
    assert(with_attrs(attrs + seq![one] + added, body) + impls =~= concat(attrs) + one + (concat(
        added,
    ) + body + impls));
    assert(with_attrs(attrs + Seq::empty() + added, body) + impls =~= concat(attrs) + (concat(added)
        + body + impls));
}

/// Of the options, the `Settings` impl of a structure goes by the crate path alone.
proof fn lemma_struct_impl_by_path(
    left: OptionsView<Token>,
    right: OptionsView<Token>,
    item: StructView<Token>,
    site: Span,
)
    requires
        left.crate_path == right.crate_path,
    ensures
        struct_impl(left, item, site) == struct_impl(right, item, site),
{
    assert(all_field_docs(left, item.fields, site) =~= all_field_docs(right, item.fields, site));
}

/// Of the options, the `Settings` impl of an enum goes by the crate path alone.
proof fn lemma_enum_impl_by_path(
    left: OptionsView<Token>,
    right: OptionsView<Token>,
    item: EnumView<Token>,
    unstable: bool,
    site: Span,
)
    requires
        left.crate_path == right.crate_path,
    ensures
        enum_impl(left, item, unstable, site) == enum_impl(right, item, unstable, site),
{
    assert(all_variant_docs(left, item.variants, site)
        =~= all_variant_docs(right, item.variants, site));
}

/// Nothing is forwarded to a field of type `[T; 0]` that is not flattened: the `Settings` trait is
/// not even named, wherever it is found.
pub proof fn law_zero_array_is_not_forwarded(
    left: OptionsView<Token>,
    right: OptionsView<Token>,
    field: FieldView<Token>,
    site: Span,
)
    requires
        is_zero_array(field.ty),
        !is_flattened(field.attrs),
    ensures
        field_docs(left, field, site) == field_docs(right, field, site),
{
}

/// All that is done for a field with `cfg` attributes stands in a block behind these attributes.
pub proof fn law_cfg_guards_field(options: OptionsView<Token>, field: FieldView<Token>, site: Span)
    requires
        cfgs(field.attrs).len() > 0,
    ensures
        ({
            let guards = concat(cfgs(field.attrs));
            let stream = field_docs(options, field, site);
            &&& stream.len() >= guards.len() + 2
            &&& stream.take(guards.len() as int) == guards
            &&& stream[guards.len() as int].kind == TokenKind::Open(Delimiter::Brace)
            &&& stream.last().kind == TokenKind::Close(Delimiter::Brace)
        }),
{
    let guards = concat(cfgs(field.attrs));
    let stream = field_docs(options, field, site);
    assert(stream.take(guards.len() as int) =~= guards);
}

/// The initializer of a field, and the arm of a variant, stand behind the `cfg` attributes of these.
pub proof fn law_cfg_guards_initializer_and_arm(
    options: OptionsView<Token>,
    field: FieldView<Token>,
    variant: VariantView<Token>,
    site: Span,
)
    ensures
        field_default(field, site) matches Ok(stream) ==> concat(cfgs(field.attrs)).is_prefix_of(
            stream,
        ),
        concat(cfgs(variant.attrs)).is_prefix_of(variant_docs(options, variant, site)),
{
    let guards = concat(cfgs(field.attrs));
    if let Ok(stream) = field_default(field, site) {
        assert(guards =~= stream.subrange(0, guards.len() as int));
    }
    let guards = concat(cfgs(variant.attrs));
    let stream = variant_docs(options, variant, site);
    assert(guards =~= stream.subrange(0, guards.len() as int));
}

/// Every field is documented, and initialized, once and in order.
pub proof fn law_every_field_is_covered(
    options: OptionsView<Token>,
    fields: Seq<FieldView<Token>>,
    site: Span,
)
    ensures
        all_field_docs(options, FieldsView::Named(fields), site).len() == fields.len(),
        forall|i: int|
            0 <= i < fields.len() ==> (#[trigger] all_field_docs(
                options,
                FieldsView::Named(fields),
                site,
            )[i]) == field_docs(options, fields[i], site),
        field_defaults(FieldsView::Named(fields), site) matches Ok(initializers) ==> {
            &&& initializers.len() == fields.len()
            &&& forall|i: int|
                0 <= i < fields.len() ==> serde_args_of(fields[i].attrs) is Ok && (
                #[trigger] initializers[i]) == initializer(
                    fields[i],
                    serde_args_of(fields[i].attrs)->Ok_0,
                    site,
                )
        },
{
    let read = |field: FieldView<Token>| field_default(field, site);
    lemma_collected(fields, read);
    if let Ok(initializers) = field_defaults(FieldsView::Named(fields), site) {
        assert forall|i: int| 0 <= i < fields.len() implies serde_args_of(fields[i].attrs) is Ok && (
        #[trigger] initializers[i]) == initializer(
            fields[i],
            serde_args_of(fields[i].attrs)->Ok_0,
            site,
        ) by {
            assert(read(fields[i]) == Ok::<_, Texts>(initializers[i]));
        }
    }
}

/// A unit variant, and one with `serde(skip)`, has an arm that does nothing: the `Settings` trait is
/// not even named in it, and the name and the doc comments of the variant are not handed out.
pub proof fn law_undocumented_variant(
    left: OptionsView<Token>,
    right: OptionsView<Token>,
    variant: VariantView<Token>,
    site: Span,
)
    requires
        variant.shape is Unit || is_skipped(variant.attrs),
    ensures
        !is_documented(variant),
        variant_docs(left, variant, site) == variant_docs(right, variant, site),
        ({
            let arm = variant_docs(left, variant, site);
            &&& arm.len() >= 2
            &&& arm[arm.len() - 2].kind == TokenKind::Open(Delimiter::Brace)
            &&& arm[arm.len() - 1].kind == TokenKind::Close(Delimiter::Brace)
        }),
{
}

/// An enum documents nothing unless what is not stable is asked for and one of its variants gets a
/// key of its own.
pub proof fn law_enum_documents_only_where_asked(
    options: OptionsView<Token>,
    item: EnumView<Token>,
    unstable: bool,
    site: Span,
)
    requires
        !unstable || forall|i: int|
            0 <= i < item.variants.len() ==> !is_documented(#[trigger] item.variants[i]),
    ensures
        enum_impl(options, item, unstable, site) == plain_impl(options, item.ident.tokens, site),
{
}

pub proof fn lemma_failures<T>(
    args: Seq<ArgView<T>>,
    check: spec_fn(Seq<ArgView<T>>, ArgView<T>) -> Option<Texts>,
)
    ensures
        failures(args, check) is None <==> forall|i: int|
            0 <= i < args.len() ==> check(#[trigger] args.take(i), args[i]) is None,
    decreases args.len(),
{
    if args.len() > 0 {
        let before = args.drop_last();
        lemma_failures(before, check);
        assert(args.take(args.len() - 1) =~= before);
        assert forall|i: int| 0 <= i < before.len() implies #[trigger] args.take(i) == before.take(
            i,
        ) && args[i] == before[i] by {
            assert(args.take(i) =~= before.take(i));
        }
        if failures(args, check) is None {
            assert forall|i: int| 0 <= i < args.len() implies check(
                #[trigger] args.take(i),
                args[i],
            ) is None by {
                if i < before.len() {
                    assert(check(before.take(i), before[i]) is None);
                }
            }
        }
        if forall|i: int|
            0 <= i < args.len() ==> check(#[trigger] args.take(i), args[i]) is None {
            assert forall|i: int| 0 <= i < before.len() implies check(
                #[trigger] before.take(i),
                before[i],
            ) is None by {
                assert(check(args.take(i), args[i]) is None);
            }
            assert(check(args.take(args.len() - 1), args[args.len() - 1]) is None);
        }
    }
}

pub proof fn lemma_not_named<T>(args: Seq<ArgView<T>>, name: Seq<char>)
    ensures
        first_named(args, name) is None <==> forall|i: int|
            0 <= i < args.len() ==> !((#[trigger] args[i]) matches ArgView::Named(arg) && arg.name
                == name),
{
    let pick = |arg: ArgView<T>| named(arg, name);
    lemma_first_picked(args, pick);
    match first_named(args, name) {
        Some(found) => {
            let i = choose|i: int|
                0 <= i < args.len() && pick(#[trigger] args[i]) == Some(found);
            assert(args[i] == ArgView::Named(found));
        },
        None => {
            assert forall|i: int| 0 <= i < args.len() implies !((
            #[trigger] args[i]) matches ArgView::Named(arg) && arg.name == name) by {
                assert(pick(args[i]) is None);
            }
        },
    }
}

/// Whether an argument is one of the four, can be read as what it should be, and is not given before.
pub open spec fn is_fine_option<T>(before: Seq<ArgView<T>>, arg: ArgView<T>) -> bool {
    arg matches ArgView::Named(arg) && {
        &&& known_options().contains(arg.name)
        &&& arg.name == "crate_path"@ ==> arg.path is Ok
        &&& arg.name != "crate_path"@ ==> arg.boolean is Ok
        &&& forall|i: int|
            0 <= i < before.len() ==> !((#[trigger] before[i]) matches ArgView::Named(other)
                && other.name == arg.name)
    }
}

/// The arguments of the attribute are taken if and only if each of them is an option, can be read as
/// what it should be, and is given once.
pub proof fn law_which_options_are_taken<T>(args: Seq<ArgView<T>>, defaults: OptionsView<T>)
    ensures
        options_in(args, defaults) is Ok <==> forall|i: int|
            0 <= i < args.len() ==> is_fine_option(#[trigger] args.take(i), args[i]),
{
    let check = |before: Seq<ArgView<T>>, arg: ArgView<T>| option_failure(before, arg);
    lemma_failures(args, check);
    let known = known_options();
    assert forall|before: Seq<ArgView<T>>, arg: ArgView<T>|
        #![trigger is_fine_option(before, arg)]
        is_fine_option(before, arg) <==> option_failure(before, arg) is None by {
        if let ArgView::Named(named) = arg {
            lemma_not_named(before, named.name);
            assert(known[0] == "impl_default"@ && known[1] == "impl_debug"@);
            assert(known[2] == "crate_path"@ && known[3] == "deny_unknown_fields"@);
            lemma_options_differ();
        }
    }
    if options_in(args, defaults) is Ok {
        assert forall|i: int| 0 <= i < args.len() implies is_fine_option(
            #[trigger] args.take(i),
            args[i],
        ) by {
            assert(check(args.take(i), args[i]) is None);
        }
    }
    if forall|i: int| 0 <= i < args.len() ==> is_fine_option(#[trigger] args.take(i), args[i]) {
        assert forall|i: int| 0 <= i < args.len() implies check(
            #[trigger] args.take(i),
            args[i],
        ) is None by {
            assert(is_fine_option(args.take(i), args[i]));
        }
    }
}

/// An option that is taken is what its argument says, and the default where it has none.
pub proof fn law_options_are_as_given<T>(
    args: Seq<ArgView<T>>,
    defaults: OptionsView<T>,
    options: OptionsView<T>,
)
    requires
        options_in(args, defaults) == Ok::<_, Texts>(options),
    ensures
        forall|i: int|
            0 <= i < args.len() ==> (#[trigger] args[i] matches ArgView::Named(arg) && {
                &&& arg.name == "impl_default"@ ==> arg.boolean == Ok::<_, Texts>(
                    options.impl_default,
                )
                &&& arg.name == "impl_debug"@ ==> arg.boolean == Ok::<_, Texts>(options.impl_debug)
                &&& arg.name == "crate_path"@ ==> arg.path == Ok::<_, Texts>(options.crate_path)
                &&& arg.name == "deny_unknown_fields"@ ==> arg.boolean == Ok::<_, Texts>(
                    options.deny_unknown_fields,
                )
            }),
        !is_given(args, "impl_default"@) ==> options.impl_default == defaults.impl_default,
        !is_given(args, "impl_debug"@) ==> options.impl_debug == defaults.impl_debug,
        !is_given(args, "crate_path"@) ==> options.crate_path == defaults.crate_path,
        !is_given(args, "deny_unknown_fields"@) ==> options.deny_unknown_fields
            == defaults.deny_unknown_fields,
{
    law_which_options_are_taken(args, defaults);
    lemma_not_named(args, "impl_default"@);
    lemma_not_named(args, "impl_debug"@);
    lemma_not_named(args, "crate_path"@);
    lemma_not_named(args, "deny_unknown_fields"@);
    assert forall|i: int| 0 <= i < args.len() implies (#[trigger] args[i] matches ArgView::Named(
        arg,
    ) && first_named(args, arg.name) == Some(arg)) by {
        assert(is_fine_option(args.take(i), args[i]));
        let name = args[i]->Named_0.name;
        lemma_not_named(args.take(i), name);
        assert(args.take(i + 1).drop_last() =~= args.take(i));
        lemma_first_picked_stays(args, |arg: ArgView<T>| named(arg, name), i + 1);
    }
    lemma_options_differ();
    assert forall|i: int| 0 <= i < args.len() implies (#[trigger] args[i] matches ArgView::Named(
        arg,
    ) && (arg.name == "crate_path"@ ==> arg.path is Ok) && (arg.name != "crate_path"@
        ==> arg.boolean is Ok)) by {
        assert(is_fine_option(args.take(i), args[i]));
    }
}

/// Whether an argument with that name is given.
pub open spec fn is_given<T>(args: Seq<ArgView<T>>, name: Seq<char>) -> bool {
    exists|i: int|
        0 <= i < args.len() && ((#[trigger] args[i]) matches ArgView::Named(arg) && arg.name == name)
}

/// `serde` arguments other than `flatten` and `default` have no say.
pub proof fn law_other_serde_args_are_ignored<T>(args: Seq<ArgView<T>>, arg: NamedArgView<T>)
    requires
        arg.name != "flatten"@,
        arg.name != "default"@,
    ensures
        serde_args_in(args.push(ArgView::Named(arg))) == serde_args_in(args),
{
    assert(args.push(ArgView::Named(arg)).drop_last() =~= args);
}

/// Of several `serde` attributes on a field, the first alone has a say in how the field is
/// initialized.
pub proof fn law_first_serde_attribute_initializes<T>(
    attrs: Seq<AttributeView<T>>,
    more: Seq<AttributeView<T>>,
)
    requires
        first_attr(attrs, "serde") is Some,
    ensures
        serde_args_of(attrs + more) == serde_args_of(attrs),
{
    assert((attrs + more).take(attrs.len() as int) =~= attrs);
    lemma_first_picked_stays(
        attrs + more,
        |attr: AttributeView<T>| attr_named(attr, "serde"),
        attrs.len() as int,
    );
}

/// A field is flattened wherever among its attributes `serde(flatten)` stands.
pub proof fn law_every_serde_attribute_flattens<T>(
    attrs: Seq<AttributeView<T>>,
    more: Seq<AttributeView<T>>,
)
    ensures
        is_flattened(attrs + more) <==> is_flattened(attrs) || is_flattened(more),
{
    let all = attrs + more;
    if is_flattened(all) {
        let i = choose|i: int| 0 <= i < all.len() && flattens(#[trigger] all[i]);
        if i < attrs.len() {
            assert(flattens(attrs[i]));
        } else {
            assert(flattens(more[i - attrs.len()]));
        }
    }
    if is_flattened(attrs) {
        let i = choose|i: int| 0 <= i < attrs.len() && flattens(#[trigger] attrs[i]);
        assert(flattens(all[i]));
    }
    if is_flattened(more) {
        let i = choose|i: int| 0 <= i < more.len() && flattens(#[trigger] more[i]);
        assert(flattens(all[attrs.len() + i]));
    }
}

/// A variant has the key that the first `rename` among its `serde` arguments gives it, and without
/// any the snake case of its name without the prefix of raw identifiers.
pub proof fn law_rename_wins<T: Located>(variant: VariantView<T>)
    ensures
        ({
            let metas = serde_metas(variant.attrs);
            ||| exists|i: int|
                0 <= i < metas.len() && rename_in(#[trigger] metas[i]) == Some(variant_name(variant))
                    && forall|k: int| 0 <= k < i ==> rename_in(#[trigger] metas[k]) is None
            ||| variant_name(variant) == snake_case(unraw(variant.ident.name)) && forall|i: int|
                0 <= i < metas.len() ==> rename_in(#[trigger] metas[i]) is None
        }),
{
    lemma_first_picked(
        serde_metas(variant.attrs),
        |listed: ListedMetaView<T>| rename_in(listed),
    );
}

/// Each `serde(..)` in `cfg_attr(predicate, .., serde(..))` has the arguments that an attribute
/// `serde(..)` has, after those of the items before it and whatever the predicate.
pub proof fn law_guarded_serde_counts<T>(
    guarded: AttributeView<T>,
    metas: Seq<AttrMetaView<T>>,
    serde: AttrMetaView<T>,
    plain: AttributeView<T>,
)
    requires
        guarded.meta.is("cfg_attr"),
        metas.len() > 0,
        guarded.metas == Some(metas.push(serde)),
        serde.listed.meta.is("serde"),
        plain.meta.is("serde"),
        match (plain.metas, serde.inner) {
            (Some(outer), Some(inner)) => outer.map_values(|meta: AttrMetaView<T>| meta.listed)
                == inner,
            (None, None) => true,
            _ => false,
        },
    ensures
        serde_metas_of(guarded) == guarded_metas(metas) + serde_metas_of(plain),
{
    assert(metas.push(serde).drop_last() =~= metas);
    reveal_strlit("cfg_attr");
    reveal_strlit("serde");
    assert("cfg_attr"@.len() != "serde"@.len());
}

/// A variant that is renamed by a list has the key that the list gives for serializing, and one whose
/// list gives none is not renamed by it.
pub proof fn law_rename_by_list<T>(listed: ListedMetaView<T>, metas: Seq<MetaView<T>>)
    requires
        listed.meta.is("rename"),
        listed.meta.form is List,
        listed.metas == Some(metas),
    ensures
        rename_in(listed) == first_text_of(metas, "serialize"),
{
}

/// A raw identifier has the same key as the identifier without the prefix.
pub proof fn law_raw_prefix_is_dropped<T: Located>(left: VariantView<T>, right: VariantView<T>)
    requires
        left.attrs == right.attrs,
        left.ident.name == "r#"@ + right.ident.name,
        unraw(right.ident.name) == right.ident.name,
    ensures
        variant_name(left) == variant_name(right),
{
    reveal_strlit("r#");
    assert(unraw(left.ident.name) =~= right.ident.name);
}

/// A key in snake case has no ASCII capitals.
pub proof fn law_snake_case_has_no_capitals(name: Seq<char>)
    ensures
        forall|i: int|
            0 <= i < snake_case(name).len() ==> !('A' <= #[trigger] snake_case(name)[i] <= 'Z'),
    decreases name.len(),
{
    if name.len() > 0 {
        let before = snake_case(name.drop_last());
        law_snake_case_has_no_capitals(name.drop_last());
        let c = name.last();
        assert(!('A' <= ascii_lower(c) <= 'Z')) by {
            if 'A' <= c <= 'Z' {
                assert((c as u32 + 32) as char as u32 == c as u32 + 32);
            }
        }
        assert forall|i: int| 0 <= i < snake_case(name).len() implies !('A' <= #[trigger] snake_case(
            name,
        )[i] <= 'Z') by {
            if i < before.len() {
                assert(snake_case(name)[i] == before[i]);
            }
        }
    }
}

/// A name without upper case characters is its own snake case.
pub proof fn law_snake_case_keeps_lower_case(name: Seq<char>)
    requires
        forall|i: int|
            0 <= i < name.len() ==> !is_upper(#[trigger] name[i]) && !('A' <= name[i] <= 'Z'),
    ensures
        snake_case(name) == name,
    decreases name.len(),
{
    if name.len() > 0 {
        let before = name.drop_last();
        assert forall|i: int| 0 <= i < before.len() implies !is_upper(#[trigger] before[i]) && !(
        'A' <= before[i] <= 'Z') by {
            assert(before[i] == name[i]);
        }
        law_snake_case_keeps_lower_case(before);
        assert(name[name.len() - 1] == name.last());
        assert(snake_case(name) =~= name);
    } else {
        assert(snake_case(name) =~= name);
    }
}

/// The words of a name are put into snake case one by one, with `_` between two of them.
pub proof fn law_snake_case_by_words(first: Seq<char>, next: Seq<char>)
    requires
        first.len() > 0,
        next.len() > 0,
        is_upper(next[0]),
    ensures
        snake_case(first + next) == snake_case(first).push('_') + snake_case(next),
    decreases next.len(),
{
    let name = first + next;
    assert(name.drop_last() =~= first + next.drop_last());
    if next.len() == 1 {
        assert(next.drop_last() =~= Seq::<char>::empty());
        assert(name.drop_last() =~= first);
        assert(snake_case(next.drop_last()) =~= Seq::<char>::empty());
    } else {
        law_snake_case_by_words(first, next.drop_last());
    }
    assert(snake_case(name) =~= snake_case(first).push('_') + snake_case(next));
}

/// Each message is reported, in order.
pub proof fn law_all_is_reported(first: Texts, next: Texts)
    ensures
        reports(first + next) == reports(first) + reports(next),
    decreases next.len(),
{
    if next.len() == 0 {
        assert(first + next =~= first);
    } else {
        assert((first + next).drop_last() =~= first + next.drop_last());
        law_all_is_reported(first, next.drop_last());
    }
    assert(reports(first + next) =~= reports(first) + reports(next));
}

/// An option is off where its argument says `name = false`, and on where it says `name = true` or is
/// a bare word.
pub proof fn law_options_are_as_written(
    args: Seq<ArgView<Token>>,
    defaults: OptionsView<Token>,
    options: OptionsView<Token>,
    i: int,
)
    requires
        options_in(args, defaults) == Ok::<_, Texts>(options),
        are_as_written(args),
        0 <= i < args.len(),
    ensures
        args[i] matches ArgView::Named(arg) && {
            let written = kinds(arg.tokens);
            let on = is_bare(written) || assigns(written, TokenKind::Ident("true"@));
            let off = assigns(written, TokenKind::Ident("false"@));
            &&& arg.name == "impl_default"@ ==> (on ==> options.impl_default) && (off
                ==> !options.impl_default)
            &&& arg.name == "impl_debug"@ ==> (on ==> options.impl_debug) && (off
                ==> !options.impl_debug)
            &&& arg.name == "deny_unknown_fields"@ ==> (on ==> options.deny_unknown_fields) && (off
                ==> !options.deny_unknown_fields)
        },
{
    law_options_are_as_given(args, defaults, options);
    assert(is_as_written(args[i]));
}

/// A field whose `serde` argument `default` is a bare word is initialized as one without the
/// argument: by `Default::default`.
pub proof fn law_bare_default_is_no_path(
    field: FieldView<Token>,
    args: Seq<ArgView<Token>>,
    read: SerdeArgsView<Token>,
    site: Span,
)
    requires
        are_as_written(args),
        serde_args_in(args) == Ok::<_, Texts>(read),
        first_named(args, "default"@) matches Some(arg) && is_bare(kinds(arg.tokens)),
    ensures
        read.default is None,
        initializer(field, Some(read), site) == initializer(field, None, site),
{
    lemma_first_named_is_given(args, "default"@);
}

proof fn lemma_first_named_is_given<T>(args: Seq<ArgView<T>>, name: Seq<char>)
    ensures
        first_named(args, name) matches Some(arg) ==> exists|i: int|
            0 <= i < args.len() && #[trigger] args[i] == ArgView::Named(arg),
{
    let pick = |arg: ArgView<T>| named(arg, name);
    lemma_first_picked(args, pick);
    if let Some(arg) = first_named(args, name) {
        let i = choose|i: int| 0 <= i < args.len() && pick(#[trigger] args[i]) == Some(arg);
        assert(args[i] == ArgView::Named(arg));
    }
}

proof fn lemma_picked_add<A, B>(first: Seq<A>, next: Seq<A>, pick: spec_fn(A) -> Option<B>)
    ensures
        picked(first + next, pick) == picked(first, pick) + picked(next, pick),
    decreases next.len(),
{
    if next.len() == 0 {
        assert(first + next =~= first);
    } else {
        assert((first + next).drop_last() =~= first + next.drop_last());
        lemma_picked_add(first, next.drop_last(), pick);
    }
    assert(picked(first + next, pick) =~= picked(first, pick) + picked(next, pick));
}

/// The doc comments, and the `cfg` attributes, among some attributes and more are those among the
/// former and then those among the latter.
pub proof fn law_docs_and_guards_are_joined<T>(
    first: Seq<AttributeView<T>>,
    next: Seq<AttributeView<T>>,
)
    ensures
        doc_comments(first + next) == doc_comments(first) + doc_comments(next),
        cfgs(first + next) == cfgs(first) + cfgs(next),
{
    lemma_picked_add(first, next, |attr: AttributeView<T>| doc_of(attr));
    lemma_picked_add(first, next, |attr: AttributeView<T>| cfg_of(attr));
}

/// The `serde` arguments of some attributes and more are those of the former and then those of the
/// latter.
pub proof fn law_serde_arguments_are_joined<T>(
    first: Seq<AttributeView<T>>,
    next: Seq<AttributeView<T>>,
)
    ensures
        serde_metas(first + next) == serde_metas(first) + serde_metas(next),
    decreases next.len(),
{
    if next.len() == 0 {
        assert(first + next =~= first);
    } else {
        assert((first + next).drop_last() =~= first + next.drop_last());
        law_serde_arguments_are_joined(first, next.drop_last());
    }
    assert(serde_metas(first + next) =~= serde_metas(first) + serde_metas(next));
}

/// What is picked first from some elements and more is picked from the former, if anything is.
proof fn lemma_first_picked_add<A, B>(first: Seq<A>, next: Seq<A>, pick: spec_fn(A) -> Option<B>)
    ensures
        first_picked(first + next, pick) == match first_picked(first, pick) {
            Some(found) => Some(found),
            None => first_picked(next, pick),
        },
    decreases next.len(),
{
    if next.len() == 0 {
        assert(first + next =~= first);
    } else {
        assert((first + next).drop_last() =~= first + next.drop_last());
        lemma_first_picked_add(first, next.drop_last(), pick);
    }
}

/// Where nothing is picked from the only element, nothing is picked.
proof fn lemma_nothing_picked<A, B>(a: A, pick: spec_fn(A) -> Option<B>)
    requires
        pick(a) is None,
    ensures
        picked(seq![a], pick) == Seq::<B>::empty(),
        first_picked(seq![a], pick) is None,
{
    reveal_with_fuel(picked, 2);
    reveal_with_fuel(first_picked, 2);
    assert(seq![a].last() == a);
}

/// An attribute that is neither a doc comment nor `cfg` nor `serde` adds nothing that a field goes by.
proof fn lemma_other_attribute<T>(
    before: Seq<AttributeView<T>>,
    attr: AttributeView<T>,
    after: Seq<AttributeView<T>>,
)
    requires
        attr.meta.ident != Some("doc"@),
        attr.meta.ident != Some("cfg"@),
    ensures
        doc_comments(before + seq![attr] + after) == doc_comments(before + after),
        cfgs(before + seq![attr] + after) == cfgs(before + after),
        attr.meta.ident != Some("serde"@) ==> {
            &&& is_flattened(before + seq![attr] + after) == is_flattened(before + after)
            &&& serde_args_of(before + seq![attr] + after) == serde_args_of(before + after)
        },
        attr.meta.ident != Some("serde"@) && attr.meta.ident != Some("cfg_attr"@) ==> serde_metas(
            before + seq![attr] + after,
        ) == serde_metas(before + after),
{
    let one = seq![attr];
    law_docs_and_guards_are_joined(before + one, after);
    law_docs_and_guards_are_joined(before, one);
    law_docs_and_guards_are_joined(before, after);
    lemma_nothing_picked(attr, |attr: AttributeView<T>| doc_of(attr));
    lemma_nothing_picked(attr, |attr: AttributeView<T>| cfg_of(attr));
    assert(doc_comments(before) + Seq::empty() =~= doc_comments(before));
    assert(cfgs(before) + Seq::empty() =~= cfgs(before));
    if attr.meta.ident != Some("serde"@) {
        law_every_serde_attribute_flattens(before + one, after);
        law_every_serde_attribute_flattens(before, one);
        law_every_serde_attribute_flattens(before, after);
        assert(!is_flattened(one)) by {
            assert(!flattens(one[0]));
        }
        let pick = |attr: AttributeView<T>| attr_named(attr, "serde");
        lemma_first_picked_add(before + one, after, pick);
        lemma_first_picked_add(before, one, pick);
        lemma_first_picked_add(before, after, pick);
        lemma_nothing_picked(attr, pick);
    }
    if attr.meta.ident != Some("serde"@) && attr.meta.ident != Some("cfg_attr"@) {
        law_serde_arguments_are_joined(before + one, after);
        law_serde_arguments_are_joined(before, one);
        law_serde_arguments_are_joined(before, after);
        assert(one.drop_last() =~= Seq::empty());
        assert(serde_metas(one.drop_last()) =~= Seq::empty());
        assert(serde_metas(one) =~= Seq::empty());
        assert(serde_metas(before) + Seq::empty() =~= serde_metas(before));
    }
}

/// An attribute of a field that is neither a doc comment nor `cfg` nor `serde` has no say, wherever it
/// stands: what `add_docs` does for the field, and how the field is initialized, is as without it.
pub proof fn law_other_attributes_of_fields_have_no_say(
    options: OptionsView<Token>,
    field: FieldView<Token>,
    before: Seq<AttributeView<Token>>,
    attr: AttributeView<Token>,
    after: Seq<AttributeView<Token>>,
    site: Span,
)
    requires
        attr.meta.ident != Some("doc"@),
        attr.meta.ident != Some("cfg"@),
        attr.meta.ident != Some("serde"@),
    ensures
        ({
            let with = FieldView { attrs: before + seq![attr] + after, ..field };
            let without = FieldView { attrs: before + after, ..field };
            &&& field_docs(options, with, site) == field_docs(options, without, site)
            &&& field_default(with, site) == field_default(without, site)
        }),
{
    lemma_other_attribute(before, attr, after);
}

/// A doc comment of a field has no say in how the field is initialized, nor in whether it is flattened,
/// wherever it stands.
pub proof fn law_doc_comments_do_not_initialize(
    field: FieldView<Token>,
    before: Seq<AttributeView<Token>>,
    doc: AttributeView<Token>,
    after: Seq<AttributeView<Token>>,
    site: Span,
)
    requires
        doc.meta.ident == Some("doc"@),
    ensures
        field_default(FieldView { attrs: before + seq![doc] + after, ..field }, site)
            == field_default(FieldView { attrs: before + after, ..field }, site),
        is_flattened(before + seq![doc] + after) == is_flattened(before + after),
{
    reveal_strlit("doc");
    reveal_strlit("cfg");
    reveal_strlit("serde");
    assert("doc"@[0] != "cfg"@[0]);
    assert("doc"@[0] != "serde"@[0]);
    law_docs_and_guards_are_joined(before + seq![doc], after);
    law_docs_and_guards_are_joined(before, seq![doc]);
    law_docs_and_guards_are_joined(before, after);
    lemma_nothing_picked(doc, |attr: AttributeView<Token>| cfg_of(attr));
    assert(cfgs(before) + Seq::empty() =~= cfgs(before));
    law_every_serde_attribute_flattens(before + seq![doc], after);
    law_every_serde_attribute_flattens(before, seq![doc]);
    law_every_serde_attribute_flattens(before, after);
    assert(!is_flattened(seq![doc])) by {
        assert(!flattens(seq![doc][0]));
    }
    let pick = |attr: AttributeView<Token>| attr_named(attr, "serde");
    lemma_first_picked_add(before + seq![doc], after, pick);
    lemma_first_picked_add(before, seq![doc], pick);
    lemma_first_picked_add(before, after, pick);
    lemma_nothing_picked(doc, pick);
}

/// An attribute of a variant that is neither a doc comment nor `cfg` nor `serde` nor `cfg_attr` has no
/// say, wherever it stands: the arm of the variant is as without it.
pub proof fn law_other_attributes_of_variants_have_no_say(
    options: OptionsView<Token>,
    variant: VariantView<Token>,
    before: Seq<AttributeView<Token>>,
    attr: AttributeView<Token>,
    after: Seq<AttributeView<Token>>,
    site: Span,
)
    requires
        attr.meta.ident != Some("doc"@),
        attr.meta.ident != Some("cfg"@),
        attr.meta.ident != Some("serde"@),
        attr.meta.ident != Some("cfg_attr"@),
    ensures
        variant_docs(
            options,
            VariantView { attrs: before + seq![attr] + after, ..variant },
            site,
        ) == variant_docs(options, VariantView { attrs: before + after, ..variant }, site),
{
    lemma_other_attribute(before, attr, after);
}

} // verus!
