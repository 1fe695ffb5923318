//! The expansion itself.

use crate::attr::{first_picked, is_serde_readable, lemma_first_picked_stays, serde_readable};
use crate::derive::{
    add_default_attrs, default_attrs, default_fails_at, default_impl, derive_default,
    has_no_nameless_field, impl_serde_aware_default,
    print_serde_path, push_attr, push_derive_default, push_serde_default, push_serde_snake_case,
    serde_default, serde_path_tokens, serde_snake_case, Env, EnvView,
};
use crate::docs::{
    enum_impl, fields_readable, impl_plain_settings, impl_settings_trait,
    impl_settings_trait_for_enum, plain_impl, struct_impl,
};
use crate::error::{error, error_spans, is_report, result_view, starts_at, ErrorView, ExpandError, Texts};
use crate::options::{options_fail_at, options_read, Features, Options, OptionsView};
use crate::read::{args_from, is_faithful, item_from, read_item};
use crate::syntax::{
    all_views, option_view, EnumView, Fields, FieldsView, Item, ItemEnum, ItemStruct, ItemView, Shape,
    Spanless, StructView, Variant, VariantView,
};
use crate::token::{
    all_tokens, concat, concat_streams, is_call_site, kinds, prints, tokens, Located, Quote, Token,
};
use crate::variant::{is_tuple, is_tuple_shape};
use proc_macro2::{Span, TokenStream};
use vstd::prelude::*;

verus! {

/// What is said of an item that is neither a structure nor an enum.
pub const ERR_NOT_STRUCT_OR_ENUM: &'static str = "Settings should be either structure or enum.";

/// What is said of a variant with field names or more than one field.
pub const ERR_NON_UNIT_OR_NEW_TYPE_VARIANT: &'static str =
    "Settings enum variant should either be a unit variant (e.g. `Enum::Foo`) or a new type variant (e.g. `Enum::Foo(Bar)`).";

/// What is said of a structure without field names that has more than one field.
pub const ERR_TUPLE_STRUCT: &'static str =
    "Settings with unnamed fields can only be new type structures (e.g. `struct Millimeters(u8)`).";

/// An item with its attributes in front.
pub open spec fn with_attrs(attrs: Seq<Seq<Token>>, body: Seq<Token>) -> Seq<Token> {
    concat(attrs) + body
}

fn push_attrs(attrs: &Vec<TokenStream>, body: &TokenStream, site: Span) -> (res: TokenStream)
    ensures
        tokens(res) == with_attrs(all_tokens(attrs@), tokens(*body)),
{
    let stream = Quote::new(site).stream(&concat_streams(attrs)).stream(body).stream;
    assert(tokens(stream) =~= with_attrs(all_tokens(attrs@), tokens(*body)));
    stream
}

/// `#[derive(Default)]`, if that is asked for.
pub open spec fn derived_default(options: OptionsView<Token>, site: Span) -> Seq<Seq<Token>> {
    if options.impl_default {
        seq![derive_default(site)]
    } else {
        Seq::empty()
    }
}

/// Whether a variant is neither a unit variant nor a new type variant.
pub open spec fn is_refused<T: Located>(variant: VariantView<T>) -> bool {
    variant.shape is Named || is_tuple_shape(variant.shape)
}

/// A variant that is refused.
pub open spec fn refused<T: Located>(variant: VariantView<T>) -> Option<VariantView<T>> {
    if is_refused(variant) {
        Some(variant)
    } else {
        None
    }
}

/// The first variant that is refused.
pub open spec fn first_refused<T: Located>(variants: Seq<VariantView<T>>) -> Option<VariantView<T>> {
    first_picked(variants, |variant: VariantView<T>| refused(variant))
}

/// The first variant that is refused.
pub fn find_refused<'a>(variants: &'a Vec<Variant>) -> (res: Option<&'a Variant>)
    ensures
        first_refused(all_views(variants@)) == option_view(res),
{
    let ghost views = all_views(variants@);
    let mut i: usize = 0;
    while i < variants.len()
        invariant
            i <= variants.len(),
            views == all_views(variants@),
            first_refused(views.take(i as int)) is None,
        decreases variants.len() - i,
    {
        assert(views.take(i + 1).drop_last() =~= views.take(i as int));
        let is_struct = match variants[i].shape {
            Shape::Named => true,
            _ => false,
        };
        if is_struct || is_tuple(variants[i].shape) {
            proof {
                lemma_first_picked_stays(
                    views,
                    |variant: VariantView<Token>| refused(variant),
                    i + 1,
                );
            }
            return Some(&variants[i]);
        }
        i += 1;
    }
    assert(views.take(i as int) =~= views);
    None
}

/// What an expansion comes to.
pub type Expanded = Result<Seq<Token>, ErrorView>;

/// What an enum becomes: the item with more attributes, and a `Settings` impl. Its first variant that
/// is refused is an error.
pub open spec fn expanded_enum(
    options: OptionsView<Token>,
    item: EnumView<Token>,
    env: EnvView,
) -> Expanded {
    match first_refused(item.variants) {
        Some(variant) => Err(
            ErrorView::Message {
                text: ERR_NON_UNIT_OR_NEW_TYPE_VARIANT@,
                blamed: variant.tokens,
            },
        ),
        None => Ok(
            with_attrs(
                item.attrs + derived_default(options, env.site) + default_attrs(options, env)
                    + seq![serde_snake_case(env.site)],
                item.body,
            ) + enum_impl(options, item, env.unstable, env.site),
        ),
    }
}

/// What a structure without field names becomes: the item with more attributes, and a `Settings`
/// impl. More than one field is an error.
pub open spec fn expanded_unnamed_field_struct(
    options: OptionsView<Token>,
    item: StructView<Token>,
    count: usize,
    env: EnvView,
) -> Expanded {
    if count > 1 {
        Err(
            ErrorView::Message {
                text: ERR_TUPLE_STRUCT@,
                blamed: with_attrs(item.attrs, item.body),
            },
        )
    } else {
        Ok(
            with_attrs(
                item.attrs + derived_default(options, env.site) + default_attrs(options, env),
                item.body,
            ) + plain_impl(options, item.ident.tokens, env.site),
        )
    }
}

/// What a structure with field names, or without fields, becomes: the item with more attributes, a
/// `Settings` impl and, if that is asked for, a `Default` impl. What is wrong with the `serde`
/// arguments of a field is an error then.
pub open spec fn expanded_struct(
    options: OptionsView<Token>,
    item: StructView<Token>,
    env: EnvView,
) -> Expanded {
    let settings = with_attrs(
        item.attrs + default_attrs(options, env) + seq![serde_default(env.site)],
        item.body,
    ) + struct_impl(options, item, env.site);
    if options.impl_default {
        match default_impl(item, env.site) {
            Ok(default) => Ok(settings + default),
            Err(texts) => Err(ErrorView::Outside(texts)),
        }
    } else {
        Ok(settings)
    }
}

/// What the attribute turns an item into.
pub open spec fn expanded(
    options: OptionsView<Token>,
    item: ItemView<Token>,
    env: EnvView,
) -> Expanded {
    match item {
        ItemView::Enum(item) => expanded_enum(options, item, env),
        ItemView::Struct(item) => match item.fields {
            FieldsView::Unnamed(count) => expanded_unnamed_field_struct(options, item, count, env),
            _ => expanded_struct(options, item, env),
        },
        ItemView::Other(item) => Err(
            ErrorView::Message { text: ERR_NOT_STRUCT_OR_ENUM@, blamed: item },
        ),
    }
}

/// What a result stands for.
pub open spec fn outcome(res: Result<TokenStream, ExpandError>) -> Expanded {
    match res {
        Ok(stream) => Ok(tokens(stream)),
        Err(e) => Err(e@),
    }
}

/// Settings that are one of several variants.
pub fn expand_enum(options: &Options, item: ItemEnum, env: &Env) -> (res: Result<
    TokenStream,
    ExpandError,
>)
    ensures
        outcome(res) == expanded_enum(options@, item@, env@),
{
    if let Some(variant) = find_refused(&item.variants) {
        return Err(error(&variant.tokens, ERR_NON_UNIT_OR_NEW_TYPE_VARIANT));
    }
    let site = env.site;
    let impl_settings = impl_settings_trait_for_enum(options, &item, env.unstable, site);
    let mut attrs = item.attrs;
    if options.impl_default {
        push_attr(&mut attrs, push_derive_default(site));
    }
    add_default_attrs(options, &mut attrs, env);
    push_attr(&mut attrs, push_serde_snake_case(site));
    assert(all_tokens(attrs@) =~= item@.attrs + derived_default(options@, site) + default_attrs(
        options@,
        env@,
    ) + seq![serde_snake_case(site)]);
    Ok(
        Quote::new(site).stream(&push_attrs(&attrs, &item.body, site)).stream(
            &impl_settings,
        ).stream,
    )
}

/// Settings that wrap one value.
pub fn expand_unnamed_field_struct(
    options: &Options,
    item: ItemStruct,
    count: usize,
    env: &Env,
) -> (res: Result<TokenStream, ExpandError>)
    ensures
        outcome(res) == expanded_unnamed_field_struct(options@, item@, count, env@),
{
    let site = env.site;
    if is_tuple(Shape::Unnamed(count)) {
        return Err(error(&push_attrs(&item.attrs, &item.body, site), ERR_TUPLE_STRUCT));
    }
    let mut attrs = item.attrs;
    if options.impl_default {
        push_attr(&mut attrs, push_derive_default(site));
    }
    add_default_attrs(options, &mut attrs, env);
    assert(all_tokens(attrs@) =~= item@.attrs + derived_default(options@, site) + default_attrs(
        options@,
        env@,
    ));
    let impl_settings = impl_plain_settings(options, &item.ident.tokens, site);
    Ok(
        Quote::new(site).stream(&push_attrs(&attrs, &item.body, site)).stream(
            &impl_settings,
        ).stream,
    )
}

/// Settings with a value for each of their fields.
pub fn expand_struct(options: &Options, item: ItemStruct, env: &Env) -> (res: Result<
    TokenStream,
    ExpandError,
>)
    requires
        options@.impl_default ==> has_no_nameless_field(item@.fields),
        fields_readable(item@.fields),
    ensures
        outcome(res) == expanded_struct(options@, item@, env@),
        res matches Err(ExpandError::Outside(e)) ==> default_fails_at(item.fields, error_spans(e)),
{
    let site = env.site;
    let impl_settings = impl_settings_trait(options, &item, site);
    let impl_default = if options.impl_default {
        match impl_serde_aware_default(&item, site) {
            Ok(stream) => stream,
            Err(e) => return Err(ExpandError::Outside(e)),
        }
    } else {
        TokenStream::new()
    };
    let mut attrs = item.attrs;
    add_default_attrs(options, &mut attrs, env);
    // Make every field optional.
    push_attr(&mut attrs, push_serde_default(site));
    assert(all_tokens(attrs@) =~= item@.attrs + default_attrs(options@, env@) + seq![
        serde_default(site),
    ]);
    let stream = Quote::new(site).stream(&push_attrs(&attrs, &item.body, site)).stream(
        &impl_settings,
    ).stream(&impl_default).stream;
    assert(outcome(Ok(stream))->Ok_0 =~= expanded_struct(options@, item@, env@)->Ok_0);
    Ok(stream)
}

/// Whether an item can be expanded at all: an empty list behind the `serde` argument `flatten` of a
/// field cannot be looked at.
pub open spec fn is_readable<T: Located>(item: ItemView<T>) -> bool {
    item matches ItemView::Struct(item) ==> fields_readable(item.fields)
}

/// Whether the `serde` arguments of every field can be looked at.
pub fn are_fields_readable(fields: &Fields) -> (res: bool)
    ensures
        res == fields_readable(fields@),
{
    if let Fields::Named(named) = fields {
        let ghost views = all_views(named@);
        let mut i: usize = 0;
        while i < named.len()
            invariant
                i <= named.len(),
                views == all_views(named@),
                fields@ == FieldsView::Named(views),
                forall|k: int| 0 <= k < i ==> serde_readable((#[trigger] views[k]).attrs),
            decreases named.len() - i,
        {
            assert(views[i as int] == named@[i as int]@);
            if !is_serde_readable(&named[i].attrs) {
                return false;
            }
            i += 1;
        }
    }
    true
}

/// Whether an item can be expanded at all.
pub fn is_item_readable(item: &Item) -> (res: bool)
    ensures
        res == is_readable(item@),
{
    match item {
        Item::Struct(item) => are_fields_readable(&item.fields),
        _ => true,
    }
}

/// Whether `places` is where the messages about the fields of a structure point.
pub open spec fn expansion_fails_at(item: Item, places: Seq<Span>) -> bool {
    item matches Item::Struct(item) && default_fails_at(item.fields, places)
}

/// Turns an item into settings.
pub fn expand_in(options: &Options, item: Item, env: &Env) -> (res: Result<TokenStream, ExpandError>)
    requires
        is_readable(item@),
    ensures
        outcome(res) == expanded(options@, item@, env@),
        res matches Err(ExpandError::Outside(e)) ==> expansion_fails_at(item, error_spans(e)),
{
    match item {
        Item::Enum(item) => expand_enum(options, item, env),
        Item::Struct(item) => match item.fields {
            Fields::Unnamed(count) => expand_unnamed_field_struct(options, item, count, env),
            _ => expand_struct(options, item, env),
        },
        Item::Other(item) => Err(error(&item, ERR_NOT_STRUCT_OR_ENUM)),
    }
}

/// Whether `env` is what an expansion may find around it.
pub open spec fn is_env(env: EnvView, options: OptionsView<Token>, unstable: bool) -> bool {
    &&& is_call_site(env.site)
    &&& prints(kinds(serde_path_tokens(options.crate_path, env.site)), env.serde_path)
    &&& env.unstable == unstable
}

/// Turns an item into settings, with the place of the macro's invocation as the place of all that is
/// added.
pub fn expand_from_parsed(options: Options, item: Item, unstable: bool) -> (res: Result<
    TokenStream,
    ExpandError,
>)
    requires
        is_readable(item@),
    ensures
        exists|env: EnvView| #[trigger]
            is_env(env, options@, unstable) && outcome(res) == expanded(options@, item@, env),
        res matches Err(ExpandError::Outside(e)) ==> expansion_fails_at(item, error_spans(e)),
{
    let site = Span::call_site();
    let env = Env { site, serde_path: print_serde_path(&options, site), unstable };
    let res = expand_in(&options, item, &env);
    assert(is_env(env@, options@, unstable));
    res
}

/// Whether `item` is what the item is parsed as.
pub open spec fn reads_item(input: Seq<Token>, item: ItemView<Token>) -> bool {
    item_from(kinds(input)) == Ok::<_, Texts>(item.plain()) && is_faithful(item, input)
}

/// Whether a stream reports why an item is refused. What is wrong with the arguments of its fields is
/// reported where it stands, or at the call site.
pub open spec fn reports_item(item: ItemView<Token>, e: ErrorView, stream: Seq<Token>) -> bool {
    &&& is_report(stream, e)
    &&& e is Outside ==> exists|read: Item, places: Seq<Span>| #[trigger]
        expansion_fails_at(read, places) && read@ == item && starts_at(stream, places)
}

/// Whether a stream reports what is wrong with the arguments of the attribute: where it stands, or at
/// the call site. Where arguments that cannot be parsed at all are reported is left unsaid.
pub open spec fn reports_options(args: Seq<Token>, texts: Texts, stream: Seq<Token>) -> bool {
    &&& is_report(stream, ErrorView::Outside(texts))
    &&& args_from(kinds(args)) is Ok ==> exists|places: Seq<Span>| #[trigger]
        options_fail_at(args, places) && starts_at(stream, places)
}

/// Whether `res` is what an item becomes once it and the options are read.
pub open spec fn becomes(
    options: OptionsView<Token>,
    item: ItemView<Token>,
    unstable: bool,
    res: Option<Seq<Token>>,
) -> bool {
    if is_readable(item) {
        exists|env: EnvView| #[trigger]
            is_env(env, options, unstable) && match expanded(options, item, env) {
                Ok(stream) => res == Some(stream),
                Err(e) => res matches Some(stream) && reports_item(item, e, stream),
            }
    } else {
        res is None
    }
}

/// Whether `res` is what an item becomes under these options: a report if the item cannot be parsed.
pub open spec fn item_becomes(
    options: OptionsView<Token>,
    input: Seq<Token>,
    unstable: bool,
    res: Option<Seq<Token>>,
) -> bool {
    match item_from(kinds(input)) {
        Ok(_) => exists|item: ItemView<Token>| #[trigger]
            reads_item(input, item) && becomes(options, item, unstable, res),
        Err(texts) => res matches Some(stream) && is_report(stream, ErrorView::Outside(texts)),
    }
}

/// Whether `res` is what the attribute may turn an item into: a report if the arguments of the
/// attribute are not all right.
pub open spec fn expands_to(
    args: Seq<Token>,
    input: Seq<Token>,
    features: Features,
    res: Option<Seq<Token>>,
) -> bool {
    exists|site: Span, options: Result<OptionsView<Token>, Texts>| #[trigger]
        options_read(args, features, site, options) && is_call_site(site) && match options {
            Ok(options) => item_becomes(options, input, features.unstable, res),
            Err(texts) => res matches Some(stream) && reports_options(args, texts, stream),
        }
}

/// The tokens of a stream, if there is one.
pub open spec fn option_tokens(stream: Option<TokenStream>) -> Option<Seq<Token>> {
    match stream {
        Some(stream) => Some(tokens(stream)),
        None => None,
    }
}

/// Expands the attribute with these arguments on this item. What is refused becomes a report to the
/// compiler. There is nothing to return where the item cannot be expanded at all.
pub fn expand(args: &TokenStream, item: &TokenStream, features: Features) -> (res: Option<
    TokenStream,
>)
    ensures
        expands_to(tokens(*args), tokens(*item), features, option_tokens(res)),
{
    let site = Span::call_site();
    let ghost input = tokens(*item);
    let read = Options::parse(args, features, site);
    assert(options_read(tokens(*args), features, site, result_view(read)));
    let options = match read {
        Ok(options) => options,
        Err(e) => {
            let ghost places = error_spans(e);
            let stream = ExpandError::Outside(e).to_compile_error();
            assert(args_from(kinds(tokens(*args))) is Ok ==> options_fail_at(tokens(*args), places));
            return Some(stream);
        },
    };
    let item = match read_item(item) {
        Ok(item) => item,
        Err(e) => return Some(ExpandError::Outside(e).to_compile_error()),
    };
    assert(reads_item(input, item@));
    if !is_item_readable(&item) {
        return None;
    }
    match expand_from_parsed(options, item, features.unstable) {
        Ok(stream) => Some(stream),
        Err(e) => {
            let stream = e.to_compile_error();
            proof {
                if let ExpandError::Outside(outside) = e {
                    assert(expansion_fails_at(item, error_spans(outside)));
                }
                assert(reports_item(item@, e@, tokens(stream)));
            }
            Some(stream)
        },
    }
}

} // verus!
