//! What of the source is kept where it is read.

use crate::attr::{serde_readable, SerdeArgs};
use crate::derive::Env;
use crate::error::{error_texts, Texts};
use crate::expand::is_readable;
use crate::laws::lemma_collected;
use crate::options::Options;
use crate::parse::{
    bool_from, count_as, flag_rejection, override_from, parsed_args, parsed_array_len, parsed_count,
    parsed_enum, parsed_fields, parsed_kind, parsed_length, parsed_meta, parsed_metas,
    parsed_struct, parsed_variant, path_from, value_rejection, ItemKindView, RawArgFormView,
    RawArgView, RawAttributeView, RawEnumView, RawFieldView, RawLengthView, RawStructView,
    RawVariantView,
};
use crate::read::{
    all_attr_metas_from, all_listed_from, arg_stands_in, args_from, attribute_from,
    attribute_stands_in, attributes_from, attributes_stand_in, collected, enum_from, field_from,
    fields_from, is_faithful, is_faithful_field, is_faithful_variant, item_from, length_from,
    metas_from, struct_from, variant_from, variants_from,
};
use crate::syntax::{
    Arg, ArgView, AttrMeta, AttrMetaView, Attribute, AttributeView, Field, FieldView, Fields,
    FieldsView, Flag, FlagView, Form, FormView, Item, ItemView, Length, LengthView, ListedMeta,
    ListedMetaView, MetaView, Shape, Spanless, Value, ValueView, Variant, VariantView,
};
use crate::token::{
    all_come_from, is_call_site, keeps_place, keeps_places, kinds, spans, tokens, Located, Token,
    TokenKind,
};
use crate::written::lemma_concat_is_flatten;
use vstd::prelude::*;

verus! {

/// An item is read as what it is: a structure, an enum, or anything else as it is printed. What
/// cannot be parsed is not read.
pub proof fn law_what_an_item_is_read_as(item: Seq<TokenKind>)
    ensures
        match parsed_kind(item) {
            Ok(ItemKindView::Struct) => match item_from(item) {
                Ok(read) => read is Struct && struct_from(item) == Ok::<_, Texts>(read->Struct_0),
                Err(texts) => struct_from(item) is Err && struct_from(item)->Err_0 == texts,
            },
            Ok(ItemKindView::Enum) => match item_from(item) {
                Ok(read) => read is Enum && enum_from(item) == Ok::<_, Texts>(read->Enum_0),
                Err(texts) => enum_from(item) is Err && enum_from(item)->Err_0 == texts,
            },
            Ok(ItemKindView::Other(other)) => item_from(item) == Ok::<_, Texts>(
                ItemView::<TokenKind>::Other(other),
            ),
            Err(texts) => item_from(item) == Err::<ItemView<TokenKind>, _>(texts),
        },
{
}

/// A structure is read with its own attributes, name, generic parameters and body, all of them as they
/// are parsed, and with its fields.
pub proof fn law_what_a_structure_is_read_as(
    item: Seq<TokenKind>,
    raw: RawStructView<TokenKind>,
)
    requires
        parsed_struct(item) == Ok::<_, Texts>(raw),
    ensures
        match (struct_from(item), fields_from(raw.fields)) {
            (Ok(read), Ok(fields)) => {
                &&& read.attrs == raw.attrs
                &&& read.ident == raw.ident
                &&& read.generics == raw.generics
                &&& read.fields == fields
                &&& read.body == raw.body
            },
            (Err(texts), Err(wrong)) => texts == wrong,
            _ => false,
        },
{
}

/// An enum is read with its own attributes, name and body, all of them as they are parsed, and with
/// its variants, in order and with none left out. What is wrong with the first variant that cannot be
/// read is reported.
pub proof fn law_what_an_enum_is_read_as(item: Seq<TokenKind>, raw: RawEnumView<TokenKind>)
    requires
        parsed_enum(item) == Ok::<_, Texts>(raw),
    ensures
        match enum_from(item) {
            Ok(read) => {
                &&& read.attrs == raw.attrs
                &&& read.ident == raw.ident
                &&& read.body == raw.body
                &&& read.variants.len() == raw.variants.len()
                &&& forall|i: int|
                    0 <= i < raw.variants.len() ==> variant_from(#[trigger] raw.variants[i]) == Ok::<
                        _,
                        Texts,
                    >(read.variants[i])
            },
            Err(texts) => exists|i: int|
                {
                    &&& 0 <= i < raw.variants.len()
                    &&& variant_from(#[trigger] raw.variants[i]) is Err
                    &&& variant_from(raw.variants[i])->Err_0 == texts
                    &&& forall|k: int|
                        0 <= k < i ==> variant_from(#[trigger] raw.variants[k]) is Ok
                },
        },
{
    let read = |variant: Seq<TokenKind>| variant_from(variant);
    lemma_collected(raw.variants, read);
    match variants_from(raw.variants) {
        Ok(variants) => {
            assert forall|i: int| 0 <= i < raw.variants.len() implies variant_from(
                #[trigger] raw.variants[i],
            ) == Ok::<_, Texts>(variants[i]) by {
                assert(read(raw.variants[i]) == Ok::<_, Texts>(variants[i]));
            }
        },
        Err(texts) => {
            let i = choose|i: int|
                0 <= i < raw.variants.len() && read(#[trigger] raw.variants[i]) == Err::<
                    VariantView<TokenKind>,
                    _,
                >(texts) && forall|k: int| 0 <= k < i ==> read(#[trigger] raw.variants[k]) is Ok;
            assert forall|k: int| 0 <= k < i implies variant_from(
                #[trigger] raw.variants[k],
            ) is Ok by {
                assert(read(raw.variants[k]) is Ok);
            }
            assert(variant_from(raw.variants[i]) is Err);
        },
    }
}

/// A structure or an enum that cannot be parsed is not read.
pub proof fn law_what_cannot_be_parsed_is_not_read(item: Seq<TokenKind>, texts: Texts)
    ensures
        parsed_struct(item) == Err::<RawStructView<TokenKind>, _>(texts) ==> struct_from(item) is Err
            && struct_from(item)->Err_0 == texts,
        parsed_enum(item) == Err::<RawEnumView<TokenKind>, _>(texts) ==> enum_from(item) is Err
            && enum_from(item)->Err_0 == texts,
        parsed_variant(item) == Err::<RawVariantView<TokenKind>, _>(texts) ==> variant_from(item) is Err
            && variant_from(item)->Err_0 == texts,
{
}

/// Without any tokens there are no fields. Fields in parentheses are counted. All others are read one
/// by one, in order and with none left out. What is wrong with the first that cannot be read is
/// reported.
pub proof fn law_what_fields_are_read_as(fields: Seq<TokenKind>)
    ensures
        if fields.len() == 0 {
            fields_from(fields) == Ok::<_, Texts>(FieldsView::<TokenKind>::Unit)
        } else {
            match (parsed_count(fields), parsed_fields(fields)) {
                (Some(count), _) => fields_from(fields) == Ok::<_, Texts>(
                    FieldsView::<TokenKind>::Unnamed(count),
                ),
                (None, Err(texts)) => fields_from(fields) == Err::<FieldsView<TokenKind>, _>(texts),
                (None, Ok(raws)) => match fields_from(fields) {
                    Ok(read) => {
                        &&& read is Named
                        &&& read->Named_0.len() == raws.len()
                        &&& forall|i: int|
                            0 <= i < raws.len() ==> field_from(#[trigger] raws[i]) == Ok::<_, Texts>(
                                read->Named_0[i],
                            )
                    },
                    Err(texts) => exists|i: int|
                        {
                            &&& 0 <= i < raws.len()
                            &&& field_from(#[trigger] raws[i]) is Err
                            &&& field_from(raws[i])->Err_0 == texts
                            &&& forall|k: int|
                                0 <= k < i ==> field_from(#[trigger] raws[k]) is Ok
                        },
                },
            }
        },
{
    if let Ok(raws) = parsed_fields(fields) {
        let read = |raw: RawFieldView<TokenKind>| field_from(raw);
        lemma_collected(raws, read);
        if let Ok(results) = collected(raws, read) {
            assert forall|i: int| 0 <= i < raws.len() implies field_from(#[trigger] raws[i]) == Ok::<
                _,
                Texts,
            >(results[i]) by {
                assert(read(raws[i]) == Ok::<_, Texts>(results[i]));
            }
        } else {
            let texts = collected(raws, read)->Err_0;
            let i = choose|i: int|
                0 <= i < raws.len() && read(#[trigger] raws[i]) == Err::<FieldView<TokenKind>, _>(
                    texts,
                ) && forall|k: int| 0 <= k < i ==> read(#[trigger] raws[k]) is Ok;
            assert forall|k: int| 0 <= k < i implies field_from(#[trigger] raws[k]) is Ok by {
                assert(read(raws[k]) is Ok);
            }
            assert(field_from(raws[i]) is Err);
        }
    }
}

/// A field is read with its name, its type and the length of that as they are parsed, and with its
/// attributes.
pub proof fn law_what_a_field_is_read_as(raw: RawFieldView<TokenKind>)
    ensures
        match (field_from(raw), attributes_from(raw.attrs)) {
            (Ok(field), Ok(attrs)) => {
                &&& field.attrs == attrs
                &&& field.ident == raw.ident
                &&& field.ty.tokens == raw.ty
                &&& field.ty.array_len == match parsed_array_len(raw.ty) {
                    Some(length) => Some(length_from(length)),
                    None => None,
                }
            },
            (Err(texts), Err(wrong)) => texts == wrong,
            _ => false,
        },
{
}

/// A length is read as a cast of what is cast, as an integer literal, or as something else. The
/// operand of a cast has fewer casts in it.
pub proof fn law_what_a_length_is_read_as(length: Seq<TokenKind>, operand: Seq<TokenKind>)
    ensures
        parsed_length(length) == RawLengthView::Cast(operand) && count_as(operand) < count_as(length)
            ==> length_from(length) == LengthView::Cast(Box::new(length_from(operand))),
        parsed_length(length) matches RawLengthView::Int(value) ==> length_from(length)
            == LengthView::Int(value),
        parsed_length(length) is Other ==> length_from(length) is Other,
{
}

/// A variant is read with its name, its fields and the whole of it as they are parsed, with its
/// attributes, and by how its fields are written: not at all, in parentheses, or else in braces.
pub proof fn law_what_a_variant_is_read_as(
    variant: Seq<TokenKind>,
    raw: RawVariantView<TokenKind>,
)
    requires
        parsed_variant(variant) == Ok::<_, Texts>(raw),
    ensures
        match (variant_from(variant), attributes_from(raw.attrs)) {
            (Ok(read), Ok(attrs)) => {
                &&& read.attrs == attrs
                &&& read.ident == raw.ident
                &&& read.fields == raw.fields
                &&& read.tokens == variant
                &&& read.shape == if raw.fields.len() == 0 {
                    Shape::Unit
                } else {
                    match parsed_count(raw.fields) {
                        Some(count) => Shape::Unnamed(count),
                        None => Shape::Named,
                    }
                }
            },
            (Err(texts), Err(wrong)) => texts == wrong,
            _ => false,
        },
{
}

/// Attributes are read one by one, in order and with none left out. What is wrong with the first that
/// cannot be read is reported.
pub proof fn law_what_attributes_are_read_as(raws: Seq<RawAttributeView<TokenKind>>)
    ensures
        match attributes_from(raws) {
            Ok(attrs) => attrs.len() == raws.len() && forall|i: int|
                0 <= i < raws.len() ==> attribute_from(#[trigger] raws[i]) == Ok::<_, Texts>(attrs[i]),
            Err(texts) => exists|i: int|
                {
                    &&& 0 <= i < raws.len()
                    &&& attribute_from(#[trigger] raws[i]) is Err
                    &&& attribute_from(raws[i])->Err_0 == texts
                    &&& forall|k: int| 0 <= k < i ==> attribute_from(#[trigger] raws[k]) is Ok
                },
        },
{
    let read = |raw: RawAttributeView<TokenKind>| attribute_from(raw);
    lemma_collected(raws, read);
    match attributes_from(raws) {
        Ok(attrs) => {
            assert forall|i: int| 0 <= i < raws.len() implies attribute_from(#[trigger] raws[i])
                == Ok::<_, Texts>(attrs[i]) by {
                assert(read(raws[i]) == Ok::<_, Texts>(attrs[i]));
            }
        },
        Err(texts) => {
            let i = choose|i: int|
                0 <= i < raws.len() && read(#[trigger] raws[i]) == Err::<
                    AttributeView<TokenKind>,
                    _,
                >(texts) && forall|k: int| 0 <= k < i ==> read(#[trigger] raws[k]) is Ok;
            assert forall|k: int| 0 <= k < i implies attribute_from(#[trigger] raws[k]) is Ok by {
                assert(read(raws[k]) is Ok);
            }
            assert(attribute_from(raws[i]) is Err);
        },
    }
}

/// An attribute is read as it is written and as its meta item is parsed. Its arguments and its meta
/// items are those in its list. An attribute without a list has none, and says so where arguments are
/// asked for.
pub proof fn law_what_an_attribute_is_read_as(raw: RawAttributeView<TokenKind>)
    ensures
        match (attribute_from(raw), parsed_meta(raw.meta)) {
            (Ok(attr), Ok(meta)) => {
                &&& attr.tokens == raw.tokens
                &&& attr.meta == meta
                &&& match meta.form {
                    FormView::Word => attr.metas is None && attr.args == Err::<
                        Seq<ArgView<TokenKind>>,
                        _,
                    >(seq!["Unexpected meta-item format `"@ + "word"@ + "`"@]),
                    FormView::List(list) => attr.metas == all_attr_metas_from(list) && attr.args
                        == args_from(list),
                    FormView::NameValue(_) => attr.metas is None && attr.args == Err::<
                        Seq<ArgView<TokenKind>>,
                        _,
                    >(value_rejection(raw.meta)),
                }
            },
            (Err(texts), Err(wrong)) => texts == wrong,
            _ => false,
        },
{
}

/// Arguments are read one by one, in order and with none left out: by name, by what they are where a
/// bare word is asked for, and by what they are read as where a value is.
pub proof fn law_what_arguments_are_read_as(list: Seq<TokenKind>)
    ensures
        match (args_from(list), parsed_args(list)) {
            (Ok(args), Ok(raws)) => args.len() == raws.len() && forall|i: int|
                0 <= i < raws.len() ==> match #[trigger] raws[i] {
                    RawArgView::Lit(literal) => args[i] == ArgView::Lit(literal),
                    RawArgView::Named { name, form, tokens } => {
                        &&& args[i] matches ArgView::Named(arg)
                        &&& arg.name == name
                        &&& arg.tokens == tokens
                        &&& arg.boolean == bool_from(list, i)
                        &&& arg.path == path_from(list, i)
                        &&& arg.optional_path == override_from(list, i)
                        &&& arg.flag == match form {
                            RawArgFormView::Word => FlagView::Word,
                            RawArgFormView::List(inner) => if inner.len() == 0 {
                                FlagView::EmptyList
                            } else {
                                FlagView::Rejected(flag_rejection(list, i))
                            },
                            RawArgFormView::NameValue => FlagView::Rejected(
                                flag_rejection(list, i),
                            ),
                        }
                    },
                },
            (Err(texts), Err(wrong)) => texts == wrong,
            _ => false,
        },
{
}

/// The meta items in a list are read one by one, in order and with none left out. They are read if and
/// only if the list can be parsed, and each of them too.
pub proof fn law_what_meta_items_are_read_as(list: Seq<TokenKind>)
    ensures
        match (metas_from(list), parsed_metas(list)) {
            (Some(metas), Some(raws)) => metas.len() == raws.len() && forall|i: int|
                0 <= i < raws.len() ==> parsed_meta(#[trigger] raws[i]) == Ok::<_, Texts>(metas[i]),
            (None, Some(raws)) => exists|i: int|
                0 <= i < raws.len() && parsed_meta(#[trigger] raws[i]) is Err,
            (None, None) => true,
            _ => false,
        },
{
    if let Some(raws) = parsed_metas(list) {
        let read = |meta: Seq<TokenKind>| parsed_meta(meta);
        lemma_collected(raws, read);
        match collected(raws, read) {
            Ok(metas) => {
                assert forall|i: int| 0 <= i < raws.len() implies parsed_meta(#[trigger] raws[i])
                    == Ok::<_, Texts>(metas[i]) by {
                    assert(read(raws[i]) == Ok::<_, Texts>(metas[i]));
                }
            },
            Err(texts) => {
                let i = choose|i: int|
                    0 <= i < raws.len() && read(#[trigger] raws[i]) == Err::<
                        MetaView<TokenKind>,
                        _,
                    >(texts) && forall|k: int| 0 <= k < i ==> read(#[trigger] raws[k]) is Ok;
                assert(parsed_meta(raws[i]) is Err);
            },
        }
    }
}

/// Each meta item in the list of an attribute comes with the meta items in its own list, and each of
/// these with those in its list in turn.
pub proof fn law_lists_within_lists_are_read(list: Seq<TokenKind>, metas: Seq<MetaView<TokenKind>>)
    ensures
        metas_from(list) is None ==> all_attr_metas_from(list) is None && all_listed_from(
            list,
        ) is None,
        metas_from(list) == Some(metas) ==> {
            &&& all_listed_from(list) is Some
            &&& all_listed_from(list)->0.len() == metas.len()
            &&& forall|i: int|
                0 <= i < metas.len() ==> {
                    &&& (#[trigger] all_listed_from(list)->0[i]).meta == metas[i]
                    &&& all_listed_from(list)->0[i].metas == match metas[i].form {
                        FormView::List(inner) => metas_from(inner),
                        _ => None,
                    }
                }
            &&& all_attr_metas_from(list) is Some
            &&& all_attr_metas_from(list)->0.len() == metas.len()
            &&& forall|i: int|
                0 <= i < metas.len() ==> {
                    &&& (#[trigger] all_attr_metas_from(list)->0[i]).listed
                        == all_listed_from(list)->0[i]
                    &&& all_attr_metas_from(list)->0[i].inner == match metas[i].form {
                        FormView::List(inner) => all_listed_from(inner),
                        _ => None,
                    }
                }
        },
{
}

/// Every item can be expanded but a structure with a field whose attributes cannot be looked at.
pub proof fn law_which_items_are_readable<T: Located>(item: ItemView<T>)
    ensures
        is_readable(item) <==> !(item matches ItemView::Struct(item) && (
        item.fields matches FieldsView::Named(fields) && exists|i: int|
            0 <= i < fields.len() && !serde_readable((#[trigger] fields[i]).attrs))),
{
}

/// The view of a field shows all of it.
pub proof fn law_view_of_a_field(field: Field)
    ensures
        field@.attrs.len() == field.attrs@.len(),
        forall|i: int|
            0 <= i < field.attrs@.len() ==> #[trigger] field@.attrs[i] == field.attrs@[i]@,
        field@.ident.name == field.ident.name@,
        field@.ident.tokens == tokens(field.ident.tokens),
        field@.ty.tokens == tokens(field.ty.tokens),
        field@.ty.span == field.ty.span,
        field@.ty.array_len == match field.ty.array_len {
            Some(length) => Some(length@),
            None => None,
        },
{
}

/// The view of a variant shows all of it.
pub proof fn law_view_of_a_variant(variant: Variant)
    ensures
        variant@.attrs.len() == variant.attrs@.len(),
        forall|i: int|
            0 <= i < variant.attrs@.len() ==> #[trigger] variant@.attrs[i] == variant.attrs@[i]@,
        variant@.ident.name == variant.ident.name@,
        variant@.ident.tokens == tokens(variant.ident.tokens),
        variant@.shape == variant.shape,
        variant@.fields == tokens(variant.fields),
        variant@.span == variant.span,
        variant@.tokens == tokens(variant.tokens),
{
}

/// The view of an attribute shows all of it.
pub proof fn law_view_of_an_attribute(attr: Attribute)
    ensures
        attr@.tokens == tokens(attr.tokens),
        attr@.meta.ident == match attr.meta.ident {
            Some(ident) => Some(ident@),
            None => None,
        },
        attr@.meta.form == match attr.meta.form {
            Form::Word => FormView::Word,
            Form::List(list) => FormView::List(tokens(list)),
            Form::NameValue(Value::Str { text, tokens: literal }) => FormView::NameValue(
                ValueView::Str { text: text@, tokens: tokens(literal) },
            ),
            Form::NameValue(Value::Other(value)) => FormView::NameValue(
                ValueView::Other(tokens(value)),
            ),
        },
        match (attr@.args, attr.args) {
            (Ok(views), Ok(args)) => views.len() == args@.len() && forall|i: int|
                0 <= i < args@.len() ==> #[trigger] views[i] == args@[i]@,
            (Err(texts), Err(e)) => texts == error_texts(e),
            _ => false,
        },
        match (attr@.metas, attr.metas) {
            (Some(views), Some(metas)) => views.len() == metas@.len() && forall|i: int|
                0 <= i < metas@.len() ==> #[trigger] views[i] == metas@[i]@,
            (None, None) => true,
            _ => false,
        },
{
}

/// The view of an argument shows all of it.
pub proof fn law_view_of_an_argument(arg: Arg)
    ensures
        match (arg@, arg) {
            (ArgView::Named(view), Arg::Named(arg)) => {
                &&& view.name == arg.name@
                &&& view.tokens == tokens(arg.tokens)
                &&& view.flag == match arg.flag {
                    Flag::Word => FlagView::Word,
                    Flag::EmptyList => FlagView::EmptyList,
                    Flag::Rejected(e) => FlagView::Rejected(error_texts(e)),
                }
                &&& view.boolean == match arg.boolean {
                    Ok(value) => Ok::<_, Texts>(value),
                    Err(e) => Err(error_texts(e)),
                }
                &&& view.path == match arg.path {
                    Ok(path) => Ok::<_, Texts>(tokens(path)),
                    Err(e) => Err(error_texts(e)),
                }
                &&& view.optional_path == match arg.optional_path {
                    Ok(Some(path)) => Ok::<_, Texts>(Some(tokens(path))),
                    Ok(None) => Ok(None),
                    Err(e) => Err(error_texts(e)),
                }
            },
            (ArgView::Lit(view), Arg::Lit(literal)) => view == tokens(literal),
            _ => false,
        },
{
}

/// The view of a meta item shows all of it, and all that is in its lists.
pub proof fn law_view_of_a_meta_item(meta: AttrMeta, listed: ListedMeta)
    ensures
        listed@.meta == listed.meta@,
        match (listed@.metas, listed.metas) {
            (Some(views), Some(metas)) => views.len() == metas@.len() && forall|i: int|
                0 <= i < metas@.len() ==> #[trigger] views[i] == metas@[i]@,
            (None, None) => true,
            _ => false,
        },
        meta@.listed == meta.listed@,
        match (meta@.inner, meta.inner) {
            (Some(views), Some(metas)) => views.len() == metas@.len() && forall|i: int|
                0 <= i < metas@.len() ==> #[trigger] views[i] == metas@[i]@,
            (None, None) => true,
            _ => false,
        },
{
}

/// The view of an item shows all of it.
pub proof fn law_view_of_an_item(item: Item)
    ensures
        match (item@, item) {
            (ItemView::Struct(view), Item::Struct(item)) => {
                &&& view.attrs.len() == item.attrs@.len()
                &&& forall|i: int|
                    0 <= i < item.attrs@.len() ==> #[trigger] view.attrs[i] == tokens(item.attrs@[i])
                &&& view.ident.name == item.ident.name@
                &&& view.ident.tokens == tokens(item.ident.tokens)
                &&& view.generics.impl_generics == tokens(item.generics.impl_generics)
                &&& view.generics.ty_generics == tokens(item.generics.ty_generics)
                &&& view.generics.where_clause == tokens(item.generics.where_clause)
                &&& view.body == tokens(item.body)
                &&& match (view.fields, item.fields) {
                    (FieldsView::Named(views), Fields::Named(fields)) => views.len()
                        == fields@.len() && forall|i: int|
                        0 <= i < fields@.len() ==> #[trigger] views[i] == fields@[i]@,
                    (FieldsView::Unnamed(count), Fields::Unnamed(fields)) => count == fields,
                    (FieldsView::Unit, Fields::Unit) => true,
                    _ => false,
                }
            },
            (ItemView::Enum(view), Item::Enum(item)) => {
                &&& view.attrs.len() == item.attrs@.len()
                &&& forall|i: int|
                    0 <= i < item.attrs@.len() ==> #[trigger] view.attrs[i] == tokens(item.attrs@[i])
                &&& view.ident.name == item.ident.name@
                &&& view.ident.tokens == tokens(item.ident.tokens)
                &&& view.body == tokens(item.body)
                &&& view.variants.len() == item.variants@.len()
                &&& forall|i: int|
                    0 <= i < item.variants@.len() ==> #[trigger] view.variants[i]
                        == item.variants@[i]@
            },
            (ItemView::Other(view), Item::Other(item)) => view == tokens(item),
            _ => false,
        },
{
}

/// The view of options, and of `serde` arguments, shows all of them.
pub proof fn law_view_of_options(options: Options, args: SerdeArgs, env: Env)
    ensures
        options@.impl_default == options.impl_default,
        options@.impl_debug == options.impl_debug,
        options@.crate_path == tokens(options.crate_path),
        options@.deny_unknown_fields == options.deny_unknown_fields,
        args@.flatten == args.flatten,
        args@.default == match args.default {
            Some(path) => Some(tokens(path)),
            None => None,
        },
        env@.site == env.site,
        env@.serde_path == env.serde_path@,
        env@.unstable == env.unstable,
{
}

/// Tokens without their spans are all of the tokens, in order.
proof fn lemma_kinds(tokens: Seq<Token>)
    ensures
        kinds(tokens) == Seq::new(tokens.len(), |i: int| tokens[i].kind),
{
    assert(kinds(tokens) =~= Seq::new(tokens.len(), |i: int| tokens[i].kind));
}

/// An attribute that is stripped of spans keeps all else.
pub proof fn law_an_attribute_without_spans(attr: AttributeView<Token>)
    ensures
        attr.plain().tokens == Seq::new(attr.tokens.len(), |i: int| attr.tokens[i].kind),
        attr.plain().meta.ident == attr.meta.ident,
        match (attr.plain().meta.form, attr.meta.form) {
            (FormView::Word, FormView::Word) => true,
            (FormView::List(plain), FormView::List(list)) => plain == Seq::new(
                list.len(),
                |i: int| list[i].kind,
            ),
            (FormView::NameValue(plain), FormView::NameValue(value)) => match (plain, value) {
                (
                    ValueView::Str { text: plain_text, tokens: plain_literal },
                    ValueView::Str { text, tokens: literal },
                ) => plain_text == text && plain_literal == Seq::new(
                    literal.len(),
                    |i: int| literal[i].kind,
                ),
                (ValueView::Other(plain), ValueView::Other(value)) => plain == Seq::new(
                    value.len(),
                    |i: int| value[i].kind,
                ),
                _ => false,
            },
            _ => false,
        },
        match (attr.plain().args, attr.args) {
            (Ok(plain), Ok(args)) => plain.len() == args.len() && forall|i: int|
                0 <= i < args.len() ==> #[trigger] plain[i] == args[i].plain(),
            (Err(plain), Err(texts)) => plain == texts,
            _ => false,
        },
        match (attr.plain().metas, attr.metas) {
            (Some(plain), Some(metas)) => plain.len() == metas.len() && forall|i: int|
                0 <= i < metas.len() ==> #[trigger] plain[i] == metas[i].plain(),
            (None, None) => true,
            _ => false,
        },
{
    lemma_kinds(attr.tokens);
    match attr.meta.form {
        FormView::Word => {},
        FormView::List(list) => lemma_kinds(list),
        FormView::NameValue(ValueView::Str { tokens, .. }) => lemma_kinds(tokens),
        FormView::NameValue(ValueView::Other(tokens)) => lemma_kinds(tokens),
    }
}

/// An argument that is stripped of spans keeps all else.
pub proof fn law_an_argument_without_spans(arg: ArgView<Token>)
    ensures
        match (arg.plain(), arg) {
            (ArgView::Named(plain), ArgView::Named(arg)) => {
                &&& plain.name == arg.name
                &&& plain.tokens == Seq::new(arg.tokens.len(), |i: int| arg.tokens[i].kind)
                &&& plain.flag == arg.flag
                &&& plain.boolean == arg.boolean
                &&& match (plain.path, arg.path) {
                    (Ok(plain), Ok(path)) => plain == Seq::new(path.len(), |i: int| path[i].kind),
                    (Err(plain), Err(texts)) => plain == texts,
                    _ => false,
                }
                &&& match (plain.optional_path, arg.optional_path) {
                    (Ok(Some(plain)), Ok(Some(path))) => plain == Seq::new(
                        path.len(),
                        |i: int| path[i].kind,
                    ),
                    (Ok(None), Ok(None)) => true,
                    (Err(plain), Err(texts)) => plain == texts,
                    _ => false,
                }
            },
            (ArgView::Lit(plain), ArgView::Lit(literal)) => plain == Seq::new(
                literal.len(),
                |i: int| literal[i].kind,
            ),
            _ => false,
        },
{
    match arg {
        ArgView::Named(arg) => {
            lemma_kinds(arg.tokens);
            if let Ok(path) = arg.path {
                lemma_kinds(path);
            }
            if let Ok(Some(path)) = arg.optional_path {
                lemma_kinds(path);
            }
        },
        ArgView::Lit(literal) => lemma_kinds(literal),
    }
}

/// A meta item that is stripped of spans keeps all else.
pub proof fn law_a_meta_item_without_spans(
    meta: AttrMetaView<Token>,
    listed: ListedMetaView<Token>,
    inner: MetaView<Token>,
)
    ensures
        inner.plain().ident == inner.ident,
        match (inner.plain().form, inner.form) {
            (FormView::Word, FormView::Word) => true,
            (FormView::List(plain), FormView::List(list)) => plain == Seq::new(
                list.len(),
                |i: int| list[i].kind,
            ),
            (FormView::NameValue(plain), FormView::NameValue(value)) => match (plain, value) {
                (
                    ValueView::Str { text: plain_text, tokens: plain_literal },
                    ValueView::Str { text, tokens: literal },
                ) => plain_text == text && plain_literal == Seq::new(
                    literal.len(),
                    |i: int| literal[i].kind,
                ),
                (ValueView::Other(plain), ValueView::Other(value)) => plain == Seq::new(
                    value.len(),
                    |i: int| value[i].kind,
                ),
                _ => false,
            },
            _ => false,
        },
        listed.plain().meta == listed.meta.plain(),
        match (listed.plain().metas, listed.metas) {
            (Some(plain), Some(metas)) => plain.len() == metas.len() && forall|i: int|
                0 <= i < metas.len() ==> #[trigger] plain[i] == metas[i].plain(),
            (None, None) => true,
            _ => false,
        },
        meta.plain().listed == meta.listed.plain(),
        match (meta.plain().inner, meta.inner) {
            (Some(plain), Some(metas)) => plain.len() == metas.len() && forall|i: int|
                0 <= i < metas.len() ==> #[trigger] plain[i] == metas[i].plain(),
            (None, None) => true,
            _ => false,
        },
{
    match inner.form {
        FormView::Word => {},
        FormView::List(list) => lemma_kinds(list),
        FormView::NameValue(ValueView::Str { tokens, .. }) => lemma_kinds(tokens),
        FormView::NameValue(ValueView::Other(tokens)) => lemma_kinds(tokens),
    }
}

/// A field that is stripped of spans keeps all else.
pub proof fn law_a_field_without_spans(field: FieldView<Token>)
    ensures
        field.plain().attrs.len() == field.attrs.len(),
        forall|i: int|
            0 <= i < field.attrs.len() ==> #[trigger] field.plain().attrs[i]
                == field.attrs[i].plain(),
        field.plain().ident.name == field.ident.name,
        field.plain().ident.tokens == Seq::new(
            field.ident.tokens.len(),
            |i: int| field.ident.tokens[i].kind,
        ),
        field.plain().ty.tokens == Seq::new(field.ty.tokens.len(), |i: int| field.ty.tokens[i].kind),
        field.plain().ty.array_len == field.ty.array_len,
{
    lemma_kinds(field.ident.tokens);
    lemma_kinds(field.ty.tokens);
}

/// A variant that is stripped of spans keeps all else.
pub proof fn law_a_variant_without_spans(variant: VariantView<Token>)
    ensures
        variant.plain().attrs.len() == variant.attrs.len(),
        forall|i: int|
            0 <= i < variant.attrs.len() ==> #[trigger] variant.plain().attrs[i]
                == variant.attrs[i].plain(),
        variant.plain().ident.name == variant.ident.name,
        variant.plain().ident.tokens == Seq::new(
            variant.ident.tokens.len(),
            |i: int| variant.ident.tokens[i].kind,
        ),
        variant.plain().shape == variant.shape,
        variant.plain().fields == Seq::new(variant.fields.len(), |i: int| variant.fields[i].kind),
        variant.plain().tokens == Seq::new(variant.tokens.len(), |i: int| variant.tokens[i].kind),
{
    lemma_kinds(variant.ident.tokens);
    lemma_kinds(variant.fields);
    lemma_kinds(variant.tokens);
}

/// An item that is stripped of spans keeps all else.
pub proof fn law_an_item_without_spans(item: ItemView<Token>)
    ensures
        match (item.plain(), item) {
            (ItemView::Struct(plain), ItemView::Struct(item)) => {
                &&& plain.attrs.len() == item.attrs.len()
                &&& forall|i: int|
                    0 <= i < item.attrs.len() ==> #[trigger] plain.attrs[i] == kinds(item.attrs[i])
                &&& plain.ident.name == item.ident.name
                &&& plain.ident.tokens == kinds(item.ident.tokens)
                &&& plain.generics.impl_generics == kinds(item.generics.impl_generics)
                &&& plain.generics.ty_generics == kinds(item.generics.ty_generics)
                &&& plain.generics.where_clause == kinds(item.generics.where_clause)
                &&& plain.body == kinds(item.body)
                &&& match (plain.fields, item.fields) {
                    (FieldsView::Named(plain), FieldsView::Named(fields)) => plain.len()
                        == fields.len() && forall|i: int|
                        0 <= i < fields.len() ==> #[trigger] plain[i] == fields[i].plain(),
                    (FieldsView::Unnamed(plain), FieldsView::Unnamed(count)) => plain == count,
                    (FieldsView::Unit, FieldsView::Unit) => true,
                    _ => false,
                }
            },
            (ItemView::Enum(plain), ItemView::Enum(item)) => {
                &&& plain.attrs.len() == item.attrs.len()
                &&& forall|i: int|
                    0 <= i < item.attrs.len() ==> #[trigger] plain.attrs[i] == kinds(item.attrs[i])
                &&& plain.ident.name == item.ident.name
                &&& plain.ident.tokens == kinds(item.ident.tokens)
                &&& plain.body == kinds(item.body)
                &&& plain.variants.len() == item.variants.len()
                &&& forall|i: int|
                    0 <= i < item.variants.len() ==> #[trigger] plain.variants[i]
                        == item.variants[i].plain()
            },
            (ItemView::Other(plain), ItemView::Other(item)) => plain == kinds(item),
            _ => false,
        },
        forall|tokens: Seq<Token>, i: int|
            0 <= i < tokens.len() ==> #[trigger] kinds(tokens)[i] == tokens[i].kind,
        forall|tokens: Seq<Token>| (#[trigger] kinds(tokens)).len() == tokens.len(),
{
}

/// The view of a length shows all of it.
pub proof fn law_view_of_a_length(operand: Box<Length>, value: Option<u64>)
    ensures
        Length::Cast(operand)@ == LengthView::Cast(Box::new((*operand)@)),
        Length::Int(value)@ == LengthView::Int(value),
        Length::Other@ == LengthView::Other,
{
}

/// A token that is printed again is one of those that were read, at the same place, or was added at the
/// call site. Numbers, and the minus and the dots in them, may stand elsewhere, and a punctuation
/// character may have been joined to the next or not.
pub proof fn law_printed_tokens_keep_their_places(printed: Seq<Token>, input: Seq<Token>, i: int)
    requires
        keeps_places(printed, input),
        0 <= i < printed.len(),
        !is_call_site(printed[i].span),
    ensures
        match printed[i].kind {
            TokenKind::Literal(text) => text.len() == 0 || !('0' <= text[0] <= '9' || text[0] == '-')
                ==> input.contains(printed[i]),
            TokenKind::Punct(c, _) => c != '-' && c != '.' ==> input.contains(
                Token { kind: TokenKind::Punct(c, true), span: printed[i].span },
            ) || input.contains(Token { kind: TokenKind::Punct(c, false), span: printed[i].span }),
            _ => input.contains(printed[i]),
        },
{
    assert(keeps_place(printed[i], input));
}

/// What is read of an item stands where it stood, and each type, and the fields of each variant, at the
/// place of their tokens.
pub proof fn law_what_is_read_stands_where_it_stood(item: ItemView<Token>, input: Seq<Token>)
    requires
        is_faithful(item, input),
    ensures
        match item {
            ItemView::Struct(item) => {
                &&& keeps_places(item.attrs.flatten() + item.body, input)
                &&& keeps_places(item.ident.tokens, input)
                &&& keeps_places(item.generics.impl_generics, input)
                &&& keeps_places(item.generics.ty_generics, input)
                &&& keeps_places(item.generics.where_clause, input)
                &&& item.fields matches FieldsView::Named(fields) ==> forall|i: int|
                    0 <= i < fields.len() ==> {
                        let field = #[trigger] fields[i];
                        &&& spans(field.ty.tokens, field.ty.span)
                        &&& field.ty.tokens.len() == 1 ==> field.ty.span == field.ty.tokens[0].span
                        &&& field.ty.tokens.len() == 0 ==> is_call_site(field.ty.span)
                        &&& keeps_places(field.ident.tokens, input)
                        &&& keeps_places(field.ty.tokens, input)
                        &&& attributes_stand_in(field.attrs, input)
                    }
            },
            ItemView::Enum(item) => {
                &&& keeps_places(item.attrs.flatten() + item.body, input)
                &&& keeps_places(item.ident.tokens, input)
                &&& forall|i: int|
                    0 <= i < item.variants.len() ==> {
                        let variant = #[trigger] item.variants[i];
                        &&& spans(variant.fields, variant.span)
                        &&& variant.fields.len() == 1 ==> variant.span == variant.fields[0].span
                        &&& variant.fields.len() == 0 ==> is_call_site(variant.span)
                        &&& keeps_places(variant.ident.tokens, input)
                        &&& keeps_places(variant.fields, input)
                        &&& keeps_places(variant.tokens, input)
                        &&& attributes_stand_in(variant.attrs, input)
                    }
            },
            ItemView::Other(_) => true,
        },
{
    match item {
        ItemView::Struct(item) => {
            lemma_concat_is_flatten(item.attrs);
            if let FieldsView::Named(fields) = item.fields {
                assert forall|i: int| 0 <= i < fields.len() implies is_faithful_field(
                    #[trigger] fields[i],
                    input,
                ) by {}
            }
        },
        ItemView::Enum(item) => {
            lemma_concat_is_flatten(item.attrs);
            assert forall|i: int| 0 <= i < item.variants.len() implies is_faithful_variant(
                #[trigger] item.variants[i],
                input,
            ) by {}
        },
        ItemView::Other(_) => {},
    }
}

/// Of an attribute that is read, the whole, the literal in it and the paths in its arguments stand where
/// they stood.
pub proof fn law_what_is_read_of_attributes_stands_where_it_stood(
    attrs: Seq<AttributeView<Token>>,
    input: Seq<Token>,
    i: int,
)
    requires
        attributes_stand_in(attrs, input),
        0 <= i < attrs.len(),
    ensures
        keeps_places(attrs[i].tokens, input),
        match attrs[i].meta.form {
            FormView::Word => true,
            FormView::List(list) => keeps_places(list, input),
            FormView::NameValue(ValueView::Str { tokens, .. }) => keeps_places(tokens, input),
            FormView::NameValue(ValueView::Other(tokens)) => keeps_places(tokens, input),
        },
        attrs[i].args matches Ok(args) ==> forall|k: int|
            0 <= k < args.len() ==> ((#[trigger] args[k]) matches ArgView::Named(arg) ==> {
                &&& arg.path matches Ok(path) ==> all_come_from(path, input)
                &&& arg.optional_path matches Ok(Some(path)) ==> all_come_from(path, input)
            }),
{
    assert(attribute_stands_in(attrs[i], input));
    if let Ok(args) = attrs[i].args {
        assert forall|k: int| 0 <= k < args.len() implies arg_stands_in(#[trigger] args[k], input) by {}
    }
}

} // verus!
