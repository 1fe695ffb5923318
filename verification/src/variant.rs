//! Variants of settings enums: which of them are documented, and under which key.

use crate::attr::{first_picked, lemma_first_picked_stays};
use crate::syntax::{
    all_views, option_view, AttrMeta, AttrMetaView, Attribute, AttributeView, Form, FormView,
    ListedMeta, ListedMetaView, Meta, MetaView, Shape, Value, ValueView, Variant, VariantView,
};
use crate::token::{Located, Token};
use vstd::prelude::*;
use vstd::string::StrSliceExecFns;

verus! {

/// The arguments of all `serde(...)` among meta items that come after a `cfg` predicate, which is the
/// first of `metas`.
pub open spec fn guarded_metas<T>(metas: Seq<AttrMetaView<T>>) -> Seq<ListedMetaView<T>>
    decreases metas.len(),
{
    if metas.len() <= 1 {
        Seq::empty()
    } else {
        guarded_metas(metas.drop_last()) + (if metas.last().listed.meta.is("serde") {
            match metas.last().inner {
                Some(metas) => metas,
                None => Seq::empty(),
            }
        } else {
            Seq::empty()
        })
    }
}

/// The arguments of an attribute that is `serde(...)`, or of every `serde(...)` in one that is
/// `cfg_attr(<predicate>, ...)`. Where they cannot be read as meta items there are none.
pub open spec fn serde_metas_of<T>(attr: AttributeView<T>) -> Seq<ListedMetaView<T>> {
    if attr.meta.is("serde") {
        match attr.metas {
            Some(metas) => metas.map_values(|meta: AttrMetaView<T>| meta.listed),
            None => Seq::empty(),
        }
    } else if attr.meta.is("cfg_attr") {
        match attr.metas {
            Some(metas) => guarded_metas(metas),
            None => Seq::empty(),
        }
    } else {
        Seq::empty()
    }
}

/// The arguments of all such attributes.
pub open spec fn serde_metas<T>(attrs: Seq<AttributeView<T>>) -> Seq<ListedMetaView<T>>
    decreases attrs.len(),
{
    if attrs.len() == 0 {
        Seq::empty()
    } else {
        serde_metas(attrs.drop_last()) + serde_metas_of(attrs.last())
    }
}

/// Adds the arguments of a `serde` attribute.
fn push_listed<'a>(args: &mut Vec<&'a ListedMeta>, metas: &'a Vec<AttrMeta>)
    ensures
        all_views(final(args)@) == all_views(old(args)@) + all_views(metas@).map_values(
            |meta: AttrMetaView<Token>| meta.listed,
        ),
{
    let ghost found = all_views(metas@).map_values(|meta: AttrMetaView<Token>| meta.listed);
    let ghost before = args@;
    let mut i: usize = 0;
    assert(all_views(args@) =~= all_views(before) + found.take(0));
    while i < metas.len()
        invariant
            i <= metas.len(),
            found == all_views(metas@).map_values(|meta: AttrMetaView<Token>| meta.listed),
            all_views(args@) == all_views(before) + found.take(i as int),
        decreases metas.len() - i,
    {
        let ghost so_far = args@;
        args.push(&metas[i].listed);
        assert(all_views(args@) =~= all_views(so_far).push(metas@[i as int].listed@));
        assert(found.take(i + 1) =~= found.take(i as int).push(found[i as int]));
        i += 1;
    }
    assert(found.take(i as int) =~= found);
}

/// Adds meta items.
fn push_all<'a>(args: &mut Vec<&'a ListedMeta>, metas: &'a Vec<ListedMeta>)
    ensures
        all_views(final(args)@) == all_views(old(args)@) + all_views(metas@),
{
    let ghost found = all_views(metas@);
    let ghost before = args@;
    let mut i: usize = 0;
    assert(all_views(args@) =~= all_views(before) + found.take(0));
    while i < metas.len()
        invariant
            i <= metas.len(),
            found == all_views(metas@),
            all_views(args@) == all_views(before) + found.take(i as int),
        decreases metas.len() - i,
    {
        let ghost so_far = args@;
        args.push(&metas[i]);
        assert(all_views(args@) =~= all_views(so_far).push(metas@[i as int]@));
        assert(found.take(i + 1) =~= found.take(i as int).push(found[i as int]));
        i += 1;
    }
    assert(found.take(i as int) =~= found);
}

/// Adds the arguments of every `serde(...)` after the `cfg` predicate.
fn push_guarded<'a>(args: &mut Vec<&'a ListedMeta>, metas: &'a Vec<AttrMeta>)
    ensures
        all_views(final(args)@) == all_views(old(args)@) + guarded_metas(all_views(metas@)),
{
    let ghost views = all_views(metas@);
    let ghost before = args@;
    assert(all_views(args@) =~= all_views(before) + Seq::<ListedMetaView<Token>>::empty());
    if metas.len() == 0 {
        return;
    }
    let mut i: usize = 1;
    while i < metas.len()
        invariant
            1 <= i <= metas.len(),
            views == all_views(metas@),
            all_views(args@) == all_views(before) + guarded_metas(views.take(i as int)),
        decreases metas.len() - i,
    {
        assert(views.take(i + 1).drop_last() =~= views.take(i as int));
        assert(views.take(i + 1).last() == metas@[i as int]@);
        let ghost so_far = args@;
        if metas[i].listed.meta.is("serde") {
            if let Some(inner) = &metas[i].inner {
                push_all(args, inner);
            }
        }
        assert(all_views(args@) =~= all_views(before) + guarded_metas(views.take(i + 1)));
        i += 1;
    }
    assert(views.take(i as int) =~= views);
}

/// The arguments of every `serde` attribute in `attrs`, including the ones written as
/// `cfg_attr(<predicate>, serde(...))`, which reach an attribute macro unexpanded.
pub fn serde_args<'a>(attrs: &'a Vec<Attribute>) -> (res: Vec<&'a ListedMeta>)
    ensures
        all_views(res@) == serde_metas(all_views(attrs@)),
{
    let ghost views = all_views(attrs@);
    let mut args: Vec<&'a ListedMeta> = Vec::new();
    assert(all_views(args@) =~= Seq::<ListedMetaView<Token>>::empty());
    let mut i: usize = 0;
    while i < attrs.len()
        invariant
            i <= attrs.len(),
            views == all_views(attrs@),
            all_views(args@) == serde_metas(views.take(i as int)),
        decreases attrs.len() - i,
    {
        assert(views.take(i + 1).drop_last() =~= views.take(i as int));
        let attr = &attrs[i];
        let ghost before = args@;
        if attr.meta.is("serde") {
            if let Some(metas) = &attr.metas {
                push_listed(&mut args, metas);
            }
        } else if attr.meta.is("cfg_attr") {
            if let Some(metas) = &attr.metas {
                push_guarded(&mut args, metas);
            }
        }
        assert(all_views(args@) =~= all_views(before) + serde_metas_of(attr@));
        i += 1;
    }
    assert(views.take(i as int) =~= views);
    args
}

/// Whether some `serde` argument is `skip`.
pub open spec fn is_skipped<T>(attrs: Seq<AttributeView<T>>) -> bool {
    exists|i: int|
        0 <= i < serde_metas(attrs).len() && (#[trigger] serde_metas(attrs)[i]).meta.is("skip")
}

/// Whether `attrs` contains `serde(skip)`.
pub fn is_serde_skipped(attrs: &Vec<Attribute>) -> (res: bool)
    ensures
        res == is_skipped(all_views(attrs@)),
{
    let args = serde_args(attrs);
    let ghost metas = serde_metas(all_views(attrs@));
    let mut i: usize = 0;
    while i < args.len()
        invariant
            i <= args.len(),
            metas == serde_metas(all_views(attrs@)),
            all_views(args@) == metas,
            forall|k: int| 0 <= k < i ==> !(#[trigger] metas[k]).meta.is("skip"),
        decreases args.len() - i,
    {
        assert(metas[i as int] == args@[i as int]@);
        if args[i].meta.is("skip") {
            return true;
        }
        i += 1;
    }
    false
}

/// The text in `name = "text"`.
pub open spec fn text_of<T>(meta: MetaView<T>, name: &str) -> Option<Seq<char>> {
    if meta.is(name) {
        match meta.form {
            FormView::NameValue(ValueView::Str { text, .. }) => Some(text),
            _ => None,
        }
    } else {
        None
    }
}

/// The text in `name = "text"`.
fn find_text<'a>(meta: &'a Meta, name: &str) -> (res: Option<&'a String>)
    ensures
        text_of(meta@, name) == option_view(res),
{
    if meta.is(name) {
        if let Form::NameValue(Value::Str { text, .. }) = &meta.form {
            return Some(text);
        }
    }
    None
}

/// The text of the first `name = "text"`.
pub open spec fn first_text_of<T>(metas: Seq<MetaView<T>>, name: &str) -> Option<Seq<char>> {
    first_picked(metas, |meta: MetaView<T>| text_of(meta, name))
}

/// The text of the first `name = "text"`.
fn find_first_text<'a>(metas: &'a Vec<Meta>, name: &str) -> (res: Option<&'a String>)
    ensures
        first_text_of(all_views(metas@), name) == option_view(res),
{
    let ghost views = all_views(metas@);
    let mut i: usize = 0;
    while i < metas.len()
        invariant
            i <= metas.len(),
            views == all_views(metas@),
            first_text_of(views.take(i as int), name) is None,
        decreases metas.len() - i,
    {
        assert(views.take(i + 1).drop_last() =~= views.take(i as int));
        if let Some(text) = find_text(&metas[i], name) {
            proof {
                lemma_first_picked_stays(
                    views,
                    |meta: MetaView<Token>| text_of(meta, name),
                    i + 1,
                );
            }
            return Some(text);
        }
        i += 1;
    }
    assert(views.take(i as int) =~= views);
    None
}

/// The name to serialize under in `rename = "text"` or `rename(serialize = "text")`.
pub open spec fn rename_in<T>(listed: ListedMetaView<T>) -> Option<Seq<char>> {
    match text_of(listed.meta, "rename") {
        Some(text) => Some(text),
        None => if listed.meta.is("rename") {
            match listed.metas {
                Some(metas) => first_text_of(metas, "serialize"),
                None => None,
            }
        } else {
            None
        },
    }
}

/// The name to serialize under in `rename = "text"` or `rename(serialize = "text")`.
fn find_rename<'a>(listed: &'a ListedMeta) -> (res: Option<&'a String>)
    ensures
        rename_in(listed@) == option_view(res),
{
    if let Some(text) = find_text(&listed.meta, "rename") {
        return Some(text);
    }
    if listed.meta.is("rename") {
        if let Some(metas) = &listed.metas {
            return find_first_text(metas, "serialize");
        }
    }
    None
}

/// The first such name.
pub open spec fn first_rename<T>(metas: Seq<ListedMetaView<T>>) -> Option<Seq<char>> {
    first_picked(metas, |listed: ListedMetaView<T>| rename_in(listed))
}

/// Whether a character has the Unicode property `Uppercase`.
pub uninterp spec fn is_upper(c: char) -> bool;

/// `char::is_uppercase`: whether `c` has the Unicode property `Uppercase`, which the letters from `A`
/// to `Z` have and no other ASCII character has.
pub assume_specification[ char::is_uppercase ](c: char) -> (res: bool)
    ensures
        res == is_upper(c),
        'A' <= c <= 'Z' ==> res,
        c as u32 <= 127 && !('A' <= c <= 'Z') ==> !res,
;

/// The ASCII lower case of a character: the letters from `A` to `Z` become those from `a` to `z`.
pub open spec fn ascii_lower(c: char) -> char {
    if 'A' <= c <= 'Z' {
        (c as u32 + 32) as char
    } else {
        c
    }
}

/// `char::to_ascii_lowercase`: [`ascii_lower`].
pub assume_specification[ char::to_ascii_lowercase ](c: &char) -> (res: char)
    ensures
        res == ascii_lower(*c),
;

/// `String::push`: one more character at the end.
pub assume_specification[ String::push ](text: &mut String, c: char)
    ensures
        final(text)@ == old(text)@.push(c),
;

/// The snake case of a name: each upper case character but the first has `_` before it, and every
/// character is in ASCII lower case.
pub open spec fn snake_case(name: Seq<char>) -> Seq<char>
    decreases name.len(),
{
    if name.len() == 0 {
        Seq::empty()
    } else {
        let before = snake_case(name.drop_last());
        let c = name.last();
        if name.len() > 1 && is_upper(c) {
            before.push('_').push(ascii_lower(c))
        } else {
            before.push(ascii_lower(c))
        }
    }
}

/// Whether all characters are ASCII characters.
pub open spec fn is_ascii(name: Seq<char>) -> bool {
    forall|i: int| 0 <= i < name.len() ==> (#[trigger] name[i]) as u32 <= 127
}

/// Of the ASCII characters after the first, those from `A` to `Z` are upper case and no others.
pub open spec fn ascii_is_ascii_cased(name: Seq<char>) -> bool {
    forall|i: int|
        0 < i < name.len() && (#[trigger] name[i]) as u32 <= 127 ==> is_upper(name[i]) == ('A'
            <= name[i] <= 'Z')
}

/// The snake case of a name of ASCII characters: each of the letters from `A` to `Z` but the first
/// character has `_` before it, and becomes one of those from `a` to `z`.
pub open spec fn ascii_snake_case(name: Seq<char>) -> Seq<char>
    decreases name.len(),
{
    if name.len() == 0 {
        Seq::empty()
    } else {
        let before = ascii_snake_case(name.drop_last());
        let c = name.last();
        if name.len() > 1 && 'A' <= c <= 'Z' {
            before.push('_').push(ascii_lower(c))
        } else {
            before.push(ascii_lower(c))
        }
    }
}

/// Where the upper case characters are those from `A` to `Z`, both snake cases are the same.
proof fn lemma_ascii_snake_case(name: Seq<char>)
    requires
        forall|i: int|
            0 < i < name.len() ==> is_upper(#[trigger] name[i]) == ('A' <= name[i] <= 'Z'),
    ensures
        snake_case(name) == ascii_snake_case(name),
    decreases name.len(),
{
    if name.len() > 0 {
        let before = name.drop_last();
        assert forall|i: int| 0 < i < before.len() implies is_upper(#[trigger] before[i]) == ('A'
            <= before[i] <= 'Z') by {
            assert(before[i] == name[i]);
        }
        lemma_ascii_snake_case(before);
        assert(name[name.len() - 1] == name.last());
    }
}

/// The key that a variant serializes under.
pub open spec fn variant_name<T: Located>(variant: VariantView<T>) -> Seq<char> {
    match first_rename(serde_metas(variant.attrs)) {
        Some(text) => text,
        None => snake_case(unraw(variant.ident.name)),
    }
}

/// A name without the prefix `r#` of raw identifiers.
pub open spec fn unraw(name: Seq<char>) -> Seq<char> {
    if name.len() >= 2 && name[0] == 'r' && name[1] == '#' {
        name.skip(2)
    } else {
        name
    }
}

/// A name without the prefix `r#` of raw identifiers.
pub fn strip_raw<'a>(name: &'a str) -> (res: &'a str)
    ensures
        res@ == unraw(name@),
{
    let len = name.unicode_len();
    if len >= 2 && name.get_char(0) == 'r' && name.get_char(1) == '#' {
        let rest = name.substring_char(2, len);
        assert(rest@ =~= name@.skip(2));
        rest
    } else {
        name
    }
}

/// The snake case of a name.
pub fn to_snake_case(name: &str) -> (res: String)
    ensures
        res@ == snake_case(name@),
        ascii_is_ascii_cased(name@),
        is_ascii(name@) ==> res@ == ascii_snake_case(name@),
{
    let mut res = String::new();
    let mut first: bool = true;
    for c in it: name.chars()
        invariant
            it.seq() == name@,
            res@ == snake_case(name@.take(it.index() as int)),
            first == (it.index() == 0),
            ascii_is_ascii_cased(name@.take(it.index() as int)),
    {
        proof {
            let upto = name@.take(it.index() as int);
            assert forall|i: int| 0 < i < it.index() && (#[trigger] name@[i]) as u32
                <= 127 implies is_upper(name@[i]) == ('A' <= name@[i] <= 'Z') by {
                assert(upto[i] == name@[i]);
            }
        }
        assert(name@.take(it.index() + 1).drop_last() =~= name@.take(it.index() as int));
        if !first && c.is_uppercase() {
            res.push('_');
        }
        res.push(c.to_ascii_lowercase());
        first = false;
    }
    assert(name@.take(name@.len() as int) =~= name@);
    proof {
        if is_ascii(name@) {
            lemma_ascii_snake_case(name@);
        }
    }
    res
}

/// The key that an enum variant serializes under.
///
/// Every settings enum gets `serde(rename_all = "snake_case")`, so a variant that is not renamed
/// serializes under the snake case of its identifier.
pub fn serde_variant_name(variant: &Variant) -> (res: String)
    ensures
        res@ == variant_name(variant@),
        first_rename(serde_metas(variant@.attrs)) is None ==> {
            let name = unraw(variant@.ident.name);
            ascii_is_ascii_cased(name) && (is_ascii(name) ==> res@ == ascii_snake_case(name))
        },
{
    let args = serde_args(&variant.attrs);
    let ghost metas = serde_metas(variant@.attrs);
    let mut i: usize = 0;
    while i < args.len()
        invariant
            i <= args.len(),
            metas == serde_metas(variant@.attrs),
            all_views(args@) == metas,
            first_rename(metas.take(i as int)) is None,
        decreases args.len() - i,
    {
        assert(metas[i as int] == args@[i as int]@);
        assert(metas.take(i + 1).drop_last() =~= metas.take(i as int));
        if let Some(text) = find_rename(args[i]) {
            proof {
                lemma_first_picked_stays(
                    metas,
                    |listed: ListedMetaView<Token>| rename_in(listed),
                    i + 1,
                );
            }
            return text.clone();
        }
        i += 1;
    }
    assert(metas.take(i as int) =~= metas);
    to_snake_case(strip_raw(variant.ident.name.as_str()))
}

/// Whether a variant gets a key of its own: it holds something and is not skipped.
pub open spec fn is_documented<T: Located>(variant: VariantView<T>) -> bool {
    variant.shape is Unnamed && !is_skipped(variant.attrs)
}

/// Whether a variant gets a key of its own in the serialized settings.
///
/// A unit variant serializes as a bare value, so there is no line to document. A skipped variant
/// never reaches the config at all, and the type it wraps does not have to be a settings type.
pub fn is_documented_variant(variant: &Variant) -> (res: bool)
    ensures
        res == is_documented(variant@),
{
    match variant.shape {
        Shape::Unnamed(_) => !is_serde_skipped(&variant.attrs),
        _ => false,
    }
}

/// Whether there is more than one field, without names.
pub open spec fn is_tuple_shape(shape: Shape) -> bool {
    shape matches Shape::Unnamed(count) && count > 1
}

/// Whether there is more than one field, without names.
pub fn is_tuple(shape: Shape) -> (res: bool)
    ensures
        res == is_tuple_shape(shape),
{
    match shape {
        Shape::Unnamed(count) => count > 1,
        _ => false,
    }
}

} // verus!
