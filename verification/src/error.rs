//! What goes wrong, and how it is reported to the compiler.

use crate::token::{is_call_site, kinds, tokens, Delimiter, Token, TokenKind};
use proc_macro2::{Span, TokenStream};
use vstd::prelude::*;

verus! {

/// `syn::Error`, one message or more about the source. What the messages say is named by
/// [`error_texts`].
#[verifier::external_type_specification]
#[verifier::external_body]
pub struct ExSynError(syn::Error);

/// The texts of the messages that a `syn::Error` holds, in order.
pub uninterp spec fn error_texts(error: syn::Error) -> Texts;

/// Where the messages that a `syn::Error` holds were made to point, in order, each by where that
/// starts.
pub uninterp spec fn error_spans(error: syn::Error) -> Seq<Span>;

/// The texts of the messages of an error.
pub type Texts = Seq<Seq<char>>;

/// Why an expansion is refused.
#[derive(Debug)]
pub enum ExpandError {
    /// A message about the tokens that are to blame.
    Message { text: String, blamed: TokenStream },
    /// What the parsers of attributes and items report.
    Outside(syn::Error),
}

/// The model of [`ExpandError`].
pub enum ErrorView {
    Message { text: Seq<char>, blamed: Seq<Token> },
    Outside(Texts),
}

impl View for ExpandError {
    type V = ErrorView;

    open spec fn view(&self) -> ErrorView {
        match *self {
            ExpandError::Message { text, blamed } => ErrorView::Message {
                text: text@,
                blamed: tokens(blamed),
            },
            ExpandError::Outside(error) => ErrorView::Outside(error_texts(error)),
        }
    }
}

impl ErrorView {
    /// The texts of all messages.
    pub open spec fn texts(self) -> Texts {
        match self {
            ErrorView::Message { text, .. } => seq![text],
            ErrorView::Outside(texts) => texts,
        }
    }
}

/// An error about `blamed`.
pub fn error(blamed: &TokenStream, text: &str) -> (error: ExpandError)
    ensures
        error@ == (ErrorView::Message { text: text@, blamed: tokens(*blamed) }),
{
    ExpandError::Message { text: text.to_owned(), blamed: blamed.clone() }
}

/// `::core::compile_error! { "text" }`
pub open spec fn report(text: Seq<char>) -> Seq<TokenKind> {
    seq![
        TokenKind::Punct(':', true),
        TokenKind::Punct(':', false),
        TokenKind::Ident("core"@),
        TokenKind::Punct(':', true),
        TokenKind::Punct(':', false),
        TokenKind::Ident("compile_error"@),
        TokenKind::Punct('!', false),
        TokenKind::Open(Delimiter::Brace),
        TokenKind::Str(text),
        TokenKind::Close(Delimiter::Brace),
    ]
}

/// A [`report`] that points from `start`, which its path carries, to `end`, which its message
/// carries.
pub open spec fn report_at(text: Seq<char>, start: Span, end: Span) -> Seq<Token> {
    report(text).map(
        |i: int, kind: TokenKind| Token { kind, span: if i < 7 { start } else { end } },
    )
}

/// A [`report`] of each text.
pub open spec fn reports(texts: Texts) -> Seq<TokenKind>
    decreases texts.len(),
{
    if texts.len() == 0 {
        Seq::empty()
    } else {
        reports(texts.drop_last()) + report(texts.last())
    }
}

/// Whether a stream reports an error: each of its messages and, of a message about some tokens, from
/// the first of these to the last. A message about none points to the call site.
pub open spec fn is_report(stream: Seq<Token>, error: ErrorView) -> bool {
    &&& kinds(stream) == reports(error.texts())
    &&& error matches ErrorView::Message { text, blamed } ==> if blamed.len() > 0 {
        stream == report_at(text, blamed.first().span, blamed.last().span)
    } else {
        is_site_report(stream, text)
    }
}

/// Whether a stream is a [`report`] that points to the call site.
pub open spec fn is_site_report(stream: Seq<Token>, text: Seq<char>) -> bool {
    exists|site: Span| #[trigger] is_call_site(site) && stream == report_at(text, site, site)
}

/// `syn::Error::combine`: the messages of `another` come after those of `first`.
pub assume_specification[ syn::Error::combine ](first: &mut syn::Error, another: syn::Error)
    ensures
        error_texts(*final(first)) == error_texts(*old(first)) + error_texts(another),
        error_spans(*final(first)) == error_spans(*old(first)) + error_spans(another),
;

/// `Clone` of `syn::Error`: the same messages.
pub assume_specification[ <syn::Error as Clone>::clone ](first: &syn::Error) -> (copy: syn::Error)
    ensures
        error_texts(copy) == error_texts(*first),
        error_spans(copy) == error_spans(*first),
;

/// What a result that may be a `syn::Error` stands for.
pub open spec fn result_view<T: View>(res: Result<T, syn::Error>) -> Result<T::V, Texts> {
    match res {
        Ok(value) => Ok(value@),
        Err(e) => Err(error_texts(e)),
    }
}

/// The texts of an error, if there is one.
pub open spec fn option_texts(e: Option<syn::Error>) -> Option<Texts> {
    match e {
        Some(e) => Some(error_texts(e)),
        None => None,
    }
}

/// Where the messages of an error point, if there is one.
pub open spec fn option_spans(e: Option<syn::Error>) -> Seq<Span> {
    match e {
        Some(e) => error_spans(e),
        None => Seq::empty(),
    }
}

/// What failed first, then what failed next.
pub open spec fn joined_texts(first: Option<Texts>, next: Option<Texts>) -> Option<Texts> {
    match (first, next) {
        (Some(first), Some(next)) => Some(first + next),
        (Some(first), None) => Some(first),
        (None, next) => next,
    }
}

/// Adds an error to those so far.
pub fn join_errors(errors: Option<syn::Error>, next: syn::Error) -> (res: Option<syn::Error>)
    ensures
        option_texts(res) == joined_texts(option_texts(errors), Some(error_texts(next))),
        option_spans(res) == option_spans(errors) + error_spans(next),
{
    match errors {
        Some(first) => {
            let mut first = first;
            first.combine(next);
            Some(first)
        },
        None => {
            assert(Seq::<Span>::empty() + error_spans(next) =~= error_spans(next));
            Some(next)
        },
    }
}

/// `Display` of `syn::Error`: the text of the first message.
#[verifier::external_body]
fn first_text(error: &syn::Error) -> (text: String)
    ensures
        text@ == error_texts(*error)[0],
{
    error.to_string()
}

/// Whether each report starts where its message points, or at the call site.
pub open spec fn starts_at(stream: Seq<Token>, places: Seq<Span>) -> bool {
    forall|i: int, k: int|
        0 <= i < places.len() && 0 <= k < 7 ==> starts(
            #[trigger] stream[i * 10 + k].span,
            places,
            i,
        )
}

/// Whether `span` is where message `i` points, or the call site.
pub open spec fn starts(span: Span, places: Seq<Span>, i: int) -> bool {
    span == places[i] || is_call_site(span)
}

/// `syn::Error::to_compile_error`: one report for each message. It starts where the message points, or
/// at the call site on any thread but the one that made the message.
#[verifier::external_body]
fn outside_report(error: &syn::Error) -> (stream: TokenStream)
    ensures
        kinds(tokens(stream)) == reports(error_texts(*error)),
        starts_at(tokens(stream), error_spans(*error)),
{
    error.to_compile_error()
}

/// `syn::Error::new_spanned` and `syn::Error::to_compile_error`: one report of `text`, which points
/// from the first of the blamed tokens to the last. Without any it points to the call site.
#[verifier::external_body]
fn spanned_report(blamed: &TokenStream, text: &str) -> (stream: TokenStream)
    ensures
        kinds(tokens(stream)) == report(text@),
        tokens(*blamed).len() > 0 ==> tokens(stream) == report_at(
            text@,
            tokens(*blamed).first().span,
            tokens(*blamed).last().span,
        ),
        tokens(*blamed).len() == 0 ==> is_site_report(tokens(stream), text@),
{
    syn::Error::new_spanned(blamed, text).to_compile_error()
}

impl ExpandError {
    /// The text of the first message.
    pub fn to_string(&self) -> (text: String)
        ensures
            text@ == self@.texts()[0],
    {
        match self {
            ExpandError::Message { text, .. } => text.clone(),
            ExpandError::Outside(error) => first_text(error),
        }
    }

    /// The error as tokens that make the compiler report it.
    pub fn to_compile_error(&self) -> (stream: TokenStream)
        ensures
            is_report(tokens(stream), self@),
            self matches ExpandError::Outside(e) ==> starts_at(tokens(stream), error_spans(*e)),
    {
        match self {
            ExpandError::Message { text, blamed } => {
                let stream = spanned_report(blamed, text.as_str());
                proof {
                    let texts = seq![text@];
                    assert(texts.drop_last() =~= Seq::<Seq<char>>::empty());
                    assert(reports(texts.drop_last()) =~= Seq::<TokenKind>::empty());
                    assert(reports(texts) =~= report(text@));
                }
                stream
            },
            ExpandError::Outside(error) => outside_report(error),
        }
    }
}

} // verus!
