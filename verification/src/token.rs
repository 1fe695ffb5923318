//! Token streams: what they hold, and how they are built up.

use proc_macro2::{Span, TokenStream};
use quote::TokenStreamExt;
use syn::spanned::Spanned;
use vstd::prelude::*;

verus! {

/// `proc_macro2::TokenStream`, a sequence of tokens. What it holds is named by [`tokens`].
#[verifier::external_type_specification]
#[verifier::external_body]
pub struct ExTokenStream(proc_macro2::TokenStream);

/// `proc_macro2::Span`, the place in the source that a token points at.
#[verifier::external_type_specification]
#[verifier::external_body]
pub struct ExSpan(proc_macro2::Span);

/// The brackets around a group of tokens.
#[derive(Clone, Copy, PartialEq, Eq, Structural)]
pub enum Delimiter {
    /// `( )`
    Parenthesis,
    /// `{ }`
    Brace,
    /// `[ ]`
    Bracket,
    /// No visible brackets: around what a declarative macro substituted.
    Invisible,
}

/// Whether a punctuation character is joined to the one after it.
#[derive(Clone, Copy, PartialEq, Eq, Structural)]
pub enum Spacing {
    Joint,
    Alone,
}

/// What a token is, apart from where it points.
///
/// A group is laid out flat: its opening bracket, what it encloses, its closing bracket.
pub enum TokenKind {
    /// An identifier or keyword.
    Ident(Seq<char>),
    /// A punctuation character, and whether it is joined to the punctuation after it.
    Punct(char, bool),
    /// A string literal in plain double quotes, by the text it denotes.
    Str(Seq<char>),
    /// Any other literal, raw string literals among them, as it is written.
    Literal(Seq<char>),
    Open(Delimiter),
    Close(Delimiter),
}

/// A token with its span. Both brackets of a group carry the span of the whole group.
pub struct Token {
    pub kind: TokenKind,
    pub span: Span,
}

/// Tokens, with a place in the source or without.
pub trait Located {
    type Place;
}

impl Located for Token {
    type Place = Span;
}

impl Located for TokenKind {
    type Place = ();
}

/// The tokens that a `proc_macro2::TokenStream` holds, in order.
pub uninterp spec fn tokens(stream: TokenStream) -> Seq<Token>;

/// Tokens without their spans.
pub open spec fn kinds(tokens: Seq<Token>) -> Seq<TokenKind> {
    tokens.map_values(|token: Token| token.kind)
}

/// What the streams of a sequence hold, one by one.
pub open spec fn all_tokens(streams: Seq<TokenStream>) -> Seq<Seq<Token>> {
    streams.map_values(|stream: TokenStream| tokens(stream))
}

/// [`kinds`] of each sequence.
pub open spec fn all_kinds(streams: Seq<Seq<Token>>) -> Seq<Seq<TokenKind>> {
    streams.map_values(|stream: Seq<Token>| kinds(stream))
}

/// Whether `span` is the place where the macro is invoked. It differs from one invocation to the
/// next.
pub uninterp spec fn is_call_site(span: Span) -> bool;

/// `proc_macro2::Span::call_site`: the place where the macro is invoked.
pub assume_specification[ Span::call_site ]() -> (span: Span)
    ensures
        is_call_site(span),
;

/// `proc_macro2::TokenStream::new`: a stream that holds nothing.
pub assume_specification[ TokenStream::new ]() -> (stream: TokenStream)
    ensures
        tokens(stream) == Seq::<Token>::empty(),
;

/// `proc_macro2::TokenStream::is_empty`: whether the stream holds nothing.
pub assume_specification[ TokenStream::is_empty ](stream: &TokenStream) -> (empty: bool)
    ensures
        empty == (tokens(*stream).len() == 0),
;

/// `Clone` of `proc_macro2::TokenStream`: a stream of the same tokens.
pub assume_specification[ <TokenStream as Clone>::clone ](stream: &TokenStream) -> (copy: TokenStream)
    ensures
        tokens(copy) == tokens(*stream),
;

/// A word that is an identifier or a keyword whatever the edition: an ASCII letter, then ASCII
/// letters, digits and underscores.
pub open spec fn is_word(text: Seq<char>) -> bool {
    &&& text.len() > 0
    &&& is_letter(text[0])
    &&& forall|i: int| 0 < i < text.len() ==> is_word_char(#[trigger] text[i])
}

/// An ASCII letter.
pub open spec fn is_letter(c: char) -> bool {
    'a' <= c <= 'z' || 'A' <= c <= 'Z'
}

/// An ASCII letter, digit or underscore.
pub open spec fn is_word_char(c: char) -> bool {
    is_letter(c) || '0' <= c <= '9' || c == '_'
}

/// The punctuation characters of Rust.
pub open spec fn is_punctuation(c: char) -> bool {
    ||| c == '=' || c == '<' || c == '>' || c == '!' || c == '~' || c == '+' || c == '-'
    ||| c == '*' || c == '/' || c == '%' || c == '^' || c == '&' || c == '|' || c == '@'
    ||| c == '.' || c == ',' || c == ';' || c == ':' || c == '#' || c == '$' || c == '?'
    ||| c == '\''
}

/// Tokens written out one after another, all that are written as such with one span.
pub struct Quoted {
    pub tokens: Seq<Token>,
    pub span: Span,
}

/// Nothing written yet.
pub open spec fn quoted(span: Span) -> Quoted {
    Quoted { tokens: Seq::empty(), span }
}

impl Quoted {
    pub open spec fn token(self, kind: TokenKind) -> Quoted {
        Quoted { tokens: self.tokens.push(Token { kind, span: self.span }), ..self }
    }

    /// An identifier or a keyword.
    pub open spec fn word(self, text: &str) -> Quoted {
        self.token(TokenKind::Ident(text@))
    }

    /// A punctuation character that stands alone.
    pub open spec fn punct(self, c: char) -> Quoted {
        self.token(TokenKind::Punct(c, false))
    }

    /// Two punctuation characters that belong together.
    pub open spec fn pair(self, first: char, second: char) -> Quoted {
        self.token(TokenKind::Punct(first, true)).punct(second)
    }

    /// `::`
    pub open spec fn sep(self) -> Quoted {
        self.pair(':', ':')
    }

    /// A lifetime; `text` is its name without the quote.
    pub open spec fn lifetime(self, text: &str) -> Quoted {
        self.token(TokenKind::Punct('\'', true)).word(text)
    }

    /// A string literal, with a span of its own.
    pub open spec fn string(self, text: Seq<char>, span: Span) -> Quoted {
        Quoted { tokens: self.tokens.push(Token { kind: TokenKind::Str(text), span }), ..self }
    }

    /// Tokens as they are.
    pub open spec fn stream(self, more: Seq<Token>) -> Quoted {
        Quoted { tokens: self.tokens + more, ..self }
    }

    /// A group around `inner`.
    pub open spec fn group(self, delimiter: Delimiter, inner: Seq<Token>) -> Quoted {
        self.token(TokenKind::Open(delimiter)).stream(inner).token(TokenKind::Close(delimiter))
    }

    /// `( inner )`
    pub open spec fn parens(self, inner: Seq<Token>) -> Quoted {
        self.group(Delimiter::Parenthesis, inner)
    }

    /// `{ inner }`
    pub open spec fn braces(self, inner: Seq<Token>) -> Quoted {
        self.group(Delimiter::Brace, inner)
    }

    /// `[ inner ]`
    pub open spec fn brackets(self, inner: Seq<Token>) -> Quoted {
        self.group(Delimiter::Bracket, inner)
    }
}

/// `proc_macro2::Ident::new`, put at the end of a stream by `quote::TokenStreamExt::append`: one
/// identifier with that text and span is added.
#[verifier::external_body]
fn push_word(stream: &mut TokenStream, text: &str, span: Span)
    requires
        is_word(text@),
    ensures
        tokens(*final(stream)) == tokens(*old(stream)).push(
            Token { kind: TokenKind::Ident(text@), span },
        ),
{
    stream.append(proc_macro2::Ident::new(text, span));
}

/// `proc_macro2::Punct::new` and `set_span`, put at the end of a stream by
/// `quote::TokenStreamExt::append`: one punctuation character is added.
#[verifier::external_body]
fn push_punct(stream: &mut TokenStream, c: char, spacing: Spacing, span: Span)
    requires
        is_punctuation(c),
    ensures
        tokens(*final(stream)) == tokens(*old(stream)).push(
            Token { kind: TokenKind::Punct(c, spacing is Joint), span },
        ),
{
    let spacing = match spacing {
        Spacing::Joint => proc_macro2::Spacing::Joint,
        Spacing::Alone => proc_macro2::Spacing::Alone,
    };
    let mut punct = proc_macro2::Punct::new(c, spacing);
    punct.set_span(span);
    stream.append(punct);
}

/// `proc_macro2::Literal::string` and `set_span`, put at the end of a stream by
/// `quote::TokenStreamExt::append`: one string literal that denotes `text` is added.
#[verifier::external_body]
fn push_string(stream: &mut TokenStream, text: &str, span: Span)
    ensures
        tokens(*final(stream)) == tokens(*old(stream)).push(
            Token { kind: TokenKind::Str(text@), span },
        ),
{
    let mut literal = proc_macro2::Literal::string(text);
    literal.set_span(span);
    stream.append(literal);
}

/// `proc_macro2::Group::new` and `set_span`, put at the end of a stream by
/// `quote::TokenStreamExt::append`: the tokens of `inner` are added between two brackets.
#[verifier::external_body]
fn push_group(stream: &mut TokenStream, delimiter: Delimiter, inner: TokenStream, span: Span)
    ensures
        tokens(*final(stream)) == (tokens(*old(stream)).push(
            Token { kind: TokenKind::Open(delimiter), span },
        ) + tokens(inner)).push(Token { kind: TokenKind::Close(delimiter), span }),
{
    let delimiter = match delimiter {
        Delimiter::Parenthesis => proc_macro2::Delimiter::Parenthesis,
        Delimiter::Brace => proc_macro2::Delimiter::Brace,
        Delimiter::Bracket => proc_macro2::Delimiter::Bracket,
        Delimiter::Invisible => proc_macro2::Delimiter::None,
    };
    let mut group = proc_macro2::Group::new(delimiter, inner);
    group.set_span(span);
    stream.append(group);
}

/// `Extend<TokenStream>` of `proc_macro2::TokenStream`: the tokens of `more` are added at the end.
#[verifier::external_body]
fn push_stream(stream: &mut TokenStream, more: &TokenStream)
    ensures
        tokens(*final(stream)) == tokens(*old(stream)) + tokens(*more),
{
    stream.extend([more.clone()]);
}

/// Writes tokens one after another: [`Quoted`] is what has been written.
pub struct Quote {
    pub stream: TokenStream,
    pub span: Span,
}

impl View for Quote {
    type V = Quoted;

    open spec fn view(&self) -> Quoted {
        Quoted { tokens: tokens(self.stream), span: self.span }
    }
}

impl Quote {
    pub fn new(span: Span) -> (res: Quote)
        ensures
            res@ == quoted(span),
    {
        Quote { stream: TokenStream::new(), span }
    }

    /// An identifier or a keyword.
    pub fn word(self, text: &str) -> (res: Quote)
        requires
            is_word(text@),
        ensures
            res@ == self@.word(text),
    {
        let mut res = self;
        push_word(&mut res.stream, text, res.span);
        res
    }

    /// A punctuation character that stands alone.
    pub fn punct(self, c: char) -> (res: Quote)
        requires
            is_punctuation(c),
        ensures
            res@ == self@.punct(c),
    {
        let mut res = self;
        push_punct(&mut res.stream, c, Spacing::Alone, res.span);
        res
    }

    /// Two punctuation characters that belong together.
    pub fn pair(self, first: char, second: char) -> (res: Quote)
        requires
            is_punctuation(first),
            is_punctuation(second),
        ensures
            res@ == self@.pair(first, second),
    {
        let mut res = self;
        push_punct(&mut res.stream, first, Spacing::Joint, res.span);
        push_punct(&mut res.stream, second, Spacing::Alone, res.span);
        res
    }

    /// `::`
    pub fn sep(self) -> (res: Quote)
        ensures
            res@ == self@.sep(),
    {
        self.pair(':', ':')
    }

    /// A lifetime; `text` is its name without the quote.
    pub fn lifetime(self, text: &str) -> (res: Quote)
        requires
            is_word(text@),
        ensures
            res@ == self@.lifetime(text),
    {
        let mut res = self;
        push_punct(&mut res.stream, '\'', Spacing::Joint, res.span);
        push_word(&mut res.stream, text, res.span);
        res
    }

    /// A string literal, with a span of its own.
    pub fn string(self, text: &str, span: Span) -> (res: Quote)
        ensures
            res@ == self@.string(text@, span),
    {
        let mut res = self;
        push_string(&mut res.stream, text, span);
        res
    }

    /// Tokens as they are.
    pub fn stream(self, more: &TokenStream) -> (res: Quote)
        ensures
            res@ == self@.stream(tokens(*more)),
    {
        let mut res = self;
        push_stream(&mut res.stream, more);
        res
    }

    /// A group around `inner`.
    pub fn group(self, delimiter: Delimiter, inner: TokenStream) -> (res: Quote)
        ensures
            res@ == self@.group(delimiter, tokens(inner)),
    {
        let mut res = self;
        push_group(&mut res.stream, delimiter, inner, res.span);
        res
    }

    /// `( inner )`
    pub fn parens(self, inner: TokenStream) -> (res: Quote)
        ensures
            res@ == self@.parens(tokens(inner)),
    {
        self.group(Delimiter::Parenthesis, inner)
    }

    /// `{ inner }`
    pub fn braces(self, inner: TokenStream) -> (res: Quote)
        ensures
            res@ == self@.braces(tokens(inner)),
    {
        self.group(Delimiter::Brace, inner)
    }

    /// `[ inner ]`
    pub fn brackets(self, inner: TokenStream) -> (res: Quote)
        ensures
            res@ == self@.brackets(tokens(inner)),
    {
        self.group(Delimiter::Bracket, inner)
    }
}

/// The elements of all sequences, one after another.
pub open spec fn concat<T>(streams: Seq<Seq<T>>) -> Seq<T>
    decreases streams.len(),
{
    if streams.len() == 0 {
        Seq::empty()
    } else {
        concat(streams.drop_last()) + streams.last()
    }
}

/// The tokens of all streams, in order.
pub fn concat_streams(streams: &Vec<TokenStream>) -> (res: TokenStream)
    ensures
        tokens(res) == concat(all_tokens(streams@)),
{
    let mut res = TokenStream::new();
    let mut i: usize = 0;
    while i < streams.len()
        invariant
            i <= streams.len(),
            tokens(res) == concat(all_tokens(streams@).take(i as int)),
        decreases streams.len() - i,
    {
        push_stream(&mut res, &streams[i]);
        proof {
            let upto = all_tokens(streams@).take(i + 1);
            assert(upto.drop_last() =~= all_tokens(streams@).take(i as int));
        }
        i += 1;
    }
    assert(all_tokens(streams@).take(i as int) =~= all_tokens(streams@));
    res
}

/// Whether `span` is that of these tokens taken together. Different compilers join spans differently,
/// or not at all.
pub uninterp spec fn spans(tokens: Seq<Token>, span: Span) -> bool;

/// Whether something with these tokens stands at `span`. A single token stands at its own span, and
/// without any tokens it is the call site.
pub open spec fn stands_at(tokens: Seq<Token>, span: Span) -> bool {
    &&& spans(tokens, span)
    &&& tokens.len() == 0 ==> is_call_site(span)
    &&& tokens.len() == 1 ==> span == tokens[0].span
}

/// `syn::spanned::Spanned::span` of a stream: the span of its tokens taken together, which of a
/// single token is its own. Of an empty stream it is the call site.
#[verifier::external_body]
pub(crate) fn stream_span(stream: &TokenStream) -> (span: Span)
    ensures
        spans(tokens(*stream), span),
        tokens(*stream).len() == 0 ==> is_call_site(span),
        tokens(*stream).len() == 1 ==> span == tokens(*stream)[0].span,
{
    stream.span()
}

/// Whether the text of a literal is that of a number, with a sign or not.
pub open spec fn is_number(text: Seq<char>) -> bool {
    text.len() > 0 && ('0' <= text[0] <= '9' || text[0] == '-')
}

/// Whether a token that is printed again after parsing stands where it stood, or at the call site if
/// it was added. A number may have a span of its own, and so may the minus and the dots in one.
pub open spec fn keeps_place(token: Token, input: Seq<Token>) -> bool {
    is_call_site(token.span) || match token.kind {
        TokenKind::Literal(text) => is_number(text) || input.contains(token),
        TokenKind::Punct(c, _) => {
            ||| c == '-' || c == '.'
            ||| input.contains(Token { kind: TokenKind::Punct(c, true), span: token.span })
            ||| input.contains(Token { kind: TokenKind::Punct(c, false), span: token.span })
        },
        _ => input.contains(token),
    }
}

/// [`keeps_place`] of all tokens.
pub open spec fn keeps_places(printed: Seq<Token>, input: Seq<Token>) -> bool {
    forall|i: int| 0 <= i < printed.len() ==> keeps_place(#[trigger] printed[i], input)
}

/// Tokens that are printed again twice stand where they stood at first.
pub proof fn lemma_keeps_places(last: Seq<Token>, next: Seq<Token>, first: Seq<Token>)
    requires
        keeps_places(last, next),
        keeps_places(next, first),
    ensures
        keeps_places(last, first),
{
    assert forall|i: int| 0 <= i < last.len() implies keeps_place(#[trigger] last[i], first) by {
        let token = last[i];
        assert(keeps_place(token, next));
        assert forall|other: Token| next.contains(other) implies #[trigger] keeps_place(
            other,
            first,
        ) by {
            let k = choose|k: int| 0 <= k < next.len() && next[k] == other;
            assert(keeps_place(next[k], first));
        }
        if let TokenKind::Punct(c, _) = token.kind {
            let joint = Token { kind: TokenKind::Punct(c, true), span: token.span };
            let alone = Token { kind: TokenKind::Punct(c, false), span: token.span };
            if next.contains(joint) {
                assert(keeps_place(joint, first));
            } else if next.contains(alone) {
                assert(keeps_place(alone, first));
            }
        } else if next.contains(token) {
            assert(keeps_place(token, first));
        }
    }
}

/// Whether a token is the literal of a text or a character.
pub open spec fn is_text(token: Token) -> bool {
    match token.kind {
        TokenKind::Str(_) => true,
        TokenKind::Literal(text) => !is_number(text),
        _ => false,
    }
}

/// Whether a token that is printed again after parsing stands where it stood, or where the literal
/// stands out of whose text it was parsed.
pub open spec fn comes_from(token: Token, input: Seq<Token>) -> bool {
    ||| keeps_place(token, input)
    ||| exists|i: int|
        0 <= i < input.len() && is_text(#[trigger] input[i]) && input[i].span == token.span
}

/// [`comes_from`] of all tokens.
pub open spec fn all_come_from(printed: Seq<Token>, input: Seq<Token>) -> bool {
    forall|i: int| 0 <= i < printed.len() ==> comes_from(#[trigger] printed[i], input)
}

/// Tokens that come from tokens that are printed again come from where those stood at first.
pub proof fn lemma_all_come_from(last: Seq<Token>, next: Seq<Token>, first: Seq<Token>)
    requires
        all_come_from(last, next),
        keeps_places(next, first),
    ensures
        all_come_from(last, first),
{
    assert forall|i: int| 0 <= i < last.len() implies comes_from(#[trigger] last[i], first) by {
        let token = last[i];
        assert(comes_from(token, next));
        if keeps_place(token, next) {
            assert(keeps_places(seq![token], next));
            lemma_keeps_places(seq![token], next, first);
            assert(keeps_place(seq![token][0], first));
        } else {
            let k = choose|k: int|
                0 <= k < next.len() && is_text(#[trigger] next[k]) && next[k].span == token.span;
            assert(keeps_place(next[k], first));
            if !is_call_site(token.span) {
                assert(first.contains(next[k]));
                let m = choose|m: int| 0 <= m < first.len() && first[m] == next[k];
                assert(is_text(first[m]) && first[m].span == token.span);
            }
        }
    }
}

/// Whether `text` is how tokens of these kinds are printed. Different compilers space the same
/// tokens differently.
pub uninterp spec fn prints(kinds: Seq<TokenKind>, text: Seq<char>) -> bool;

/// `Display` of `proc_macro2::TokenStream`: some printed form of the tokens.
#[verifier::external_body]
pub(crate) fn print(stream: &TokenStream) -> (text: String)
    ensures
        prints(kinds(tokens(*stream)), text@),
{
    stream.to_string()
}

} // verus!
