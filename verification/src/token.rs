//! Tokens: what the lexer hands over. Each carries the whitespace before it and
//! its own code, and a description of its kind.

use crate::source::{concat, models, texts, Offset, Piece, Span, SpanItem, SpanView};
use vstd::prelude::*;

verus! {

/// A lexed terminal of kind `T`.
#[derive(Clone, Debug, PartialEq, Eq)]
pub struct Token<T> {
    pub left_offset: Offset,
    pub code: String,
    pub variant: T,
}

/// The model of a [`Token`].
pub struct TokenView<T> {
    pub left_offset: Seq<char>,
    pub code: Seq<char>,
    pub variant: T,
}

impl<T> TokenView<T> {
    /// The source text of the token: its offset, and its code behind it.
    pub open spec fn source(self) -> Seq<char> {
        self.left_offset + self.code
    }

    /// The same token, described as `variant`.
    pub open spec fn with_variant<S>(self, variant: S) -> TokenView<S> {
        TokenView { left_offset: self.left_offset, code: self.code, variant }
    }

    /// The same token with `more` before the offset it has.
    pub open spec fn offset_prefixed(self, more: Seq<char>) -> TokenView<T> {
        TokenView { left_offset: more + self.left_offset, code: self.code, variant: self.variant }
    }
}

impl<T> Piece for TokenView<T> {
    open spec fn fold_into(self, span: SpanView) -> (SpanView, Self) {
        (
            span.absorb(self.left_offset, self.code.len()).0,
            TokenView {
                left_offset: span.absorb(self.left_offset, self.code.len()).1,
                code: self.code,
                variant: self.variant,
            },
        )
    }

    open spec fn weight(self) -> nat {
        self.left_offset.len() + self.code.len()
    }

    open spec fn text(self) -> Seq<char> {
        self.source()
    }

    open spec fn sound(self) -> bool {
        true
    }

    proof fn lemma_weight(self, span: SpanView) {
    }

    proof fn lemma_measure(self) {
    }

    proof fn lemma_fold(self, span: SpanView, covered: Seq<char>) {
        let after = self.fold_into(span);
        assert(after.0.left_offset + (covered + after.1.text()) =~= (span.left_offset + covered)
            + self.text());
    }
}

impl<T> Token<T> {
    /// The model of the token.
    pub open spec fn view(&self) -> TokenView<T> {
        TokenView { left_offset: self.left_offset@, code: self.code@, variant: self.variant }
    }

    /// The token of kind `variant` with the code `code` behind `left_offset`.
    pub fn new(left_offset: Offset, code: String, variant: T) -> (r: Token<T>)
        ensures
            r@ == (TokenView { left_offset: left_offset@, code: code@, variant }),
    {
        Token { left_offset, code, variant }
    }

    /// The same token, described as `variant`.
    pub fn with_variant<S>(self, variant: S) -> (r: Token<S>)
        ensures
            r@ == self@.with_variant(variant),
    {
        Token { left_offset: self.left_offset, code: self.code, variant }
    }

    /// The same token with the text of `more` before the offset it has.
    pub fn offset_prefixed(self, more: &Offset) -> (r: Token<T>)
        ensures
            r@ == self@.offset_prefixed(more@),
    {
        let mut code = String::from_str(more.code.as_str());
        code.append(self.left_offset.code.as_str());
        Token { left_offset: Offset { code }, code: self.code, variant: self.variant }
    }

    /// Appends the source text of the token to `out`.
    pub fn write_code(&self, out: String) -> (r: String)
        ensures
            r@ == out@ + self@.source(),
    {
        let ghost start = out@;
        let mut out = out;
        out.append(self.left_offset.code.as_str());
        out.append(self.code.as_str());
        assert(out@ =~= start + (self@.left_offset + self@.code));
        out
    }

    /// The number of characters of the token's code.
    pub fn code_length(&self) -> (n: usize)
        ensures
            n == self@.code.len(),
    {
        self.code.as_str().unicode_len()
    }
}

impl<T> SpanItem for Token<T> {
    type M = TokenView<T>;

    open spec fn model(&self) -> TokenView<T> {
        self@
    }

    fn add_to_span(self, span: Span) -> (r: (Span, Self)) {
        let code_length: usize = self.code_length();
        let Token { left_offset, code, variant } = self;
        let (span, left_offset) = span.absorb(left_offset, code_length);
        (span, Token { left_offset, code, variant })
    }

    fn measure(&self) -> (n: usize) {
        let before: usize = self.left_offset.len();
        before + self.code_length()
    }
}

/// The models of the tokens of a sequence, in order.
pub open spec fn token_views<T>(tokens: Seq<Token<T>>) -> Seq<TokenView<T>> {
    Seq::new(tokens.len(), |i: int| tokens[i]@)
}

/// The model of a token that may be absent.
pub open spec fn opt_token_view<T>(token: Option<Token<T>>) -> Option<TokenView<T>> {
    match token {
        Some(t) => Some(t@),
        None => None,
    }
}

/// The source text of a token that may be absent.
pub open spec fn opt_token_source<T>(token: Option<TokenView<T>>) -> Seq<char> {
    match token {
        Some(t) => t.source(),
        None => Seq::empty(),
    }
}

/// The source texts of the tokens of a sequence, in order.
pub open spec fn token_sources<T>(tokens: Seq<TokenView<T>>) -> Seq<Seq<char>> {
    Seq::new(tokens.len(), |i: int| tokens[i].source())
}

/// The source text of a sequence of tokens.
pub open spec fn tokens_source<T>(tokens: Seq<TokenView<T>>) -> Seq<char> {
    concat(token_sources(tokens))
}

/// The two ways to write the text of a sequence of tokens agree.
pub proof fn lemma_seq_tokens<T>(tokens: Seq<TokenView<T>>)
    ensures
        tokens.text() == tokens_source(tokens),
        tokens.sound(),
{
    assert(texts(tokens) =~= token_sources(tokens));
}

/// Folding tokens into a span changes their offsets at most: they stay as
/// many, and each keeps its code and its kind.
pub proof fn lemma_tokens_folded<T>(tokens: Seq<TokenView<T>>, span: SpanView)
    ensures
        tokens.fold_into(span).1.len() == tokens.len(),
        forall|i: int|
            0 <= i < tokens.len() ==> {
                &&& (#[trigger] tokens.fold_into(span).1[i]).code == tokens[i].code
                &&& tokens.fold_into(span).1[i].variant == tokens[i].variant
            },
    decreases tokens.len(),
{
    if tokens.len() > 0 {
        lemma_tokens_folded(tokens.drop_last(), span);
    }
}

/// The two ways to write the models of a sequence of tokens agree.
pub proof fn lemma_models_tokens<T>(tokens: Seq<Token<T>>)
    ensures
        models(tokens) == token_views(tokens),
{
    assert(models(tokens) =~= token_views(tokens));
}

/// Appends the source text of the tokens to `out`, in order.
pub fn write_tokens<T>(tokens: &Vec<Token<T>>, out: String) -> (r: String)
    ensures
        r@ == out@ + tokens_source(token_views(tokens@)),
{
    let ghost start = out@;
    let ghost parts = token_sources(token_views(tokens@));
    let mut out = out;
    let mut i: usize = 0;
    assert(parts.subrange(0, 0) =~= Seq::<Seq<char>>::empty());
    assert(out@ =~= start + concat(parts.subrange(0, 0)));
    while i < tokens.len()
        invariant
            i <= tokens@.len(),
            parts == token_sources(token_views(tokens@)),
            out@ == start + concat(parts.subrange(0, i as int)),
        decreases tokens@.len() - i,
    {
        out = tokens[i].write_code(out);
        proof {
            assert(parts.subrange(0, i + 1).drop_last() =~= parts.subrange(0, i as int));
            assert(out@ =~= start + concat(parts.subrange(0, i + 1)));
        }
        i = i + 1;
    }
    assert(parts.subrange(0, i as int) =~= parts);
    out
}

/// What the lexer knows of an identifier.
#[derive(Clone, Copy, Debug, PartialEq, Eq)]
pub struct Ident {
    pub is_free: bool,
    pub lift_level: u32,
    /// Whether the identifier is written as the name of a type (capitalized).
    pub is_type: bool,
    pub is_operator_lexically: bool,
    pub is_default: bool,
}

/// How an operator behaves when trees are built around it.
#[derive(Clone, Copy, Debug, PartialEq, Eq)]
pub struct OperatorProperties {
    pub binary_infix_precedence: Option<u32>,
    pub unary_prefix_precedence: Option<u32>,
    pub is_right_associative: bool,
    /// The operator `:`.
    pub is_type_annotation: bool,
    /// The operator `=`.
    pub is_assignment: bool,
    pub is_arrow: bool,
    pub is_sequence: bool,
    pub is_suspension: bool,
    /// The marker `@` before an annotation.
    pub is_annotation: bool,
    /// The marker `..` before a constructor name.
    pub is_autoscope: bool,
    pub is_dot: bool,
    /// Reserved: never valid where an operator is applied.
    pub is_special: bool,
    /// Glues the base of a number to its digits.
    pub is_token_joiner: bool,
    /// The `.` that may stand inside a decimal number.
    pub is_decimal: bool,
    /// Whether the operator may stand with an operand missing.
    pub can_form_section: bool,
}

impl OperatorProperties {
    /// An ordinary operator: none of the special roles, and sections allowed.
    pub fn new() -> (r: OperatorProperties)
        ensures
            r == (OperatorProperties {
                binary_infix_precedence: None,
                unary_prefix_precedence: None,
                is_right_associative: false,
                is_type_annotation: false,
                is_assignment: false,
                is_arrow: false,
                is_sequence: false,
                is_suspension: false,
                is_annotation: false,
                is_autoscope: false,
                is_dot: false,
                is_special: false,
                is_token_joiner: false,
                is_decimal: false,
                can_form_section: true,
            }),
    {
        OperatorProperties {
            binary_infix_precedence: None,
            unary_prefix_precedence: None,
            is_right_associative: false,
            is_type_annotation: false,
            is_assignment: false,
            is_arrow: false,
            is_sequence: false,
            is_suspension: false,
            is_annotation: false,
            is_autoscope: false,
            is_dot: false,
            is_special: false,
            is_token_joiner: false,
            is_decimal: false,
            can_form_section: true,
        }
    }
}

#[derive(Clone, Copy, Debug, PartialEq, Eq)]
pub struct Operator {
    pub properties: OperatorProperties,
}

/// The base of a number literal.
#[derive(Clone, Copy, Debug, PartialEq, Eq)]
pub enum Base {
    Binary,
    Octal,
    Hexadecimal,
}

#[derive(Clone, Copy, Debug, PartialEq, Eq)]
pub struct Digits {
    pub base: Option<Base>,
}

#[derive(Clone, Copy, Debug, PartialEq, Eq)]
pub struct NumberBase;

#[derive(Clone, Copy, Debug, PartialEq, Eq)]
pub struct Wildcard {
    pub lift_level: u32,
}

#[derive(Clone, Copy, Debug, PartialEq, Eq)]
pub struct SuspendedDefaultArguments;

#[derive(Clone, Copy, Debug, PartialEq, Eq)]
pub struct Newline;

#[derive(Clone, Copy, Debug, PartialEq, Eq)]
pub struct OpenSymbol;

#[derive(Clone, Copy, Debug, PartialEq, Eq)]
pub struct CloseSymbol;

#[derive(Clone, Copy, Debug, PartialEq, Eq)]
pub struct BlockStart;

#[derive(Clone, Copy, Debug, PartialEq, Eq)]
pub struct BlockEnd;

#[derive(Clone, Copy, Debug, PartialEq, Eq)]
pub struct Private;

#[derive(Clone, Copy, Debug, PartialEq, Eq)]
pub struct TextStart;

#[derive(Clone, Copy, Debug, PartialEq, Eq)]
pub struct TextEnd;

#[derive(Clone, Copy, Debug, PartialEq, Eq)]
pub struct TextSection;

#[derive(Clone, Copy, Debug, PartialEq, Eq)]
pub struct TextEscape {
    /// The character that the escape sequence stands for, where it stands for one.
    pub value: Option<u32>,
}

#[derive(Clone, Copy, Debug, PartialEq, Eq)]
pub struct TextInitialNewline;

#[derive(Clone, Copy, Debug, PartialEq, Eq)]
pub struct TextNewline;

#[derive(Clone, Copy, Debug, PartialEq, Eq)]
pub struct Invalid;

/// The kind of a token whose kind is known only when the program runs.
#[derive(Clone, Copy, Debug, PartialEq, Eq)]
pub enum Variant {
    Newline(Newline),
    OpenSymbol(OpenSymbol),
    CloseSymbol(CloseSymbol),
    BlockStart(BlockStart),
    BlockEnd(BlockEnd),
    Wildcard(Wildcard),
    SuspendedDefaultArguments(SuspendedDefaultArguments),
    Ident(Ident),
    Operator(Operator),
    Digits(Digits),
    NumberBase(NumberBase),
    Private(Private),
    TextStart(TextStart),
    TextEnd(TextEnd),
    TextSection(TextSection),
    TextEscape(TextEscape),
    TextInitialNewline(TextInitialNewline),
    TextNewline(TextNewline),
    Invalid(Invalid),
}

} // verus!
