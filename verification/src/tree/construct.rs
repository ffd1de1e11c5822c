//! The executable side of span building: what the model says of a node's span
//! is what the constructors of the tree compute.

use crate::source::{models, Offset, Piece, Span, SpanItem};
use crate::token;
use crate::token::{lemma_models_tokens, opt_token_view, token_views, Token};
use crate::tree::block::{Line, OperatorBlockExpression, OperatorLine};
use crate::tree::model::{
    ArgumentDefaultView, ArgumentDefinitionLineView, ArgumentDefinitionView, ArgumentTypeView,
    CaseLineView, CaseView, DocCommentView, FractionalDigitsView, LineView,
    MultiSegmentAppSegmentView, MultipleOperatorErrorView, OperatorBlockExpressionView,
    OperatorDelimitedTreeView, OperatorLineView, ReturnSpecificationView, TextElementView,
    TextLiteralView, operator_or_error_view, TreeView, VariantView,
};
use crate::tree::{
    ArgumentDefault, ArgumentDefinition, ArgumentDefinitionLine, ArgumentType, Case, CaseLine,
    DocComment, Error, FractionalDigits, MultiSegmentAppSegment, MultipleOperatorError,
    OperatorDelimitedTree, OperatorOrError, ReturnSpecification, TextElement, TextLiteral, Tree,
    Variant,
};
use vstd::prelude::*;

verus! {

impl SpanItem for Tree {
    type M = TreeView;

    open spec fn model(&self) -> TreeView {
        self@
    }

    fn add_to_span(self, span: Span) -> (r: (Span, Self)) {
        let Tree { span: own, variant } = self;
        let (span, left_offset) = span.absorb(own.left_offset, own.code_length);
        (span, Tree { span: Span { left_offset, code_length: own.code_length }, variant })
    }

    fn measure(&self) -> (n: usize) {
        self.span.length_including_whitespace()
    }
}

/// The two ways to write the models of a sequence agree.
pub proof fn lemma_models_line(items: Seq<Line>)
    ensures
        models(items) == Line::views(items),
{
    assert(models(items) =~= Line::views(items));
}

/// The two ways to write the models of a sequence agree.
pub proof fn lemma_models_operator_line(items: Seq<OperatorLine>)
    ensures
        models(items) == OperatorLine::views(items),
{
    assert(models(items) =~= OperatorLine::views(items));
}

/// The two ways to write the models of a sequence agree.
pub proof fn lemma_models_text_element(items: Seq<TextElement>)
    ensures
        models(items) == TextElement::views(items),
{
    assert(models(items) =~= TextElement::views(items));
}

/// The two ways to write the models of a sequence agree.
pub proof fn lemma_models_argument_definition(items: Seq<ArgumentDefinition>)
    ensures
        models(items) == ArgumentDefinition::views(items),
{
    assert(models(items) =~= ArgumentDefinition::views(items));
}

/// The two ways to write the models of a sequence agree.
pub proof fn lemma_models_case_line(items: Seq<CaseLine>)
    ensures
        models(items) == CaseLine::views(items),
{
    assert(models(items) =~= CaseLine::views(items));
}

/// The two ways to write the models of a sequence agree.
pub proof fn lemma_models_operator_delimited_tree(items: Seq<OperatorDelimitedTree>)
    ensures
        models(items) == OperatorDelimitedTree::views(items),
{
    assert(models(items) =~= OperatorDelimitedTree::views(items));
}

/// The two ways to write the models of a sequence agree.
pub proof fn lemma_models_argument_definition_line(items: Seq<ArgumentDefinitionLine>)
    ensures
        models(items) == ArgumentDefinitionLine::views(items),
{
    assert(models(items) =~= ArgumentDefinitionLine::views(items));
}

/// The two ways to write the models of a sequence agree.
pub proof fn lemma_models_multi_segment_app_segment(items: Seq<MultiSegmentAppSegment>)
    ensures
        models(items) == MultiSegmentAppSegment::views(items),
{
    assert(models(items) =~= MultiSegmentAppSegment::views(items));
}

impl SpanItem for Line {
    type M = LineView;

    open spec fn model(&self) -> LineView {
        self@
    }

    fn add_to_span(self, span: Span) -> (r: (Span, Self)) {
        let Line { newline, expression } = self;
        proof {
            newline.model().lemma_weight(span@);
        }
        let (span, newline) = newline.add_to_span(span);
        let (span, expression) = expression.add_to_span(span);
        (span, Line { newline, expression })
    }

    fn measure(&self) -> (n: usize) {
        let mut n: usize = 0;
        let one: usize = self.newline.measure();
        n = n + one;
        let one: usize = self.expression.measure();
        n = n + one;
        n
    }
}

impl SpanItem for OperatorBlockExpression {
    type M = OperatorBlockExpressionView;

    open spec fn model(&self) -> OperatorBlockExpressionView {
        self@
    }

    fn add_to_span(self, span: Span) -> (r: (Span, Self)) {
        let OperatorBlockExpression { operator, expression } = self;
        proof {
            operator.model().lemma_weight(span@);
        }
        let (span, operator) = operator.add_to_span(span);
        let (span, expression) = expression.add_to_span(span);
        (span, OperatorBlockExpression { operator, expression })
    }

    fn measure(&self) -> (n: usize) {
        let mut n: usize = 0;
        let one: usize = self.operator.measure();
        n = n + one;
        let one: usize = self.expression.measure();
        n = n + one;
        n
    }
}

impl SpanItem for OperatorLine {
    type M = OperatorLineView;

    open spec fn model(&self) -> OperatorLineView {
        self@
    }

    fn add_to_span(self, span: Span) -> (r: (Span, Self)) {
        let OperatorLine { newline, expression } = self;
        proof {
            newline.model().lemma_weight(span@);
        }
        let (span, newline) = newline.add_to_span(span);
        let (span, expression) = expression.add_to_span(span);
        (span, OperatorLine { newline, expression })
    }

    fn measure(&self) -> (n: usize) {
        let mut n: usize = 0;
        let one: usize = self.newline.measure();
        n = n + one;
        let one: usize = self.expression.measure();
        n = n + one;
        n
    }
}

impl SpanItem for ArgumentDefinitionLine {
    type M = ArgumentDefinitionLineView;

    open spec fn model(&self) -> ArgumentDefinitionLineView {
        self@
    }

    fn add_to_span(self, span: Span) -> (r: (Span, Self)) {
        let ArgumentDefinitionLine { newline, argument } = self;
        proof {
            newline.model().lemma_weight(span@);
        }
        let (span, newline) = newline.add_to_span(span);
        let (span, argument) = argument.add_to_span(span);
        (span, ArgumentDefinitionLine { newline, argument })
    }

    fn measure(&self) -> (n: usize) {
        let mut n: usize = 0;
        let one: usize = self.newline.measure();
        n = n + one;
        let one: usize = self.argument.measure();
        n = n + one;
        n
    }
}

impl SpanItem for TextElement {
    type M = TextElementView;

    open spec fn model(&self) -> TextElementView {
        self@
    }

    fn add_to_span(self, span: Span) -> (r: (Span, Self)) {
        match self {
            TextElement::Section { text } => {
                let (span, text) = text.add_to_span(span);
                (span, TextElement::Section { text })
            },
            TextElement::Escape { token } => {
                let (span, token) = token.add_to_span(span);
                (span, TextElement::Escape { token })
            },
            TextElement::Newline { newline } => {
                let (span, newline) = newline.add_to_span(span);
                (span, TextElement::Newline { newline })
            },
            TextElement::Splice { open, expression, close } => {
                proof {
                    open.model().lemma_weight(span@);
                }
                let (span, open) = open.add_to_span(span);
                proof {
                    expression.model().lemma_weight(span@);
                }
                let (span, expression) = expression.add_to_span(span);
                let (span, close) = close.add_to_span(span);
                (span, TextElement::Splice { open, expression, close })
            },
        }
    }

    fn measure(&self) -> (n: usize) {
        match self {
            TextElement::Section { text } => {
                let mut n: usize = 0;
                let one: usize = text.measure();
                n = n + one;
                n
            },
            TextElement::Escape { token } => {
                let mut n: usize = 0;
                let one: usize = token.measure();
                n = n + one;
                n
            },
            TextElement::Newline { newline } => {
                let mut n: usize = 0;
                let one: usize = newline.measure();
                n = n + one;
                n
            },
            TextElement::Splice { open, expression, close } => {
                let mut n: usize = 0;
                let one: usize = open.measure();
                n = n + one;
                let one: usize = expression.measure();
                n = n + one;
                let one: usize = close.measure();
                n = n + one;
                n
            },
        }
    }
}

impl SpanItem for DocComment {
    type M = DocCommentView;

    open spec fn model(&self) -> DocCommentView {
        self@
    }

    fn add_to_span(self, span: Span) -> (r: (Span, Self)) {
        let DocComment { open, elements, newlines } = self;
        proof {
            open.model().lemma_weight(span@);
        }
        let (span, open) = open.add_to_span(span);
        proof {
            lemma_models_text_element(elements@);
            elements.model().lemma_weight(span@);
        }
        let (span, elements) = elements.add_to_span(span);
        proof {
            lemma_models_text_element(elements@);
        }
        proof {
            lemma_models_tokens(newlines@);
        }
        let (span, newlines) = newlines.add_to_span(span);
        proof {
            lemma_models_tokens(newlines@);
        }
        (span, DocComment { open, elements, newlines })
    }

    fn measure(&self) -> (n: usize) {
        let mut n: usize = 0;
        let one: usize = self.open.measure();
        n = n + one;
        proof {
            lemma_models_text_element(self.elements@);
        }
        let one: usize = self.elements.measure();
        n = n + one;
        proof {
            lemma_models_tokens(self.newlines@);
        }
        let one: usize = self.newlines.measure();
        n = n + one;
        n
    }
}

impl SpanItem for FractionalDigits {
    type M = FractionalDigitsView;

    open spec fn model(&self) -> FractionalDigitsView {
        self@
    }

    fn add_to_span(self, span: Span) -> (r: (Span, Self)) {
        let FractionalDigits { dot, digits } = self;
        proof {
            dot.model().lemma_weight(span@);
        }
        let (span, dot) = dot.add_to_span(span);
        let (span, digits) = digits.add_to_span(span);
        (span, FractionalDigits { dot, digits })
    }

    fn measure(&self) -> (n: usize) {
        let mut n: usize = 0;
        let one: usize = self.dot.measure();
        n = n + one;
        let one: usize = self.digits.measure();
        n = n + one;
        n
    }
}

impl SpanItem for ArgumentDefinition {
    type M = ArgumentDefinitionView;

    open spec fn model(&self) -> ArgumentDefinitionView {
        self@
    }

    #[verifier::rlimit(80)]
    fn add_to_span(self, span: Span) -> (r: (Span, Self)) {
        let ArgumentDefinition {
            open,
            open2,
            suspension,
            pattern,
            type_,
            close2,
            default,
            close,
        } = self;
        proof {
            open.model().lemma_weight(span@);
        }
        let (span, open) = open.add_to_span(span);
        proof {
            open2.model().lemma_weight(span@);
        }
        let (span, open2) = open2.add_to_span(span);
        proof {
            suspension.model().lemma_weight(span@);
        }
        let (span, suspension) = suspension.add_to_span(span);
        proof {
            pattern.model().lemma_weight(span@);
        }
        let (span, pattern) = pattern.add_to_span(span);
        proof {
            type_.model().lemma_weight(span@);
        }
        let (span, type_) = type_.add_to_span(span);
        proof {
            close2.model().lemma_weight(span@);
        }
        let (span, close2) = close2.add_to_span(span);
        proof {
            default.model().lemma_weight(span@);
        }
        let (span, default) = default.add_to_span(span);
        let (span, close) = close.add_to_span(span);
        (
            span,
            ArgumentDefinition { open, open2, suspension, pattern, type_, close2, default, close },
        )
    }

    fn measure(&self) -> (n: usize) {
        let mut n: usize = 0;
        let one: usize = self.open.measure();
        n = n + one;
        let one: usize = self.open2.measure();
        n = n + one;
        let one: usize = self.suspension.measure();
        n = n + one;
        let one: usize = self.pattern.measure();
        n = n + one;
        let one: usize = self.type_.measure();
        n = n + one;
        let one: usize = self.close2.measure();
        n = n + one;
        let one: usize = self.default.measure();
        n = n + one;
        let one: usize = self.close.measure();
        n = n + one;
        n
    }
}

impl SpanItem for ArgumentDefault {
    type M = ArgumentDefaultView;

    open spec fn model(&self) -> ArgumentDefaultView {
        self@
    }

    fn add_to_span(self, span: Span) -> (r: (Span, Self)) {
        let ArgumentDefault { equals, expression } = self;
        proof {
            equals.model().lemma_weight(span@);
        }
        let (span, equals) = equals.add_to_span(span);
        let (span, expression) = expression.add_to_span(span);
        (span, ArgumentDefault { equals, expression })
    }

    fn measure(&self) -> (n: usize) {
        let mut n: usize = 0;
        let one: usize = self.equals.measure();
        n = n + one;
        let one: usize = self.expression.measure();
        n = n + one;
        n
    }
}

impl SpanItem for ArgumentType {
    type M = ArgumentTypeView;

    open spec fn model(&self) -> ArgumentTypeView {
        self@
    }

    fn add_to_span(self, span: Span) -> (r: (Span, Self)) {
        let ArgumentType { operator, type_ } = self;
        proof {
            operator.model().lemma_weight(span@);
        }
        let (span, operator) = operator.add_to_span(span);
        let (span, type_) = type_.add_to_span(span);
        (span, ArgumentType { operator, type_ })
    }

    fn measure(&self) -> (n: usize) {
        let mut n: usize = 0;
        let one: usize = self.operator.measure();
        n = n + one;
        let one: usize = self.type_.measure();
        n = n + one;
        n
    }
}

impl SpanItem for ReturnSpecification {
    type M = ReturnSpecificationView;

    open spec fn model(&self) -> ReturnSpecificationView {
        self@
    }

    fn add_to_span(self, span: Span) -> (r: (Span, Self)) {
        let ReturnSpecification { arrow, type_ } = self;
        proof {
            arrow.model().lemma_weight(span@);
        }
        let (span, arrow) = arrow.add_to_span(span);
        let (span, type_) = type_.add_to_span(span);
        (span, ReturnSpecification { arrow, type_ })
    }

    fn measure(&self) -> (n: usize) {
        let mut n: usize = 0;
        let one: usize = self.arrow.measure();
        n = n + one;
        let one: usize = self.type_.measure();
        n = n + one;
        n
    }
}

impl SpanItem for CaseLine {
    type M = CaseLineView;

    open spec fn model(&self) -> CaseLineView {
        self@
    }

    fn add_to_span(self, span: Span) -> (r: (Span, Self)) {
        let CaseLine { newline, case } = self;
        proof {
            newline.model().lemma_weight(span@);
        }
        let (span, newline) = newline.add_to_span(span);
        let (span, case) = case.add_to_span(span);
        (span, CaseLine { newline, case })
    }

    fn measure(&self) -> (n: usize) {
        let mut n: usize = 0;
        let one: usize = self.newline.measure();
        n = n + one;
        let one: usize = self.case.measure();
        n = n + one;
        n
    }
}

impl SpanItem for Case {
    type M = CaseView;

    open spec fn model(&self) -> CaseView {
        self@
    }

    fn add_to_span(self, span: Span) -> (r: (Span, Self)) {
        let Case { documentation, pattern, arrow, expression } = self;
        proof {
            documentation.model().lemma_weight(span@);
        }
        let (span, documentation) = documentation.add_to_span(span);
        proof {
            pattern.model().lemma_weight(span@);
        }
        let (span, pattern) = pattern.add_to_span(span);
        proof {
            arrow.model().lemma_weight(span@);
        }
        let (span, arrow) = arrow.add_to_span(span);
        let (span, expression) = expression.add_to_span(span);
        (span, Case { documentation, pattern, arrow, expression })
    }

    fn measure(&self) -> (n: usize) {
        let mut n: usize = 0;
        let one: usize = self.documentation.measure();
        n = n + one;
        let one: usize = self.pattern.measure();
        n = n + one;
        let one: usize = self.arrow.measure();
        n = n + one;
        let one: usize = self.expression.measure();
        n = n + one;
        n
    }
}

impl SpanItem for TextLiteral {
    type M = TextLiteralView;

    open spec fn model(&self) -> TextLiteralView {
        self@
    }

    fn add_to_span(self, span: Span) -> (r: (Span, Self)) {
        let TextLiteral { open, newline, elements, close, closed } = self;
        proof {
            open.model().lemma_weight(span@);
        }
        let (span, open) = open.add_to_span(span);
        proof {
            newline.model().lemma_weight(span@);
        }
        let (span, newline) = newline.add_to_span(span);
        proof {
            lemma_models_text_element(elements@);
            elements.model().lemma_weight(span@);
        }
        let (span, elements) = elements.add_to_span(span);
        proof {
            lemma_models_text_element(elements@);
        }
        let (span, close) = close.add_to_span(span);
        (span, TextLiteral { open, newline, elements, close, closed })
    }

    fn measure(&self) -> (n: usize) {
        let mut n: usize = 0;
        let one: usize = self.open.measure();
        n = n + one;
        let one: usize = self.newline.measure();
        n = n + one;
        proof {
            lemma_models_text_element(self.elements@);
        }
        let one: usize = self.elements.measure();
        n = n + one;
        let one: usize = self.close.measure();
        n = n + one;
        n
    }
}

impl SpanItem for MultipleOperatorError {
    type M = MultipleOperatorErrorView;

    open spec fn model(&self) -> MultipleOperatorErrorView {
        self@
    }

    fn add_to_span(self, span: Span) -> (r: (Span, Self)) {
        let MultipleOperatorError { operators } = self;
        proof {
            lemma_models_tokens(operators@);
        }
        let (span, operators) = operators.add_to_span(span);
        proof {
            lemma_models_tokens(operators@);
        }
        (span, MultipleOperatorError { operators })
    }

    fn measure(&self) -> (n: usize) {
        let mut n: usize = 0;
        proof {
            lemma_models_tokens(self.operators@);
        }
        let one: usize = self.operators.measure();
        n = n + one;
        n
    }
}

impl SpanItem for MultiSegmentAppSegment {
    type M = MultiSegmentAppSegmentView;

    open spec fn model(&self) -> MultiSegmentAppSegmentView {
        self@
    }

    fn add_to_span(self, span: Span) -> (r: (Span, Self)) {
        let MultiSegmentAppSegment { header, body } = self;
        proof {
            header.model().lemma_weight(span@);
        }
        let (span, header) = header.add_to_span(span);
        let (span, body) = body.add_to_span(span);
        (span, MultiSegmentAppSegment { header, body })
    }

    fn measure(&self) -> (n: usize) {
        let mut n: usize = 0;
        let one: usize = self.header.measure();
        n = n + one;
        let one: usize = self.body.measure();
        n = n + one;
        n
    }
}

impl SpanItem for OperatorDelimitedTree {
    type M = OperatorDelimitedTreeView;

    open spec fn model(&self) -> OperatorDelimitedTreeView {
        self@
    }

    fn add_to_span(self, span: Span) -> (r: (Span, Self)) {
        let OperatorDelimitedTree { operator, body } = self;
        proof {
            operator.model().lemma_weight(span@);
        }
        let (span, operator) = operator.add_to_span(span);
        let (span, body) = body.add_to_span(span);
        (span, OperatorDelimitedTree { operator, body })
    }

    fn measure(&self) -> (n: usize) {
        let mut n: usize = 0;
        let one: usize = self.operator.measure();
        n = n + one;
        let one: usize = self.body.measure();
        n = n + one;
        n
    }
}

/// Folds the fields of `Invalid` into `span`.
fn fold_invalid(error: Error, ast: Tree, span: Span) -> (r: (Span, Variant))
    requires
        span@.full_len() + (Variant::Invalid { error, ast })@.weight() <= usize::MAX,
    ensures
        r.0@ == (Variant::Invalid { error, ast })@.fold_into(span@).0,
        r.1@ == (Variant::Invalid { error, ast })@.fold_into(span@).1,
{
    let (span, ast) = ast.add_to_span(span);
    (span, Variant::Invalid { error, ast })
}

/// Folds the fields of `BodyBlock` into `span`.
fn fold_body_block(statements: Vec<Line>, span: Span) -> (r: (Span, Variant))
    requires
        span@.full_len() + (Variant::BodyBlock { statements })@.weight() <= usize::MAX,
    ensures
        r.0@ == (Variant::BodyBlock { statements })@.fold_into(span@).0,
        r.1@ == (Variant::BodyBlock { statements })@.fold_into(span@).1,
{
    proof {
        lemma_models_line(statements@);
    }
    let (span, statements) = statements.add_to_span(span);
    proof {
        lemma_models_line(statements@);
    }
    (span, Variant::BodyBlock { statements })
}

/// Folds the fields of `ArgumentBlockApplication` into `span`.
fn fold_argument_block_application(
    lhs: Option<Tree>,
    arguments: Vec<Line>,
    span: Span,
) -> (r: (Span, Variant))
    requires
        span@.full_len() + (
            Variant::ArgumentBlockApplication { lhs, arguments }
        )@.weight() <= usize::MAX,
    ensures
        r.0@ == (Variant::ArgumentBlockApplication { lhs, arguments })@.fold_into(span@).0,
        r.1@ == (Variant::ArgumentBlockApplication { lhs, arguments })@.fold_into(span@).1,
{
    proof {
        lhs.model().lemma_weight(span@);
    }
    let (span, lhs) = lhs.add_to_span(span);
    proof {
        lemma_models_line(arguments@);
    }
    let (span, arguments) = arguments.add_to_span(span);
    proof {
        lemma_models_line(arguments@);
    }
    (span, Variant::ArgumentBlockApplication { lhs, arguments })
}

/// Folds the fields of `OperatorBlockApplication` into `span`.
fn fold_operator_block_application(
    lhs: Option<Tree>,
    expressions: Vec<OperatorLine>,
    excess: Vec<Line>,
    span: Span,
) -> (r: (Span, Variant))
    requires
        span@.full_len() + (
            Variant::OperatorBlockApplication { lhs, expressions, excess }
        )@.weight() <= usize::MAX,
    ensures
        r.0@ == (
            Variant::OperatorBlockApplication { lhs, expressions, excess }
        )@.fold_into(span@).0,
        r.1@ == (
            Variant::OperatorBlockApplication { lhs, expressions, excess }
        )@.fold_into(span@).1,
{
    proof {
        lhs.model().lemma_weight(span@);
    }
    let (span, lhs) = lhs.add_to_span(span);
    proof {
        lemma_models_operator_line(expressions@);
        expressions.model().lemma_weight(span@);
    }
    let (span, expressions) = expressions.add_to_span(span);
    proof {
        lemma_models_operator_line(expressions@);
    }
    proof {
        lemma_models_line(excess@);
    }
    let (span, excess) = excess.add_to_span(span);
    proof {
        lemma_models_line(excess@);
    }
    (span, Variant::OperatorBlockApplication { lhs, expressions, excess })
}

/// Folds the fields of `Ident` into `span`.
fn fold_ident(token: Token<token::Ident>, span: Span) -> (r: (Span, Variant))
    requires
        span@.full_len() + (Variant::Ident { token })@.weight() <= usize::MAX,
    ensures
        r.0@ == (Variant::Ident { token })@.fold_into(span@).0,
        r.1@ == (Variant::Ident { token })@.fold_into(span@).1,
{
    let (span, token) = token.add_to_span(span);
    (span, Variant::Ident { token })
}

/// Folds the fields of `Private` into `span`.
fn fold_private(
    keyword: Token<token::Private>,
    body: Option<Tree>,
    span: Span,
) -> (r: (Span, Variant))
    requires
        span@.full_len() + (Variant::Private { keyword, body })@.weight() <= usize::MAX,
    ensures
        r.0@ == (Variant::Private { keyword, body })@.fold_into(span@).0,
        r.1@ == (Variant::Private { keyword, body })@.fold_into(span@).1,
{
    proof {
        keyword.model().lemma_weight(span@);
    }
    let (span, keyword) = keyword.add_to_span(span);
    let (span, body) = body.add_to_span(span);
    (span, Variant::Private { keyword, body })
}

/// Folds the fields of `Number` into `span`.
fn fold_number(
    base: Option<Token<token::NumberBase>>,
    integer: Option<Token<token::Digits>>,
    fractional_digits: Option<FractionalDigits>,
    span: Span,
) -> (r: (Span, Variant))
    requires
        span@.full_len() + (
            Variant::Number { base, integer, fractional_digits }
        )@.weight() <= usize::MAX,
    ensures
        r.0@ == (Variant::Number { base, integer, fractional_digits })@.fold_into(span@).0,
        r.1@ == (Variant::Number { base, integer, fractional_digits })@.fold_into(span@).1,
{
    proof {
        base.model().lemma_weight(span@);
    }
    let (span, base) = base.add_to_span(span);
    proof {
        integer.model().lemma_weight(span@);
    }
    let (span, integer) = integer.add_to_span(span);
    let (span, fractional_digits) = fractional_digits.add_to_span(span);
    (span, Variant::Number { base, integer, fractional_digits })
}

/// Folds the fields of `Wildcard` into `span`.
fn fold_wildcard(
    token: Token<token::Wildcard>,
    de_bruijn_index: Option<u32>,
    span: Span,
) -> (r: (Span, Variant))
    requires
        span@.full_len() + (Variant::Wildcard { token, de_bruijn_index })@.weight() <= usize::MAX,
    ensures
        r.0@ == (Variant::Wildcard { token, de_bruijn_index })@.fold_into(span@).0,
        r.1@ == (Variant::Wildcard { token, de_bruijn_index })@.fold_into(span@).1,
{
    let (span, token) = token.add_to_span(span);
    (span, Variant::Wildcard { token, de_bruijn_index })
}

/// Folds the fields of `SuspendedDefaultArguments` into `span`.
fn fold_suspended_default_arguments(
    token: Token<token::SuspendedDefaultArguments>,
    span: Span,
) -> (r: (Span, Variant))
    requires
        span@.full_len() + (Variant::SuspendedDefaultArguments { token })@.weight() <= usize::MAX,
    ensures
        r.0@ == (Variant::SuspendedDefaultArguments { token })@.fold_into(span@).0,
        r.1@ == (Variant::SuspendedDefaultArguments { token })@.fold_into(span@).1,
{
    let (span, token) = token.add_to_span(span);
    (span, Variant::SuspendedDefaultArguments { token })
}

/// Folds the fields of `TextLiteral` into `span`.
fn fold_text_literal(
    open: Option<Token<token::TextStart>>,
    newline: Option<Token<token::Newline>>,
    elements: Vec<TextElement>,
    close: Option<Token<token::TextEnd>>,
    closed: bool,
    span: Span,
) -> (r: (Span, Variant))
    requires
        span@.full_len() + (
            Variant::TextLiteral { open, newline, elements, close, closed }
        )@.weight() <= usize::MAX,
    ensures
        r.0@ == (
            Variant::TextLiteral { open, newline, elements, close, closed }
        )@.fold_into(span@).0,
        r.1@ == (
            Variant::TextLiteral { open, newline, elements, close, closed }
        )@.fold_into(span@).1,
{
    proof {
        open.model().lemma_weight(span@);
    }
    let (span, open) = open.add_to_span(span);
    proof {
        newline.model().lemma_weight(span@);
    }
    let (span, newline) = newline.add_to_span(span);
    proof {
        lemma_models_text_element(elements@);
        elements.model().lemma_weight(span@);
    }
    let (span, elements) = elements.add_to_span(span);
    proof {
        lemma_models_text_element(elements@);
    }
    let (span, close) = close.add_to_span(span);
    (span, Variant::TextLiteral { open, newline, elements, close, closed })
}

/// Folds the fields of `App` into `span`.
fn fold_app(func: Tree, arg: Tree, span: Span) -> (r: (Span, Variant))
    requires
        span@.full_len() + (Variant::App { func, arg })@.weight() <= usize::MAX,
    ensures
        r.0@ == (Variant::App { func, arg })@.fold_into(span@).0,
        r.1@ == (Variant::App { func, arg })@.fold_into(span@).1,
{
    proof {
        func.model().lemma_weight(span@);
    }
    let (span, func) = func.add_to_span(span);
    let (span, arg) = arg.add_to_span(span);
    (span, Variant::App { func, arg })
}

/// Folds the fields of `NamedApp` into `span`.
fn fold_named_app(
    func: Tree,
    open: Option<Token<token::OpenSymbol>>,
    name: Token<token::Ident>,
    equals: Token<token::Operator>,
    arg: Tree,
    close: Option<Token<token::CloseSymbol>>,
    span: Span,
) -> (r: (Span, Variant))
    requires
        span@.full_len() + (
            Variant::NamedApp { func, open, name, equals, arg, close }
        )@.weight() <= usize::MAX,
    ensures
        r.0@ == (Variant::NamedApp { func, open, name, equals, arg, close })@.fold_into(span@).0,
        r.1@ == (Variant::NamedApp { func, open, name, equals, arg, close })@.fold_into(span@).1,
{
    proof {
        func.model().lemma_weight(span@);
    }
    let (span, func) = func.add_to_span(span);
    proof {
        open.model().lemma_weight(span@);
    }
    let (span, open) = open.add_to_span(span);
    proof {
        name.model().lemma_weight(span@);
    }
    let (span, name) = name.add_to_span(span);
    proof {
        equals.model().lemma_weight(span@);
    }
    let (span, equals) = equals.add_to_span(span);
    proof {
        arg.model().lemma_weight(span@);
    }
    let (span, arg) = arg.add_to_span(span);
    let (span, close) = close.add_to_span(span);
    (span, Variant::NamedApp { func, open, name, equals, arg, close })
}

/// Folds the fields of `OprApp` into `span`.
fn fold_opr_app(
    lhs: Option<Tree>,
    opr: OperatorOrError,
    rhs: Option<Tree>,
    span: Span,
) -> (r: (Span, Variant))
    requires
        span@.full_len() + (Variant::OprApp { lhs, opr, rhs })@.weight() <= usize::MAX,
    ensures
        r.0@ == (Variant::OprApp { lhs, opr, rhs })@.fold_into(span@).0,
        r.1@ == (Variant::OprApp { lhs, opr, rhs })@.fold_into(span@).1,
{
    proof {
        lhs.model().lemma_weight(span@);
    }
    let (span, lhs) = lhs.add_to_span(span);
    proof {
        opr.model().lemma_weight(span@);
    }
    let (span, opr) = opr.add_to_span(span);
    let (span, rhs) = rhs.add_to_span(span);
    (span, Variant::OprApp { lhs, opr, rhs })
}

/// Folds the fields of `UnaryOprApp` into `span`.
fn fold_unary_opr_app(
    opr: Token<token::Operator>,
    rhs: Option<Tree>,
    span: Span,
) -> (r: (Span, Variant))
    requires
        span@.full_len() + (Variant::UnaryOprApp { opr, rhs })@.weight() <= usize::MAX,
    ensures
        r.0@ == (Variant::UnaryOprApp { opr, rhs })@.fold_into(span@).0,
        r.1@ == (Variant::UnaryOprApp { opr, rhs })@.fold_into(span@).1,
{
    proof {
        opr.model().lemma_weight(span@);
    }
    let (span, opr) = opr.add_to_span(span);
    let (span, rhs) = rhs.add_to_span(span);
    (span, Variant::UnaryOprApp { opr, rhs })
}

/// Folds the fields of `AutoscopedIdentifier` into `span`.
fn fold_autoscoped_identifier(
    opr: Token<token::Operator>,
    ident: Token<token::Ident>,
    span: Span,
) -> (r: (Span, Variant))
    requires
        span@.full_len() + (Variant::AutoscopedIdentifier { opr, ident })@.weight() <= usize::MAX,
    ensures
        r.0@ == (Variant::AutoscopedIdentifier { opr, ident })@.fold_into(span@).0,
        r.1@ == (Variant::AutoscopedIdentifier { opr, ident })@.fold_into(span@).1,
{
    proof {
        opr.model().lemma_weight(span@);
    }
    let (span, opr) = opr.add_to_span(span);
    let (span, ident) = ident.add_to_span(span);
    (span, Variant::AutoscopedIdentifier { opr, ident })
}

/// Folds the fields of `OprSectionBoundary` into `span`.
fn fold_opr_section_boundary(arguments: u32, ast: Tree, span: Span) -> (r: (Span, Variant))
    requires
        span@.full_len() + (Variant::OprSectionBoundary { arguments, ast })@.weight() <= usize::MAX,
    ensures
        r.0@ == (Variant::OprSectionBoundary { arguments, ast })@.fold_into(span@).0,
        r.1@ == (Variant::OprSectionBoundary { arguments, ast })@.fold_into(span@).1,
{
    let (span, ast) = ast.add_to_span(span);
    (span, Variant::OprSectionBoundary { arguments, ast })
}

/// Folds the fields of `TemplateFunction` into `span`.
fn fold_template_function(arguments: u32, ast: Tree, span: Span) -> (r: (Span, Variant))
    requires
        span@.full_len() + (Variant::TemplateFunction { arguments, ast })@.weight() <= usize::MAX,
    ensures
        r.0@ == (Variant::TemplateFunction { arguments, ast })@.fold_into(span@).0,
        r.1@ == (Variant::TemplateFunction { arguments, ast })@.fold_into(span@).1,
{
    let (span, ast) = ast.add_to_span(span);
    (span, Variant::TemplateFunction { arguments, ast })
}

/// Folds the fields of `MultiSegmentApp` into `span`.
fn fold_multi_segment_app(segments: Vec<MultiSegmentAppSegment>, span: Span) -> (r: (Span, Variant))
    requires
        span@.full_len() + (Variant::MultiSegmentApp { segments })@.weight() <= usize::MAX,
    ensures
        r.0@ == (Variant::MultiSegmentApp { segments })@.fold_into(span@).0,
        r.1@ == (Variant::MultiSegmentApp { segments })@.fold_into(span@).1,
{
    proof {
        lemma_models_multi_segment_app_segment(segments@);
    }
    let (span, segments) = segments.add_to_span(span);
    proof {
        lemma_models_multi_segment_app_segment(segments@);
    }
    (span, Variant::MultiSegmentApp { segments })
}

/// Folds the fields of `TypeDef` into `span`.
fn fold_type_def(
    keyword: Token<token::Ident>,
    name: Token<token::Ident>,
    params: Vec<ArgumentDefinition>,
    body: Vec<Line>,
    span: Span,
) -> (r: (Span, Variant))
    requires
        span@.full_len() + (
            Variant::TypeDef { keyword, name, params, body }
        )@.weight() <= usize::MAX,
    ensures
        r.0@ == (Variant::TypeDef { keyword, name, params, body })@.fold_into(span@).0,
        r.1@ == (Variant::TypeDef { keyword, name, params, body })@.fold_into(span@).1,
{
    proof {
        keyword.model().lemma_weight(span@);
    }
    let (span, keyword) = keyword.add_to_span(span);
    proof {
        name.model().lemma_weight(span@);
    }
    let (span, name) = name.add_to_span(span);
    proof {
        lemma_models_argument_definition(params@);
        params.model().lemma_weight(span@);
    }
    let (span, params) = params.add_to_span(span);
    proof {
        lemma_models_argument_definition(params@);
    }
    proof {
        lemma_models_line(body@);
    }
    let (span, body) = body.add_to_span(span);
    proof {
        lemma_models_line(body@);
    }
    (span, Variant::TypeDef { keyword, name, params, body })
}

/// Folds the fields of `Assignment` into `span`.
fn fold_assignment(
    pattern: Tree,
    equals: Token<token::Operator>,
    expr: Tree,
    span: Span,
) -> (r: (Span, Variant))
    requires
        span@.full_len() + (Variant::Assignment { pattern, equals, expr })@.weight() <= usize::MAX,
    ensures
        r.0@ == (Variant::Assignment { pattern, equals, expr })@.fold_into(span@).0,
        r.1@ == (Variant::Assignment { pattern, equals, expr })@.fold_into(span@).1,
{
    proof {
        pattern.model().lemma_weight(span@);
    }
    let (span, pattern) = pattern.add_to_span(span);
    proof {
        equals.model().lemma_weight(span@);
    }
    let (span, equals) = equals.add_to_span(span);
    let (span, expr) = expr.add_to_span(span);
    (span, Variant::Assignment { pattern, equals, expr })
}

/// Folds the fields of `Function` into `span`.
fn fold_function(
    name: Tree,
    args: Vec<ArgumentDefinition>,
    returns_: Option<ReturnSpecification>,
    equals: Token<token::Operator>,
    body: Option<Tree>,
    span: Span,
) -> (r: (Span, Variant))
    requires
        span@.full_len() + (
            Variant::Function { name, args, returns_, equals, body }
        )@.weight() <= usize::MAX,
    ensures
        r.0@ == (Variant::Function { name, args, returns_, equals, body })@.fold_into(span@).0,
        r.1@ == (Variant::Function { name, args, returns_, equals, body })@.fold_into(span@).1,
{
    proof {
        name.model().lemma_weight(span@);
    }
    let (span, name) = name.add_to_span(span);
    proof {
        lemma_models_argument_definition(args@);
        args.model().lemma_weight(span@);
    }
    let (span, args) = args.add_to_span(span);
    proof {
        lemma_models_argument_definition(args@);
    }
    proof {
        returns_.model().lemma_weight(span@);
    }
    let (span, returns_) = returns_.add_to_span(span);
    proof {
        equals.model().lemma_weight(span@);
    }
    let (span, equals) = equals.add_to_span(span);
    let (span, body) = body.add_to_span(span);
    (span, Variant::Function { name, args, returns_, equals, body })
}

/// Folds the fields of `ForeignFunction` into `span`.
fn fold_foreign_function(
    foreign: Token<token::Ident>,
    language: Token<token::Ident>,
    name: Token<token::Ident>,
    args: Vec<ArgumentDefinition>,
    equals: Token<token::Operator>,
    body: Tree,
    span: Span,
) -> (r: (Span, Variant))
    requires
        span@.full_len() + (
            Variant::ForeignFunction { foreign, language, name, args, equals, body }
        )@.weight() <= usize::MAX,
    ensures
        r.0@ == (
            Variant::ForeignFunction { foreign, language, name, args, equals, body }
        )@.fold_into(span@).0,
        r.1@ == (
            Variant::ForeignFunction { foreign, language, name, args, equals, body }
        )@.fold_into(span@).1,
{
    proof {
        foreign.model().lemma_weight(span@);
    }
    let (span, foreign) = foreign.add_to_span(span);
    proof {
        language.model().lemma_weight(span@);
    }
    let (span, language) = language.add_to_span(span);
    proof {
        name.model().lemma_weight(span@);
    }
    let (span, name) = name.add_to_span(span);
    proof {
        lemma_models_argument_definition(args@);
        args.model().lemma_weight(span@);
    }
    let (span, args) = args.add_to_span(span);
    proof {
        lemma_models_argument_definition(args@);
    }
    proof {
        equals.model().lemma_weight(span@);
    }
    let (span, equals) = equals.add_to_span(span);
    let (span, body) = body.add_to_span(span);
    (span, Variant::ForeignFunction { foreign, language, name, args, equals, body })
}

/// Folds the fields of `Import` into `span`.
fn fold_import(
    polyglot: Option<MultiSegmentAppSegment>,
    from: Option<MultiSegmentAppSegment>,
    import: MultiSegmentAppSegment,
    all: Option<Token<token::Ident>>,
    as_: Option<MultiSegmentAppSegment>,
    hiding: Option<MultiSegmentAppSegment>,
    span: Span,
) -> (r: (Span, Variant))
    requires
        span@.full_len() + (
            Variant::Import { polyglot, from, import, all, as_, hiding }
        )@.weight() <= usize::MAX,
    ensures
        r.0@ == (Variant::Import { polyglot, from, import, all, as_, hiding })@.fold_into(span@).0,
        r.1@ == (Variant::Import { polyglot, from, import, all, as_, hiding })@.fold_into(span@).1,
{
    proof {
        polyglot.model().lemma_weight(span@);
    }
    let (span, polyglot) = polyglot.add_to_span(span);
    proof {
        from.model().lemma_weight(span@);
    }
    let (span, from) = from.add_to_span(span);
    proof {
        import.model().lemma_weight(span@);
    }
    let (span, import) = import.add_to_span(span);
    proof {
        all.model().lemma_weight(span@);
    }
    let (span, all) = all.add_to_span(span);
    proof {
        as_.model().lemma_weight(span@);
    }
    let (span, as_) = as_.add_to_span(span);
    let (span, hiding) = hiding.add_to_span(span);
    (span, Variant::Import { polyglot, from, import, all, as_, hiding })
}

/// Folds the fields of `Export` into `span`.
fn fold_export(
    from: Option<MultiSegmentAppSegment>,
    export: MultiSegmentAppSegment,
    all: Option<Token<token::Ident>>,
    as_: Option<MultiSegmentAppSegment>,
    hiding: Option<MultiSegmentAppSegment>,
    span: Span,
) -> (r: (Span, Variant))
    requires
        span@.full_len() + (
            Variant::Export { from, export, all, as_, hiding }
        )@.weight() <= usize::MAX,
    ensures
        r.0@ == (Variant::Export { from, export, all, as_, hiding })@.fold_into(span@).0,
        r.1@ == (Variant::Export { from, export, all, as_, hiding })@.fold_into(span@).1,
{
    proof {
        from.model().lemma_weight(span@);
    }
    let (span, from) = from.add_to_span(span);
    proof {
        export.model().lemma_weight(span@);
    }
    let (span, export) = export.add_to_span(span);
    proof {
        all.model().lemma_weight(span@);
    }
    let (span, all) = all.add_to_span(span);
    proof {
        as_.model().lemma_weight(span@);
    }
    let (span, as_) = as_.add_to_span(span);
    let (span, hiding) = hiding.add_to_span(span);
    (span, Variant::Export { from, export, all, as_, hiding })
}

/// Folds the fields of `Group` into `span`.
fn fold_group(
    open: Option<Token<token::OpenSymbol>>,
    body: Option<Tree>,
    close: Option<Token<token::CloseSymbol>>,
    span: Span,
) -> (r: (Span, Variant))
    requires
        span@.full_len() + (Variant::Group { open, body, close })@.weight() <= usize::MAX,
    ensures
        r.0@ == (Variant::Group { open, body, close })@.fold_into(span@).0,
        r.1@ == (Variant::Group { open, body, close })@.fold_into(span@).1,
{
    proof {
        open.model().lemma_weight(span@);
    }
    let (span, open) = open.add_to_span(span);
    proof {
        body.model().lemma_weight(span@);
    }
    let (span, body) = body.add_to_span(span);
    let (span, close) = close.add_to_span(span);
    (span, Variant::Group { open, body, close })
}

/// Folds the fields of `TypeSignature` into `span`.
fn fold_type_signature(
    variable: Tree,
    operator: Token<token::Operator>,
    type_: Tree,
    span: Span,
) -> (r: (Span, Variant))
    requires
        span@.full_len() + (
            Variant::TypeSignature { variable, operator, type_ }
        )@.weight() <= usize::MAX,
    ensures
        r.0@ == (Variant::TypeSignature { variable, operator, type_ })@.fold_into(span@).0,
        r.1@ == (Variant::TypeSignature { variable, operator, type_ })@.fold_into(span@).1,
{
    proof {
        variable.model().lemma_weight(span@);
    }
    let (span, variable) = variable.add_to_span(span);
    proof {
        operator.model().lemma_weight(span@);
    }
    let (span, operator) = operator.add_to_span(span);
    let (span, type_) = type_.add_to_span(span);
    (span, Variant::TypeSignature { variable, operator, type_ })
}

/// Folds the fields of `TypeAnnotated` into `span`.
fn fold_type_annotated(
    expression: Tree,
    operator: Token<token::Operator>,
    type_: Tree,
    span: Span,
) -> (r: (Span, Variant))
    requires
        span@.full_len() + (
            Variant::TypeAnnotated { expression, operator, type_ }
        )@.weight() <= usize::MAX,
    ensures
        r.0@ == (Variant::TypeAnnotated { expression, operator, type_ })@.fold_into(span@).0,
        r.1@ == (Variant::TypeAnnotated { expression, operator, type_ })@.fold_into(span@).1,
{
    proof {
        expression.model().lemma_weight(span@);
    }
    let (span, expression) = expression.add_to_span(span);
    proof {
        operator.model().lemma_weight(span@);
    }
    let (span, operator) = operator.add_to_span(span);
    let (span, type_) = type_.add_to_span(span);
    (span, Variant::TypeAnnotated { expression, operator, type_ })
}

/// Folds the fields of `CaseOf` into `span`.
fn fold_case_of(
    case: Token<token::Ident>,
    expression: Option<Tree>,
    of: Token<token::Ident>,
    cases: Vec<CaseLine>,
    span: Span,
) -> (r: (Span, Variant))
    requires
        span@.full_len() + (
            Variant::CaseOf { case, expression, of, cases }
        )@.weight() <= usize::MAX,
    ensures
        r.0@ == (Variant::CaseOf { case, expression, of, cases })@.fold_into(span@).0,
        r.1@ == (Variant::CaseOf { case, expression, of, cases })@.fold_into(span@).1,
{
    proof {
        case.model().lemma_weight(span@);
    }
    let (span, case) = case.add_to_span(span);
    proof {
        expression.model().lemma_weight(span@);
    }
    let (span, expression) = expression.add_to_span(span);
    proof {
        of.model().lemma_weight(span@);
    }
    let (span, of) = of.add_to_span(span);
    proof {
        lemma_models_case_line(cases@);
    }
    let (span, cases) = cases.add_to_span(span);
    proof {
        lemma_models_case_line(cases@);
    }
    (span, Variant::CaseOf { case, expression, of, cases })
}

/// Folds the fields of `Lambda` into `span`.
fn fold_lambda(
    operator: Token<token::Operator>,
    arrow: Option<Tree>,
    span: Span,
) -> (r: (Span, Variant))
    requires
        span@.full_len() + (Variant::Lambda { operator, arrow })@.weight() <= usize::MAX,
    ensures
        r.0@ == (Variant::Lambda { operator, arrow })@.fold_into(span@).0,
        r.1@ == (Variant::Lambda { operator, arrow })@.fold_into(span@).1,
{
    proof {
        operator.model().lemma_weight(span@);
    }
    let (span, operator) = operator.add_to_span(span);
    let (span, arrow) = arrow.add_to_span(span);
    (span, Variant::Lambda { operator, arrow })
}

/// Folds the fields of `Array` into `span`.
fn fold_array(
    left: Token<token::OpenSymbol>,
    first: Option<Tree>,
    rest: Vec<OperatorDelimitedTree>,
    right: Token<token::CloseSymbol>,
    span: Span,
) -> (r: (Span, Variant))
    requires
        span@.full_len() + (Variant::Array { left, first, rest, right })@.weight() <= usize::MAX,
    ensures
        r.0@ == (Variant::Array { left, first, rest, right })@.fold_into(span@).0,
        r.1@ == (Variant::Array { left, first, rest, right })@.fold_into(span@).1,
{
    proof {
        left.model().lemma_weight(span@);
    }
    let (span, left) = left.add_to_span(span);
    proof {
        first.model().lemma_weight(span@);
    }
    let (span, first) = first.add_to_span(span);
    proof {
        lemma_models_operator_delimited_tree(rest@);
        rest.model().lemma_weight(span@);
    }
    let (span, rest) = rest.add_to_span(span);
    proof {
        lemma_models_operator_delimited_tree(rest@);
    }
    let (span, right) = right.add_to_span(span);
    (span, Variant::Array { left, first, rest, right })
}

/// Folds the fields of `Tuple` into `span`.
fn fold_tuple(
    left: Token<token::OpenSymbol>,
    first: Option<Tree>,
    rest: Vec<OperatorDelimitedTree>,
    right: Token<token::CloseSymbol>,
    span: Span,
) -> (r: (Span, Variant))
    requires
        span@.full_len() + (Variant::Tuple { left, first, rest, right })@.weight() <= usize::MAX,
    ensures
        r.0@ == (Variant::Tuple { left, first, rest, right })@.fold_into(span@).0,
        r.1@ == (Variant::Tuple { left, first, rest, right })@.fold_into(span@).1,
{
    proof {
        left.model().lemma_weight(span@);
    }
    let (span, left) = left.add_to_span(span);
    proof {
        first.model().lemma_weight(span@);
    }
    let (span, first) = first.add_to_span(span);
    proof {
        lemma_models_operator_delimited_tree(rest@);
        rest.model().lemma_weight(span@);
    }
    let (span, rest) = rest.add_to_span(span);
    proof {
        lemma_models_operator_delimited_tree(rest@);
    }
    let (span, right) = right.add_to_span(span);
    (span, Variant::Tuple { left, first, rest, right })
}

/// Folds the fields of `Annotated` into `span`.
fn fold_annotated(
    token: Token<token::Operator>,
    annotation: Token<token::Ident>,
    argument: Option<Tree>,
    newlines: Vec<Token<token::Newline>>,
    expression: Option<Tree>,
    span: Span,
) -> (r: (Span, Variant))
    requires
        span@.full_len() + (
            Variant::Annotated { token, annotation, argument, newlines, expression }
        )@.weight() <= usize::MAX,
    ensures
        r.0@ == (
            Variant::Annotated { token, annotation, argument, newlines, expression }
        )@.fold_into(span@).0,
        r.1@ == (
            Variant::Annotated { token, annotation, argument, newlines, expression }
        )@.fold_into(span@).1,
{
    proof {
        token.model().lemma_weight(span@);
    }
    let (span, token) = token.add_to_span(span);
    proof {
        annotation.model().lemma_weight(span@);
    }
    let (span, annotation) = annotation.add_to_span(span);
    proof {
        argument.model().lemma_weight(span@);
    }
    let (span, argument) = argument.add_to_span(span);
    proof {
        lemma_models_tokens(newlines@);
        newlines.model().lemma_weight(span@);
    }
    let (span, newlines) = newlines.add_to_span(span);
    proof {
        lemma_models_tokens(newlines@);
    }
    let (span, expression) = expression.add_to_span(span);
    (span, Variant::Annotated { token, annotation, argument, newlines, expression })
}

/// Folds the fields of `AnnotatedBuiltin` into `span`.
fn fold_annotated_builtin(
    token: Token<token::Operator>,
    annotation: Token<token::Ident>,
    newlines: Vec<Token<token::Newline>>,
    expression: Option<Tree>,
    span: Span,
) -> (r: (Span, Variant))
    requires
        span@.full_len() + (
            Variant::AnnotatedBuiltin { token, annotation, newlines, expression }
        )@.weight() <= usize::MAX,
    ensures
        r.0@ == (
            Variant::AnnotatedBuiltin { token, annotation, newlines, expression }
        )@.fold_into(span@).0,
        r.1@ == (
            Variant::AnnotatedBuiltin { token, annotation, newlines, expression }
        )@.fold_into(span@).1,
{
    proof {
        token.model().lemma_weight(span@);
    }
    let (span, token) = token.add_to_span(span);
    proof {
        annotation.model().lemma_weight(span@);
    }
    let (span, annotation) = annotation.add_to_span(span);
    proof {
        lemma_models_tokens(newlines@);
        newlines.model().lemma_weight(span@);
    }
    let (span, newlines) = newlines.add_to_span(span);
    proof {
        lemma_models_tokens(newlines@);
    }
    let (span, expression) = expression.add_to_span(span);
    (span, Variant::AnnotatedBuiltin { token, annotation, newlines, expression })
}

/// Folds the fields of `Documented` into `span`.
fn fold_documented(
    documentation: DocComment,
    expression: Option<Tree>,
    span: Span,
) -> (r: (Span, Variant))
    requires
        span@.full_len() + (
            Variant::Documented { documentation, expression }
        )@.weight() <= usize::MAX,
    ensures
        r.0@ == (Variant::Documented { documentation, expression })@.fold_into(span@).0,
        r.1@ == (Variant::Documented { documentation, expression })@.fold_into(span@).1,
{
    proof {
        documentation.model().lemma_weight(span@);
    }
    let (span, documentation) = documentation.add_to_span(span);
    let (span, expression) = expression.add_to_span(span);
    (span, Variant::Documented { documentation, expression })
}

/// Folds the fields of `ConstructorDefinition` into `span`.
fn fold_constructor_definition(
    constructor: Token<token::Ident>,
    arguments: Vec<ArgumentDefinition>,
    block: Vec<ArgumentDefinitionLine>,
    span: Span,
) -> (r: (Span, Variant))
    requires
        span@.full_len() + (
            Variant::ConstructorDefinition { constructor, arguments, block }
        )@.weight() <= usize::MAX,
    ensures
        r.0@ == (
            Variant::ConstructorDefinition { constructor, arguments, block }
        )@.fold_into(span@).0,
        r.1@ == (
            Variant::ConstructorDefinition { constructor, arguments, block }
        )@.fold_into(span@).1,
{
    proof {
        constructor.model().lemma_weight(span@);
    }
    let (span, constructor) = constructor.add_to_span(span);
    proof {
        lemma_models_argument_definition(arguments@);
        arguments.model().lemma_weight(span@);
    }
    let (span, arguments) = arguments.add_to_span(span);
    proof {
        lemma_models_argument_definition(arguments@);
    }
    proof {
        lemma_models_argument_definition_line(block@);
    }
    let (span, block) = block.add_to_span(span);
    proof {
        lemma_models_argument_definition_line(block@);
    }
    (span, Variant::ConstructorDefinition { constructor, arguments, block })
}

impl SpanItem for Variant {
    type M = VariantView;

    open spec fn model(&self) -> VariantView {
        self@
    }

    fn add_to_span(self, span: Span) -> (r: (Span, Self)) {
        match self {
            Variant::Invalid { error, ast } => fold_invalid(error, ast, span),
            Variant::BodyBlock { statements } => fold_body_block(statements, span),
            Variant::ArgumentBlockApplication {
                lhs,
                arguments,
            } => fold_argument_block_application(lhs, arguments, span),
            Variant::OperatorBlockApplication {
                lhs,
                expressions,
                excess,
            } => fold_operator_block_application(lhs, expressions, excess, span),
            Variant::Ident { token } => fold_ident(token, span),
            Variant::Private { keyword, body } => fold_private(keyword, body, span),
            Variant::Number {
                base,
                integer,
                fractional_digits,
            } => fold_number(base, integer, fractional_digits, span),
            Variant::Wildcard {
                token,
                de_bruijn_index,
            } => fold_wildcard(token, de_bruijn_index, span),
            Variant::SuspendedDefaultArguments {
                token,
            } => fold_suspended_default_arguments(token, span),
            Variant::TextLiteral {
                open,
                newline,
                elements,
                close,
                closed,
            } => fold_text_literal(open, newline, elements, close, closed, span),
            Variant::App { func, arg } => fold_app(func, arg, span),
            Variant::NamedApp {
                func,
                open,
                name,
                equals,
                arg,
                close,
            } => fold_named_app(func, open, name, equals, arg, close, span),
            Variant::OprApp { lhs, opr, rhs } => fold_opr_app(lhs, opr, rhs, span),
            Variant::UnaryOprApp { opr, rhs } => fold_unary_opr_app(opr, rhs, span),
            Variant::AutoscopedIdentifier {
                opr,
                ident,
            } => fold_autoscoped_identifier(opr, ident, span),
            Variant::OprSectionBoundary {
                arguments,
                ast,
            } => fold_opr_section_boundary(arguments, ast, span),
            Variant::TemplateFunction {
                arguments,
                ast,
            } => fold_template_function(arguments, ast, span),
            Variant::MultiSegmentApp { segments } => fold_multi_segment_app(segments, span),
            Variant::TypeDef {
                keyword,
                name,
                params,
                body,
            } => fold_type_def(keyword, name, params, body, span),
            Variant::Assignment {
                pattern,
                equals,
                expr,
            } => fold_assignment(pattern, equals, expr, span),
            Variant::Function {
                name,
                args,
                returns_,
                equals,
                body,
            } => fold_function(name, args, returns_, equals, body, span),
            Variant::ForeignFunction {
                foreign,
                language,
                name,
                args,
                equals,
                body,
            } => fold_foreign_function(foreign, language, name, args, equals, body, span),
            Variant::Import {
                polyglot,
                from,
                import,
                all,
                as_,
                hiding,
            } => fold_import(polyglot, from, import, all, as_, hiding, span),
            Variant::Export {
                from,
                export,
                all,
                as_,
                hiding,
            } => fold_export(from, export, all, as_, hiding, span),
            Variant::Group { open, body, close } => fold_group(open, body, close, span),
            Variant::TypeSignature {
                variable,
                operator,
                type_,
            } => fold_type_signature(variable, operator, type_, span),
            Variant::TypeAnnotated {
                expression,
                operator,
                type_,
            } => fold_type_annotated(expression, operator, type_, span),
            Variant::CaseOf {
                case,
                expression,
                of,
                cases,
            } => fold_case_of(case, expression, of, cases, span),
            Variant::Lambda { operator, arrow } => fold_lambda(operator, arrow, span),
            Variant::Array {
                left,
                first,
                rest,
                right,
            } => fold_array(left, first, rest, right, span),
            Variant::Tuple {
                left,
                first,
                rest,
                right,
            } => fold_tuple(left, first, rest, right, span),
            Variant::Annotated {
                token,
                annotation,
                argument,
                newlines,
                expression,
            } => fold_annotated(token, annotation, argument, newlines, expression, span),
            Variant::AnnotatedBuiltin {
                token,
                annotation,
                newlines,
                expression,
            } => fold_annotated_builtin(token, annotation, newlines, expression, span),
            Variant::Documented {
                documentation,
                expression,
            } => fold_documented(documentation, expression, span),
            Variant::ConstructorDefinition {
                constructor,
                arguments,
                block,
            } => fold_constructor_definition(constructor, arguments, block, span),
        }
    }

    fn measure(&self) -> (n: usize) {
        match self {
            Variant::Invalid { error: _, ast } => {
                let mut n: usize = 0;
                let one: usize = ast.measure();
                n = n + one;
                n
            },
            Variant::BodyBlock { statements } => {
                let mut n: usize = 0;
                proof {
                    lemma_models_line(statements@);
                }
                let one: usize = statements.measure();
                n = n + one;
                n
            },
            Variant::ArgumentBlockApplication { lhs, arguments } => {
                let mut n: usize = 0;
                let one: usize = lhs.measure();
                n = n + one;
                proof {
                    lemma_models_line(arguments@);
                }
                let one: usize = arguments.measure();
                n = n + one;
                n
            },
            Variant::OperatorBlockApplication { lhs, expressions, excess } => {
                let mut n: usize = 0;
                let one: usize = lhs.measure();
                n = n + one;
                proof {
                    lemma_models_operator_line(expressions@);
                }
                let one: usize = expressions.measure();
                n = n + one;
                proof {
                    lemma_models_line(excess@);
                }
                let one: usize = excess.measure();
                n = n + one;
                n
            },
            Variant::Ident { token } => {
                let mut n: usize = 0;
                let one: usize = token.measure();
                n = n + one;
                n
            },
            Variant::Private { keyword, body } => {
                let mut n: usize = 0;
                let one: usize = keyword.measure();
                n = n + one;
                let one: usize = body.measure();
                n = n + one;
                n
            },
            Variant::Number { base, integer, fractional_digits } => {
                let mut n: usize = 0;
                let one: usize = base.measure();
                n = n + one;
                let one: usize = integer.measure();
                n = n + one;
                let one: usize = fractional_digits.measure();
                n = n + one;
                n
            },
            Variant::Wildcard { token, de_bruijn_index: _ } => {
                let mut n: usize = 0;
                let one: usize = token.measure();
                n = n + one;
                n
            },
            Variant::SuspendedDefaultArguments { token } => {
                let mut n: usize = 0;
                let one: usize = token.measure();
                n = n + one;
                n
            },
            Variant::TextLiteral { open, newline, elements, close, closed: _ } => {
                let mut n: usize = 0;
                let one: usize = open.measure();
                n = n + one;
                let one: usize = newline.measure();
                n = n + one;
                proof {
                    lemma_models_text_element(elements@);
                }
                let one: usize = elements.measure();
                n = n + one;
                let one: usize = close.measure();
                n = n + one;
                n
            },
            Variant::App { func, arg } => {
                let mut n: usize = 0;
                let one: usize = func.measure();
                n = n + one;
                let one: usize = arg.measure();
                n = n + one;
                n
            },
            Variant::NamedApp { func, open, name, equals, arg, close } => {
                let mut n: usize = 0;
                let one: usize = func.measure();
                n = n + one;
                let one: usize = open.measure();
                n = n + one;
                let one: usize = name.measure();
                n = n + one;
                let one: usize = equals.measure();
                n = n + one;
                let one: usize = arg.measure();
                n = n + one;
                let one: usize = close.measure();
                n = n + one;
                n
            },
            Variant::OprApp { lhs, opr, rhs } => {
                let mut n: usize = 0;
                let one: usize = lhs.measure();
                n = n + one;
                let one: usize = opr.measure();
                n = n + one;
                let one: usize = rhs.measure();
                n = n + one;
                n
            },
            Variant::UnaryOprApp { opr, rhs } => {
                let mut n: usize = 0;
                let one: usize = opr.measure();
                n = n + one;
                let one: usize = rhs.measure();
                n = n + one;
                n
            },
            Variant::AutoscopedIdentifier { opr, ident } => {
                let mut n: usize = 0;
                let one: usize = opr.measure();
                n = n + one;
                let one: usize = ident.measure();
                n = n + one;
                n
            },
            Variant::OprSectionBoundary { arguments: _, ast } => {
                let mut n: usize = 0;
                let one: usize = ast.measure();
                n = n + one;
                n
            },
            Variant::TemplateFunction { arguments: _, ast } => {
                let mut n: usize = 0;
                let one: usize = ast.measure();
                n = n + one;
                n
            },
            Variant::MultiSegmentApp { segments } => {
                let mut n: usize = 0;
                proof {
                    lemma_models_multi_segment_app_segment(segments@);
                }
                let one: usize = segments.measure();
                n = n + one;
                n
            },
            Variant::TypeDef { keyword, name, params, body } => {
                let mut n: usize = 0;
                let one: usize = keyword.measure();
                n = n + one;
                let one: usize = name.measure();
                n = n + one;
                proof {
                    lemma_models_argument_definition(params@);
                }
                let one: usize = params.measure();
                n = n + one;
                proof {
                    lemma_models_line(body@);
                }
                let one: usize = body.measure();
                n = n + one;
                n
            },
            Variant::Assignment { pattern, equals, expr } => {
                let mut n: usize = 0;
                let one: usize = pattern.measure();
                n = n + one;
                let one: usize = equals.measure();
                n = n + one;
                let one: usize = expr.measure();
                n = n + one;
                n
            },
            Variant::Function { name, args, returns_, equals, body } => {
                let mut n: usize = 0;
                let one: usize = name.measure();
                n = n + one;
                proof {
                    lemma_models_argument_definition(args@);
                }
                let one: usize = args.measure();
                n = n + one;
                let one: usize = returns_.measure();
                n = n + one;
                let one: usize = equals.measure();
                n = n + one;
                let one: usize = body.measure();
                n = n + one;
                n
            },
            Variant::ForeignFunction { foreign, language, name, args, equals, body } => {
                let mut n: usize = 0;
                let one: usize = foreign.measure();
                n = n + one;
                let one: usize = language.measure();
                n = n + one;
                let one: usize = name.measure();
                n = n + one;
                proof {
                    lemma_models_argument_definition(args@);
                }
                let one: usize = args.measure();
                n = n + one;
                let one: usize = equals.measure();
                n = n + one;
                let one: usize = body.measure();
                n = n + one;
                n
            },
            Variant::Import { polyglot, from, import, all, as_, hiding } => {
                let mut n: usize = 0;
                let one: usize = polyglot.measure();
                n = n + one;
                let one: usize = from.measure();
                n = n + one;
                let one: usize = import.measure();
                n = n + one;
                let one: usize = all.measure();
                n = n + one;
                let one: usize = as_.measure();
                n = n + one;
                let one: usize = hiding.measure();
                n = n + one;
                n
            },
            Variant::Export { from, export, all, as_, hiding } => {
                let mut n: usize = 0;
                let one: usize = from.measure();
                n = n + one;
                let one: usize = export.measure();
                n = n + one;
                let one: usize = all.measure();
                n = n + one;
                let one: usize = as_.measure();
                n = n + one;
                let one: usize = hiding.measure();
                n = n + one;
                n
            },
            Variant::Group { open, body, close } => {
                let mut n: usize = 0;
                let one: usize = open.measure();
                n = n + one;
                let one: usize = body.measure();
                n = n + one;
                let one: usize = close.measure();
                n = n + one;
                n
            },
            Variant::TypeSignature { variable, operator, type_ } => {
                let mut n: usize = 0;
                let one: usize = variable.measure();
                n = n + one;
                let one: usize = operator.measure();
                n = n + one;
                let one: usize = type_.measure();
                n = n + one;
                n
            },
            Variant::TypeAnnotated { expression, operator, type_ } => {
                let mut n: usize = 0;
                let one: usize = expression.measure();
                n = n + one;
                let one: usize = operator.measure();
                n = n + one;
                let one: usize = type_.measure();
                n = n + one;
                n
            },
            Variant::CaseOf { case, expression, of, cases } => {
                let mut n: usize = 0;
                let one: usize = case.measure();
                n = n + one;
                let one: usize = expression.measure();
                n = n + one;
                let one: usize = of.measure();
                n = n + one;
                proof {
                    lemma_models_case_line(cases@);
                }
                let one: usize = cases.measure();
                n = n + one;
                n
            },
            Variant::Lambda { operator, arrow } => {
                let mut n: usize = 0;
                let one: usize = operator.measure();
                n = n + one;
                let one: usize = arrow.measure();
                n = n + one;
                n
            },
            Variant::Array { left, first, rest, right } => {
                let mut n: usize = 0;
                let one: usize = left.measure();
                n = n + one;
                let one: usize = first.measure();
                n = n + one;
                proof {
                    lemma_models_operator_delimited_tree(rest@);
                }
                let one: usize = rest.measure();
                n = n + one;
                let one: usize = right.measure();
                n = n + one;
                n
            },
            Variant::Tuple { left, first, rest, right } => {
                let mut n: usize = 0;
                let one: usize = left.measure();
                n = n + one;
                let one: usize = first.measure();
                n = n + one;
                proof {
                    lemma_models_operator_delimited_tree(rest@);
                }
                let one: usize = rest.measure();
                n = n + one;
                let one: usize = right.measure();
                n = n + one;
                n
            },
            Variant::Annotated { token, annotation, argument, newlines, expression } => {
                let mut n: usize = 0;
                let one: usize = token.measure();
                n = n + one;
                let one: usize = annotation.measure();
                n = n + one;
                let one: usize = argument.measure();
                n = n + one;
                proof {
                    lemma_models_tokens(newlines@);
                }
                let one: usize = newlines.measure();
                n = n + one;
                let one: usize = expression.measure();
                n = n + one;
                n
            },
            Variant::AnnotatedBuiltin { token, annotation, newlines, expression } => {
                let mut n: usize = 0;
                let one: usize = token.measure();
                n = n + one;
                let one: usize = annotation.measure();
                n = n + one;
                proof {
                    lemma_models_tokens(newlines@);
                }
                let one: usize = newlines.measure();
                n = n + one;
                let one: usize = expression.measure();
                n = n + one;
                n
            },
            Variant::Documented { documentation, expression } => {
                let mut n: usize = 0;
                let one: usize = documentation.measure();
                n = n + one;
                let one: usize = expression.measure();
                n = n + one;
                n
            },
            Variant::ConstructorDefinition { constructor, arguments, block } => {
                let mut n: usize = 0;
                let one: usize = constructor.measure();
                n = n + one;
                proof {
                    lemma_models_argument_definition(arguments@);
                }
                let one: usize = arguments.measure();
                n = n + one;
                proof {
                    lemma_models_argument_definition_line(block@);
                }
                let one: usize = block.measure();
                n = n + one;
                n
            },
        }
    }
}

impl Tree {
    /// The node that holds `variant`, with the span that its fields give it.
    pub fn build(variant: Variant) -> (r: Tree)
        requires
            variant@.weight() <= usize::MAX,
        ensures
            r@ == TreeView::build(variant@),
    {
        let (span, variant) = variant.add_to_span(Span::empty_without_offset());
        Tree { span, variant: Box::new(variant) }
    }

    /// The node that holds `variant` as it is, behind the offset `left_offset`:
    /// its code is as long as what `variant` holds.
    pub fn around(left_offset: Offset, variant: Variant) -> (r: Tree)
        requires
            variant@.weight() <= usize::MAX,
        ensures
            r@ == TreeView::around(left_offset@, variant@),
    {
        let code_length: usize = variant.measure();
        Tree { span: Span { left_offset, code_length }, variant: Box::new(variant) }
    }

    /// A fragment that is in error, with the reason.
    pub fn invalid(error: Error, ast: Tree) -> (r: Tree)
        requires
            (VariantView::Invalid { error: error@, ast: ast@ }).weight() <= usize::MAX,
        ensures
            r@ == TreeView::build(VariantView::Invalid { error: error@, ast: ast@ }),
    {
        Tree::build(Variant::Invalid { error, ast })
    }

    /// A sequence of lines, read as statements.
    pub fn body_block(statements: Vec<Line>) -> (r: Tree)
        requires
            (
                VariantView::BodyBlock { statements: Line::views(statements@) }
            ).weight() <= usize::MAX,
        ensures
            r@ == TreeView::build(VariantView::BodyBlock { statements: Line::views(statements@) }),
    {
        Tree::build(Variant::BodyBlock { statements })
    }

    /// A sequence of lines that are the arguments of a call.
    pub fn argument_block_application(lhs: Option<Tree>, arguments: Vec<Line>) -> (r: Tree)
        requires
            (
                VariantView::ArgumentBlockApplication {
                    lhs: match lhs { Some(t) => Some(t@), None => None, },
                    arguments: Line::views(arguments@),
                }
            ).weight() <= usize::MAX,
        ensures
            r@ == TreeView::build(
                VariantView::ArgumentBlockApplication {
                    lhs: match lhs { Some(t) => Some(t@), None => None, },
                    arguments: Line::views(arguments@),
                }
            ),
    {
        Tree::build(Variant::ArgumentBlockApplication { lhs, arguments })
    }

    /// A sequence of lines that each begin with an operator.
    pub fn operator_block_application(
        lhs: Option<Tree>,
        expressions: Vec<OperatorLine>,
        excess: Vec<Line>,
    ) -> (r: Tree)
        requires
            (
                VariantView::OperatorBlockApplication {
                    lhs: match lhs { Some(t) => Some(t@), None => None, },
                    expressions: OperatorLine::views(expressions@),
                    excess: Line::views(excess@),
                }
            ).weight() <= usize::MAX,
        ensures
            r@ == TreeView::build(
                VariantView::OperatorBlockApplication {
                    lhs: match lhs { Some(t) => Some(t@), None => None, },
                    expressions: OperatorLine::views(expressions@),
                    excess: Line::views(excess@),
                }
            ),
    {
        Tree::build(Variant::OperatorBlockApplication { lhs, expressions, excess })
    }

    /// An identifier, like `foo`.
    pub fn ident(token: Token<token::Ident>) -> (r: Tree)
        requires
            (VariantView::Ident { token: token@ }).weight() <= usize::MAX,
        ensures
            r@ == TreeView::build(VariantView::Ident { token: token@ }),
    {
        Tree::build(Variant::Ident { token })
    }

    /// The keyword `private`, and what it marks.
    pub fn private(keyword: Token<token::Private>, body: Option<Tree>) -> (r: Tree)
        requires
            (
                VariantView::Private {
                    keyword: keyword@,
                    body: match body { Some(t) => Some(t@), None => None, },
                }
            ).weight() <= usize::MAX,
        ensures
            r@ == TreeView::build(
                VariantView::Private {
                    keyword: keyword@,
                    body: match body { Some(t) => Some(t@), None => None, },
                }
            ),
    {
        Tree::build(Variant::Private { keyword, body })
    }

    /// A number literal, like `10` or `16_FF` or `1.5`.
    pub fn number(
        base: Option<Token<token::NumberBase>>,
        integer: Option<Token<token::Digits>>,
        fractional_digits: Option<FractionalDigits>,
    ) -> (r: Tree)
        requires
            (
                VariantView::Number {
                    base: opt_token_view(base),
                    integer: opt_token_view(integer),
                    fractional_digits: match fractional_digits {
                        Some(x) => Some(x@),
                        None => None,
                    },
                }
            ).weight() <= usize::MAX,
        ensures
            r@ == TreeView::build(
                VariantView::Number {
                    base: opt_token_view(base),
                    integer: opt_token_view(integer),
                    fractional_digits: match fractional_digits {
                        Some(x) => Some(x@),
                        None => None,
                    },
                }
            ),
    {
        Tree::build(Variant::Number { base, integer, fractional_digits })
    }

    /// The wildcard `_`.
    pub fn wildcard(token: Token<token::Wildcard>, de_bruijn_index: Option<u32>) -> (r: Tree)
        requires
            (
                VariantView::Wildcard { token: token@, de_bruijn_index: de_bruijn_index }
            ).weight() <= usize::MAX,
        ensures
            r@ == TreeView::build(
                VariantView::Wildcard { token: token@, de_bruijn_index: de_bruijn_index }
            ),
    {
        Tree::build(Variant::Wildcard { token, de_bruijn_index })
    }

    /// The marker `...`.
    pub fn suspended_default_arguments(token: Token<token::SuspendedDefaultArguments>) -> (r: Tree)
        requires
            (VariantView::SuspendedDefaultArguments { token: token@ }).weight() <= usize::MAX,
        ensures
            r@ == TreeView::build(VariantView::SuspendedDefaultArguments { token: token@ }),
    {
        Tree::build(Variant::SuspendedDefaultArguments { token })
    }

    /// A text literal. `closed` tells whether its end was seen.
    pub fn text_literal(
        open: Option<Token<token::TextStart>>,
        newline: Option<Token<token::Newline>>,
        elements: Vec<TextElement>,
        close: Option<Token<token::TextEnd>>,
        closed: bool,
    ) -> (r: Tree)
        requires
            (
                VariantView::TextLiteral {
                    open: opt_token_view(open),
                    newline: opt_token_view(newline),
                    elements: TextElement::views(elements@),
                    close: opt_token_view(close),
                    closed: closed,
                }
            ).weight() <= usize::MAX,
        ensures
            r@ == TreeView::build(
                VariantView::TextLiteral {
                    open: opt_token_view(open),
                    newline: opt_token_view(newline),
                    elements: TextElement::views(elements@),
                    close: opt_token_view(close),
                    closed: closed,
                }
            ),
    {
        Tree::build(Variant::TextLiteral { open, newline, elements, close, closed })
    }

    /// An application, like `print "hello"`.
    pub fn app(func: Tree, arg: Tree) -> (r: Tree)
        requires
            (VariantView::App { func: func@, arg: arg@ }).weight() <= usize::MAX,
        ensures
            r@ == TreeView::build(VariantView::App { func: func@, arg: arg@ }),
    {
        Tree::build(Variant::App { func, arg })
    }

    /// An application that names its argument, like `f (x = 1)`.
    pub fn named_app(
        func: Tree,
        open: Option<Token<token::OpenSymbol>>,
        name: Token<token::Ident>,
        equals: Token<token::Operator>,
        arg: Tree,
        close: Option<Token<token::CloseSymbol>>,
    ) -> (r: Tree)
        requires
            (
                VariantView::NamedApp {
                    func: func@,
                    open: opt_token_view(open),
                    name: name@,
                    equals: equals@,
                    arg: arg@,
                    close: opt_token_view(close),
                }
            ).weight() <= usize::MAX,
        ensures
            r@ == TreeView::build(
                VariantView::NamedApp {
                    func: func@,
                    open: opt_token_view(open),
                    name: name@,
                    equals: equals@,
                    arg: arg@,
                    close: opt_token_view(close),
                }
            ),
    {
        Tree::build(Variant::NamedApp { func, open, name, equals, arg, close })
    }

    /// An operator with its operands. One without an operand is a section.
    pub fn opr_app(lhs: Option<Tree>, opr: OperatorOrError, rhs: Option<Tree>) -> (r: Tree)
        requires
            (
                VariantView::OprApp {
                    lhs: match lhs { Some(t) => Some(t@), None => None, },
                    opr: operator_or_error_view(opr),
                    rhs: match rhs { Some(t) => Some(t@), None => None, },
                }
            ).weight() <= usize::MAX,
        ensures
            r@ == TreeView::build(
                VariantView::OprApp {
                    lhs: match lhs { Some(t) => Some(t@), None => None, },
                    opr: operator_or_error_view(opr),
                    rhs: match rhs { Some(t) => Some(t@), None => None, },
                }
            ),
    {
        Tree::build(Variant::OprApp { lhs, opr, rhs })
    }

    /// A prefix operator with its operand.
    pub fn unary_opr_app(opr: Token<token::Operator>, rhs: Option<Tree>) -> (r: Tree)
        requires
            (
                VariantView::UnaryOprApp {
                    opr: opr@,
                    rhs: match rhs { Some(t) => Some(t@), None => None, },
                }
            ).weight() <= usize::MAX,
        ensures
            r@ == TreeView::build(
                VariantView::UnaryOprApp {
                    opr: opr@,
                    rhs: match rhs { Some(t) => Some(t@), None => None, },
                }
            ),
    {
        Tree::build(Variant::UnaryOprApp { opr, rhs })
    }

    /// The autoscope marker before a constructor name, like `..True`.
    pub fn autoscoped_identifier(
        opr: Token<token::Operator>,
        ident: Token<token::Ident>,
    ) -> (r: Tree)
        requires
            (VariantView::AutoscopedIdentifier { opr: opr@, ident: ident@ }).weight() <= usize::MAX,
        ensures
            r@ == TreeView::build(VariantView::AutoscopedIdentifier { opr: opr@, ident: ident@ }),
    {
        Tree::build(Variant::AutoscopedIdentifier { opr, ident })
    }

    /// The point where operator sections turn into lambdas.
    pub fn opr_section_boundary(arguments: u32, ast: Tree) -> (r: Tree)
        requires
            (
                VariantView::OprSectionBoundary { arguments: arguments, ast: ast@ }
            ).weight() <= usize::MAX,
        ensures
            r@ == TreeView::build(
                VariantView::OprSectionBoundary { arguments: arguments, ast: ast@ }
            ),
    {
        Tree::build(Variant::OprSectionBoundary { arguments, ast })
    }

    /// An expression with wildcards that stands for a lambda.
    pub fn template_function(arguments: u32, ast: Tree) -> (r: Tree)
        requires
            (
                VariantView::TemplateFunction { arguments: arguments, ast: ast@ }
            ).weight() <= usize::MAX,
        ensures
            r@ == TreeView::build(
                VariantView::TemplateFunction { arguments: arguments, ast: ast@ }
            ),
    {
        Tree::build(Variant::TemplateFunction { arguments, ast })
    }

    /// An application in several segments, like `if a then b else c`.
    pub fn multi_segment_app(segments: Vec<MultiSegmentAppSegment>) -> (r: Tree)
        requires
            (
                VariantView::MultiSegmentApp { segments: MultiSegmentAppSegment::views(segments@) }
            ).weight() <= usize::MAX,
        ensures
            r@ == TreeView::build(
                VariantView::MultiSegmentApp { segments: MultiSegmentAppSegment::views(segments@) }
            ),
    {
        Tree::build(Variant::MultiSegmentApp { segments })
    }

    /// A type definition.
    pub fn type_def(
        keyword: Token<token::Ident>,
        name: Token<token::Ident>,
        params: Vec<ArgumentDefinition>,
        body: Vec<Line>,
    ) -> (r: Tree)
        requires
            (
                VariantView::TypeDef {
                    keyword: keyword@,
                    name: name@,
                    params: ArgumentDefinition::views(params@),
                    body: Line::views(body@),
                }
            ).weight() <= usize::MAX,
        ensures
            r@ == TreeView::build(
                VariantView::TypeDef {
                    keyword: keyword@,
                    name: name@,
                    params: ArgumentDefinition::views(params@),
                    body: Line::views(body@),
                }
            ),
    {
        Tree::build(Variant::TypeDef { keyword, name, params, body })
    }

    /// An assignment, like `foo = bar 23`.
    pub fn assignment(pattern: Tree, equals: Token<token::Operator>, expr: Tree) -> (r: Tree)
        requires
            (
                VariantView::Assignment { pattern: pattern@, equals: equals@, expr: expr@ }
            ).weight() <= usize::MAX,
        ensures
            r@ == TreeView::build(
                VariantView::Assignment { pattern: pattern@, equals: equals@, expr: expr@ }
            ),
    {
        Tree::build(Variant::Assignment { pattern, equals, expr })
    }

    /// A function definition, like `add x y = x + y`.
    pub fn function(
        name: Tree,
        args: Vec<ArgumentDefinition>,
        returns_: Option<ReturnSpecification>,
        equals: Token<token::Operator>,
        body: Option<Tree>,
    ) -> (r: Tree)
        requires
            (
                VariantView::Function {
                    name: name@,
                    args: ArgumentDefinition::views(args@),
                    returns_: match returns_ { Some(x) => Some(x@), None => None, },
                    equals: equals@,
                    body: match body { Some(t) => Some(t@), None => None, },
                }
            ).weight() <= usize::MAX,
        ensures
            r@ == TreeView::build(
                VariantView::Function {
                    name: name@,
                    args: ArgumentDefinition::views(args@),
                    returns_: match returns_ { Some(x) => Some(x@), None => None, },
                    equals: equals@,
                    body: match body { Some(t) => Some(t@), None => None, },
                }
            ),
    {
        Tree::build(Variant::Function { name, args, returns_, equals, body })
    }

    /// The definition of a function in another language.
    pub fn foreign_function(
        foreign: Token<token::Ident>,
        language: Token<token::Ident>,
        name: Token<token::Ident>,
        args: Vec<ArgumentDefinition>,
        equals: Token<token::Operator>,
        body: Tree,
    ) -> (r: Tree)
        requires
            (
                VariantView::ForeignFunction {
                    foreign: foreign@,
                    language: language@,
                    name: name@,
                    args: ArgumentDefinition::views(args@),
                    equals: equals@,
                    body: body@,
                }
            ).weight() <= usize::MAX,
        ensures
            r@ == TreeView::build(
                VariantView::ForeignFunction {
                    foreign: foreign@,
                    language: language@,
                    name: name@,
                    args: ArgumentDefinition::views(args@),
                    equals: equals@,
                    body: body@,
                }
            ),
    {
        Tree::build(Variant::ForeignFunction { foreign, language, name, args, equals, body })
    }

    /// An import statement.
    pub fn import(
        polyglot: Option<MultiSegmentAppSegment>,
        from: Option<MultiSegmentAppSegment>,
        import: MultiSegmentAppSegment,
        all: Option<Token<token::Ident>>,
        as_: Option<MultiSegmentAppSegment>,
        hiding: Option<MultiSegmentAppSegment>,
    ) -> (r: Tree)
        requires
            (
                VariantView::Import {
                    polyglot: match polyglot { Some(x) => Some(x@), None => None, },
                    from: match from { Some(x) => Some(x@), None => None, },
                    import: import@,
                    all: opt_token_view(all),
                    as_: match as_ { Some(x) => Some(x@), None => None, },
                    hiding: match hiding { Some(x) => Some(x@), None => None, },
                }
            ).weight() <= usize::MAX,
        ensures
            r@ == TreeView::build(
                VariantView::Import {
                    polyglot: match polyglot { Some(x) => Some(x@), None => None, },
                    from: match from { Some(x) => Some(x@), None => None, },
                    import: import@,
                    all: opt_token_view(all),
                    as_: match as_ { Some(x) => Some(x@), None => None, },
                    hiding: match hiding { Some(x) => Some(x@), None => None, },
                }
            ),
    {
        Tree::build(Variant::Import { polyglot, from, import, all, as_, hiding })
    }

    /// An export statement.
    pub fn export(
        from: Option<MultiSegmentAppSegment>,
        export: MultiSegmentAppSegment,
        all: Option<Token<token::Ident>>,
        as_: Option<MultiSegmentAppSegment>,
        hiding: Option<MultiSegmentAppSegment>,
    ) -> (r: Tree)
        requires
            (
                VariantView::Export {
                    from: match from { Some(x) => Some(x@), None => None, },
                    export: export@,
                    all: opt_token_view(all),
                    as_: match as_ { Some(x) => Some(x@), None => None, },
                    hiding: match hiding { Some(x) => Some(x@), None => None, },
                }
            ).weight() <= usize::MAX,
        ensures
            r@ == TreeView::build(
                VariantView::Export {
                    from: match from { Some(x) => Some(x@), None => None, },
                    export: export@,
                    all: opt_token_view(all),
                    as_: match as_ { Some(x) => Some(x@), None => None, },
                    hiding: match hiding { Some(x) => Some(x@), None => None, },
                }
            ),
    {
        Tree::build(Variant::Export { from, export, all, as_, hiding })
    }

    /// An expression in parentheses.
    pub fn group(
        open: Option<Token<token::OpenSymbol>>,
        body: Option<Tree>,
        close: Option<Token<token::CloseSymbol>>,
    ) -> (r: Tree)
        requires
            (
                VariantView::Group {
                    open: opt_token_view(open),
                    body: match body { Some(t) => Some(t@), None => None, },
                    close: opt_token_view(close),
                }
            ).weight() <= usize::MAX,
        ensures
            r@ == TreeView::build(
                VariantView::Group {
                    open: opt_token_view(open),
                    body: match body { Some(t) => Some(t@), None => None, },
                    close: opt_token_view(close),
                }
            ),
    {
        Tree::build(Variant::Group { open, body, close })
    }

    /// A statement that declares the type of a variable.
    pub fn type_signature(
        variable: Tree,
        operator: Token<token::Operator>,
        type_: Tree,
    ) -> (r: Tree)
        requires
            (
                VariantView::TypeSignature {
                    variable: variable@,
                    operator: operator@,
                    type_: type_@,
                }
            ).weight() <= usize::MAX,
        ensures
            r@ == TreeView::build(
                VariantView::TypeSignature {
                    variable: variable@,
                    operator: operator@,
                    type_: type_@,
                }
            ),
    {
        Tree::build(Variant::TypeSignature { variable, operator, type_ })
    }

    /// An expression with its type written behind it.
    pub fn type_annotated(
        expression: Tree,
        operator: Token<token::Operator>,
        type_: Tree,
    ) -> (r: Tree)
        requires
            (
                VariantView::TypeAnnotated {
                    expression: expression@,
                    operator: operator@,
                    type_: type_@,
                }
            ).weight() <= usize::MAX,
        ensures
            r@ == TreeView::build(
                VariantView::TypeAnnotated {
                    expression: expression@,
                    operator: operator@,
                    type_: type_@,
                }
            ),
    {
        Tree::build(Variant::TypeAnnotated { expression, operator, type_ })
    }

    /// A `case _ of` expression.
    pub fn case_of(
        case: Token<token::Ident>,
        expression: Option<Tree>,
        of: Token<token::Ident>,
        cases: Vec<CaseLine>,
    ) -> (r: Tree)
        requires
            (
                VariantView::CaseOf {
                    case: case@,
                    expression: match expression { Some(t) => Some(t@), None => None, },
                    of: of@,
                    cases: CaseLine::views(cases@),
                }
            ).weight() <= usize::MAX,
        ensures
            r@ == TreeView::build(
                VariantView::CaseOf {
                    case: case@,
                    expression: match expression { Some(t) => Some(t@), None => None, },
                    of: of@,
                    cases: CaseLine::views(cases@),
                }
            ),
    {
        Tree::build(Variant::CaseOf { case, expression, of, cases })
    }

    /// A lambda expression.
    pub fn lambda(operator: Token<token::Operator>, arrow: Option<Tree>) -> (r: Tree)
        requires
            (
                VariantView::Lambda {
                    operator: operator@,
                    arrow: match arrow { Some(t) => Some(t@), None => None, },
                }
            ).weight() <= usize::MAX,
        ensures
            r@ == TreeView::build(
                VariantView::Lambda {
                    operator: operator@,
                    arrow: match arrow { Some(t) => Some(t@), None => None, },
                }
            ),
    {
        Tree::build(Variant::Lambda { operator, arrow })
    }

    /// An array literal.
    pub fn array(
        left: Token<token::OpenSymbol>,
        first: Option<Tree>,
        rest: Vec<OperatorDelimitedTree>,
        right: Token<token::CloseSymbol>,
    ) -> (r: Tree)
        requires
            (
                VariantView::Array {
                    left: left@,
                    first: match first { Some(t) => Some(t@), None => None, },
                    rest: OperatorDelimitedTree::views(rest@),
                    right: right@,
                }
            ).weight() <= usize::MAX,
        ensures
            r@ == TreeView::build(
                VariantView::Array {
                    left: left@,
                    first: match first { Some(t) => Some(t@), None => None, },
                    rest: OperatorDelimitedTree::views(rest@),
                    right: right@,
                }
            ),
    {
        Tree::build(Variant::Array { left, first, rest, right })
    }

    /// A tuple literal.
    pub fn tuple(
        left: Token<token::OpenSymbol>,
        first: Option<Tree>,
        rest: Vec<OperatorDelimitedTree>,
        right: Token<token::CloseSymbol>,
    ) -> (r: Tree)
        requires
            (
                VariantView::Tuple {
                    left: left@,
                    first: match first { Some(t) => Some(t@), None => None, },
                    rest: OperatorDelimitedTree::views(rest@),
                    right: right@,
                }
            ).weight() <= usize::MAX,
        ensures
            r@ == TreeView::build(
                VariantView::Tuple {
                    left: left@,
                    first: match first { Some(t) => Some(t@), None => None, },
                    rest: OperatorDelimitedTree::views(rest@),
                    right: right@,
                }
            ),
    {
        Tree::build(Variant::Tuple { left, first, rest, right })
    }

    /// An expression behind an annotation, like `@on_problems f`.
    pub fn annotated(
        token: Token<token::Operator>,
        annotation: Token<token::Ident>,
        argument: Option<Tree>,
        newlines: Vec<Token<token::Newline>>,
        expression: Option<Tree>,
    ) -> (r: Tree)
        requires
            (
                VariantView::Annotated {
                    token: token@,
                    annotation: annotation@,
                    argument: match argument { Some(t) => Some(t@), None => None, },
                    newlines: token_views(newlines@),
                    expression: match expression { Some(t) => Some(t@), None => None, },
                }
            ).weight() <= usize::MAX,
        ensures
            r@ == TreeView::build(
                VariantView::Annotated {
                    token: token@,
                    annotation: annotation@,
                    argument: match argument { Some(t) => Some(t@), None => None, },
                    newlines: token_views(newlines@),
                    expression: match expression { Some(t) => Some(t@), None => None, },
                }
            ),
    {
        Tree::build(Variant::Annotated { token, annotation, argument, newlines, expression })
    }

    /// An expression behind a built-in annotation, like `@Tail_Call f 4`.
    pub fn annotated_builtin(
        token: Token<token::Operator>,
        annotation: Token<token::Ident>,
        newlines: Vec<Token<token::Newline>>,
        expression: Option<Tree>,
    ) -> (r: Tree)
        requires
            (
                VariantView::AnnotatedBuiltin {
                    token: token@,
                    annotation: annotation@,
                    newlines: token_views(newlines@),
                    expression: match expression { Some(t) => Some(t@), None => None, },
                }
            ).weight() <= usize::MAX,
        ensures
            r@ == TreeView::build(
                VariantView::AnnotatedBuiltin {
                    token: token@,
                    annotation: annotation@,
                    newlines: token_views(newlines@),
                    expression: match expression { Some(t) => Some(t@), None => None, },
                }
            ),
    {
        Tree::build(Variant::AnnotatedBuiltin { token, annotation, newlines, expression })
    }

    /// An expression behind a documentation comment.
    pub fn documented(documentation: DocComment, expression: Option<Tree>) -> (r: Tree)
        requires
            (
                VariantView::Documented {
                    documentation: documentation@,
                    expression: match expression { Some(t) => Some(t@), None => None, },
                }
            ).weight() <= usize::MAX,
        ensures
            r@ == TreeView::build(
                VariantView::Documented {
                    documentation: documentation@,
                    expression: match expression { Some(t) => Some(t@), None => None, },
                }
            ),
    {
        Tree::build(Variant::Documented { documentation, expression })
    }

    /// The definition of a constructor of a type.
    pub fn constructor_definition(
        constructor: Token<token::Ident>,
        arguments: Vec<ArgumentDefinition>,
        block: Vec<ArgumentDefinitionLine>,
    ) -> (r: Tree)
        requires
            (
                VariantView::ConstructorDefinition {
                    constructor: constructor@,
                    arguments: ArgumentDefinition::views(arguments@),
                    block: ArgumentDefinitionLine::views(block@),
                }
            ).weight() <= usize::MAX,
        ensures
            r@ == TreeView::build(
                VariantView::ConstructorDefinition {
                    constructor: constructor@,
                    arguments: ArgumentDefinition::views(arguments@),
                    block: ArgumentDefinitionLine::views(block@),
                }
            ),
    {
        Tree::build(Variant::ConstructorDefinition { constructor, arguments, block })
    }
}

} // verus!
