//! How the span of a node is built from what the node holds: the fields are
//! folded into a growing span in the order of the source, and no text is lost.

use crate::source::{lemma_step, texts, Piece, SpanView};
use crate::token;
use crate::token::TokenView;
use crate::tree::model::{ErrorView, OperatorOrErrorView};
use crate::token::{lemma_seq_tokens, lemma_tokens_folded};
use crate::tree::model::{
    ArgumentDefaultView, ArgumentDefinitionLineView, ArgumentDefinitionView, ArgumentTypeView,
    CaseLineView, CaseView, DocCommentView, FractionalDigitsView, LineView,
    MultiSegmentAppSegmentView, MultipleOperatorErrorView, OperatorBlockExpressionView,
    OperatorDelimitedTreeView, OperatorLineView, ReturnSpecificationView, TextElementView,
    TextLiteralView, TreeView, VariantView,
};
use vstd::prelude::*;

verus! {

impl Piece for TreeView {
    open spec fn fold_into(self, span: SpanView) -> (SpanView, Self) {
        (
            span.absorb(self.span.left_offset, self.span.code_length).0,
            TreeView {
                span: SpanView {
                    left_offset: span.absorb(self.span.left_offset, self.span.code_length).1,
                    code_length: self.span.code_length,
                },
                variant: self.variant,
            },
        )
    }

    open spec fn weight(self) -> nat {
        self.span.full_len()
    }

    open spec fn text(self) -> Seq<char> {
        self.source()
    }

    open spec fn sound(self) -> bool {
        self.valid()
    }

    proof fn lemma_weight(self, span: SpanView) {
    }

    proof fn lemma_measure(self) {
    }

    proof fn lemma_fold(self, span: SpanView, covered: Seq<char>) {
        let after = self.fold_into(span);
        assert(after.0.left_offset + (covered + after.1.text()) =~= (span.left_offset + covered)
            + self.text());
    }
}

impl TreeView {
    /// The node that holds `variant`: its span is built from the fields of
    /// `variant`, and the first of them that has any text hands its offset to
    /// the node.
    pub open spec fn build(variant: VariantView) -> TreeView {
        TreeView {
            span: variant.fold_into(SpanView::empty()).0,
            variant: Box::new(variant.fold_into(SpanView::empty()).1),
        }
    }
}

impl TreeView {
    /// The node that holds `variant` as it is, behind the offset `left_offset`:
    /// its code is as long as what `variant` holds.
    pub open spec fn around(left_offset: Seq<char>, variant: VariantView) -> TreeView {
        TreeView {
            span: SpanView { left_offset, code_length: variant.weight() },
            variant: Box::new(variant),
        }
    }
}

/// A node put around sound parts is sound, and its text is the offset and the
/// text of the parts.
pub proof fn lemma_around(left_offset: Seq<char>, variant: VariantView)
    requires
        variant.valid(),
    ensures
        TreeView::around(left_offset, variant).valid(),
        TreeView::around(left_offset, variant).source() == left_offset + variant.source(),
        TreeView::around(left_offset, variant).span.full_len() == left_offset.len()
            + variant.source().len(),
{
    variant.lemma_measure();
}

/// The span of a built node is as long as what the node holds.
pub proof fn lemma_build_len(variant: VariantView)
    ensures
        TreeView::build(variant).span.full_len() == variant.weight(),
{
    variant.lemma_weight(SpanView::empty());
}

/// A node built from sound parts is sound, and its text is the text of the parts.
pub proof fn lemma_build(variant: VariantView)
    requires
        variant.valid(),
    ensures
        TreeView::build(variant).valid(),
        TreeView::build(variant).source() == variant.source(),
        TreeView::build(variant).span.full_len() == variant.weight(),
{
    let nothing = Seq::<char>::empty();
    variant.lemma_fold(SpanView::empty(), nothing);
    variant.lemma_weight(SpanView::empty());
    let after = variant.fold_into(SpanView::empty());
    assert(nothing + after.1.text() =~= after.1.text());
    assert((nothing + nothing) + variant.text() =~= variant.text());
}

/// The two ways to write the text and the soundness of a sequence agree.
pub proof fn lemma_seq_line(items: Seq<LineView>)
    ensures
        items.text() == LineView::sources(items),
        items.sound() == LineView::all_valid(items),
{
    assert(texts(items) =~= LineView::source_parts(items));
}

/// The two ways to write the text and the soundness of a sequence agree.
pub proof fn lemma_seq_operator_line(items: Seq<OperatorLineView>)
    ensures
        items.text() == OperatorLineView::sources(items),
        items.sound() == OperatorLineView::all_valid(items),
{
    assert(texts(items) =~= OperatorLineView::source_parts(items));
}

/// The two ways to write the text and the soundness of a sequence agree.
pub proof fn lemma_seq_text_element(items: Seq<TextElementView>)
    ensures
        items.text() == TextElementView::sources(items),
        items.sound() == TextElementView::all_valid(items),
{
    assert(texts(items) =~= TextElementView::source_parts(items));
}

/// The two ways to write the text and the soundness of a sequence agree.
pub proof fn lemma_seq_argument_definition(items: Seq<ArgumentDefinitionView>)
    ensures
        items.text() == ArgumentDefinitionView::sources(items),
        items.sound() == ArgumentDefinitionView::all_valid(items),
{
    assert(texts(items) =~= ArgumentDefinitionView::source_parts(items));
}

/// The two ways to write the text and the soundness of a sequence agree.
pub proof fn lemma_seq_case_line(items: Seq<CaseLineView>)
    ensures
        items.text() == CaseLineView::sources(items),
        items.sound() == CaseLineView::all_valid(items),
{
    assert(texts(items) =~= CaseLineView::source_parts(items));
}

/// The two ways to write the text and the soundness of a sequence agree.
pub proof fn lemma_seq_operator_delimited_tree(items: Seq<OperatorDelimitedTreeView>)
    ensures
        items.text() == OperatorDelimitedTreeView::sources(items),
        items.sound() == OperatorDelimitedTreeView::all_valid(items),
{
    assert(texts(items) =~= OperatorDelimitedTreeView::source_parts(items));
}

/// The two ways to write the text and the soundness of a sequence agree.
pub proof fn lemma_seq_argument_definition_line(items: Seq<ArgumentDefinitionLineView>)
    ensures
        items.text() == ArgumentDefinitionLineView::sources(items),
        items.sound() == ArgumentDefinitionLineView::all_valid(items),
{
    assert(texts(items) =~= ArgumentDefinitionLineView::source_parts(items));
}

/// The two ways to write the text and the soundness of a sequence agree.
pub proof fn lemma_seq_multi_segment_app_segment(items: Seq<MultiSegmentAppSegmentView>)
    ensures
        items.text() == MultiSegmentAppSegmentView::sources(items),
        items.sound() == MultiSegmentAppSegmentView::all_valid(items),
{
    assert(texts(items) =~= MultiSegmentAppSegmentView::source_parts(items));
}

impl Piece for LineView {
    open spec fn fold_into(self, span: SpanView) -> (SpanView, Self) {
        let new_newline = self.newline.fold_into(span);
        let new_expression = self.expression.fold_into(new_newline.0);
        (new_expression.0, LineView { newline: new_newline.1, expression: new_expression.1 })
    }

    open spec fn weight(self) -> nat {
        self.newline.weight() + self.expression.weight()
    }

    open spec fn text(self) -> Seq<char> {
        self.source()
    }

    open spec fn sound(self) -> bool {
        self.valid()
    }

    proof fn lemma_weight(self, span: SpanView) {
        self.newline.lemma_weight(span);
        let new_newline = self.newline.fold_into(span);
        self.expression.lemma_weight(new_newline.0);
    }

    proof fn lemma_measure(self) {
        self.newline.lemma_measure();
        self.expression.lemma_measure();
    }

    proof fn lemma_fold(self, span: SpanView, covered: Seq<char>) {
        let whole = span.left_offset + covered;
        self.newline.lemma_fold(span, covered);
        let new_newline = self.newline.fold_into(span);
        let covered1 = covered + new_newline.1.text();
        let now1 = new_newline.1.text();
        let was1 = self.newline.text();
        lemma_step(self.expression, new_newline.0, covered1, covered, now1, whole, was1);
        let new_expression = self.expression.fold_into(new_newline.0);
        let covered2 = covered1 + new_expression.1.text();
        let now2 = now1 + new_expression.1.text();
        let was2 = was1 + self.expression.text();
        let after = self.fold_into(span);
        assert(after.1.text() == now2);
        assert(self.text() == was2);
    }
}

impl Piece for OperatorBlockExpressionView {
    open spec fn fold_into(self, span: SpanView) -> (SpanView, Self) {
        let new_operator = self.operator.fold_into(span);
        let new_expression = self.expression.fold_into(new_operator.0);
        (
            new_expression.0,
            OperatorBlockExpressionView { operator: new_operator.1, expression: new_expression.1 },
        )
    }

    open spec fn weight(self) -> nat {
        self.operator.weight() + self.expression.weight()
    }

    open spec fn text(self) -> Seq<char> {
        self.source()
    }

    open spec fn sound(self) -> bool {
        self.valid()
    }

    proof fn lemma_weight(self, span: SpanView) {
        self.operator.lemma_weight(span);
        let new_operator = self.operator.fold_into(span);
        self.expression.lemma_weight(new_operator.0);
    }

    proof fn lemma_measure(self) {
        self.operator.lemma_measure();
        self.expression.lemma_measure();
    }

    proof fn lemma_fold(self, span: SpanView, covered: Seq<char>) {
        let whole = span.left_offset + covered;
        self.operator.lemma_fold(span, covered);
        let new_operator = self.operator.fold_into(span);
        let covered1 = covered + new_operator.1.text();
        let now1 = new_operator.1.text();
        let was1 = self.operator.text();
        lemma_step(self.expression, new_operator.0, covered1, covered, now1, whole, was1);
        let new_expression = self.expression.fold_into(new_operator.0);
        let covered2 = covered1 + new_expression.1.text();
        let now2 = now1 + new_expression.1.text();
        let was2 = was1 + self.expression.text();
        let after = self.fold_into(span);
        assert(after.1.text() == now2);
        assert(self.text() == was2);
    }
}

impl Piece for OperatorLineView {
    open spec fn fold_into(self, span: SpanView) -> (SpanView, Self) {
        let new_newline = self.newline.fold_into(span);
        let new_expression = self.expression.fold_into(new_newline.0);
        (
            new_expression.0,
            OperatorLineView { newline: new_newline.1, expression: new_expression.1 },
        )
    }

    open spec fn weight(self) -> nat {
        self.newline.weight() + self.expression.weight()
    }

    open spec fn text(self) -> Seq<char> {
        self.source()
    }

    open spec fn sound(self) -> bool {
        self.valid()
    }

    proof fn lemma_weight(self, span: SpanView) {
        self.newline.lemma_weight(span);
        let new_newline = self.newline.fold_into(span);
        self.expression.lemma_weight(new_newline.0);
    }

    proof fn lemma_measure(self) {
        self.newline.lemma_measure();
        self.expression.lemma_measure();
    }

    proof fn lemma_fold(self, span: SpanView, covered: Seq<char>) {
        let whole = span.left_offset + covered;
        self.newline.lemma_fold(span, covered);
        let new_newline = self.newline.fold_into(span);
        let covered1 = covered + new_newline.1.text();
        let now1 = new_newline.1.text();
        let was1 = self.newline.text();
        lemma_step(self.expression, new_newline.0, covered1, covered, now1, whole, was1);
        let new_expression = self.expression.fold_into(new_newline.0);
        let covered2 = covered1 + new_expression.1.text();
        let now2 = now1 + new_expression.1.text();
        let was2 = was1 + self.expression.text();
        let after = self.fold_into(span);
        assert(after.1.text() == now2);
        assert(self.text() == was2);
    }
}

impl Piece for ArgumentDefinitionLineView {
    open spec fn fold_into(self, span: SpanView) -> (SpanView, Self) {
        let new_newline = self.newline.fold_into(span);
        let new_argument = self.argument.fold_into(new_newline.0);
        (
            new_argument.0,
            ArgumentDefinitionLineView { newline: new_newline.1, argument: new_argument.1 },
        )
    }

    open spec fn weight(self) -> nat {
        self.newline.weight() + self.argument.weight()
    }

    open spec fn text(self) -> Seq<char> {
        self.source()
    }

    open spec fn sound(self) -> bool {
        self.valid()
    }

    proof fn lemma_weight(self, span: SpanView) {
        self.newline.lemma_weight(span);
        let new_newline = self.newline.fold_into(span);
        self.argument.lemma_weight(new_newline.0);
    }

    proof fn lemma_measure(self) {
        self.newline.lemma_measure();
        self.argument.lemma_measure();
    }

    proof fn lemma_fold(self, span: SpanView, covered: Seq<char>) {
        let whole = span.left_offset + covered;
        self.newline.lemma_fold(span, covered);
        let new_newline = self.newline.fold_into(span);
        let covered1 = covered + new_newline.1.text();
        let now1 = new_newline.1.text();
        let was1 = self.newline.text();
        lemma_step(self.argument, new_newline.0, covered1, covered, now1, whole, was1);
        let new_argument = self.argument.fold_into(new_newline.0);
        let covered2 = covered1 + new_argument.1.text();
        let now2 = now1 + new_argument.1.text();
        let was2 = was1 + self.argument.text();
        let after = self.fold_into(span);
        assert(after.1.text() == now2);
        assert(self.text() == was2);
    }
}

impl Piece for TextElementView {
    open spec fn fold_into(self, span: SpanView) -> (SpanView, Self) {
        match self {
            TextElementView::Section { text } => {
                let new_text = text.fold_into(span);
                (new_text.0, TextElementView::Section { text: new_text.1 })
            },
            TextElementView::Escape { token } => {
                let new_token = token.fold_into(span);
                (new_token.0, TextElementView::Escape { token: new_token.1 })
            },
            TextElementView::Newline { newline } => {
                let new_newline = newline.fold_into(span);
                (new_newline.0, TextElementView::Newline { newline: new_newline.1 })
            },
            TextElementView::Splice { open, expression, close } => {
                let new_open = open.fold_into(span);
                let new_expression = expression.fold_into(new_open.0);
                let new_close = close.fold_into(new_expression.0);
                (
                    new_close.0,
                    TextElementView::Splice {
                        open: new_open.1,
                        expression: new_expression.1,
                        close: new_close.1,
                    },
                )
            },
        }
    }

    open spec fn weight(self) -> nat {
        match self {
            TextElementView::Section { text } => {
                text.weight()
            },
            TextElementView::Escape { token } => {
                token.weight()
            },
            TextElementView::Newline { newline } => {
                newline.weight()
            },
            TextElementView::Splice { open, expression, close } => {
                open.weight() + expression.weight() + close.weight()
            },
        }
    }

    open spec fn text(self) -> Seq<char> {
        self.source()
    }

    open spec fn sound(self) -> bool {
        self.valid()
    }

    proof fn lemma_weight(self, span: SpanView) {
        match self {
            TextElementView::Section { text } => {
                text.lemma_weight(span);
            },
            TextElementView::Escape { token } => {
                token.lemma_weight(span);
            },
            TextElementView::Newline { newline } => {
                newline.lemma_weight(span);
            },
            TextElementView::Splice { open, expression, close } => {
                open.lemma_weight(span);
                let new_open = open.fold_into(span);
                expression.lemma_weight(new_open.0);
                let new_expression = expression.fold_into(new_open.0);
                close.lemma_weight(new_expression.0);
            },
        }
    }

    proof fn lemma_measure(self) {
        match self {
            TextElementView::Section { text } => {
                text.lemma_measure();
            },
            TextElementView::Escape { token } => {
                token.lemma_measure();
            },
            TextElementView::Newline { newline } => {
                newline.lemma_measure();
            },
            TextElementView::Splice { open, expression, close } => {
                open.lemma_measure();
                expression.lemma_measure();
                close.lemma_measure();
            },
        }
    }

    proof fn lemma_fold(self, span: SpanView, covered: Seq<char>) {
        match self {
            TextElementView::Section { text } => {
                let whole = span.left_offset + covered;
                text.lemma_fold(span, covered);
                let new_text = text.fold_into(span);
                let covered1 = covered + new_text.1.text();
                let now1 = new_text.1.text();
                let was1 = text.text();
                let after = self.fold_into(span);
                assert(after.1.text() == now1);
                assert(self.text() == was1);
            },
            TextElementView::Escape { token } => {
                let whole = span.left_offset + covered;
                token.lemma_fold(span, covered);
                let new_token = token.fold_into(span);
                let covered1 = covered + new_token.1.text();
                let now1 = new_token.1.text();
                let was1 = token.text();
                let after = self.fold_into(span);
                assert(after.1.text() == now1);
                assert(self.text() == was1);
            },
            TextElementView::Newline { newline } => {
                let whole = span.left_offset + covered;
                newline.lemma_fold(span, covered);
                let new_newline = newline.fold_into(span);
                let covered1 = covered + new_newline.1.text();
                let now1 = new_newline.1.text();
                let was1 = newline.text();
                let after = self.fold_into(span);
                assert(after.1.text() == now1);
                assert(self.text() == was1);
            },
            TextElementView::Splice { open, expression, close } => {
                let whole = span.left_offset + covered;
                open.lemma_fold(span, covered);
                let new_open = open.fold_into(span);
                let covered1 = covered + new_open.1.text();
                let now1 = new_open.1.text();
                let was1 = open.text();
                lemma_step(expression, new_open.0, covered1, covered, now1, whole, was1);
                let new_expression = expression.fold_into(new_open.0);
                let covered2 = covered1 + new_expression.1.text();
                let now2 = now1 + new_expression.1.text();
                let was2 = was1 + expression.text();
                lemma_step(close, new_expression.0, covered2, covered, now2, whole, was2);
                let new_close = close.fold_into(new_expression.0);
                let covered3 = covered2 + new_close.1.text();
                let now3 = now2 + new_close.1.text();
                let was3 = was2 + close.text();
                let after = self.fold_into(span);
                assert(after.1.text() == now3);
                assert(self.text() == was3);
            },
        }
    }
}

impl Piece for DocCommentView {
    open spec fn fold_into(self, span: SpanView) -> (SpanView, Self) {
        let new_open = self.open.fold_into(span);
        let new_elements = self.elements.fold_into(new_open.0);
        let new_newlines = self.newlines.fold_into(new_elements.0);
        (
            new_newlines.0,
            DocCommentView { open: new_open.1, elements: new_elements.1, newlines: new_newlines.1 },
        )
    }

    open spec fn weight(self) -> nat {
        self.open.weight() + self.elements.weight() + self.newlines.weight()
    }

    open spec fn text(self) -> Seq<char> {
        self.source()
    }

    open spec fn sound(self) -> bool {
        self.valid()
    }

    proof fn lemma_weight(self, span: SpanView) {
        self.open.lemma_weight(span);
        let new_open = self.open.fold_into(span);
        self.elements.lemma_weight(new_open.0);
        let new_elements = self.elements.fold_into(new_open.0);
        self.newlines.lemma_weight(new_elements.0);
    }

    proof fn lemma_measure(self) {
        self.open.lemma_measure();
        lemma_seq_text_element(self.elements);
        self.elements.lemma_measure();
        lemma_seq_tokens(self.newlines);
        self.newlines.lemma_measure();
    }

    proof fn lemma_fold(self, span: SpanView, covered: Seq<char>) {
        let whole = span.left_offset + covered;
        self.open.lemma_fold(span, covered);
        let new_open = self.open.fold_into(span);
        let covered1 = covered + new_open.1.text();
        let now1 = new_open.1.text();
        let was1 = self.open.text();
        lemma_seq_text_element(self.elements);
        lemma_step(self.elements, new_open.0, covered1, covered, now1, whole, was1);
        let new_elements = self.elements.fold_into(new_open.0);
        lemma_seq_text_element(new_elements.1);
        let covered2 = covered1 + new_elements.1.text();
        let now2 = now1 + new_elements.1.text();
        let was2 = was1 + self.elements.text();
        lemma_seq_tokens(self.newlines);
        lemma_step(self.newlines, new_elements.0, covered2, covered, now2, whole, was2);
        let new_newlines = self.newlines.fold_into(new_elements.0);
        lemma_seq_tokens(new_newlines.1);
        let covered3 = covered2 + new_newlines.1.text();
        let now3 = now2 + new_newlines.1.text();
        let was3 = was2 + self.newlines.text();
        let after = self.fold_into(span);
        assert(after.1.text() == now3);
        assert(self.text() == was3);
    }
}

impl Piece for FractionalDigitsView {
    open spec fn fold_into(self, span: SpanView) -> (SpanView, Self) {
        let new_dot = self.dot.fold_into(span);
        let new_digits = self.digits.fold_into(new_dot.0);
        (new_digits.0, FractionalDigitsView { dot: new_dot.1, digits: new_digits.1 })
    }

    open spec fn weight(self) -> nat {
        self.dot.weight() + self.digits.weight()
    }

    open spec fn text(self) -> Seq<char> {
        self.source()
    }

    open spec fn sound(self) -> bool {
        self.valid()
    }

    proof fn lemma_weight(self, span: SpanView) {
        self.dot.lemma_weight(span);
        let new_dot = self.dot.fold_into(span);
        self.digits.lemma_weight(new_dot.0);
    }

    proof fn lemma_measure(self) {
        self.dot.lemma_measure();
        self.digits.lemma_measure();
    }

    proof fn lemma_fold(self, span: SpanView, covered: Seq<char>) {
        let whole = span.left_offset + covered;
        self.dot.lemma_fold(span, covered);
        let new_dot = self.dot.fold_into(span);
        let covered1 = covered + new_dot.1.text();
        let now1 = new_dot.1.text();
        let was1 = self.dot.text();
        lemma_step(self.digits, new_dot.0, covered1, covered, now1, whole, was1);
        let new_digits = self.digits.fold_into(new_dot.0);
        let covered2 = covered1 + new_digits.1.text();
        let now2 = now1 + new_digits.1.text();
        let was2 = was1 + self.digits.text();
        let after = self.fold_into(span);
        assert(after.1.text() == now2);
        assert(self.text() == was2);
    }
}

impl Piece for ArgumentDefinitionView {
    open spec fn fold_into(self, span: SpanView) -> (SpanView, Self) {
        let new_open = self.open.fold_into(span);
        let new_open2 = self.open2.fold_into(new_open.0);
        let new_suspension = self.suspension.fold_into(new_open2.0);
        let new_pattern = self.pattern.fold_into(new_suspension.0);
        let new_type_ = self.type_.fold_into(new_pattern.0);
        let new_close2 = self.close2.fold_into(new_type_.0);
        let new_default = self.default.fold_into(new_close2.0);
        let new_close = self.close.fold_into(new_default.0);
        (
            new_close.0,
            ArgumentDefinitionView {
                open: new_open.1,
                open2: new_open2.1,
                suspension: new_suspension.1,
                pattern: new_pattern.1,
                type_: new_type_.1,
                close2: new_close2.1,
                default: new_default.1,
                close: new_close.1,
            },
        )
    }

    open spec fn weight(self) -> nat {
        self.open.weight() + self.open2.weight() + self.suspension.weight()
            + self.pattern.weight() + self.type_.weight() + self.close2.weight()
                + self.default.weight() + self.close.weight()
    }

    open spec fn text(self) -> Seq<char> {
        self.source()
    }

    open spec fn sound(self) -> bool {
        self.valid()
    }

    proof fn lemma_weight(self, span: SpanView) {
        self.open.lemma_weight(span);
        let new_open = self.open.fold_into(span);
        self.open2.lemma_weight(new_open.0);
        let new_open2 = self.open2.fold_into(new_open.0);
        self.suspension.lemma_weight(new_open2.0);
        let new_suspension = self.suspension.fold_into(new_open2.0);
        self.pattern.lemma_weight(new_suspension.0);
        let new_pattern = self.pattern.fold_into(new_suspension.0);
        self.type_.lemma_weight(new_pattern.0);
        let new_type_ = self.type_.fold_into(new_pattern.0);
        self.close2.lemma_weight(new_type_.0);
        let new_close2 = self.close2.fold_into(new_type_.0);
        self.default.lemma_weight(new_close2.0);
        let new_default = self.default.fold_into(new_close2.0);
        self.close.lemma_weight(new_default.0);
    }

    proof fn lemma_measure(self) {
        self.open.lemma_measure();
        self.open2.lemma_measure();
        self.suspension.lemma_measure();
        self.pattern.lemma_measure();
        self.type_.lemma_measure();
        self.close2.lemma_measure();
        self.default.lemma_measure();
        self.close.lemma_measure();
    }

    #[verifier::rlimit(40)]
    proof fn lemma_fold(self, span: SpanView, covered: Seq<char>) {
        let whole = span.left_offset + covered;
        self.open.lemma_fold(span, covered);
        let new_open = self.open.fold_into(span);
        let covered1 = covered + new_open.1.text();
        let now1 = new_open.1.text();
        let was1 = self.open.text();
        lemma_step(self.open2, new_open.0, covered1, covered, now1, whole, was1);
        let new_open2 = self.open2.fold_into(new_open.0);
        let covered2 = covered1 + new_open2.1.text();
        let now2 = now1 + new_open2.1.text();
        let was2 = was1 + self.open2.text();
        lemma_step(self.suspension, new_open2.0, covered2, covered, now2, whole, was2);
        let new_suspension = self.suspension.fold_into(new_open2.0);
        let covered3 = covered2 + new_suspension.1.text();
        let now3 = now2 + new_suspension.1.text();
        let was3 = was2 + self.suspension.text();
        lemma_step(self.pattern, new_suspension.0, covered3, covered, now3, whole, was3);
        let new_pattern = self.pattern.fold_into(new_suspension.0);
        let covered4 = covered3 + new_pattern.1.text();
        let now4 = now3 + new_pattern.1.text();
        let was4 = was3 + self.pattern.text();
        lemma_step(self.type_, new_pattern.0, covered4, covered, now4, whole, was4);
        let new_type_ = self.type_.fold_into(new_pattern.0);
        let covered5 = covered4 + new_type_.1.text();
        let now5 = now4 + new_type_.1.text();
        let was5 = was4 + self.type_.text();
        lemma_step(self.close2, new_type_.0, covered5, covered, now5, whole, was5);
        let new_close2 = self.close2.fold_into(new_type_.0);
        let covered6 = covered5 + new_close2.1.text();
        let now6 = now5 + new_close2.1.text();
        let was6 = was5 + self.close2.text();
        lemma_step(self.default, new_close2.0, covered6, covered, now6, whole, was6);
        let new_default = self.default.fold_into(new_close2.0);
        let covered7 = covered6 + new_default.1.text();
        let now7 = now6 + new_default.1.text();
        let was7 = was6 + self.default.text();
        lemma_step(self.close, new_default.0, covered7, covered, now7, whole, was7);
        let new_close = self.close.fold_into(new_default.0);
        let covered8 = covered7 + new_close.1.text();
        let now8 = now7 + new_close.1.text();
        let was8 = was7 + self.close.text();
        let after = self.fold_into(span);
        assert(after.1.text() == now8);
        assert(self.text() == was8);
    }
}

impl Piece for ArgumentDefaultView {
    open spec fn fold_into(self, span: SpanView) -> (SpanView, Self) {
        let new_equals = self.equals.fold_into(span);
        let new_expression = self.expression.fold_into(new_equals.0);
        (
            new_expression.0,
            ArgumentDefaultView { equals: new_equals.1, expression: new_expression.1 },
        )
    }

    open spec fn weight(self) -> nat {
        self.equals.weight() + self.expression.weight()
    }

    open spec fn text(self) -> Seq<char> {
        self.source()
    }

    open spec fn sound(self) -> bool {
        self.valid()
    }

    proof fn lemma_weight(self, span: SpanView) {
        self.equals.lemma_weight(span);
        let new_equals = self.equals.fold_into(span);
        self.expression.lemma_weight(new_equals.0);
    }

    proof fn lemma_measure(self) {
        self.equals.lemma_measure();
        self.expression.lemma_measure();
    }

    proof fn lemma_fold(self, span: SpanView, covered: Seq<char>) {
        let whole = span.left_offset + covered;
        self.equals.lemma_fold(span, covered);
        let new_equals = self.equals.fold_into(span);
        let covered1 = covered + new_equals.1.text();
        let now1 = new_equals.1.text();
        let was1 = self.equals.text();
        lemma_step(self.expression, new_equals.0, covered1, covered, now1, whole, was1);
        let new_expression = self.expression.fold_into(new_equals.0);
        let covered2 = covered1 + new_expression.1.text();
        let now2 = now1 + new_expression.1.text();
        let was2 = was1 + self.expression.text();
        let after = self.fold_into(span);
        assert(after.1.text() == now2);
        assert(self.text() == was2);
    }
}

impl Piece for ArgumentTypeView {
    open spec fn fold_into(self, span: SpanView) -> (SpanView, Self) {
        let new_operator = self.operator.fold_into(span);
        let new_type_ = self.type_.fold_into(new_operator.0);
        (new_type_.0, ArgumentTypeView { operator: new_operator.1, type_: new_type_.1 })
    }

    open spec fn weight(self) -> nat {
        self.operator.weight() + self.type_.weight()
    }

    open spec fn text(self) -> Seq<char> {
        self.source()
    }

    open spec fn sound(self) -> bool {
        self.valid()
    }

    proof fn lemma_weight(self, span: SpanView) {
        self.operator.lemma_weight(span);
        let new_operator = self.operator.fold_into(span);
        self.type_.lemma_weight(new_operator.0);
    }

    proof fn lemma_measure(self) {
        self.operator.lemma_measure();
        self.type_.lemma_measure();
    }

    proof fn lemma_fold(self, span: SpanView, covered: Seq<char>) {
        let whole = span.left_offset + covered;
        self.operator.lemma_fold(span, covered);
        let new_operator = self.operator.fold_into(span);
        let covered1 = covered + new_operator.1.text();
        let now1 = new_operator.1.text();
        let was1 = self.operator.text();
        lemma_step(self.type_, new_operator.0, covered1, covered, now1, whole, was1);
        let new_type_ = self.type_.fold_into(new_operator.0);
        let covered2 = covered1 + new_type_.1.text();
        let now2 = now1 + new_type_.1.text();
        let was2 = was1 + self.type_.text();
        let after = self.fold_into(span);
        assert(after.1.text() == now2);
        assert(self.text() == was2);
    }
}

impl Piece for ReturnSpecificationView {
    open spec fn fold_into(self, span: SpanView) -> (SpanView, Self) {
        let new_arrow = self.arrow.fold_into(span);
        let new_type_ = self.type_.fold_into(new_arrow.0);
        (new_type_.0, ReturnSpecificationView { arrow: new_arrow.1, type_: new_type_.1 })
    }

    open spec fn weight(self) -> nat {
        self.arrow.weight() + self.type_.weight()
    }

    open spec fn text(self) -> Seq<char> {
        self.source()
    }

    open spec fn sound(self) -> bool {
        self.valid()
    }

    proof fn lemma_weight(self, span: SpanView) {
        self.arrow.lemma_weight(span);
        let new_arrow = self.arrow.fold_into(span);
        self.type_.lemma_weight(new_arrow.0);
    }

    proof fn lemma_measure(self) {
        self.arrow.lemma_measure();
        self.type_.lemma_measure();
    }

    proof fn lemma_fold(self, span: SpanView, covered: Seq<char>) {
        let whole = span.left_offset + covered;
        self.arrow.lemma_fold(span, covered);
        let new_arrow = self.arrow.fold_into(span);
        let covered1 = covered + new_arrow.1.text();
        let now1 = new_arrow.1.text();
        let was1 = self.arrow.text();
        lemma_step(self.type_, new_arrow.0, covered1, covered, now1, whole, was1);
        let new_type_ = self.type_.fold_into(new_arrow.0);
        let covered2 = covered1 + new_type_.1.text();
        let now2 = now1 + new_type_.1.text();
        let was2 = was1 + self.type_.text();
        let after = self.fold_into(span);
        assert(after.1.text() == now2);
        assert(self.text() == was2);
    }
}

impl Piece for CaseLineView {
    open spec fn fold_into(self, span: SpanView) -> (SpanView, Self) {
        let new_newline = self.newline.fold_into(span);
        let new_case = self.case.fold_into(new_newline.0);
        (new_case.0, CaseLineView { newline: new_newline.1, case: new_case.1 })
    }

    open spec fn weight(self) -> nat {
        self.newline.weight() + self.case.weight()
    }

    open spec fn text(self) -> Seq<char> {
        self.source()
    }

    open spec fn sound(self) -> bool {
        self.valid()
    }

    proof fn lemma_weight(self, span: SpanView) {
        self.newline.lemma_weight(span);
        let new_newline = self.newline.fold_into(span);
        self.case.lemma_weight(new_newline.0);
    }

    proof fn lemma_measure(self) {
        self.newline.lemma_measure();
        self.case.lemma_measure();
    }

    proof fn lemma_fold(self, span: SpanView, covered: Seq<char>) {
        let whole = span.left_offset + covered;
        self.newline.lemma_fold(span, covered);
        let new_newline = self.newline.fold_into(span);
        let covered1 = covered + new_newline.1.text();
        let now1 = new_newline.1.text();
        let was1 = self.newline.text();
        lemma_step(self.case, new_newline.0, covered1, covered, now1, whole, was1);
        let new_case = self.case.fold_into(new_newline.0);
        let covered2 = covered1 + new_case.1.text();
        let now2 = now1 + new_case.1.text();
        let was2 = was1 + self.case.text();
        let after = self.fold_into(span);
        assert(after.1.text() == now2);
        assert(self.text() == was2);
    }
}

impl Piece for CaseView {
    open spec fn fold_into(self, span: SpanView) -> (SpanView, Self) {
        let new_documentation = self.documentation.fold_into(span);
        let new_pattern = self.pattern.fold_into(new_documentation.0);
        let new_arrow = self.arrow.fold_into(new_pattern.0);
        let new_expression = self.expression.fold_into(new_arrow.0);
        (
            new_expression.0,
            CaseView {
                documentation: new_documentation.1,
                pattern: new_pattern.1,
                arrow: new_arrow.1,
                expression: new_expression.1,
            },
        )
    }

    open spec fn weight(self) -> nat {
        self.documentation.weight() + self.pattern.weight() + self.arrow.weight()
            + self.expression.weight()
    }

    open spec fn text(self) -> Seq<char> {
        self.source()
    }

    open spec fn sound(self) -> bool {
        self.valid()
    }

    proof fn lemma_weight(self, span: SpanView) {
        self.documentation.lemma_weight(span);
        let new_documentation = self.documentation.fold_into(span);
        self.pattern.lemma_weight(new_documentation.0);
        let new_pattern = self.pattern.fold_into(new_documentation.0);
        self.arrow.lemma_weight(new_pattern.0);
        let new_arrow = self.arrow.fold_into(new_pattern.0);
        self.expression.lemma_weight(new_arrow.0);
    }

    proof fn lemma_measure(self) {
        self.documentation.lemma_measure();
        self.pattern.lemma_measure();
        self.arrow.lemma_measure();
        self.expression.lemma_measure();
    }

    proof fn lemma_fold(self, span: SpanView, covered: Seq<char>) {
        let whole = span.left_offset + covered;
        self.documentation.lemma_fold(span, covered);
        let new_documentation = self.documentation.fold_into(span);
        let covered1 = covered + new_documentation.1.text();
        let now1 = new_documentation.1.text();
        let was1 = self.documentation.text();
        lemma_step(self.pattern, new_documentation.0, covered1, covered, now1, whole, was1);
        let new_pattern = self.pattern.fold_into(new_documentation.0);
        let covered2 = covered1 + new_pattern.1.text();
        let now2 = now1 + new_pattern.1.text();
        let was2 = was1 + self.pattern.text();
        lemma_step(self.arrow, new_pattern.0, covered2, covered, now2, whole, was2);
        let new_arrow = self.arrow.fold_into(new_pattern.0);
        let covered3 = covered2 + new_arrow.1.text();
        let now3 = now2 + new_arrow.1.text();
        let was3 = was2 + self.arrow.text();
        lemma_step(self.expression, new_arrow.0, covered3, covered, now3, whole, was3);
        let new_expression = self.expression.fold_into(new_arrow.0);
        let covered4 = covered3 + new_expression.1.text();
        let now4 = now3 + new_expression.1.text();
        let was4 = was3 + self.expression.text();
        let after = self.fold_into(span);
        assert(after.1.text() == now4);
        assert(self.text() == was4);
    }
}

impl Piece for TextLiteralView {
    open spec fn fold_into(self, span: SpanView) -> (SpanView, Self) {
        let new_open = self.open.fold_into(span);
        let new_newline = self.newline.fold_into(new_open.0);
        let new_elements = self.elements.fold_into(new_newline.0);
        let new_close = self.close.fold_into(new_elements.0);
        (
            new_close.0,
            TextLiteralView {
                open: new_open.1,
                newline: new_newline.1,
                elements: new_elements.1,
                close: new_close.1,
                closed: self.closed,
            },
        )
    }

    open spec fn weight(self) -> nat {
        self.open.weight() + self.newline.weight() + self.elements.weight() + self.close.weight()
    }

    open spec fn text(self) -> Seq<char> {
        self.source()
    }

    open spec fn sound(self) -> bool {
        self.valid()
    }

    proof fn lemma_weight(self, span: SpanView) {
        self.open.lemma_weight(span);
        let new_open = self.open.fold_into(span);
        self.newline.lemma_weight(new_open.0);
        let new_newline = self.newline.fold_into(new_open.0);
        self.elements.lemma_weight(new_newline.0);
        let new_elements = self.elements.fold_into(new_newline.0);
        self.close.lemma_weight(new_elements.0);
    }

    proof fn lemma_measure(self) {
        self.open.lemma_measure();
        self.newline.lemma_measure();
        lemma_seq_text_element(self.elements);
        self.elements.lemma_measure();
        self.close.lemma_measure();
    }

    proof fn lemma_fold(self, span: SpanView, covered: Seq<char>) {
        let whole = span.left_offset + covered;
        self.open.lemma_fold(span, covered);
        let new_open = self.open.fold_into(span);
        let covered1 = covered + new_open.1.text();
        let now1 = new_open.1.text();
        let was1 = self.open.text();
        lemma_step(self.newline, new_open.0, covered1, covered, now1, whole, was1);
        let new_newline = self.newline.fold_into(new_open.0);
        let covered2 = covered1 + new_newline.1.text();
        let now2 = now1 + new_newline.1.text();
        let was2 = was1 + self.newline.text();
        lemma_seq_text_element(self.elements);
        lemma_step(self.elements, new_newline.0, covered2, covered, now2, whole, was2);
        let new_elements = self.elements.fold_into(new_newline.0);
        lemma_seq_text_element(new_elements.1);
        let covered3 = covered2 + new_elements.1.text();
        let now3 = now2 + new_elements.1.text();
        let was3 = was2 + self.elements.text();
        lemma_step(self.close, new_elements.0, covered3, covered, now3, whole, was3);
        let new_close = self.close.fold_into(new_elements.0);
        let covered4 = covered3 + new_close.1.text();
        let now4 = now3 + new_close.1.text();
        let was4 = was3 + self.close.text();
        let after = self.fold_into(span);
        assert(after.1.text() == now4);
        assert(self.text() == was4);
    }
}

impl Piece for MultipleOperatorErrorView {
    open spec fn fold_into(self, span: SpanView) -> (SpanView, Self) {
        let new_operators = self.operators.fold_into(span);
        (new_operators.0, MultipleOperatorErrorView { operators: new_operators.1 })
    }

    open spec fn weight(self) -> nat {
        self.operators.weight()
    }

    open spec fn text(self) -> Seq<char> {
        self.source()
    }

    open spec fn sound(self) -> bool {
        self.valid()
    }

    proof fn lemma_weight(self, span: SpanView) {
        self.operators.lemma_weight(span);
    }

    proof fn lemma_measure(self) {
        lemma_seq_tokens(self.operators);
        self.operators.lemma_measure();
    }

    proof fn lemma_fold(self, span: SpanView, covered: Seq<char>) {
        lemma_tokens_folded(self.operators, span);
        let whole = span.left_offset + covered;
        lemma_seq_tokens(self.operators);
        self.operators.lemma_fold(span, covered);
        let new_operators = self.operators.fold_into(span);
        lemma_seq_tokens(new_operators.1);
        let covered1 = covered + new_operators.1.text();
        let now1 = new_operators.1.text();
        let was1 = self.operators.text();
        let after = self.fold_into(span);
        assert(after.1.text() == now1);
        assert(self.text() == was1);
    }
}

impl Piece for MultiSegmentAppSegmentView {
    open spec fn fold_into(self, span: SpanView) -> (SpanView, Self) {
        let new_header = self.header.fold_into(span);
        let new_body = self.body.fold_into(new_header.0);
        (new_body.0, MultiSegmentAppSegmentView { header: new_header.1, body: new_body.1 })
    }

    open spec fn weight(self) -> nat {
        self.header.weight() + self.body.weight()
    }

    open spec fn text(self) -> Seq<char> {
        self.source()
    }

    open spec fn sound(self) -> bool {
        self.valid()
    }

    proof fn lemma_weight(self, span: SpanView) {
        self.header.lemma_weight(span);
        let new_header = self.header.fold_into(span);
        self.body.lemma_weight(new_header.0);
    }

    proof fn lemma_measure(self) {
        self.header.lemma_measure();
        self.body.lemma_measure();
    }

    proof fn lemma_fold(self, span: SpanView, covered: Seq<char>) {
        let whole = span.left_offset + covered;
        self.header.lemma_fold(span, covered);
        let new_header = self.header.fold_into(span);
        let covered1 = covered + new_header.1.text();
        let now1 = new_header.1.text();
        let was1 = self.header.text();
        lemma_step(self.body, new_header.0, covered1, covered, now1, whole, was1);
        let new_body = self.body.fold_into(new_header.0);
        let covered2 = covered1 + new_body.1.text();
        let now2 = now1 + new_body.1.text();
        let was2 = was1 + self.body.text();
        let after = self.fold_into(span);
        assert(after.1.text() == now2);
        assert(self.text() == was2);
    }
}

impl Piece for OperatorDelimitedTreeView {
    open spec fn fold_into(self, span: SpanView) -> (SpanView, Self) {
        let new_operator = self.operator.fold_into(span);
        let new_body = self.body.fold_into(new_operator.0);
        (new_body.0, OperatorDelimitedTreeView { operator: new_operator.1, body: new_body.1 })
    }

    open spec fn weight(self) -> nat {
        self.operator.weight() + self.body.weight()
    }

    open spec fn text(self) -> Seq<char> {
        self.source()
    }

    open spec fn sound(self) -> bool {
        self.valid()
    }

    proof fn lemma_weight(self, span: SpanView) {
        self.operator.lemma_weight(span);
        let new_operator = self.operator.fold_into(span);
        self.body.lemma_weight(new_operator.0);
    }

    proof fn lemma_measure(self) {
        self.operator.lemma_measure();
        self.body.lemma_measure();
    }

    proof fn lemma_fold(self, span: SpanView, covered: Seq<char>) {
        let whole = span.left_offset + covered;
        self.operator.lemma_fold(span, covered);
        let new_operator = self.operator.fold_into(span);
        let covered1 = covered + new_operator.1.text();
        let now1 = new_operator.1.text();
        let was1 = self.operator.text();
        lemma_step(self.body, new_operator.0, covered1, covered, now1, whole, was1);
        let new_body = self.body.fold_into(new_operator.0);
        let covered2 = covered1 + new_body.1.text();
        let now2 = now1 + new_body.1.text();
        let was2 = was1 + self.body.text();
        let after = self.fold_into(span);
        assert(after.1.text() == now2);
        assert(self.text() == was2);
    }
}

impl VariantView {
    /// The span after the fields of the variant, and the variant as it stands
    /// in the tree afterwards.
    pub open spec fn folded(self, span: SpanView) -> (SpanView, VariantView) {
        match self {
            VariantView::Invalid { error, ast } => {
                let new_ast = ast.fold_into(span);
                (new_ast.0, VariantView::Invalid { error, ast: new_ast.1 })
            },
            VariantView::BodyBlock { statements } => {
                let new_statements = statements.fold_into(span);
                (new_statements.0, VariantView::BodyBlock { statements: new_statements.1 })
            },
            VariantView::ArgumentBlockApplication { lhs, arguments } => {
                let new_lhs = lhs.fold_into(span);
                let new_arguments = arguments.fold_into(new_lhs.0);
                (
                    new_arguments.0,
                    VariantView::ArgumentBlockApplication {
                        lhs: new_lhs.1,
                        arguments: new_arguments.1,
                    },
                )
            },
            VariantView::OperatorBlockApplication { lhs, expressions, excess } => {
                let new_lhs = lhs.fold_into(span);
                let new_expressions = expressions.fold_into(new_lhs.0);
                let new_excess = excess.fold_into(new_expressions.0);
                (
                    new_excess.0,
                    VariantView::OperatorBlockApplication {
                        lhs: new_lhs.1,
                        expressions: new_expressions.1,
                        excess: new_excess.1,
                    },
                )
            },
            VariantView::Ident { token } => {
                let new_token = token.fold_into(span);
                (new_token.0, VariantView::Ident { token: new_token.1 })
            },
            VariantView::Private { keyword, body } => {
                let new_keyword = keyword.fold_into(span);
                let new_body = body.fold_into(new_keyword.0);
                (new_body.0, VariantView::Private { keyword: new_keyword.1, body: new_body.1 })
            },
            VariantView::Number { base, integer, fractional_digits } => {
                let new_base = base.fold_into(span);
                let new_integer = integer.fold_into(new_base.0);
                let new_fractional_digits = fractional_digits.fold_into(new_integer.0);
                (
                    new_fractional_digits.0,
                    VariantView::Number {
                        base: new_base.1,
                        integer: new_integer.1,
                        fractional_digits: new_fractional_digits.1,
                    },
                )
            },
            VariantView::Wildcard { token, de_bruijn_index } => {
                let new_token = token.fold_into(span);
                (new_token.0, VariantView::Wildcard { token: new_token.1, de_bruijn_index })
            },
            VariantView::SuspendedDefaultArguments { token } => {
                let new_token = token.fold_into(span);
                (new_token.0, VariantView::SuspendedDefaultArguments { token: new_token.1 })
            },
            VariantView::TextLiteral { open, newline, elements, close, closed } => {
                let new_open = open.fold_into(span);
                let new_newline = newline.fold_into(new_open.0);
                let new_elements = elements.fold_into(new_newline.0);
                let new_close = close.fold_into(new_elements.0);
                (
                    new_close.0,
                    VariantView::TextLiteral {
                        open: new_open.1,
                        newline: new_newline.1,
                        elements: new_elements.1,
                        close: new_close.1,
                        closed,
                    },
                )
            },
            VariantView::App { func, arg } => {
                let new_func = func.fold_into(span);
                let new_arg = arg.fold_into(new_func.0);
                (new_arg.0, VariantView::App { func: new_func.1, arg: new_arg.1 })
            },
            VariantView::NamedApp { func, open, name, equals, arg, close } => {
                let new_func = func.fold_into(span);
                let new_open = open.fold_into(new_func.0);
                let new_name = name.fold_into(new_open.0);
                let new_equals = equals.fold_into(new_name.0);
                let new_arg = arg.fold_into(new_equals.0);
                let new_close = close.fold_into(new_arg.0);
                (
                    new_close.0,
                    VariantView::NamedApp {
                        func: new_func.1,
                        open: new_open.1,
                        name: new_name.1,
                        equals: new_equals.1,
                        arg: new_arg.1,
                        close: new_close.1,
                    },
                )
            },
            VariantView::OprApp { lhs, opr, rhs } => {
                let new_lhs = lhs.fold_into(span);
                let new_opr = opr.fold_into(new_lhs.0);
                let new_rhs = rhs.fold_into(new_opr.0);
                (new_rhs.0, VariantView::OprApp { lhs: new_lhs.1, opr: new_opr.1, rhs: new_rhs.1 })
            },
            VariantView::UnaryOprApp { opr, rhs } => {
                let new_opr = opr.fold_into(span);
                let new_rhs = rhs.fold_into(new_opr.0);
                (new_rhs.0, VariantView::UnaryOprApp { opr: new_opr.1, rhs: new_rhs.1 })
            },
            VariantView::AutoscopedIdentifier { opr, ident } => {
                let new_opr = opr.fold_into(span);
                let new_ident = ident.fold_into(new_opr.0);
                (
                    new_ident.0,
                    VariantView::AutoscopedIdentifier { opr: new_opr.1, ident: new_ident.1 },
                )
            },
            VariantView::OprSectionBoundary { arguments, ast } => {
                let new_ast = ast.fold_into(span);
                (new_ast.0, VariantView::OprSectionBoundary { arguments, ast: new_ast.1 })
            },
            VariantView::TemplateFunction { arguments, ast } => {
                let new_ast = ast.fold_into(span);
                (new_ast.0, VariantView::TemplateFunction { arguments, ast: new_ast.1 })
            },
            VariantView::MultiSegmentApp { segments } => {
                let new_segments = segments.fold_into(span);
                (new_segments.0, VariantView::MultiSegmentApp { segments: new_segments.1 })
            },
            VariantView::TypeDef { keyword, name, params, body } => {
                let new_keyword = keyword.fold_into(span);
                let new_name = name.fold_into(new_keyword.0);
                let new_params = params.fold_into(new_name.0);
                let new_body = body.fold_into(new_params.0);
                (
                    new_body.0,
                    VariantView::TypeDef {
                        keyword: new_keyword.1,
                        name: new_name.1,
                        params: new_params.1,
                        body: new_body.1,
                    },
                )
            },
            VariantView::Assignment { pattern, equals, expr } => {
                let new_pattern = pattern.fold_into(span);
                let new_equals = equals.fold_into(new_pattern.0);
                let new_expr = expr.fold_into(new_equals.0);
                (
                    new_expr.0,
                    VariantView::Assignment {
                        pattern: new_pattern.1,
                        equals: new_equals.1,
                        expr: new_expr.1,
                    },
                )
            },
            VariantView::Function { name, args, returns_, equals, body } => {
                let new_name = name.fold_into(span);
                let new_args = args.fold_into(new_name.0);
                let new_returns_ = returns_.fold_into(new_args.0);
                let new_equals = equals.fold_into(new_returns_.0);
                let new_body = body.fold_into(new_equals.0);
                (
                    new_body.0,
                    VariantView::Function {
                        name: new_name.1,
                        args: new_args.1,
                        returns_: new_returns_.1,
                        equals: new_equals.1,
                        body: new_body.1,
                    },
                )
            },
            VariantView::ForeignFunction { foreign, language, name, args, equals, body } => {
                let new_foreign = foreign.fold_into(span);
                let new_language = language.fold_into(new_foreign.0);
                let new_name = name.fold_into(new_language.0);
                let new_args = args.fold_into(new_name.0);
                let new_equals = equals.fold_into(new_args.0);
                let new_body = body.fold_into(new_equals.0);
                (
                    new_body.0,
                    VariantView::ForeignFunction {
                        foreign: new_foreign.1,
                        language: new_language.1,
                        name: new_name.1,
                        args: new_args.1,
                        equals: new_equals.1,
                        body: new_body.1,
                    },
                )
            },
            VariantView::Import { polyglot, from, import, all, as_, hiding } => {
                let new_polyglot = polyglot.fold_into(span);
                let new_from = from.fold_into(new_polyglot.0);
                let new_import = import.fold_into(new_from.0);
                let new_all = all.fold_into(new_import.0);
                let new_as_ = as_.fold_into(new_all.0);
                let new_hiding = hiding.fold_into(new_as_.0);
                (
                    new_hiding.0,
                    VariantView::Import {
                        polyglot: new_polyglot.1,
                        from: new_from.1,
                        import: new_import.1,
                        all: new_all.1,
                        as_: new_as_.1,
                        hiding: new_hiding.1,
                    },
                )
            },
            VariantView::Export { from, export, all, as_, hiding } => {
                let new_from = from.fold_into(span);
                let new_export = export.fold_into(new_from.0);
                let new_all = all.fold_into(new_export.0);
                let new_as_ = as_.fold_into(new_all.0);
                let new_hiding = hiding.fold_into(new_as_.0);
                (
                    new_hiding.0,
                    VariantView::Export {
                        from: new_from.1,
                        export: new_export.1,
                        all: new_all.1,
                        as_: new_as_.1,
                        hiding: new_hiding.1,
                    },
                )
            },
            VariantView::Group { open, body, close } => {
                let new_open = open.fold_into(span);
                let new_body = body.fold_into(new_open.0);
                let new_close = close.fold_into(new_body.0);
                (
                    new_close.0,
                    VariantView::Group { open: new_open.1, body: new_body.1, close: new_close.1 },
                )
            },
            VariantView::TypeSignature { variable, operator, type_ } => {
                let new_variable = variable.fold_into(span);
                let new_operator = operator.fold_into(new_variable.0);
                let new_type_ = type_.fold_into(new_operator.0);
                (
                    new_type_.0,
                    VariantView::TypeSignature {
                        variable: new_variable.1,
                        operator: new_operator.1,
                        type_: new_type_.1,
                    },
                )
            },
            VariantView::TypeAnnotated { expression, operator, type_ } => {
                let new_expression = expression.fold_into(span);
                let new_operator = operator.fold_into(new_expression.0);
                let new_type_ = type_.fold_into(new_operator.0);
                (
                    new_type_.0,
                    VariantView::TypeAnnotated {
                        expression: new_expression.1,
                        operator: new_operator.1,
                        type_: new_type_.1,
                    },
                )
            },
            VariantView::CaseOf { case, expression, of, cases } => {
                let new_case = case.fold_into(span);
                let new_expression = expression.fold_into(new_case.0);
                let new_of = of.fold_into(new_expression.0);
                let new_cases = cases.fold_into(new_of.0);
                (
                    new_cases.0,
                    VariantView::CaseOf {
                        case: new_case.1,
                        expression: new_expression.1,
                        of: new_of.1,
                        cases: new_cases.1,
                    },
                )
            },
            VariantView::Lambda { operator, arrow } => {
                let new_operator = operator.fold_into(span);
                let new_arrow = arrow.fold_into(new_operator.0);
                (new_arrow.0, VariantView::Lambda { operator: new_operator.1, arrow: new_arrow.1 })
            },
            VariantView::Array { left, first, rest, right } => {
                let new_left = left.fold_into(span);
                let new_first = first.fold_into(new_left.0);
                let new_rest = rest.fold_into(new_first.0);
                let new_right = right.fold_into(new_rest.0);
                (
                    new_right.0,
                    VariantView::Array {
                        left: new_left.1,
                        first: new_first.1,
                        rest: new_rest.1,
                        right: new_right.1,
                    },
                )
            },
            VariantView::Tuple { left, first, rest, right } => {
                let new_left = left.fold_into(span);
                let new_first = first.fold_into(new_left.0);
                let new_rest = rest.fold_into(new_first.0);
                let new_right = right.fold_into(new_rest.0);
                (
                    new_right.0,
                    VariantView::Tuple {
                        left: new_left.1,
                        first: new_first.1,
                        rest: new_rest.1,
                        right: new_right.1,
                    },
                )
            },
            VariantView::Annotated { token, annotation, argument, newlines, expression } => {
                let new_token = token.fold_into(span);
                let new_annotation = annotation.fold_into(new_token.0);
                let new_argument = argument.fold_into(new_annotation.0);
                let new_newlines = newlines.fold_into(new_argument.0);
                let new_expression = expression.fold_into(new_newlines.0);
                (
                    new_expression.0,
                    VariantView::Annotated {
                        token: new_token.1,
                        annotation: new_annotation.1,
                        argument: new_argument.1,
                        newlines: new_newlines.1,
                        expression: new_expression.1,
                    },
                )
            },
            VariantView::AnnotatedBuiltin { token, annotation, newlines, expression } => {
                let new_token = token.fold_into(span);
                let new_annotation = annotation.fold_into(new_token.0);
                let new_newlines = newlines.fold_into(new_annotation.0);
                let new_expression = expression.fold_into(new_newlines.0);
                (
                    new_expression.0,
                    VariantView::AnnotatedBuiltin {
                        token: new_token.1,
                        annotation: new_annotation.1,
                        newlines: new_newlines.1,
                        expression: new_expression.1,
                    },
                )
            },
            VariantView::Documented { documentation, expression } => {
                let new_documentation = documentation.fold_into(span);
                let new_expression = expression.fold_into(new_documentation.0);
                (
                    new_expression.0,
                    VariantView::Documented {
                        documentation: new_documentation.1,
                        expression: new_expression.1,
                    },
                )
            },
            VariantView::ConstructorDefinition { constructor, arguments, block } => {
                let new_constructor = constructor.fold_into(span);
                let new_arguments = arguments.fold_into(new_constructor.0);
                let new_block = block.fold_into(new_arguments.0);
                (
                    new_block.0,
                    VariantView::ConstructorDefinition {
                        constructor: new_constructor.1,
                        arguments: new_arguments.1,
                        block: new_block.1,
                    },
                )
            },
        }
    }
}

/// What it means that folding `variant` into a span that covers the text
/// `covered` loses nothing.
pub open spec fn variant_folds_well(
    variant: VariantView,
    span: SpanView,
    covered: Seq<char>,
) -> bool {
    let after = variant.folded(span);
    &&& after.1.valid()
    &&& after.0.code_length == covered.len() + after.1.source().len()
    &&& after.0.left_offset + (covered + after.1.source()) == (span.left_offset + covered)
        + variant.source()
}

/// Folding the fields of `Invalid` into a span loses no text.
proof fn lemma_fold_invalid(error: ErrorView, ast: TreeView, span: SpanView, covered: Seq<char>)
    requires
        (VariantView::Invalid { error, ast }).valid(),
        span.code_length == covered.len(),
    ensures
        variant_folds_well(VariantView::Invalid { error, ast }, span, covered),
{
    let whole_node = VariantView::Invalid { error, ast };
    let whole = span.left_offset + covered;
    ast.lemma_fold(span, covered);
    let new_ast = ast.fold_into(span);
    let covered1 = covered + new_ast.1.text();
    let now1 = new_ast.1.text();
    let was1 = ast.text();
    let after = whole_node.folded(span);
    assert(after.1.source() == now1);
    assert(whole_node.source() == was1);
}

/// Folding the fields of `BodyBlock` into a span loses no text.
proof fn lemma_fold_body_block(statements: Seq<LineView>, span: SpanView, covered: Seq<char>)
    requires
        (VariantView::BodyBlock { statements }).valid(),
        span.code_length == covered.len(),
    ensures
        variant_folds_well(VariantView::BodyBlock { statements }, span, covered),
{
    let whole_node = VariantView::BodyBlock { statements };
    let whole = span.left_offset + covered;
    lemma_seq_line(statements);
    statements.lemma_fold(span, covered);
    let new_statements = statements.fold_into(span);
    lemma_seq_line(new_statements.1);
    let covered1 = covered + new_statements.1.text();
    let now1 = new_statements.1.text();
    let was1 = statements.text();
    let after = whole_node.folded(span);
    assert(after.1.source() == now1);
    assert(whole_node.source() == was1);
}

/// Folding the fields of `ArgumentBlockApplication` into a span loses no text.
proof fn lemma_fold_argument_block_application(
    lhs: Option<TreeView>,
    arguments: Seq<LineView>,
    span: SpanView,
    covered: Seq<char>,
)
    requires
        (VariantView::ArgumentBlockApplication { lhs, arguments }).valid(),
        span.code_length == covered.len(),
    ensures
        variant_folds_well(VariantView::ArgumentBlockApplication { lhs, arguments }, span, covered),
{
    let whole_node = VariantView::ArgumentBlockApplication { lhs, arguments };
    let whole = span.left_offset + covered;
    lhs.lemma_fold(span, covered);
    let new_lhs = lhs.fold_into(span);
    let covered1 = covered + new_lhs.1.text();
    let now1 = new_lhs.1.text();
    let was1 = lhs.text();
    lemma_seq_line(arguments);
    lemma_step(arguments, new_lhs.0, covered1, covered, now1, whole, was1);
    let new_arguments = arguments.fold_into(new_lhs.0);
    lemma_seq_line(new_arguments.1);
    let covered2 = covered1 + new_arguments.1.text();
    let now2 = now1 + new_arguments.1.text();
    let was2 = was1 + arguments.text();
    let after = whole_node.folded(span);
    assert(after.1.source() == now2);
    assert(whole_node.source() == was2);
}

/// Folding the fields of `OperatorBlockApplication` into a span loses no text.
proof fn lemma_fold_operator_block_application(
    lhs: Option<TreeView>,
    expressions: Seq<OperatorLineView>,
    excess: Seq<LineView>,
    span: SpanView,
    covered: Seq<char>,
)
    requires
        (VariantView::OperatorBlockApplication { lhs, expressions, excess }).valid(),
        span.code_length == covered.len(),
    ensures
        variant_folds_well(
            VariantView::OperatorBlockApplication { lhs, expressions, excess },
            span,
            covered,
        ),
{
    let whole_node = VariantView::OperatorBlockApplication { lhs, expressions, excess };
    let whole = span.left_offset + covered;
    lhs.lemma_fold(span, covered);
    let new_lhs = lhs.fold_into(span);
    let covered1 = covered + new_lhs.1.text();
    let now1 = new_lhs.1.text();
    let was1 = lhs.text();
    lemma_seq_operator_line(expressions);
    lemma_step(expressions, new_lhs.0, covered1, covered, now1, whole, was1);
    let new_expressions = expressions.fold_into(new_lhs.0);
    lemma_seq_operator_line(new_expressions.1);
    let covered2 = covered1 + new_expressions.1.text();
    let now2 = now1 + new_expressions.1.text();
    let was2 = was1 + expressions.text();
    lemma_seq_line(excess);
    lemma_step(excess, new_expressions.0, covered2, covered, now2, whole, was2);
    let new_excess = excess.fold_into(new_expressions.0);
    lemma_seq_line(new_excess.1);
    let covered3 = covered2 + new_excess.1.text();
    let now3 = now2 + new_excess.1.text();
    let was3 = was2 + excess.text();
    let after = whole_node.folded(span);
    assert(after.1.source() == now3);
    assert(whole_node.source() == was3);
}

/// Folding the fields of `Ident` into a span loses no text.
proof fn lemma_fold_ident(token: TokenView<token::Ident>, span: SpanView, covered: Seq<char>)
    requires
        (VariantView::Ident { token }).valid(),
        span.code_length == covered.len(),
    ensures
        variant_folds_well(VariantView::Ident { token }, span, covered),
{
    let whole_node = VariantView::Ident { token };
    let whole = span.left_offset + covered;
    token.lemma_fold(span, covered);
    let new_token = token.fold_into(span);
    let covered1 = covered + new_token.1.text();
    let now1 = new_token.1.text();
    let was1 = token.text();
    let after = whole_node.folded(span);
    assert(after.1.source() == now1);
    assert(whole_node.source() == was1);
}

/// Folding the fields of `Private` into a span loses no text.
proof fn lemma_fold_private(
    keyword: TokenView<token::Private>,
    body: Option<TreeView>,
    span: SpanView,
    covered: Seq<char>,
)
    requires
        (VariantView::Private { keyword, body }).valid(),
        span.code_length == covered.len(),
    ensures
        variant_folds_well(VariantView::Private { keyword, body }, span, covered),
{
    let whole_node = VariantView::Private { keyword, body };
    let whole = span.left_offset + covered;
    keyword.lemma_fold(span, covered);
    let new_keyword = keyword.fold_into(span);
    let covered1 = covered + new_keyword.1.text();
    let now1 = new_keyword.1.text();
    let was1 = keyword.text();
    lemma_step(body, new_keyword.0, covered1, covered, now1, whole, was1);
    let new_body = body.fold_into(new_keyword.0);
    let covered2 = covered1 + new_body.1.text();
    let now2 = now1 + new_body.1.text();
    let was2 = was1 + body.text();
    let after = whole_node.folded(span);
    assert(after.1.source() == now2);
    assert(whole_node.source() == was2);
}

/// Folding the fields of `Number` into a span loses no text.
proof fn lemma_fold_number(
    base: Option<TokenView<token::NumberBase>>,
    integer: Option<TokenView<token::Digits>>,
    fractional_digits: Option<FractionalDigitsView>,
    span: SpanView,
    covered: Seq<char>,
)
    requires
        (VariantView::Number { base, integer, fractional_digits }).valid(),
        span.code_length == covered.len(),
    ensures
        variant_folds_well(VariantView::Number { base, integer, fractional_digits }, span, covered),
{
    let whole_node = VariantView::Number { base, integer, fractional_digits };
    let whole = span.left_offset + covered;
    base.lemma_fold(span, covered);
    let new_base = base.fold_into(span);
    let covered1 = covered + new_base.1.text();
    let now1 = new_base.1.text();
    let was1 = base.text();
    lemma_step(integer, new_base.0, covered1, covered, now1, whole, was1);
    let new_integer = integer.fold_into(new_base.0);
    let covered2 = covered1 + new_integer.1.text();
    let now2 = now1 + new_integer.1.text();
    let was2 = was1 + integer.text();
    lemma_step(fractional_digits, new_integer.0, covered2, covered, now2, whole, was2);
    let new_fractional_digits = fractional_digits.fold_into(new_integer.0);
    let covered3 = covered2 + new_fractional_digits.1.text();
    let now3 = now2 + new_fractional_digits.1.text();
    let was3 = was2 + fractional_digits.text();
    let after = whole_node.folded(span);
    assert(after.1.source() == now3);
    assert(whole_node.source() == was3);
}

/// Folding the fields of `Wildcard` into a span loses no text.
proof fn lemma_fold_wildcard(
    token: TokenView<token::Wildcard>,
    de_bruijn_index: Option<u32>,
    span: SpanView,
    covered: Seq<char>,
)
    requires
        (VariantView::Wildcard { token, de_bruijn_index }).valid(),
        span.code_length == covered.len(),
    ensures
        variant_folds_well(VariantView::Wildcard { token, de_bruijn_index }, span, covered),
{
    let whole_node = VariantView::Wildcard { token, de_bruijn_index };
    let whole = span.left_offset + covered;
    token.lemma_fold(span, covered);
    let new_token = token.fold_into(span);
    let covered1 = covered + new_token.1.text();
    let now1 = new_token.1.text();
    let was1 = token.text();
    let after = whole_node.folded(span);
    assert(after.1.source() == now1);
    assert(whole_node.source() == was1);
}

/// Folding the fields of `SuspendedDefaultArguments` into a span loses no text.
proof fn lemma_fold_suspended_default_arguments(
    token: TokenView<token::SuspendedDefaultArguments>,
    span: SpanView,
    covered: Seq<char>,
)
    requires
        (VariantView::SuspendedDefaultArguments { token }).valid(),
        span.code_length == covered.len(),
    ensures
        variant_folds_well(VariantView::SuspendedDefaultArguments { token }, span, covered),
{
    let whole_node = VariantView::SuspendedDefaultArguments { token };
    let whole = span.left_offset + covered;
    token.lemma_fold(span, covered);
    let new_token = token.fold_into(span);
    let covered1 = covered + new_token.1.text();
    let now1 = new_token.1.text();
    let was1 = token.text();
    let after = whole_node.folded(span);
    assert(after.1.source() == now1);
    assert(whole_node.source() == was1);
}

/// Folding the fields of `TextLiteral` into a span loses no text.
proof fn lemma_fold_text_literal(
    open: Option<TokenView<token::TextStart>>,
    newline: Option<TokenView<token::Newline>>,
    elements: Seq<TextElementView>,
    close: Option<TokenView<token::TextEnd>>,
    closed: bool,
    span: SpanView,
    covered: Seq<char>,
)
    requires
        (VariantView::TextLiteral { open, newline, elements, close, closed }).valid(),
        span.code_length == covered.len(),
    ensures
        variant_folds_well(
            VariantView::TextLiteral { open, newline, elements, close, closed },
            span,
            covered,
        ),
{
    let whole_node = VariantView::TextLiteral { open, newline, elements, close, closed };
    let whole = span.left_offset + covered;
    open.lemma_fold(span, covered);
    let new_open = open.fold_into(span);
    let covered1 = covered + new_open.1.text();
    let now1 = new_open.1.text();
    let was1 = open.text();
    lemma_step(newline, new_open.0, covered1, covered, now1, whole, was1);
    let new_newline = newline.fold_into(new_open.0);
    let covered2 = covered1 + new_newline.1.text();
    let now2 = now1 + new_newline.1.text();
    let was2 = was1 + newline.text();
    lemma_seq_text_element(elements);
    lemma_step(elements, new_newline.0, covered2, covered, now2, whole, was2);
    let new_elements = elements.fold_into(new_newline.0);
    lemma_seq_text_element(new_elements.1);
    let covered3 = covered2 + new_elements.1.text();
    let now3 = now2 + new_elements.1.text();
    let was3 = was2 + elements.text();
    lemma_step(close, new_elements.0, covered3, covered, now3, whole, was3);
    let new_close = close.fold_into(new_elements.0);
    let covered4 = covered3 + new_close.1.text();
    let now4 = now3 + new_close.1.text();
    let was4 = was3 + close.text();
    let after = whole_node.folded(span);
    assert(after.1.source() == now4);
    assert(whole_node.source() == was4);
}

/// Folding the fields of `App` into a span loses no text.
proof fn lemma_fold_app(func: TreeView, arg: TreeView, span: SpanView, covered: Seq<char>)
    requires
        (VariantView::App { func, arg }).valid(),
        span.code_length == covered.len(),
    ensures
        variant_folds_well(VariantView::App { func, arg }, span, covered),
{
    let whole_node = VariantView::App { func, arg };
    let whole = span.left_offset + covered;
    func.lemma_fold(span, covered);
    let new_func = func.fold_into(span);
    let covered1 = covered + new_func.1.text();
    let now1 = new_func.1.text();
    let was1 = func.text();
    lemma_step(arg, new_func.0, covered1, covered, now1, whole, was1);
    let new_arg = arg.fold_into(new_func.0);
    let covered2 = covered1 + new_arg.1.text();
    let now2 = now1 + new_arg.1.text();
    let was2 = was1 + arg.text();
    let after = whole_node.folded(span);
    assert(after.1.source() == now2);
    assert(whole_node.source() == was2);
}

/// Folding the fields of `NamedApp` into a span loses no text.
proof fn lemma_fold_named_app(
    func: TreeView,
    open: Option<TokenView<token::OpenSymbol>>,
    name: TokenView<token::Ident>,
    equals: TokenView<token::Operator>,
    arg: TreeView,
    close: Option<TokenView<token::CloseSymbol>>,
    span: SpanView,
    covered: Seq<char>,
)
    requires
        (VariantView::NamedApp { func, open, name, equals, arg, close }).valid(),
        span.code_length == covered.len(),
    ensures
        variant_folds_well(
            VariantView::NamedApp { func, open, name, equals, arg, close },
            span,
            covered,
        ),
{
    let whole_node = VariantView::NamedApp { func, open, name, equals, arg, close };
    let whole = span.left_offset + covered;
    func.lemma_fold(span, covered);
    let new_func = func.fold_into(span);
    let covered1 = covered + new_func.1.text();
    let now1 = new_func.1.text();
    let was1 = func.text();
    lemma_step(open, new_func.0, covered1, covered, now1, whole, was1);
    let new_open = open.fold_into(new_func.0);
    let covered2 = covered1 + new_open.1.text();
    let now2 = now1 + new_open.1.text();
    let was2 = was1 + open.text();
    lemma_step(name, new_open.0, covered2, covered, now2, whole, was2);
    let new_name = name.fold_into(new_open.0);
    let covered3 = covered2 + new_name.1.text();
    let now3 = now2 + new_name.1.text();
    let was3 = was2 + name.text();
    lemma_step(equals, new_name.0, covered3, covered, now3, whole, was3);
    let new_equals = equals.fold_into(new_name.0);
    let covered4 = covered3 + new_equals.1.text();
    let now4 = now3 + new_equals.1.text();
    let was4 = was3 + equals.text();
    lemma_step(arg, new_equals.0, covered4, covered, now4, whole, was4);
    let new_arg = arg.fold_into(new_equals.0);
    let covered5 = covered4 + new_arg.1.text();
    let now5 = now4 + new_arg.1.text();
    let was5 = was4 + arg.text();
    lemma_step(close, new_arg.0, covered5, covered, now5, whole, was5);
    let new_close = close.fold_into(new_arg.0);
    let covered6 = covered5 + new_close.1.text();
    let now6 = now5 + new_close.1.text();
    let was6 = was5 + close.text();
    let after = whole_node.folded(span);
    assert(after.1.source() == now6);
    assert(whole_node.source() == was6);
}

/// Folding the fields of `OprApp` into a span loses no text.
proof fn lemma_fold_opr_app(
    lhs: Option<TreeView>,
    opr: OperatorOrErrorView,
    rhs: Option<TreeView>,
    span: SpanView,
    covered: Seq<char>,
)
    requires
        (VariantView::OprApp { lhs, opr, rhs }).valid(),
        span.code_length == covered.len(),
    ensures
        variant_folds_well(VariantView::OprApp { lhs, opr, rhs }, span, covered),
{
    let whole_node = VariantView::OprApp { lhs, opr, rhs };
    let whole = span.left_offset + covered;
    lhs.lemma_fold(span, covered);
    let new_lhs = lhs.fold_into(span);
    let covered1 = covered + new_lhs.1.text();
    let now1 = new_lhs.1.text();
    let was1 = lhs.text();
    lemma_step(opr, new_lhs.0, covered1, covered, now1, whole, was1);
    let new_opr = opr.fold_into(new_lhs.0);
    let covered2 = covered1 + new_opr.1.text();
    let now2 = now1 + new_opr.1.text();
    let was2 = was1 + opr.text();
    lemma_step(rhs, new_opr.0, covered2, covered, now2, whole, was2);
    let new_rhs = rhs.fold_into(new_opr.0);
    let covered3 = covered2 + new_rhs.1.text();
    let now3 = now2 + new_rhs.1.text();
    let was3 = was2 + rhs.text();
    let after = whole_node.folded(span);
    assert(after.1.source() == now3);
    assert(whole_node.source() == was3);
}

/// Folding the fields of `UnaryOprApp` into a span loses no text.
proof fn lemma_fold_unary_opr_app(
    opr: TokenView<token::Operator>,
    rhs: Option<TreeView>,
    span: SpanView,
    covered: Seq<char>,
)
    requires
        (VariantView::UnaryOprApp { opr, rhs }).valid(),
        span.code_length == covered.len(),
    ensures
        variant_folds_well(VariantView::UnaryOprApp { opr, rhs }, span, covered),
{
    let whole_node = VariantView::UnaryOprApp { opr, rhs };
    let whole = span.left_offset + covered;
    opr.lemma_fold(span, covered);
    let new_opr = opr.fold_into(span);
    let covered1 = covered + new_opr.1.text();
    let now1 = new_opr.1.text();
    let was1 = opr.text();
    lemma_step(rhs, new_opr.0, covered1, covered, now1, whole, was1);
    let new_rhs = rhs.fold_into(new_opr.0);
    let covered2 = covered1 + new_rhs.1.text();
    let now2 = now1 + new_rhs.1.text();
    let was2 = was1 + rhs.text();
    let after = whole_node.folded(span);
    assert(after.1.source() == now2);
    assert(whole_node.source() == was2);
}

/// Folding the fields of `AutoscopedIdentifier` into a span loses no text.
proof fn lemma_fold_autoscoped_identifier(
    opr: TokenView<token::Operator>,
    ident: TokenView<token::Ident>,
    span: SpanView,
    covered: Seq<char>,
)
    requires
        (VariantView::AutoscopedIdentifier { opr, ident }).valid(),
        span.code_length == covered.len(),
    ensures
        variant_folds_well(VariantView::AutoscopedIdentifier { opr, ident }, span, covered),
{
    let whole_node = VariantView::AutoscopedIdentifier { opr, ident };
    let whole = span.left_offset + covered;
    opr.lemma_fold(span, covered);
    let new_opr = opr.fold_into(span);
    let covered1 = covered + new_opr.1.text();
    let now1 = new_opr.1.text();
    let was1 = opr.text();
    lemma_step(ident, new_opr.0, covered1, covered, now1, whole, was1);
    let new_ident = ident.fold_into(new_opr.0);
    let covered2 = covered1 + new_ident.1.text();
    let now2 = now1 + new_ident.1.text();
    let was2 = was1 + ident.text();
    let after = whole_node.folded(span);
    assert(after.1.source() == now2);
    assert(whole_node.source() == was2);
}

/// Folding the fields of `OprSectionBoundary` into a span loses no text.
proof fn lemma_fold_opr_section_boundary(
    arguments: u32,
    ast: TreeView,
    span: SpanView,
    covered: Seq<char>,
)
    requires
        (VariantView::OprSectionBoundary { arguments, ast }).valid(),
        span.code_length == covered.len(),
    ensures
        variant_folds_well(VariantView::OprSectionBoundary { arguments, ast }, span, covered),
{
    let whole_node = VariantView::OprSectionBoundary { arguments, ast };
    let whole = span.left_offset + covered;
    ast.lemma_fold(span, covered);
    let new_ast = ast.fold_into(span);
    let covered1 = covered + new_ast.1.text();
    let now1 = new_ast.1.text();
    let was1 = ast.text();
    let after = whole_node.folded(span);
    assert(after.1.source() == now1);
    assert(whole_node.source() == was1);
}

/// Folding the fields of `TemplateFunction` into a span loses no text.
proof fn lemma_fold_template_function(
    arguments: u32,
    ast: TreeView,
    span: SpanView,
    covered: Seq<char>,
)
    requires
        (VariantView::TemplateFunction { arguments, ast }).valid(),
        span.code_length == covered.len(),
    ensures
        variant_folds_well(VariantView::TemplateFunction { arguments, ast }, span, covered),
{
    let whole_node = VariantView::TemplateFunction { arguments, ast };
    let whole = span.left_offset + covered;
    ast.lemma_fold(span, covered);
    let new_ast = ast.fold_into(span);
    let covered1 = covered + new_ast.1.text();
    let now1 = new_ast.1.text();
    let was1 = ast.text();
    let after = whole_node.folded(span);
    assert(after.1.source() == now1);
    assert(whole_node.source() == was1);
}

/// Folding the fields of `MultiSegmentApp` into a span loses no text.
proof fn lemma_fold_multi_segment_app(
    segments: Seq<MultiSegmentAppSegmentView>,
    span: SpanView,
    covered: Seq<char>,
)
    requires
        (VariantView::MultiSegmentApp { segments }).valid(),
        span.code_length == covered.len(),
    ensures
        variant_folds_well(VariantView::MultiSegmentApp { segments }, span, covered),
{
    let whole_node = VariantView::MultiSegmentApp { segments };
    let whole = span.left_offset + covered;
    lemma_seq_multi_segment_app_segment(segments);
    segments.lemma_fold(span, covered);
    let new_segments = segments.fold_into(span);
    lemma_seq_multi_segment_app_segment(new_segments.1);
    let covered1 = covered + new_segments.1.text();
    let now1 = new_segments.1.text();
    let was1 = segments.text();
    let after = whole_node.folded(span);
    assert(after.1.source() == now1);
    assert(whole_node.source() == was1);
}

/// Folding the fields of `TypeDef` into a span loses no text.
proof fn lemma_fold_type_def(
    keyword: TokenView<token::Ident>,
    name: TokenView<token::Ident>,
    params: Seq<ArgumentDefinitionView>,
    body: Seq<LineView>,
    span: SpanView,
    covered: Seq<char>,
)
    requires
        (VariantView::TypeDef { keyword, name, params, body }).valid(),
        span.code_length == covered.len(),
    ensures
        variant_folds_well(VariantView::TypeDef { keyword, name, params, body }, span, covered),
{
    let whole_node = VariantView::TypeDef { keyword, name, params, body };
    let whole = span.left_offset + covered;
    keyword.lemma_fold(span, covered);
    let new_keyword = keyword.fold_into(span);
    let covered1 = covered + new_keyword.1.text();
    let now1 = new_keyword.1.text();
    let was1 = keyword.text();
    lemma_step(name, new_keyword.0, covered1, covered, now1, whole, was1);
    let new_name = name.fold_into(new_keyword.0);
    let covered2 = covered1 + new_name.1.text();
    let now2 = now1 + new_name.1.text();
    let was2 = was1 + name.text();
    lemma_seq_argument_definition(params);
    lemma_step(params, new_name.0, covered2, covered, now2, whole, was2);
    let new_params = params.fold_into(new_name.0);
    lemma_seq_argument_definition(new_params.1);
    let covered3 = covered2 + new_params.1.text();
    let now3 = now2 + new_params.1.text();
    let was3 = was2 + params.text();
    lemma_seq_line(body);
    lemma_step(body, new_params.0, covered3, covered, now3, whole, was3);
    let new_body = body.fold_into(new_params.0);
    lemma_seq_line(new_body.1);
    let covered4 = covered3 + new_body.1.text();
    let now4 = now3 + new_body.1.text();
    let was4 = was3 + body.text();
    let after = whole_node.folded(span);
    assert(after.1.source() == now4);
    assert(whole_node.source() == was4);
}

/// Folding the fields of `Assignment` into a span loses no text.
proof fn lemma_fold_assignment(
    pattern: TreeView,
    equals: TokenView<token::Operator>,
    expr: TreeView,
    span: SpanView,
    covered: Seq<char>,
)
    requires
        (VariantView::Assignment { pattern, equals, expr }).valid(),
        span.code_length == covered.len(),
    ensures
        variant_folds_well(VariantView::Assignment { pattern, equals, expr }, span, covered),
{
    let whole_node = VariantView::Assignment { pattern, equals, expr };
    let whole = span.left_offset + covered;
    pattern.lemma_fold(span, covered);
    let new_pattern = pattern.fold_into(span);
    let covered1 = covered + new_pattern.1.text();
    let now1 = new_pattern.1.text();
    let was1 = pattern.text();
    lemma_step(equals, new_pattern.0, covered1, covered, now1, whole, was1);
    let new_equals = equals.fold_into(new_pattern.0);
    let covered2 = covered1 + new_equals.1.text();
    let now2 = now1 + new_equals.1.text();
    let was2 = was1 + equals.text();
    lemma_step(expr, new_equals.0, covered2, covered, now2, whole, was2);
    let new_expr = expr.fold_into(new_equals.0);
    let covered3 = covered2 + new_expr.1.text();
    let now3 = now2 + new_expr.1.text();
    let was3 = was2 + expr.text();
    let after = whole_node.folded(span);
    assert(after.1.source() == now3);
    assert(whole_node.source() == was3);
}

/// Folding the fields of `Function` into a span loses no text.
proof fn lemma_fold_function(
    name: TreeView,
    args: Seq<ArgumentDefinitionView>,
    returns_: Option<ReturnSpecificationView>,
    equals: TokenView<token::Operator>,
    body: Option<TreeView>,
    span: SpanView,
    covered: Seq<char>,
)
    requires
        (VariantView::Function { name, args, returns_, equals, body }).valid(),
        span.code_length == covered.len(),
    ensures
        variant_folds_well(
            VariantView::Function { name, args, returns_, equals, body },
            span,
            covered,
        ),
{
    let whole_node = VariantView::Function { name, args, returns_, equals, body };
    let whole = span.left_offset + covered;
    name.lemma_fold(span, covered);
    let new_name = name.fold_into(span);
    let covered1 = covered + new_name.1.text();
    let now1 = new_name.1.text();
    let was1 = name.text();
    lemma_seq_argument_definition(args);
    lemma_step(args, new_name.0, covered1, covered, now1, whole, was1);
    let new_args = args.fold_into(new_name.0);
    lemma_seq_argument_definition(new_args.1);
    let covered2 = covered1 + new_args.1.text();
    let now2 = now1 + new_args.1.text();
    let was2 = was1 + args.text();
    lemma_step(returns_, new_args.0, covered2, covered, now2, whole, was2);
    let new_returns_ = returns_.fold_into(new_args.0);
    let covered3 = covered2 + new_returns_.1.text();
    let now3 = now2 + new_returns_.1.text();
    let was3 = was2 + returns_.text();
    lemma_step(equals, new_returns_.0, covered3, covered, now3, whole, was3);
    let new_equals = equals.fold_into(new_returns_.0);
    let covered4 = covered3 + new_equals.1.text();
    let now4 = now3 + new_equals.1.text();
    let was4 = was3 + equals.text();
    lemma_step(body, new_equals.0, covered4, covered, now4, whole, was4);
    let new_body = body.fold_into(new_equals.0);
    let covered5 = covered4 + new_body.1.text();
    let now5 = now4 + new_body.1.text();
    let was5 = was4 + body.text();
    let after = whole_node.folded(span);
    assert(after.1.source() == now5);
    assert(whole_node.source() == was5);
}

/// Folding the fields of `ForeignFunction` into a span loses no text.
proof fn lemma_fold_foreign_function(
    foreign: TokenView<token::Ident>,
    language: TokenView<token::Ident>,
    name: TokenView<token::Ident>,
    args: Seq<ArgumentDefinitionView>,
    equals: TokenView<token::Operator>,
    body: TreeView,
    span: SpanView,
    covered: Seq<char>,
)
    requires
        (VariantView::ForeignFunction { foreign, language, name, args, equals, body }).valid(),
        span.code_length == covered.len(),
    ensures
        variant_folds_well(
            VariantView::ForeignFunction { foreign, language, name, args, equals, body },
            span,
            covered,
        ),
{
    let whole_node = VariantView::ForeignFunction { foreign, language, name, args, equals, body };
    let whole = span.left_offset + covered;
    foreign.lemma_fold(span, covered);
    let new_foreign = foreign.fold_into(span);
    let covered1 = covered + new_foreign.1.text();
    let now1 = new_foreign.1.text();
    let was1 = foreign.text();
    lemma_step(language, new_foreign.0, covered1, covered, now1, whole, was1);
    let new_language = language.fold_into(new_foreign.0);
    let covered2 = covered1 + new_language.1.text();
    let now2 = now1 + new_language.1.text();
    let was2 = was1 + language.text();
    lemma_step(name, new_language.0, covered2, covered, now2, whole, was2);
    let new_name = name.fold_into(new_language.0);
    let covered3 = covered2 + new_name.1.text();
    let now3 = now2 + new_name.1.text();
    let was3 = was2 + name.text();
    lemma_seq_argument_definition(args);
    lemma_step(args, new_name.0, covered3, covered, now3, whole, was3);
    let new_args = args.fold_into(new_name.0);
    lemma_seq_argument_definition(new_args.1);
    let covered4 = covered3 + new_args.1.text();
    let now4 = now3 + new_args.1.text();
    let was4 = was3 + args.text();
    lemma_step(equals, new_args.0, covered4, covered, now4, whole, was4);
    let new_equals = equals.fold_into(new_args.0);
    let covered5 = covered4 + new_equals.1.text();
    let now5 = now4 + new_equals.1.text();
    let was5 = was4 + equals.text();
    lemma_step(body, new_equals.0, covered5, covered, now5, whole, was5);
    let new_body = body.fold_into(new_equals.0);
    let covered6 = covered5 + new_body.1.text();
    let now6 = now5 + new_body.1.text();
    let was6 = was5 + body.text();
    let after = whole_node.folded(span);
    assert(after.1.source() == now6);
    assert(whole_node.source() == was6);
}

/// Folding the fields of `Import` into a span loses no text.
proof fn lemma_fold_import(
    polyglot: Option<MultiSegmentAppSegmentView>,
    from: Option<MultiSegmentAppSegmentView>,
    import: MultiSegmentAppSegmentView,
    all: Option<TokenView<token::Ident>>,
    as_: Option<MultiSegmentAppSegmentView>,
    hiding: Option<MultiSegmentAppSegmentView>,
    span: SpanView,
    covered: Seq<char>,
)
    requires
        (VariantView::Import { polyglot, from, import, all, as_, hiding }).valid(),
        span.code_length == covered.len(),
    ensures
        variant_folds_well(
            VariantView::Import { polyglot, from, import, all, as_, hiding },
            span,
            covered,
        ),
{
    let whole_node = VariantView::Import { polyglot, from, import, all, as_, hiding };
    let whole = span.left_offset + covered;
    polyglot.lemma_fold(span, covered);
    let new_polyglot = polyglot.fold_into(span);
    let covered1 = covered + new_polyglot.1.text();
    let now1 = new_polyglot.1.text();
    let was1 = polyglot.text();
    lemma_step(from, new_polyglot.0, covered1, covered, now1, whole, was1);
    let new_from = from.fold_into(new_polyglot.0);
    let covered2 = covered1 + new_from.1.text();
    let now2 = now1 + new_from.1.text();
    let was2 = was1 + from.text();
    lemma_step(import, new_from.0, covered2, covered, now2, whole, was2);
    let new_import = import.fold_into(new_from.0);
    let covered3 = covered2 + new_import.1.text();
    let now3 = now2 + new_import.1.text();
    let was3 = was2 + import.text();
    lemma_step(all, new_import.0, covered3, covered, now3, whole, was3);
    let new_all = all.fold_into(new_import.0);
    let covered4 = covered3 + new_all.1.text();
    let now4 = now3 + new_all.1.text();
    let was4 = was3 + all.text();
    lemma_step(as_, new_all.0, covered4, covered, now4, whole, was4);
    let new_as_ = as_.fold_into(new_all.0);
    let covered5 = covered4 + new_as_.1.text();
    let now5 = now4 + new_as_.1.text();
    let was5 = was4 + as_.text();
    lemma_step(hiding, new_as_.0, covered5, covered, now5, whole, was5);
    let new_hiding = hiding.fold_into(new_as_.0);
    let covered6 = covered5 + new_hiding.1.text();
    let now6 = now5 + new_hiding.1.text();
    let was6 = was5 + hiding.text();
    let after = whole_node.folded(span);
    assert(after.1.source() == now6);
    assert(whole_node.source() == was6);
}

/// Folding the fields of `Export` into a span loses no text.
proof fn lemma_fold_export(
    from: Option<MultiSegmentAppSegmentView>,
    export: MultiSegmentAppSegmentView,
    all: Option<TokenView<token::Ident>>,
    as_: Option<MultiSegmentAppSegmentView>,
    hiding: Option<MultiSegmentAppSegmentView>,
    span: SpanView,
    covered: Seq<char>,
)
    requires
        (VariantView::Export { from, export, all, as_, hiding }).valid(),
        span.code_length == covered.len(),
    ensures
        variant_folds_well(VariantView::Export { from, export, all, as_, hiding }, span, covered),
{
    let whole_node = VariantView::Export { from, export, all, as_, hiding };
    let whole = span.left_offset + covered;
    from.lemma_fold(span, covered);
    let new_from = from.fold_into(span);
    let covered1 = covered + new_from.1.text();
    let now1 = new_from.1.text();
    let was1 = from.text();
    lemma_step(export, new_from.0, covered1, covered, now1, whole, was1);
    let new_export = export.fold_into(new_from.0);
    let covered2 = covered1 + new_export.1.text();
    let now2 = now1 + new_export.1.text();
    let was2 = was1 + export.text();
    lemma_step(all, new_export.0, covered2, covered, now2, whole, was2);
    let new_all = all.fold_into(new_export.0);
    let covered3 = covered2 + new_all.1.text();
    let now3 = now2 + new_all.1.text();
    let was3 = was2 + all.text();
    lemma_step(as_, new_all.0, covered3, covered, now3, whole, was3);
    let new_as_ = as_.fold_into(new_all.0);
    let covered4 = covered3 + new_as_.1.text();
    let now4 = now3 + new_as_.1.text();
    let was4 = was3 + as_.text();
    lemma_step(hiding, new_as_.0, covered4, covered, now4, whole, was4);
    let new_hiding = hiding.fold_into(new_as_.0);
    let covered5 = covered4 + new_hiding.1.text();
    let now5 = now4 + new_hiding.1.text();
    let was5 = was4 + hiding.text();
    let after = whole_node.folded(span);
    assert(after.1.source() == now5);
    assert(whole_node.source() == was5);
}

/// Folding the fields of `Group` into a span loses no text.
proof fn lemma_fold_group(
    open: Option<TokenView<token::OpenSymbol>>,
    body: Option<TreeView>,
    close: Option<TokenView<token::CloseSymbol>>,
    span: SpanView,
    covered: Seq<char>,
)
    requires
        (VariantView::Group { open, body, close }).valid(),
        span.code_length == covered.len(),
    ensures
        variant_folds_well(VariantView::Group { open, body, close }, span, covered),
{
    let whole_node = VariantView::Group { open, body, close };
    let whole = span.left_offset + covered;
    open.lemma_fold(span, covered);
    let new_open = open.fold_into(span);
    let covered1 = covered + new_open.1.text();
    let now1 = new_open.1.text();
    let was1 = open.text();
    lemma_step(body, new_open.0, covered1, covered, now1, whole, was1);
    let new_body = body.fold_into(new_open.0);
    let covered2 = covered1 + new_body.1.text();
    let now2 = now1 + new_body.1.text();
    let was2 = was1 + body.text();
    lemma_step(close, new_body.0, covered2, covered, now2, whole, was2);
    let new_close = close.fold_into(new_body.0);
    let covered3 = covered2 + new_close.1.text();
    let now3 = now2 + new_close.1.text();
    let was3 = was2 + close.text();
    let after = whole_node.folded(span);
    assert(after.1.source() == now3);
    assert(whole_node.source() == was3);
}

/// Folding the fields of `TypeSignature` into a span loses no text.
proof fn lemma_fold_type_signature(
    variable: TreeView,
    operator: TokenView<token::Operator>,
    type_: TreeView,
    span: SpanView,
    covered: Seq<char>,
)
    requires
        (VariantView::TypeSignature { variable, operator, type_ }).valid(),
        span.code_length == covered.len(),
    ensures
        variant_folds_well(VariantView::TypeSignature { variable, operator, type_ }, span, covered),
{
    let whole_node = VariantView::TypeSignature { variable, operator, type_ };
    let whole = span.left_offset + covered;
    variable.lemma_fold(span, covered);
    let new_variable = variable.fold_into(span);
    let covered1 = covered + new_variable.1.text();
    let now1 = new_variable.1.text();
    let was1 = variable.text();
    lemma_step(operator, new_variable.0, covered1, covered, now1, whole, was1);
    let new_operator = operator.fold_into(new_variable.0);
    let covered2 = covered1 + new_operator.1.text();
    let now2 = now1 + new_operator.1.text();
    let was2 = was1 + operator.text();
    lemma_step(type_, new_operator.0, covered2, covered, now2, whole, was2);
    let new_type_ = type_.fold_into(new_operator.0);
    let covered3 = covered2 + new_type_.1.text();
    let now3 = now2 + new_type_.1.text();
    let was3 = was2 + type_.text();
    let after = whole_node.folded(span);
    assert(after.1.source() == now3);
    assert(whole_node.source() == was3);
}

/// Folding the fields of `TypeAnnotated` into a span loses no text.
proof fn lemma_fold_type_annotated(
    expression: TreeView,
    operator: TokenView<token::Operator>,
    type_: TreeView,
    span: SpanView,
    covered: Seq<char>,
)
    requires
        (VariantView::TypeAnnotated { expression, operator, type_ }).valid(),
        span.code_length == covered.len(),
    ensures
        variant_folds_well(
            VariantView::TypeAnnotated { expression, operator, type_ },
            span,
            covered,
        ),
{
    let whole_node = VariantView::TypeAnnotated { expression, operator, type_ };
    let whole = span.left_offset + covered;
    expression.lemma_fold(span, covered);
    let new_expression = expression.fold_into(span);
    let covered1 = covered + new_expression.1.text();
    let now1 = new_expression.1.text();
    let was1 = expression.text();
    lemma_step(operator, new_expression.0, covered1, covered, now1, whole, was1);
    let new_operator = operator.fold_into(new_expression.0);
    let covered2 = covered1 + new_operator.1.text();
    let now2 = now1 + new_operator.1.text();
    let was2 = was1 + operator.text();
    lemma_step(type_, new_operator.0, covered2, covered, now2, whole, was2);
    let new_type_ = type_.fold_into(new_operator.0);
    let covered3 = covered2 + new_type_.1.text();
    let now3 = now2 + new_type_.1.text();
    let was3 = was2 + type_.text();
    let after = whole_node.folded(span);
    assert(after.1.source() == now3);
    assert(whole_node.source() == was3);
}

/// Folding the fields of `CaseOf` into a span loses no text.
proof fn lemma_fold_case_of(
    case: TokenView<token::Ident>,
    expression: Option<TreeView>,
    of: TokenView<token::Ident>,
    cases: Seq<CaseLineView>,
    span: SpanView,
    covered: Seq<char>,
)
    requires
        (VariantView::CaseOf { case, expression, of, cases }).valid(),
        span.code_length == covered.len(),
    ensures
        variant_folds_well(VariantView::CaseOf { case, expression, of, cases }, span, covered),
{
    let whole_node = VariantView::CaseOf { case, expression, of, cases };
    let whole = span.left_offset + covered;
    case.lemma_fold(span, covered);
    let new_case = case.fold_into(span);
    let covered1 = covered + new_case.1.text();
    let now1 = new_case.1.text();
    let was1 = case.text();
    lemma_step(expression, new_case.0, covered1, covered, now1, whole, was1);
    let new_expression = expression.fold_into(new_case.0);
    let covered2 = covered1 + new_expression.1.text();
    let now2 = now1 + new_expression.1.text();
    let was2 = was1 + expression.text();
    lemma_step(of, new_expression.0, covered2, covered, now2, whole, was2);
    let new_of = of.fold_into(new_expression.0);
    let covered3 = covered2 + new_of.1.text();
    let now3 = now2 + new_of.1.text();
    let was3 = was2 + of.text();
    lemma_seq_case_line(cases);
    lemma_step(cases, new_of.0, covered3, covered, now3, whole, was3);
    let new_cases = cases.fold_into(new_of.0);
    lemma_seq_case_line(new_cases.1);
    let covered4 = covered3 + new_cases.1.text();
    let now4 = now3 + new_cases.1.text();
    let was4 = was3 + cases.text();
    let after = whole_node.folded(span);
    assert(after.1.source() == now4);
    assert(whole_node.source() == was4);
}

/// Folding the fields of `Lambda` into a span loses no text.
proof fn lemma_fold_lambda(
    operator: TokenView<token::Operator>,
    arrow: Option<TreeView>,
    span: SpanView,
    covered: Seq<char>,
)
    requires
        (VariantView::Lambda { operator, arrow }).valid(),
        span.code_length == covered.len(),
    ensures
        variant_folds_well(VariantView::Lambda { operator, arrow }, span, covered),
{
    let whole_node = VariantView::Lambda { operator, arrow };
    let whole = span.left_offset + covered;
    operator.lemma_fold(span, covered);
    let new_operator = operator.fold_into(span);
    let covered1 = covered + new_operator.1.text();
    let now1 = new_operator.1.text();
    let was1 = operator.text();
    lemma_step(arrow, new_operator.0, covered1, covered, now1, whole, was1);
    let new_arrow = arrow.fold_into(new_operator.0);
    let covered2 = covered1 + new_arrow.1.text();
    let now2 = now1 + new_arrow.1.text();
    let was2 = was1 + arrow.text();
    let after = whole_node.folded(span);
    assert(after.1.source() == now2);
    assert(whole_node.source() == was2);
}

/// Folding the fields of `Array` into a span loses no text.
proof fn lemma_fold_array(
    left: TokenView<token::OpenSymbol>,
    first: Option<TreeView>,
    rest: Seq<OperatorDelimitedTreeView>,
    right: TokenView<token::CloseSymbol>,
    span: SpanView,
    covered: Seq<char>,
)
    requires
        (VariantView::Array { left, first, rest, right }).valid(),
        span.code_length == covered.len(),
    ensures
        variant_folds_well(VariantView::Array { left, first, rest, right }, span, covered),
{
    let whole_node = VariantView::Array { left, first, rest, right };
    let whole = span.left_offset + covered;
    left.lemma_fold(span, covered);
    let new_left = left.fold_into(span);
    let covered1 = covered + new_left.1.text();
    let now1 = new_left.1.text();
    let was1 = left.text();
    lemma_step(first, new_left.0, covered1, covered, now1, whole, was1);
    let new_first = first.fold_into(new_left.0);
    let covered2 = covered1 + new_first.1.text();
    let now2 = now1 + new_first.1.text();
    let was2 = was1 + first.text();
    lemma_seq_operator_delimited_tree(rest);
    lemma_step(rest, new_first.0, covered2, covered, now2, whole, was2);
    let new_rest = rest.fold_into(new_first.0);
    lemma_seq_operator_delimited_tree(new_rest.1);
    let covered3 = covered2 + new_rest.1.text();
    let now3 = now2 + new_rest.1.text();
    let was3 = was2 + rest.text();
    lemma_step(right, new_rest.0, covered3, covered, now3, whole, was3);
    let new_right = right.fold_into(new_rest.0);
    let covered4 = covered3 + new_right.1.text();
    let now4 = now3 + new_right.1.text();
    let was4 = was3 + right.text();
    let after = whole_node.folded(span);
    assert(after.1.source() == now4);
    assert(whole_node.source() == was4);
}

/// Folding the fields of `Tuple` into a span loses no text.
proof fn lemma_fold_tuple(
    left: TokenView<token::OpenSymbol>,
    first: Option<TreeView>,
    rest: Seq<OperatorDelimitedTreeView>,
    right: TokenView<token::CloseSymbol>,
    span: SpanView,
    covered: Seq<char>,
)
    requires
        (VariantView::Tuple { left, first, rest, right }).valid(),
        span.code_length == covered.len(),
    ensures
        variant_folds_well(VariantView::Tuple { left, first, rest, right }, span, covered),
{
    let whole_node = VariantView::Tuple { left, first, rest, right };
    let whole = span.left_offset + covered;
    left.lemma_fold(span, covered);
    let new_left = left.fold_into(span);
    let covered1 = covered + new_left.1.text();
    let now1 = new_left.1.text();
    let was1 = left.text();
    lemma_step(first, new_left.0, covered1, covered, now1, whole, was1);
    let new_first = first.fold_into(new_left.0);
    let covered2 = covered1 + new_first.1.text();
    let now2 = now1 + new_first.1.text();
    let was2 = was1 + first.text();
    lemma_seq_operator_delimited_tree(rest);
    lemma_step(rest, new_first.0, covered2, covered, now2, whole, was2);
    let new_rest = rest.fold_into(new_first.0);
    lemma_seq_operator_delimited_tree(new_rest.1);
    let covered3 = covered2 + new_rest.1.text();
    let now3 = now2 + new_rest.1.text();
    let was3 = was2 + rest.text();
    lemma_step(right, new_rest.0, covered3, covered, now3, whole, was3);
    let new_right = right.fold_into(new_rest.0);
    let covered4 = covered3 + new_right.1.text();
    let now4 = now3 + new_right.1.text();
    let was4 = was3 + right.text();
    let after = whole_node.folded(span);
    assert(after.1.source() == now4);
    assert(whole_node.source() == was4);
}

/// Folding the fields of `Annotated` into a span loses no text.
proof fn lemma_fold_annotated(
    token: TokenView<token::Operator>,
    annotation: TokenView<token::Ident>,
    argument: Option<TreeView>,
    newlines: Seq<TokenView<token::Newline>>,
    expression: Option<TreeView>,
    span: SpanView,
    covered: Seq<char>,
)
    requires
        (VariantView::Annotated { token, annotation, argument, newlines, expression }).valid(),
        span.code_length == covered.len(),
    ensures
        variant_folds_well(
            VariantView::Annotated { token, annotation, argument, newlines, expression },
            span,
            covered,
        ),
{
    let whole_node = VariantView::Annotated { token, annotation, argument, newlines, expression };
    let whole = span.left_offset + covered;
    token.lemma_fold(span, covered);
    let new_token = token.fold_into(span);
    let covered1 = covered + new_token.1.text();
    let now1 = new_token.1.text();
    let was1 = token.text();
    lemma_step(annotation, new_token.0, covered1, covered, now1, whole, was1);
    let new_annotation = annotation.fold_into(new_token.0);
    let covered2 = covered1 + new_annotation.1.text();
    let now2 = now1 + new_annotation.1.text();
    let was2 = was1 + annotation.text();
    lemma_step(argument, new_annotation.0, covered2, covered, now2, whole, was2);
    let new_argument = argument.fold_into(new_annotation.0);
    let covered3 = covered2 + new_argument.1.text();
    let now3 = now2 + new_argument.1.text();
    let was3 = was2 + argument.text();
    lemma_seq_tokens(newlines);
    lemma_step(newlines, new_argument.0, covered3, covered, now3, whole, was3);
    let new_newlines = newlines.fold_into(new_argument.0);
    lemma_seq_tokens(new_newlines.1);
    let covered4 = covered3 + new_newlines.1.text();
    let now4 = now3 + new_newlines.1.text();
    let was4 = was3 + newlines.text();
    lemma_step(expression, new_newlines.0, covered4, covered, now4, whole, was4);
    let new_expression = expression.fold_into(new_newlines.0);
    let covered5 = covered4 + new_expression.1.text();
    let now5 = now4 + new_expression.1.text();
    let was5 = was4 + expression.text();
    let after = whole_node.folded(span);
    assert(after.1.source() == now5);
    assert(whole_node.source() == was5);
}

/// Folding the fields of `AnnotatedBuiltin` into a span loses no text.
proof fn lemma_fold_annotated_builtin(
    token: TokenView<token::Operator>,
    annotation: TokenView<token::Ident>,
    newlines: Seq<TokenView<token::Newline>>,
    expression: Option<TreeView>,
    span: SpanView,
    covered: Seq<char>,
)
    requires
        (VariantView::AnnotatedBuiltin { token, annotation, newlines, expression }).valid(),
        span.code_length == covered.len(),
    ensures
        variant_folds_well(
            VariantView::AnnotatedBuiltin { token, annotation, newlines, expression },
            span,
            covered,
        ),
{
    let whole_node = VariantView::AnnotatedBuiltin { token, annotation, newlines, expression };
    let whole = span.left_offset + covered;
    token.lemma_fold(span, covered);
    let new_token = token.fold_into(span);
    let covered1 = covered + new_token.1.text();
    let now1 = new_token.1.text();
    let was1 = token.text();
    lemma_step(annotation, new_token.0, covered1, covered, now1, whole, was1);
    let new_annotation = annotation.fold_into(new_token.0);
    let covered2 = covered1 + new_annotation.1.text();
    let now2 = now1 + new_annotation.1.text();
    let was2 = was1 + annotation.text();
    lemma_seq_tokens(newlines);
    lemma_step(newlines, new_annotation.0, covered2, covered, now2, whole, was2);
    let new_newlines = newlines.fold_into(new_annotation.0);
    lemma_seq_tokens(new_newlines.1);
    let covered3 = covered2 + new_newlines.1.text();
    let now3 = now2 + new_newlines.1.text();
    let was3 = was2 + newlines.text();
    lemma_step(expression, new_newlines.0, covered3, covered, now3, whole, was3);
    let new_expression = expression.fold_into(new_newlines.0);
    let covered4 = covered3 + new_expression.1.text();
    let now4 = now3 + new_expression.1.text();
    let was4 = was3 + expression.text();
    let after = whole_node.folded(span);
    assert(after.1.source() == now4);
    assert(whole_node.source() == was4);
}

/// Folding the fields of `Documented` into a span loses no text.
proof fn lemma_fold_documented(
    documentation: DocCommentView,
    expression: Option<TreeView>,
    span: SpanView,
    covered: Seq<char>,
)
    requires
        (VariantView::Documented { documentation, expression }).valid(),
        span.code_length == covered.len(),
    ensures
        variant_folds_well(VariantView::Documented { documentation, expression }, span, covered),
{
    let whole_node = VariantView::Documented { documentation, expression };
    let whole = span.left_offset + covered;
    documentation.lemma_fold(span, covered);
    let new_documentation = documentation.fold_into(span);
    let covered1 = covered + new_documentation.1.text();
    let now1 = new_documentation.1.text();
    let was1 = documentation.text();
    lemma_step(expression, new_documentation.0, covered1, covered, now1, whole, was1);
    let new_expression = expression.fold_into(new_documentation.0);
    let covered2 = covered1 + new_expression.1.text();
    let now2 = now1 + new_expression.1.text();
    let was2 = was1 + expression.text();
    let after = whole_node.folded(span);
    assert(after.1.source() == now2);
    assert(whole_node.source() == was2);
}

/// Folding the fields of `ConstructorDefinition` into a span loses no text.
proof fn lemma_fold_constructor_definition(
    constructor: TokenView<token::Ident>,
    arguments: Seq<ArgumentDefinitionView>,
    block: Seq<ArgumentDefinitionLineView>,
    span: SpanView,
    covered: Seq<char>,
)
    requires
        (VariantView::ConstructorDefinition { constructor, arguments, block }).valid(),
        span.code_length == covered.len(),
    ensures
        variant_folds_well(
            VariantView::ConstructorDefinition { constructor, arguments, block },
            span,
            covered,
        ),
{
    let whole_node = VariantView::ConstructorDefinition { constructor, arguments, block };
    let whole = span.left_offset + covered;
    constructor.lemma_fold(span, covered);
    let new_constructor = constructor.fold_into(span);
    let covered1 = covered + new_constructor.1.text();
    let now1 = new_constructor.1.text();
    let was1 = constructor.text();
    lemma_seq_argument_definition(arguments);
    lemma_step(arguments, new_constructor.0, covered1, covered, now1, whole, was1);
    let new_arguments = arguments.fold_into(new_constructor.0);
    lemma_seq_argument_definition(new_arguments.1);
    let covered2 = covered1 + new_arguments.1.text();
    let now2 = now1 + new_arguments.1.text();
    let was2 = was1 + arguments.text();
    lemma_seq_argument_definition_line(block);
    lemma_step(block, new_arguments.0, covered2, covered, now2, whole, was2);
    let new_block = block.fold_into(new_arguments.0);
    lemma_seq_argument_definition_line(new_block.1);
    let covered3 = covered2 + new_block.1.text();
    let now3 = now2 + new_block.1.text();
    let was3 = was2 + block.text();
    let after = whole_node.folded(span);
    assert(after.1.source() == now3);
    assert(whole_node.source() == was3);
}

impl Piece for VariantView {
    open spec fn fold_into(self, span: SpanView) -> (SpanView, Self) {
        self.folded(span)
    }

    open spec fn weight(self) -> nat {
        match self {
            VariantView::Invalid { error, ast } => {
                ast.weight()
            },
            VariantView::BodyBlock { statements } => {
                statements.weight()
            },
            VariantView::ArgumentBlockApplication { lhs, arguments } => {
                lhs.weight() + arguments.weight()
            },
            VariantView::OperatorBlockApplication { lhs, expressions, excess } => {
                lhs.weight() + expressions.weight() + excess.weight()
            },
            VariantView::Ident { token } => {
                token.weight()
            },
            VariantView::Private { keyword, body } => {
                keyword.weight() + body.weight()
            },
            VariantView::Number { base, integer, fractional_digits } => {
                base.weight() + integer.weight() + fractional_digits.weight()
            },
            VariantView::Wildcard { token, de_bruijn_index } => {
                token.weight()
            },
            VariantView::SuspendedDefaultArguments { token } => {
                token.weight()
            },
            VariantView::TextLiteral { open, newline, elements, close, closed } => {
                open.weight() + newline.weight() + elements.weight() + close.weight()
            },
            VariantView::App { func, arg } => {
                func.weight() + arg.weight()
            },
            VariantView::NamedApp { func, open, name, equals, arg, close } => {
                func.weight() + open.weight() + name.weight() + equals.weight() + arg.weight()
                    + close.weight()
            },
            VariantView::OprApp { lhs, opr, rhs } => {
                lhs.weight() + opr.weight() + rhs.weight()
            },
            VariantView::UnaryOprApp { opr, rhs } => {
                opr.weight() + rhs.weight()
            },
            VariantView::AutoscopedIdentifier { opr, ident } => {
                opr.weight() + ident.weight()
            },
            VariantView::OprSectionBoundary { arguments, ast } => {
                ast.weight()
            },
            VariantView::TemplateFunction { arguments, ast } => {
                ast.weight()
            },
            VariantView::MultiSegmentApp { segments } => {
                segments.weight()
            },
            VariantView::TypeDef { keyword, name, params, body } => {
                keyword.weight() + name.weight() + params.weight() + body.weight()
            },
            VariantView::Assignment { pattern, equals, expr } => {
                pattern.weight() + equals.weight() + expr.weight()
            },
            VariantView::Function { name, args, returns_, equals, body } => {
                name.weight() + args.weight() + returns_.weight() + equals.weight() + body.weight()
            },
            VariantView::ForeignFunction { foreign, language, name, args, equals, body } => {
                foreign.weight() + language.weight() + name.weight() + args.weight()
                    + equals.weight() + body.weight()
            },
            VariantView::Import { polyglot, from, import, all, as_, hiding } => {
                polyglot.weight() + from.weight() + import.weight() + all.weight() + as_.weight()
                    + hiding.weight()
            },
            VariantView::Export { from, export, all, as_, hiding } => {
                from.weight() + export.weight() + all.weight() + as_.weight() + hiding.weight()
            },
            VariantView::Group { open, body, close } => {
                open.weight() + body.weight() + close.weight()
            },
            VariantView::TypeSignature { variable, operator, type_ } => {
                variable.weight() + operator.weight() + type_.weight()
            },
            VariantView::TypeAnnotated { expression, operator, type_ } => {
                expression.weight() + operator.weight() + type_.weight()
            },
            VariantView::CaseOf { case, expression, of, cases } => {
                case.weight() + expression.weight() + of.weight() + cases.weight()
            },
            VariantView::Lambda { operator, arrow } => {
                operator.weight() + arrow.weight()
            },
            VariantView::Array { left, first, rest, right } => {
                left.weight() + first.weight() + rest.weight() + right.weight()
            },
            VariantView::Tuple { left, first, rest, right } => {
                left.weight() + first.weight() + rest.weight() + right.weight()
            },
            VariantView::Annotated { token, annotation, argument, newlines, expression } => {
                token.weight() + annotation.weight() + argument.weight() + newlines.weight()
                    + expression.weight()
            },
            VariantView::AnnotatedBuiltin { token, annotation, newlines, expression } => {
                token.weight() + annotation.weight() + newlines.weight() + expression.weight()
            },
            VariantView::Documented { documentation, expression } => {
                documentation.weight() + expression.weight()
            },
            VariantView::ConstructorDefinition { constructor, arguments, block } => {
                constructor.weight() + arguments.weight() + block.weight()
            },
        }
    }

    open spec fn text(self) -> Seq<char> {
        self.source()
    }

    open spec fn sound(self) -> bool {
        self.valid()
    }

    proof fn lemma_weight(self, span: SpanView) {
        match self {
            VariantView::Invalid { error, ast } => {
                ast.lemma_weight(span);
            },
            VariantView::BodyBlock { statements } => {
                statements.lemma_weight(span);
            },
            VariantView::ArgumentBlockApplication { lhs, arguments } => {
                lhs.lemma_weight(span);
                let new_lhs = lhs.fold_into(span);
                arguments.lemma_weight(new_lhs.0);
            },
            VariantView::OperatorBlockApplication { lhs, expressions, excess } => {
                lhs.lemma_weight(span);
                let new_lhs = lhs.fold_into(span);
                expressions.lemma_weight(new_lhs.0);
                let new_expressions = expressions.fold_into(new_lhs.0);
                excess.lemma_weight(new_expressions.0);
            },
            VariantView::Ident { token } => {
                token.lemma_weight(span);
            },
            VariantView::Private { keyword, body } => {
                keyword.lemma_weight(span);
                let new_keyword = keyword.fold_into(span);
                body.lemma_weight(new_keyword.0);
            },
            VariantView::Number { base, integer, fractional_digits } => {
                base.lemma_weight(span);
                let new_base = base.fold_into(span);
                integer.lemma_weight(new_base.0);
                let new_integer = integer.fold_into(new_base.0);
                fractional_digits.lemma_weight(new_integer.0);
            },
            VariantView::Wildcard { token, de_bruijn_index } => {
                token.lemma_weight(span);
            },
            VariantView::SuspendedDefaultArguments { token } => {
                token.lemma_weight(span);
            },
            VariantView::TextLiteral { open, newline, elements, close, closed } => {
                open.lemma_weight(span);
                let new_open = open.fold_into(span);
                newline.lemma_weight(new_open.0);
                let new_newline = newline.fold_into(new_open.0);
                elements.lemma_weight(new_newline.0);
                let new_elements = elements.fold_into(new_newline.0);
                close.lemma_weight(new_elements.0);
            },
            VariantView::App { func, arg } => {
                func.lemma_weight(span);
                let new_func = func.fold_into(span);
                arg.lemma_weight(new_func.0);
            },
            VariantView::NamedApp { func, open, name, equals, arg, close } => {
                func.lemma_weight(span);
                let new_func = func.fold_into(span);
                open.lemma_weight(new_func.0);
                let new_open = open.fold_into(new_func.0);
                name.lemma_weight(new_open.0);
                let new_name = name.fold_into(new_open.0);
                equals.lemma_weight(new_name.0);
                let new_equals = equals.fold_into(new_name.0);
                arg.lemma_weight(new_equals.0);
                let new_arg = arg.fold_into(new_equals.0);
                close.lemma_weight(new_arg.0);
            },
            VariantView::OprApp { lhs, opr, rhs } => {
                lhs.lemma_weight(span);
                let new_lhs = lhs.fold_into(span);
                opr.lemma_weight(new_lhs.0);
                let new_opr = opr.fold_into(new_lhs.0);
                rhs.lemma_weight(new_opr.0);
            },
            VariantView::UnaryOprApp { opr, rhs } => {
                opr.lemma_weight(span);
                let new_opr = opr.fold_into(span);
                rhs.lemma_weight(new_opr.0);
            },
            VariantView::AutoscopedIdentifier { opr, ident } => {
                opr.lemma_weight(span);
                let new_opr = opr.fold_into(span);
                ident.lemma_weight(new_opr.0);
            },
            VariantView::OprSectionBoundary { arguments, ast } => {
                ast.lemma_weight(span);
            },
            VariantView::TemplateFunction { arguments, ast } => {
                ast.lemma_weight(span);
            },
            VariantView::MultiSegmentApp { segments } => {
                segments.lemma_weight(span);
            },
            VariantView::TypeDef { keyword, name, params, body } => {
                keyword.lemma_weight(span);
                let new_keyword = keyword.fold_into(span);
                name.lemma_weight(new_keyword.0);
                let new_name = name.fold_into(new_keyword.0);
                params.lemma_weight(new_name.0);
                let new_params = params.fold_into(new_name.0);
                body.lemma_weight(new_params.0);
            },
            VariantView::Assignment { pattern, equals, expr } => {
                pattern.lemma_weight(span);
                let new_pattern = pattern.fold_into(span);
                equals.lemma_weight(new_pattern.0);
                let new_equals = equals.fold_into(new_pattern.0);
                expr.lemma_weight(new_equals.0);
            },
            VariantView::Function { name, args, returns_, equals, body } => {
                name.lemma_weight(span);
                let new_name = name.fold_into(span);
                args.lemma_weight(new_name.0);
                let new_args = args.fold_into(new_name.0);
                returns_.lemma_weight(new_args.0);
                let new_returns_ = returns_.fold_into(new_args.0);
                equals.lemma_weight(new_returns_.0);
                let new_equals = equals.fold_into(new_returns_.0);
                body.lemma_weight(new_equals.0);
            },
            VariantView::ForeignFunction { foreign, language, name, args, equals, body } => {
                foreign.lemma_weight(span);
                let new_foreign = foreign.fold_into(span);
                language.lemma_weight(new_foreign.0);
                let new_language = language.fold_into(new_foreign.0);
                name.lemma_weight(new_language.0);
                let new_name = name.fold_into(new_language.0);
                args.lemma_weight(new_name.0);
                let new_args = args.fold_into(new_name.0);
                equals.lemma_weight(new_args.0);
                let new_equals = equals.fold_into(new_args.0);
                body.lemma_weight(new_equals.0);
            },
            VariantView::Import { polyglot, from, import, all, as_, hiding } => {
                polyglot.lemma_weight(span);
                let new_polyglot = polyglot.fold_into(span);
                from.lemma_weight(new_polyglot.0);
                let new_from = from.fold_into(new_polyglot.0);
                import.lemma_weight(new_from.0);
                let new_import = import.fold_into(new_from.0);
                all.lemma_weight(new_import.0);
                let new_all = all.fold_into(new_import.0);
                as_.lemma_weight(new_all.0);
                let new_as_ = as_.fold_into(new_all.0);
                hiding.lemma_weight(new_as_.0);
            },
            VariantView::Export { from, export, all, as_, hiding } => {
                from.lemma_weight(span);
                let new_from = from.fold_into(span);
                export.lemma_weight(new_from.0);
                let new_export = export.fold_into(new_from.0);
                all.lemma_weight(new_export.0);
                let new_all = all.fold_into(new_export.0);
                as_.lemma_weight(new_all.0);
                let new_as_ = as_.fold_into(new_all.0);
                hiding.lemma_weight(new_as_.0);
            },
            VariantView::Group { open, body, close } => {
                open.lemma_weight(span);
                let new_open = open.fold_into(span);
                body.lemma_weight(new_open.0);
                let new_body = body.fold_into(new_open.0);
                close.lemma_weight(new_body.0);
            },
            VariantView::TypeSignature { variable, operator, type_ } => {
                variable.lemma_weight(span);
                let new_variable = variable.fold_into(span);
                operator.lemma_weight(new_variable.0);
                let new_operator = operator.fold_into(new_variable.0);
                type_.lemma_weight(new_operator.0);
            },
            VariantView::TypeAnnotated { expression, operator, type_ } => {
                expression.lemma_weight(span);
                let new_expression = expression.fold_into(span);
                operator.lemma_weight(new_expression.0);
                let new_operator = operator.fold_into(new_expression.0);
                type_.lemma_weight(new_operator.0);
            },
            VariantView::CaseOf { case, expression, of, cases } => {
                case.lemma_weight(span);
                let new_case = case.fold_into(span);
                expression.lemma_weight(new_case.0);
                let new_expression = expression.fold_into(new_case.0);
                of.lemma_weight(new_expression.0);
                let new_of = of.fold_into(new_expression.0);
                cases.lemma_weight(new_of.0);
            },
            VariantView::Lambda { operator, arrow } => {
                operator.lemma_weight(span);
                let new_operator = operator.fold_into(span);
                arrow.lemma_weight(new_operator.0);
            },
            VariantView::Array { left, first, rest, right } => {
                left.lemma_weight(span);
                let new_left = left.fold_into(span);
                first.lemma_weight(new_left.0);
                let new_first = first.fold_into(new_left.0);
                rest.lemma_weight(new_first.0);
                let new_rest = rest.fold_into(new_first.0);
                right.lemma_weight(new_rest.0);
            },
            VariantView::Tuple { left, first, rest, right } => {
                left.lemma_weight(span);
                let new_left = left.fold_into(span);
                first.lemma_weight(new_left.0);
                let new_first = first.fold_into(new_left.0);
                rest.lemma_weight(new_first.0);
                let new_rest = rest.fold_into(new_first.0);
                right.lemma_weight(new_rest.0);
            },
            VariantView::Annotated { token, annotation, argument, newlines, expression } => {
                token.lemma_weight(span);
                let new_token = token.fold_into(span);
                annotation.lemma_weight(new_token.0);
                let new_annotation = annotation.fold_into(new_token.0);
                argument.lemma_weight(new_annotation.0);
                let new_argument = argument.fold_into(new_annotation.0);
                newlines.lemma_weight(new_argument.0);
                let new_newlines = newlines.fold_into(new_argument.0);
                expression.lemma_weight(new_newlines.0);
            },
            VariantView::AnnotatedBuiltin { token, annotation, newlines, expression } => {
                token.lemma_weight(span);
                let new_token = token.fold_into(span);
                annotation.lemma_weight(new_token.0);
                let new_annotation = annotation.fold_into(new_token.0);
                newlines.lemma_weight(new_annotation.0);
                let new_newlines = newlines.fold_into(new_annotation.0);
                expression.lemma_weight(new_newlines.0);
            },
            VariantView::Documented { documentation, expression } => {
                documentation.lemma_weight(span);
                let new_documentation = documentation.fold_into(span);
                expression.lemma_weight(new_documentation.0);
            },
            VariantView::ConstructorDefinition { constructor, arguments, block } => {
                constructor.lemma_weight(span);
                let new_constructor = constructor.fold_into(span);
                arguments.lemma_weight(new_constructor.0);
                let new_arguments = arguments.fold_into(new_constructor.0);
                block.lemma_weight(new_arguments.0);
            },
        }
    }

    proof fn lemma_measure(self) {
        match self {
            VariantView::Invalid { error, ast } => {
                ast.lemma_measure();
            },
            VariantView::BodyBlock { statements } => {
                lemma_seq_line(statements);
                statements.lemma_measure();
            },
            VariantView::ArgumentBlockApplication { lhs, arguments } => {
                lhs.lemma_measure();
                lemma_seq_line(arguments);
                arguments.lemma_measure();
            },
            VariantView::OperatorBlockApplication { lhs, expressions, excess } => {
                lhs.lemma_measure();
                lemma_seq_operator_line(expressions);
                expressions.lemma_measure();
                lemma_seq_line(excess);
                excess.lemma_measure();
            },
            VariantView::Ident { token } => {
                token.lemma_measure();
            },
            VariantView::Private { keyword, body } => {
                keyword.lemma_measure();
                body.lemma_measure();
            },
            VariantView::Number { base, integer, fractional_digits } => {
                base.lemma_measure();
                integer.lemma_measure();
                fractional_digits.lemma_measure();
            },
            VariantView::Wildcard { token, de_bruijn_index } => {
                token.lemma_measure();
            },
            VariantView::SuspendedDefaultArguments { token } => {
                token.lemma_measure();
            },
            VariantView::TextLiteral { open, newline, elements, close, closed } => {
                open.lemma_measure();
                newline.lemma_measure();
                lemma_seq_text_element(elements);
                elements.lemma_measure();
                close.lemma_measure();
            },
            VariantView::App { func, arg } => {
                func.lemma_measure();
                arg.lemma_measure();
            },
            VariantView::NamedApp { func, open, name, equals, arg, close } => {
                func.lemma_measure();
                open.lemma_measure();
                name.lemma_measure();
                equals.lemma_measure();
                arg.lemma_measure();
                close.lemma_measure();
            },
            VariantView::OprApp { lhs, opr, rhs } => {
                lhs.lemma_measure();
                opr.lemma_measure();
                rhs.lemma_measure();
            },
            VariantView::UnaryOprApp { opr, rhs } => {
                opr.lemma_measure();
                rhs.lemma_measure();
            },
            VariantView::AutoscopedIdentifier { opr, ident } => {
                opr.lemma_measure();
                ident.lemma_measure();
            },
            VariantView::OprSectionBoundary { arguments, ast } => {
                ast.lemma_measure();
            },
            VariantView::TemplateFunction { arguments, ast } => {
                ast.lemma_measure();
            },
            VariantView::MultiSegmentApp { segments } => {
                lemma_seq_multi_segment_app_segment(segments);
                segments.lemma_measure();
            },
            VariantView::TypeDef { keyword, name, params, body } => {
                keyword.lemma_measure();
                name.lemma_measure();
                lemma_seq_argument_definition(params);
                params.lemma_measure();
                lemma_seq_line(body);
                body.lemma_measure();
            },
            VariantView::Assignment { pattern, equals, expr } => {
                pattern.lemma_measure();
                equals.lemma_measure();
                expr.lemma_measure();
            },
            VariantView::Function { name, args, returns_, equals, body } => {
                name.lemma_measure();
                lemma_seq_argument_definition(args);
                args.lemma_measure();
                returns_.lemma_measure();
                equals.lemma_measure();
                body.lemma_measure();
            },
            VariantView::ForeignFunction { foreign, language, name, args, equals, body } => {
                foreign.lemma_measure();
                language.lemma_measure();
                name.lemma_measure();
                lemma_seq_argument_definition(args);
                args.lemma_measure();
                equals.lemma_measure();
                body.lemma_measure();
            },
            VariantView::Import { polyglot, from, import, all, as_, hiding } => {
                polyglot.lemma_measure();
                from.lemma_measure();
                import.lemma_measure();
                all.lemma_measure();
                as_.lemma_measure();
                hiding.lemma_measure();
            },
            VariantView::Export { from, export, all, as_, hiding } => {
                from.lemma_measure();
                export.lemma_measure();
                all.lemma_measure();
                as_.lemma_measure();
                hiding.lemma_measure();
            },
            VariantView::Group { open, body, close } => {
                open.lemma_measure();
                body.lemma_measure();
                close.lemma_measure();
            },
            VariantView::TypeSignature { variable, operator, type_ } => {
                variable.lemma_measure();
                operator.lemma_measure();
                type_.lemma_measure();
            },
            VariantView::TypeAnnotated { expression, operator, type_ } => {
                expression.lemma_measure();
                operator.lemma_measure();
                type_.lemma_measure();
            },
            VariantView::CaseOf { case, expression, of, cases } => {
                case.lemma_measure();
                expression.lemma_measure();
                of.lemma_measure();
                lemma_seq_case_line(cases);
                cases.lemma_measure();
            },
            VariantView::Lambda { operator, arrow } => {
                operator.lemma_measure();
                arrow.lemma_measure();
            },
            VariantView::Array { left, first, rest, right } => {
                left.lemma_measure();
                first.lemma_measure();
                lemma_seq_operator_delimited_tree(rest);
                rest.lemma_measure();
                right.lemma_measure();
            },
            VariantView::Tuple { left, first, rest, right } => {
                left.lemma_measure();
                first.lemma_measure();
                lemma_seq_operator_delimited_tree(rest);
                rest.lemma_measure();
                right.lemma_measure();
            },
            VariantView::Annotated { token, annotation, argument, newlines, expression } => {
                token.lemma_measure();
                annotation.lemma_measure();
                argument.lemma_measure();
                lemma_seq_tokens(newlines);
                newlines.lemma_measure();
                expression.lemma_measure();
            },
            VariantView::AnnotatedBuiltin { token, annotation, newlines, expression } => {
                token.lemma_measure();
                annotation.lemma_measure();
                lemma_seq_tokens(newlines);
                newlines.lemma_measure();
                expression.lemma_measure();
            },
            VariantView::Documented { documentation, expression } => {
                documentation.lemma_measure();
                expression.lemma_measure();
            },
            VariantView::ConstructorDefinition { constructor, arguments, block } => {
                constructor.lemma_measure();
                lemma_seq_argument_definition(arguments);
                arguments.lemma_measure();
                lemma_seq_argument_definition_line(block);
                block.lemma_measure();
            },
        }
    }

    proof fn lemma_fold(self, span: SpanView, covered: Seq<char>) {
        match self {
            VariantView::Invalid { error, ast } => {
                lemma_fold_invalid(error, ast, span, covered);
            },
            VariantView::BodyBlock { statements } => {
                lemma_fold_body_block(statements, span, covered);
            },
            VariantView::ArgumentBlockApplication { lhs, arguments } => {
                lemma_fold_argument_block_application(lhs, arguments, span, covered);
            },
            VariantView::OperatorBlockApplication { lhs, expressions, excess } => {
                lemma_fold_operator_block_application(lhs, expressions, excess, span, covered);
            },
            VariantView::Ident { token } => {
                lemma_fold_ident(token, span, covered);
            },
            VariantView::Private { keyword, body } => {
                lemma_fold_private(keyword, body, span, covered);
            },
            VariantView::Number { base, integer, fractional_digits } => {
                lemma_fold_number(base, integer, fractional_digits, span, covered);
            },
            VariantView::Wildcard { token, de_bruijn_index } => {
                lemma_fold_wildcard(token, de_bruijn_index, span, covered);
            },
            VariantView::SuspendedDefaultArguments { token } => {
                lemma_fold_suspended_default_arguments(token, span, covered);
            },
            VariantView::TextLiteral { open, newline, elements, close, closed } => {
                lemma_fold_text_literal(open, newline, elements, close, closed, span, covered);
            },
            VariantView::App { func, arg } => {
                lemma_fold_app(func, arg, span, covered);
            },
            VariantView::NamedApp { func, open, name, equals, arg, close } => {
                lemma_fold_named_app(func, open, name, equals, arg, close, span, covered);
            },
            VariantView::OprApp { lhs, opr, rhs } => {
                lemma_fold_opr_app(lhs, opr, rhs, span, covered);
            },
            VariantView::UnaryOprApp { opr, rhs } => {
                lemma_fold_unary_opr_app(opr, rhs, span, covered);
            },
            VariantView::AutoscopedIdentifier { opr, ident } => {
                lemma_fold_autoscoped_identifier(opr, ident, span, covered);
            },
            VariantView::OprSectionBoundary { arguments, ast } => {
                lemma_fold_opr_section_boundary(arguments, ast, span, covered);
            },
            VariantView::TemplateFunction { arguments, ast } => {
                lemma_fold_template_function(arguments, ast, span, covered);
            },
            VariantView::MultiSegmentApp { segments } => {
                lemma_fold_multi_segment_app(segments, span, covered);
            },
            VariantView::TypeDef { keyword, name, params, body } => {
                lemma_fold_type_def(keyword, name, params, body, span, covered);
            },
            VariantView::Assignment { pattern, equals, expr } => {
                lemma_fold_assignment(pattern, equals, expr, span, covered);
            },
            VariantView::Function { name, args, returns_, equals, body } => {
                lemma_fold_function(name, args, returns_, equals, body, span, covered);
            },
            VariantView::ForeignFunction { foreign, language, name, args, equals, body } => {
                lemma_fold_foreign_function(
                    foreign,
                    language,
                    name,
                    args,
                    equals,
                    body,
                    span,
                    covered,
                );
            },
            VariantView::Import { polyglot, from, import, all, as_, hiding } => {
                lemma_fold_import(polyglot, from, import, all, as_, hiding, span, covered);
            },
            VariantView::Export { from, export, all, as_, hiding } => {
                lemma_fold_export(from, export, all, as_, hiding, span, covered);
            },
            VariantView::Group { open, body, close } => {
                lemma_fold_group(open, body, close, span, covered);
            },
            VariantView::TypeSignature { variable, operator, type_ } => {
                lemma_fold_type_signature(variable, operator, type_, span, covered);
            },
            VariantView::TypeAnnotated { expression, operator, type_ } => {
                lemma_fold_type_annotated(expression, operator, type_, span, covered);
            },
            VariantView::CaseOf { case, expression, of, cases } => {
                lemma_fold_case_of(case, expression, of, cases, span, covered);
            },
            VariantView::Lambda { operator, arrow } => {
                lemma_fold_lambda(operator, arrow, span, covered);
            },
            VariantView::Array { left, first, rest, right } => {
                lemma_fold_array(left, first, rest, right, span, covered);
            },
            VariantView::Tuple { left, first, rest, right } => {
                lemma_fold_tuple(left, first, rest, right, span, covered);
            },
            VariantView::Annotated { token, annotation, argument, newlines, expression } => {
                lemma_fold_annotated(
                    token,
                    annotation,
                    argument,
                    newlines,
                    expression,
                    span,
                    covered,
                );
            },
            VariantView::AnnotatedBuiltin { token, annotation, newlines, expression } => {
                lemma_fold_annotated_builtin(
                    token,
                    annotation,
                    newlines,
                    expression,
                    span,
                    covered,
                );
            },
            VariantView::Documented { documentation, expression } => {
                lemma_fold_documented(documentation, expression, span, covered);
            },
            VariantView::ConstructorDefinition { constructor, arguments, block } => {
                lemma_fold_constructor_definition(constructor, arguments, block, span, covered);
            },
        }
    }
}

} // verus!
