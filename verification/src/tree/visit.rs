//! Walking a tree: a visitor is handed the items of a tree in the order of the
//! source, and says of each node whether it is to be walked into.

use crate::token::{token_views, Token, TokenView};
use crate::tree::items::{Item, ItemView};
use crate::tree::block::{Line, OperatorBlockExpression, OperatorLine};
use crate::tree::model::{
    ArgumentDefaultView, ArgumentDefinitionLineView, ArgumentDefinitionView, ArgumentTypeView,
    CaseLineView, CaseView, DocCommentView, FractionalDigitsView, LineView,
    MultiSegmentAppSegmentView, MultipleOperatorErrorView, OperatorBlockExpressionView,
    OperatorDelimitedTreeView, OperatorLineView, OperatorOrErrorView, ReturnSpecificationView,
    TextElementView, TextLiteralView, TreeView, VariantView,
};
use crate::tree::{
    ArgumentDefault, ArgumentDefinition, ArgumentDefinitionLine, ArgumentType, Case, CaseLine,
    DocComment, FractionalDigits, MultiSegmentAppSegment, MultipleOperatorError,
    OperatorDelimitedTree, ReturnSpecification, TextElement, TextLiteral, Tree, Variant,
};
use vstd::prelude::*;

verus! {

/// Something that walks a tree.
pub trait Visitor {

}

/// Something that walks the items of a tree. For each item it says whether what
/// is inside the item is to be walked too. What the visitor does with an item is
/// a matter of its state and of the item alone, and `step` says what: the state
/// afterwards, and the answer.
pub trait ItemVisitor: Visitor {
    /// What the contracts know of a visitor.
    type State;

    /// The state that the visitor is in.
    open spec fn state(&self) -> Self::State {
        arbitrary()
    }

    /// The state after an item, and whether what is inside the item is to be
    /// walked too.
    open spec fn step(state: Self::State, item: ItemView) -> (Self::State, bool) {
        arbitrary()
    }

    fn visit_item(&mut self, item: Item<'_>) -> (descend: bool)
        ensures
            final(self).state() == Self::step(old(self).state(), item@).0,
            descend == Self::step(old(self).state(), item@).1,
    ;
}

/// The state of a visitor that was in `state` and has been handed a token that
/// may be absent.
pub open spec fn walked_opt_token<V: ItemVisitor, T>(
    state: V::State,
    token: Option<TokenView<T>>,
) -> V::State {
    match token {
        Some(t) => V::step(state, t.item()).0,
        None => state,
    }
}

/// The state of a visitor that was in `state` and has been handed the first
/// `upto` of the tokens.
pub open spec fn walked_tokens<V: ItemVisitor, T>(
    state: V::State,
    tokens: Seq<TokenView<T>>,
    upto: nat,
) -> V::State
    decreases upto,
{
    if upto == 0 || upto > tokens.len() {
        state
    } else {
        V::step(walked_tokens::<V, T>(state, tokens, (upto - 1) as nat), tokens[upto - 1].item()).0
    }
}

/// The state of a visitor that was in `state` and has been handed an operator,
/// or the operators of the error of several.
pub open spec fn walked_operator_or_error<V: ItemVisitor>(
    state: V::State,
    opr: OperatorOrErrorView,
) -> V::State {
    match opr {
        Ok(token) => V::step(state, token.item()).0,
        Err(error) => error.walked::<V>(state),
    }
}

impl TreeView {
    /// The state of a visitor that was in `state` and has walked the node: it is
    /// handed the node, and what is in the node where it asks for that.
    pub open spec fn walked<V: ItemVisitor>(self, state: V::State) -> V::State
        decreases self,
    {
        let handed = V::step(state, ItemView::Tree(self));
        if handed.1 {
            (*self.variant).walked::<V>(handed.0)
        } else {
            handed.0
        }
    }
}

impl<T> Token<T> {
    /// Hands the token to `visitor`.
    pub fn visit_item<V: ItemVisitor>(&self, visitor: &mut V)
        ensures
            final(visitor).state() == V::step(old(visitor).state(), self@.item()).0,
    {
        visitor.visit_item(Item::Token { left_offset: &self.left_offset, code: &self.code });
    }
}

/// Hands the tokens to `visitor`, in order.
pub fn visit_tokens<T, V: ItemVisitor>(tokens: &Vec<Token<T>>, visitor: &mut V)
    ensures
        final(visitor).state() == walked_tokens::<V, T>(
            old(visitor).state(),
            token_views(tokens@),
            tokens@.len(),
        ),
{
    let ghost start = visitor.state();
    let mut i: usize = 0;
    while i < tokens.len()
        invariant
            i <= tokens@.len(),
            visitor.state() == walked_tokens::<V, T>(
                start,
                token_views(tokens@),
                i as nat,
            ),
        decreases tokens@.len() - i,
    {
        tokens[i].visit_item(visitor);
        i = i + 1;
    }
}

/// A visitor that writes down the source text of what it is handed: of a node
/// the whitespace before it, of a token that and its code. It walks into every
/// node.
#[derive(Debug, Default)]
pub struct CodePrinterVisitor {
    pub code: String,
}

impl Visitor for CodePrinterVisitor {

}

impl ItemVisitor for CodePrinterVisitor {
    type State = Seq<char>;

    open spec fn state(&self) -> Seq<char> {
        self.code@
    }

    open spec fn step(state: Seq<char>, item: ItemView) -> (Seq<char>, bool) {
        (state + item.own_text(), true)
    }

    fn visit_item(&mut self, item: Item<'_>) -> (descend: bool) {
        let ghost start = self.code@;
        match item {
            Item::Tree(tree) => {
                self.code.append(tree.span.left_offset.code.as_str());
            },
            Item::Token { left_offset, code } => {
                self.code.append(left_offset.code.as_str());
                self.code.append(code.as_str());
            },
        }
        assert(self.code@ =~= start + item@.own_text());
        true
    }
}

impl Tree {
    /// Hands the node to `visitor`, and what is in it where the visitor asks
    /// for that.
    pub fn visit_item<V: ItemVisitor>(&self, visitor: &mut V)
        ensures
            final(visitor).state() == self@.walked::<V>(old(visitor).state()),
        decreases self,
    {
        if visitor.visit_item(Item::Tree(self)) {
            self.variant.visit_item(visitor);
        }
    }
}

impl VariantView {
    /// The state of a visitor that was in `state` and has walked the value.
    pub open spec fn walked<V: ItemVisitor>(self, state: V::State) -> V::State
        decreases self,
    {
        match self {
            VariantView::Invalid { error: _, ast } => {
                let state1 = ast.walked::<V>(state);
                state1
            },
            VariantView::BodyBlock { statements } => {
                let state1 = LineView::walked_all::<V>(state, statements, statements.len());
                state1
            },
            VariantView::ArgumentBlockApplication { lhs, arguments } => {
                let state1 = (match lhs { Some(x) => x.walked::<V>(state), None => state, });
                let state2 = LineView::walked_all::<V>(state1, arguments, arguments.len());
                state2
            },
            VariantView::OperatorBlockApplication { lhs, expressions, excess } => {
                let state1 = (match lhs { Some(x) => x.walked::<V>(state), None => state, });
                let state2 = OperatorLineView::walked_all::<V>(
                    state1,
                    expressions,
                    expressions.len(),
                );
                let state3 = LineView::walked_all::<V>(state2, excess, excess.len());
                state3
            },
            VariantView::Ident { token } => {
                let state1 = V::step(state, token.item()).0;
                state1
            },
            VariantView::Private { keyword, body } => {
                let state1 = V::step(state, keyword.item()).0;
                let state2 = (match body { Some(x) => x.walked::<V>(state1), None => state1, });
                state2
            },
            VariantView::Number { base, integer, fractional_digits } => {
                let state1 = walked_opt_token::<V, _>(state, base);
                let state2 = walked_opt_token::<V, _>(state1, integer);
                let state3 = (
                    match fractional_digits { Some(x) => x.walked::<V>(state2), None => state2, }
                );
                state3
            },
            VariantView::Wildcard { token, de_bruijn_index: _ } => {
                let state1 = V::step(state, token.item()).0;
                state1
            },
            VariantView::SuspendedDefaultArguments { token } => {
                let state1 = V::step(state, token.item()).0;
                state1
            },
            VariantView::TextLiteral { open, newline, elements, close, closed: _ } => {
                let state1 = walked_opt_token::<V, _>(state, open);
                let state2 = walked_opt_token::<V, _>(state1, newline);
                let state3 = TextElementView::walked_all::<V>(state2, elements, elements.len());
                let state4 = walked_opt_token::<V, _>(state3, close);
                state4
            },
            VariantView::App { func, arg } => {
                let state1 = func.walked::<V>(state);
                let state2 = arg.walked::<V>(state1);
                state2
            },
            VariantView::NamedApp { func, open, name, equals, arg, close } => {
                let state1 = func.walked::<V>(state);
                let state2 = walked_opt_token::<V, _>(state1, open);
                let state3 = V::step(state2, name.item()).0;
                let state4 = V::step(state3, equals.item()).0;
                let state5 = arg.walked::<V>(state4);
                let state6 = walked_opt_token::<V, _>(state5, close);
                state6
            },
            VariantView::OprApp { lhs, opr, rhs } => {
                let state1 = (match lhs { Some(x) => x.walked::<V>(state), None => state, });
                let state2 = walked_operator_or_error::<V>(state1, opr);
                let state3 = (match rhs { Some(x) => x.walked::<V>(state2), None => state2, });
                state3
            },
            VariantView::UnaryOprApp { opr, rhs } => {
                let state1 = V::step(state, opr.item()).0;
                let state2 = (match rhs { Some(x) => x.walked::<V>(state1), None => state1, });
                state2
            },
            VariantView::AutoscopedIdentifier { opr, ident } => {
                let state1 = V::step(state, opr.item()).0;
                let state2 = V::step(state1, ident.item()).0;
                state2
            },
            VariantView::OprSectionBoundary { arguments: _, ast } => {
                let state1 = ast.walked::<V>(state);
                state1
            },
            VariantView::TemplateFunction { arguments: _, ast } => {
                let state1 = ast.walked::<V>(state);
                state1
            },
            VariantView::MultiSegmentApp { segments } => {
                let state1 = MultiSegmentAppSegmentView::walked_all::<V>(
                    state,
                    segments,
                    segments.len(),
                );
                state1
            },
            VariantView::TypeDef { keyword, name, params, body } => {
                let state1 = V::step(state, keyword.item()).0;
                let state2 = V::step(state1, name.item()).0;
                let state3 = ArgumentDefinitionView::walked_all::<V>(state2, params, params.len());
                let state4 = LineView::walked_all::<V>(state3, body, body.len());
                state4
            },
            VariantView::Assignment { pattern, equals, expr } => {
                let state1 = pattern.walked::<V>(state);
                let state2 = V::step(state1, equals.item()).0;
                let state3 = expr.walked::<V>(state2);
                state3
            },
            VariantView::Function { name, args, returns_, equals, body } => {
                let state1 = name.walked::<V>(state);
                let state2 = ArgumentDefinitionView::walked_all::<V>(state1, args, args.len());
                let state3 = (match returns_ { Some(x) => x.walked::<V>(state2), None => state2, });
                let state4 = V::step(state3, equals.item()).0;
                let state5 = (match body { Some(x) => x.walked::<V>(state4), None => state4, });
                state5
            },
            VariantView::ForeignFunction { foreign, language, name, args, equals, body } => {
                let state1 = V::step(state, foreign.item()).0;
                let state2 = V::step(state1, language.item()).0;
                let state3 = V::step(state2, name.item()).0;
                let state4 = ArgumentDefinitionView::walked_all::<V>(state3, args, args.len());
                let state5 = V::step(state4, equals.item()).0;
                let state6 = body.walked::<V>(state5);
                state6
            },
            VariantView::Import { polyglot, from, import, all, as_, hiding } => {
                let state1 = (match polyglot { Some(x) => x.walked::<V>(state), None => state, });
                let state2 = (match from { Some(x) => x.walked::<V>(state1), None => state1, });
                let state3 = import.walked::<V>(state2);
                let state4 = walked_opt_token::<V, _>(state3, all);
                let state5 = (match as_ { Some(x) => x.walked::<V>(state4), None => state4, });
                let state6 = (match hiding { Some(x) => x.walked::<V>(state5), None => state5, });
                state6
            },
            VariantView::Export { from, export, all, as_, hiding } => {
                let state1 = (match from { Some(x) => x.walked::<V>(state), None => state, });
                let state2 = export.walked::<V>(state1);
                let state3 = walked_opt_token::<V, _>(state2, all);
                let state4 = (match as_ { Some(x) => x.walked::<V>(state3), None => state3, });
                let state5 = (match hiding { Some(x) => x.walked::<V>(state4), None => state4, });
                state5
            },
            VariantView::Group { open, body, close } => {
                let state1 = walked_opt_token::<V, _>(state, open);
                let state2 = (match body { Some(x) => x.walked::<V>(state1), None => state1, });
                let state3 = walked_opt_token::<V, _>(state2, close);
                state3
            },
            VariantView::TypeSignature { variable, operator, type_ } => {
                let state1 = variable.walked::<V>(state);
                let state2 = V::step(state1, operator.item()).0;
                let state3 = type_.walked::<V>(state2);
                state3
            },
            VariantView::TypeAnnotated { expression, operator, type_ } => {
                let state1 = expression.walked::<V>(state);
                let state2 = V::step(state1, operator.item()).0;
                let state3 = type_.walked::<V>(state2);
                state3
            },
            VariantView::CaseOf { case, expression, of, cases } => {
                let state1 = V::step(state, case.item()).0;
                let state2 = (
                    match expression { Some(x) => x.walked::<V>(state1), None => state1, }
                );
                let state3 = V::step(state2, of.item()).0;
                let state4 = CaseLineView::walked_all::<V>(state3, cases, cases.len());
                state4
            },
            VariantView::Lambda { operator, arrow } => {
                let state1 = V::step(state, operator.item()).0;
                let state2 = (match arrow { Some(x) => x.walked::<V>(state1), None => state1, });
                state2
            },
            VariantView::Array { left, first, rest, right } => {
                let state1 = V::step(state, left.item()).0;
                let state2 = (match first { Some(x) => x.walked::<V>(state1), None => state1, });
                let state3 = OperatorDelimitedTreeView::walked_all::<V>(state2, rest, rest.len());
                let state4 = V::step(state3, right.item()).0;
                state4
            },
            VariantView::Tuple { left, first, rest, right } => {
                let state1 = V::step(state, left.item()).0;
                let state2 = (match first { Some(x) => x.walked::<V>(state1), None => state1, });
                let state3 = OperatorDelimitedTreeView::walked_all::<V>(state2, rest, rest.len());
                let state4 = V::step(state3, right.item()).0;
                state4
            },
            VariantView::Annotated { token, annotation, argument, newlines, expression } => {
                let state1 = V::step(state, token.item()).0;
                let state2 = V::step(state1, annotation.item()).0;
                let state3 = (match argument { Some(x) => x.walked::<V>(state2), None => state2, });
                let state4 = walked_tokens::<V, _>(state3, newlines, newlines.len());
                let state5 = (
                    match expression { Some(x) => x.walked::<V>(state4), None => state4, }
                );
                state5
            },
            VariantView::AnnotatedBuiltin { token, annotation, newlines, expression } => {
                let state1 = V::step(state, token.item()).0;
                let state2 = V::step(state1, annotation.item()).0;
                let state3 = walked_tokens::<V, _>(state2, newlines, newlines.len());
                let state4 = (
                    match expression { Some(x) => x.walked::<V>(state3), None => state3, }
                );
                state4
            },
            VariantView::Documented { documentation, expression } => {
                let state1 = documentation.walked::<V>(state);
                let state2 = (
                    match expression { Some(x) => x.walked::<V>(state1), None => state1, }
                );
                state2
            },
            VariantView::ConstructorDefinition { constructor, arguments, block } => {
                let state1 = V::step(state, constructor.item()).0;
                let state2 = ArgumentDefinitionView::walked_all::<V>(
                    state1,
                    arguments,
                    arguments.len(),
                );
                let state3 = ArgumentDefinitionLineView::walked_all::<V>(
                    state2,
                    block,
                    block.len(),
                );
                state3
            },
        }
    }
}

impl LineView {
    /// The state of a visitor that was in `state` and has walked the value.
    pub open spec fn walked<V: ItemVisitor>(self, state: V::State) -> V::State
        decreases self,
    {
        let state1 = V::step(state, self.newline.item()).0;
        let state2 = (match self.expression { Some(x) => x.walked::<V>(state1), None => state1, });
        state2
    }

    /// The state of a visitor that was in `state` and has walked the first
    /// `upto` of the values.
    pub open spec fn walked_all<V: ItemVisitor>(
        state: V::State,
        values: Seq<LineView>,
        upto: nat,
    ) -> V::State
        decreases values, upto,
    {
        if upto == 0 || upto > values.len() {
            state
        } else {
            values[upto - 1].walked::<V>(
                LineView::walked_all::<V>(state, values, (upto - 1) as nat),
            )
        }
    }
}

impl OperatorBlockExpressionView {
    /// The state of a visitor that was in `state` and has walked the value.
    pub open spec fn walked<V: ItemVisitor>(self, state: V::State) -> V::State
        decreases self,
    {
        let state1 = walked_operator_or_error::<V>(state, self.operator);
        let state2 = self.expression.walked::<V>(state1);
        state2
    }
}

impl OperatorLineView {
    /// The state of a visitor that was in `state` and has walked the value.
    pub open spec fn walked<V: ItemVisitor>(self, state: V::State) -> V::State
        decreases self,
    {
        let state1 = V::step(state, self.newline.item()).0;
        let state2 = (match self.expression { Some(x) => x.walked::<V>(state1), None => state1, });
        state2
    }

    /// The state of a visitor that was in `state` and has walked the first
    /// `upto` of the values.
    pub open spec fn walked_all<V: ItemVisitor>(
        state: V::State,
        values: Seq<OperatorLineView>,
        upto: nat,
    ) -> V::State
        decreases values, upto,
    {
        if upto == 0 || upto > values.len() {
            state
        } else {
            values[upto - 1].walked::<V>(
                OperatorLineView::walked_all::<V>(state, values, (upto - 1) as nat),
            )
        }
    }
}

impl ArgumentDefinitionLineView {
    /// The state of a visitor that was in `state` and has walked the value.
    pub open spec fn walked<V: ItemVisitor>(self, state: V::State) -> V::State
        decreases self,
    {
        let state1 = V::step(state, self.newline.item()).0;
        let state2 = (match self.argument { Some(x) => x.walked::<V>(state1), None => state1, });
        state2
    }

    /// The state of a visitor that was in `state` and has walked the first
    /// `upto` of the values.
    pub open spec fn walked_all<V: ItemVisitor>(
        state: V::State,
        values: Seq<ArgumentDefinitionLineView>,
        upto: nat,
    ) -> V::State
        decreases values, upto,
    {
        if upto == 0 || upto > values.len() {
            state
        } else {
            values[upto - 1].walked::<V>(
                ArgumentDefinitionLineView::walked_all::<V>(state, values, (upto - 1) as nat),
            )
        }
    }
}

impl TextElementView {
    /// The state of a visitor that was in `state` and has walked the value.
    pub open spec fn walked<V: ItemVisitor>(self, state: V::State) -> V::State
        decreases self,
    {
        match self {
            TextElementView::Section { text } => {
                let state1 = V::step(state, text.item()).0;
                state1
            },
            TextElementView::Escape { token } => {
                let state1 = V::step(state, token.item()).0;
                state1
            },
            TextElementView::Newline { newline } => {
                let state1 = V::step(state, newline.item()).0;
                state1
            },
            TextElementView::Splice { open, expression, close } => {
                let state1 = V::step(state, open.item()).0;
                let state2 = (
                    match expression { Some(x) => x.walked::<V>(state1), None => state1, }
                );
                let state3 = V::step(state2, close.item()).0;
                state3
            },
        }
    }

    /// The state of a visitor that was in `state` and has walked the first
    /// `upto` of the values.
    pub open spec fn walked_all<V: ItemVisitor>(
        state: V::State,
        values: Seq<TextElementView>,
        upto: nat,
    ) -> V::State
        decreases values, upto,
    {
        if upto == 0 || upto > values.len() {
            state
        } else {
            values[upto - 1].walked::<V>(
                TextElementView::walked_all::<V>(state, values, (upto - 1) as nat),
            )
        }
    }
}

impl DocCommentView {
    /// The state of a visitor that was in `state` and has walked the value.
    pub open spec fn walked<V: ItemVisitor>(self, state: V::State) -> V::State
        decreases self,
    {
        let state1 = V::step(state, self.open.item()).0;
        let state2 = TextElementView::walked_all::<V>(state1, self.elements, self.elements.len());
        let state3 = walked_tokens::<V, _>(state2, self.newlines, self.newlines.len());
        state3
    }
}

impl FractionalDigitsView {
    /// The state of a visitor that was in `state` and has walked the value.
    pub open spec fn walked<V: ItemVisitor>(self, state: V::State) -> V::State
        decreases self,
    {
        let state1 = V::step(state, self.dot.item()).0;
        let state2 = V::step(state1, self.digits.item()).0;
        state2
    }
}

impl ArgumentDefinitionView {
    /// The state of a visitor that was in `state` and has walked the value.
    pub open spec fn walked<V: ItemVisitor>(self, state: V::State) -> V::State
        decreases self,
    {
        let state1 = walked_opt_token::<V, _>(state, self.open);
        let state2 = walked_opt_token::<V, _>(state1, self.open2);
        let state3 = walked_opt_token::<V, _>(state2, self.suspension);
        let state4 = self.pattern.walked::<V>(state3);
        let state5 = (match self.type_ { Some(x) => x.walked::<V>(state4), None => state4, });
        let state6 = walked_opt_token::<V, _>(state5, self.close2);
        let state7 = (match self.default { Some(x) => x.walked::<V>(state6), None => state6, });
        let state8 = walked_opt_token::<V, _>(state7, self.close);
        state8
    }

    /// The state of a visitor that was in `state` and has walked the first
    /// `upto` of the values.
    pub open spec fn walked_all<V: ItemVisitor>(
        state: V::State,
        values: Seq<ArgumentDefinitionView>,
        upto: nat,
    ) -> V::State
        decreases values, upto,
    {
        if upto == 0 || upto > values.len() {
            state
        } else {
            values[upto - 1].walked::<V>(
                ArgumentDefinitionView::walked_all::<V>(state, values, (upto - 1) as nat),
            )
        }
    }
}

impl ArgumentDefaultView {
    /// The state of a visitor that was in `state` and has walked the value.
    pub open spec fn walked<V: ItemVisitor>(self, state: V::State) -> V::State
        decreases self,
    {
        let state1 = V::step(state, self.equals.item()).0;
        let state2 = self.expression.walked::<V>(state1);
        state2
    }
}

impl ArgumentTypeView {
    /// The state of a visitor that was in `state` and has walked the value.
    pub open spec fn walked<V: ItemVisitor>(self, state: V::State) -> V::State
        decreases self,
    {
        let state1 = V::step(state, self.operator.item()).0;
        let state2 = self.type_.walked::<V>(state1);
        state2
    }
}

impl ReturnSpecificationView {
    /// The state of a visitor that was in `state` and has walked the value.
    pub open spec fn walked<V: ItemVisitor>(self, state: V::State) -> V::State
        decreases self,
    {
        let state1 = V::step(state, self.arrow.item()).0;
        let state2 = self.type_.walked::<V>(state1);
        state2
    }
}

impl CaseLineView {
    /// The state of a visitor that was in `state` and has walked the value.
    pub open spec fn walked<V: ItemVisitor>(self, state: V::State) -> V::State
        decreases self,
    {
        let state1 = walked_opt_token::<V, _>(state, self.newline);
        let state2 = (match self.case { Some(x) => x.walked::<V>(state1), None => state1, });
        state2
    }

    /// The state of a visitor that was in `state` and has walked the first
    /// `upto` of the values.
    pub open spec fn walked_all<V: ItemVisitor>(
        state: V::State,
        values: Seq<CaseLineView>,
        upto: nat,
    ) -> V::State
        decreases values, upto,
    {
        if upto == 0 || upto > values.len() {
            state
        } else {
            values[upto - 1].walked::<V>(
                CaseLineView::walked_all::<V>(state, values, (upto - 1) as nat),
            )
        }
    }
}

impl CaseView {
    /// The state of a visitor that was in `state` and has walked the value.
    pub open spec fn walked<V: ItemVisitor>(self, state: V::State) -> V::State
        decreases self,
    {
        let state1 = (match self.documentation { Some(x) => x.walked::<V>(state), None => state, });
        let state2 = (match self.pattern { Some(x) => x.walked::<V>(state1), None => state1, });
        let state3 = walked_opt_token::<V, _>(state2, self.arrow);
        let state4 = (match self.expression { Some(x) => x.walked::<V>(state3), None => state3, });
        state4
    }
}

impl TextLiteralView {
    /// The state of a visitor that was in `state` and has walked the value.
    pub open spec fn walked<V: ItemVisitor>(self, state: V::State) -> V::State
        decreases self,
    {
        let state1 = walked_opt_token::<V, _>(state, self.open);
        let state2 = walked_opt_token::<V, _>(state1, self.newline);
        let state3 = TextElementView::walked_all::<V>(state2, self.elements, self.elements.len());
        let state4 = walked_opt_token::<V, _>(state3, self.close);
        state4
    }
}

impl MultipleOperatorErrorView {
    /// The state of a visitor that was in `state` and has walked the value.
    pub open spec fn walked<V: ItemVisitor>(self, state: V::State) -> V::State
        decreases self,
    {
        let state1 = walked_tokens::<V, _>(state, self.operators, self.operators.len());
        state1
    }
}

impl MultiSegmentAppSegmentView {
    /// The state of a visitor that was in `state` and has walked the value.
    pub open spec fn walked<V: ItemVisitor>(self, state: V::State) -> V::State
        decreases self,
    {
        let state1 = V::step(state, self.header.item()).0;
        let state2 = (match self.body { Some(x) => x.walked::<V>(state1), None => state1, });
        state2
    }

    /// The state of a visitor that was in `state` and has walked the first
    /// `upto` of the values.
    pub open spec fn walked_all<V: ItemVisitor>(
        state: V::State,
        values: Seq<MultiSegmentAppSegmentView>,
        upto: nat,
    ) -> V::State
        decreases values, upto,
    {
        if upto == 0 || upto > values.len() {
            state
        } else {
            values[upto - 1].walked::<V>(
                MultiSegmentAppSegmentView::walked_all::<V>(state, values, (upto - 1) as nat),
            )
        }
    }
}

impl OperatorDelimitedTreeView {
    /// The state of a visitor that was in `state` and has walked the value.
    pub open spec fn walked<V: ItemVisitor>(self, state: V::State) -> V::State
        decreases self,
    {
        let state1 = V::step(state, self.operator.item()).0;
        let state2 = (match self.body { Some(x) => x.walked::<V>(state1), None => state1, });
        state2
    }

    /// The state of a visitor that was in `state` and has walked the first
    /// `upto` of the values.
    pub open spec fn walked_all<V: ItemVisitor>(
        state: V::State,
        values: Seq<OperatorDelimitedTreeView>,
        upto: nat,
    ) -> V::State
        decreases values, upto,
    {
        if upto == 0 || upto > values.len() {
            state
        } else {
            values[upto - 1].walked::<V>(
                OperatorDelimitedTreeView::walked_all::<V>(state, values, (upto - 1) as nat),
            )
        }
    }
}

/// Hands the items that `Invalid` holds to `visitor`.
fn visit_invalid<V: ItemVisitor>(node: &Variant, visitor: &mut V)
    requires
        (node is Invalid),
    ensures
        final(visitor).state() == node@.walked::<V>(old(visitor).state()),
    decreases node, 0int,
{
    match node {
        Variant::Invalid { error: _, ast } => {
            ast.visit_item(visitor);
        },
        _ => {},
    }
}

/// Hands the items that `BodyBlock` holds to `visitor`.
fn visit_body_block<V: ItemVisitor>(node: &Variant, visitor: &mut V)
    requires
        (node is BodyBlock),
    ensures
        final(visitor).state() == node@.walked::<V>(old(visitor).state()),
    decreases node, 0int,
{
    match node {
        Variant::BodyBlock { statements } => {
            Line::visit_all(statements, visitor);
        },
        _ => {},
    }
}

/// Hands the items that `ArgumentBlockApplication` holds to `visitor`.
fn visit_argument_block_application<V: ItemVisitor>(node: &Variant, visitor: &mut V)
    requires
        (node is ArgumentBlockApplication),
    ensures
        final(visitor).state() == node@.walked::<V>(old(visitor).state()),
    decreases node, 0int,
{
    match node {
        Variant::ArgumentBlockApplication { lhs, arguments } => {
            match lhs {
                Some(x) => x.visit_item(visitor),
                None => {},
            }
            Line::visit_all(arguments, visitor);
        },
        _ => {},
    }
}

/// Hands the items that `OperatorBlockApplication` holds to `visitor`.
fn visit_operator_block_application<V: ItemVisitor>(node: &Variant, visitor: &mut V)
    requires
        (node is OperatorBlockApplication),
    ensures
        final(visitor).state() == node@.walked::<V>(old(visitor).state()),
    decreases node, 0int,
{
    match node {
        Variant::OperatorBlockApplication { lhs, expressions, excess } => {
            match lhs {
                Some(x) => x.visit_item(visitor),
                None => {},
            }
            OperatorLine::visit_all(expressions, visitor);
            Line::visit_all(excess, visitor);
        },
        _ => {},
    }
}

/// Hands the items that `Ident` holds to `visitor`.
fn visit_ident<V: ItemVisitor>(node: &Variant, visitor: &mut V)
    requires
        (node is Ident),
    ensures
        final(visitor).state() == node@.walked::<V>(old(visitor).state()),
    decreases node, 0int,
{
    match node {
        Variant::Ident { token } => {
            token.visit_item(visitor);
        },
        _ => {},
    }
}

/// Hands the items that `Private` holds to `visitor`.
fn visit_private<V: ItemVisitor>(node: &Variant, visitor: &mut V)
    requires
        (node is Private),
    ensures
        final(visitor).state() == node@.walked::<V>(old(visitor).state()),
    decreases node, 0int,
{
    match node {
        Variant::Private { keyword, body } => {
            keyword.visit_item(visitor);
            match body {
                Some(x) => x.visit_item(visitor),
                None => {},
            }
        },
        _ => {},
    }
}

/// Hands the items that `Number` holds to `visitor`.
fn visit_number<V: ItemVisitor>(node: &Variant, visitor: &mut V)
    requires
        (node is Number),
    ensures
        final(visitor).state() == node@.walked::<V>(old(visitor).state()),
    decreases node, 0int,
{
    match node {
        Variant::Number { base, integer, fractional_digits } => {
            match base {
                Some(x) => x.visit_item(visitor),
                None => {},
            }
            match integer {
                Some(x) => x.visit_item(visitor),
                None => {},
            }
            match fractional_digits {
                Some(x) => x.visit_item(visitor),
                None => {},
            }
        },
        _ => {},
    }
}

/// Hands the items that `Wildcard` holds to `visitor`.
fn visit_wildcard<V: ItemVisitor>(node: &Variant, visitor: &mut V)
    requires
        (node is Wildcard),
    ensures
        final(visitor).state() == node@.walked::<V>(old(visitor).state()),
    decreases node, 0int,
{
    match node {
        Variant::Wildcard { token, de_bruijn_index: _ } => {
            token.visit_item(visitor);
        },
        _ => {},
    }
}

/// Hands the items that `SuspendedDefaultArguments` holds to `visitor`.
fn visit_suspended_default_arguments<V: ItemVisitor>(node: &Variant, visitor: &mut V)
    requires
        (node is SuspendedDefaultArguments),
    ensures
        final(visitor).state() == node@.walked::<V>(old(visitor).state()),
    decreases node, 0int,
{
    match node {
        Variant::SuspendedDefaultArguments { token } => {
            token.visit_item(visitor);
        },
        _ => {},
    }
}

/// Hands the items that `TextLiteral` holds to `visitor`.
fn visit_text_literal<V: ItemVisitor>(node: &Variant, visitor: &mut V)
    requires
        (node is TextLiteral),
    ensures
        final(visitor).state() == node@.walked::<V>(old(visitor).state()),
    decreases node, 0int,
{
    match node {
        Variant::TextLiteral { open, newline, elements, close, closed: _ } => {
            match open {
                Some(x) => x.visit_item(visitor),
                None => {},
            }
            match newline {
                Some(x) => x.visit_item(visitor),
                None => {},
            }
            TextElement::visit_all(elements, visitor);
            match close {
                Some(x) => x.visit_item(visitor),
                None => {},
            }
        },
        _ => {},
    }
}

/// Hands the items that `App` holds to `visitor`.
fn visit_app<V: ItemVisitor>(node: &Variant, visitor: &mut V)
    requires
        (node is App),
    ensures
        final(visitor).state() == node@.walked::<V>(old(visitor).state()),
    decreases node, 0int,
{
    match node {
        Variant::App { func, arg } => {
            func.visit_item(visitor);
            arg.visit_item(visitor);
        },
        _ => {},
    }
}

/// Hands the items that `NamedApp` holds to `visitor`.
fn visit_named_app<V: ItemVisitor>(node: &Variant, visitor: &mut V)
    requires
        (node is NamedApp),
    ensures
        final(visitor).state() == node@.walked::<V>(old(visitor).state()),
    decreases node, 0int,
{
    match node {
        Variant::NamedApp { func, open, name, equals, arg, close } => {
            func.visit_item(visitor);
            match open {
                Some(x) => x.visit_item(visitor),
                None => {},
            }
            name.visit_item(visitor);
            equals.visit_item(visitor);
            arg.visit_item(visitor);
            match close {
                Some(x) => x.visit_item(visitor),
                None => {},
            }
        },
        _ => {},
    }
}

/// Hands the items that `OprApp` holds to `visitor`.
fn visit_opr_app<V: ItemVisitor>(node: &Variant, visitor: &mut V)
    requires
        (node is OprApp),
    ensures
        final(visitor).state() == node@.walked::<V>(old(visitor).state()),
    decreases node, 0int,
{
    match node {
        Variant::OprApp { lhs, opr, rhs } => {
            match lhs {
                Some(x) => x.visit_item(visitor),
                None => {},
            }
            match opr {
                Ok(x) => x.visit_item(visitor),
                Err(x) => x.visit_item(visitor),
            }
            match rhs {
                Some(x) => x.visit_item(visitor),
                None => {},
            }
        },
        _ => {},
    }
}

/// Hands the items that `UnaryOprApp` holds to `visitor`.
fn visit_unary_opr_app<V: ItemVisitor>(node: &Variant, visitor: &mut V)
    requires
        (node is UnaryOprApp),
    ensures
        final(visitor).state() == node@.walked::<V>(old(visitor).state()),
    decreases node, 0int,
{
    match node {
        Variant::UnaryOprApp { opr, rhs } => {
            opr.visit_item(visitor);
            match rhs {
                Some(x) => x.visit_item(visitor),
                None => {},
            }
        },
        _ => {},
    }
}

/// Hands the items that `AutoscopedIdentifier` holds to `visitor`.
fn visit_autoscoped_identifier<V: ItemVisitor>(node: &Variant, visitor: &mut V)
    requires
        (node is AutoscopedIdentifier),
    ensures
        final(visitor).state() == node@.walked::<V>(old(visitor).state()),
    decreases node, 0int,
{
    match node {
        Variant::AutoscopedIdentifier { opr, ident } => {
            opr.visit_item(visitor);
            ident.visit_item(visitor);
        },
        _ => {},
    }
}

/// Hands the items that `OprSectionBoundary` holds to `visitor`.
fn visit_opr_section_boundary<V: ItemVisitor>(node: &Variant, visitor: &mut V)
    requires
        (node is OprSectionBoundary),
    ensures
        final(visitor).state() == node@.walked::<V>(old(visitor).state()),
    decreases node, 0int,
{
    match node {
        Variant::OprSectionBoundary { arguments: _, ast } => {
            ast.visit_item(visitor);
        },
        _ => {},
    }
}

/// Hands the items that `TemplateFunction` holds to `visitor`.
fn visit_template_function<V: ItemVisitor>(node: &Variant, visitor: &mut V)
    requires
        (node is TemplateFunction),
    ensures
        final(visitor).state() == node@.walked::<V>(old(visitor).state()),
    decreases node, 0int,
{
    match node {
        Variant::TemplateFunction { arguments: _, ast } => {
            ast.visit_item(visitor);
        },
        _ => {},
    }
}

/// Hands the items that `MultiSegmentApp` holds to `visitor`.
fn visit_multi_segment_app<V: ItemVisitor>(node: &Variant, visitor: &mut V)
    requires
        (node is MultiSegmentApp),
    ensures
        final(visitor).state() == node@.walked::<V>(old(visitor).state()),
    decreases node, 0int,
{
    match node {
        Variant::MultiSegmentApp { segments } => {
            MultiSegmentAppSegment::visit_all(segments, visitor);
        },
        _ => {},
    }
}

/// Hands the items that `TypeDef` holds to `visitor`.
fn visit_type_def<V: ItemVisitor>(node: &Variant, visitor: &mut V)
    requires
        (node is TypeDef),
    ensures
        final(visitor).state() == node@.walked::<V>(old(visitor).state()),
    decreases node, 0int,
{
    match node {
        Variant::TypeDef { keyword, name, params, body } => {
            keyword.visit_item(visitor);
            name.visit_item(visitor);
            ArgumentDefinition::visit_all(params, visitor);
            Line::visit_all(body, visitor);
        },
        _ => {},
    }
}

/// Hands the items that `Assignment` holds to `visitor`.
fn visit_assignment<V: ItemVisitor>(node: &Variant, visitor: &mut V)
    requires
        (node is Assignment),
    ensures
        final(visitor).state() == node@.walked::<V>(old(visitor).state()),
    decreases node, 0int,
{
    match node {
        Variant::Assignment { pattern, equals, expr } => {
            pattern.visit_item(visitor);
            equals.visit_item(visitor);
            expr.visit_item(visitor);
        },
        _ => {},
    }
}

/// Hands the items that `Function` holds to `visitor`.
fn visit_function<V: ItemVisitor>(node: &Variant, visitor: &mut V)
    requires
        (node is Function),
    ensures
        final(visitor).state() == node@.walked::<V>(old(visitor).state()),
    decreases node, 0int,
{
    match node {
        Variant::Function { name, args, returns_, equals, body } => {
            name.visit_item(visitor);
            ArgumentDefinition::visit_all(args, visitor);
            match returns_ {
                Some(x) => x.visit_item(visitor),
                None => {},
            }
            equals.visit_item(visitor);
            match body {
                Some(x) => x.visit_item(visitor),
                None => {},
            }
        },
        _ => {},
    }
}

/// Hands the items that `ForeignFunction` holds to `visitor`.
fn visit_foreign_function<V: ItemVisitor>(node: &Variant, visitor: &mut V)
    requires
        (node is ForeignFunction),
    ensures
        final(visitor).state() == node@.walked::<V>(old(visitor).state()),
    decreases node, 0int,
{
    match node {
        Variant::ForeignFunction { foreign, language, name, args, equals, body } => {
            foreign.visit_item(visitor);
            language.visit_item(visitor);
            name.visit_item(visitor);
            ArgumentDefinition::visit_all(args, visitor);
            equals.visit_item(visitor);
            body.visit_item(visitor);
        },
        _ => {},
    }
}

/// Hands the items that `Import` holds to `visitor`.
fn visit_import<V: ItemVisitor>(node: &Variant, visitor: &mut V)
    requires
        (node is Import),
    ensures
        final(visitor).state() == node@.walked::<V>(old(visitor).state()),
    decreases node, 0int,
{
    match node {
        Variant::Import { polyglot, from, import, all, as_, hiding } => {
            match polyglot {
                Some(x) => x.visit_item(visitor),
                None => {},
            }
            match from {
                Some(x) => x.visit_item(visitor),
                None => {},
            }
            import.visit_item(visitor);
            match all {
                Some(x) => x.visit_item(visitor),
                None => {},
            }
            match as_ {
                Some(x) => x.visit_item(visitor),
                None => {},
            }
            match hiding {
                Some(x) => x.visit_item(visitor),
                None => {},
            }
        },
        _ => {},
    }
}

/// Hands the items that `Export` holds to `visitor`.
fn visit_export<V: ItemVisitor>(node: &Variant, visitor: &mut V)
    requires
        (node is Export),
    ensures
        final(visitor).state() == node@.walked::<V>(old(visitor).state()),
    decreases node, 0int,
{
    match node {
        Variant::Export { from, export, all, as_, hiding } => {
            match from {
                Some(x) => x.visit_item(visitor),
                None => {},
            }
            export.visit_item(visitor);
            match all {
                Some(x) => x.visit_item(visitor),
                None => {},
            }
            match as_ {
                Some(x) => x.visit_item(visitor),
                None => {},
            }
            match hiding {
                Some(x) => x.visit_item(visitor),
                None => {},
            }
        },
        _ => {},
    }
}

/// Hands the items that `Group` holds to `visitor`.
fn visit_group<V: ItemVisitor>(node: &Variant, visitor: &mut V)
    requires
        (node is Group),
    ensures
        final(visitor).state() == node@.walked::<V>(old(visitor).state()),
    decreases node, 0int,
{
    match node {
        Variant::Group { open, body, close } => {
            match open {
                Some(x) => x.visit_item(visitor),
                None => {},
            }
            match body {
                Some(x) => x.visit_item(visitor),
                None => {},
            }
            match close {
                Some(x) => x.visit_item(visitor),
                None => {},
            }
        },
        _ => {},
    }
}

/// Hands the items that `TypeSignature` holds to `visitor`.
fn visit_type_signature<V: ItemVisitor>(node: &Variant, visitor: &mut V)
    requires
        (node is TypeSignature),
    ensures
        final(visitor).state() == node@.walked::<V>(old(visitor).state()),
    decreases node, 0int,
{
    match node {
        Variant::TypeSignature { variable, operator, type_ } => {
            variable.visit_item(visitor);
            operator.visit_item(visitor);
            type_.visit_item(visitor);
        },
        _ => {},
    }
}

/// Hands the items that `TypeAnnotated` holds to `visitor`.
fn visit_type_annotated<V: ItemVisitor>(node: &Variant, visitor: &mut V)
    requires
        (node is TypeAnnotated),
    ensures
        final(visitor).state() == node@.walked::<V>(old(visitor).state()),
    decreases node, 0int,
{
    match node {
        Variant::TypeAnnotated { expression, operator, type_ } => {
            expression.visit_item(visitor);
            operator.visit_item(visitor);
            type_.visit_item(visitor);
        },
        _ => {},
    }
}

/// Hands the items that `CaseOf` holds to `visitor`.
fn visit_case_of<V: ItemVisitor>(node: &Variant, visitor: &mut V)
    requires
        (node is CaseOf),
    ensures
        final(visitor).state() == node@.walked::<V>(old(visitor).state()),
    decreases node, 0int,
{
    match node {
        Variant::CaseOf { case, expression, of, cases } => {
            case.visit_item(visitor);
            match expression {
                Some(x) => x.visit_item(visitor),
                None => {},
            }
            of.visit_item(visitor);
            CaseLine::visit_all(cases, visitor);
        },
        _ => {},
    }
}

/// Hands the items that `Lambda` holds to `visitor`.
fn visit_lambda<V: ItemVisitor>(node: &Variant, visitor: &mut V)
    requires
        (node is Lambda),
    ensures
        final(visitor).state() == node@.walked::<V>(old(visitor).state()),
    decreases node, 0int,
{
    match node {
        Variant::Lambda { operator, arrow } => {
            operator.visit_item(visitor);
            match arrow {
                Some(x) => x.visit_item(visitor),
                None => {},
            }
        },
        _ => {},
    }
}

/// Hands the items that `Array` holds to `visitor`.
fn visit_array<V: ItemVisitor>(node: &Variant, visitor: &mut V)
    requires
        (node is Array),
    ensures
        final(visitor).state() == node@.walked::<V>(old(visitor).state()),
    decreases node, 0int,
{
    match node {
        Variant::Array { left, first, rest, right } => {
            left.visit_item(visitor);
            match first {
                Some(x) => x.visit_item(visitor),
                None => {},
            }
            OperatorDelimitedTree::visit_all(rest, visitor);
            right.visit_item(visitor);
        },
        _ => {},
    }
}

/// Hands the items that `Tuple` holds to `visitor`.
fn visit_tuple<V: ItemVisitor>(node: &Variant, visitor: &mut V)
    requires
        (node is Tuple),
    ensures
        final(visitor).state() == node@.walked::<V>(old(visitor).state()),
    decreases node, 0int,
{
    match node {
        Variant::Tuple { left, first, rest, right } => {
            left.visit_item(visitor);
            match first {
                Some(x) => x.visit_item(visitor),
                None => {},
            }
            OperatorDelimitedTree::visit_all(rest, visitor);
            right.visit_item(visitor);
        },
        _ => {},
    }
}

/// Hands the items that `Annotated` holds to `visitor`.
fn visit_annotated<V: ItemVisitor>(node: &Variant, visitor: &mut V)
    requires
        (node is Annotated),
    ensures
        final(visitor).state() == node@.walked::<V>(old(visitor).state()),
    decreases node, 0int,
{
    match node {
        Variant::Annotated { token, annotation, argument, newlines, expression } => {
            token.visit_item(visitor);
            annotation.visit_item(visitor);
            match argument {
                Some(x) => x.visit_item(visitor),
                None => {},
            }
            visit_tokens(newlines, visitor);
            match expression {
                Some(x) => x.visit_item(visitor),
                None => {},
            }
        },
        _ => {},
    }
}

/// Hands the items that `AnnotatedBuiltin` holds to `visitor`.
fn visit_annotated_builtin<V: ItemVisitor>(node: &Variant, visitor: &mut V)
    requires
        (node is AnnotatedBuiltin),
    ensures
        final(visitor).state() == node@.walked::<V>(old(visitor).state()),
    decreases node, 0int,
{
    match node {
        Variant::AnnotatedBuiltin { token, annotation, newlines, expression } => {
            token.visit_item(visitor);
            annotation.visit_item(visitor);
            visit_tokens(newlines, visitor);
            match expression {
                Some(x) => x.visit_item(visitor),
                None => {},
            }
        },
        _ => {},
    }
}

/// Hands the items that `Documented` holds to `visitor`.
fn visit_documented<V: ItemVisitor>(node: &Variant, visitor: &mut V)
    requires
        (node is Documented),
    ensures
        final(visitor).state() == node@.walked::<V>(old(visitor).state()),
    decreases node, 0int,
{
    match node {
        Variant::Documented { documentation, expression } => {
            documentation.visit_item(visitor);
            match expression {
                Some(x) => x.visit_item(visitor),
                None => {},
            }
        },
        _ => {},
    }
}

/// Hands the items that `ConstructorDefinition` holds to `visitor`.
fn visit_constructor_definition<V: ItemVisitor>(node: &Variant, visitor: &mut V)
    requires
        (node is ConstructorDefinition),
    ensures
        final(visitor).state() == node@.walked::<V>(old(visitor).state()),
    decreases node, 0int,
{
    match node {
        Variant::ConstructorDefinition { constructor, arguments, block } => {
            constructor.visit_item(visitor);
            ArgumentDefinition::visit_all(arguments, visitor);
            ArgumentDefinitionLine::visit_all(block, visitor);
        },
        _ => {},
    }
}

impl Variant {
    /// Hands the items that the value holds to `visitor`, in order, and walks
    /// into each node that the visitor asks for.
    pub fn visit_item<V: ItemVisitor>(&self, visitor: &mut V)
        ensures
            final(visitor).state() == self@.walked::<V>(old(visitor).state()),
        decreases self, 1int,
    {
        match self {
            Variant::Invalid { .. } => visit_invalid(self, visitor),
            Variant::BodyBlock { .. } => visit_body_block(self, visitor),
            Variant::ArgumentBlockApplication { .. } => visit_argument_block_application(
                self,
                visitor,
            ),
            Variant::OperatorBlockApplication { .. } => visit_operator_block_application(
                self,
                visitor,
            ),
            Variant::Ident { .. } => visit_ident(self, visitor),
            Variant::Private { .. } => visit_private(self, visitor),
            Variant::Number { .. } => visit_number(self, visitor),
            Variant::Wildcard { .. } => visit_wildcard(self, visitor),
            Variant::SuspendedDefaultArguments { .. } => visit_suspended_default_arguments(
                self,
                visitor,
            ),
            Variant::TextLiteral { .. } => visit_text_literal(self, visitor),
            Variant::App { .. } => visit_app(self, visitor),
            Variant::NamedApp { .. } => visit_named_app(self, visitor),
            Variant::OprApp { .. } => visit_opr_app(self, visitor),
            Variant::UnaryOprApp { .. } => visit_unary_opr_app(self, visitor),
            Variant::AutoscopedIdentifier { .. } => visit_autoscoped_identifier(self, visitor),
            Variant::OprSectionBoundary { .. } => visit_opr_section_boundary(self, visitor),
            Variant::TemplateFunction { .. } => visit_template_function(self, visitor),
            Variant::MultiSegmentApp { .. } => visit_multi_segment_app(self, visitor),
            Variant::TypeDef { .. } => visit_type_def(self, visitor),
            Variant::Assignment { .. } => visit_assignment(self, visitor),
            Variant::Function { .. } => visit_function(self, visitor),
            Variant::ForeignFunction { .. } => visit_foreign_function(self, visitor),
            Variant::Import { .. } => visit_import(self, visitor),
            Variant::Export { .. } => visit_export(self, visitor),
            Variant::Group { .. } => visit_group(self, visitor),
            Variant::TypeSignature { .. } => visit_type_signature(self, visitor),
            Variant::TypeAnnotated { .. } => visit_type_annotated(self, visitor),
            Variant::CaseOf { .. } => visit_case_of(self, visitor),
            Variant::Lambda { .. } => visit_lambda(self, visitor),
            Variant::Array { .. } => visit_array(self, visitor),
            Variant::Tuple { .. } => visit_tuple(self, visitor),
            Variant::Annotated { .. } => visit_annotated(self, visitor),
            Variant::AnnotatedBuiltin { .. } => visit_annotated_builtin(self, visitor),
            Variant::Documented { .. } => visit_documented(self, visitor),
            Variant::ConstructorDefinition { .. } => visit_constructor_definition(self, visitor),
        }
    }
}

impl Line {
    /// Hands the items that the value holds to `visitor`, in order, and walks
    /// into each node that the visitor asks for.
    pub fn visit_item<V: ItemVisitor>(&self, visitor: &mut V)
        ensures
            final(visitor).state() == self@.walked::<V>(old(visitor).state()),
        decreases self,
    {
        self.newline.visit_item(visitor);
        match &self.expression {
            Some(x) => x.visit_item(visitor),
            None => {},
        }
    }

    /// Hands the items that the values hold to `visitor`, in order.
    pub fn visit_all<V: ItemVisitor>(values: &Vec<Line>, visitor: &mut V)
        ensures
            final(visitor).state() == LineView::walked_all::<V>(
                old(visitor).state(),
                Line::views(values@),
                values@.len(),
            ),
        decreases values,
    {
        let ghost start = visitor.state();
        let ghost models = Line::views(values@);
        let mut i: usize = 0;
        while i < values.len()
            invariant
                i <= values@.len(),
                models == Line::views(values@),
                visitor.state() == LineView::walked_all::<V>(start, models, i as nat),
            decreases values@.len() - i,
        {
            values[i].visit_item(visitor);
            i = i + 1;
        }
    }
}

impl OperatorBlockExpression {
    /// Hands the items that the value holds to `visitor`, in order, and walks
    /// into each node that the visitor asks for.
    pub fn visit_item<V: ItemVisitor>(&self, visitor: &mut V)
        ensures
            final(visitor).state() == self@.walked::<V>(old(visitor).state()),
        decreases self,
    {
        match &self.operator {
            Ok(x) => x.visit_item(visitor),
            Err(x) => x.visit_item(visitor),
        }
        self.expression.visit_item(visitor);
    }
}

impl OperatorLine {
    /// Hands the items that the value holds to `visitor`, in order, and walks
    /// into each node that the visitor asks for.
    pub fn visit_item<V: ItemVisitor>(&self, visitor: &mut V)
        ensures
            final(visitor).state() == self@.walked::<V>(old(visitor).state()),
        decreases self,
    {
        self.newline.visit_item(visitor);
        match &self.expression {
            Some(x) => x.visit_item(visitor),
            None => {},
        }
    }

    /// Hands the items that the values hold to `visitor`, in order.
    pub fn visit_all<V: ItemVisitor>(values: &Vec<OperatorLine>, visitor: &mut V)
        ensures
            final(visitor).state() == OperatorLineView::walked_all::<V>(
                old(visitor).state(),
                OperatorLine::views(values@),
                values@.len(),
            ),
        decreases values,
    {
        let ghost start = visitor.state();
        let ghost models = OperatorLine::views(values@);
        let mut i: usize = 0;
        while i < values.len()
            invariant
                i <= values@.len(),
                models == OperatorLine::views(values@),
                visitor.state() == OperatorLineView::walked_all::<V>(start, models, i as nat),
            decreases values@.len() - i,
        {
            values[i].visit_item(visitor);
            i = i + 1;
        }
    }
}

impl ArgumentDefinitionLine {
    /// Hands the items that the value holds to `visitor`, in order, and walks
    /// into each node that the visitor asks for.
    pub fn visit_item<V: ItemVisitor>(&self, visitor: &mut V)
        ensures
            final(visitor).state() == self@.walked::<V>(old(visitor).state()),
        decreases self,
    {
        self.newline.visit_item(visitor);
        match &self.argument {
            Some(x) => x.visit_item(visitor),
            None => {},
        }
    }

    /// Hands the items that the values hold to `visitor`, in order.
    pub fn visit_all<V: ItemVisitor>(values: &Vec<ArgumentDefinitionLine>, visitor: &mut V)
        ensures
            final(visitor).state() == ArgumentDefinitionLineView::walked_all::<V>(
                old(visitor).state(),
                ArgumentDefinitionLine::views(values@),
                values@.len(),
            ),
        decreases values,
    {
        let ghost start = visitor.state();
        let ghost models = ArgumentDefinitionLine::views(values@);
        let mut i: usize = 0;
        while i < values.len()
            invariant
                i <= values@.len(),
                models == ArgumentDefinitionLine::views(values@),
                visitor.state() == ArgumentDefinitionLineView::walked_all::<V>(
                    start,
                    models,
                    i as nat,
                ),
            decreases values@.len() - i,
        {
            values[i].visit_item(visitor);
            i = i + 1;
        }
    }
}

impl TextElement {
    /// Hands the items that the value holds to `visitor`, in order, and walks
    /// into each node that the visitor asks for.
    pub fn visit_item<V: ItemVisitor>(&self, visitor: &mut V)
        ensures
            final(visitor).state() == self@.walked::<V>(old(visitor).state()),
        decreases self,
    {
        match self {
            TextElement::Section { text } => {
                text.visit_item(visitor);
            },
            TextElement::Escape { token } => {
                token.visit_item(visitor);
            },
            TextElement::Newline { newline } => {
                newline.visit_item(visitor);
            },
            TextElement::Splice { open, expression, close } => {
                open.visit_item(visitor);
                match expression {
                    Some(x) => x.visit_item(visitor),
                    None => {},
                }
                close.visit_item(visitor);
            },
        }
    }

    /// Hands the items that the values hold to `visitor`, in order.
    pub fn visit_all<V: ItemVisitor>(values: &Vec<TextElement>, visitor: &mut V)
        ensures
            final(visitor).state() == TextElementView::walked_all::<V>(
                old(visitor).state(),
                TextElement::views(values@),
                values@.len(),
            ),
        decreases values,
    {
        let ghost start = visitor.state();
        let ghost models = TextElement::views(values@);
        let mut i: usize = 0;
        while i < values.len()
            invariant
                i <= values@.len(),
                models == TextElement::views(values@),
                visitor.state() == TextElementView::walked_all::<V>(start, models, i as nat),
            decreases values@.len() - i,
        {
            values[i].visit_item(visitor);
            i = i + 1;
        }
    }
}

impl DocComment {
    /// Hands the items that the value holds to `visitor`, in order, and walks
    /// into each node that the visitor asks for.
    pub fn visit_item<V: ItemVisitor>(&self, visitor: &mut V)
        ensures
            final(visitor).state() == self@.walked::<V>(old(visitor).state()),
        decreases self,
    {
        self.open.visit_item(visitor);
        TextElement::visit_all(&self.elements, visitor);
        visit_tokens(&self.newlines, visitor);
    }
}

impl FractionalDigits {
    /// Hands the items that the value holds to `visitor`, in order, and walks
    /// into each node that the visitor asks for.
    pub fn visit_item<V: ItemVisitor>(&self, visitor: &mut V)
        ensures
            final(visitor).state() == self@.walked::<V>(old(visitor).state()),
        decreases self,
    {
        self.dot.visit_item(visitor);
        self.digits.visit_item(visitor);
    }
}

impl ArgumentDefinition {
    /// Hands the items that the value holds to `visitor`, in order, and walks
    /// into each node that the visitor asks for.
    pub fn visit_item<V: ItemVisitor>(&self, visitor: &mut V)
        ensures
            final(visitor).state() == self@.walked::<V>(old(visitor).state()),
        decreases self,
    {
        match &self.open {
            Some(x) => x.visit_item(visitor),
            None => {},
        }
        match &self.open2 {
            Some(x) => x.visit_item(visitor),
            None => {},
        }
        match &self.suspension {
            Some(x) => x.visit_item(visitor),
            None => {},
        }
        self.pattern.visit_item(visitor);
        match &self.type_ {
            Some(x) => x.visit_item(visitor),
            None => {},
        }
        match &self.close2 {
            Some(x) => x.visit_item(visitor),
            None => {},
        }
        match &self.default {
            Some(x) => x.visit_item(visitor),
            None => {},
        }
        match &self.close {
            Some(x) => x.visit_item(visitor),
            None => {},
        }
    }

    /// Hands the items that the values hold to `visitor`, in order.
    pub fn visit_all<V: ItemVisitor>(values: &Vec<ArgumentDefinition>, visitor: &mut V)
        ensures
            final(visitor).state() == ArgumentDefinitionView::walked_all::<V>(
                old(visitor).state(),
                ArgumentDefinition::views(values@),
                values@.len(),
            ),
        decreases values,
    {
        let ghost start = visitor.state();
        let ghost models = ArgumentDefinition::views(values@);
        let mut i: usize = 0;
        while i < values.len()
            invariant
                i <= values@.len(),
                models == ArgumentDefinition::views(values@),
                visitor.state() == ArgumentDefinitionView::walked_all::<V>(start, models, i as nat),
            decreases values@.len() - i,
        {
            values[i].visit_item(visitor);
            i = i + 1;
        }
    }
}

impl ArgumentDefault {
    /// Hands the items that the value holds to `visitor`, in order, and walks
    /// into each node that the visitor asks for.
    pub fn visit_item<V: ItemVisitor>(&self, visitor: &mut V)
        ensures
            final(visitor).state() == self@.walked::<V>(old(visitor).state()),
        decreases self,
    {
        self.equals.visit_item(visitor);
        self.expression.visit_item(visitor);
    }
}

impl ArgumentType {
    /// Hands the items that the value holds to `visitor`, in order, and walks
    /// into each node that the visitor asks for.
    pub fn visit_item<V: ItemVisitor>(&self, visitor: &mut V)
        ensures
            final(visitor).state() == self@.walked::<V>(old(visitor).state()),
        decreases self,
    {
        self.operator.visit_item(visitor);
        self.type_.visit_item(visitor);
    }
}

impl ReturnSpecification {
    /// Hands the items that the value holds to `visitor`, in order, and walks
    /// into each node that the visitor asks for.
    pub fn visit_item<V: ItemVisitor>(&self, visitor: &mut V)
        ensures
            final(visitor).state() == self@.walked::<V>(old(visitor).state()),
        decreases self,
    {
        self.arrow.visit_item(visitor);
        self.type_.visit_item(visitor);
    }
}

impl CaseLine {
    /// Hands the items that the value holds to `visitor`, in order, and walks
    /// into each node that the visitor asks for.
    pub fn visit_item<V: ItemVisitor>(&self, visitor: &mut V)
        ensures
            final(visitor).state() == self@.walked::<V>(old(visitor).state()),
        decreases self,
    {
        match &self.newline {
            Some(x) => x.visit_item(visitor),
            None => {},
        }
        match &self.case {
            Some(x) => x.visit_item(visitor),
            None => {},
        }
    }

    /// Hands the items that the values hold to `visitor`, in order.
    pub fn visit_all<V: ItemVisitor>(values: &Vec<CaseLine>, visitor: &mut V)
        ensures
            final(visitor).state() == CaseLineView::walked_all::<V>(
                old(visitor).state(),
                CaseLine::views(values@),
                values@.len(),
            ),
        decreases values,
    {
        let ghost start = visitor.state();
        let ghost models = CaseLine::views(values@);
        let mut i: usize = 0;
        while i < values.len()
            invariant
                i <= values@.len(),
                models == CaseLine::views(values@),
                visitor.state() == CaseLineView::walked_all::<V>(start, models, i as nat),
            decreases values@.len() - i,
        {
            values[i].visit_item(visitor);
            i = i + 1;
        }
    }
}

impl Case {
    /// Hands the items that the value holds to `visitor`, in order, and walks
    /// into each node that the visitor asks for.
    pub fn visit_item<V: ItemVisitor>(&self, visitor: &mut V)
        ensures
            final(visitor).state() == self@.walked::<V>(old(visitor).state()),
        decreases self,
    {
        match &self.documentation {
            Some(x) => x.visit_item(visitor),
            None => {},
        }
        match &self.pattern {
            Some(x) => x.visit_item(visitor),
            None => {},
        }
        match &self.arrow {
            Some(x) => x.visit_item(visitor),
            None => {},
        }
        match &self.expression {
            Some(x) => x.visit_item(visitor),
            None => {},
        }
    }
}

impl TextLiteral {
    /// Hands the items that the value holds to `visitor`, in order, and walks
    /// into each node that the visitor asks for.
    pub fn visit_item<V: ItemVisitor>(&self, visitor: &mut V)
        ensures
            final(visitor).state() == self@.walked::<V>(old(visitor).state()),
        decreases self,
    {
        match &self.open {
            Some(x) => x.visit_item(visitor),
            None => {},
        }
        match &self.newline {
            Some(x) => x.visit_item(visitor),
            None => {},
        }
        TextElement::visit_all(&self.elements, visitor);
        match &self.close {
            Some(x) => x.visit_item(visitor),
            None => {},
        }
    }
}

impl MultipleOperatorError {
    /// Hands the items that the value holds to `visitor`, in order, and walks
    /// into each node that the visitor asks for.
    pub fn visit_item<V: ItemVisitor>(&self, visitor: &mut V)
        ensures
            final(visitor).state() == self@.walked::<V>(old(visitor).state()),
        decreases self,
    {
        visit_tokens(&self.operators, visitor);
    }
}

impl MultiSegmentAppSegment {
    /// Hands the items that the value holds to `visitor`, in order, and walks
    /// into each node that the visitor asks for.
    pub fn visit_item<V: ItemVisitor>(&self, visitor: &mut V)
        ensures
            final(visitor).state() == self@.walked::<V>(old(visitor).state()),
        decreases self,
    {
        self.header.visit_item(visitor);
        match &self.body {
            Some(x) => x.visit_item(visitor),
            None => {},
        }
    }

    /// Hands the items that the values hold to `visitor`, in order.
    pub fn visit_all<V: ItemVisitor>(values: &Vec<MultiSegmentAppSegment>, visitor: &mut V)
        ensures
            final(visitor).state() == MultiSegmentAppSegmentView::walked_all::<V>(
                old(visitor).state(),
                MultiSegmentAppSegment::views(values@),
                values@.len(),
            ),
        decreases values,
    {
        let ghost start = visitor.state();
        let ghost models = MultiSegmentAppSegment::views(values@);
        let mut i: usize = 0;
        while i < values.len()
            invariant
                i <= values@.len(),
                models == MultiSegmentAppSegment::views(values@),
                visitor.state() == MultiSegmentAppSegmentView::walked_all::<V>(
                    start,
                    models,
                    i as nat,
                ),
            decreases values@.len() - i,
        {
            values[i].visit_item(visitor);
            i = i + 1;
        }
    }
}

impl OperatorDelimitedTree {
    /// Hands the items that the value holds to `visitor`, in order, and walks
    /// into each node that the visitor asks for.
    pub fn visit_item<V: ItemVisitor>(&self, visitor: &mut V)
        ensures
            final(visitor).state() == self@.walked::<V>(old(visitor).state()),
        decreases self,
    {
        self.operator.visit_item(visitor);
        match &self.body {
            Some(x) => x.visit_item(visitor),
            None => {},
        }
    }

    /// Hands the items that the values hold to `visitor`, in order.
    pub fn visit_all<V: ItemVisitor>(values: &Vec<OperatorDelimitedTree>, visitor: &mut V)
        ensures
            final(visitor).state() == OperatorDelimitedTreeView::walked_all::<V>(
                old(visitor).state(),
                OperatorDelimitedTree::views(values@),
                values@.len(),
            ),
        decreases values,
    {
        let ghost start = visitor.state();
        let ghost models = OperatorDelimitedTree::views(values@);
        let mut i: usize = 0;
        while i < values.len()
            invariant
                i <= values@.len(),
                models == OperatorDelimitedTree::views(values@),
                visitor.state() == OperatorDelimitedTreeView::walked_all::<V>(
                    start,
                    models,
                    i as nat,
                ),
            decreases values@.len() - i,
        {
            values[i].visit_item(visitor);
            i = i + 1;
        }
    }
}

} // verus!
