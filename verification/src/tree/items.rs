//! The items of a tree: the tokens and the nodes that a node holds, in the order
//! of the source, and the nodes inside a node.

use crate::source::{concat, lemma_appended, Offset};
use crate::token::{token_views, Token, TokenView};
use crate::tree::block::{Line, OperatorBlockExpression, OperatorLine};
use crate::tree::model::{
    ArgumentDefaultView, ArgumentDefinitionLineView, ArgumentDefinitionView, ArgumentTypeView,
    CaseLineView, CaseView, DocCommentView, FractionalDigitsView, LineView,
    MultiSegmentAppSegmentView, MultipleOperatorErrorView, OperatorBlockExpressionView,
    OperatorDelimitedTreeView, OperatorLineView, OperatorOrErrorView, ReturnSpecificationView,
    TextElementView, TextLiteralView, TreeView, VariantView,
};
use crate::tree::{
    ArgumentDefault, ArgumentDefinition, ArgumentDefinitionLine, ArgumentType, Case, CaseLine,
    DocComment, FractionalDigits, MultiSegmentAppSegment, MultipleOperatorError,
    OperatorDelimitedTree, ReturnSpecification, TextElement, TextLiteral, Tree, Variant,
};
use vstd::pervasive::unreached;
use vstd::prelude::*;

verus! {

/// An item of a tree: a node, or a token with the whitespace before it.
#[derive(Clone, Copy, Debug, PartialEq, Eq)]
pub enum Item<'a> {
    Tree(&'a Tree),
    Token { left_offset: &'a Offset, code: &'a String },
}

/// The model of an [`Item`].
pub enum ItemView {
    Tree(TreeView),
    Token { left_offset: Seq<char>, code: Seq<char> },
}

impl ItemView {
    /// The source text of the item.
    pub open spec fn source(self) -> Seq<char> {
        match self {
            ItemView::Tree(tree) => tree.source(),
            ItemView::Token { left_offset, code } => left_offset + code,
        }
    }

    /// The text that belongs to the item itself and to nothing inside it: of a
    /// node the whitespace before it, of a token that and its code.
    pub open spec fn own_text(self) -> Seq<char> {
        match self {
            ItemView::Tree(tree) => tree.span.left_offset,
            ItemView::Token { left_offset, code } => left_offset + code,
        }
    }

    /// The source texts of the items, in order.
    pub open spec fn source_parts(items: Seq<ItemView>) -> Seq<Seq<char>> {
        Seq::new(items.len(), |i: int| items[i].source())
    }

    /// The source text of the items, one after the other.
    pub open spec fn sources(items: Seq<ItemView>) -> Seq<char> {
        concat(ItemView::source_parts(items))
    }
}

impl<'a> Item<'a> {
    /// The model of the item.
    pub open spec fn view(self) -> ItemView {
        match self {
            Item::Tree(tree) => ItemView::Tree((*tree)@),
            Item::Token { left_offset, code } => ItemView::Token {
                left_offset: (*left_offset)@,
                code: (*code)@,
            },
        }
    }

    /// The models of the items of a sequence, in order.
    pub open spec fn views(items: Seq<Item<'a>>) -> Seq<ItemView> {
        Seq::new(items.len(), |i: int| items[i]@)
    }
}

/// The models of the nodes of a sequence, in order.
pub open spec fn tree_views(trees: Seq<&Tree>) -> Seq<TreeView> {
    Seq::new(trees.len(), |i: int| (*trees[i])@)
}

impl<T> TokenView<T> {
    /// The token as an item of a tree.
    pub open spec fn item(self) -> ItemView {
        ItemView::Token { left_offset: self.left_offset, code: self.code }
    }
}

/// The item of a token that may be absent.
pub open spec fn opt_token_items<T>(token: Option<TokenView<T>>) -> Seq<ItemView> {
    match token {
        Some(t) => seq![t.item()],
        None => Seq::empty(),
    }
}

/// The items of the tokens of a sequence, in order.
pub open spec fn tokens_items<T>(tokens: Seq<TokenView<T>>) -> Seq<ItemView> {
    Seq::new(tokens.len(), |i: int| tokens[i].item())
}

/// The item of a node that may be absent.
pub open spec fn opt_tree_items(tree: Option<TreeView>) -> Seq<ItemView> {
    match tree {
        Some(t) => seq![ItemView::Tree(t)],
        None => Seq::empty(),
    }
}

/// The items of an operator or of the error of several.
pub open spec fn operator_or_error_items(opr: OperatorOrErrorView) -> Seq<ItemView> {
    match opr {
        Ok(token) => seq![token.item()],
        Err(error) => error.items(),
    }
}

impl TreeView {
    /// The node and the nodes inside it, each before what is in it.
    pub open spec fn trees(self) -> Seq<TreeView>
        decreases self,
    {
        seq![self] + (*self.variant).trees()
    }
}

impl<T> Token<T> {
    /// Appends the token, as an item, to `out`.
    pub fn collect_items<'a>(&'a self, out: Vec<Item<'a>>) -> (r: Vec<Item<'a>>)
        ensures
            Item::views(r@) == Item::views(out@) + seq![self@.item()],
    {
        let ghost start = Item::views(out@);
        let mut out = out;
        out.push(Item::Token { left_offset: &self.left_offset, code: &self.code });
        assert(Item::views(out@) =~= start + seq![self@.item()]);
        out
    }
}

/// Appends the tokens, as items, to `out`.
pub fn collect_token_items<'a, T>(tokens: &'a Vec<Token<T>>, out: Vec<Item<'a>>) -> (r: Vec<
    Item<'a>,
>)
    ensures
        Item::views(r@) == Item::views(out@) + tokens_items(token_views(tokens@)),
{
    let ghost start = Item::views(out@);
    let ghost all = tokens_items(token_views(tokens@));
    let mut out = out;
    let mut i: usize = 0;
    assert(Item::views(out@) =~= start + all.subrange(0, 0));
    while i < tokens.len()
        invariant
            i <= tokens@.len(),
            all == tokens_items(token_views(tokens@)),
            Item::views(out@) == start + all.subrange(0, i as int),
        decreases tokens@.len() - i,
    {
        out = tokens[i].collect_items(out);
        proof {
            assert(Item::views(out@) =~= start + all.subrange(0, i + 1));
        }
        i = i + 1;
    }
    assert(all.subrange(0, i as int) =~= all);
    out
}

impl Tree {
    /// Appends the node, as an item, to `out`.
    pub fn collect_items<'a>(&'a self, out: Vec<Item<'a>>) -> (r: Vec<Item<'a>>)
        ensures
            Item::views(r@) == Item::views(out@) + seq![ItemView::Tree(self@)],
    {
        let ghost start = Item::views(out@);
        let mut out = out;
        out.push(Item::Tree(self));
        assert(Item::views(out@) =~= start + seq![ItemView::Tree(self@)]);
        out
    }

    /// Appends the node and the nodes inside it to `out`, each before what is
    /// in it.
    pub fn collect_trees<'a>(&'a self, out: Vec<&'a Tree>) -> (r: Vec<&'a Tree>)
        ensures
            tree_views(r@) == tree_views(out@) + self@.trees(),
        decreases self,
    {
        let ghost start = tree_views(out@);
        let mut out = out;
        out.push(self);
        assert(tree_views(out@) =~= start + seq![self@]);
        let out = self.variant.collect_trees(out);
        proof {
            lemma_appended(start, seq![self@], (*self@.variant).trees());
        }
        out
    }

    /// The items that the node holds: its tokens and the nodes directly in it,
    /// in the order of the source.
    pub fn visit_items(&self) -> (r: Vec<Item<'_>>)
        ensures
            Item::views(r@) == (*self@.variant).items(),
    {
        let out = self.variant.collect_items(Vec::new());
        assert(Item::views(Seq::<Item<'_>>::empty()) + (*self@.variant).items()
            =~= (*self@.variant).items());
        out
    }

    /// The nodes inside the node, each before what is in it.
    pub fn visit_trees(&self) -> (r: Vec<&Tree>)
        ensures
            tree_views(r@) == (*self@.variant).trees(),
    {
        let out = self.variant.collect_trees(Vec::new());
        assert(tree_views(Seq::<&Tree>::empty()) + (*self@.variant).trees()
            =~= (*self@.variant).trees());
        out
    }
}

impl VariantView {
    /// The items that the value holds, in the order of the source.
    pub open spec fn items(self) -> Seq<ItemView> {
        match self {
            VariantView::Invalid { error: _, ast } => {
                seq![ItemView::Tree(ast)]
            },
            VariantView::BodyBlock { statements } => {
                LineView::all_items(statements)
            },
            VariantView::ArgumentBlockApplication { lhs, arguments } => {
                opt_tree_items(lhs)
                + LineView::all_items(arguments)
            },
            VariantView::OperatorBlockApplication { lhs, expressions, excess } => {
                opt_tree_items(lhs)
                + OperatorLineView::all_items(expressions)
                + LineView::all_items(excess)
            },
            VariantView::Ident { token } => {
                seq![token.item()]
            },
            VariantView::Private { keyword, body } => {
                seq![keyword.item()]
                + opt_tree_items(body)
            },
            VariantView::Number { base, integer, fractional_digits } => {
                opt_token_items(base)
                + opt_token_items(integer)
                + (match fractional_digits { Some(x) => x.items(), None => Seq::empty(), })
            },
            VariantView::Wildcard { token, de_bruijn_index: _ } => {
                seq![token.item()]
            },
            VariantView::SuspendedDefaultArguments { token } => {
                seq![token.item()]
            },
            VariantView::TextLiteral { open, newline, elements, close, closed: _ } => {
                opt_token_items(open)
                + opt_token_items(newline)
                + TextElementView::all_items(elements)
                + opt_token_items(close)
            },
            VariantView::App { func, arg } => {
                seq![ItemView::Tree(func)]
                + seq![ItemView::Tree(arg)]
            },
            VariantView::NamedApp { func, open, name, equals, arg, close } => {
                seq![ItemView::Tree(func)]
                + opt_token_items(open)
                + seq![name.item()]
                + seq![equals.item()]
                + seq![ItemView::Tree(arg)]
                + opt_token_items(close)
            },
            VariantView::OprApp { lhs, opr, rhs } => {
                opt_tree_items(lhs)
                + operator_or_error_items(opr)
                + opt_tree_items(rhs)
            },
            VariantView::UnaryOprApp { opr, rhs } => {
                seq![opr.item()]
                + opt_tree_items(rhs)
            },
            VariantView::AutoscopedIdentifier { opr, ident } => {
                seq![opr.item()]
                + seq![ident.item()]
            },
            VariantView::OprSectionBoundary { arguments: _, ast } => {
                seq![ItemView::Tree(ast)]
            },
            VariantView::TemplateFunction { arguments: _, ast } => {
                seq![ItemView::Tree(ast)]
            },
            VariantView::MultiSegmentApp { segments } => {
                MultiSegmentAppSegmentView::all_items(segments)
            },
            VariantView::TypeDef { keyword, name, params, body } => {
                seq![keyword.item()]
                + seq![name.item()]
                + ArgumentDefinitionView::all_items(params)
                + LineView::all_items(body)
            },
            VariantView::Assignment { pattern, equals, expr } => {
                seq![ItemView::Tree(pattern)]
                + seq![equals.item()]
                + seq![ItemView::Tree(expr)]
            },
            VariantView::Function { name, args, returns_, equals, body } => {
                seq![ItemView::Tree(name)]
                + ArgumentDefinitionView::all_items(args)
                + (match returns_ { Some(x) => x.items(), None => Seq::empty(), })
                + seq![equals.item()]
                + opt_tree_items(body)
            },
            VariantView::ForeignFunction { foreign, language, name, args, equals, body } => {
                seq![foreign.item()]
                + seq![language.item()]
                + seq![name.item()]
                + ArgumentDefinitionView::all_items(args)
                + seq![equals.item()]
                + seq![ItemView::Tree(body)]
            },
            VariantView::Import { polyglot, from, import, all, as_, hiding } => {
                (match polyglot { Some(x) => x.items(), None => Seq::empty(), })
                + (match from { Some(x) => x.items(), None => Seq::empty(), })
                + import.items()
                + opt_token_items(all)
                + (match as_ { Some(x) => x.items(), None => Seq::empty(), })
                + (match hiding { Some(x) => x.items(), None => Seq::empty(), })
            },
            VariantView::Export { from, export, all, as_, hiding } => {
                (match from { Some(x) => x.items(), None => Seq::empty(), })
                + export.items()
                + opt_token_items(all)
                + (match as_ { Some(x) => x.items(), None => Seq::empty(), })
                + (match hiding { Some(x) => x.items(), None => Seq::empty(), })
            },
            VariantView::Group { open, body, close } => {
                opt_token_items(open)
                + opt_tree_items(body)
                + opt_token_items(close)
            },
            VariantView::TypeSignature { variable, operator, type_ } => {
                seq![ItemView::Tree(variable)]
                + seq![operator.item()]
                + seq![ItemView::Tree(type_)]
            },
            VariantView::TypeAnnotated { expression, operator, type_ } => {
                seq![ItemView::Tree(expression)]
                + seq![operator.item()]
                + seq![ItemView::Tree(type_)]
            },
            VariantView::CaseOf { case, expression, of, cases } => {
                seq![case.item()]
                + opt_tree_items(expression)
                + seq![of.item()]
                + CaseLineView::all_items(cases)
            },
            VariantView::Lambda { operator, arrow } => {
                seq![operator.item()]
                + opt_tree_items(arrow)
            },
            VariantView::Array { left, first, rest, right } => {
                seq![left.item()]
                + opt_tree_items(first)
                + OperatorDelimitedTreeView::all_items(rest)
                + seq![right.item()]
            },
            VariantView::Tuple { left, first, rest, right } => {
                seq![left.item()]
                + opt_tree_items(first)
                + OperatorDelimitedTreeView::all_items(rest)
                + seq![right.item()]
            },
            VariantView::Annotated { token, annotation, argument, newlines, expression } => {
                seq![token.item()]
                + seq![annotation.item()]
                + opt_tree_items(argument)
                + tokens_items(newlines)
                + opt_tree_items(expression)
            },
            VariantView::AnnotatedBuiltin { token, annotation, newlines, expression } => {
                seq![token.item()]
                + seq![annotation.item()]
                + tokens_items(newlines)
                + opt_tree_items(expression)
            },
            VariantView::Documented { documentation, expression } => {
                documentation.items()
                + opt_tree_items(expression)
            },
            VariantView::ConstructorDefinition { constructor, arguments, block } => {
                seq![constructor.item()]
                + ArgumentDefinitionView::all_items(arguments)
                + ArgumentDefinitionLineView::all_items(block)
            },
        }
    }

    /// The nodes inside the value, each before what is in it.
    pub open spec fn trees(self) -> Seq<TreeView>
        decreases self,
    {
        match self {
            VariantView::Invalid { error: _, ast } => {
                ast.trees()
            },
            VariantView::BodyBlock { statements } => {
                LineView::all_trees(statements)
            },
            VariantView::ArgumentBlockApplication { lhs, arguments } => {
                (match lhs { Some(x) => x.trees(), None => Seq::empty(), })
                + LineView::all_trees(arguments)
            },
            VariantView::OperatorBlockApplication { lhs, expressions, excess } => {
                (match lhs { Some(x) => x.trees(), None => Seq::empty(), })
                + OperatorLineView::all_trees(expressions)
                + LineView::all_trees(excess)
            },
            VariantView::Ident { token: _ } => {
                Seq::empty()
            },
            VariantView::Private { keyword: _, body } => {
                (match body { Some(x) => x.trees(), None => Seq::empty(), })
            },
            VariantView::Number { base: _, integer: _, fractional_digits: _ } => {
                Seq::empty()
            },
            VariantView::Wildcard { token: _, de_bruijn_index: _ } => {
                Seq::empty()
            },
            VariantView::SuspendedDefaultArguments { token: _ } => {
                Seq::empty()
            },
            VariantView::TextLiteral { open: _, newline: _, elements, close: _, closed: _ } => {
                TextElementView::all_trees(elements)
            },
            VariantView::App { func, arg } => {
                func.trees()
                + arg.trees()
            },
            VariantView::NamedApp { func, open: _, name: _, equals: _, arg, close: _ } => {
                func.trees()
                + arg.trees()
            },
            VariantView::OprApp { lhs, opr: _, rhs } => {
                (match lhs { Some(x) => x.trees(), None => Seq::empty(), })
                + (match rhs { Some(x) => x.trees(), None => Seq::empty(), })
            },
            VariantView::UnaryOprApp { opr: _, rhs } => {
                (match rhs { Some(x) => x.trees(), None => Seq::empty(), })
            },
            VariantView::AutoscopedIdentifier { opr: _, ident: _ } => {
                Seq::empty()
            },
            VariantView::OprSectionBoundary { arguments: _, ast } => {
                ast.trees()
            },
            VariantView::TemplateFunction { arguments: _, ast } => {
                ast.trees()
            },
            VariantView::MultiSegmentApp { segments } => {
                MultiSegmentAppSegmentView::all_trees(segments)
            },
            VariantView::TypeDef { keyword: _, name: _, params, body } => {
                ArgumentDefinitionView::all_trees(params)
                + LineView::all_trees(body)
            },
            VariantView::Assignment { pattern, equals: _, expr } => {
                pattern.trees()
                + expr.trees()
            },
            VariantView::Function { name, args, returns_, equals: _, body } => {
                name.trees()
                + ArgumentDefinitionView::all_trees(args)
                + (match returns_ { Some(x) => x.trees(), None => Seq::empty(), })
                + (match body { Some(x) => x.trees(), None => Seq::empty(), })
            },
            VariantView::ForeignFunction {
                foreign: _,
                language: _,
                name: _,
                args,
                equals: _,
                body,
            } => {
                ArgumentDefinitionView::all_trees(args)
                + body.trees()
            },
            VariantView::Import { polyglot, from, import, all: _, as_, hiding } => {
                (match polyglot { Some(x) => x.trees(), None => Seq::empty(), })
                + (match from { Some(x) => x.trees(), None => Seq::empty(), })
                + import.trees()
                + (match as_ { Some(x) => x.trees(), None => Seq::empty(), })
                + (match hiding { Some(x) => x.trees(), None => Seq::empty(), })
            },
            VariantView::Export { from, export, all: _, as_, hiding } => {
                (match from { Some(x) => x.trees(), None => Seq::empty(), })
                + export.trees()
                + (match as_ { Some(x) => x.trees(), None => Seq::empty(), })
                + (match hiding { Some(x) => x.trees(), None => Seq::empty(), })
            },
            VariantView::Group { open: _, body, close: _ } => {
                (match body { Some(x) => x.trees(), None => Seq::empty(), })
            },
            VariantView::TypeSignature { variable, operator: _, type_ } => {
                variable.trees()
                + type_.trees()
            },
            VariantView::TypeAnnotated { expression, operator: _, type_ } => {
                expression.trees()
                + type_.trees()
            },
            VariantView::CaseOf { case: _, expression, of: _, cases } => {
                (match expression { Some(x) => x.trees(), None => Seq::empty(), })
                + CaseLineView::all_trees(cases)
            },
            VariantView::Lambda { operator: _, arrow } => {
                (match arrow { Some(x) => x.trees(), None => Seq::empty(), })
            },
            VariantView::Array { left: _, first, rest, right: _ } => {
                (match first { Some(x) => x.trees(), None => Seq::empty(), })
                + OperatorDelimitedTreeView::all_trees(rest)
            },
            VariantView::Tuple { left: _, first, rest, right: _ } => {
                (match first { Some(x) => x.trees(), None => Seq::empty(), })
                + OperatorDelimitedTreeView::all_trees(rest)
            },
            VariantView::Annotated {
                token: _,
                annotation: _,
                argument,
                newlines: _,
                expression,
            } => {
                (match argument { Some(x) => x.trees(), None => Seq::empty(), })
                + (match expression { Some(x) => x.trees(), None => Seq::empty(), })
            },
            VariantView::AnnotatedBuiltin { token: _, annotation: _, newlines: _, expression } => {
                (match expression { Some(x) => x.trees(), None => Seq::empty(), })
            },
            VariantView::Documented { documentation, expression } => {
                documentation.trees()
                + (match expression { Some(x) => x.trees(), None => Seq::empty(), })
            },
            VariantView::ConstructorDefinition { constructor: _, arguments, block } => {
                ArgumentDefinitionView::all_trees(arguments)
                + ArgumentDefinitionLineView::all_trees(block)
            },
        }
    }
}

impl LineView {
    /// The items that the value holds, in the order of the source.
    pub open spec fn items(self) -> Seq<ItemView> {
        seq![self.newline.item()]
        + opt_tree_items(self.expression)
    }

    /// The nodes inside the value, each before what is in it.
    pub open spec fn trees(self) -> Seq<TreeView>
        decreases self,
    {
        (match self.expression { Some(x) => x.trees(), None => Seq::empty(), })
    }

    /// The items that each value of a sequence holds, value by value.
    pub open spec fn item_parts(values: Seq<LineView>) -> Seq<Seq<ItemView>> {
        Seq::new(values.len(), |i: int| values[i].items())
    }

    /// The items that the values of a sequence hold, in order.
    pub open spec fn all_items(values: Seq<LineView>) -> Seq<ItemView> {
        concat(LineView::item_parts(values))
    }

    /// The nodes inside each value of a sequence, value by value.
    pub open spec fn tree_parts(values: Seq<LineView>) -> Seq<Seq<TreeView>>
        decreases values, 0int,
    {
        Seq::new(
            values.len(),
            |i: int|
                if 0 <= i < values.len() {
                    values[i].trees()
                } else {
                    arbitrary()
                },
        )
    }

    /// The nodes inside the values of a sequence, in order.
    pub open spec fn all_trees(values: Seq<LineView>) -> Seq<TreeView>
        decreases values, 1int,
    {
        concat(LineView::tree_parts(values))
    }
}

impl OperatorBlockExpressionView {
    /// The items that the value holds, in the order of the source.
    pub open spec fn items(self) -> Seq<ItemView> {
        operator_or_error_items(self.operator)
        + seq![ItemView::Tree(self.expression)]
    }

    /// The nodes inside the value, each before what is in it.
    pub open spec fn trees(self) -> Seq<TreeView>
        decreases self,
    {
        self.expression.trees()
    }
}

impl OperatorLineView {
    /// The items that the value holds, in the order of the source.
    pub open spec fn items(self) -> Seq<ItemView> {
        seq![self.newline.item()]
        + (match self.expression { Some(x) => x.items(), None => Seq::empty(), })
    }

    /// The nodes inside the value, each before what is in it.
    pub open spec fn trees(self) -> Seq<TreeView>
        decreases self,
    {
        (match self.expression { Some(x) => x.trees(), None => Seq::empty(), })
    }

    /// The items that each value of a sequence holds, value by value.
    pub open spec fn item_parts(values: Seq<OperatorLineView>) -> Seq<Seq<ItemView>> {
        Seq::new(values.len(), |i: int| values[i].items())
    }

    /// The items that the values of a sequence hold, in order.
    pub open spec fn all_items(values: Seq<OperatorLineView>) -> Seq<ItemView> {
        concat(OperatorLineView::item_parts(values))
    }

    /// The nodes inside each value of a sequence, value by value.
    pub open spec fn tree_parts(values: Seq<OperatorLineView>) -> Seq<Seq<TreeView>>
        decreases values, 0int,
    {
        Seq::new(
            values.len(),
            |i: int|
                if 0 <= i < values.len() {
                    values[i].trees()
                } else {
                    arbitrary()
                },
        )
    }

    /// The nodes inside the values of a sequence, in order.
    pub open spec fn all_trees(values: Seq<OperatorLineView>) -> Seq<TreeView>
        decreases values, 1int,
    {
        concat(OperatorLineView::tree_parts(values))
    }
}

impl ArgumentDefinitionLineView {
    /// The items that the value holds, in the order of the source.
    pub open spec fn items(self) -> Seq<ItemView> {
        seq![self.newline.item()]
        + (match self.argument { Some(x) => x.items(), None => Seq::empty(), })
    }

    /// The nodes inside the value, each before what is in it.
    pub open spec fn trees(self) -> Seq<TreeView>
        decreases self,
    {
        (match self.argument { Some(x) => x.trees(), None => Seq::empty(), })
    }

    /// The items that each value of a sequence holds, value by value.
    pub open spec fn item_parts(values: Seq<ArgumentDefinitionLineView>) -> Seq<Seq<ItemView>> {
        Seq::new(values.len(), |i: int| values[i].items())
    }

    /// The items that the values of a sequence hold, in order.
    pub open spec fn all_items(values: Seq<ArgumentDefinitionLineView>) -> Seq<ItemView> {
        concat(ArgumentDefinitionLineView::item_parts(values))
    }

    /// The nodes inside each value of a sequence, value by value.
    pub open spec fn tree_parts(values: Seq<ArgumentDefinitionLineView>) -> Seq<Seq<TreeView>>
        decreases values, 0int,
    {
        Seq::new(
            values.len(),
            |i: int|
                if 0 <= i < values.len() {
                    values[i].trees()
                } else {
                    arbitrary()
                },
        )
    }

    /// The nodes inside the values of a sequence, in order.
    pub open spec fn all_trees(values: Seq<ArgumentDefinitionLineView>) -> Seq<TreeView>
        decreases values, 1int,
    {
        concat(ArgumentDefinitionLineView::tree_parts(values))
    }
}

impl TextElementView {
    /// The items that the value holds, in the order of the source.
    pub open spec fn items(self) -> Seq<ItemView> {
        match self {
            TextElementView::Section { text } => {
                seq![text.item()]
            },
            TextElementView::Escape { token } => {
                seq![token.item()]
            },
            TextElementView::Newline { newline } => {
                seq![newline.item()]
            },
            TextElementView::Splice { open, expression, close } => {
                seq![open.item()]
                + opt_tree_items(expression)
                + seq![close.item()]
            },
        }
    }

    /// The nodes inside the value, each before what is in it.
    pub open spec fn trees(self) -> Seq<TreeView>
        decreases self,
    {
        match self {
            TextElementView::Section { text: _ } => {
                Seq::empty()
            },
            TextElementView::Escape { token: _ } => {
                Seq::empty()
            },
            TextElementView::Newline { newline: _ } => {
                Seq::empty()
            },
            TextElementView::Splice { open: _, expression, close: _ } => {
                (match expression { Some(x) => x.trees(), None => Seq::empty(), })
            },
        }
    }

    /// The items that each value of a sequence holds, value by value.
    pub open spec fn item_parts(values: Seq<TextElementView>) -> Seq<Seq<ItemView>> {
        Seq::new(values.len(), |i: int| values[i].items())
    }

    /// The items that the values of a sequence hold, in order.
    pub open spec fn all_items(values: Seq<TextElementView>) -> Seq<ItemView> {
        concat(TextElementView::item_parts(values))
    }

    /// The nodes inside each value of a sequence, value by value.
    pub open spec fn tree_parts(values: Seq<TextElementView>) -> Seq<Seq<TreeView>>
        decreases values, 0int,
    {
        Seq::new(
            values.len(),
            |i: int|
                if 0 <= i < values.len() {
                    values[i].trees()
                } else {
                    arbitrary()
                },
        )
    }

    /// The nodes inside the values of a sequence, in order.
    pub open spec fn all_trees(values: Seq<TextElementView>) -> Seq<TreeView>
        decreases values, 1int,
    {
        concat(TextElementView::tree_parts(values))
    }
}

impl DocCommentView {
    /// The items that the value holds, in the order of the source.
    pub open spec fn items(self) -> Seq<ItemView> {
        seq![self.open.item()]
        + TextElementView::all_items(self.elements)
        + tokens_items(self.newlines)
    }

    /// The nodes inside the value, each before what is in it.
    pub open spec fn trees(self) -> Seq<TreeView>
        decreases self,
    {
        TextElementView::all_trees(self.elements)
    }
}

impl FractionalDigitsView {
    /// The items that the value holds, in the order of the source.
    pub open spec fn items(self) -> Seq<ItemView> {
        seq![self.dot.item()]
        + seq![self.digits.item()]
    }

    /// The nodes inside the value, each before what is in it.
    pub open spec fn trees(self) -> Seq<TreeView>
        decreases self,
    {
        Seq::empty()
    }
}

impl ArgumentDefinitionView {
    /// The items that the value holds, in the order of the source.
    pub open spec fn items(self) -> Seq<ItemView> {
        opt_token_items(self.open)
        + opt_token_items(self.open2)
        + opt_token_items(self.suspension)
        + seq![ItemView::Tree(self.pattern)]
        + (match self.type_ { Some(x) => x.items(), None => Seq::empty(), })
        + opt_token_items(self.close2)
        + (match self.default { Some(x) => x.items(), None => Seq::empty(), })
        + opt_token_items(self.close)
    }

    /// The nodes inside the value, each before what is in it.
    pub open spec fn trees(self) -> Seq<TreeView>
        decreases self,
    {
        self.pattern.trees()
        + (match self.type_ { Some(x) => x.trees(), None => Seq::empty(), })
        + (match self.default { Some(x) => x.trees(), None => Seq::empty(), })
    }

    /// The items that each value of a sequence holds, value by value.
    pub open spec fn item_parts(values: Seq<ArgumentDefinitionView>) -> Seq<Seq<ItemView>> {
        Seq::new(values.len(), |i: int| values[i].items())
    }

    /// The items that the values of a sequence hold, in order.
    pub open spec fn all_items(values: Seq<ArgumentDefinitionView>) -> Seq<ItemView> {
        concat(ArgumentDefinitionView::item_parts(values))
    }

    /// The nodes inside each value of a sequence, value by value.
    pub open spec fn tree_parts(values: Seq<ArgumentDefinitionView>) -> Seq<Seq<TreeView>>
        decreases values, 0int,
    {
        Seq::new(
            values.len(),
            |i: int|
                if 0 <= i < values.len() {
                    values[i].trees()
                } else {
                    arbitrary()
                },
        )
    }

    /// The nodes inside the values of a sequence, in order.
    pub open spec fn all_trees(values: Seq<ArgumentDefinitionView>) -> Seq<TreeView>
        decreases values, 1int,
    {
        concat(ArgumentDefinitionView::tree_parts(values))
    }
}

impl ArgumentDefaultView {
    /// The items that the value holds, in the order of the source.
    pub open spec fn items(self) -> Seq<ItemView> {
        seq![self.equals.item()]
        + seq![ItemView::Tree(self.expression)]
    }

    /// The nodes inside the value, each before what is in it.
    pub open spec fn trees(self) -> Seq<TreeView>
        decreases self,
    {
        self.expression.trees()
    }
}

impl ArgumentTypeView {
    /// The items that the value holds, in the order of the source.
    pub open spec fn items(self) -> Seq<ItemView> {
        seq![self.operator.item()]
        + seq![ItemView::Tree(self.type_)]
    }

    /// The nodes inside the value, each before what is in it.
    pub open spec fn trees(self) -> Seq<TreeView>
        decreases self,
    {
        self.type_.trees()
    }
}

impl ReturnSpecificationView {
    /// The items that the value holds, in the order of the source.
    pub open spec fn items(self) -> Seq<ItemView> {
        seq![self.arrow.item()]
        + seq![ItemView::Tree(self.type_)]
    }

    /// The nodes inside the value, each before what is in it.
    pub open spec fn trees(self) -> Seq<TreeView>
        decreases self,
    {
        self.type_.trees()
    }
}

impl CaseLineView {
    /// The items that the value holds, in the order of the source.
    pub open spec fn items(self) -> Seq<ItemView> {
        opt_token_items(self.newline)
        + (match self.case { Some(x) => x.items(), None => Seq::empty(), })
    }

    /// The nodes inside the value, each before what is in it.
    pub open spec fn trees(self) -> Seq<TreeView>
        decreases self,
    {
        (match self.case { Some(x) => x.trees(), None => Seq::empty(), })
    }

    /// The items that each value of a sequence holds, value by value.
    pub open spec fn item_parts(values: Seq<CaseLineView>) -> Seq<Seq<ItemView>> {
        Seq::new(values.len(), |i: int| values[i].items())
    }

    /// The items that the values of a sequence hold, in order.
    pub open spec fn all_items(values: Seq<CaseLineView>) -> Seq<ItemView> {
        concat(CaseLineView::item_parts(values))
    }

    /// The nodes inside each value of a sequence, value by value.
    pub open spec fn tree_parts(values: Seq<CaseLineView>) -> Seq<Seq<TreeView>>
        decreases values, 0int,
    {
        Seq::new(
            values.len(),
            |i: int|
                if 0 <= i < values.len() {
                    values[i].trees()
                } else {
                    arbitrary()
                },
        )
    }

    /// The nodes inside the values of a sequence, in order.
    pub open spec fn all_trees(values: Seq<CaseLineView>) -> Seq<TreeView>
        decreases values, 1int,
    {
        concat(CaseLineView::tree_parts(values))
    }
}

impl CaseView {
    /// The items that the value holds, in the order of the source.
    pub open spec fn items(self) -> Seq<ItemView> {
        (match self.documentation { Some(x) => x.items(), None => Seq::empty(), })
        + opt_tree_items(self.pattern)
        + opt_token_items(self.arrow)
        + opt_tree_items(self.expression)
    }

    /// The nodes inside the value, each before what is in it.
    pub open spec fn trees(self) -> Seq<TreeView>
        decreases self,
    {
        (match self.documentation { Some(x) => x.trees(), None => Seq::empty(), })
        + (match self.pattern { Some(x) => x.trees(), None => Seq::empty(), })
        + (match self.expression { Some(x) => x.trees(), None => Seq::empty(), })
    }
}

impl TextLiteralView {
    /// The items that the value holds, in the order of the source.
    pub open spec fn items(self) -> Seq<ItemView> {
        opt_token_items(self.open)
        + opt_token_items(self.newline)
        + TextElementView::all_items(self.elements)
        + opt_token_items(self.close)
    }

    /// The nodes inside the value, each before what is in it.
    pub open spec fn trees(self) -> Seq<TreeView>
        decreases self,
    {
        TextElementView::all_trees(self.elements)
    }
}

impl MultipleOperatorErrorView {
    /// The items that the value holds, in the order of the source.
    pub open spec fn items(self) -> Seq<ItemView> {
        tokens_items(self.operators)
    }

    /// The nodes inside the value, each before what is in it.
    pub open spec fn trees(self) -> Seq<TreeView>
        decreases self,
    {
        Seq::empty()
    }
}

impl MultiSegmentAppSegmentView {
    /// The items that the value holds, in the order of the source.
    pub open spec fn items(self) -> Seq<ItemView> {
        seq![self.header.item()]
        + opt_tree_items(self.body)
    }

    /// The nodes inside the value, each before what is in it.
    pub open spec fn trees(self) -> Seq<TreeView>
        decreases self,
    {
        (match self.body { Some(x) => x.trees(), None => Seq::empty(), })
    }

    /// The items that each value of a sequence holds, value by value.
    pub open spec fn item_parts(values: Seq<MultiSegmentAppSegmentView>) -> Seq<Seq<ItemView>> {
        Seq::new(values.len(), |i: int| values[i].items())
    }

    /// The items that the values of a sequence hold, in order.
    pub open spec fn all_items(values: Seq<MultiSegmentAppSegmentView>) -> Seq<ItemView> {
        concat(MultiSegmentAppSegmentView::item_parts(values))
    }

    /// The nodes inside each value of a sequence, value by value.
    pub open spec fn tree_parts(values: Seq<MultiSegmentAppSegmentView>) -> Seq<Seq<TreeView>>
        decreases values, 0int,
    {
        Seq::new(
            values.len(),
            |i: int|
                if 0 <= i < values.len() {
                    values[i].trees()
                } else {
                    arbitrary()
                },
        )
    }

    /// The nodes inside the values of a sequence, in order.
    pub open spec fn all_trees(values: Seq<MultiSegmentAppSegmentView>) -> Seq<TreeView>
        decreases values, 1int,
    {
        concat(MultiSegmentAppSegmentView::tree_parts(values))
    }
}

impl OperatorDelimitedTreeView {
    /// The items that the value holds, in the order of the source.
    pub open spec fn items(self) -> Seq<ItemView> {
        seq![self.operator.item()]
        + opt_tree_items(self.body)
    }

    /// The nodes inside the value, each before what is in it.
    pub open spec fn trees(self) -> Seq<TreeView>
        decreases self,
    {
        (match self.body { Some(x) => x.trees(), None => Seq::empty(), })
    }

    /// The items that each value of a sequence holds, value by value.
    pub open spec fn item_parts(values: Seq<OperatorDelimitedTreeView>) -> Seq<Seq<ItemView>> {
        Seq::new(values.len(), |i: int| values[i].items())
    }

    /// The items that the values of a sequence hold, in order.
    pub open spec fn all_items(values: Seq<OperatorDelimitedTreeView>) -> Seq<ItemView> {
        concat(OperatorDelimitedTreeView::item_parts(values))
    }

    /// The nodes inside each value of a sequence, value by value.
    pub open spec fn tree_parts(values: Seq<OperatorDelimitedTreeView>) -> Seq<Seq<TreeView>>
        decreases values, 0int,
    {
        Seq::new(
            values.len(),
            |i: int|
                if 0 <= i < values.len() {
                    values[i].trees()
                } else {
                    arbitrary()
                },
        )
    }

    /// The nodes inside the values of a sequence, in order.
    pub open spec fn all_trees(values: Seq<OperatorDelimitedTreeView>) -> Seq<TreeView>
        decreases values, 1int,
    {
        concat(OperatorDelimitedTreeView::tree_parts(values))
    }
}

/// Appends the items that `Invalid` holds to `out`.
fn collect_items_of_invalid<'a>(node: &'a Variant, out: Vec<Item<'a>>) -> (r: Vec<Item<'a>>)
    requires
        (node is Invalid),
    ensures
        Item::views(r@) == Item::views(out@) + node@.items(),
{
    match node {
        Variant::Invalid { error: _, ast } => {
            let ghost start = Item::views(out@);
            let out = ast.collect_items(out);
            let ghost held = seq![ItemView::Tree((node@->Invalid_ast))];
            out
        },
        _ => unreached(),
    }
}

/// Appends the nodes inside `Invalid` to `out`.
fn collect_trees_of_invalid<'a>(node: &'a Variant, out: Vec<&'a Tree>) -> (r: Vec<&'a Tree>)
    requires
        (node is Invalid),
    ensures
        tree_views(r@) == tree_views(out@) + node@.trees(),
    decreases node, 0int,
{
    match node {
        Variant::Invalid { error: _, ast } => {
            let ghost start = tree_views(out@);
            let out = ast.collect_trees(out);
            let ghost held = (node@->Invalid_ast).trees();
            out
        },
        _ => unreached(),
    }
}

/// Appends the items that `BodyBlock` holds to `out`.
fn collect_items_of_body_block<'a>(node: &'a Variant, out: Vec<Item<'a>>) -> (r: Vec<Item<'a>>)
    requires
        (node is BodyBlock),
    ensures
        Item::views(r@) == Item::views(out@) + node@.items(),
{
    match node {
        Variant::BodyBlock { statements } => {
            let ghost start = Item::views(out@);
            let out = Line::collect_all_items(statements, out);
            let ghost held = LineView::all_items((node@->BodyBlock_statements));
            out
        },
        _ => unreached(),
    }
}

/// Appends the nodes inside `BodyBlock` to `out`.
fn collect_trees_of_body_block<'a>(node: &'a Variant, out: Vec<&'a Tree>) -> (r: Vec<&'a Tree>)
    requires
        (node is BodyBlock),
    ensures
        tree_views(r@) == tree_views(out@) + node@.trees(),
    decreases node, 0int,
{
    match node {
        Variant::BodyBlock { statements } => {
            let ghost start = tree_views(out@);
            let out = Line::collect_all_trees(statements, out);
            let ghost held = LineView::all_trees((node@->BodyBlock_statements));
            out
        },
        _ => unreached(),
    }
}

/// Appends the items that `ArgumentBlockApplication` holds to `out`.
fn collect_items_of_argument_block_application<'a>(
    node: &'a Variant,
    out: Vec<Item<'a>>,
) -> (r: Vec<Item<'a>>)
    requires
        (node is ArgumentBlockApplication),
    ensures
        Item::views(r@) == Item::views(out@) + node@.items(),
{
    match node {
        Variant::ArgumentBlockApplication { lhs, arguments } => {
            let ghost start = Item::views(out@);
            let out = match lhs {
                Some(x) => x.collect_items(out),
                None => out,
            };
            let ghost held = opt_tree_items((node@->ArgumentBlockApplication_lhs));
            let out = Line::collect_all_items(arguments, out);
            proof {
                lemma_appended(
                    start,
                    held,
                    LineView::all_items((node@->ArgumentBlockApplication_arguments)),
                );
            }
            let ghost held = held + LineView::all_items(
                (node@->ArgumentBlockApplication_arguments)
            );
            out
        },
        _ => unreached(),
    }
}

/// Appends the nodes inside `ArgumentBlockApplication` to `out`.
fn collect_trees_of_argument_block_application<'a>(
    node: &'a Variant,
    out: Vec<&'a Tree>,
) -> (r: Vec<&'a Tree>)
    requires
        (node is ArgumentBlockApplication),
    ensures
        tree_views(r@) == tree_views(out@) + node@.trees(),
    decreases node, 0int,
{
    match node {
        Variant::ArgumentBlockApplication { lhs, arguments } => {
            let ghost start = tree_views(out@);
            let out = match lhs {
                Some(x) => x.collect_trees(out),
                None => out,
            };
            let ghost held = (
                match (
                    node@->ArgumentBlockApplication_lhs
                ) { Some(x) => x.trees(), None => Seq::empty(), }
            );
            let out = Line::collect_all_trees(arguments, out);
            proof {
                lemma_appended(
                    start,
                    held,
                    LineView::all_trees((node@->ArgumentBlockApplication_arguments)),
                );
            }
            let ghost held = held + LineView::all_trees(
                (node@->ArgumentBlockApplication_arguments)
            );
            out
        },
        _ => unreached(),
    }
}

/// Appends the items that `OperatorBlockApplication` holds to `out`.
fn collect_items_of_operator_block_application<'a>(
    node: &'a Variant,
    out: Vec<Item<'a>>,
) -> (r: Vec<Item<'a>>)
    requires
        (node is OperatorBlockApplication),
    ensures
        Item::views(r@) == Item::views(out@) + node@.items(),
{
    match node {
        Variant::OperatorBlockApplication { lhs, expressions, excess } => {
            let ghost start = Item::views(out@);
            let out = match lhs {
                Some(x) => x.collect_items(out),
                None => out,
            };
            let ghost held = opt_tree_items((node@->OperatorBlockApplication_lhs));
            let out = OperatorLine::collect_all_items(expressions, out);
            proof {
                lemma_appended(
                    start,
                    held,
                    OperatorLineView::all_items((node@->OperatorBlockApplication_expressions)),
                );
            }
            let ghost held = held + OperatorLineView::all_items(
                (node@->OperatorBlockApplication_expressions)
            );
            let out = Line::collect_all_items(excess, out);
            proof {
                lemma_appended(
                    start,
                    held,
                    LineView::all_items((node@->OperatorBlockApplication_excess)),
                );
            }
            let ghost held = held + LineView::all_items((node@->OperatorBlockApplication_excess));
            out
        },
        _ => unreached(),
    }
}

/// Appends the nodes inside `OperatorBlockApplication` to `out`.
fn collect_trees_of_operator_block_application<'a>(
    node: &'a Variant,
    out: Vec<&'a Tree>,
) -> (r: Vec<&'a Tree>)
    requires
        (node is OperatorBlockApplication),
    ensures
        tree_views(r@) == tree_views(out@) + node@.trees(),
    decreases node, 0int,
{
    match node {
        Variant::OperatorBlockApplication { lhs, expressions, excess } => {
            let ghost start = tree_views(out@);
            let out = match lhs {
                Some(x) => x.collect_trees(out),
                None => out,
            };
            let ghost held = (
                match (
                    node@->OperatorBlockApplication_lhs
                ) { Some(x) => x.trees(), None => Seq::empty(), }
            );
            let out = OperatorLine::collect_all_trees(expressions, out);
            proof {
                lemma_appended(
                    start,
                    held,
                    OperatorLineView::all_trees((node@->OperatorBlockApplication_expressions)),
                );
            }
            let ghost held = held + OperatorLineView::all_trees(
                (node@->OperatorBlockApplication_expressions)
            );
            let out = Line::collect_all_trees(excess, out);
            proof {
                lemma_appended(
                    start,
                    held,
                    LineView::all_trees((node@->OperatorBlockApplication_excess)),
                );
            }
            let ghost held = held + LineView::all_trees((node@->OperatorBlockApplication_excess));
            out
        },
        _ => unreached(),
    }
}

/// Appends the items that `Ident` holds to `out`.
fn collect_items_of_ident<'a>(node: &'a Variant, out: Vec<Item<'a>>) -> (r: Vec<Item<'a>>)
    requires
        (node is Ident),
    ensures
        Item::views(r@) == Item::views(out@) + node@.items(),
{
    match node {
        Variant::Ident { token } => {
            let ghost start = Item::views(out@);
            let out = token.collect_items(out);
            let ghost held = seq![(node@->Ident_token).item()];
            out
        },
        _ => unreached(),
    }
}

/// Appends the nodes inside `Ident` to `out`.
fn collect_trees_of_ident<'a>(node: &'a Variant, out: Vec<&'a Tree>) -> (r: Vec<&'a Tree>)
    requires
        (node is Ident),
    ensures
        tree_views(r@) == tree_views(out@) + node@.trees(),
    decreases node, 0int,
{
    match node {
        Variant::Ident { token: _ } => {
            let ghost start = tree_views(out@);
            assert(start + Seq::empty() =~= start);
            out
        },
        _ => unreached(),
    }
}

/// Appends the items that `Private` holds to `out`.
fn collect_items_of_private<'a>(node: &'a Variant, out: Vec<Item<'a>>) -> (r: Vec<Item<'a>>)
    requires
        (node is Private),
    ensures
        Item::views(r@) == Item::views(out@) + node@.items(),
{
    match node {
        Variant::Private { keyword, body } => {
            let ghost start = Item::views(out@);
            let out = keyword.collect_items(out);
            let ghost held = seq![(node@->Private_keyword).item()];
            let out = match body {
                Some(x) => x.collect_items(out),
                None => out,
            };
            proof {
                lemma_appended(start, held, opt_tree_items((node@->Private_body)));
            }
            let ghost held = held + opt_tree_items((node@->Private_body));
            out
        },
        _ => unreached(),
    }
}

/// Appends the nodes inside `Private` to `out`.
fn collect_trees_of_private<'a>(node: &'a Variant, out: Vec<&'a Tree>) -> (r: Vec<&'a Tree>)
    requires
        (node is Private),
    ensures
        tree_views(r@) == tree_views(out@) + node@.trees(),
    decreases node, 0int,
{
    match node {
        Variant::Private { keyword: _, body } => {
            let ghost start = tree_views(out@);
            let out = match body {
                Some(x) => x.collect_trees(out),
                None => out,
            };
            let ghost held = (
                match (node@->Private_body) { Some(x) => x.trees(), None => Seq::empty(), }
            );
            out
        },
        _ => unreached(),
    }
}

/// Appends the items that `Number` holds to `out`.
fn collect_items_of_number<'a>(node: &'a Variant, out: Vec<Item<'a>>) -> (r: Vec<Item<'a>>)
    requires
        (node is Number),
    ensures
        Item::views(r@) == Item::views(out@) + node@.items(),
{
    match node {
        Variant::Number { base, integer, fractional_digits } => {
            let ghost start = Item::views(out@);
            let out = match base {
                Some(x) => x.collect_items(out),
                None => out,
            };
            let ghost held = opt_token_items((node@->Number_base));
            let out = match integer {
                Some(x) => x.collect_items(out),
                None => out,
            };
            proof {
                lemma_appended(start, held, opt_token_items((node@->Number_integer)));
            }
            let ghost held = held + opt_token_items((node@->Number_integer));
            let out = match fractional_digits {
                Some(x) => x.collect_items(out),
                None => out,
            };
            proof {
                lemma_appended(
                    start,
                    held,
                    (
                        match (
                            node@->Number_fractional_digits
                        ) { Some(x) => x.items(), None => Seq::empty(), }
                    ),
                );
            }
            let ghost held = held + (
                match (
                    node@->Number_fractional_digits
                ) { Some(x) => x.items(), None => Seq::empty(), }
            );
            out
        },
        _ => unreached(),
    }
}

/// Appends the nodes inside `Number` to `out`.
fn collect_trees_of_number<'a>(node: &'a Variant, out: Vec<&'a Tree>) -> (r: Vec<&'a Tree>)
    requires
        (node is Number),
    ensures
        tree_views(r@) == tree_views(out@) + node@.trees(),
    decreases node, 0int,
{
    match node {
        Variant::Number { base: _, integer: _, fractional_digits: _ } => {
            let ghost start = tree_views(out@);
            assert(start + Seq::empty() =~= start);
            out
        },
        _ => unreached(),
    }
}

/// Appends the items that `Wildcard` holds to `out`.
fn collect_items_of_wildcard<'a>(node: &'a Variant, out: Vec<Item<'a>>) -> (r: Vec<Item<'a>>)
    requires
        (node is Wildcard),
    ensures
        Item::views(r@) == Item::views(out@) + node@.items(),
{
    match node {
        Variant::Wildcard { token, de_bruijn_index: _ } => {
            let ghost start = Item::views(out@);
            let out = token.collect_items(out);
            let ghost held = seq![(node@->Wildcard_token).item()];
            out
        },
        _ => unreached(),
    }
}

/// Appends the nodes inside `Wildcard` to `out`.
fn collect_trees_of_wildcard<'a>(node: &'a Variant, out: Vec<&'a Tree>) -> (r: Vec<&'a Tree>)
    requires
        (node is Wildcard),
    ensures
        tree_views(r@) == tree_views(out@) + node@.trees(),
    decreases node, 0int,
{
    match node {
        Variant::Wildcard { token: _, de_bruijn_index: _ } => {
            let ghost start = tree_views(out@);
            assert(start + Seq::empty() =~= start);
            out
        },
        _ => unreached(),
    }
}

/// Appends the items that `SuspendedDefaultArguments` holds to `out`.
fn collect_items_of_suspended_default_arguments<'a>(
    node: &'a Variant,
    out: Vec<Item<'a>>,
) -> (r: Vec<Item<'a>>)
    requires
        (node is SuspendedDefaultArguments),
    ensures
        Item::views(r@) == Item::views(out@) + node@.items(),
{
    match node {
        Variant::SuspendedDefaultArguments { token } => {
            let ghost start = Item::views(out@);
            let out = token.collect_items(out);
            let ghost held = seq![(node@->SuspendedDefaultArguments_token).item()];
            out
        },
        _ => unreached(),
    }
}

/// Appends the nodes inside `SuspendedDefaultArguments` to `out`.
fn collect_trees_of_suspended_default_arguments<'a>(
    node: &'a Variant,
    out: Vec<&'a Tree>,
) -> (r: Vec<&'a Tree>)
    requires
        (node is SuspendedDefaultArguments),
    ensures
        tree_views(r@) == tree_views(out@) + node@.trees(),
    decreases node, 0int,
{
    match node {
        Variant::SuspendedDefaultArguments { token: _ } => {
            let ghost start = tree_views(out@);
            assert(start + Seq::empty() =~= start);
            out
        },
        _ => unreached(),
    }
}

/// Appends the items that `TextLiteral` holds to `out`.
fn collect_items_of_text_literal<'a>(node: &'a Variant, out: Vec<Item<'a>>) -> (r: Vec<Item<'a>>)
    requires
        (node is TextLiteral),
    ensures
        Item::views(r@) == Item::views(out@) + node@.items(),
{
    match node {
        Variant::TextLiteral { open, newline, elements, close, closed: _ } => {
            let ghost start = Item::views(out@);
            let out = match open {
                Some(x) => x.collect_items(out),
                None => out,
            };
            let ghost held = opt_token_items((node@->TextLiteral_open));
            let out = match newline {
                Some(x) => x.collect_items(out),
                None => out,
            };
            proof {
                lemma_appended(start, held, opt_token_items((node@->TextLiteral_newline)));
            }
            let ghost held = held + opt_token_items((node@->TextLiteral_newline));
            let out = TextElement::collect_all_items(elements, out);
            proof {
                lemma_appended(
                    start,
                    held,
                    TextElementView::all_items((node@->TextLiteral_elements)),
                );
            }
            let ghost held = held + TextElementView::all_items((node@->TextLiteral_elements));
            let out = match close {
                Some(x) => x.collect_items(out),
                None => out,
            };
            proof {
                lemma_appended(start, held, opt_token_items((node@->TextLiteral_close)));
            }
            let ghost held = held + opt_token_items((node@->TextLiteral_close));
            out
        },
        _ => unreached(),
    }
}

/// Appends the nodes inside `TextLiteral` to `out`.
fn collect_trees_of_text_literal<'a>(node: &'a Variant, out: Vec<&'a Tree>) -> (r: Vec<&'a Tree>)
    requires
        (node is TextLiteral),
    ensures
        tree_views(r@) == tree_views(out@) + node@.trees(),
    decreases node, 0int,
{
    match node {
        Variant::TextLiteral { open: _, newline: _, elements, close: _, closed: _ } => {
            let ghost start = tree_views(out@);
            let out = TextElement::collect_all_trees(elements, out);
            let ghost held = TextElementView::all_trees((node@->TextLiteral_elements));
            out
        },
        _ => unreached(),
    }
}

/// Appends the items that `App` holds to `out`.
fn collect_items_of_app<'a>(node: &'a Variant, out: Vec<Item<'a>>) -> (r: Vec<Item<'a>>)
    requires
        (node is App),
    ensures
        Item::views(r@) == Item::views(out@) + node@.items(),
{
    match node {
        Variant::App { func, arg } => {
            let ghost start = Item::views(out@);
            let out = func.collect_items(out);
            let ghost held = seq![ItemView::Tree((node@->App_func))];
            let out = arg.collect_items(out);
            proof {
                lemma_appended(start, held, seq![ItemView::Tree((node@->App_arg))]);
            }
            let ghost held = held + seq![ItemView::Tree((node@->App_arg))];
            out
        },
        _ => unreached(),
    }
}

/// Appends the nodes inside `App` to `out`.
fn collect_trees_of_app<'a>(node: &'a Variant, out: Vec<&'a Tree>) -> (r: Vec<&'a Tree>)
    requires
        (node is App),
    ensures
        tree_views(r@) == tree_views(out@) + node@.trees(),
    decreases node, 0int,
{
    match node {
        Variant::App { func, arg } => {
            let ghost start = tree_views(out@);
            let out = func.collect_trees(out);
            let ghost held = (node@->App_func).trees();
            let out = arg.collect_trees(out);
            proof {
                lemma_appended(start, held, (node@->App_arg).trees());
            }
            let ghost held = held + (node@->App_arg).trees();
            out
        },
        _ => unreached(),
    }
}

/// Appends the items that `NamedApp` holds to `out`.
fn collect_items_of_named_app<'a>(node: &'a Variant, out: Vec<Item<'a>>) -> (r: Vec<Item<'a>>)
    requires
        (node is NamedApp),
    ensures
        Item::views(r@) == Item::views(out@) + node@.items(),
{
    match node {
        Variant::NamedApp { func, open, name, equals, arg, close } => {
            let ghost start = Item::views(out@);
            let out = func.collect_items(out);
            let ghost held = seq![ItemView::Tree((node@->NamedApp_func))];
            let out = match open {
                Some(x) => x.collect_items(out),
                None => out,
            };
            proof {
                lemma_appended(start, held, opt_token_items((node@->NamedApp_open)));
            }
            let ghost held = held + opt_token_items((node@->NamedApp_open));
            let out = name.collect_items(out);
            proof {
                lemma_appended(start, held, seq![(node@->NamedApp_name).item()]);
            }
            let ghost held = held + seq![(node@->NamedApp_name).item()];
            let out = equals.collect_items(out);
            proof {
                lemma_appended(start, held, seq![(node@->NamedApp_equals).item()]);
            }
            let ghost held = held + seq![(node@->NamedApp_equals).item()];
            let out = arg.collect_items(out);
            proof {
                lemma_appended(start, held, seq![ItemView::Tree((node@->NamedApp_arg))]);
            }
            let ghost held = held + seq![ItemView::Tree((node@->NamedApp_arg))];
            let out = match close {
                Some(x) => x.collect_items(out),
                None => out,
            };
            proof {
                lemma_appended(start, held, opt_token_items((node@->NamedApp_close)));
            }
            let ghost held = held + opt_token_items((node@->NamedApp_close));
            out
        },
        _ => unreached(),
    }
}

/// Appends the nodes inside `NamedApp` to `out`.
fn collect_trees_of_named_app<'a>(node: &'a Variant, out: Vec<&'a Tree>) -> (r: Vec<&'a Tree>)
    requires
        (node is NamedApp),
    ensures
        tree_views(r@) == tree_views(out@) + node@.trees(),
    decreases node, 0int,
{
    match node {
        Variant::NamedApp { func, open: _, name: _, equals: _, arg, close: _ } => {
            let ghost start = tree_views(out@);
            let out = func.collect_trees(out);
            let ghost held = (node@->NamedApp_func).trees();
            let out = arg.collect_trees(out);
            proof {
                lemma_appended(start, held, (node@->NamedApp_arg).trees());
            }
            let ghost held = held + (node@->NamedApp_arg).trees();
            out
        },
        _ => unreached(),
    }
}

/// Appends the items that `OprApp` holds to `out`.
fn collect_items_of_opr_app<'a>(node: &'a Variant, out: Vec<Item<'a>>) -> (r: Vec<Item<'a>>)
    requires
        (node is OprApp),
    ensures
        Item::views(r@) == Item::views(out@) + node@.items(),
{
    match node {
        Variant::OprApp { lhs, opr, rhs } => {
            let ghost start = Item::views(out@);
            let out = match lhs {
                Some(x) => x.collect_items(out),
                None => out,
            };
            let ghost held = opt_tree_items((node@->OprApp_lhs));
            let out = match opr {
                Ok(x) => x.collect_items(out),
                Err(x) => x.collect_items(out),
            };
            proof {
                lemma_appended(start, held, operator_or_error_items((node@->OprApp_opr)));
            }
            let ghost held = held + operator_or_error_items((node@->OprApp_opr));
            let out = match rhs {
                Some(x) => x.collect_items(out),
                None => out,
            };
            proof {
                lemma_appended(start, held, opt_tree_items((node@->OprApp_rhs)));
            }
            let ghost held = held + opt_tree_items((node@->OprApp_rhs));
            out
        },
        _ => unreached(),
    }
}

/// Appends the nodes inside `OprApp` to `out`.
fn collect_trees_of_opr_app<'a>(node: &'a Variant, out: Vec<&'a Tree>) -> (r: Vec<&'a Tree>)
    requires
        (node is OprApp),
    ensures
        tree_views(r@) == tree_views(out@) + node@.trees(),
    decreases node, 0int,
{
    match node {
        Variant::OprApp { lhs, opr: _, rhs } => {
            let ghost start = tree_views(out@);
            let out = match lhs {
                Some(x) => x.collect_trees(out),
                None => out,
            };
            let ghost held = (
                match (node@->OprApp_lhs) { Some(x) => x.trees(), None => Seq::empty(), }
            );
            let out = match rhs {
                Some(x) => x.collect_trees(out),
                None => out,
            };
            proof {
                lemma_appended(
                    start,
                    held,
                    (match (node@->OprApp_rhs) { Some(x) => x.trees(), None => Seq::empty(), }),
                );
            }
            let ghost held = held + (
                match (node@->OprApp_rhs) { Some(x) => x.trees(), None => Seq::empty(), }
            );
            out
        },
        _ => unreached(),
    }
}

/// Appends the items that `UnaryOprApp` holds to `out`.
fn collect_items_of_unary_opr_app<'a>(node: &'a Variant, out: Vec<Item<'a>>) -> (r: Vec<Item<'a>>)
    requires
        (node is UnaryOprApp),
    ensures
        Item::views(r@) == Item::views(out@) + node@.items(),
{
    match node {
        Variant::UnaryOprApp { opr, rhs } => {
            let ghost start = Item::views(out@);
            let out = opr.collect_items(out);
            let ghost held = seq![(node@->UnaryOprApp_opr).item()];
            let out = match rhs {
                Some(x) => x.collect_items(out),
                None => out,
            };
            proof {
                lemma_appended(start, held, opt_tree_items((node@->UnaryOprApp_rhs)));
            }
            let ghost held = held + opt_tree_items((node@->UnaryOprApp_rhs));
            out
        },
        _ => unreached(),
    }
}

/// Appends the nodes inside `UnaryOprApp` to `out`.
fn collect_trees_of_unary_opr_app<'a>(node: &'a Variant, out: Vec<&'a Tree>) -> (r: Vec<&'a Tree>)
    requires
        (node is UnaryOprApp),
    ensures
        tree_views(r@) == tree_views(out@) + node@.trees(),
    decreases node, 0int,
{
    match node {
        Variant::UnaryOprApp { opr: _, rhs } => {
            let ghost start = tree_views(out@);
            let out = match rhs {
                Some(x) => x.collect_trees(out),
                None => out,
            };
            let ghost held = (
                match (node@->UnaryOprApp_rhs) { Some(x) => x.trees(), None => Seq::empty(), }
            );
            out
        },
        _ => unreached(),
    }
}

/// Appends the items that `AutoscopedIdentifier` holds to `out`.
fn collect_items_of_autoscoped_identifier<'a>(
    node: &'a Variant,
    out: Vec<Item<'a>>,
) -> (r: Vec<Item<'a>>)
    requires
        (node is AutoscopedIdentifier),
    ensures
        Item::views(r@) == Item::views(out@) + node@.items(),
{
    match node {
        Variant::AutoscopedIdentifier { opr, ident } => {
            let ghost start = Item::views(out@);
            let out = opr.collect_items(out);
            let ghost held = seq![(node@->AutoscopedIdentifier_opr).item()];
            let out = ident.collect_items(out);
            proof {
                lemma_appended(start, held, seq![(node@->AutoscopedIdentifier_ident).item()]);
            }
            let ghost held = held + seq![(node@->AutoscopedIdentifier_ident).item()];
            out
        },
        _ => unreached(),
    }
}

/// Appends the nodes inside `AutoscopedIdentifier` to `out`.
fn collect_trees_of_autoscoped_identifier<'a>(
    node: &'a Variant,
    out: Vec<&'a Tree>,
) -> (r: Vec<&'a Tree>)
    requires
        (node is AutoscopedIdentifier),
    ensures
        tree_views(r@) == tree_views(out@) + node@.trees(),
    decreases node, 0int,
{
    match node {
        Variant::AutoscopedIdentifier { opr: _, ident: _ } => {
            let ghost start = tree_views(out@);
            assert(start + Seq::empty() =~= start);
            out
        },
        _ => unreached(),
    }
}

/// Appends the items that `OprSectionBoundary` holds to `out`.
fn collect_items_of_opr_section_boundary<'a>(
    node: &'a Variant,
    out: Vec<Item<'a>>,
) -> (r: Vec<Item<'a>>)
    requires
        (node is OprSectionBoundary),
    ensures
        Item::views(r@) == Item::views(out@) + node@.items(),
{
    match node {
        Variant::OprSectionBoundary { arguments: _, ast } => {
            let ghost start = Item::views(out@);
            let out = ast.collect_items(out);
            let ghost held = seq![ItemView::Tree((node@->OprSectionBoundary_ast))];
            out
        },
        _ => unreached(),
    }
}

/// Appends the nodes inside `OprSectionBoundary` to `out`.
fn collect_trees_of_opr_section_boundary<'a>(
    node: &'a Variant,
    out: Vec<&'a Tree>,
) -> (r: Vec<&'a Tree>)
    requires
        (node is OprSectionBoundary),
    ensures
        tree_views(r@) == tree_views(out@) + node@.trees(),
    decreases node, 0int,
{
    match node {
        Variant::OprSectionBoundary { arguments: _, ast } => {
            let ghost start = tree_views(out@);
            let out = ast.collect_trees(out);
            let ghost held = (node@->OprSectionBoundary_ast).trees();
            out
        },
        _ => unreached(),
    }
}

/// Appends the items that `TemplateFunction` holds to `out`.
fn collect_items_of_template_function<'a>(
    node: &'a Variant,
    out: Vec<Item<'a>>,
) -> (r: Vec<Item<'a>>)
    requires
        (node is TemplateFunction),
    ensures
        Item::views(r@) == Item::views(out@) + node@.items(),
{
    match node {
        Variant::TemplateFunction { arguments: _, ast } => {
            let ghost start = Item::views(out@);
            let out = ast.collect_items(out);
            let ghost held = seq![ItemView::Tree((node@->TemplateFunction_ast))];
            out
        },
        _ => unreached(),
    }
}

/// Appends the nodes inside `TemplateFunction` to `out`.
fn collect_trees_of_template_function<'a>(
    node: &'a Variant,
    out: Vec<&'a Tree>,
) -> (r: Vec<&'a Tree>)
    requires
        (node is TemplateFunction),
    ensures
        tree_views(r@) == tree_views(out@) + node@.trees(),
    decreases node, 0int,
{
    match node {
        Variant::TemplateFunction { arguments: _, ast } => {
            let ghost start = tree_views(out@);
            let out = ast.collect_trees(out);
            let ghost held = (node@->TemplateFunction_ast).trees();
            out
        },
        _ => unreached(),
    }
}

/// Appends the items that `MultiSegmentApp` holds to `out`.
fn collect_items_of_multi_segment_app<'a>(
    node: &'a Variant,
    out: Vec<Item<'a>>,
) -> (r: Vec<Item<'a>>)
    requires
        (node is MultiSegmentApp),
    ensures
        Item::views(r@) == Item::views(out@) + node@.items(),
{
    match node {
        Variant::MultiSegmentApp { segments } => {
            let ghost start = Item::views(out@);
            let out = MultiSegmentAppSegment::collect_all_items(segments, out);
            let ghost held = MultiSegmentAppSegmentView::all_items(
                (node@->MultiSegmentApp_segments)
            );
            out
        },
        _ => unreached(),
    }
}

/// Appends the nodes inside `MultiSegmentApp` to `out`.
fn collect_trees_of_multi_segment_app<'a>(
    node: &'a Variant,
    out: Vec<&'a Tree>,
) -> (r: Vec<&'a Tree>)
    requires
        (node is MultiSegmentApp),
    ensures
        tree_views(r@) == tree_views(out@) + node@.trees(),
    decreases node, 0int,
{
    match node {
        Variant::MultiSegmentApp { segments } => {
            let ghost start = tree_views(out@);
            let out = MultiSegmentAppSegment::collect_all_trees(segments, out);
            let ghost held = MultiSegmentAppSegmentView::all_trees(
                (node@->MultiSegmentApp_segments)
            );
            out
        },
        _ => unreached(),
    }
}

/// Appends the items that `TypeDef` holds to `out`.
fn collect_items_of_type_def<'a>(node: &'a Variant, out: Vec<Item<'a>>) -> (r: Vec<Item<'a>>)
    requires
        (node is TypeDef),
    ensures
        Item::views(r@) == Item::views(out@) + node@.items(),
{
    match node {
        Variant::TypeDef { keyword, name, params, body } => {
            let ghost start = Item::views(out@);
            let out = keyword.collect_items(out);
            let ghost held = seq![(node@->TypeDef_keyword).item()];
            let out = name.collect_items(out);
            proof {
                lemma_appended(start, held, seq![(node@->TypeDef_name).item()]);
            }
            let ghost held = held + seq![(node@->TypeDef_name).item()];
            let out = ArgumentDefinition::collect_all_items(params, out);
            proof {
                lemma_appended(
                    start,
                    held,
                    ArgumentDefinitionView::all_items((node@->TypeDef_params)),
                );
            }
            let ghost held = held + ArgumentDefinitionView::all_items((node@->TypeDef_params));
            let out = Line::collect_all_items(body, out);
            proof {
                lemma_appended(start, held, LineView::all_items((node@->TypeDef_body)));
            }
            let ghost held = held + LineView::all_items((node@->TypeDef_body));
            out
        },
        _ => unreached(),
    }
}

/// Appends the nodes inside `TypeDef` to `out`.
fn collect_trees_of_type_def<'a>(node: &'a Variant, out: Vec<&'a Tree>) -> (r: Vec<&'a Tree>)
    requires
        (node is TypeDef),
    ensures
        tree_views(r@) == tree_views(out@) + node@.trees(),
    decreases node, 0int,
{
    match node {
        Variant::TypeDef { keyword: _, name: _, params, body } => {
            let ghost start = tree_views(out@);
            let out = ArgumentDefinition::collect_all_trees(params, out);
            let ghost held = ArgumentDefinitionView::all_trees((node@->TypeDef_params));
            let out = Line::collect_all_trees(body, out);
            proof {
                lemma_appended(start, held, LineView::all_trees((node@->TypeDef_body)));
            }
            let ghost held = held + LineView::all_trees((node@->TypeDef_body));
            out
        },
        _ => unreached(),
    }
}

/// Appends the items that `Assignment` holds to `out`.
fn collect_items_of_assignment<'a>(node: &'a Variant, out: Vec<Item<'a>>) -> (r: Vec<Item<'a>>)
    requires
        (node is Assignment),
    ensures
        Item::views(r@) == Item::views(out@) + node@.items(),
{
    match node {
        Variant::Assignment { pattern, equals, expr } => {
            let ghost start = Item::views(out@);
            let out = pattern.collect_items(out);
            let ghost held = seq![ItemView::Tree((node@->Assignment_pattern))];
            let out = equals.collect_items(out);
            proof {
                lemma_appended(start, held, seq![(node@->Assignment_equals).item()]);
            }
            let ghost held = held + seq![(node@->Assignment_equals).item()];
            let out = expr.collect_items(out);
            proof {
                lemma_appended(start, held, seq![ItemView::Tree((node@->Assignment_expr))]);
            }
            let ghost held = held + seq![ItemView::Tree((node@->Assignment_expr))];
            out
        },
        _ => unreached(),
    }
}

/// Appends the nodes inside `Assignment` to `out`.
fn collect_trees_of_assignment<'a>(node: &'a Variant, out: Vec<&'a Tree>) -> (r: Vec<&'a Tree>)
    requires
        (node is Assignment),
    ensures
        tree_views(r@) == tree_views(out@) + node@.trees(),
    decreases node, 0int,
{
    match node {
        Variant::Assignment { pattern, equals: _, expr } => {
            let ghost start = tree_views(out@);
            let out = pattern.collect_trees(out);
            let ghost held = (node@->Assignment_pattern).trees();
            let out = expr.collect_trees(out);
            proof {
                lemma_appended(start, held, (node@->Assignment_expr).trees());
            }
            let ghost held = held + (node@->Assignment_expr).trees();
            out
        },
        _ => unreached(),
    }
}

/// Appends the items that `Function` holds to `out`.
fn collect_items_of_function<'a>(node: &'a Variant, out: Vec<Item<'a>>) -> (r: Vec<Item<'a>>)
    requires
        (node is Function),
    ensures
        Item::views(r@) == Item::views(out@) + node@.items(),
{
    match node {
        Variant::Function { name, args, returns_, equals, body } => {
            let ghost start = Item::views(out@);
            let out = name.collect_items(out);
            let ghost held = seq![ItemView::Tree((node@->Function_name))];
            let out = ArgumentDefinition::collect_all_items(args, out);
            proof {
                lemma_appended(
                    start,
                    held,
                    ArgumentDefinitionView::all_items((node@->Function_args)),
                );
            }
            let ghost held = held + ArgumentDefinitionView::all_items((node@->Function_args));
            let out = match returns_ {
                Some(x) => x.collect_items(out),
                None => out,
            };
            proof {
                lemma_appended(
                    start,
                    held,
                    (
                        match (
                            node@->Function_returns_
                        ) { Some(x) => x.items(), None => Seq::empty(), }
                    ),
                );
            }
            let ghost held = held + (
                match (node@->Function_returns_) { Some(x) => x.items(), None => Seq::empty(), }
            );
            let out = equals.collect_items(out);
            proof {
                lemma_appended(start, held, seq![(node@->Function_equals).item()]);
            }
            let ghost held = held + seq![(node@->Function_equals).item()];
            let out = match body {
                Some(x) => x.collect_items(out),
                None => out,
            };
            proof {
                lemma_appended(start, held, opt_tree_items((node@->Function_body)));
            }
            let ghost held = held + opt_tree_items((node@->Function_body));
            out
        },
        _ => unreached(),
    }
}

/// Appends the nodes inside `Function` to `out`.
fn collect_trees_of_function<'a>(node: &'a Variant, out: Vec<&'a Tree>) -> (r: Vec<&'a Tree>)
    requires
        (node is Function),
    ensures
        tree_views(r@) == tree_views(out@) + node@.trees(),
    decreases node, 0int,
{
    match node {
        Variant::Function { name, args, returns_, equals: _, body } => {
            let ghost start = tree_views(out@);
            let out = name.collect_trees(out);
            let ghost held = (node@->Function_name).trees();
            let out = ArgumentDefinition::collect_all_trees(args, out);
            proof {
                lemma_appended(
                    start,
                    held,
                    ArgumentDefinitionView::all_trees((node@->Function_args)),
                );
            }
            let ghost held = held + ArgumentDefinitionView::all_trees((node@->Function_args));
            let out = match returns_ {
                Some(x) => x.collect_trees(out),
                None => out,
            };
            proof {
                lemma_appended(
                    start,
                    held,
                    (
                        match (
                            node@->Function_returns_
                        ) { Some(x) => x.trees(), None => Seq::empty(), }
                    ),
                );
            }
            let ghost held = held + (
                match (node@->Function_returns_) { Some(x) => x.trees(), None => Seq::empty(), }
            );
            let out = match body {
                Some(x) => x.collect_trees(out),
                None => out,
            };
            proof {
                lemma_appended(
                    start,
                    held,
                    (match (node@->Function_body) { Some(x) => x.trees(), None => Seq::empty(), }),
                );
            }
            let ghost held = held + (
                match (node@->Function_body) { Some(x) => x.trees(), None => Seq::empty(), }
            );
            out
        },
        _ => unreached(),
    }
}

/// Appends the items that `ForeignFunction` holds to `out`.
fn collect_items_of_foreign_function<'a>(
    node: &'a Variant,
    out: Vec<Item<'a>>,
) -> (r: Vec<Item<'a>>)
    requires
        (node is ForeignFunction),
    ensures
        Item::views(r@) == Item::views(out@) + node@.items(),
{
    match node {
        Variant::ForeignFunction { foreign, language, name, args, equals, body } => {
            let ghost start = Item::views(out@);
            let out = foreign.collect_items(out);
            let ghost held = seq![(node@->ForeignFunction_foreign).item()];
            let out = language.collect_items(out);
            proof {
                lemma_appended(start, held, seq![(node@->ForeignFunction_language).item()]);
            }
            let ghost held = held + seq![(node@->ForeignFunction_language).item()];
            let out = name.collect_items(out);
            proof {
                lemma_appended(start, held, seq![(node@->ForeignFunction_name).item()]);
            }
            let ghost held = held + seq![(node@->ForeignFunction_name).item()];
            let out = ArgumentDefinition::collect_all_items(args, out);
            proof {
                lemma_appended(
                    start,
                    held,
                    ArgumentDefinitionView::all_items((node@->ForeignFunction_args)),
                );
            }
            let ghost held = held + ArgumentDefinitionView::all_items(
                (node@->ForeignFunction_args)
            );
            let out = equals.collect_items(out);
            proof {
                lemma_appended(start, held, seq![(node@->ForeignFunction_equals).item()]);
            }
            let ghost held = held + seq![(node@->ForeignFunction_equals).item()];
            let out = body.collect_items(out);
            proof {
                lemma_appended(start, held, seq![ItemView::Tree((node@->ForeignFunction_body))]);
            }
            let ghost held = held + seq![ItemView::Tree((node@->ForeignFunction_body))];
            out
        },
        _ => unreached(),
    }
}

/// Appends the nodes inside `ForeignFunction` to `out`.
fn collect_trees_of_foreign_function<'a>(
    node: &'a Variant,
    out: Vec<&'a Tree>,
) -> (r: Vec<&'a Tree>)
    requires
        (node is ForeignFunction),
    ensures
        tree_views(r@) == tree_views(out@) + node@.trees(),
    decreases node, 0int,
{
    match node {
        Variant::ForeignFunction { foreign: _, language: _, name: _, args, equals: _, body } => {
            let ghost start = tree_views(out@);
            let out = ArgumentDefinition::collect_all_trees(args, out);
            let ghost held = ArgumentDefinitionView::all_trees((node@->ForeignFunction_args));
            let out = body.collect_trees(out);
            proof {
                lemma_appended(start, held, (node@->ForeignFunction_body).trees());
            }
            let ghost held = held + (node@->ForeignFunction_body).trees();
            out
        },
        _ => unreached(),
    }
}

/// Appends the items that `Import` holds to `out`.
fn collect_items_of_import<'a>(node: &'a Variant, out: Vec<Item<'a>>) -> (r: Vec<Item<'a>>)
    requires
        (node is Import),
    ensures
        Item::views(r@) == Item::views(out@) + node@.items(),
{
    match node {
        Variant::Import { polyglot, from, import, all, as_, hiding } => {
            let ghost start = Item::views(out@);
            let out = match polyglot {
                Some(x) => x.collect_items(out),
                None => out,
            };
            let ghost held = (
                match (node@->Import_polyglot) { Some(x) => x.items(), None => Seq::empty(), }
            );
            let out = match from {
                Some(x) => x.collect_items(out),
                None => out,
            };
            proof {
                lemma_appended(
                    start,
                    held,
                    (match (node@->Import_from) { Some(x) => x.items(), None => Seq::empty(), }),
                );
            }
            let ghost held = held + (
                match (node@->Import_from) { Some(x) => x.items(), None => Seq::empty(), }
            );
            let out = import.collect_items(out);
            proof {
                lemma_appended(start, held, (node@->Import_import).items());
            }
            let ghost held = held + (node@->Import_import).items();
            let out = match all {
                Some(x) => x.collect_items(out),
                None => out,
            };
            proof {
                lemma_appended(start, held, opt_token_items((node@->Import_all)));
            }
            let ghost held = held + opt_token_items((node@->Import_all));
            let out = match as_ {
                Some(x) => x.collect_items(out),
                None => out,
            };
            proof {
                lemma_appended(
                    start,
                    held,
                    (match (node@->Import_as_) { Some(x) => x.items(), None => Seq::empty(), }),
                );
            }
            let ghost held = held + (
                match (node@->Import_as_) { Some(x) => x.items(), None => Seq::empty(), }
            );
            let out = match hiding {
                Some(x) => x.collect_items(out),
                None => out,
            };
            proof {
                lemma_appended(
                    start,
                    held,
                    (match (node@->Import_hiding) { Some(x) => x.items(), None => Seq::empty(), }),
                );
            }
            let ghost held = held + (
                match (node@->Import_hiding) { Some(x) => x.items(), None => Seq::empty(), }
            );
            out
        },
        _ => unreached(),
    }
}

/// Appends the nodes inside `Import` to `out`.
fn collect_trees_of_import<'a>(node: &'a Variant, out: Vec<&'a Tree>) -> (r: Vec<&'a Tree>)
    requires
        (node is Import),
    ensures
        tree_views(r@) == tree_views(out@) + node@.trees(),
    decreases node, 0int,
{
    match node {
        Variant::Import { polyglot, from, import, all: _, as_, hiding } => {
            let ghost start = tree_views(out@);
            let out = match polyglot {
                Some(x) => x.collect_trees(out),
                None => out,
            };
            let ghost held = (
                match (node@->Import_polyglot) { Some(x) => x.trees(), None => Seq::empty(), }
            );
            let out = match from {
                Some(x) => x.collect_trees(out),
                None => out,
            };
            proof {
                lemma_appended(
                    start,
                    held,
                    (match (node@->Import_from) { Some(x) => x.trees(), None => Seq::empty(), }),
                );
            }
            let ghost held = held + (
                match (node@->Import_from) { Some(x) => x.trees(), None => Seq::empty(), }
            );
            let out = import.collect_trees(out);
            proof {
                lemma_appended(start, held, (node@->Import_import).trees());
            }
            let ghost held = held + (node@->Import_import).trees();
            let out = match as_ {
                Some(x) => x.collect_trees(out),
                None => out,
            };
            proof {
                lemma_appended(
                    start,
                    held,
                    (match (node@->Import_as_) { Some(x) => x.trees(), None => Seq::empty(), }),
                );
            }
            let ghost held = held + (
                match (node@->Import_as_) { Some(x) => x.trees(), None => Seq::empty(), }
            );
            let out = match hiding {
                Some(x) => x.collect_trees(out),
                None => out,
            };
            proof {
                lemma_appended(
                    start,
                    held,
                    (match (node@->Import_hiding) { Some(x) => x.trees(), None => Seq::empty(), }),
                );
            }
            let ghost held = held + (
                match (node@->Import_hiding) { Some(x) => x.trees(), None => Seq::empty(), }
            );
            out
        },
        _ => unreached(),
    }
}

/// Appends the items that `Export` holds to `out`.
fn collect_items_of_export<'a>(node: &'a Variant, out: Vec<Item<'a>>) -> (r: Vec<Item<'a>>)
    requires
        (node is Export),
    ensures
        Item::views(r@) == Item::views(out@) + node@.items(),
{
    match node {
        Variant::Export { from, export, all, as_, hiding } => {
            let ghost start = Item::views(out@);
            let out = match from {
                Some(x) => x.collect_items(out),
                None => out,
            };
            let ghost held = (
                match (node@->Export_from) { Some(x) => x.items(), None => Seq::empty(), }
            );
            let out = export.collect_items(out);
            proof {
                lemma_appended(start, held, (node@->Export_export).items());
            }
            let ghost held = held + (node@->Export_export).items();
            let out = match all {
                Some(x) => x.collect_items(out),
                None => out,
            };
            proof {
                lemma_appended(start, held, opt_token_items((node@->Export_all)));
            }
            let ghost held = held + opt_token_items((node@->Export_all));
            let out = match as_ {
                Some(x) => x.collect_items(out),
                None => out,
            };
            proof {
                lemma_appended(
                    start,
                    held,
                    (match (node@->Export_as_) { Some(x) => x.items(), None => Seq::empty(), }),
                );
            }
            let ghost held = held + (
                match (node@->Export_as_) { Some(x) => x.items(), None => Seq::empty(), }
            );
            let out = match hiding {
                Some(x) => x.collect_items(out),
                None => out,
            };
            proof {
                lemma_appended(
                    start,
                    held,
                    (match (node@->Export_hiding) { Some(x) => x.items(), None => Seq::empty(), }),
                );
            }
            let ghost held = held + (
                match (node@->Export_hiding) { Some(x) => x.items(), None => Seq::empty(), }
            );
            out
        },
        _ => unreached(),
    }
}

/// Appends the nodes inside `Export` to `out`.
fn collect_trees_of_export<'a>(node: &'a Variant, out: Vec<&'a Tree>) -> (r: Vec<&'a Tree>)
    requires
        (node is Export),
    ensures
        tree_views(r@) == tree_views(out@) + node@.trees(),
    decreases node, 0int,
{
    match node {
        Variant::Export { from, export, all: _, as_, hiding } => {
            let ghost start = tree_views(out@);
            let out = match from {
                Some(x) => x.collect_trees(out),
                None => out,
            };
            let ghost held = (
                match (node@->Export_from) { Some(x) => x.trees(), None => Seq::empty(), }
            );
            let out = export.collect_trees(out);
            proof {
                lemma_appended(start, held, (node@->Export_export).trees());
            }
            let ghost held = held + (node@->Export_export).trees();
            let out = match as_ {
                Some(x) => x.collect_trees(out),
                None => out,
            };
            proof {
                lemma_appended(
                    start,
                    held,
                    (match (node@->Export_as_) { Some(x) => x.trees(), None => Seq::empty(), }),
                );
            }
            let ghost held = held + (
                match (node@->Export_as_) { Some(x) => x.trees(), None => Seq::empty(), }
            );
            let out = match hiding {
                Some(x) => x.collect_trees(out),
                None => out,
            };
            proof {
                lemma_appended(
                    start,
                    held,
                    (match (node@->Export_hiding) { Some(x) => x.trees(), None => Seq::empty(), }),
                );
            }
            let ghost held = held + (
                match (node@->Export_hiding) { Some(x) => x.trees(), None => Seq::empty(), }
            );
            out
        },
        _ => unreached(),
    }
}

/// Appends the items that `Group` holds to `out`.
fn collect_items_of_group<'a>(node: &'a Variant, out: Vec<Item<'a>>) -> (r: Vec<Item<'a>>)
    requires
        (node is Group),
    ensures
        Item::views(r@) == Item::views(out@) + node@.items(),
{
    match node {
        Variant::Group { open, body, close } => {
            let ghost start = Item::views(out@);
            let out = match open {
                Some(x) => x.collect_items(out),
                None => out,
            };
            let ghost held = opt_token_items((node@->Group_open));
            let out = match body {
                Some(x) => x.collect_items(out),
                None => out,
            };
            proof {
                lemma_appended(start, held, opt_tree_items((node@->Group_body)));
            }
            let ghost held = held + opt_tree_items((node@->Group_body));
            let out = match close {
                Some(x) => x.collect_items(out),
                None => out,
            };
            proof {
                lemma_appended(start, held, opt_token_items((node@->Group_close)));
            }
            let ghost held = held + opt_token_items((node@->Group_close));
            out
        },
        _ => unreached(),
    }
}

/// Appends the nodes inside `Group` to `out`.
fn collect_trees_of_group<'a>(node: &'a Variant, out: Vec<&'a Tree>) -> (r: Vec<&'a Tree>)
    requires
        (node is Group),
    ensures
        tree_views(r@) == tree_views(out@) + node@.trees(),
    decreases node, 0int,
{
    match node {
        Variant::Group { open: _, body, close: _ } => {
            let ghost start = tree_views(out@);
            let out = match body {
                Some(x) => x.collect_trees(out),
                None => out,
            };
            let ghost held = (
                match (node@->Group_body) { Some(x) => x.trees(), None => Seq::empty(), }
            );
            out
        },
        _ => unreached(),
    }
}

/// Appends the items that `TypeSignature` holds to `out`.
fn collect_items_of_type_signature<'a>(node: &'a Variant, out: Vec<Item<'a>>) -> (r: Vec<Item<'a>>)
    requires
        (node is TypeSignature),
    ensures
        Item::views(r@) == Item::views(out@) + node@.items(),
{
    match node {
        Variant::TypeSignature { variable, operator, type_ } => {
            let ghost start = Item::views(out@);
            let out = variable.collect_items(out);
            let ghost held = seq![ItemView::Tree((node@->TypeSignature_variable))];
            let out = operator.collect_items(out);
            proof {
                lemma_appended(start, held, seq![(node@->TypeSignature_operator).item()]);
            }
            let ghost held = held + seq![(node@->TypeSignature_operator).item()];
            let out = type_.collect_items(out);
            proof {
                lemma_appended(start, held, seq![ItemView::Tree((node@->TypeSignature_type_))]);
            }
            let ghost held = held + seq![ItemView::Tree((node@->TypeSignature_type_))];
            out
        },
        _ => unreached(),
    }
}

/// Appends the nodes inside `TypeSignature` to `out`.
fn collect_trees_of_type_signature<'a>(node: &'a Variant, out: Vec<&'a Tree>) -> (r: Vec<&'a Tree>)
    requires
        (node is TypeSignature),
    ensures
        tree_views(r@) == tree_views(out@) + node@.trees(),
    decreases node, 0int,
{
    match node {
        Variant::TypeSignature { variable, operator: _, type_ } => {
            let ghost start = tree_views(out@);
            let out = variable.collect_trees(out);
            let ghost held = (node@->TypeSignature_variable).trees();
            let out = type_.collect_trees(out);
            proof {
                lemma_appended(start, held, (node@->TypeSignature_type_).trees());
            }
            let ghost held = held + (node@->TypeSignature_type_).trees();
            out
        },
        _ => unreached(),
    }
}

/// Appends the items that `TypeAnnotated` holds to `out`.
fn collect_items_of_type_annotated<'a>(node: &'a Variant, out: Vec<Item<'a>>) -> (r: Vec<Item<'a>>)
    requires
        (node is TypeAnnotated),
    ensures
        Item::views(r@) == Item::views(out@) + node@.items(),
{
    match node {
        Variant::TypeAnnotated { expression, operator, type_ } => {
            let ghost start = Item::views(out@);
            let out = expression.collect_items(out);
            let ghost held = seq![ItemView::Tree((node@->TypeAnnotated_expression))];
            let out = operator.collect_items(out);
            proof {
                lemma_appended(start, held, seq![(node@->TypeAnnotated_operator).item()]);
            }
            let ghost held = held + seq![(node@->TypeAnnotated_operator).item()];
            let out = type_.collect_items(out);
            proof {
                lemma_appended(start, held, seq![ItemView::Tree((node@->TypeAnnotated_type_))]);
            }
            let ghost held = held + seq![ItemView::Tree((node@->TypeAnnotated_type_))];
            out
        },
        _ => unreached(),
    }
}

/// Appends the nodes inside `TypeAnnotated` to `out`.
fn collect_trees_of_type_annotated<'a>(node: &'a Variant, out: Vec<&'a Tree>) -> (r: Vec<&'a Tree>)
    requires
        (node is TypeAnnotated),
    ensures
        tree_views(r@) == tree_views(out@) + node@.trees(),
    decreases node, 0int,
{
    match node {
        Variant::TypeAnnotated { expression, operator: _, type_ } => {
            let ghost start = tree_views(out@);
            let out = expression.collect_trees(out);
            let ghost held = (node@->TypeAnnotated_expression).trees();
            let out = type_.collect_trees(out);
            proof {
                lemma_appended(start, held, (node@->TypeAnnotated_type_).trees());
            }
            let ghost held = held + (node@->TypeAnnotated_type_).trees();
            out
        },
        _ => unreached(),
    }
}

/// Appends the items that `CaseOf` holds to `out`.
fn collect_items_of_case_of<'a>(node: &'a Variant, out: Vec<Item<'a>>) -> (r: Vec<Item<'a>>)
    requires
        (node is CaseOf),
    ensures
        Item::views(r@) == Item::views(out@) + node@.items(),
{
    match node {
        Variant::CaseOf { case, expression, of, cases } => {
            let ghost start = Item::views(out@);
            let out = case.collect_items(out);
            let ghost held = seq![(node@->CaseOf_case).item()];
            let out = match expression {
                Some(x) => x.collect_items(out),
                None => out,
            };
            proof {
                lemma_appended(start, held, opt_tree_items((node@->CaseOf_expression)));
            }
            let ghost held = held + opt_tree_items((node@->CaseOf_expression));
            let out = of.collect_items(out);
            proof {
                lemma_appended(start, held, seq![(node@->CaseOf_of).item()]);
            }
            let ghost held = held + seq![(node@->CaseOf_of).item()];
            let out = CaseLine::collect_all_items(cases, out);
            proof {
                lemma_appended(start, held, CaseLineView::all_items((node@->CaseOf_cases)));
            }
            let ghost held = held + CaseLineView::all_items((node@->CaseOf_cases));
            out
        },
        _ => unreached(),
    }
}

/// Appends the nodes inside `CaseOf` to `out`.
fn collect_trees_of_case_of<'a>(node: &'a Variant, out: Vec<&'a Tree>) -> (r: Vec<&'a Tree>)
    requires
        (node is CaseOf),
    ensures
        tree_views(r@) == tree_views(out@) + node@.trees(),
    decreases node, 0int,
{
    match node {
        Variant::CaseOf { case: _, expression, of: _, cases } => {
            let ghost start = tree_views(out@);
            let out = match expression {
                Some(x) => x.collect_trees(out),
                None => out,
            };
            let ghost held = (
                match (node@->CaseOf_expression) { Some(x) => x.trees(), None => Seq::empty(), }
            );
            let out = CaseLine::collect_all_trees(cases, out);
            proof {
                lemma_appended(start, held, CaseLineView::all_trees((node@->CaseOf_cases)));
            }
            let ghost held = held + CaseLineView::all_trees((node@->CaseOf_cases));
            out
        },
        _ => unreached(),
    }
}

/// Appends the items that `Lambda` holds to `out`.
fn collect_items_of_lambda<'a>(node: &'a Variant, out: Vec<Item<'a>>) -> (r: Vec<Item<'a>>)
    requires
        (node is Lambda),
    ensures
        Item::views(r@) == Item::views(out@) + node@.items(),
{
    match node {
        Variant::Lambda { operator, arrow } => {
            let ghost start = Item::views(out@);
            let out = operator.collect_items(out);
            let ghost held = seq![(node@->Lambda_operator).item()];
            let out = match arrow {
                Some(x) => x.collect_items(out),
                None => out,
            };
            proof {
                lemma_appended(start, held, opt_tree_items((node@->Lambda_arrow)));
            }
            let ghost held = held + opt_tree_items((node@->Lambda_arrow));
            out
        },
        _ => unreached(),
    }
}

/// Appends the nodes inside `Lambda` to `out`.
fn collect_trees_of_lambda<'a>(node: &'a Variant, out: Vec<&'a Tree>) -> (r: Vec<&'a Tree>)
    requires
        (node is Lambda),
    ensures
        tree_views(r@) == tree_views(out@) + node@.trees(),
    decreases node, 0int,
{
    match node {
        Variant::Lambda { operator: _, arrow } => {
            let ghost start = tree_views(out@);
            let out = match arrow {
                Some(x) => x.collect_trees(out),
                None => out,
            };
            let ghost held = (
                match (node@->Lambda_arrow) { Some(x) => x.trees(), None => Seq::empty(), }
            );
            out
        },
        _ => unreached(),
    }
}

/// Appends the items that `Array` holds to `out`.
fn collect_items_of_array<'a>(node: &'a Variant, out: Vec<Item<'a>>) -> (r: Vec<Item<'a>>)
    requires
        (node is Array),
    ensures
        Item::views(r@) == Item::views(out@) + node@.items(),
{
    match node {
        Variant::Array { left, first, rest, right } => {
            let ghost start = Item::views(out@);
            let out = left.collect_items(out);
            let ghost held = seq![(node@->Array_left).item()];
            let out = match first {
                Some(x) => x.collect_items(out),
                None => out,
            };
            proof {
                lemma_appended(start, held, opt_tree_items((node@->Array_first)));
            }
            let ghost held = held + opt_tree_items((node@->Array_first));
            let out = OperatorDelimitedTree::collect_all_items(rest, out);
            proof {
                lemma_appended(
                    start,
                    held,
                    OperatorDelimitedTreeView::all_items((node@->Array_rest)),
                );
            }
            let ghost held = held + OperatorDelimitedTreeView::all_items((node@->Array_rest));
            let out = right.collect_items(out);
            proof {
                lemma_appended(start, held, seq![(node@->Array_right).item()]);
            }
            let ghost held = held + seq![(node@->Array_right).item()];
            out
        },
        _ => unreached(),
    }
}

/// Appends the nodes inside `Array` to `out`.
fn collect_trees_of_array<'a>(node: &'a Variant, out: Vec<&'a Tree>) -> (r: Vec<&'a Tree>)
    requires
        (node is Array),
    ensures
        tree_views(r@) == tree_views(out@) + node@.trees(),
    decreases node, 0int,
{
    match node {
        Variant::Array { left: _, first, rest, right: _ } => {
            let ghost start = tree_views(out@);
            let out = match first {
                Some(x) => x.collect_trees(out),
                None => out,
            };
            let ghost held = (
                match (node@->Array_first) { Some(x) => x.trees(), None => Seq::empty(), }
            );
            let out = OperatorDelimitedTree::collect_all_trees(rest, out);
            proof {
                lemma_appended(
                    start,
                    held,
                    OperatorDelimitedTreeView::all_trees((node@->Array_rest)),
                );
            }
            let ghost held = held + OperatorDelimitedTreeView::all_trees((node@->Array_rest));
            out
        },
        _ => unreached(),
    }
}

/// Appends the items that `Tuple` holds to `out`.
fn collect_items_of_tuple<'a>(node: &'a Variant, out: Vec<Item<'a>>) -> (r: Vec<Item<'a>>)
    requires
        (node is Tuple),
    ensures
        Item::views(r@) == Item::views(out@) + node@.items(),
{
    match node {
        Variant::Tuple { left, first, rest, right } => {
            let ghost start = Item::views(out@);
            let out = left.collect_items(out);
            let ghost held = seq![(node@->Tuple_left).item()];
            let out = match first {
                Some(x) => x.collect_items(out),
                None => out,
            };
            proof {
                lemma_appended(start, held, opt_tree_items((node@->Tuple_first)));
            }
            let ghost held = held + opt_tree_items((node@->Tuple_first));
            let out = OperatorDelimitedTree::collect_all_items(rest, out);
            proof {
                lemma_appended(
                    start,
                    held,
                    OperatorDelimitedTreeView::all_items((node@->Tuple_rest)),
                );
            }
            let ghost held = held + OperatorDelimitedTreeView::all_items((node@->Tuple_rest));
            let out = right.collect_items(out);
            proof {
                lemma_appended(start, held, seq![(node@->Tuple_right).item()]);
            }
            let ghost held = held + seq![(node@->Tuple_right).item()];
            out
        },
        _ => unreached(),
    }
}

/// Appends the nodes inside `Tuple` to `out`.
fn collect_trees_of_tuple<'a>(node: &'a Variant, out: Vec<&'a Tree>) -> (r: Vec<&'a Tree>)
    requires
        (node is Tuple),
    ensures
        tree_views(r@) == tree_views(out@) + node@.trees(),
    decreases node, 0int,
{
    match node {
        Variant::Tuple { left: _, first, rest, right: _ } => {
            let ghost start = tree_views(out@);
            let out = match first {
                Some(x) => x.collect_trees(out),
                None => out,
            };
            let ghost held = (
                match (node@->Tuple_first) { Some(x) => x.trees(), None => Seq::empty(), }
            );
            let out = OperatorDelimitedTree::collect_all_trees(rest, out);
            proof {
                lemma_appended(
                    start,
                    held,
                    OperatorDelimitedTreeView::all_trees((node@->Tuple_rest)),
                );
            }
            let ghost held = held + OperatorDelimitedTreeView::all_trees((node@->Tuple_rest));
            out
        },
        _ => unreached(),
    }
}

/// Appends the items that `Annotated` holds to `out`.
fn collect_items_of_annotated<'a>(node: &'a Variant, out: Vec<Item<'a>>) -> (r: Vec<Item<'a>>)
    requires
        (node is Annotated),
    ensures
        Item::views(r@) == Item::views(out@) + node@.items(),
{
    match node {
        Variant::Annotated { token, annotation, argument, newlines, expression } => {
            let ghost start = Item::views(out@);
            let out = token.collect_items(out);
            let ghost held = seq![(node@->Annotated_token).item()];
            let out = annotation.collect_items(out);
            proof {
                lemma_appended(start, held, seq![(node@->Annotated_annotation).item()]);
            }
            let ghost held = held + seq![(node@->Annotated_annotation).item()];
            let out = match argument {
                Some(x) => x.collect_items(out),
                None => out,
            };
            proof {
                lemma_appended(start, held, opt_tree_items((node@->Annotated_argument)));
            }
            let ghost held = held + opt_tree_items((node@->Annotated_argument));
            let out = collect_token_items(newlines, out);
            proof {
                lemma_appended(start, held, tokens_items((node@->Annotated_newlines)));
            }
            let ghost held = held + tokens_items((node@->Annotated_newlines));
            let out = match expression {
                Some(x) => x.collect_items(out),
                None => out,
            };
            proof {
                lemma_appended(start, held, opt_tree_items((node@->Annotated_expression)));
            }
            let ghost held = held + opt_tree_items((node@->Annotated_expression));
            out
        },
        _ => unreached(),
    }
}

/// Appends the nodes inside `Annotated` to `out`.
fn collect_trees_of_annotated<'a>(node: &'a Variant, out: Vec<&'a Tree>) -> (r: Vec<&'a Tree>)
    requires
        (node is Annotated),
    ensures
        tree_views(r@) == tree_views(out@) + node@.trees(),
    decreases node, 0int,
{
    match node {
        Variant::Annotated { token: _, annotation: _, argument, newlines: _, expression } => {
            let ghost start = tree_views(out@);
            let out = match argument {
                Some(x) => x.collect_trees(out),
                None => out,
            };
            let ghost held = (
                match (node@->Annotated_argument) { Some(x) => x.trees(), None => Seq::empty(), }
            );
            let out = match expression {
                Some(x) => x.collect_trees(out),
                None => out,
            };
            proof {
                lemma_appended(
                    start,
                    held,
                    (
                        match (
                            node@->Annotated_expression
                        ) { Some(x) => x.trees(), None => Seq::empty(), }
                    ),
                );
            }
            let ghost held = held + (
                match (node@->Annotated_expression) { Some(x) => x.trees(), None => Seq::empty(), }
            );
            out
        },
        _ => unreached(),
    }
}

/// Appends the items that `AnnotatedBuiltin` holds to `out`.
fn collect_items_of_annotated_builtin<'a>(
    node: &'a Variant,
    out: Vec<Item<'a>>,
) -> (r: Vec<Item<'a>>)
    requires
        (node is AnnotatedBuiltin),
    ensures
        Item::views(r@) == Item::views(out@) + node@.items(),
{
    match node {
        Variant::AnnotatedBuiltin { token, annotation, newlines, expression } => {
            let ghost start = Item::views(out@);
            let out = token.collect_items(out);
            let ghost held = seq![(node@->AnnotatedBuiltin_token).item()];
            let out = annotation.collect_items(out);
            proof {
                lemma_appended(start, held, seq![(node@->AnnotatedBuiltin_annotation).item()]);
            }
            let ghost held = held + seq![(node@->AnnotatedBuiltin_annotation).item()];
            let out = collect_token_items(newlines, out);
            proof {
                lemma_appended(start, held, tokens_items((node@->AnnotatedBuiltin_newlines)));
            }
            let ghost held = held + tokens_items((node@->AnnotatedBuiltin_newlines));
            let out = match expression {
                Some(x) => x.collect_items(out),
                None => out,
            };
            proof {
                lemma_appended(start, held, opt_tree_items((node@->AnnotatedBuiltin_expression)));
            }
            let ghost held = held + opt_tree_items((node@->AnnotatedBuiltin_expression));
            out
        },
        _ => unreached(),
    }
}

/// Appends the nodes inside `AnnotatedBuiltin` to `out`.
fn collect_trees_of_annotated_builtin<'a>(
    node: &'a Variant,
    out: Vec<&'a Tree>,
) -> (r: Vec<&'a Tree>)
    requires
        (node is AnnotatedBuiltin),
    ensures
        tree_views(r@) == tree_views(out@) + node@.trees(),
    decreases node, 0int,
{
    match node {
        Variant::AnnotatedBuiltin { token: _, annotation: _, newlines: _, expression } => {
            let ghost start = tree_views(out@);
            let out = match expression {
                Some(x) => x.collect_trees(out),
                None => out,
            };
            let ghost held = (
                match (
                    node@->AnnotatedBuiltin_expression
                ) { Some(x) => x.trees(), None => Seq::empty(), }
            );
            out
        },
        _ => unreached(),
    }
}

/// Appends the items that `Documented` holds to `out`.
fn collect_items_of_documented<'a>(node: &'a Variant, out: Vec<Item<'a>>) -> (r: Vec<Item<'a>>)
    requires
        (node is Documented),
    ensures
        Item::views(r@) == Item::views(out@) + node@.items(),
{
    match node {
        Variant::Documented { documentation, expression } => {
            let ghost start = Item::views(out@);
            let out = documentation.collect_items(out);
            let ghost held = (node@->Documented_documentation).items();
            let out = match expression {
                Some(x) => x.collect_items(out),
                None => out,
            };
            proof {
                lemma_appended(start, held, opt_tree_items((node@->Documented_expression)));
            }
            let ghost held = held + opt_tree_items((node@->Documented_expression));
            out
        },
        _ => unreached(),
    }
}

/// Appends the nodes inside `Documented` to `out`.
fn collect_trees_of_documented<'a>(node: &'a Variant, out: Vec<&'a Tree>) -> (r: Vec<&'a Tree>)
    requires
        (node is Documented),
    ensures
        tree_views(r@) == tree_views(out@) + node@.trees(),
    decreases node, 0int,
{
    match node {
        Variant::Documented { documentation, expression } => {
            let ghost start = tree_views(out@);
            let out = documentation.collect_trees(out);
            let ghost held = (node@->Documented_documentation).trees();
            let out = match expression {
                Some(x) => x.collect_trees(out),
                None => out,
            };
            proof {
                lemma_appended(
                    start,
                    held,
                    (
                        match (
                            node@->Documented_expression
                        ) { Some(x) => x.trees(), None => Seq::empty(), }
                    ),
                );
            }
            let ghost held = held + (
                match (node@->Documented_expression) { Some(x) => x.trees(), None => Seq::empty(), }
            );
            out
        },
        _ => unreached(),
    }
}

/// Appends the items that `ConstructorDefinition` holds to `out`.
fn collect_items_of_constructor_definition<'a>(
    node: &'a Variant,
    out: Vec<Item<'a>>,
) -> (r: Vec<Item<'a>>)
    requires
        (node is ConstructorDefinition),
    ensures
        Item::views(r@) == Item::views(out@) + node@.items(),
{
    match node {
        Variant::ConstructorDefinition { constructor, arguments, block } => {
            let ghost start = Item::views(out@);
            let out = constructor.collect_items(out);
            let ghost held = seq![(node@->ConstructorDefinition_constructor).item()];
            let out = ArgumentDefinition::collect_all_items(arguments, out);
            proof {
                lemma_appended(
                    start,
                    held,
                    ArgumentDefinitionView::all_items((node@->ConstructorDefinition_arguments)),
                );
            }
            let ghost held = held + ArgumentDefinitionView::all_items(
                (node@->ConstructorDefinition_arguments)
            );
            let out = ArgumentDefinitionLine::collect_all_items(block, out);
            proof {
                lemma_appended(
                    start,
                    held,
                    ArgumentDefinitionLineView::all_items((node@->ConstructorDefinition_block)),
                );
            }
            let ghost held = held + ArgumentDefinitionLineView::all_items(
                (node@->ConstructorDefinition_block)
            );
            out
        },
        _ => unreached(),
    }
}

/// Appends the nodes inside `ConstructorDefinition` to `out`.
fn collect_trees_of_constructor_definition<'a>(
    node: &'a Variant,
    out: Vec<&'a Tree>,
) -> (r: Vec<&'a Tree>)
    requires
        (node is ConstructorDefinition),
    ensures
        tree_views(r@) == tree_views(out@) + node@.trees(),
    decreases node, 0int,
{
    match node {
        Variant::ConstructorDefinition { constructor: _, arguments, block } => {
            let ghost start = tree_views(out@);
            let out = ArgumentDefinition::collect_all_trees(arguments, out);
            let ghost held = ArgumentDefinitionView::all_trees(
                (node@->ConstructorDefinition_arguments)
            );
            let out = ArgumentDefinitionLine::collect_all_trees(block, out);
            proof {
                lemma_appended(
                    start,
                    held,
                    ArgumentDefinitionLineView::all_trees((node@->ConstructorDefinition_block)),
                );
            }
            let ghost held = held + ArgumentDefinitionLineView::all_trees(
                (node@->ConstructorDefinition_block)
            );
            out
        },
        _ => unreached(),
    }
}

impl Variant {
    /// Appends the items that the value holds to `out`.
    pub fn collect_items<'a>(&'a self, out: Vec<Item<'a>>) -> (r: Vec<Item<'a>>)
        ensures
            Item::views(r@) == Item::views(out@) + self@.items(),
    {
        match self {
            Variant::Invalid { .. } => collect_items_of_invalid(self, out),
            Variant::BodyBlock { .. } => collect_items_of_body_block(self, out),
            Variant::ArgumentBlockApplication { .. } => collect_items_of_argument_block_application(
                self,
                out,
            ),
            Variant::OperatorBlockApplication { .. } => collect_items_of_operator_block_application(
                self,
                out,
            ),
            Variant::Ident { .. } => collect_items_of_ident(self, out),
            Variant::Private { .. } => collect_items_of_private(self, out),
            Variant::Number { .. } => collect_items_of_number(self, out),
            Variant::Wildcard { .. } => collect_items_of_wildcard(self, out),
            Variant::SuspendedDefaultArguments { .. } => collect_items_of_suspended_default_arguments(
                self,
                out,
            ),
            Variant::TextLiteral { .. } => collect_items_of_text_literal(self, out),
            Variant::App { .. } => collect_items_of_app(self, out),
            Variant::NamedApp { .. } => collect_items_of_named_app(self, out),
            Variant::OprApp { .. } => collect_items_of_opr_app(self, out),
            Variant::UnaryOprApp { .. } => collect_items_of_unary_opr_app(self, out),
            Variant::AutoscopedIdentifier { .. } => collect_items_of_autoscoped_identifier(
                self,
                out,
            ),
            Variant::OprSectionBoundary { .. } => collect_items_of_opr_section_boundary(self, out),
            Variant::TemplateFunction { .. } => collect_items_of_template_function(self, out),
            Variant::MultiSegmentApp { .. } => collect_items_of_multi_segment_app(self, out),
            Variant::TypeDef { .. } => collect_items_of_type_def(self, out),
            Variant::Assignment { .. } => collect_items_of_assignment(self, out),
            Variant::Function { .. } => collect_items_of_function(self, out),
            Variant::ForeignFunction { .. } => collect_items_of_foreign_function(self, out),
            Variant::Import { .. } => collect_items_of_import(self, out),
            Variant::Export { .. } => collect_items_of_export(self, out),
            Variant::Group { .. } => collect_items_of_group(self, out),
            Variant::TypeSignature { .. } => collect_items_of_type_signature(self, out),
            Variant::TypeAnnotated { .. } => collect_items_of_type_annotated(self, out),
            Variant::CaseOf { .. } => collect_items_of_case_of(self, out),
            Variant::Lambda { .. } => collect_items_of_lambda(self, out),
            Variant::Array { .. } => collect_items_of_array(self, out),
            Variant::Tuple { .. } => collect_items_of_tuple(self, out),
            Variant::Annotated { .. } => collect_items_of_annotated(self, out),
            Variant::AnnotatedBuiltin { .. } => collect_items_of_annotated_builtin(self, out),
            Variant::Documented { .. } => collect_items_of_documented(self, out),
            Variant::ConstructorDefinition { .. } => collect_items_of_constructor_definition(
                self,
                out,
            ),
        }
    }

    /// Appends the nodes inside the value to `out`.
    pub fn collect_trees<'a>(&'a self, out: Vec<&'a Tree>) -> (r: Vec<&'a Tree>)
        ensures
            tree_views(r@) == tree_views(out@) + self@.trees(),
        decreases self, 1int,
    {
        match self {
            Variant::Invalid { .. } => collect_trees_of_invalid(self, out),
            Variant::BodyBlock { .. } => collect_trees_of_body_block(self, out),
            Variant::ArgumentBlockApplication { .. } => collect_trees_of_argument_block_application(
                self,
                out,
            ),
            Variant::OperatorBlockApplication { .. } => collect_trees_of_operator_block_application(
                self,
                out,
            ),
            Variant::Ident { .. } => collect_trees_of_ident(self, out),
            Variant::Private { .. } => collect_trees_of_private(self, out),
            Variant::Number { .. } => collect_trees_of_number(self, out),
            Variant::Wildcard { .. } => collect_trees_of_wildcard(self, out),
            Variant::SuspendedDefaultArguments { .. } => collect_trees_of_suspended_default_arguments(
                self,
                out,
            ),
            Variant::TextLiteral { .. } => collect_trees_of_text_literal(self, out),
            Variant::App { .. } => collect_trees_of_app(self, out),
            Variant::NamedApp { .. } => collect_trees_of_named_app(self, out),
            Variant::OprApp { .. } => collect_trees_of_opr_app(self, out),
            Variant::UnaryOprApp { .. } => collect_trees_of_unary_opr_app(self, out),
            Variant::AutoscopedIdentifier { .. } => collect_trees_of_autoscoped_identifier(
                self,
                out,
            ),
            Variant::OprSectionBoundary { .. } => collect_trees_of_opr_section_boundary(self, out),
            Variant::TemplateFunction { .. } => collect_trees_of_template_function(self, out),
            Variant::MultiSegmentApp { .. } => collect_trees_of_multi_segment_app(self, out),
            Variant::TypeDef { .. } => collect_trees_of_type_def(self, out),
            Variant::Assignment { .. } => collect_trees_of_assignment(self, out),
            Variant::Function { .. } => collect_trees_of_function(self, out),
            Variant::ForeignFunction { .. } => collect_trees_of_foreign_function(self, out),
            Variant::Import { .. } => collect_trees_of_import(self, out),
            Variant::Export { .. } => collect_trees_of_export(self, out),
            Variant::Group { .. } => collect_trees_of_group(self, out),
            Variant::TypeSignature { .. } => collect_trees_of_type_signature(self, out),
            Variant::TypeAnnotated { .. } => collect_trees_of_type_annotated(self, out),
            Variant::CaseOf { .. } => collect_trees_of_case_of(self, out),
            Variant::Lambda { .. } => collect_trees_of_lambda(self, out),
            Variant::Array { .. } => collect_trees_of_array(self, out),
            Variant::Tuple { .. } => collect_trees_of_tuple(self, out),
            Variant::Annotated { .. } => collect_trees_of_annotated(self, out),
            Variant::AnnotatedBuiltin { .. } => collect_trees_of_annotated_builtin(self, out),
            Variant::Documented { .. } => collect_trees_of_documented(self, out),
            Variant::ConstructorDefinition { .. } => collect_trees_of_constructor_definition(
                self,
                out,
            ),
        }
    }
}

impl Line {
    /// Appends the items that the value holds to `out`.
    pub fn collect_items<'a>(&'a self, out: Vec<Item<'a>>) -> (r: Vec<Item<'a>>)
        ensures
            Item::views(r@) == Item::views(out@) + self@.items(),
    {
        let ghost start = Item::views(out@);
        let out = self.newline.collect_items(out);
        let ghost held = seq![self@.newline.item()];
        let out = match &self.expression {
            Some(x) => x.collect_items(out),
            None => out,
        };
        proof {
            lemma_appended(start, held, opt_tree_items(self@.expression));
        }
        let ghost held = held + opt_tree_items(self@.expression);
        out
    }

    /// Appends the nodes inside the value to `out`.
    pub fn collect_trees<'a>(&'a self, out: Vec<&'a Tree>) -> (r: Vec<&'a Tree>)
        ensures
            tree_views(r@) == tree_views(out@) + self@.trees(),
        decreases self,
    {
        let ghost start = tree_views(out@);
        let out = match &self.expression {
            Some(x) => x.collect_trees(out),
            None => out,
        };
        let ghost held = (match self@.expression { Some(x) => x.trees(), None => Seq::empty(), });
        out
    }

    /// Appends the items that the values hold to `out`, in order.
    pub fn collect_all_items<'a>(values: &'a Vec<Line>, out: Vec<Item<'a>>) -> (r: Vec<Item<'a>>)
        ensures
            Item::views(r@) == Item::views(out@) + LineView::all_items(Line::views(values@)),
    {
        let ghost start = Item::views(out@);
        let ghost parts = LineView::item_parts(Line::views(values@));
        let mut out = out;
        let mut i: usize = 0;
        assert(parts.subrange(0, 0) =~= Seq::<Seq<ItemView>>::empty());
        assert(Item::views(out@) =~= start + concat(parts.subrange(0, 0)));
        while i < values.len()
            invariant
                i <= values@.len(),
                parts == LineView::item_parts(Line::views(values@)),
                Item::views(out@) == start + concat(parts.subrange(0, i as int)),
            decreases values@.len() - i,
        {
            out = values[i].collect_items(out);
            proof {
                assert(parts.subrange(0, i + 1).drop_last() =~= parts.subrange(0, i as int));
                assert(parts[i as int] == values@[i as int]@.items());
                assert(Item::views(out@) =~= start + concat(parts.subrange(0, i + 1)));
            }
            i = i + 1;
        }
        assert(parts.subrange(0, i as int) =~= parts);
        out
    }

    /// Appends the nodes inside the values to `out`, in order.
    pub fn collect_all_trees<'a>(values: &'a Vec<Line>, out: Vec<&'a Tree>) -> (r: Vec<&'a Tree>)
        ensures
            tree_views(r@) == tree_views(out@) + LineView::all_trees(Line::views(values@)),
        decreases values,
    {
        let ghost start = tree_views(out@);
        let ghost parts = LineView::tree_parts(Line::views(values@));
        let mut out = out;
        let mut i: usize = 0;
        assert(parts.subrange(0, 0) =~= Seq::<Seq<TreeView>>::empty());
        assert(tree_views(out@) =~= start + concat(parts.subrange(0, 0)));
        while i < values.len()
            invariant
                i <= values@.len(),
                parts == LineView::tree_parts(Line::views(values@)),
                tree_views(out@) == start + concat(parts.subrange(0, i as int)),
            decreases values@.len() - i,
        {
            out = values[i].collect_trees(out);
            proof {
                assert(parts.subrange(0, i + 1).drop_last() =~= parts.subrange(0, i as int));
                assert(parts[i as int] == values@[i as int]@.trees());
                assert(tree_views(out@) =~= start + concat(parts.subrange(0, i + 1)));
            }
            i = i + 1;
        }
        assert(parts.subrange(0, i as int) =~= parts);
        out
    }
}

impl OperatorBlockExpression {
    /// Appends the items that the value holds to `out`.
    pub fn collect_items<'a>(&'a self, out: Vec<Item<'a>>) -> (r: Vec<Item<'a>>)
        ensures
            Item::views(r@) == Item::views(out@) + self@.items(),
    {
        let ghost start = Item::views(out@);
        let out = match &self.operator {
            Ok(x) => x.collect_items(out),
            Err(x) => x.collect_items(out),
        };
        let ghost held = operator_or_error_items(self@.operator);
        let out = self.expression.collect_items(out);
        proof {
            lemma_appended(start, held, seq![ItemView::Tree(self@.expression)]);
        }
        let ghost held = held + seq![ItemView::Tree(self@.expression)];
        out
    }

    /// Appends the nodes inside the value to `out`.
    pub fn collect_trees<'a>(&'a self, out: Vec<&'a Tree>) -> (r: Vec<&'a Tree>)
        ensures
            tree_views(r@) == tree_views(out@) + self@.trees(),
        decreases self,
    {
        let ghost start = tree_views(out@);
        let out = self.expression.collect_trees(out);
        let ghost held = self@.expression.trees();
        out
    }
}

impl OperatorLine {
    /// Appends the items that the value holds to `out`.
    pub fn collect_items<'a>(&'a self, out: Vec<Item<'a>>) -> (r: Vec<Item<'a>>)
        ensures
            Item::views(r@) == Item::views(out@) + self@.items(),
    {
        let ghost start = Item::views(out@);
        let out = self.newline.collect_items(out);
        let ghost held = seq![self@.newline.item()];
        let out = match &self.expression {
            Some(x) => x.collect_items(out),
            None => out,
        };
        proof {
            lemma_appended(
                start,
                held,
                (match self@.expression { Some(x) => x.items(), None => Seq::empty(), }),
            );
        }
        let ghost held = held + (
            match self@.expression { Some(x) => x.items(), None => Seq::empty(), }
        );
        out
    }

    /// Appends the nodes inside the value to `out`.
    pub fn collect_trees<'a>(&'a self, out: Vec<&'a Tree>) -> (r: Vec<&'a Tree>)
        ensures
            tree_views(r@) == tree_views(out@) + self@.trees(),
        decreases self,
    {
        let ghost start = tree_views(out@);
        let out = match &self.expression {
            Some(x) => x.collect_trees(out),
            None => out,
        };
        let ghost held = (match self@.expression { Some(x) => x.trees(), None => Seq::empty(), });
        out
    }

    /// Appends the items that the values hold to `out`, in order.
    pub fn collect_all_items<'a>(
        values: &'a Vec<OperatorLine>,
        out: Vec<Item<'a>>,
    ) -> (r: Vec<Item<'a>>)
        ensures
            Item::views(
                r@
            ) == Item::views(out@) + OperatorLineView::all_items(OperatorLine::views(values@)),
    {
        let ghost start = Item::views(out@);
        let ghost parts = OperatorLineView::item_parts(OperatorLine::views(values@));
        let mut out = out;
        let mut i: usize = 0;
        assert(parts.subrange(0, 0) =~= Seq::<Seq<ItemView>>::empty());
        assert(Item::views(out@) =~= start + concat(parts.subrange(0, 0)));
        while i < values.len()
            invariant
                i <= values@.len(),
                parts == OperatorLineView::item_parts(OperatorLine::views(values@)),
                Item::views(out@) == start + concat(parts.subrange(0, i as int)),
            decreases values@.len() - i,
        {
            out = values[i].collect_items(out);
            proof {
                assert(parts.subrange(0, i + 1).drop_last() =~= parts.subrange(0, i as int));
                assert(parts[i as int] == values@[i as int]@.items());
                assert(Item::views(out@) =~= start + concat(parts.subrange(0, i + 1)));
            }
            i = i + 1;
        }
        assert(parts.subrange(0, i as int) =~= parts);
        out
    }

    /// Appends the nodes inside the values to `out`, in order.
    pub fn collect_all_trees<'a>(
        values: &'a Vec<OperatorLine>,
        out: Vec<&'a Tree>,
    ) -> (r: Vec<&'a Tree>)
        ensures
            tree_views(
                r@
            ) == tree_views(out@) + OperatorLineView::all_trees(OperatorLine::views(values@)),
        decreases values,
    {
        let ghost start = tree_views(out@);
        let ghost parts = OperatorLineView::tree_parts(OperatorLine::views(values@));
        let mut out = out;
        let mut i: usize = 0;
        assert(parts.subrange(0, 0) =~= Seq::<Seq<TreeView>>::empty());
        assert(tree_views(out@) =~= start + concat(parts.subrange(0, 0)));
        while i < values.len()
            invariant
                i <= values@.len(),
                parts == OperatorLineView::tree_parts(OperatorLine::views(values@)),
                tree_views(out@) == start + concat(parts.subrange(0, i as int)),
            decreases values@.len() - i,
        {
            out = values[i].collect_trees(out);
            proof {
                assert(parts.subrange(0, i + 1).drop_last() =~= parts.subrange(0, i as int));
                assert(parts[i as int] == values@[i as int]@.trees());
                assert(tree_views(out@) =~= start + concat(parts.subrange(0, i + 1)));
            }
            i = i + 1;
        }
        assert(parts.subrange(0, i as int) =~= parts);
        out
    }
}

impl ArgumentDefinitionLine {
    /// Appends the items that the value holds to `out`.
    pub fn collect_items<'a>(&'a self, out: Vec<Item<'a>>) -> (r: Vec<Item<'a>>)
        ensures
            Item::views(r@) == Item::views(out@) + self@.items(),
    {
        let ghost start = Item::views(out@);
        let out = self.newline.collect_items(out);
        let ghost held = seq![self@.newline.item()];
        let out = match &self.argument {
            Some(x) => x.collect_items(out),
            None => out,
        };
        proof {
            lemma_appended(
                start,
                held,
                (match self@.argument { Some(x) => x.items(), None => Seq::empty(), }),
            );
        }
        let ghost held = held + (
            match self@.argument { Some(x) => x.items(), None => Seq::empty(), }
        );
        out
    }

    /// Appends the nodes inside the value to `out`.
    pub fn collect_trees<'a>(&'a self, out: Vec<&'a Tree>) -> (r: Vec<&'a Tree>)
        ensures
            tree_views(r@) == tree_views(out@) + self@.trees(),
        decreases self,
    {
        let ghost start = tree_views(out@);
        let out = match &self.argument {
            Some(x) => x.collect_trees(out),
            None => out,
        };
        let ghost held = (match self@.argument { Some(x) => x.trees(), None => Seq::empty(), });
        out
    }

    /// Appends the items that the values hold to `out`, in order.
    pub fn collect_all_items<'a>(
        values: &'a Vec<ArgumentDefinitionLine>,
        out: Vec<Item<'a>>,
    ) -> (r: Vec<Item<'a>>)
        ensures
            Item::views(
                r@
            ) == Item::views(
                out@
            ) + ArgumentDefinitionLineView::all_items(ArgumentDefinitionLine::views(values@)),
    {
        let ghost start = Item::views(out@);
        let ghost parts = ArgumentDefinitionLineView::item_parts(
            ArgumentDefinitionLine::views(values@)
        );
        let mut out = out;
        let mut i: usize = 0;
        assert(parts.subrange(0, 0) =~= Seq::<Seq<ItemView>>::empty());
        assert(Item::views(out@) =~= start + concat(parts.subrange(0, 0)));
        while i < values.len()
            invariant
                i <= values@.len(),
                parts == ArgumentDefinitionLineView::item_parts(
                    ArgumentDefinitionLine::views(values@)
                ),
                Item::views(out@) == start + concat(parts.subrange(0, i as int)),
            decreases values@.len() - i,
        {
            out = values[i].collect_items(out);
            proof {
                assert(parts.subrange(0, i + 1).drop_last() =~= parts.subrange(0, i as int));
                assert(parts[i as int] == values@[i as int]@.items());
                assert(Item::views(out@) =~= start + concat(parts.subrange(0, i + 1)));
            }
            i = i + 1;
        }
        assert(parts.subrange(0, i as int) =~= parts);
        out
    }

    /// Appends the nodes inside the values to `out`, in order.
    pub fn collect_all_trees<'a>(
        values: &'a Vec<ArgumentDefinitionLine>,
        out: Vec<&'a Tree>,
    ) -> (r: Vec<&'a Tree>)
        ensures
            tree_views(
                r@
            ) == tree_views(
                out@
            ) + ArgumentDefinitionLineView::all_trees(ArgumentDefinitionLine::views(values@)),
        decreases values,
    {
        let ghost start = tree_views(out@);
        let ghost parts = ArgumentDefinitionLineView::tree_parts(
            ArgumentDefinitionLine::views(values@)
        );
        let mut out = out;
        let mut i: usize = 0;
        assert(parts.subrange(0, 0) =~= Seq::<Seq<TreeView>>::empty());
        assert(tree_views(out@) =~= start + concat(parts.subrange(0, 0)));
        while i < values.len()
            invariant
                i <= values@.len(),
                parts == ArgumentDefinitionLineView::tree_parts(
                    ArgumentDefinitionLine::views(values@)
                ),
                tree_views(out@) == start + concat(parts.subrange(0, i as int)),
            decreases values@.len() - i,
        {
            out = values[i].collect_trees(out);
            proof {
                assert(parts.subrange(0, i + 1).drop_last() =~= parts.subrange(0, i as int));
                assert(parts[i as int] == values@[i as int]@.trees());
                assert(tree_views(out@) =~= start + concat(parts.subrange(0, i + 1)));
            }
            i = i + 1;
        }
        assert(parts.subrange(0, i as int) =~= parts);
        out
    }
}

impl TextElement {
    /// Appends the items that the value holds to `out`.
    pub fn collect_items<'a>(&'a self, out: Vec<Item<'a>>) -> (r: Vec<Item<'a>>)
        ensures
            Item::views(r@) == Item::views(out@) + self@.items(),
    {
        match self {
            TextElement::Section { text } => {
                let ghost start = Item::views(out@);
                let out = text.collect_items(out);
                let ghost held = seq![(self@->Section_text).item()];
                out
            },
            TextElement::Escape { token } => {
                let ghost start = Item::views(out@);
                let out = token.collect_items(out);
                let ghost held = seq![(self@->Escape_token).item()];
                out
            },
            TextElement::Newline { newline } => {
                let ghost start = Item::views(out@);
                let out = newline.collect_items(out);
                let ghost held = seq![(self@->Newline_newline).item()];
                out
            },
            TextElement::Splice { open, expression, close } => {
                let ghost start = Item::views(out@);
                let out = open.collect_items(out);
                let ghost held = seq![(self@->Splice_open).item()];
                let out = match expression {
                    Some(x) => x.collect_items(out),
                    None => out,
                };
                proof {
                    lemma_appended(start, held, opt_tree_items((self@->Splice_expression)));
                }
                let ghost held = held + opt_tree_items((self@->Splice_expression));
                let out = close.collect_items(out);
                proof {
                    lemma_appended(start, held, seq![(self@->Splice_close).item()]);
                }
                let ghost held = held + seq![(self@->Splice_close).item()];
                out
            },
        }
    }

    /// Appends the nodes inside the value to `out`.
    pub fn collect_trees<'a>(&'a self, out: Vec<&'a Tree>) -> (r: Vec<&'a Tree>)
        ensures
            tree_views(r@) == tree_views(out@) + self@.trees(),
        decreases self,
    {
        match self {
            TextElement::Section { text: _ } => {
                let ghost start = tree_views(out@);
                assert(start + Seq::empty() =~= start);
                out
            },
            TextElement::Escape { token: _ } => {
                let ghost start = tree_views(out@);
                assert(start + Seq::empty() =~= start);
                out
            },
            TextElement::Newline { newline: _ } => {
                let ghost start = tree_views(out@);
                assert(start + Seq::empty() =~= start);
                out
            },
            TextElement::Splice { open: _, expression, close: _ } => {
                let ghost start = tree_views(out@);
                let out = match expression {
                    Some(x) => x.collect_trees(out),
                    None => out,
                };
                let ghost held = (
                    match (self@->Splice_expression) { Some(x) => x.trees(), None => Seq::empty(), }
                );
                out
            },
        }
    }

    /// Appends the items that the values hold to `out`, in order.
    pub fn collect_all_items<'a>(
        values: &'a Vec<TextElement>,
        out: Vec<Item<'a>>,
    ) -> (r: Vec<Item<'a>>)
        ensures
            Item::views(
                r@
            ) == Item::views(out@) + TextElementView::all_items(TextElement::views(values@)),
    {
        let ghost start = Item::views(out@);
        let ghost parts = TextElementView::item_parts(TextElement::views(values@));
        let mut out = out;
        let mut i: usize = 0;
        assert(parts.subrange(0, 0) =~= Seq::<Seq<ItemView>>::empty());
        assert(Item::views(out@) =~= start + concat(parts.subrange(0, 0)));
        while i < values.len()
            invariant
                i <= values@.len(),
                parts == TextElementView::item_parts(TextElement::views(values@)),
                Item::views(out@) == start + concat(parts.subrange(0, i as int)),
            decreases values@.len() - i,
        {
            out = values[i].collect_items(out);
            proof {
                assert(parts.subrange(0, i + 1).drop_last() =~= parts.subrange(0, i as int));
                assert(parts[i as int] == values@[i as int]@.items());
                assert(Item::views(out@) =~= start + concat(parts.subrange(0, i + 1)));
            }
            i = i + 1;
        }
        assert(parts.subrange(0, i as int) =~= parts);
        out
    }

    /// Appends the nodes inside the values to `out`, in order.
    pub fn collect_all_trees<'a>(
        values: &'a Vec<TextElement>,
        out: Vec<&'a Tree>,
    ) -> (r: Vec<&'a Tree>)
        ensures
            tree_views(
                r@
            ) == tree_views(out@) + TextElementView::all_trees(TextElement::views(values@)),
        decreases values,
    {
        let ghost start = tree_views(out@);
        let ghost parts = TextElementView::tree_parts(TextElement::views(values@));
        let mut out = out;
        let mut i: usize = 0;
        assert(parts.subrange(0, 0) =~= Seq::<Seq<TreeView>>::empty());
        assert(tree_views(out@) =~= start + concat(parts.subrange(0, 0)));
        while i < values.len()
            invariant
                i <= values@.len(),
                parts == TextElementView::tree_parts(TextElement::views(values@)),
                tree_views(out@) == start + concat(parts.subrange(0, i as int)),
            decreases values@.len() - i,
        {
            out = values[i].collect_trees(out);
            proof {
                assert(parts.subrange(0, i + 1).drop_last() =~= parts.subrange(0, i as int));
                assert(parts[i as int] == values@[i as int]@.trees());
                assert(tree_views(out@) =~= start + concat(parts.subrange(0, i + 1)));
            }
            i = i + 1;
        }
        assert(parts.subrange(0, i as int) =~= parts);
        out
    }
}

impl DocComment {
    /// Appends the items that the value holds to `out`.
    pub fn collect_items<'a>(&'a self, out: Vec<Item<'a>>) -> (r: Vec<Item<'a>>)
        ensures
            Item::views(r@) == Item::views(out@) + self@.items(),
    {
        let ghost start = Item::views(out@);
        let out = self.open.collect_items(out);
        let ghost held = seq![self@.open.item()];
        let out = TextElement::collect_all_items(&self.elements, out);
        proof {
            lemma_appended(start, held, TextElementView::all_items(self@.elements));
        }
        let ghost held = held + TextElementView::all_items(self@.elements);
        let out = collect_token_items(&self.newlines, out);
        proof {
            lemma_appended(start, held, tokens_items(self@.newlines));
        }
        let ghost held = held + tokens_items(self@.newlines);
        out
    }

    /// Appends the nodes inside the value to `out`.
    pub fn collect_trees<'a>(&'a self, out: Vec<&'a Tree>) -> (r: Vec<&'a Tree>)
        ensures
            tree_views(r@) == tree_views(out@) + self@.trees(),
        decreases self,
    {
        let ghost start = tree_views(out@);
        let out = TextElement::collect_all_trees(&self.elements, out);
        let ghost held = TextElementView::all_trees(self@.elements);
        out
    }
}

impl FractionalDigits {
    /// Appends the items that the value holds to `out`.
    pub fn collect_items<'a>(&'a self, out: Vec<Item<'a>>) -> (r: Vec<Item<'a>>)
        ensures
            Item::views(r@) == Item::views(out@) + self@.items(),
    {
        let ghost start = Item::views(out@);
        let out = self.dot.collect_items(out);
        let ghost held = seq![self@.dot.item()];
        let out = self.digits.collect_items(out);
        proof {
            lemma_appended(start, held, seq![self@.digits.item()]);
        }
        let ghost held = held + seq![self@.digits.item()];
        out
    }
}

impl ArgumentDefinition {
    /// Appends the items that the value holds to `out`.
    pub fn collect_items<'a>(&'a self, out: Vec<Item<'a>>) -> (r: Vec<Item<'a>>)
        ensures
            Item::views(r@) == Item::views(out@) + self@.items(),
    {
        let ghost start = Item::views(out@);
        let out = match &self.open {
            Some(x) => x.collect_items(out),
            None => out,
        };
        let ghost held = opt_token_items(self@.open);
        let out = match &self.open2 {
            Some(x) => x.collect_items(out),
            None => out,
        };
        proof {
            lemma_appended(start, held, opt_token_items(self@.open2));
        }
        let ghost held = held + opt_token_items(self@.open2);
        let out = match &self.suspension {
            Some(x) => x.collect_items(out),
            None => out,
        };
        proof {
            lemma_appended(start, held, opt_token_items(self@.suspension));
        }
        let ghost held = held + opt_token_items(self@.suspension);
        let out = self.pattern.collect_items(out);
        proof {
            lemma_appended(start, held, seq![ItemView::Tree(self@.pattern)]);
        }
        let ghost held = held + seq![ItemView::Tree(self@.pattern)];
        let out = match &self.type_ {
            Some(x) => x.collect_items(out),
            None => out,
        };
        proof {
            lemma_appended(
                start,
                held,
                (match self@.type_ { Some(x) => x.items(), None => Seq::empty(), }),
            );
        }
        let ghost held = held + (match self@.type_ { Some(x) => x.items(), None => Seq::empty(), });
        let out = match &self.close2 {
            Some(x) => x.collect_items(out),
            None => out,
        };
        proof {
            lemma_appended(start, held, opt_token_items(self@.close2));
        }
        let ghost held = held + opt_token_items(self@.close2);
        let out = match &self.default {
            Some(x) => x.collect_items(out),
            None => out,
        };
        proof {
            lemma_appended(
                start,
                held,
                (match self@.default { Some(x) => x.items(), None => Seq::empty(), }),
            );
        }
        let ghost held = held + (
            match self@.default { Some(x) => x.items(), None => Seq::empty(), }
        );
        let out = match &self.close {
            Some(x) => x.collect_items(out),
            None => out,
        };
        proof {
            lemma_appended(start, held, opt_token_items(self@.close));
        }
        let ghost held = held + opt_token_items(self@.close);
        out
    }

    /// Appends the nodes inside the value to `out`.
    pub fn collect_trees<'a>(&'a self, out: Vec<&'a Tree>) -> (r: Vec<&'a Tree>)
        ensures
            tree_views(r@) == tree_views(out@) + self@.trees(),
        decreases self,
    {
        let ghost start = tree_views(out@);
        let out = self.pattern.collect_trees(out);
        let ghost held = self@.pattern.trees();
        let out = match &self.type_ {
            Some(x) => x.collect_trees(out),
            None => out,
        };
        proof {
            lemma_appended(
                start,
                held,
                (match self@.type_ { Some(x) => x.trees(), None => Seq::empty(), }),
            );
        }
        let ghost held = held + (match self@.type_ { Some(x) => x.trees(), None => Seq::empty(), });
        let out = match &self.default {
            Some(x) => x.collect_trees(out),
            None => out,
        };
        proof {
            lemma_appended(
                start,
                held,
                (match self@.default { Some(x) => x.trees(), None => Seq::empty(), }),
            );
        }
        let ghost held = held + (
            match self@.default { Some(x) => x.trees(), None => Seq::empty(), }
        );
        out
    }

    /// Appends the items that the values hold to `out`, in order.
    pub fn collect_all_items<'a>(
        values: &'a Vec<ArgumentDefinition>,
        out: Vec<Item<'a>>,
    ) -> (r: Vec<Item<'a>>)
        ensures
            Item::views(
                r@
            ) == Item::views(
                out@
            ) + ArgumentDefinitionView::all_items(ArgumentDefinition::views(values@)),
    {
        let ghost start = Item::views(out@);
        let ghost parts = ArgumentDefinitionView::item_parts(ArgumentDefinition::views(values@));
        let mut out = out;
        let mut i: usize = 0;
        assert(parts.subrange(0, 0) =~= Seq::<Seq<ItemView>>::empty());
        assert(Item::views(out@) =~= start + concat(parts.subrange(0, 0)));
        while i < values.len()
            invariant
                i <= values@.len(),
                parts == ArgumentDefinitionView::item_parts(ArgumentDefinition::views(values@)),
                Item::views(out@) == start + concat(parts.subrange(0, i as int)),
            decreases values@.len() - i,
        {
            out = values[i].collect_items(out);
            proof {
                assert(parts.subrange(0, i + 1).drop_last() =~= parts.subrange(0, i as int));
                assert(parts[i as int] == values@[i as int]@.items());
                assert(Item::views(out@) =~= start + concat(parts.subrange(0, i + 1)));
            }
            i = i + 1;
        }
        assert(parts.subrange(0, i as int) =~= parts);
        out
    }

    /// Appends the nodes inside the values to `out`, in order.
    pub fn collect_all_trees<'a>(
        values: &'a Vec<ArgumentDefinition>,
        out: Vec<&'a Tree>,
    ) -> (r: Vec<&'a Tree>)
        ensures
            tree_views(
                r@
            ) == tree_views(
                out@
            ) + ArgumentDefinitionView::all_trees(ArgumentDefinition::views(values@)),
        decreases values,
    {
        let ghost start = tree_views(out@);
        let ghost parts = ArgumentDefinitionView::tree_parts(ArgumentDefinition::views(values@));
        let mut out = out;
        let mut i: usize = 0;
        assert(parts.subrange(0, 0) =~= Seq::<Seq<TreeView>>::empty());
        assert(tree_views(out@) =~= start + concat(parts.subrange(0, 0)));
        while i < values.len()
            invariant
                i <= values@.len(),
                parts == ArgumentDefinitionView::tree_parts(ArgumentDefinition::views(values@)),
                tree_views(out@) == start + concat(parts.subrange(0, i as int)),
            decreases values@.len() - i,
        {
            out = values[i].collect_trees(out);
            proof {
                assert(parts.subrange(0, i + 1).drop_last() =~= parts.subrange(0, i as int));
                assert(parts[i as int] == values@[i as int]@.trees());
                assert(tree_views(out@) =~= start + concat(parts.subrange(0, i + 1)));
            }
            i = i + 1;
        }
        assert(parts.subrange(0, i as int) =~= parts);
        out
    }
}

impl ArgumentDefault {
    /// Appends the items that the value holds to `out`.
    pub fn collect_items<'a>(&'a self, out: Vec<Item<'a>>) -> (r: Vec<Item<'a>>)
        ensures
            Item::views(r@) == Item::views(out@) + self@.items(),
    {
        let ghost start = Item::views(out@);
        let out = self.equals.collect_items(out);
        let ghost held = seq![self@.equals.item()];
        let out = self.expression.collect_items(out);
        proof {
            lemma_appended(start, held, seq![ItemView::Tree(self@.expression)]);
        }
        let ghost held = held + seq![ItemView::Tree(self@.expression)];
        out
    }

    /// Appends the nodes inside the value to `out`.
    pub fn collect_trees<'a>(&'a self, out: Vec<&'a Tree>) -> (r: Vec<&'a Tree>)
        ensures
            tree_views(r@) == tree_views(out@) + self@.trees(),
        decreases self,
    {
        let ghost start = tree_views(out@);
        let out = self.expression.collect_trees(out);
        let ghost held = self@.expression.trees();
        out
    }
}

impl ArgumentType {
    /// Appends the items that the value holds to `out`.
    pub fn collect_items<'a>(&'a self, out: Vec<Item<'a>>) -> (r: Vec<Item<'a>>)
        ensures
            Item::views(r@) == Item::views(out@) + self@.items(),
    {
        let ghost start = Item::views(out@);
        let out = self.operator.collect_items(out);
        let ghost held = seq![self@.operator.item()];
        let out = self.type_.collect_items(out);
        proof {
            lemma_appended(start, held, seq![ItemView::Tree(self@.type_)]);
        }
        let ghost held = held + seq![ItemView::Tree(self@.type_)];
        out
    }

    /// Appends the nodes inside the value to `out`.
    pub fn collect_trees<'a>(&'a self, out: Vec<&'a Tree>) -> (r: Vec<&'a Tree>)
        ensures
            tree_views(r@) == tree_views(out@) + self@.trees(),
        decreases self,
    {
        let ghost start = tree_views(out@);
        let out = self.type_.collect_trees(out);
        let ghost held = self@.type_.trees();
        out
    }
}

impl ReturnSpecification {
    /// Appends the items that the value holds to `out`.
    pub fn collect_items<'a>(&'a self, out: Vec<Item<'a>>) -> (r: Vec<Item<'a>>)
        ensures
            Item::views(r@) == Item::views(out@) + self@.items(),
    {
        let ghost start = Item::views(out@);
        let out = self.arrow.collect_items(out);
        let ghost held = seq![self@.arrow.item()];
        let out = self.type_.collect_items(out);
        proof {
            lemma_appended(start, held, seq![ItemView::Tree(self@.type_)]);
        }
        let ghost held = held + seq![ItemView::Tree(self@.type_)];
        out
    }

    /// Appends the nodes inside the value to `out`.
    pub fn collect_trees<'a>(&'a self, out: Vec<&'a Tree>) -> (r: Vec<&'a Tree>)
        ensures
            tree_views(r@) == tree_views(out@) + self@.trees(),
        decreases self,
    {
        let ghost start = tree_views(out@);
        let out = self.type_.collect_trees(out);
        let ghost held = self@.type_.trees();
        out
    }
}

impl CaseLine {
    /// Appends the items that the value holds to `out`.
    pub fn collect_items<'a>(&'a self, out: Vec<Item<'a>>) -> (r: Vec<Item<'a>>)
        ensures
            Item::views(r@) == Item::views(out@) + self@.items(),
    {
        let ghost start = Item::views(out@);
        let out = match &self.newline {
            Some(x) => x.collect_items(out),
            None => out,
        };
        let ghost held = opt_token_items(self@.newline);
        let out = match &self.case {
            Some(x) => x.collect_items(out),
            None => out,
        };
        proof {
            lemma_appended(
                start,
                held,
                (match self@.case { Some(x) => x.items(), None => Seq::empty(), }),
            );
        }
        let ghost held = held + (match self@.case { Some(x) => x.items(), None => Seq::empty(), });
        out
    }

    /// Appends the nodes inside the value to `out`.
    pub fn collect_trees<'a>(&'a self, out: Vec<&'a Tree>) -> (r: Vec<&'a Tree>)
        ensures
            tree_views(r@) == tree_views(out@) + self@.trees(),
        decreases self,
    {
        let ghost start = tree_views(out@);
        let out = match &self.case {
            Some(x) => x.collect_trees(out),
            None => out,
        };
        let ghost held = (match self@.case { Some(x) => x.trees(), None => Seq::empty(), });
        out
    }

    /// Appends the items that the values hold to `out`, in order.
    pub fn collect_all_items<'a>(
        values: &'a Vec<CaseLine>,
        out: Vec<Item<'a>>,
    ) -> (r: Vec<Item<'a>>)
        ensures
            Item::views(
                r@
            ) == Item::views(out@) + CaseLineView::all_items(CaseLine::views(values@)),
    {
        let ghost start = Item::views(out@);
        let ghost parts = CaseLineView::item_parts(CaseLine::views(values@));
        let mut out = out;
        let mut i: usize = 0;
        assert(parts.subrange(0, 0) =~= Seq::<Seq<ItemView>>::empty());
        assert(Item::views(out@) =~= start + concat(parts.subrange(0, 0)));
        while i < values.len()
            invariant
                i <= values@.len(),
                parts == CaseLineView::item_parts(CaseLine::views(values@)),
                Item::views(out@) == start + concat(parts.subrange(0, i as int)),
            decreases values@.len() - i,
        {
            out = values[i].collect_items(out);
            proof {
                assert(parts.subrange(0, i + 1).drop_last() =~= parts.subrange(0, i as int));
                assert(parts[i as int] == values@[i as int]@.items());
                assert(Item::views(out@) =~= start + concat(parts.subrange(0, i + 1)));
            }
            i = i + 1;
        }
        assert(parts.subrange(0, i as int) =~= parts);
        out
    }

    /// Appends the nodes inside the values to `out`, in order.
    pub fn collect_all_trees<'a>(
        values: &'a Vec<CaseLine>,
        out: Vec<&'a Tree>,
    ) -> (r: Vec<&'a Tree>)
        ensures
            tree_views(r@) == tree_views(out@) + CaseLineView::all_trees(CaseLine::views(values@)),
        decreases values,
    {
        let ghost start = tree_views(out@);
        let ghost parts = CaseLineView::tree_parts(CaseLine::views(values@));
        let mut out = out;
        let mut i: usize = 0;
        assert(parts.subrange(0, 0) =~= Seq::<Seq<TreeView>>::empty());
        assert(tree_views(out@) =~= start + concat(parts.subrange(0, 0)));
        while i < values.len()
            invariant
                i <= values@.len(),
                parts == CaseLineView::tree_parts(CaseLine::views(values@)),
                tree_views(out@) == start + concat(parts.subrange(0, i as int)),
            decreases values@.len() - i,
        {
            out = values[i].collect_trees(out);
            proof {
                assert(parts.subrange(0, i + 1).drop_last() =~= parts.subrange(0, i as int));
                assert(parts[i as int] == values@[i as int]@.trees());
                assert(tree_views(out@) =~= start + concat(parts.subrange(0, i + 1)));
            }
            i = i + 1;
        }
        assert(parts.subrange(0, i as int) =~= parts);
        out
    }
}

impl Case {
    /// Appends the items that the value holds to `out`.
    pub fn collect_items<'a>(&'a self, out: Vec<Item<'a>>) -> (r: Vec<Item<'a>>)
        ensures
            Item::views(r@) == Item::views(out@) + self@.items(),
    {
        let ghost start = Item::views(out@);
        let out = match &self.documentation {
            Some(x) => x.collect_items(out),
            None => out,
        };
        let ghost held = (
            match self@.documentation { Some(x) => x.items(), None => Seq::empty(), }
        );
        let out = match &self.pattern {
            Some(x) => x.collect_items(out),
            None => out,
        };
        proof {
            lemma_appended(start, held, opt_tree_items(self@.pattern));
        }
        let ghost held = held + opt_tree_items(self@.pattern);
        let out = match &self.arrow {
            Some(x) => x.collect_items(out),
            None => out,
        };
        proof {
            lemma_appended(start, held, opt_token_items(self@.arrow));
        }
        let ghost held = held + opt_token_items(self@.arrow);
        let out = match &self.expression {
            Some(x) => x.collect_items(out),
            None => out,
        };
        proof {
            lemma_appended(start, held, opt_tree_items(self@.expression));
        }
        let ghost held = held + opt_tree_items(self@.expression);
        out
    }

    /// Appends the nodes inside the value to `out`.
    pub fn collect_trees<'a>(&'a self, out: Vec<&'a Tree>) -> (r: Vec<&'a Tree>)
        ensures
            tree_views(r@) == tree_views(out@) + self@.trees(),
        decreases self,
    {
        let ghost start = tree_views(out@);
        let out = match &self.documentation {
            Some(x) => x.collect_trees(out),
            None => out,
        };
        let ghost held = (
            match self@.documentation { Some(x) => x.trees(), None => Seq::empty(), }
        );
        let out = match &self.pattern {
            Some(x) => x.collect_trees(out),
            None => out,
        };
        proof {
            lemma_appended(
                start,
                held,
                (match self@.pattern { Some(x) => x.trees(), None => Seq::empty(), }),
            );
        }
        let ghost held = held + (
            match self@.pattern { Some(x) => x.trees(), None => Seq::empty(), }
        );
        let out = match &self.expression {
            Some(x) => x.collect_trees(out),
            None => out,
        };
        proof {
            lemma_appended(
                start,
                held,
                (match self@.expression { Some(x) => x.trees(), None => Seq::empty(), }),
            );
        }
        let ghost held = held + (
            match self@.expression { Some(x) => x.trees(), None => Seq::empty(), }
        );
        out
    }
}

impl TextLiteral {
    /// Appends the items that the value holds to `out`.
    pub fn collect_items<'a>(&'a self, out: Vec<Item<'a>>) -> (r: Vec<Item<'a>>)
        ensures
            Item::views(r@) == Item::views(out@) + self@.items(),
    {
        let ghost start = Item::views(out@);
        let out = match &self.open {
            Some(x) => x.collect_items(out),
            None => out,
        };
        let ghost held = opt_token_items(self@.open);
        let out = match &self.newline {
            Some(x) => x.collect_items(out),
            None => out,
        };
        proof {
            lemma_appended(start, held, opt_token_items(self@.newline));
        }
        let ghost held = held + opt_token_items(self@.newline);
        let out = TextElement::collect_all_items(&self.elements, out);
        proof {
            lemma_appended(start, held, TextElementView::all_items(self@.elements));
        }
        let ghost held = held + TextElementView::all_items(self@.elements);
        let out = match &self.close {
            Some(x) => x.collect_items(out),
            None => out,
        };
        proof {
            lemma_appended(start, held, opt_token_items(self@.close));
        }
        let ghost held = held + opt_token_items(self@.close);
        out
    }

    /// Appends the nodes inside the value to `out`.
    pub fn collect_trees<'a>(&'a self, out: Vec<&'a Tree>) -> (r: Vec<&'a Tree>)
        ensures
            tree_views(r@) == tree_views(out@) + self@.trees(),
        decreases self,
    {
        let ghost start = tree_views(out@);
        let out = TextElement::collect_all_trees(&self.elements, out);
        let ghost held = TextElementView::all_trees(self@.elements);
        out
    }
}

impl MultipleOperatorError {
    /// Appends the items that the value holds to `out`.
    pub fn collect_items<'a>(&'a self, out: Vec<Item<'a>>) -> (r: Vec<Item<'a>>)
        ensures
            Item::views(r@) == Item::views(out@) + self@.items(),
    {
        let ghost start = Item::views(out@);
        let out = collect_token_items(&self.operators, out);
        let ghost held = tokens_items(self@.operators);
        out
    }
}

impl MultiSegmentAppSegment {
    /// Appends the items that the value holds to `out`.
    pub fn collect_items<'a>(&'a self, out: Vec<Item<'a>>) -> (r: Vec<Item<'a>>)
        ensures
            Item::views(r@) == Item::views(out@) + self@.items(),
    {
        let ghost start = Item::views(out@);
        let out = self.header.collect_items(out);
        let ghost held = seq![self@.header.item()];
        let out = match &self.body {
            Some(x) => x.collect_items(out),
            None => out,
        };
        proof {
            lemma_appended(start, held, opt_tree_items(self@.body));
        }
        let ghost held = held + opt_tree_items(self@.body);
        out
    }

    /// Appends the nodes inside the value to `out`.
    pub fn collect_trees<'a>(&'a self, out: Vec<&'a Tree>) -> (r: Vec<&'a Tree>)
        ensures
            tree_views(r@) == tree_views(out@) + self@.trees(),
        decreases self,
    {
        let ghost start = tree_views(out@);
        let out = match &self.body {
            Some(x) => x.collect_trees(out),
            None => out,
        };
        let ghost held = (match self@.body { Some(x) => x.trees(), None => Seq::empty(), });
        out
    }

    /// Appends the items that the values hold to `out`, in order.
    pub fn collect_all_items<'a>(
        values: &'a Vec<MultiSegmentAppSegment>,
        out: Vec<Item<'a>>,
    ) -> (r: Vec<Item<'a>>)
        ensures
            Item::views(
                r@
            ) == Item::views(
                out@
            ) + MultiSegmentAppSegmentView::all_items(MultiSegmentAppSegment::views(values@)),
    {
        let ghost start = Item::views(out@);
        let ghost parts = MultiSegmentAppSegmentView::item_parts(
            MultiSegmentAppSegment::views(values@)
        );
        let mut out = out;
        let mut i: usize = 0;
        assert(parts.subrange(0, 0) =~= Seq::<Seq<ItemView>>::empty());
        assert(Item::views(out@) =~= start + concat(parts.subrange(0, 0)));
        while i < values.len()
            invariant
                i <= values@.len(),
                parts == MultiSegmentAppSegmentView::item_parts(
                    MultiSegmentAppSegment::views(values@)
                ),
                Item::views(out@) == start + concat(parts.subrange(0, i as int)),
            decreases values@.len() - i,
        {
            out = values[i].collect_items(out);
            proof {
                assert(parts.subrange(0, i + 1).drop_last() =~= parts.subrange(0, i as int));
                assert(parts[i as int] == values@[i as int]@.items());
                assert(Item::views(out@) =~= start + concat(parts.subrange(0, i + 1)));
            }
            i = i + 1;
        }
        assert(parts.subrange(0, i as int) =~= parts);
        out
    }

    /// Appends the nodes inside the values to `out`, in order.
    pub fn collect_all_trees<'a>(
        values: &'a Vec<MultiSegmentAppSegment>,
        out: Vec<&'a Tree>,
    ) -> (r: Vec<&'a Tree>)
        ensures
            tree_views(
                r@
            ) == tree_views(
                out@
            ) + MultiSegmentAppSegmentView::all_trees(MultiSegmentAppSegment::views(values@)),
        decreases values,
    {
        let ghost start = tree_views(out@);
        let ghost parts = MultiSegmentAppSegmentView::tree_parts(
            MultiSegmentAppSegment::views(values@)
        );
        let mut out = out;
        let mut i: usize = 0;
        assert(parts.subrange(0, 0) =~= Seq::<Seq<TreeView>>::empty());
        assert(tree_views(out@) =~= start + concat(parts.subrange(0, 0)));
        while i < values.len()
            invariant
                i <= values@.len(),
                parts == MultiSegmentAppSegmentView::tree_parts(
                    MultiSegmentAppSegment::views(values@)
                ),
                tree_views(out@) == start + concat(parts.subrange(0, i as int)),
            decreases values@.len() - i,
        {
            out = values[i].collect_trees(out);
            proof {
                assert(parts.subrange(0, i + 1).drop_last() =~= parts.subrange(0, i as int));
                assert(parts[i as int] == values@[i as int]@.trees());
                assert(tree_views(out@) =~= start + concat(parts.subrange(0, i + 1)));
            }
            i = i + 1;
        }
        assert(parts.subrange(0, i as int) =~= parts);
        out
    }
}

impl OperatorDelimitedTree {
    /// Appends the items that the value holds to `out`.
    pub fn collect_items<'a>(&'a self, out: Vec<Item<'a>>) -> (r: Vec<Item<'a>>)
        ensures
            Item::views(r@) == Item::views(out@) + self@.items(),
    {
        let ghost start = Item::views(out@);
        let out = self.operator.collect_items(out);
        let ghost held = seq![self@.operator.item()];
        let out = match &self.body {
            Some(x) => x.collect_items(out),
            None => out,
        };
        proof {
            lemma_appended(start, held, opt_tree_items(self@.body));
        }
        let ghost held = held + opt_tree_items(self@.body);
        out
    }

    /// Appends the nodes inside the value to `out`.
    pub fn collect_trees<'a>(&'a self, out: Vec<&'a Tree>) -> (r: Vec<&'a Tree>)
        ensures
            tree_views(r@) == tree_views(out@) + self@.trees(),
        decreases self,
    {
        let ghost start = tree_views(out@);
        let out = match &self.body {
            Some(x) => x.collect_trees(out),
            None => out,
        };
        let ghost held = (match self@.body { Some(x) => x.trees(), None => Seq::empty(), });
        out
    }

    /// Appends the items that the values hold to `out`, in order.
    pub fn collect_all_items<'a>(
        values: &'a Vec<OperatorDelimitedTree>,
        out: Vec<Item<'a>>,
    ) -> (r: Vec<Item<'a>>)
        ensures
            Item::views(
                r@
            ) == Item::views(
                out@
            ) + OperatorDelimitedTreeView::all_items(OperatorDelimitedTree::views(values@)),
    {
        let ghost start = Item::views(out@);
        let ghost parts = OperatorDelimitedTreeView::item_parts(
            OperatorDelimitedTree::views(values@)
        );
        let mut out = out;
        let mut i: usize = 0;
        assert(parts.subrange(0, 0) =~= Seq::<Seq<ItemView>>::empty());
        assert(Item::views(out@) =~= start + concat(parts.subrange(0, 0)));
        while i < values.len()
            invariant
                i <= values@.len(),
                parts == OperatorDelimitedTreeView::item_parts(
                    OperatorDelimitedTree::views(values@)
                ),
                Item::views(out@) == start + concat(parts.subrange(0, i as int)),
            decreases values@.len() - i,
        {
            out = values[i].collect_items(out);
            proof {
                assert(parts.subrange(0, i + 1).drop_last() =~= parts.subrange(0, i as int));
                assert(parts[i as int] == values@[i as int]@.items());
                assert(Item::views(out@) =~= start + concat(parts.subrange(0, i + 1)));
            }
            i = i + 1;
        }
        assert(parts.subrange(0, i as int) =~= parts);
        out
    }

    /// Appends the nodes inside the values to `out`, in order.
    pub fn collect_all_trees<'a>(
        values: &'a Vec<OperatorDelimitedTree>,
        out: Vec<&'a Tree>,
    ) -> (r: Vec<&'a Tree>)
        ensures
            tree_views(
                r@
            ) == tree_views(
                out@
            ) + OperatorDelimitedTreeView::all_trees(OperatorDelimitedTree::views(values@)),
        decreases values,
    {
        let ghost start = tree_views(out@);
        let ghost parts = OperatorDelimitedTreeView::tree_parts(
            OperatorDelimitedTree::views(values@)
        );
        let mut out = out;
        let mut i: usize = 0;
        assert(parts.subrange(0, 0) =~= Seq::<Seq<TreeView>>::empty());
        assert(tree_views(out@) =~= start + concat(parts.subrange(0, 0)));
        while i < values.len()
            invariant
                i <= values@.len(),
                parts == OperatorDelimitedTreeView::tree_parts(
                    OperatorDelimitedTree::views(values@)
                ),
                tree_views(out@) == start + concat(parts.subrange(0, i as int)),
            decreases values@.len() - i,
        {
            out = values[i].collect_trees(out);
            proof {
                assert(parts.subrange(0, i + 1).drop_last() =~= parts.subrange(0, i as int));
                assert(parts[i as int] == values@[i as int]@.trees());
                assert(tree_views(out@) =~= start + concat(parts.subrange(0, i + 1)));
            }
            i = i + 1;
        }
        assert(parts.subrange(0, i as int) =~= parts);
        out
    }
}

} // verus!
