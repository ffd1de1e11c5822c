//! What holds of walking a tree: the items of a node read as the node does, the
//! printing visitor reads the source text back, and every node of a valid tree
//! is valid.

use crate::source::{concat, lemma_appended, lemma_concat_append};
use crate::token;
use crate::token::{opt_token_source, token_sources, tokens_source, TokenView};
use crate::tree::items::{
    opt_token_items, opt_tree_items, operator_or_error_items, tokens_items, ItemView,
};
use crate::tree::model::{
    ArgumentDefaultView, ArgumentDefinitionLineView, ArgumentDefinitionView, ArgumentTypeView,
    CaseLineView, CaseView, DocCommentView, ErrorView, FractionalDigitsView, LineView,
    MultiSegmentAppSegmentView, MultipleOperatorErrorView, OperatorBlockExpressionView,
    OperatorDelimitedTreeView, OperatorLineView, OperatorOrErrorView, ReturnSpecificationView,
    TextElementView, TextLiteralView, TreeView, VariantView,
};
use crate::tree::text::operator_or_error_source;
use crate::tree::visit::{
    walked_opt_token, walked_operator_or_error, walked_tokens, CodePrinterVisitor, ItemVisitor,
};
use vstd::prelude::*;

verus! {

/// The text of two runs of items is the text of the first and then the text of
/// the second.
pub proof fn lemma_sources_append(front: Seq<ItemView>, back: Seq<ItemView>)
    ensures
        ItemView::sources(front + back) == ItemView::sources(front) + ItemView::sources(back),
{
    assert(ItemView::source_parts(front + back) =~= ItemView::source_parts(front)
        + ItemView::source_parts(back));
    lemma_concat_append(ItemView::source_parts(front), ItemView::source_parts(back));
}

/// The text of one item alone is its own text.
pub proof fn lemma_sources_one(item: ItemView)
    ensures
        ItemView::sources(seq![item]) == item.source(),
{
    let parts = ItemView::source_parts(seq![item]);
    assert(parts.drop_last() =~= Seq::<Seq<char>>::empty());
    assert(concat(parts.drop_last()) =~= Seq::<char>::empty());
    assert(concat(parts) =~= item.source());
}

/// No items have no text.
pub proof fn lemma_sources_none()
    ensures
        ItemView::sources(Seq::empty()) == Seq::<char>::empty(),
{
    assert(ItemView::source_parts(Seq::empty()) =~= Seq::<Seq<char>>::empty());
}

/// The items of runs that are put one after the other read as the runs do.
pub proof fn lemma_sources_concat(parts: Seq<Seq<ItemView>>)
    ensures
        ItemView::sources(concat(parts)) == concat(
            Seq::new(parts.len(), |i: int| ItemView::sources(parts[i])),
        ),
    decreases parts.len(),
{
    let texts = Seq::new(parts.len(), |i: int| ItemView::sources(parts[i]));
    if parts.len() == 0 {
        lemma_sources_none();
        assert(texts =~= Seq::<Seq<char>>::empty());
    } else {
        let front = parts.drop_last();
        lemma_sources_concat(front);
        lemma_sources_append(concat(front), parts.last());
        assert(texts.drop_last() =~= Seq::new(front.len(), |i: int| ItemView::sources(front[i])));
    }
}

/// The item of a token that may be absent reads as the token does.
pub proof fn lemma_opt_token_items<T>(token: Option<TokenView<T>>)
    ensures
        ItemView::sources(opt_token_items(token)) == opt_token_source(token),
{
    match token {
        Some(t) => lemma_sources_one(t.item()),
        None => lemma_sources_none(),
    }
}

/// The items of tokens read as the tokens do.
pub proof fn lemma_tokens_items<T>(tokens: Seq<TokenView<T>>)
    ensures
        ItemView::sources(tokens_items(tokens)) == tokens_source(tokens),
{
    assert(ItemView::source_parts(tokens_items(tokens)) =~= crate::token::token_sources(tokens));
}

/// The item of a node that may be absent reads as the node does.
pub proof fn lemma_opt_tree_items(tree: Option<TreeView>)
    ensures
        ItemView::sources(opt_tree_items(tree)) == (match tree {
            Some(x) => x.source(),
            None => Seq::empty(),
        }),
{
    match tree {
        Some(t) => lemma_sources_one(ItemView::Tree(t)),
        None => lemma_sources_none(),
    }
}

/// The items of an operator, or of the error of several, read as it does.
pub proof fn lemma_operator_or_error_items(opr: OperatorOrErrorView)
    ensures
        ItemView::sources(operator_or_error_items(opr)) == operator_or_error_source(opr),
{
    match opr {
        Ok(token) => lemma_sources_one(token.item()),
        Err(error) => error.lemma_items(),
    }
}

impl TextElementView {
    /// The items that the value holds read as the value does.
    pub proof fn lemma_items(self)
        ensures
            ItemView::sources(self.items()) == self.source(),
    {
        match self {
            TextElementView::Section { text } => {
                lemma_sources_one(text.item());
                let held = seq![text.item()];
            },
            TextElementView::Escape { token } => {
                lemma_sources_one(token.item());
                let held = seq![token.item()];
            },
            TextElementView::Newline { newline } => {
                lemma_sources_one(newline.item());
                let held = seq![newline.item()];
            },
            TextElementView::Splice { open, expression, close } => {
                lemma_sources_one(open.item());
                let held = seq![open.item()];
                lemma_opt_tree_items(expression);
                lemma_sources_append(held, opt_tree_items(expression));
                let held = held + opt_tree_items(expression);
                lemma_sources_one(close.item());
                lemma_sources_append(held, seq![close.item()]);
                let held = held + seq![close.item()];
            },
        }
    }

    /// The items that the values of a sequence hold read as the values do.
    pub proof fn lemma_all_items(values: Seq<TextElementView>)
        ensures
            ItemView::sources(
                TextElementView::all_items(values)
            ) == TextElementView::sources(values),
    {
        let parts = TextElementView::item_parts(values);
        lemma_sources_concat(parts);
        assert forall|i: int| 0 <= i < values.len() implies ItemView::sources(#[trigger] parts[i])
            == values[i].source() by {
            values[i].lemma_items();
        }
        assert(Seq::new(parts.len(), |i: int| ItemView::sources(parts[i]))
            =~= TextElementView::source_parts(values));
    }
}

impl FractionalDigitsView {
    /// The items that the value holds read as the value does.
    pub proof fn lemma_items(self)
        ensures
            ItemView::sources(self.items()) == self.source(),
    {
        lemma_sources_one(self.dot.item());
        let held = seq![self.dot.item()];
        lemma_sources_one(self.digits.item());
        lemma_sources_append(held, seq![self.digits.item()]);
        let held = held + seq![self.digits.item()];
    }
}

impl MultipleOperatorErrorView {
    /// The items that the value holds read as the value does.
    pub proof fn lemma_items(self)
        ensures
            ItemView::sources(self.items()) == self.source(),
    {
        lemma_tokens_items(self.operators);
        let held = tokens_items(self.operators);
    }
}

impl LineView {
    /// The items that the value holds read as the value does.
    pub proof fn lemma_items(self)
        ensures
            ItemView::sources(self.items()) == self.source(),
    {
        lemma_sources_one(self.newline.item());
        let held = seq![self.newline.item()];
        lemma_opt_tree_items(self.expression);
        lemma_sources_append(held, opt_tree_items(self.expression));
        let held = held + opt_tree_items(self.expression);
    }

    /// The items that the values of a sequence hold read as the values do.
    pub proof fn lemma_all_items(values: Seq<LineView>)
        ensures
            ItemView::sources(LineView::all_items(values)) == LineView::sources(values),
    {
        let parts = LineView::item_parts(values);
        lemma_sources_concat(parts);
        assert forall|i: int| 0 <= i < values.len() implies ItemView::sources(#[trigger] parts[i])
            == values[i].source() by {
            values[i].lemma_items();
        }
        assert(Seq::new(parts.len(), |i: int| ItemView::sources(parts[i]))
            =~= LineView::source_parts(values));
    }
}

impl OperatorBlockExpressionView {
    /// The items that the value holds read as the value does.
    pub proof fn lemma_items(self)
        ensures
            ItemView::sources(self.items()) == self.source(),
    {
        lemma_operator_or_error_items(self.operator);
        let held = operator_or_error_items(self.operator);
        lemma_sources_one(ItemView::Tree(self.expression));
        lemma_sources_append(held, seq![ItemView::Tree(self.expression)]);
        let held = held + seq![ItemView::Tree(self.expression)];
    }
}

impl OperatorLineView {
    /// The items that the value holds read as the value does.
    pub proof fn lemma_items(self)
        ensures
            ItemView::sources(self.items()) == self.source(),
    {
        lemma_sources_one(self.newline.item());
        let held = seq![self.newline.item()];
        match self.expression {
            Some(x) => x.lemma_items(),
            None => lemma_sources_none(),
        }
        lemma_sources_append(
            held,
            (match self.expression { Some(x) => x.items(), None => Seq::empty(), }),
        );
        let held = held + (match self.expression { Some(x) => x.items(), None => Seq::empty(), });
    }

    /// The items that the values of a sequence hold read as the values do.
    pub proof fn lemma_all_items(values: Seq<OperatorLineView>)
        ensures
            ItemView::sources(
                OperatorLineView::all_items(values)
            ) == OperatorLineView::sources(values),
    {
        let parts = OperatorLineView::item_parts(values);
        lemma_sources_concat(parts);
        assert forall|i: int| 0 <= i < values.len() implies ItemView::sources(#[trigger] parts[i])
            == values[i].source() by {
            values[i].lemma_items();
        }
        assert(Seq::new(parts.len(), |i: int| ItemView::sources(parts[i]))
            =~= OperatorLineView::source_parts(values));
    }
}

impl ArgumentTypeView {
    /// The items that the value holds read as the value does.
    pub proof fn lemma_items(self)
        ensures
            ItemView::sources(self.items()) == self.source(),
    {
        lemma_sources_one(self.operator.item());
        let held = seq![self.operator.item()];
        lemma_sources_one(ItemView::Tree(self.type_));
        lemma_sources_append(held, seq![ItemView::Tree(self.type_)]);
        let held = held + seq![ItemView::Tree(self.type_)];
    }
}

impl ArgumentDefaultView {
    /// The items that the value holds read as the value does.
    pub proof fn lemma_items(self)
        ensures
            ItemView::sources(self.items()) == self.source(),
    {
        lemma_sources_one(self.equals.item());
        let held = seq![self.equals.item()];
        lemma_sources_one(ItemView::Tree(self.expression));
        lemma_sources_append(held, seq![ItemView::Tree(self.expression)]);
        let held = held + seq![ItemView::Tree(self.expression)];
    }
}

impl ArgumentDefinitionView {
    /// The items that the value holds read as the value does.
    pub proof fn lemma_items(self)
        ensures
            ItemView::sources(self.items()) == self.source(),
    {
        lemma_opt_token_items(self.open);
        let held = opt_token_items(self.open);
        lemma_opt_token_items(self.open2);
        lemma_sources_append(held, opt_token_items(self.open2));
        let held = held + opt_token_items(self.open2);
        lemma_opt_token_items(self.suspension);
        lemma_sources_append(held, opt_token_items(self.suspension));
        let held = held + opt_token_items(self.suspension);
        lemma_sources_one(ItemView::Tree(self.pattern));
        lemma_sources_append(held, seq![ItemView::Tree(self.pattern)]);
        let held = held + seq![ItemView::Tree(self.pattern)];
        match self.type_ {
            Some(x) => x.lemma_items(),
            None => lemma_sources_none(),
        }
        lemma_sources_append(
            held,
            (match self.type_ { Some(x) => x.items(), None => Seq::empty(), }),
        );
        let held = held + (match self.type_ { Some(x) => x.items(), None => Seq::empty(), });
        lemma_opt_token_items(self.close2);
        lemma_sources_append(held, opt_token_items(self.close2));
        let held = held + opt_token_items(self.close2);
        match self.default {
            Some(x) => x.lemma_items(),
            None => lemma_sources_none(),
        }
        lemma_sources_append(
            held,
            (match self.default { Some(x) => x.items(), None => Seq::empty(), }),
        );
        let held = held + (match self.default { Some(x) => x.items(), None => Seq::empty(), });
        lemma_opt_token_items(self.close);
        lemma_sources_append(held, opt_token_items(self.close));
        let held = held + opt_token_items(self.close);
    }

    /// The items that the values of a sequence hold read as the values do.
    pub proof fn lemma_all_items(values: Seq<ArgumentDefinitionView>)
        ensures
            ItemView::sources(
                ArgumentDefinitionView::all_items(values)
            ) == ArgumentDefinitionView::sources(values),
    {
        let parts = ArgumentDefinitionView::item_parts(values);
        lemma_sources_concat(parts);
        assert forall|i: int| 0 <= i < values.len() implies ItemView::sources(#[trigger] parts[i])
            == values[i].source() by {
            values[i].lemma_items();
        }
        assert(Seq::new(parts.len(), |i: int| ItemView::sources(parts[i]))
            =~= ArgumentDefinitionView::source_parts(values));
    }
}

impl ArgumentDefinitionLineView {
    /// The items that the value holds read as the value does.
    pub proof fn lemma_items(self)
        ensures
            ItemView::sources(self.items()) == self.source(),
    {
        lemma_sources_one(self.newline.item());
        let held = seq![self.newline.item()];
        match self.argument {
            Some(x) => x.lemma_items(),
            None => lemma_sources_none(),
        }
        lemma_sources_append(
            held,
            (match self.argument { Some(x) => x.items(), None => Seq::empty(), }),
        );
        let held = held + (match self.argument { Some(x) => x.items(), None => Seq::empty(), });
    }

    /// The items that the values of a sequence hold read as the values do.
    pub proof fn lemma_all_items(values: Seq<ArgumentDefinitionLineView>)
        ensures
            ItemView::sources(
                ArgumentDefinitionLineView::all_items(values)
            ) == ArgumentDefinitionLineView::sources(values),
    {
        let parts = ArgumentDefinitionLineView::item_parts(values);
        lemma_sources_concat(parts);
        assert forall|i: int| 0 <= i < values.len() implies ItemView::sources(#[trigger] parts[i])
            == values[i].source() by {
            values[i].lemma_items();
        }
        assert(Seq::new(parts.len(), |i: int| ItemView::sources(parts[i]))
            =~= ArgumentDefinitionLineView::source_parts(values));
    }
}

impl DocCommentView {
    /// The items that the value holds read as the value does.
    pub proof fn lemma_items(self)
        ensures
            ItemView::sources(self.items()) == self.source(),
    {
        lemma_sources_one(self.open.item());
        let held = seq![self.open.item()];
        TextElementView::lemma_all_items(self.elements);
        lemma_sources_append(held, TextElementView::all_items(self.elements));
        let held = held + TextElementView::all_items(self.elements);
        lemma_tokens_items(self.newlines);
        lemma_sources_append(held, tokens_items(self.newlines));
        let held = held + tokens_items(self.newlines);
    }
}

impl ReturnSpecificationView {
    /// The items that the value holds read as the value does.
    pub proof fn lemma_items(self)
        ensures
            ItemView::sources(self.items()) == self.source(),
    {
        lemma_sources_one(self.arrow.item());
        let held = seq![self.arrow.item()];
        lemma_sources_one(ItemView::Tree(self.type_));
        lemma_sources_append(held, seq![ItemView::Tree(self.type_)]);
        let held = held + seq![ItemView::Tree(self.type_)];
    }
}

impl CaseView {
    /// The items that the value holds read as the value does.
    pub proof fn lemma_items(self)
        ensures
            ItemView::sources(self.items()) == self.source(),
    {
        match self.documentation {
            Some(x) => x.lemma_items(),
            None => lemma_sources_none(),
        }
        let held = (match self.documentation { Some(x) => x.items(), None => Seq::empty(), });
        lemma_opt_tree_items(self.pattern);
        lemma_sources_append(held, opt_tree_items(self.pattern));
        let held = held + opt_tree_items(self.pattern);
        lemma_opt_token_items(self.arrow);
        lemma_sources_append(held, opt_token_items(self.arrow));
        let held = held + opt_token_items(self.arrow);
        lemma_opt_tree_items(self.expression);
        lemma_sources_append(held, opt_tree_items(self.expression));
        let held = held + opt_tree_items(self.expression);
    }
}

impl CaseLineView {
    /// The items that the value holds read as the value does.
    pub proof fn lemma_items(self)
        ensures
            ItemView::sources(self.items()) == self.source(),
    {
        lemma_opt_token_items(self.newline);
        let held = opt_token_items(self.newline);
        match self.case {
            Some(x) => x.lemma_items(),
            None => lemma_sources_none(),
        }
        lemma_sources_append(
            held,
            (match self.case { Some(x) => x.items(), None => Seq::empty(), }),
        );
        let held = held + (match self.case { Some(x) => x.items(), None => Seq::empty(), });
    }

    /// The items that the values of a sequence hold read as the values do.
    pub proof fn lemma_all_items(values: Seq<CaseLineView>)
        ensures
            ItemView::sources(CaseLineView::all_items(values)) == CaseLineView::sources(values),
    {
        let parts = CaseLineView::item_parts(values);
        lemma_sources_concat(parts);
        assert forall|i: int| 0 <= i < values.len() implies ItemView::sources(#[trigger] parts[i])
            == values[i].source() by {
            values[i].lemma_items();
        }
        assert(Seq::new(parts.len(), |i: int| ItemView::sources(parts[i]))
            =~= CaseLineView::source_parts(values));
    }
}

impl TextLiteralView {
    /// The items that the value holds read as the value does.
    pub proof fn lemma_items(self)
        ensures
            ItemView::sources(self.items()) == self.source(),
    {
        lemma_opt_token_items(self.open);
        let held = opt_token_items(self.open);
        lemma_opt_token_items(self.newline);
        lemma_sources_append(held, opt_token_items(self.newline));
        let held = held + opt_token_items(self.newline);
        TextElementView::lemma_all_items(self.elements);
        lemma_sources_append(held, TextElementView::all_items(self.elements));
        let held = held + TextElementView::all_items(self.elements);
        lemma_opt_token_items(self.close);
        lemma_sources_append(held, opt_token_items(self.close));
        let held = held + opt_token_items(self.close);
    }
}

impl MultiSegmentAppSegmentView {
    /// The items that the value holds read as the value does.
    pub proof fn lemma_items(self)
        ensures
            ItemView::sources(self.items()) == self.source(),
    {
        lemma_sources_one(self.header.item());
        let held = seq![self.header.item()];
        lemma_opt_tree_items(self.body);
        lemma_sources_append(held, opt_tree_items(self.body));
        let held = held + opt_tree_items(self.body);
    }

    /// The items that the values of a sequence hold read as the values do.
    pub proof fn lemma_all_items(values: Seq<MultiSegmentAppSegmentView>)
        ensures
            ItemView::sources(
                MultiSegmentAppSegmentView::all_items(values)
            ) == MultiSegmentAppSegmentView::sources(values),
    {
        let parts = MultiSegmentAppSegmentView::item_parts(values);
        lemma_sources_concat(parts);
        assert forall|i: int| 0 <= i < values.len() implies ItemView::sources(#[trigger] parts[i])
            == values[i].source() by {
            values[i].lemma_items();
        }
        assert(Seq::new(parts.len(), |i: int| ItemView::sources(parts[i]))
            =~= MultiSegmentAppSegmentView::source_parts(values));
    }
}

impl OperatorDelimitedTreeView {
    /// The items that the value holds read as the value does.
    pub proof fn lemma_items(self)
        ensures
            ItemView::sources(self.items()) == self.source(),
    {
        lemma_sources_one(self.operator.item());
        let held = seq![self.operator.item()];
        lemma_opt_tree_items(self.body);
        lemma_sources_append(held, opt_tree_items(self.body));
        let held = held + opt_tree_items(self.body);
    }

    /// The items that the values of a sequence hold read as the values do.
    pub proof fn lemma_all_items(values: Seq<OperatorDelimitedTreeView>)
        ensures
            ItemView::sources(
                OperatorDelimitedTreeView::all_items(values)
            ) == OperatorDelimitedTreeView::sources(values),
    {
        let parts = OperatorDelimitedTreeView::item_parts(values);
        lemma_sources_concat(parts);
        assert forall|i: int| 0 <= i < values.len() implies ItemView::sources(#[trigger] parts[i])
            == values[i].source() by {
            values[i].lemma_items();
        }
        assert(Seq::new(parts.len(), |i: int| ItemView::sources(parts[i]))
            =~= OperatorDelimitedTreeView::source_parts(values));
    }
}

/// The items that `Invalid` holds read as it does.
proof fn lemma_items_of_invalid(error: ErrorView, ast: TreeView)
    ensures
        ItemView::sources(
            (VariantView::Invalid { error, ast }).items()
        ) == (VariantView::Invalid { error, ast }).source(),
{
    lemma_sources_one(ItemView::Tree(ast));
    let held = seq![ItemView::Tree(ast)];
}

/// The items that `BodyBlock` holds read as it does.
proof fn lemma_items_of_body_block(statements: Seq<LineView>)
    ensures
        ItemView::sources(
            (VariantView::BodyBlock { statements }).items()
        ) == (VariantView::BodyBlock { statements }).source(),
{
    LineView::lemma_all_items(statements);
    let held = LineView::all_items(statements);
}

/// The items that `ArgumentBlockApplication` holds read as it does.
proof fn lemma_items_of_argument_block_application(lhs: Option<TreeView>, arguments: Seq<LineView>)
    ensures
        ItemView::sources(
            (VariantView::ArgumentBlockApplication { lhs, arguments }).items()
        ) == (VariantView::ArgumentBlockApplication { lhs, arguments }).source(),
{
    lemma_opt_tree_items(lhs);
    let held = opt_tree_items(lhs);
    LineView::lemma_all_items(arguments);
    lemma_sources_append(held, LineView::all_items(arguments));
    let held = held + LineView::all_items(arguments);
}

/// The items that `OperatorBlockApplication` holds read as it does.
proof fn lemma_items_of_operator_block_application(
    lhs: Option<TreeView>,
    expressions: Seq<OperatorLineView>,
    excess: Seq<LineView>,
)
    ensures
        ItemView::sources(
            (VariantView::OperatorBlockApplication { lhs, expressions, excess }).items()
        ) == (VariantView::OperatorBlockApplication { lhs, expressions, excess }).source(),
{
    lemma_opt_tree_items(lhs);
    let held = opt_tree_items(lhs);
    OperatorLineView::lemma_all_items(expressions);
    lemma_sources_append(held, OperatorLineView::all_items(expressions));
    let held = held + OperatorLineView::all_items(expressions);
    LineView::lemma_all_items(excess);
    lemma_sources_append(held, LineView::all_items(excess));
    let held = held + LineView::all_items(excess);
}

/// The items that `Ident` holds read as it does.
proof fn lemma_items_of_ident(token: TokenView<token::Ident>)
    ensures
        ItemView::sources(
            (VariantView::Ident { token }).items()
        ) == (VariantView::Ident { token }).source(),
{
    lemma_sources_one(token.item());
    let held = seq![token.item()];
}

/// The items that `Private` holds read as it does.
proof fn lemma_items_of_private(keyword: TokenView<token::Private>, body: Option<TreeView>)
    ensures
        ItemView::sources(
            (VariantView::Private { keyword, body }).items()
        ) == (VariantView::Private { keyword, body }).source(),
{
    lemma_sources_one(keyword.item());
    let held = seq![keyword.item()];
    lemma_opt_tree_items(body);
    lemma_sources_append(held, opt_tree_items(body));
    let held = held + opt_tree_items(body);
}

/// The items that `Number` holds read as it does.
proof fn lemma_items_of_number(
    base: Option<TokenView<token::NumberBase>>,
    integer: Option<TokenView<token::Digits>>,
    fractional_digits: Option<FractionalDigitsView>,
)
    ensures
        ItemView::sources(
            (VariantView::Number { base, integer, fractional_digits }).items()
        ) == (VariantView::Number { base, integer, fractional_digits }).source(),
{
    lemma_opt_token_items(base);
    let held = opt_token_items(base);
    lemma_opt_token_items(integer);
    lemma_sources_append(held, opt_token_items(integer));
    let held = held + opt_token_items(integer);
    match fractional_digits {
        Some(x) => x.lemma_items(),
        None => lemma_sources_none(),
    }
    lemma_sources_append(
        held,
        (match fractional_digits { Some(x) => x.items(), None => Seq::empty(), }),
    );
    let held = held + (match fractional_digits { Some(x) => x.items(), None => Seq::empty(), });
}

/// The items that `Wildcard` holds read as it does.
proof fn lemma_items_of_wildcard(token: TokenView<token::Wildcard>, de_bruijn_index: Option<u32>)
    ensures
        ItemView::sources(
            (VariantView::Wildcard { token, de_bruijn_index }).items()
        ) == (VariantView::Wildcard { token, de_bruijn_index }).source(),
{
    lemma_sources_one(token.item());
    let held = seq![token.item()];
}

/// The items that `SuspendedDefaultArguments` holds read as it does.
proof fn lemma_items_of_suspended_default_arguments(
    token: TokenView<token::SuspendedDefaultArguments>
)
    ensures
        ItemView::sources(
            (VariantView::SuspendedDefaultArguments { token }).items()
        ) == (VariantView::SuspendedDefaultArguments { token }).source(),
{
    lemma_sources_one(token.item());
    let held = seq![token.item()];
}

/// The items that `TextLiteral` holds read as it does.
proof fn lemma_items_of_text_literal(
    open: Option<TokenView<token::TextStart>>,
    newline: Option<TokenView<token::Newline>>,
    elements: Seq<TextElementView>,
    close: Option<TokenView<token::TextEnd>>,
    closed: bool,
)
    ensures
        ItemView::sources(
            (VariantView::TextLiteral { open, newline, elements, close, closed }).items()
        ) == (VariantView::TextLiteral { open, newline, elements, close, closed }).source(),
{
    lemma_opt_token_items(open);
    let held = opt_token_items(open);
    lemma_opt_token_items(newline);
    lemma_sources_append(held, opt_token_items(newline));
    let held = held + opt_token_items(newline);
    TextElementView::lemma_all_items(elements);
    lemma_sources_append(held, TextElementView::all_items(elements));
    let held = held + TextElementView::all_items(elements);
    lemma_opt_token_items(close);
    lemma_sources_append(held, opt_token_items(close));
    let held = held + opt_token_items(close);
}

/// The items that `App` holds read as it does.
proof fn lemma_items_of_app(func: TreeView, arg: TreeView)
    ensures
        ItemView::sources(
            (VariantView::App { func, arg }).items()
        ) == (VariantView::App { func, arg }).source(),
{
    lemma_sources_one(ItemView::Tree(func));
    let held = seq![ItemView::Tree(func)];
    lemma_sources_one(ItemView::Tree(arg));
    lemma_sources_append(held, seq![ItemView::Tree(arg)]);
    let held = held + seq![ItemView::Tree(arg)];
}

/// The items that `NamedApp` holds read as it does.
proof fn lemma_items_of_named_app(
    func: TreeView,
    open: Option<TokenView<token::OpenSymbol>>,
    name: TokenView<token::Ident>,
    equals: TokenView<token::Operator>,
    arg: TreeView,
    close: Option<TokenView<token::CloseSymbol>>,
)
    ensures
        ItemView::sources(
            (VariantView::NamedApp { func, open, name, equals, arg, close }).items()
        ) == (VariantView::NamedApp { func, open, name, equals, arg, close }).source(),
{
    lemma_sources_one(ItemView::Tree(func));
    let held = seq![ItemView::Tree(func)];
    lemma_opt_token_items(open);
    lemma_sources_append(held, opt_token_items(open));
    let held = held + opt_token_items(open);
    lemma_sources_one(name.item());
    lemma_sources_append(held, seq![name.item()]);
    let held = held + seq![name.item()];
    lemma_sources_one(equals.item());
    lemma_sources_append(held, seq![equals.item()]);
    let held = held + seq![equals.item()];
    lemma_sources_one(ItemView::Tree(arg));
    lemma_sources_append(held, seq![ItemView::Tree(arg)]);
    let held = held + seq![ItemView::Tree(arg)];
    lemma_opt_token_items(close);
    lemma_sources_append(held, opt_token_items(close));
    let held = held + opt_token_items(close);
}

/// The items that `OprApp` holds read as it does.
proof fn lemma_items_of_opr_app(
    lhs: Option<TreeView>,
    opr: OperatorOrErrorView,
    rhs: Option<TreeView>,
)
    ensures
        ItemView::sources(
            (VariantView::OprApp { lhs, opr, rhs }).items()
        ) == (VariantView::OprApp { lhs, opr, rhs }).source(),
{
    lemma_opt_tree_items(lhs);
    let held = opt_tree_items(lhs);
    lemma_operator_or_error_items(opr);
    lemma_sources_append(held, operator_or_error_items(opr));
    let held = held + operator_or_error_items(opr);
    lemma_opt_tree_items(rhs);
    lemma_sources_append(held, opt_tree_items(rhs));
    let held = held + opt_tree_items(rhs);
}

/// The items that `UnaryOprApp` holds read as it does.
proof fn lemma_items_of_unary_opr_app(opr: TokenView<token::Operator>, rhs: Option<TreeView>)
    ensures
        ItemView::sources(
            (VariantView::UnaryOprApp { opr, rhs }).items()
        ) == (VariantView::UnaryOprApp { opr, rhs }).source(),
{
    lemma_sources_one(opr.item());
    let held = seq![opr.item()];
    lemma_opt_tree_items(rhs);
    lemma_sources_append(held, opt_tree_items(rhs));
    let held = held + opt_tree_items(rhs);
}

/// The items that `AutoscopedIdentifier` holds read as it does.
proof fn lemma_items_of_autoscoped_identifier(
    opr: TokenView<token::Operator>,
    ident: TokenView<token::Ident>,
)
    ensures
        ItemView::sources(
            (VariantView::AutoscopedIdentifier { opr, ident }).items()
        ) == (VariantView::AutoscopedIdentifier { opr, ident }).source(),
{
    lemma_sources_one(opr.item());
    let held = seq![opr.item()];
    lemma_sources_one(ident.item());
    lemma_sources_append(held, seq![ident.item()]);
    let held = held + seq![ident.item()];
}

/// The items that `OprSectionBoundary` holds read as it does.
proof fn lemma_items_of_opr_section_boundary(arguments: u32, ast: TreeView)
    ensures
        ItemView::sources(
            (VariantView::OprSectionBoundary { arguments, ast }).items()
        ) == (VariantView::OprSectionBoundary { arguments, ast }).source(),
{
    lemma_sources_one(ItemView::Tree(ast));
    let held = seq![ItemView::Tree(ast)];
}

/// The items that `TemplateFunction` holds read as it does.
proof fn lemma_items_of_template_function(arguments: u32, ast: TreeView)
    ensures
        ItemView::sources(
            (VariantView::TemplateFunction { arguments, ast }).items()
        ) == (VariantView::TemplateFunction { arguments, ast }).source(),
{
    lemma_sources_one(ItemView::Tree(ast));
    let held = seq![ItemView::Tree(ast)];
}

/// The items that `MultiSegmentApp` holds read as it does.
proof fn lemma_items_of_multi_segment_app(segments: Seq<MultiSegmentAppSegmentView>)
    ensures
        ItemView::sources(
            (VariantView::MultiSegmentApp { segments }).items()
        ) == (VariantView::MultiSegmentApp { segments }).source(),
{
    MultiSegmentAppSegmentView::lemma_all_items(segments);
    let held = MultiSegmentAppSegmentView::all_items(segments);
}

/// The items that `TypeDef` holds read as it does.
proof fn lemma_items_of_type_def(
    keyword: TokenView<token::Ident>,
    name: TokenView<token::Ident>,
    params: Seq<ArgumentDefinitionView>,
    body: Seq<LineView>,
)
    ensures
        ItemView::sources(
            (VariantView::TypeDef { keyword, name, params, body }).items()
        ) == (VariantView::TypeDef { keyword, name, params, body }).source(),
{
    lemma_sources_one(keyword.item());
    let held = seq![keyword.item()];
    lemma_sources_one(name.item());
    lemma_sources_append(held, seq![name.item()]);
    let held = held + seq![name.item()];
    ArgumentDefinitionView::lemma_all_items(params);
    lemma_sources_append(held, ArgumentDefinitionView::all_items(params));
    let held = held + ArgumentDefinitionView::all_items(params);
    LineView::lemma_all_items(body);
    lemma_sources_append(held, LineView::all_items(body));
    let held = held + LineView::all_items(body);
}

/// The items that `Assignment` holds read as it does.
proof fn lemma_items_of_assignment(
    pattern: TreeView,
    equals: TokenView<token::Operator>,
    expr: TreeView,
)
    ensures
        ItemView::sources(
            (VariantView::Assignment { pattern, equals, expr }).items()
        ) == (VariantView::Assignment { pattern, equals, expr }).source(),
{
    lemma_sources_one(ItemView::Tree(pattern));
    let held = seq![ItemView::Tree(pattern)];
    lemma_sources_one(equals.item());
    lemma_sources_append(held, seq![equals.item()]);
    let held = held + seq![equals.item()];
    lemma_sources_one(ItemView::Tree(expr));
    lemma_sources_append(held, seq![ItemView::Tree(expr)]);
    let held = held + seq![ItemView::Tree(expr)];
}

/// The items that `Function` holds read as it does.
proof fn lemma_items_of_function(
    name: TreeView,
    args: Seq<ArgumentDefinitionView>,
    returns_: Option<ReturnSpecificationView>,
    equals: TokenView<token::Operator>,
    body: Option<TreeView>,
)
    ensures
        ItemView::sources(
            (VariantView::Function { name, args, returns_, equals, body }).items()
        ) == (VariantView::Function { name, args, returns_, equals, body }).source(),
{
    lemma_sources_one(ItemView::Tree(name));
    let held = seq![ItemView::Tree(name)];
    ArgumentDefinitionView::lemma_all_items(args);
    lemma_sources_append(held, ArgumentDefinitionView::all_items(args));
    let held = held + ArgumentDefinitionView::all_items(args);
    match returns_ {
        Some(x) => x.lemma_items(),
        None => lemma_sources_none(),
    }
    lemma_sources_append(held, (match returns_ { Some(x) => x.items(), None => Seq::empty(), }));
    let held = held + (match returns_ { Some(x) => x.items(), None => Seq::empty(), });
    lemma_sources_one(equals.item());
    lemma_sources_append(held, seq![equals.item()]);
    let held = held + seq![equals.item()];
    lemma_opt_tree_items(body);
    lemma_sources_append(held, opt_tree_items(body));
    let held = held + opt_tree_items(body);
}

/// The items that `ForeignFunction` holds read as it does.
proof fn lemma_items_of_foreign_function(
    foreign: TokenView<token::Ident>,
    language: TokenView<token::Ident>,
    name: TokenView<token::Ident>,
    args: Seq<ArgumentDefinitionView>,
    equals: TokenView<token::Operator>,
    body: TreeView,
)
    ensures
        ItemView::sources(
            (VariantView::ForeignFunction { foreign, language, name, args, equals, body }).items()
        ) == (
            VariantView::ForeignFunction { foreign, language, name, args, equals, body }
        ).source(),
{
    lemma_sources_one(foreign.item());
    let held = seq![foreign.item()];
    lemma_sources_one(language.item());
    lemma_sources_append(held, seq![language.item()]);
    let held = held + seq![language.item()];
    lemma_sources_one(name.item());
    lemma_sources_append(held, seq![name.item()]);
    let held = held + seq![name.item()];
    ArgumentDefinitionView::lemma_all_items(args);
    lemma_sources_append(held, ArgumentDefinitionView::all_items(args));
    let held = held + ArgumentDefinitionView::all_items(args);
    lemma_sources_one(equals.item());
    lemma_sources_append(held, seq![equals.item()]);
    let held = held + seq![equals.item()];
    lemma_sources_one(ItemView::Tree(body));
    lemma_sources_append(held, seq![ItemView::Tree(body)]);
    let held = held + seq![ItemView::Tree(body)];
}

/// The items that `Import` holds read as it does.
proof fn lemma_items_of_import(
    polyglot: Option<MultiSegmentAppSegmentView>,
    from: Option<MultiSegmentAppSegmentView>,
    import: MultiSegmentAppSegmentView,
    all: Option<TokenView<token::Ident>>,
    as_: Option<MultiSegmentAppSegmentView>,
    hiding: Option<MultiSegmentAppSegmentView>,
)
    ensures
        ItemView::sources(
            (VariantView::Import { polyglot, from, import, all, as_, hiding }).items()
        ) == (VariantView::Import { polyglot, from, import, all, as_, hiding }).source(),
{
    match polyglot {
        Some(x) => x.lemma_items(),
        None => lemma_sources_none(),
    }
    let held = (match polyglot { Some(x) => x.items(), None => Seq::empty(), });
    match from {
        Some(x) => x.lemma_items(),
        None => lemma_sources_none(),
    }
    lemma_sources_append(held, (match from { Some(x) => x.items(), None => Seq::empty(), }));
    let held = held + (match from { Some(x) => x.items(), None => Seq::empty(), });
    import.lemma_items();
    lemma_sources_append(held, import.items());
    let held = held + import.items();
    lemma_opt_token_items(all);
    lemma_sources_append(held, opt_token_items(all));
    let held = held + opt_token_items(all);
    match as_ {
        Some(x) => x.lemma_items(),
        None => lemma_sources_none(),
    }
    lemma_sources_append(held, (match as_ { Some(x) => x.items(), None => Seq::empty(), }));
    let held = held + (match as_ { Some(x) => x.items(), None => Seq::empty(), });
    match hiding {
        Some(x) => x.lemma_items(),
        None => lemma_sources_none(),
    }
    lemma_sources_append(held, (match hiding { Some(x) => x.items(), None => Seq::empty(), }));
    let held = held + (match hiding { Some(x) => x.items(), None => Seq::empty(), });
}

/// The items that `Export` holds read as it does.
proof fn lemma_items_of_export(
    from: Option<MultiSegmentAppSegmentView>,
    export: MultiSegmentAppSegmentView,
    all: Option<TokenView<token::Ident>>,
    as_: Option<MultiSegmentAppSegmentView>,
    hiding: Option<MultiSegmentAppSegmentView>,
)
    ensures
        ItemView::sources(
            (VariantView::Export { from, export, all, as_, hiding }).items()
        ) == (VariantView::Export { from, export, all, as_, hiding }).source(),
{
    match from {
        Some(x) => x.lemma_items(),
        None => lemma_sources_none(),
    }
    let held = (match from { Some(x) => x.items(), None => Seq::empty(), });
    export.lemma_items();
    lemma_sources_append(held, export.items());
    let held = held + export.items();
    lemma_opt_token_items(all);
    lemma_sources_append(held, opt_token_items(all));
    let held = held + opt_token_items(all);
    match as_ {
        Some(x) => x.lemma_items(),
        None => lemma_sources_none(),
    }
    lemma_sources_append(held, (match as_ { Some(x) => x.items(), None => Seq::empty(), }));
    let held = held + (match as_ { Some(x) => x.items(), None => Seq::empty(), });
    match hiding {
        Some(x) => x.lemma_items(),
        None => lemma_sources_none(),
    }
    lemma_sources_append(held, (match hiding { Some(x) => x.items(), None => Seq::empty(), }));
    let held = held + (match hiding { Some(x) => x.items(), None => Seq::empty(), });
}

/// The items that `Group` holds read as it does.
proof fn lemma_items_of_group(
    open: Option<TokenView<token::OpenSymbol>>,
    body: Option<TreeView>,
    close: Option<TokenView<token::CloseSymbol>>,
)
    ensures
        ItemView::sources(
            (VariantView::Group { open, body, close }).items()
        ) == (VariantView::Group { open, body, close }).source(),
{
    lemma_opt_token_items(open);
    let held = opt_token_items(open);
    lemma_opt_tree_items(body);
    lemma_sources_append(held, opt_tree_items(body));
    let held = held + opt_tree_items(body);
    lemma_opt_token_items(close);
    lemma_sources_append(held, opt_token_items(close));
    let held = held + opt_token_items(close);
}

/// The items that `TypeSignature` holds read as it does.
proof fn lemma_items_of_type_signature(
    variable: TreeView,
    operator: TokenView<token::Operator>,
    type_: TreeView,
)
    ensures
        ItemView::sources(
            (VariantView::TypeSignature { variable, operator, type_ }).items()
        ) == (VariantView::TypeSignature { variable, operator, type_ }).source(),
{
    lemma_sources_one(ItemView::Tree(variable));
    let held = seq![ItemView::Tree(variable)];
    lemma_sources_one(operator.item());
    lemma_sources_append(held, seq![operator.item()]);
    let held = held + seq![operator.item()];
    lemma_sources_one(ItemView::Tree(type_));
    lemma_sources_append(held, seq![ItemView::Tree(type_)]);
    let held = held + seq![ItemView::Tree(type_)];
}

/// The items that `TypeAnnotated` holds read as it does.
proof fn lemma_items_of_type_annotated(
    expression: TreeView,
    operator: TokenView<token::Operator>,
    type_: TreeView,
)
    ensures
        ItemView::sources(
            (VariantView::TypeAnnotated { expression, operator, type_ }).items()
        ) == (VariantView::TypeAnnotated { expression, operator, type_ }).source(),
{
    lemma_sources_one(ItemView::Tree(expression));
    let held = seq![ItemView::Tree(expression)];
    lemma_sources_one(operator.item());
    lemma_sources_append(held, seq![operator.item()]);
    let held = held + seq![operator.item()];
    lemma_sources_one(ItemView::Tree(type_));
    lemma_sources_append(held, seq![ItemView::Tree(type_)]);
    let held = held + seq![ItemView::Tree(type_)];
}

/// The items that `CaseOf` holds read as it does.
proof fn lemma_items_of_case_of(
    case: TokenView<token::Ident>,
    expression: Option<TreeView>,
    of: TokenView<token::Ident>,
    cases: Seq<CaseLineView>,
)
    ensures
        ItemView::sources(
            (VariantView::CaseOf { case, expression, of, cases }).items()
        ) == (VariantView::CaseOf { case, expression, of, cases }).source(),
{
    lemma_sources_one(case.item());
    let held = seq![case.item()];
    lemma_opt_tree_items(expression);
    lemma_sources_append(held, opt_tree_items(expression));
    let held = held + opt_tree_items(expression);
    lemma_sources_one(of.item());
    lemma_sources_append(held, seq![of.item()]);
    let held = held + seq![of.item()];
    CaseLineView::lemma_all_items(cases);
    lemma_sources_append(held, CaseLineView::all_items(cases));
    let held = held + CaseLineView::all_items(cases);
}

/// The items that `Lambda` holds read as it does.
proof fn lemma_items_of_lambda(operator: TokenView<token::Operator>, arrow: Option<TreeView>)
    ensures
        ItemView::sources(
            (VariantView::Lambda { operator, arrow }).items()
        ) == (VariantView::Lambda { operator, arrow }).source(),
{
    lemma_sources_one(operator.item());
    let held = seq![operator.item()];
    lemma_opt_tree_items(arrow);
    lemma_sources_append(held, opt_tree_items(arrow));
    let held = held + opt_tree_items(arrow);
}

/// The items that `Array` holds read as it does.
proof fn lemma_items_of_array(
    left: TokenView<token::OpenSymbol>,
    first: Option<TreeView>,
    rest: Seq<OperatorDelimitedTreeView>,
    right: TokenView<token::CloseSymbol>,
)
    ensures
        ItemView::sources(
            (VariantView::Array { left, first, rest, right }).items()
        ) == (VariantView::Array { left, first, rest, right }).source(),
{
    lemma_sources_one(left.item());
    let held = seq![left.item()];
    lemma_opt_tree_items(first);
    lemma_sources_append(held, opt_tree_items(first));
    let held = held + opt_tree_items(first);
    OperatorDelimitedTreeView::lemma_all_items(rest);
    lemma_sources_append(held, OperatorDelimitedTreeView::all_items(rest));
    let held = held + OperatorDelimitedTreeView::all_items(rest);
    lemma_sources_one(right.item());
    lemma_sources_append(held, seq![right.item()]);
    let held = held + seq![right.item()];
}

/// The items that `Tuple` holds read as it does.
proof fn lemma_items_of_tuple(
    left: TokenView<token::OpenSymbol>,
    first: Option<TreeView>,
    rest: Seq<OperatorDelimitedTreeView>,
    right: TokenView<token::CloseSymbol>,
)
    ensures
        ItemView::sources(
            (VariantView::Tuple { left, first, rest, right }).items()
        ) == (VariantView::Tuple { left, first, rest, right }).source(),
{
    lemma_sources_one(left.item());
    let held = seq![left.item()];
    lemma_opt_tree_items(first);
    lemma_sources_append(held, opt_tree_items(first));
    let held = held + opt_tree_items(first);
    OperatorDelimitedTreeView::lemma_all_items(rest);
    lemma_sources_append(held, OperatorDelimitedTreeView::all_items(rest));
    let held = held + OperatorDelimitedTreeView::all_items(rest);
    lemma_sources_one(right.item());
    lemma_sources_append(held, seq![right.item()]);
    let held = held + seq![right.item()];
}

/// The items that `Annotated` holds read as it does.
proof fn lemma_items_of_annotated(
    token: TokenView<token::Operator>,
    annotation: TokenView<token::Ident>,
    argument: Option<TreeView>,
    newlines: Seq<TokenView<token::Newline>>,
    expression: Option<TreeView>,
)
    ensures
        ItemView::sources(
            (VariantView::Annotated { token, annotation, argument, newlines, expression }).items()
        ) == (
            VariantView::Annotated { token, annotation, argument, newlines, expression }
        ).source(),
{
    lemma_sources_one(token.item());
    let held = seq![token.item()];
    lemma_sources_one(annotation.item());
    lemma_sources_append(held, seq![annotation.item()]);
    let held = held + seq![annotation.item()];
    lemma_opt_tree_items(argument);
    lemma_sources_append(held, opt_tree_items(argument));
    let held = held + opt_tree_items(argument);
    lemma_tokens_items(newlines);
    lemma_sources_append(held, tokens_items(newlines));
    let held = held + tokens_items(newlines);
    lemma_opt_tree_items(expression);
    lemma_sources_append(held, opt_tree_items(expression));
    let held = held + opt_tree_items(expression);
}

/// The items that `AnnotatedBuiltin` holds read as it does.
proof fn lemma_items_of_annotated_builtin(
    token: TokenView<token::Operator>,
    annotation: TokenView<token::Ident>,
    newlines: Seq<TokenView<token::Newline>>,
    expression: Option<TreeView>,
)
    ensures
        ItemView::sources(
            (VariantView::AnnotatedBuiltin { token, annotation, newlines, expression }).items()
        ) == (VariantView::AnnotatedBuiltin { token, annotation, newlines, expression }).source(),
{
    lemma_sources_one(token.item());
    let held = seq![token.item()];
    lemma_sources_one(annotation.item());
    lemma_sources_append(held, seq![annotation.item()]);
    let held = held + seq![annotation.item()];
    lemma_tokens_items(newlines);
    lemma_sources_append(held, tokens_items(newlines));
    let held = held + tokens_items(newlines);
    lemma_opt_tree_items(expression);
    lemma_sources_append(held, opt_tree_items(expression));
    let held = held + opt_tree_items(expression);
}

/// The items that `Documented` holds read as it does.
proof fn lemma_items_of_documented(documentation: DocCommentView, expression: Option<TreeView>)
    ensures
        ItemView::sources(
            (VariantView::Documented { documentation, expression }).items()
        ) == (VariantView::Documented { documentation, expression }).source(),
{
    documentation.lemma_items();
    let held = documentation.items();
    lemma_opt_tree_items(expression);
    lemma_sources_append(held, opt_tree_items(expression));
    let held = held + opt_tree_items(expression);
}

/// The items that `ConstructorDefinition` holds read as it does.
proof fn lemma_items_of_constructor_definition(
    constructor: TokenView<token::Ident>,
    arguments: Seq<ArgumentDefinitionView>,
    block: Seq<ArgumentDefinitionLineView>,
)
    ensures
        ItemView::sources(
            (VariantView::ConstructorDefinition { constructor, arguments, block }).items()
        ) == (VariantView::ConstructorDefinition { constructor, arguments, block }).source(),
{
    lemma_sources_one(constructor.item());
    let held = seq![constructor.item()];
    ArgumentDefinitionView::lemma_all_items(arguments);
    lemma_sources_append(held, ArgumentDefinitionView::all_items(arguments));
    let held = held + ArgumentDefinitionView::all_items(arguments);
    ArgumentDefinitionLineView::lemma_all_items(block);
    lemma_sources_append(held, ArgumentDefinitionLineView::all_items(block));
    let held = held + ArgumentDefinitionLineView::all_items(block);
}

impl VariantView {
    /// The items that the value holds read as the value does.
    pub proof fn lemma_items(self)
        ensures
            ItemView::sources(self.items()) == self.source(),
    {
        match self {
            VariantView::Invalid { error, ast } => {
                lemma_items_of_invalid(error, ast);
            },
            VariantView::BodyBlock { statements } => {
                lemma_items_of_body_block(statements);
            },
            VariantView::ArgumentBlockApplication { lhs, arguments } => {
                lemma_items_of_argument_block_application(lhs, arguments);
            },
            VariantView::OperatorBlockApplication { lhs, expressions, excess } => {
                lemma_items_of_operator_block_application(lhs, expressions, excess);
            },
            VariantView::Ident { token } => {
                lemma_items_of_ident(token);
            },
            VariantView::Private { keyword, body } => {
                lemma_items_of_private(keyword, body);
            },
            VariantView::Number { base, integer, fractional_digits } => {
                lemma_items_of_number(base, integer, fractional_digits);
            },
            VariantView::Wildcard { token, de_bruijn_index } => {
                lemma_items_of_wildcard(token, de_bruijn_index);
            },
            VariantView::SuspendedDefaultArguments { token } => {
                lemma_items_of_suspended_default_arguments(token);
            },
            VariantView::TextLiteral { open, newline, elements, close, closed } => {
                lemma_items_of_text_literal(open, newline, elements, close, closed);
            },
            VariantView::App { func, arg } => {
                lemma_items_of_app(func, arg);
            },
            VariantView::NamedApp { func, open, name, equals, arg, close } => {
                lemma_items_of_named_app(func, open, name, equals, arg, close);
            },
            VariantView::OprApp { lhs, opr, rhs } => {
                lemma_items_of_opr_app(lhs, opr, rhs);
            },
            VariantView::UnaryOprApp { opr, rhs } => {
                lemma_items_of_unary_opr_app(opr, rhs);
            },
            VariantView::AutoscopedIdentifier { opr, ident } => {
                lemma_items_of_autoscoped_identifier(opr, ident);
            },
            VariantView::OprSectionBoundary { arguments, ast } => {
                lemma_items_of_opr_section_boundary(arguments, ast);
            },
            VariantView::TemplateFunction { arguments, ast } => {
                lemma_items_of_template_function(arguments, ast);
            },
            VariantView::MultiSegmentApp { segments } => {
                lemma_items_of_multi_segment_app(segments);
            },
            VariantView::TypeDef { keyword, name, params, body } => {
                lemma_items_of_type_def(keyword, name, params, body);
            },
            VariantView::Assignment { pattern, equals, expr } => {
                lemma_items_of_assignment(pattern, equals, expr);
            },
            VariantView::Function { name, args, returns_, equals, body } => {
                lemma_items_of_function(name, args, returns_, equals, body);
            },
            VariantView::ForeignFunction { foreign, language, name, args, equals, body } => {
                lemma_items_of_foreign_function(foreign, language, name, args, equals, body);
            },
            VariantView::Import { polyglot, from, import, all, as_, hiding } => {
                lemma_items_of_import(polyglot, from, import, all, as_, hiding);
            },
            VariantView::Export { from, export, all, as_, hiding } => {
                lemma_items_of_export(from, export, all, as_, hiding);
            },
            VariantView::Group { open, body, close } => {
                lemma_items_of_group(open, body, close);
            },
            VariantView::TypeSignature { variable, operator, type_ } => {
                lemma_items_of_type_signature(variable, operator, type_);
            },
            VariantView::TypeAnnotated { expression, operator, type_ } => {
                lemma_items_of_type_annotated(expression, operator, type_);
            },
            VariantView::CaseOf { case, expression, of, cases } => {
                lemma_items_of_case_of(case, expression, of, cases);
            },
            VariantView::Lambda { operator, arrow } => {
                lemma_items_of_lambda(operator, arrow);
            },
            VariantView::Array { left, first, rest, right } => {
                lemma_items_of_array(left, first, rest, right);
            },
            VariantView::Tuple { left, first, rest, right } => {
                lemma_items_of_tuple(left, first, rest, right);
            },
            VariantView::Annotated { token, annotation, argument, newlines, expression } => {
                lemma_items_of_annotated(token, annotation, argument, newlines, expression);
            },
            VariantView::AnnotatedBuiltin { token, annotation, newlines, expression } => {
                lemma_items_of_annotated_builtin(token, annotation, newlines, expression);
            },
            VariantView::Documented { documentation, expression } => {
                lemma_items_of_documented(documentation, expression);
            },
            VariantView::ConstructorDefinition { constructor, arguments, block } => {
                lemma_items_of_constructor_definition(constructor, arguments, block);
            },
        }
    }
}

/// The printing visitor, when it has been handed the first `upto` of the
/// tokens, has written down their source text behind what it had.
pub proof fn lemma_printed_tokens<T>(state: Seq<char>, tokens: Seq<TokenView<T>>, upto: nat)
    requires
        upto <= tokens.len(),
    ensures
        walked_tokens::<CodePrinterVisitor, T>(state, tokens, upto) == state + concat(
            token_sources(tokens).subrange(0, upto as int),
        ),
    decreases upto,
{
    let parts = token_sources(tokens);
    if upto == 0 {
        assert(parts.subrange(0, 0) =~= Seq::<Seq<char>>::empty());
        assert(state + concat(parts.subrange(0, 0)) =~= state);
    } else {
        let before = (upto - 1) as nat;
        lemma_printed_tokens(state, tokens, before);
        assert(parts.subrange(0, upto as int).drop_last() =~= parts.subrange(0, before as int));
        lemma_appended(state, concat(parts.subrange(0, before as int)), tokens[upto - 1].source());
    }
}

impl TreeView {
    /// The printing visitor, when it has walked a node, has written down the
    /// source text of the node behind what it had: walking a tree with it reads
    /// the source text back.
    pub proof fn lemma_printed(self, state: Seq<char>)
        ensures
            self.walked::<CodePrinterVisitor>(state) == state + self.source(),
        decreases self,
    {
        (*self.variant).lemma_printed(state + self.span.left_offset);
        lemma_appended(state, self.span.left_offset, (*self.variant).source());
    }
}

/// The printing visitor writes down the source text of `Invalid`.
proof fn lemma_printed_invalid(node: VariantView, state: Seq<char>)
    requires
        (node is Invalid),
    ensures
        node.walked::<CodePrinterVisitor>(state) == state + node.source(),
    decreases node, 0int,
{
    match node {
        VariantView::Invalid { error, ast } => {
            ast.lemma_printed(state);
            let state1 = ast.walked::<CodePrinterVisitor>(state);
            assert(state1 =~= state + ast.source());
            let held = ast.source();
        },
        _ => {},
    }
}

/// The printing visitor writes down the source text of `BodyBlock`.
proof fn lemma_printed_body_block(node: VariantView, state: Seq<char>)
    requires
        (node is BodyBlock),
    ensures
        node.walked::<CodePrinterVisitor>(state) == state + node.source(),
    decreases node, 0int,
{
    match node {
        VariantView::BodyBlock { statements } => {
            LineView::lemma_printed_all(state, statements, statements.len());
            assert(
                LineView::source_parts(
                    statements
                ).subrange(0, statements.len() as int) =~= LineView::source_parts(statements)
            );
            let state1 = LineView::walked_all::<CodePrinterVisitor>(
                state,
                statements,
                statements.len(),
            );
            assert(state1 =~= state + LineView::sources(statements));
            let held = LineView::sources(statements);
        },
        _ => {},
    }
}

/// The printing visitor writes down the source text of `ArgumentBlockApplication`.
proof fn lemma_printed_argument_block_application(node: VariantView, state: Seq<char>)
    requires
        (node is ArgumentBlockApplication),
    ensures
        node.walked::<CodePrinterVisitor>(state) == state + node.source(),
    decreases node, 0int,
{
    match node {
        VariantView::ArgumentBlockApplication { lhs, arguments } => {
            match lhs {
                Some(x) => x.lemma_printed(state),
                None => {},
            }
            let state1 = (
                match lhs { Some(x) => x.walked::<CodePrinterVisitor>(state), None => state, }
            );
            assert(state1 =~= state + (match lhs { Some(x) => x.source(), None => Seq::empty(), }));
            let held = (match lhs { Some(x) => x.source(), None => Seq::empty(), });
            LineView::lemma_printed_all(state1, arguments, arguments.len());
            assert(
                LineView::source_parts(
                    arguments
                ).subrange(0, arguments.len() as int) =~= LineView::source_parts(arguments)
            );
            let state2 = LineView::walked_all::<CodePrinterVisitor>(
                state1,
                arguments,
                arguments.len(),
            );
            assert(state2 =~= state1 + LineView::sources(arguments));
            lemma_appended(state, held, LineView::sources(arguments));
            let held = held + LineView::sources(arguments);
        },
        _ => {},
    }
}

/// The printing visitor writes down the source text of `OperatorBlockApplication`.
proof fn lemma_printed_operator_block_application(node: VariantView, state: Seq<char>)
    requires
        (node is OperatorBlockApplication),
    ensures
        node.walked::<CodePrinterVisitor>(state) == state + node.source(),
    decreases node, 0int,
{
    match node {
        VariantView::OperatorBlockApplication { lhs, expressions, excess } => {
            match lhs {
                Some(x) => x.lemma_printed(state),
                None => {},
            }
            let state1 = (
                match lhs { Some(x) => x.walked::<CodePrinterVisitor>(state), None => state, }
            );
            assert(state1 =~= state + (match lhs { Some(x) => x.source(), None => Seq::empty(), }));
            let held = (match lhs { Some(x) => x.source(), None => Seq::empty(), });
            OperatorLineView::lemma_printed_all(state1, expressions, expressions.len());
            assert(
                OperatorLineView::source_parts(
                    expressions
                ).subrange(
                    0,
                    expressions.len() as int,
                ) =~= OperatorLineView::source_parts(expressions)
            );
            let state2 = OperatorLineView::walked_all::<CodePrinterVisitor>(
                state1,
                expressions,
                expressions.len(),
            );
            assert(state2 =~= state1 + OperatorLineView::sources(expressions));
            lemma_appended(state, held, OperatorLineView::sources(expressions));
            let held = held + OperatorLineView::sources(expressions);
            LineView::lemma_printed_all(state2, excess, excess.len());
            assert(
                LineView::source_parts(
                    excess
                ).subrange(0, excess.len() as int) =~= LineView::source_parts(excess)
            );
            let state3 = LineView::walked_all::<CodePrinterVisitor>(state2, excess, excess.len());
            assert(state3 =~= state2 + LineView::sources(excess));
            lemma_appended(state, held, LineView::sources(excess));
            let held = held + LineView::sources(excess);
        },
        _ => {},
    }
}

/// The printing visitor writes down the source text of `Ident`.
proof fn lemma_printed_ident(node: VariantView, state: Seq<char>)
    requires
        (node is Ident),
    ensures
        node.walked::<CodePrinterVisitor>(state) == state + node.source(),
    decreases node, 0int,
{
    match node {
        VariantView::Ident { token } => {
            let state1 = CodePrinterVisitor::step(state, token.item()).0;
            assert(state1 =~= state + token.source());
            let held = token.source();
        },
        _ => {},
    }
}

/// The printing visitor writes down the source text of `Private`.
proof fn lemma_printed_private(node: VariantView, state: Seq<char>)
    requires
        (node is Private),
    ensures
        node.walked::<CodePrinterVisitor>(state) == state + node.source(),
    decreases node, 0int,
{
    match node {
        VariantView::Private { keyword, body } => {
            let state1 = CodePrinterVisitor::step(state, keyword.item()).0;
            assert(state1 =~= state + keyword.source());
            let held = keyword.source();
            match body {
                Some(x) => x.lemma_printed(state1),
                None => {},
            }
            let state2 = (
                match body { Some(x) => x.walked::<CodePrinterVisitor>(state1), None => state1, }
            );
            assert(
                state2 =~= state1 + (match body { Some(x) => x.source(), None => Seq::empty(), })
            );
            lemma_appended(
                state,
                held,
                (match body { Some(x) => x.source(), None => Seq::empty(), }),
            );
            let held = held + (match body { Some(x) => x.source(), None => Seq::empty(), });
        },
        _ => {},
    }
}

/// The printing visitor writes down the source text of `Number`.
proof fn lemma_printed_number(node: VariantView, state: Seq<char>)
    requires
        (node is Number),
    ensures
        node.walked::<CodePrinterVisitor>(state) == state + node.source(),
    decreases node, 0int,
{
    match node {
        VariantView::Number { base, integer, fractional_digits } => {
            let state1 = walked_opt_token::<CodePrinterVisitor, _>(state, base);
            assert(state1 =~= state + opt_token_source(base));
            let held = opt_token_source(base);
            let state2 = walked_opt_token::<CodePrinterVisitor, _>(state1, integer);
            assert(state2 =~= state1 + opt_token_source(integer));
            lemma_appended(state, held, opt_token_source(integer));
            let held = held + opt_token_source(integer);
            match fractional_digits {
                Some(x) => x.lemma_printed(state2),
                None => {},
            }
            let state3 = (
                match fractional_digits {
                    Some(x) => x.walked::<CodePrinterVisitor>(state2),
                    None => state2,
                }
            );
            assert(
                state3 =~= state2 + (
                    match fractional_digits { Some(x) => x.source(), None => Seq::empty(), }
                )
            );
            lemma_appended(
                state,
                held,
                (match fractional_digits { Some(x) => x.source(), None => Seq::empty(), }),
            );
            let held = held + (
                match fractional_digits { Some(x) => x.source(), None => Seq::empty(), }
            );
        },
        _ => {},
    }
}

/// The printing visitor writes down the source text of `Wildcard`.
proof fn lemma_printed_wildcard(node: VariantView, state: Seq<char>)
    requires
        (node is Wildcard),
    ensures
        node.walked::<CodePrinterVisitor>(state) == state + node.source(),
    decreases node, 0int,
{
    match node {
        VariantView::Wildcard { token, de_bruijn_index } => {
            let state1 = CodePrinterVisitor::step(state, token.item()).0;
            assert(state1 =~= state + token.source());
            let held = token.source();
        },
        _ => {},
    }
}

/// The printing visitor writes down the source text of `SuspendedDefaultArguments`.
proof fn lemma_printed_suspended_default_arguments(node: VariantView, state: Seq<char>)
    requires
        (node is SuspendedDefaultArguments),
    ensures
        node.walked::<CodePrinterVisitor>(state) == state + node.source(),
    decreases node, 0int,
{
    match node {
        VariantView::SuspendedDefaultArguments { token } => {
            let state1 = CodePrinterVisitor::step(state, token.item()).0;
            assert(state1 =~= state + token.source());
            let held = token.source();
        },
        _ => {},
    }
}

/// The printing visitor writes down the source text of `TextLiteral`.
proof fn lemma_printed_text_literal(node: VariantView, state: Seq<char>)
    requires
        (node is TextLiteral),
    ensures
        node.walked::<CodePrinterVisitor>(state) == state + node.source(),
    decreases node, 0int,
{
    match node {
        VariantView::TextLiteral { open, newline, elements, close, closed } => {
            let state1 = walked_opt_token::<CodePrinterVisitor, _>(state, open);
            assert(state1 =~= state + opt_token_source(open));
            let held = opt_token_source(open);
            let state2 = walked_opt_token::<CodePrinterVisitor, _>(state1, newline);
            assert(state2 =~= state1 + opt_token_source(newline));
            lemma_appended(state, held, opt_token_source(newline));
            let held = held + opt_token_source(newline);
            TextElementView::lemma_printed_all(state2, elements, elements.len());
            assert(
                TextElementView::source_parts(
                    elements
                ).subrange(0, elements.len() as int) =~= TextElementView::source_parts(elements)
            );
            let state3 = TextElementView::walked_all::<CodePrinterVisitor>(
                state2,
                elements,
                elements.len(),
            );
            assert(state3 =~= state2 + TextElementView::sources(elements));
            lemma_appended(state, held, TextElementView::sources(elements));
            let held = held + TextElementView::sources(elements);
            let state4 = walked_opt_token::<CodePrinterVisitor, _>(state3, close);
            assert(state4 =~= state3 + opt_token_source(close));
            lemma_appended(state, held, opt_token_source(close));
            let held = held + opt_token_source(close);
        },
        _ => {},
    }
}

/// The printing visitor writes down the source text of `App`.
proof fn lemma_printed_app(node: VariantView, state: Seq<char>)
    requires
        (node is App),
    ensures
        node.walked::<CodePrinterVisitor>(state) == state + node.source(),
    decreases node, 0int,
{
    match node {
        VariantView::App { func, arg } => {
            func.lemma_printed(state);
            let state1 = func.walked::<CodePrinterVisitor>(state);
            assert(state1 =~= state + func.source());
            let held = func.source();
            arg.lemma_printed(state1);
            let state2 = arg.walked::<CodePrinterVisitor>(state1);
            assert(state2 =~= state1 + arg.source());
            lemma_appended(state, held, arg.source());
            let held = held + arg.source();
        },
        _ => {},
    }
}

/// The printing visitor writes down the source text of `NamedApp`.
proof fn lemma_printed_named_app(node: VariantView, state: Seq<char>)
    requires
        (node is NamedApp),
    ensures
        node.walked::<CodePrinterVisitor>(state) == state + node.source(),
    decreases node, 0int,
{
    match node {
        VariantView::NamedApp { func, open, name, equals, arg, close } => {
            func.lemma_printed(state);
            let state1 = func.walked::<CodePrinterVisitor>(state);
            assert(state1 =~= state + func.source());
            let held = func.source();
            let state2 = walked_opt_token::<CodePrinterVisitor, _>(state1, open);
            assert(state2 =~= state1 + opt_token_source(open));
            lemma_appended(state, held, opt_token_source(open));
            let held = held + opt_token_source(open);
            let state3 = CodePrinterVisitor::step(state2, name.item()).0;
            assert(state3 =~= state2 + name.source());
            lemma_appended(state, held, name.source());
            let held = held + name.source();
            let state4 = CodePrinterVisitor::step(state3, equals.item()).0;
            assert(state4 =~= state3 + equals.source());
            lemma_appended(state, held, equals.source());
            let held = held + equals.source();
            arg.lemma_printed(state4);
            let state5 = arg.walked::<CodePrinterVisitor>(state4);
            assert(state5 =~= state4 + arg.source());
            lemma_appended(state, held, arg.source());
            let held = held + arg.source();
            let state6 = walked_opt_token::<CodePrinterVisitor, _>(state5, close);
            assert(state6 =~= state5 + opt_token_source(close));
            lemma_appended(state, held, opt_token_source(close));
            let held = held + opt_token_source(close);
        },
        _ => {},
    }
}

/// The printing visitor writes down the source text of `OprApp`.
proof fn lemma_printed_opr_app(node: VariantView, state: Seq<char>)
    requires
        (node is OprApp),
    ensures
        node.walked::<CodePrinterVisitor>(state) == state + node.source(),
    decreases node, 0int,
{
    match node {
        VariantView::OprApp { lhs, opr, rhs } => {
            match lhs {
                Some(x) => x.lemma_printed(state),
                None => {},
            }
            let state1 = (
                match lhs { Some(x) => x.walked::<CodePrinterVisitor>(state), None => state, }
            );
            assert(state1 =~= state + (match lhs { Some(x) => x.source(), None => Seq::empty(), }));
            let held = (match lhs { Some(x) => x.source(), None => Seq::empty(), });
            match opr {
                Ok(_) => {},
                Err(x) => x.lemma_printed(state1),
            }
            let state2 = walked_operator_or_error::<CodePrinterVisitor>(state1, opr);
            assert(state2 =~= state1 + operator_or_error_source(opr));
            lemma_appended(state, held, operator_or_error_source(opr));
            let held = held + operator_or_error_source(opr);
            match rhs {
                Some(x) => x.lemma_printed(state2),
                None => {},
            }
            let state3 = (
                match rhs { Some(x) => x.walked::<CodePrinterVisitor>(state2), None => state2, }
            );
            assert(
                state3 =~= state2 + (match rhs { Some(x) => x.source(), None => Seq::empty(), })
            );
            lemma_appended(
                state,
                held,
                (match rhs { Some(x) => x.source(), None => Seq::empty(), }),
            );
            let held = held + (match rhs { Some(x) => x.source(), None => Seq::empty(), });
        },
        _ => {},
    }
}

/// The printing visitor writes down the source text of `UnaryOprApp`.
proof fn lemma_printed_unary_opr_app(node: VariantView, state: Seq<char>)
    requires
        (node is UnaryOprApp),
    ensures
        node.walked::<CodePrinterVisitor>(state) == state + node.source(),
    decreases node, 0int,
{
    match node {
        VariantView::UnaryOprApp { opr, rhs } => {
            let state1 = CodePrinterVisitor::step(state, opr.item()).0;
            assert(state1 =~= state + opr.source());
            let held = opr.source();
            match rhs {
                Some(x) => x.lemma_printed(state1),
                None => {},
            }
            let state2 = (
                match rhs { Some(x) => x.walked::<CodePrinterVisitor>(state1), None => state1, }
            );
            assert(
                state2 =~= state1 + (match rhs { Some(x) => x.source(), None => Seq::empty(), })
            );
            lemma_appended(
                state,
                held,
                (match rhs { Some(x) => x.source(), None => Seq::empty(), }),
            );
            let held = held + (match rhs { Some(x) => x.source(), None => Seq::empty(), });
        },
        _ => {},
    }
}

/// The printing visitor writes down the source text of `AutoscopedIdentifier`.
proof fn lemma_printed_autoscoped_identifier(node: VariantView, state: Seq<char>)
    requires
        (node is AutoscopedIdentifier),
    ensures
        node.walked::<CodePrinterVisitor>(state) == state + node.source(),
    decreases node, 0int,
{
    match node {
        VariantView::AutoscopedIdentifier { opr, ident } => {
            let state1 = CodePrinterVisitor::step(state, opr.item()).0;
            assert(state1 =~= state + opr.source());
            let held = opr.source();
            let state2 = CodePrinterVisitor::step(state1, ident.item()).0;
            assert(state2 =~= state1 + ident.source());
            lemma_appended(state, held, ident.source());
            let held = held + ident.source();
        },
        _ => {},
    }
}

/// The printing visitor writes down the source text of `OprSectionBoundary`.
proof fn lemma_printed_opr_section_boundary(node: VariantView, state: Seq<char>)
    requires
        (node is OprSectionBoundary),
    ensures
        node.walked::<CodePrinterVisitor>(state) == state + node.source(),
    decreases node, 0int,
{
    match node {
        VariantView::OprSectionBoundary { arguments, ast } => {
            ast.lemma_printed(state);
            let state1 = ast.walked::<CodePrinterVisitor>(state);
            assert(state1 =~= state + ast.source());
            let held = ast.source();
        },
        _ => {},
    }
}

/// The printing visitor writes down the source text of `TemplateFunction`.
proof fn lemma_printed_template_function(node: VariantView, state: Seq<char>)
    requires
        (node is TemplateFunction),
    ensures
        node.walked::<CodePrinterVisitor>(state) == state + node.source(),
    decreases node, 0int,
{
    match node {
        VariantView::TemplateFunction { arguments, ast } => {
            ast.lemma_printed(state);
            let state1 = ast.walked::<CodePrinterVisitor>(state);
            assert(state1 =~= state + ast.source());
            let held = ast.source();
        },
        _ => {},
    }
}

/// The printing visitor writes down the source text of `MultiSegmentApp`.
proof fn lemma_printed_multi_segment_app(node: VariantView, state: Seq<char>)
    requires
        (node is MultiSegmentApp),
    ensures
        node.walked::<CodePrinterVisitor>(state) == state + node.source(),
    decreases node, 0int,
{
    match node {
        VariantView::MultiSegmentApp { segments } => {
            MultiSegmentAppSegmentView::lemma_printed_all(state, segments, segments.len());
            assert(
                MultiSegmentAppSegmentView::source_parts(
                    segments
                ).subrange(
                    0,
                    segments.len() as int,
                ) =~= MultiSegmentAppSegmentView::source_parts(segments)
            );
            let state1 = MultiSegmentAppSegmentView::walked_all::<CodePrinterVisitor>(
                state,
                segments,
                segments.len(),
            );
            assert(state1 =~= state + MultiSegmentAppSegmentView::sources(segments));
            let held = MultiSegmentAppSegmentView::sources(segments);
        },
        _ => {},
    }
}

/// The printing visitor writes down the source text of `TypeDef`.
proof fn lemma_printed_type_def(node: VariantView, state: Seq<char>)
    requires
        (node is TypeDef),
    ensures
        node.walked::<CodePrinterVisitor>(state) == state + node.source(),
    decreases node, 0int,
{
    match node {
        VariantView::TypeDef { keyword, name, params, body } => {
            let state1 = CodePrinterVisitor::step(state, keyword.item()).0;
            assert(state1 =~= state + keyword.source());
            let held = keyword.source();
            let state2 = CodePrinterVisitor::step(state1, name.item()).0;
            assert(state2 =~= state1 + name.source());
            lemma_appended(state, held, name.source());
            let held = held + name.source();
            ArgumentDefinitionView::lemma_printed_all(state2, params, params.len());
            assert(
                ArgumentDefinitionView::source_parts(
                    params
                ).subrange(0, params.len() as int) =~= ArgumentDefinitionView::source_parts(params)
            );
            let state3 = ArgumentDefinitionView::walked_all::<CodePrinterVisitor>(
                state2,
                params,
                params.len(),
            );
            assert(state3 =~= state2 + ArgumentDefinitionView::sources(params));
            lemma_appended(state, held, ArgumentDefinitionView::sources(params));
            let held = held + ArgumentDefinitionView::sources(params);
            LineView::lemma_printed_all(state3, body, body.len());
            assert(
                LineView::source_parts(
                    body
                ).subrange(0, body.len() as int) =~= LineView::source_parts(body)
            );
            let state4 = LineView::walked_all::<CodePrinterVisitor>(state3, body, body.len());
            assert(state4 =~= state3 + LineView::sources(body));
            lemma_appended(state, held, LineView::sources(body));
            let held = held + LineView::sources(body);
        },
        _ => {},
    }
}

/// The printing visitor writes down the source text of `Assignment`.
proof fn lemma_printed_assignment(node: VariantView, state: Seq<char>)
    requires
        (node is Assignment),
    ensures
        node.walked::<CodePrinterVisitor>(state) == state + node.source(),
    decreases node, 0int,
{
    match node {
        VariantView::Assignment { pattern, equals, expr } => {
            pattern.lemma_printed(state);
            let state1 = pattern.walked::<CodePrinterVisitor>(state);
            assert(state1 =~= state + pattern.source());
            let held = pattern.source();
            let state2 = CodePrinterVisitor::step(state1, equals.item()).0;
            assert(state2 =~= state1 + equals.source());
            lemma_appended(state, held, equals.source());
            let held = held + equals.source();
            expr.lemma_printed(state2);
            let state3 = expr.walked::<CodePrinterVisitor>(state2);
            assert(state3 =~= state2 + expr.source());
            lemma_appended(state, held, expr.source());
            let held = held + expr.source();
        },
        _ => {},
    }
}

/// The printing visitor writes down the source text of `Function`.
proof fn lemma_printed_function(node: VariantView, state: Seq<char>)
    requires
        (node is Function),
    ensures
        node.walked::<CodePrinterVisitor>(state) == state + node.source(),
    decreases node, 0int,
{
    match node {
        VariantView::Function { name, args, returns_, equals, body } => {
            name.lemma_printed(state);
            let state1 = name.walked::<CodePrinterVisitor>(state);
            assert(state1 =~= state + name.source());
            let held = name.source();
            ArgumentDefinitionView::lemma_printed_all(state1, args, args.len());
            assert(
                ArgumentDefinitionView::source_parts(
                    args
                ).subrange(0, args.len() as int) =~= ArgumentDefinitionView::source_parts(args)
            );
            let state2 = ArgumentDefinitionView::walked_all::<CodePrinterVisitor>(
                state1,
                args,
                args.len(),
            );
            assert(state2 =~= state1 + ArgumentDefinitionView::sources(args));
            lemma_appended(state, held, ArgumentDefinitionView::sources(args));
            let held = held + ArgumentDefinitionView::sources(args);
            match returns_ {
                Some(x) => x.lemma_printed(state2),
                None => {},
            }
            let state3 = (
                match returns_ {
                    Some(x) => x.walked::<CodePrinterVisitor>(state2),
                    None => state2,
                }
            );
            assert(
                state3 =~= state2 + (
                    match returns_ { Some(x) => x.source(), None => Seq::empty(), }
                )
            );
            lemma_appended(
                state,
                held,
                (match returns_ { Some(x) => x.source(), None => Seq::empty(), }),
            );
            let held = held + (match returns_ { Some(x) => x.source(), None => Seq::empty(), });
            let state4 = CodePrinterVisitor::step(state3, equals.item()).0;
            assert(state4 =~= state3 + equals.source());
            lemma_appended(state, held, equals.source());
            let held = held + equals.source();
            match body {
                Some(x) => x.lemma_printed(state4),
                None => {},
            }
            let state5 = (
                match body { Some(x) => x.walked::<CodePrinterVisitor>(state4), None => state4, }
            );
            assert(
                state5 =~= state4 + (match body { Some(x) => x.source(), None => Seq::empty(), })
            );
            lemma_appended(
                state,
                held,
                (match body { Some(x) => x.source(), None => Seq::empty(), }),
            );
            let held = held + (match body { Some(x) => x.source(), None => Seq::empty(), });
        },
        _ => {},
    }
}

/// The printing visitor writes down the source text of `ForeignFunction`.
proof fn lemma_printed_foreign_function(node: VariantView, state: Seq<char>)
    requires
        (node is ForeignFunction),
    ensures
        node.walked::<CodePrinterVisitor>(state) == state + node.source(),
    decreases node, 0int,
{
    match node {
        VariantView::ForeignFunction { foreign, language, name, args, equals, body } => {
            let state1 = CodePrinterVisitor::step(state, foreign.item()).0;
            assert(state1 =~= state + foreign.source());
            let held = foreign.source();
            let state2 = CodePrinterVisitor::step(state1, language.item()).0;
            assert(state2 =~= state1 + language.source());
            lemma_appended(state, held, language.source());
            let held = held + language.source();
            let state3 = CodePrinterVisitor::step(state2, name.item()).0;
            assert(state3 =~= state2 + name.source());
            lemma_appended(state, held, name.source());
            let held = held + name.source();
            ArgumentDefinitionView::lemma_printed_all(state3, args, args.len());
            assert(
                ArgumentDefinitionView::source_parts(
                    args
                ).subrange(0, args.len() as int) =~= ArgumentDefinitionView::source_parts(args)
            );
            let state4 = ArgumentDefinitionView::walked_all::<CodePrinterVisitor>(
                state3,
                args,
                args.len(),
            );
            assert(state4 =~= state3 + ArgumentDefinitionView::sources(args));
            lemma_appended(state, held, ArgumentDefinitionView::sources(args));
            let held = held + ArgumentDefinitionView::sources(args);
            let state5 = CodePrinterVisitor::step(state4, equals.item()).0;
            assert(state5 =~= state4 + equals.source());
            lemma_appended(state, held, equals.source());
            let held = held + equals.source();
            body.lemma_printed(state5);
            let state6 = body.walked::<CodePrinterVisitor>(state5);
            assert(state6 =~= state5 + body.source());
            lemma_appended(state, held, body.source());
            let held = held + body.source();
        },
        _ => {},
    }
}

/// The printing visitor writes down the source text of `Import`.
proof fn lemma_printed_import(node: VariantView, state: Seq<char>)
    requires
        (node is Import),
    ensures
        node.walked::<CodePrinterVisitor>(state) == state + node.source(),
    decreases node, 0int,
{
    match node {
        VariantView::Import { polyglot, from, import, all, as_, hiding } => {
            match polyglot {
                Some(x) => x.lemma_printed(state),
                None => {},
            }
            let state1 = (
                match polyglot { Some(x) => x.walked::<CodePrinterVisitor>(state), None => state, }
            );
            assert(
                state1 =~= state + (match polyglot { Some(x) => x.source(), None => Seq::empty(), })
            );
            let held = (match polyglot { Some(x) => x.source(), None => Seq::empty(), });
            match from {
                Some(x) => x.lemma_printed(state1),
                None => {},
            }
            let state2 = (
                match from { Some(x) => x.walked::<CodePrinterVisitor>(state1), None => state1, }
            );
            assert(
                state2 =~= state1 + (match from { Some(x) => x.source(), None => Seq::empty(), })
            );
            lemma_appended(
                state,
                held,
                (match from { Some(x) => x.source(), None => Seq::empty(), }),
            );
            let held = held + (match from { Some(x) => x.source(), None => Seq::empty(), });
            import.lemma_printed(state2);
            let state3 = import.walked::<CodePrinterVisitor>(state2);
            assert(state3 =~= state2 + import.source());
            lemma_appended(state, held, import.source());
            let held = held + import.source();
            let state4 = walked_opt_token::<CodePrinterVisitor, _>(state3, all);
            assert(state4 =~= state3 + opt_token_source(all));
            lemma_appended(state, held, opt_token_source(all));
            let held = held + opt_token_source(all);
            match as_ {
                Some(x) => x.lemma_printed(state4),
                None => {},
            }
            let state5 = (
                match as_ { Some(x) => x.walked::<CodePrinterVisitor>(state4), None => state4, }
            );
            assert(
                state5 =~= state4 + (match as_ { Some(x) => x.source(), None => Seq::empty(), })
            );
            lemma_appended(
                state,
                held,
                (match as_ { Some(x) => x.source(), None => Seq::empty(), }),
            );
            let held = held + (match as_ { Some(x) => x.source(), None => Seq::empty(), });
            match hiding {
                Some(x) => x.lemma_printed(state5),
                None => {},
            }
            let state6 = (
                match hiding { Some(x) => x.walked::<CodePrinterVisitor>(state5), None => state5, }
            );
            assert(
                state6 =~= state5 + (match hiding { Some(x) => x.source(), None => Seq::empty(), })
            );
            lemma_appended(
                state,
                held,
                (match hiding { Some(x) => x.source(), None => Seq::empty(), }),
            );
            let held = held + (match hiding { Some(x) => x.source(), None => Seq::empty(), });
        },
        _ => {},
    }
}

/// The printing visitor writes down the source text of `Export`.
proof fn lemma_printed_export(node: VariantView, state: Seq<char>)
    requires
        (node is Export),
    ensures
        node.walked::<CodePrinterVisitor>(state) == state + node.source(),
    decreases node, 0int,
{
    match node {
        VariantView::Export { from, export, all, as_, hiding } => {
            match from {
                Some(x) => x.lemma_printed(state),
                None => {},
            }
            let state1 = (
                match from { Some(x) => x.walked::<CodePrinterVisitor>(state), None => state, }
            );
            assert(
                state1 =~= state + (match from { Some(x) => x.source(), None => Seq::empty(), })
            );
            let held = (match from { Some(x) => x.source(), None => Seq::empty(), });
            export.lemma_printed(state1);
            let state2 = export.walked::<CodePrinterVisitor>(state1);
            assert(state2 =~= state1 + export.source());
            lemma_appended(state, held, export.source());
            let held = held + export.source();
            let state3 = walked_opt_token::<CodePrinterVisitor, _>(state2, all);
            assert(state3 =~= state2 + opt_token_source(all));
            lemma_appended(state, held, opt_token_source(all));
            let held = held + opt_token_source(all);
            match as_ {
                Some(x) => x.lemma_printed(state3),
                None => {},
            }
            let state4 = (
                match as_ { Some(x) => x.walked::<CodePrinterVisitor>(state3), None => state3, }
            );
            assert(
                state4 =~= state3 + (match as_ { Some(x) => x.source(), None => Seq::empty(), })
            );
            lemma_appended(
                state,
                held,
                (match as_ { Some(x) => x.source(), None => Seq::empty(), }),
            );
            let held = held + (match as_ { Some(x) => x.source(), None => Seq::empty(), });
            match hiding {
                Some(x) => x.lemma_printed(state4),
                None => {},
            }
            let state5 = (
                match hiding { Some(x) => x.walked::<CodePrinterVisitor>(state4), None => state4, }
            );
            assert(
                state5 =~= state4 + (match hiding { Some(x) => x.source(), None => Seq::empty(), })
            );
            lemma_appended(
                state,
                held,
                (match hiding { Some(x) => x.source(), None => Seq::empty(), }),
            );
            let held = held + (match hiding { Some(x) => x.source(), None => Seq::empty(), });
        },
        _ => {},
    }
}

/// The printing visitor writes down the source text of `Group`.
proof fn lemma_printed_group(node: VariantView, state: Seq<char>)
    requires
        (node is Group),
    ensures
        node.walked::<CodePrinterVisitor>(state) == state + node.source(),
    decreases node, 0int,
{
    match node {
        VariantView::Group { open, body, close } => {
            let state1 = walked_opt_token::<CodePrinterVisitor, _>(state, open);
            assert(state1 =~= state + opt_token_source(open));
            let held = opt_token_source(open);
            match body {
                Some(x) => x.lemma_printed(state1),
                None => {},
            }
            let state2 = (
                match body { Some(x) => x.walked::<CodePrinterVisitor>(state1), None => state1, }
            );
            assert(
                state2 =~= state1 + (match body { Some(x) => x.source(), None => Seq::empty(), })
            );
            lemma_appended(
                state,
                held,
                (match body { Some(x) => x.source(), None => Seq::empty(), }),
            );
            let held = held + (match body { Some(x) => x.source(), None => Seq::empty(), });
            let state3 = walked_opt_token::<CodePrinterVisitor, _>(state2, close);
            assert(state3 =~= state2 + opt_token_source(close));
            lemma_appended(state, held, opt_token_source(close));
            let held = held + opt_token_source(close);
        },
        _ => {},
    }
}

/// The printing visitor writes down the source text of `TypeSignature`.
proof fn lemma_printed_type_signature(node: VariantView, state: Seq<char>)
    requires
        (node is TypeSignature),
    ensures
        node.walked::<CodePrinterVisitor>(state) == state + node.source(),
    decreases node, 0int,
{
    match node {
        VariantView::TypeSignature { variable, operator, type_ } => {
            variable.lemma_printed(state);
            let state1 = variable.walked::<CodePrinterVisitor>(state);
            assert(state1 =~= state + variable.source());
            let held = variable.source();
            let state2 = CodePrinterVisitor::step(state1, operator.item()).0;
            assert(state2 =~= state1 + operator.source());
            lemma_appended(state, held, operator.source());
            let held = held + operator.source();
            type_.lemma_printed(state2);
            let state3 = type_.walked::<CodePrinterVisitor>(state2);
            assert(state3 =~= state2 + type_.source());
            lemma_appended(state, held, type_.source());
            let held = held + type_.source();
        },
        _ => {},
    }
}

/// The printing visitor writes down the source text of `TypeAnnotated`.
proof fn lemma_printed_type_annotated(node: VariantView, state: Seq<char>)
    requires
        (node is TypeAnnotated),
    ensures
        node.walked::<CodePrinterVisitor>(state) == state + node.source(),
    decreases node, 0int,
{
    match node {
        VariantView::TypeAnnotated { expression, operator, type_ } => {
            expression.lemma_printed(state);
            let state1 = expression.walked::<CodePrinterVisitor>(state);
            assert(state1 =~= state + expression.source());
            let held = expression.source();
            let state2 = CodePrinterVisitor::step(state1, operator.item()).0;
            assert(state2 =~= state1 + operator.source());
            lemma_appended(state, held, operator.source());
            let held = held + operator.source();
            type_.lemma_printed(state2);
            let state3 = type_.walked::<CodePrinterVisitor>(state2);
            assert(state3 =~= state2 + type_.source());
            lemma_appended(state, held, type_.source());
            let held = held + type_.source();
        },
        _ => {},
    }
}

/// The printing visitor writes down the source text of `CaseOf`.
proof fn lemma_printed_case_of(node: VariantView, state: Seq<char>)
    requires
        (node is CaseOf),
    ensures
        node.walked::<CodePrinterVisitor>(state) == state + node.source(),
    decreases node, 0int,
{
    match node {
        VariantView::CaseOf { case, expression, of, cases } => {
            let state1 = CodePrinterVisitor::step(state, case.item()).0;
            assert(state1 =~= state + case.source());
            let held = case.source();
            match expression {
                Some(x) => x.lemma_printed(state1),
                None => {},
            }
            let state2 = (
                match expression {
                    Some(x) => x.walked::<CodePrinterVisitor>(state1),
                    None => state1,
                }
            );
            assert(
                state2 =~= state1 + (
                    match expression { Some(x) => x.source(), None => Seq::empty(), }
                )
            );
            lemma_appended(
                state,
                held,
                (match expression { Some(x) => x.source(), None => Seq::empty(), }),
            );
            let held = held + (match expression { Some(x) => x.source(), None => Seq::empty(), });
            let state3 = CodePrinterVisitor::step(state2, of.item()).0;
            assert(state3 =~= state2 + of.source());
            lemma_appended(state, held, of.source());
            let held = held + of.source();
            CaseLineView::lemma_printed_all(state3, cases, cases.len());
            assert(
                CaseLineView::source_parts(
                    cases
                ).subrange(0, cases.len() as int) =~= CaseLineView::source_parts(cases)
            );
            let state4 = CaseLineView::walked_all::<CodePrinterVisitor>(state3, cases, cases.len());
            assert(state4 =~= state3 + CaseLineView::sources(cases));
            lemma_appended(state, held, CaseLineView::sources(cases));
            let held = held + CaseLineView::sources(cases);
        },
        _ => {},
    }
}

/// The printing visitor writes down the source text of `Lambda`.
proof fn lemma_printed_lambda(node: VariantView, state: Seq<char>)
    requires
        (node is Lambda),
    ensures
        node.walked::<CodePrinterVisitor>(state) == state + node.source(),
    decreases node, 0int,
{
    match node {
        VariantView::Lambda { operator, arrow } => {
            let state1 = CodePrinterVisitor::step(state, operator.item()).0;
            assert(state1 =~= state + operator.source());
            let held = operator.source();
            match arrow {
                Some(x) => x.lemma_printed(state1),
                None => {},
            }
            let state2 = (
                match arrow { Some(x) => x.walked::<CodePrinterVisitor>(state1), None => state1, }
            );
            assert(
                state2 =~= state1 + (match arrow { Some(x) => x.source(), None => Seq::empty(), })
            );
            lemma_appended(
                state,
                held,
                (match arrow { Some(x) => x.source(), None => Seq::empty(), }),
            );
            let held = held + (match arrow { Some(x) => x.source(), None => Seq::empty(), });
        },
        _ => {},
    }
}

/// The printing visitor writes down the source text of `Array`.
proof fn lemma_printed_array(node: VariantView, state: Seq<char>)
    requires
        (node is Array),
    ensures
        node.walked::<CodePrinterVisitor>(state) == state + node.source(),
    decreases node, 0int,
{
    match node {
        VariantView::Array { left, first, rest, right } => {
            let state1 = CodePrinterVisitor::step(state, left.item()).0;
            assert(state1 =~= state + left.source());
            let held = left.source();
            match first {
                Some(x) => x.lemma_printed(state1),
                None => {},
            }
            let state2 = (
                match first { Some(x) => x.walked::<CodePrinterVisitor>(state1), None => state1, }
            );
            assert(
                state2 =~= state1 + (match first { Some(x) => x.source(), None => Seq::empty(), })
            );
            lemma_appended(
                state,
                held,
                (match first { Some(x) => x.source(), None => Seq::empty(), }),
            );
            let held = held + (match first { Some(x) => x.source(), None => Seq::empty(), });
            OperatorDelimitedTreeView::lemma_printed_all(state2, rest, rest.len());
            assert(
                OperatorDelimitedTreeView::source_parts(
                    rest
                ).subrange(0, rest.len() as int) =~= OperatorDelimitedTreeView::source_parts(rest)
            );
            let state3 = OperatorDelimitedTreeView::walked_all::<CodePrinterVisitor>(
                state2,
                rest,
                rest.len(),
            );
            assert(state3 =~= state2 + OperatorDelimitedTreeView::sources(rest));
            lemma_appended(state, held, OperatorDelimitedTreeView::sources(rest));
            let held = held + OperatorDelimitedTreeView::sources(rest);
            let state4 = CodePrinterVisitor::step(state3, right.item()).0;
            assert(state4 =~= state3 + right.source());
            lemma_appended(state, held, right.source());
            let held = held + right.source();
        },
        _ => {},
    }
}

/// The printing visitor writes down the source text of `Tuple`.
proof fn lemma_printed_tuple(node: VariantView, state: Seq<char>)
    requires
        (node is Tuple),
    ensures
        node.walked::<CodePrinterVisitor>(state) == state + node.source(),
    decreases node, 0int,
{
    match node {
        VariantView::Tuple { left, first, rest, right } => {
            let state1 = CodePrinterVisitor::step(state, left.item()).0;
            assert(state1 =~= state + left.source());
            let held = left.source();
            match first {
                Some(x) => x.lemma_printed(state1),
                None => {},
            }
            let state2 = (
                match first { Some(x) => x.walked::<CodePrinterVisitor>(state1), None => state1, }
            );
            assert(
                state2 =~= state1 + (match first { Some(x) => x.source(), None => Seq::empty(), })
            );
            lemma_appended(
                state,
                held,
                (match first { Some(x) => x.source(), None => Seq::empty(), }),
            );
            let held = held + (match first { Some(x) => x.source(), None => Seq::empty(), });
            OperatorDelimitedTreeView::lemma_printed_all(state2, rest, rest.len());
            assert(
                OperatorDelimitedTreeView::source_parts(
                    rest
                ).subrange(0, rest.len() as int) =~= OperatorDelimitedTreeView::source_parts(rest)
            );
            let state3 = OperatorDelimitedTreeView::walked_all::<CodePrinterVisitor>(
                state2,
                rest,
                rest.len(),
            );
            assert(state3 =~= state2 + OperatorDelimitedTreeView::sources(rest));
            lemma_appended(state, held, OperatorDelimitedTreeView::sources(rest));
            let held = held + OperatorDelimitedTreeView::sources(rest);
            let state4 = CodePrinterVisitor::step(state3, right.item()).0;
            assert(state4 =~= state3 + right.source());
            lemma_appended(state, held, right.source());
            let held = held + right.source();
        },
        _ => {},
    }
}

/// The printing visitor writes down the source text of `Annotated`.
proof fn lemma_printed_annotated(node: VariantView, state: Seq<char>)
    requires
        (node is Annotated),
    ensures
        node.walked::<CodePrinterVisitor>(state) == state + node.source(),
    decreases node, 0int,
{
    match node {
        VariantView::Annotated { token, annotation, argument, newlines, expression } => {
            let state1 = CodePrinterVisitor::step(state, token.item()).0;
            assert(state1 =~= state + token.source());
            let held = token.source();
            let state2 = CodePrinterVisitor::step(state1, annotation.item()).0;
            assert(state2 =~= state1 + annotation.source());
            lemma_appended(state, held, annotation.source());
            let held = held + annotation.source();
            match argument {
                Some(x) => x.lemma_printed(state2),
                None => {},
            }
            let state3 = (
                match argument {
                    Some(x) => x.walked::<CodePrinterVisitor>(state2),
                    None => state2,
                }
            );
            assert(
                state3 =~= state2 + (
                    match argument { Some(x) => x.source(), None => Seq::empty(), }
                )
            );
            lemma_appended(
                state,
                held,
                (match argument { Some(x) => x.source(), None => Seq::empty(), }),
            );
            let held = held + (match argument { Some(x) => x.source(), None => Seq::empty(), });
            lemma_printed_tokens(state3, newlines, newlines.len());
            assert(
                token_sources(
                    newlines
                ).subrange(0, newlines.len() as int) =~= token_sources(newlines)
            );
            let state4 = walked_tokens::<CodePrinterVisitor, _>(state3, newlines, newlines.len());
            assert(state4 =~= state3 + tokens_source(newlines));
            lemma_appended(state, held, tokens_source(newlines));
            let held = held + tokens_source(newlines);
            match expression {
                Some(x) => x.lemma_printed(state4),
                None => {},
            }
            let state5 = (
                match expression {
                    Some(x) => x.walked::<CodePrinterVisitor>(state4),
                    None => state4,
                }
            );
            assert(
                state5 =~= state4 + (
                    match expression { Some(x) => x.source(), None => Seq::empty(), }
                )
            );
            lemma_appended(
                state,
                held,
                (match expression { Some(x) => x.source(), None => Seq::empty(), }),
            );
            let held = held + (match expression { Some(x) => x.source(), None => Seq::empty(), });
        },
        _ => {},
    }
}

/// The printing visitor writes down the source text of `AnnotatedBuiltin`.
proof fn lemma_printed_annotated_builtin(node: VariantView, state: Seq<char>)
    requires
        (node is AnnotatedBuiltin),
    ensures
        node.walked::<CodePrinterVisitor>(state) == state + node.source(),
    decreases node, 0int,
{
    match node {
        VariantView::AnnotatedBuiltin { token, annotation, newlines, expression } => {
            let state1 = CodePrinterVisitor::step(state, token.item()).0;
            assert(state1 =~= state + token.source());
            let held = token.source();
            let state2 = CodePrinterVisitor::step(state1, annotation.item()).0;
            assert(state2 =~= state1 + annotation.source());
            lemma_appended(state, held, annotation.source());
            let held = held + annotation.source();
            lemma_printed_tokens(state2, newlines, newlines.len());
            assert(
                token_sources(
                    newlines
                ).subrange(0, newlines.len() as int) =~= token_sources(newlines)
            );
            let state3 = walked_tokens::<CodePrinterVisitor, _>(state2, newlines, newlines.len());
            assert(state3 =~= state2 + tokens_source(newlines));
            lemma_appended(state, held, tokens_source(newlines));
            let held = held + tokens_source(newlines);
            match expression {
                Some(x) => x.lemma_printed(state3),
                None => {},
            }
            let state4 = (
                match expression {
                    Some(x) => x.walked::<CodePrinterVisitor>(state3),
                    None => state3,
                }
            );
            assert(
                state4 =~= state3 + (
                    match expression { Some(x) => x.source(), None => Seq::empty(), }
                )
            );
            lemma_appended(
                state,
                held,
                (match expression { Some(x) => x.source(), None => Seq::empty(), }),
            );
            let held = held + (match expression { Some(x) => x.source(), None => Seq::empty(), });
        },
        _ => {},
    }
}

/// The printing visitor writes down the source text of `Documented`.
proof fn lemma_printed_documented(node: VariantView, state: Seq<char>)
    requires
        (node is Documented),
    ensures
        node.walked::<CodePrinterVisitor>(state) == state + node.source(),
    decreases node, 0int,
{
    match node {
        VariantView::Documented { documentation, expression } => {
            documentation.lemma_printed(state);
            let state1 = documentation.walked::<CodePrinterVisitor>(state);
            assert(state1 =~= state + documentation.source());
            let held = documentation.source();
            match expression {
                Some(x) => x.lemma_printed(state1),
                None => {},
            }
            let state2 = (
                match expression {
                    Some(x) => x.walked::<CodePrinterVisitor>(state1),
                    None => state1,
                }
            );
            assert(
                state2 =~= state1 + (
                    match expression { Some(x) => x.source(), None => Seq::empty(), }
                )
            );
            lemma_appended(
                state,
                held,
                (match expression { Some(x) => x.source(), None => Seq::empty(), }),
            );
            let held = held + (match expression { Some(x) => x.source(), None => Seq::empty(), });
        },
        _ => {},
    }
}

/// The printing visitor writes down the source text of `ConstructorDefinition`.
proof fn lemma_printed_constructor_definition(node: VariantView, state: Seq<char>)
    requires
        (node is ConstructorDefinition),
    ensures
        node.walked::<CodePrinterVisitor>(state) == state + node.source(),
    decreases node, 0int,
{
    match node {
        VariantView::ConstructorDefinition { constructor, arguments, block } => {
            let state1 = CodePrinterVisitor::step(state, constructor.item()).0;
            assert(state1 =~= state + constructor.source());
            let held = constructor.source();
            ArgumentDefinitionView::lemma_printed_all(state1, arguments, arguments.len());
            assert(
                ArgumentDefinitionView::source_parts(
                    arguments
                ).subrange(
                    0,
                    arguments.len() as int,
                ) =~= ArgumentDefinitionView::source_parts(arguments)
            );
            let state2 = ArgumentDefinitionView::walked_all::<CodePrinterVisitor>(
                state1,
                arguments,
                arguments.len(),
            );
            assert(state2 =~= state1 + ArgumentDefinitionView::sources(arguments));
            lemma_appended(state, held, ArgumentDefinitionView::sources(arguments));
            let held = held + ArgumentDefinitionView::sources(arguments);
            ArgumentDefinitionLineView::lemma_printed_all(state2, block, block.len());
            assert(
                ArgumentDefinitionLineView::source_parts(
                    block
                ).subrange(
                    0,
                    block.len() as int,
                ) =~= ArgumentDefinitionLineView::source_parts(block)
            );
            let state3 = ArgumentDefinitionLineView::walked_all::<CodePrinterVisitor>(
                state2,
                block,
                block.len(),
            );
            assert(state3 =~= state2 + ArgumentDefinitionLineView::sources(block));
            lemma_appended(state, held, ArgumentDefinitionLineView::sources(block));
            let held = held + ArgumentDefinitionLineView::sources(block);
        },
        _ => {},
    }
}

impl VariantView {
    /// The printing visitor, when it has walked the value, has written down the
    /// source text of the value behind what it had.
    pub proof fn lemma_printed(self, state: Seq<char>)
        ensures
            self.walked::<CodePrinterVisitor>(state) == state + self.source(),
        decreases self, 1int,
    {
        match self {
            VariantView::Invalid { .. } => lemma_printed_invalid(self, state),
            VariantView::BodyBlock { .. } => lemma_printed_body_block(self, state),
            VariantView::ArgumentBlockApplication { .. } => lemma_printed_argument_block_application(
                self,
                state,
            ),
            VariantView::OperatorBlockApplication { .. } => lemma_printed_operator_block_application(
                self,
                state,
            ),
            VariantView::Ident { .. } => lemma_printed_ident(self, state),
            VariantView::Private { .. } => lemma_printed_private(self, state),
            VariantView::Number { .. } => lemma_printed_number(self, state),
            VariantView::Wildcard { .. } => lemma_printed_wildcard(self, state),
            VariantView::SuspendedDefaultArguments { .. } => lemma_printed_suspended_default_arguments(
                self,
                state,
            ),
            VariantView::TextLiteral { .. } => lemma_printed_text_literal(self, state),
            VariantView::App { .. } => lemma_printed_app(self, state),
            VariantView::NamedApp { .. } => lemma_printed_named_app(self, state),
            VariantView::OprApp { .. } => lemma_printed_opr_app(self, state),
            VariantView::UnaryOprApp { .. } => lemma_printed_unary_opr_app(self, state),
            VariantView::AutoscopedIdentifier { .. } => lemma_printed_autoscoped_identifier(
                self,
                state,
            ),
            VariantView::OprSectionBoundary { .. } => lemma_printed_opr_section_boundary(
                self,
                state,
            ),
            VariantView::TemplateFunction { .. } => lemma_printed_template_function(self, state),
            VariantView::MultiSegmentApp { .. } => lemma_printed_multi_segment_app(self, state),
            VariantView::TypeDef { .. } => lemma_printed_type_def(self, state),
            VariantView::Assignment { .. } => lemma_printed_assignment(self, state),
            VariantView::Function { .. } => lemma_printed_function(self, state),
            VariantView::ForeignFunction { .. } => lemma_printed_foreign_function(self, state),
            VariantView::Import { .. } => lemma_printed_import(self, state),
            VariantView::Export { .. } => lemma_printed_export(self, state),
            VariantView::Group { .. } => lemma_printed_group(self, state),
            VariantView::TypeSignature { .. } => lemma_printed_type_signature(self, state),
            VariantView::TypeAnnotated { .. } => lemma_printed_type_annotated(self, state),
            VariantView::CaseOf { .. } => lemma_printed_case_of(self, state),
            VariantView::Lambda { .. } => lemma_printed_lambda(self, state),
            VariantView::Array { .. } => lemma_printed_array(self, state),
            VariantView::Tuple { .. } => lemma_printed_tuple(self, state),
            VariantView::Annotated { .. } => lemma_printed_annotated(self, state),
            VariantView::AnnotatedBuiltin { .. } => lemma_printed_annotated_builtin(self, state),
            VariantView::Documented { .. } => lemma_printed_documented(self, state),
            VariantView::ConstructorDefinition { .. } => lemma_printed_constructor_definition(
                self,
                state,
            ),
        }
    }
}

impl LineView {
    /// The printing visitor, when it has walked the value, has written down the
    /// source text of the value behind what it had.
    pub proof fn lemma_printed(self, state: Seq<char>)
        ensures
            self.walked::<CodePrinterVisitor>(state) == state + self.source(),
        decreases self,
    {
        let state1 = CodePrinterVisitor::step(state, self.newline.item()).0;
        assert(state1 =~= state + self.newline.source());
        let held = self.newline.source();
        match self.expression {
            Some(x) => x.lemma_printed(state1),
            None => {},
        }
        let state2 = (
            match self.expression {
                Some(x) => x.walked::<CodePrinterVisitor>(state1),
                None => state1,
            }
        );
        assert(
            state2 =~= state1 + (
                match self.expression { Some(x) => x.source(), None => Seq::empty(), }
            )
        );
        lemma_appended(
            state,
            held,
            (match self.expression { Some(x) => x.source(), None => Seq::empty(), }),
        );
        let held = held + (match self.expression { Some(x) => x.source(), None => Seq::empty(), });
    }

    /// The printing visitor, when it has walked the first `upto` of the values,
    /// has written down their source text behind what it had.
    pub proof fn lemma_printed_all(state: Seq<char>, values: Seq<LineView>, upto: nat)
        requires
            upto <= values.len(),
        ensures
            LineView::walked_all::<CodePrinterVisitor>(state, values, upto) == state + concat(
                LineView::source_parts(values).subrange(0, upto as int),
            ),
        decreases values, upto,
    {
        let parts = LineView::source_parts(values);
        if upto == 0 {
            assert(parts.subrange(0, 0) =~= Seq::<Seq<char>>::empty());
            assert(state + concat(parts.subrange(0, 0)) =~= state);
        } else {
            let before = (upto - 1) as nat;
            LineView::lemma_printed_all(state, values, before);
            let mid = LineView::walked_all::<CodePrinterVisitor>(state, values, before);
            values[upto - 1].lemma_printed(mid);
            assert(parts.subrange(0, upto as int).drop_last() =~= parts.subrange(0, before as int));
            assert(parts[upto - 1] == values[upto - 1].source());
            lemma_appended(
                state,
                concat(parts.subrange(0, before as int)),
                values[upto - 1].source(),
            );
        }
    }
}

impl OperatorBlockExpressionView {
    /// The printing visitor, when it has walked the value, has written down the
    /// source text of the value behind what it had.
    pub proof fn lemma_printed(self, state: Seq<char>)
        ensures
            self.walked::<CodePrinterVisitor>(state) == state + self.source(),
        decreases self,
    {
        match self.operator {
            Ok(_) => {},
            Err(x) => x.lemma_printed(state),
        }
        let state1 = walked_operator_or_error::<CodePrinterVisitor>(state, self.operator);
        assert(state1 =~= state + operator_or_error_source(self.operator));
        let held = operator_or_error_source(self.operator);
        self.expression.lemma_printed(state1);
        let state2 = self.expression.walked::<CodePrinterVisitor>(state1);
        assert(state2 =~= state1 + self.expression.source());
        lemma_appended(state, held, self.expression.source());
        let held = held + self.expression.source();
    }
}

impl OperatorLineView {
    /// The printing visitor, when it has walked the value, has written down the
    /// source text of the value behind what it had.
    pub proof fn lemma_printed(self, state: Seq<char>)
        ensures
            self.walked::<CodePrinterVisitor>(state) == state + self.source(),
        decreases self,
    {
        let state1 = CodePrinterVisitor::step(state, self.newline.item()).0;
        assert(state1 =~= state + self.newline.source());
        let held = self.newline.source();
        match self.expression {
            Some(x) => x.lemma_printed(state1),
            None => {},
        }
        let state2 = (
            match self.expression {
                Some(x) => x.walked::<CodePrinterVisitor>(state1),
                None => state1,
            }
        );
        assert(
            state2 =~= state1 + (
                match self.expression { Some(x) => x.source(), None => Seq::empty(), }
            )
        );
        lemma_appended(
            state,
            held,
            (match self.expression { Some(x) => x.source(), None => Seq::empty(), }),
        );
        let held = held + (match self.expression { Some(x) => x.source(), None => Seq::empty(), });
    }

    /// The printing visitor, when it has walked the first `upto` of the values,
    /// has written down their source text behind what it had.
    pub proof fn lemma_printed_all(state: Seq<char>, values: Seq<OperatorLineView>, upto: nat)
        requires
            upto <= values.len(),
        ensures
            OperatorLineView::walked_all::<CodePrinterVisitor>(
                state,
                values,
                upto,
            ) == state + concat(
                OperatorLineView::source_parts(values).subrange(0, upto as int),
            ),
        decreases values, upto,
    {
        let parts = OperatorLineView::source_parts(values);
        if upto == 0 {
            assert(parts.subrange(0, 0) =~= Seq::<Seq<char>>::empty());
            assert(state + concat(parts.subrange(0, 0)) =~= state);
        } else {
            let before = (upto - 1) as nat;
            OperatorLineView::lemma_printed_all(state, values, before);
            let mid = OperatorLineView::walked_all::<CodePrinterVisitor>(state, values, before);
            values[upto - 1].lemma_printed(mid);
            assert(parts.subrange(0, upto as int).drop_last() =~= parts.subrange(0, before as int));
            assert(parts[upto - 1] == values[upto - 1].source());
            lemma_appended(
                state,
                concat(parts.subrange(0, before as int)),
                values[upto - 1].source(),
            );
        }
    }
}

impl ArgumentDefinitionLineView {
    /// The printing visitor, when it has walked the value, has written down the
    /// source text of the value behind what it had.
    pub proof fn lemma_printed(self, state: Seq<char>)
        ensures
            self.walked::<CodePrinterVisitor>(state) == state + self.source(),
        decreases self,
    {
        let state1 = CodePrinterVisitor::step(state, self.newline.item()).0;
        assert(state1 =~= state + self.newline.source());
        let held = self.newline.source();
        match self.argument {
            Some(x) => x.lemma_printed(state1),
            None => {},
        }
        let state2 = (
            match self.argument {
                Some(x) => x.walked::<CodePrinterVisitor>(state1),
                None => state1,
            }
        );
        assert(
            state2 =~= state1 + (
                match self.argument { Some(x) => x.source(), None => Seq::empty(), }
            )
        );
        lemma_appended(
            state,
            held,
            (match self.argument { Some(x) => x.source(), None => Seq::empty(), }),
        );
        let held = held + (match self.argument { Some(x) => x.source(), None => Seq::empty(), });
    }

    /// The printing visitor, when it has walked the first `upto` of the values,
    /// has written down their source text behind what it had.
    pub proof fn lemma_printed_all(
        state: Seq<char>,
        values: Seq<ArgumentDefinitionLineView>,
        upto: nat,
    )
        requires
            upto <= values.len(),
        ensures
            ArgumentDefinitionLineView::walked_all::<CodePrinterVisitor>(
                state,
                values,
                upto,
            ) == state + concat(
                ArgumentDefinitionLineView::source_parts(values).subrange(0, upto as int),
            ),
        decreases values, upto,
    {
        let parts = ArgumentDefinitionLineView::source_parts(values);
        if upto == 0 {
            assert(parts.subrange(0, 0) =~= Seq::<Seq<char>>::empty());
            assert(state + concat(parts.subrange(0, 0)) =~= state);
        } else {
            let before = (upto - 1) as nat;
            ArgumentDefinitionLineView::lemma_printed_all(state, values, before);
            let mid = ArgumentDefinitionLineView::walked_all::<CodePrinterVisitor>(
                state,
                values,
                before,
            );
            values[upto - 1].lemma_printed(mid);
            assert(parts.subrange(0, upto as int).drop_last() =~= parts.subrange(0, before as int));
            assert(parts[upto - 1] == values[upto - 1].source());
            lemma_appended(
                state,
                concat(parts.subrange(0, before as int)),
                values[upto - 1].source(),
            );
        }
    }
}

impl TextElementView {
    /// The printing visitor, when it has walked the value, has written down the
    /// source text of the value behind what it had.
    pub proof fn lemma_printed(self, state: Seq<char>)
        ensures
            self.walked::<CodePrinterVisitor>(state) == state + self.source(),
        decreases self,
    {
        match self {
            TextElementView::Section { text } => {
                let state1 = CodePrinterVisitor::step(state, text.item()).0;
                assert(state1 =~= state + text.source());
                let held = text.source();
            },
            TextElementView::Escape { token } => {
                let state1 = CodePrinterVisitor::step(state, token.item()).0;
                assert(state1 =~= state + token.source());
                let held = token.source();
            },
            TextElementView::Newline { newline } => {
                let state1 = CodePrinterVisitor::step(state, newline.item()).0;
                assert(state1 =~= state + newline.source());
                let held = newline.source();
            },
            TextElementView::Splice { open, expression, close } => {
                let state1 = CodePrinterVisitor::step(state, open.item()).0;
                assert(state1 =~= state + open.source());
                let held = open.source();
                match expression {
                    Some(x) => x.lemma_printed(state1),
                    None => {},
                }
                let state2 = (
                    match expression {
                        Some(x) => x.walked::<CodePrinterVisitor>(state1),
                        None => state1,
                    }
                );
                assert(
                    state2 =~= state1 + (
                        match expression { Some(x) => x.source(), None => Seq::empty(), }
                    )
                );
                lemma_appended(
                    state,
                    held,
                    (match expression { Some(x) => x.source(), None => Seq::empty(), }),
                );
                let held = held + (
                    match expression { Some(x) => x.source(), None => Seq::empty(), }
                );
                let state3 = CodePrinterVisitor::step(state2, close.item()).0;
                assert(state3 =~= state2 + close.source());
                lemma_appended(state, held, close.source());
                let held = held + close.source();
            },
        }
    }

    /// The printing visitor, when it has walked the first `upto` of the values,
    /// has written down their source text behind what it had.
    pub proof fn lemma_printed_all(state: Seq<char>, values: Seq<TextElementView>, upto: nat)
        requires
            upto <= values.len(),
        ensures
            TextElementView::walked_all::<CodePrinterVisitor>(
                state,
                values,
                upto,
            ) == state + concat(
                TextElementView::source_parts(values).subrange(0, upto as int),
            ),
        decreases values, upto,
    {
        let parts = TextElementView::source_parts(values);
        if upto == 0 {
            assert(parts.subrange(0, 0) =~= Seq::<Seq<char>>::empty());
            assert(state + concat(parts.subrange(0, 0)) =~= state);
        } else {
            let before = (upto - 1) as nat;
            TextElementView::lemma_printed_all(state, values, before);
            let mid = TextElementView::walked_all::<CodePrinterVisitor>(state, values, before);
            values[upto - 1].lemma_printed(mid);
            assert(parts.subrange(0, upto as int).drop_last() =~= parts.subrange(0, before as int));
            assert(parts[upto - 1] == values[upto - 1].source());
            lemma_appended(
                state,
                concat(parts.subrange(0, before as int)),
                values[upto - 1].source(),
            );
        }
    }
}

impl DocCommentView {
    /// The printing visitor, when it has walked the value, has written down the
    /// source text of the value behind what it had.
    pub proof fn lemma_printed(self, state: Seq<char>)
        ensures
            self.walked::<CodePrinterVisitor>(state) == state + self.source(),
        decreases self,
    {
        let state1 = CodePrinterVisitor::step(state, self.open.item()).0;
        assert(state1 =~= state + self.open.source());
        let held = self.open.source();
        TextElementView::lemma_printed_all(state1, self.elements, self.elements.len());
        assert(
            TextElementView::source_parts(
                self.elements
            ).subrange(
                0,
                self.elements.len() as int,
            ) =~= TextElementView::source_parts(self.elements)
        );
        let state2 = TextElementView::walked_all::<CodePrinterVisitor>(
            state1,
            self.elements,
            self.elements.len(),
        );
        assert(state2 =~= state1 + TextElementView::sources(self.elements));
        lemma_appended(state, held, TextElementView::sources(self.elements));
        let held = held + TextElementView::sources(self.elements);
        lemma_printed_tokens(state2, self.newlines, self.newlines.len());
        assert(
            token_sources(
                self.newlines
            ).subrange(0, self.newlines.len() as int) =~= token_sources(self.newlines)
        );
        let state3 = walked_tokens::<CodePrinterVisitor, _>(
            state2,
            self.newlines,
            self.newlines.len(),
        );
        assert(state3 =~= state2 + tokens_source(self.newlines));
        lemma_appended(state, held, tokens_source(self.newlines));
        let held = held + tokens_source(self.newlines);
    }
}

impl FractionalDigitsView {
    /// The printing visitor, when it has walked the value, has written down the
    /// source text of the value behind what it had.
    pub proof fn lemma_printed(self, state: Seq<char>)
        ensures
            self.walked::<CodePrinterVisitor>(state) == state + self.source(),
        decreases self,
    {
        let state1 = CodePrinterVisitor::step(state, self.dot.item()).0;
        assert(state1 =~= state + self.dot.source());
        let held = self.dot.source();
        let state2 = CodePrinterVisitor::step(state1, self.digits.item()).0;
        assert(state2 =~= state1 + self.digits.source());
        lemma_appended(state, held, self.digits.source());
        let held = held + self.digits.source();
    }
}

impl ArgumentDefinitionView {
    /// The printing visitor, when it has walked the value, has written down the
    /// source text of the value behind what it had.
    pub proof fn lemma_printed(self, state: Seq<char>)
        ensures
            self.walked::<CodePrinterVisitor>(state) == state + self.source(),
        decreases self,
    {
        let state1 = walked_opt_token::<CodePrinterVisitor, _>(state, self.open);
        assert(state1 =~= state + opt_token_source(self.open));
        let held = opt_token_source(self.open);
        let state2 = walked_opt_token::<CodePrinterVisitor, _>(state1, self.open2);
        assert(state2 =~= state1 + opt_token_source(self.open2));
        lemma_appended(state, held, opt_token_source(self.open2));
        let held = held + opt_token_source(self.open2);
        let state3 = walked_opt_token::<CodePrinterVisitor, _>(state2, self.suspension);
        assert(state3 =~= state2 + opt_token_source(self.suspension));
        lemma_appended(state, held, opt_token_source(self.suspension));
        let held = held + opt_token_source(self.suspension);
        self.pattern.lemma_printed(state3);
        let state4 = self.pattern.walked::<CodePrinterVisitor>(state3);
        assert(state4 =~= state3 + self.pattern.source());
        lemma_appended(state, held, self.pattern.source());
        let held = held + self.pattern.source();
        match self.type_ {
            Some(x) => x.lemma_printed(state4),
            None => {},
        }
        let state5 = (
            match self.type_ { Some(x) => x.walked::<CodePrinterVisitor>(state4), None => state4, }
        );
        assert(
            state5 =~= state4 + (match self.type_ { Some(x) => x.source(), None => Seq::empty(), })
        );
        lemma_appended(
            state,
            held,
            (match self.type_ { Some(x) => x.source(), None => Seq::empty(), }),
        );
        let held = held + (match self.type_ { Some(x) => x.source(), None => Seq::empty(), });
        let state6 = walked_opt_token::<CodePrinterVisitor, _>(state5, self.close2);
        assert(state6 =~= state5 + opt_token_source(self.close2));
        lemma_appended(state, held, opt_token_source(self.close2));
        let held = held + opt_token_source(self.close2);
        match self.default {
            Some(x) => x.lemma_printed(state6),
            None => {},
        }
        let state7 = (
            match self.default {
                Some(x) => x.walked::<CodePrinterVisitor>(state6),
                None => state6,
            }
        );
        assert(
            state7 =~= state6 + (
                match self.default { Some(x) => x.source(), None => Seq::empty(), }
            )
        );
        lemma_appended(
            state,
            held,
            (match self.default { Some(x) => x.source(), None => Seq::empty(), }),
        );
        let held = held + (match self.default { Some(x) => x.source(), None => Seq::empty(), });
        let state8 = walked_opt_token::<CodePrinterVisitor, _>(state7, self.close);
        assert(state8 =~= state7 + opt_token_source(self.close));
        lemma_appended(state, held, opt_token_source(self.close));
        let held = held + opt_token_source(self.close);
    }

    /// The printing visitor, when it has walked the first `upto` of the values,
    /// has written down their source text behind what it had.
    pub proof fn lemma_printed_all(state: Seq<char>, values: Seq<ArgumentDefinitionView>, upto: nat)
        requires
            upto <= values.len(),
        ensures
            ArgumentDefinitionView::walked_all::<CodePrinterVisitor>(
                state,
                values,
                upto,
            ) == state + concat(
                ArgumentDefinitionView::source_parts(values).subrange(0, upto as int),
            ),
        decreases values, upto,
    {
        let parts = ArgumentDefinitionView::source_parts(values);
        if upto == 0 {
            assert(parts.subrange(0, 0) =~= Seq::<Seq<char>>::empty());
            assert(state + concat(parts.subrange(0, 0)) =~= state);
        } else {
            let before = (upto - 1) as nat;
            ArgumentDefinitionView::lemma_printed_all(state, values, before);
            let mid = ArgumentDefinitionView::walked_all::<CodePrinterVisitor>(
                state,
                values,
                before,
            );
            values[upto - 1].lemma_printed(mid);
            assert(parts.subrange(0, upto as int).drop_last() =~= parts.subrange(0, before as int));
            assert(parts[upto - 1] == values[upto - 1].source());
            lemma_appended(
                state,
                concat(parts.subrange(0, before as int)),
                values[upto - 1].source(),
            );
        }
    }
}

impl ArgumentDefaultView {
    /// The printing visitor, when it has walked the value, has written down the
    /// source text of the value behind what it had.
    pub proof fn lemma_printed(self, state: Seq<char>)
        ensures
            self.walked::<CodePrinterVisitor>(state) == state + self.source(),
        decreases self,
    {
        let state1 = CodePrinterVisitor::step(state, self.equals.item()).0;
        assert(state1 =~= state + self.equals.source());
        let held = self.equals.source();
        self.expression.lemma_printed(state1);
        let state2 = self.expression.walked::<CodePrinterVisitor>(state1);
        assert(state2 =~= state1 + self.expression.source());
        lemma_appended(state, held, self.expression.source());
        let held = held + self.expression.source();
    }
}

impl ArgumentTypeView {
    /// The printing visitor, when it has walked the value, has written down the
    /// source text of the value behind what it had.
    pub proof fn lemma_printed(self, state: Seq<char>)
        ensures
            self.walked::<CodePrinterVisitor>(state) == state + self.source(),
        decreases self,
    {
        let state1 = CodePrinterVisitor::step(state, self.operator.item()).0;
        assert(state1 =~= state + self.operator.source());
        let held = self.operator.source();
        self.type_.lemma_printed(state1);
        let state2 = self.type_.walked::<CodePrinterVisitor>(state1);
        assert(state2 =~= state1 + self.type_.source());
        lemma_appended(state, held, self.type_.source());
        let held = held + self.type_.source();
    }
}

impl ReturnSpecificationView {
    /// The printing visitor, when it has walked the value, has written down the
    /// source text of the value behind what it had.
    pub proof fn lemma_printed(self, state: Seq<char>)
        ensures
            self.walked::<CodePrinterVisitor>(state) == state + self.source(),
        decreases self,
    {
        let state1 = CodePrinterVisitor::step(state, self.arrow.item()).0;
        assert(state1 =~= state + self.arrow.source());
        let held = self.arrow.source();
        self.type_.lemma_printed(state1);
        let state2 = self.type_.walked::<CodePrinterVisitor>(state1);
        assert(state2 =~= state1 + self.type_.source());
        lemma_appended(state, held, self.type_.source());
        let held = held + self.type_.source();
    }
}

impl CaseLineView {
    /// The printing visitor, when it has walked the value, has written down the
    /// source text of the value behind what it had.
    pub proof fn lemma_printed(self, state: Seq<char>)
        ensures
            self.walked::<CodePrinterVisitor>(state) == state + self.source(),
        decreases self,
    {
        let state1 = walked_opt_token::<CodePrinterVisitor, _>(state, self.newline);
        assert(state1 =~= state + opt_token_source(self.newline));
        let held = opt_token_source(self.newline);
        match self.case {
            Some(x) => x.lemma_printed(state1),
            None => {},
        }
        let state2 = (
            match self.case { Some(x) => x.walked::<CodePrinterVisitor>(state1), None => state1, }
        );
        assert(
            state2 =~= state1 + (match self.case { Some(x) => x.source(), None => Seq::empty(), })
        );
        lemma_appended(
            state,
            held,
            (match self.case { Some(x) => x.source(), None => Seq::empty(), }),
        );
        let held = held + (match self.case { Some(x) => x.source(), None => Seq::empty(), });
    }

    /// The printing visitor, when it has walked the first `upto` of the values,
    /// has written down their source text behind what it had.
    pub proof fn lemma_printed_all(state: Seq<char>, values: Seq<CaseLineView>, upto: nat)
        requires
            upto <= values.len(),
        ensures
            CaseLineView::walked_all::<CodePrinterVisitor>(state, values, upto) == state + concat(
                CaseLineView::source_parts(values).subrange(0, upto as int),
            ),
        decreases values, upto,
    {
        let parts = CaseLineView::source_parts(values);
        if upto == 0 {
            assert(parts.subrange(0, 0) =~= Seq::<Seq<char>>::empty());
            assert(state + concat(parts.subrange(0, 0)) =~= state);
        } else {
            let before = (upto - 1) as nat;
            CaseLineView::lemma_printed_all(state, values, before);
            let mid = CaseLineView::walked_all::<CodePrinterVisitor>(state, values, before);
            values[upto - 1].lemma_printed(mid);
            assert(parts.subrange(0, upto as int).drop_last() =~= parts.subrange(0, before as int));
            assert(parts[upto - 1] == values[upto - 1].source());
            lemma_appended(
                state,
                concat(parts.subrange(0, before as int)),
                values[upto - 1].source(),
            );
        }
    }
}

impl CaseView {
    /// The printing visitor, when it has walked the value, has written down the
    /// source text of the value behind what it had.
    pub proof fn lemma_printed(self, state: Seq<char>)
        ensures
            self.walked::<CodePrinterVisitor>(state) == state + self.source(),
        decreases self,
    {
        match self.documentation {
            Some(x) => x.lemma_printed(state),
            None => {},
        }
        let state1 = (
            match self.documentation {
                Some(x) => x.walked::<CodePrinterVisitor>(state),
                None => state,
            }
        );
        assert(
            state1 =~= state + (
                match self.documentation { Some(x) => x.source(), None => Seq::empty(), }
            )
        );
        let held = (match self.documentation { Some(x) => x.source(), None => Seq::empty(), });
        match self.pattern {
            Some(x) => x.lemma_printed(state1),
            None => {},
        }
        let state2 = (
            match self.pattern {
                Some(x) => x.walked::<CodePrinterVisitor>(state1),
                None => state1,
            }
        );
        assert(
            state2 =~= state1 + (
                match self.pattern { Some(x) => x.source(), None => Seq::empty(), }
            )
        );
        lemma_appended(
            state,
            held,
            (match self.pattern { Some(x) => x.source(), None => Seq::empty(), }),
        );
        let held = held + (match self.pattern { Some(x) => x.source(), None => Seq::empty(), });
        let state3 = walked_opt_token::<CodePrinterVisitor, _>(state2, self.arrow);
        assert(state3 =~= state2 + opt_token_source(self.arrow));
        lemma_appended(state, held, opt_token_source(self.arrow));
        let held = held + opt_token_source(self.arrow);
        match self.expression {
            Some(x) => x.lemma_printed(state3),
            None => {},
        }
        let state4 = (
            match self.expression {
                Some(x) => x.walked::<CodePrinterVisitor>(state3),
                None => state3,
            }
        );
        assert(
            state4 =~= state3 + (
                match self.expression { Some(x) => x.source(), None => Seq::empty(), }
            )
        );
        lemma_appended(
            state,
            held,
            (match self.expression { Some(x) => x.source(), None => Seq::empty(), }),
        );
        let held = held + (match self.expression { Some(x) => x.source(), None => Seq::empty(), });
    }
}

impl TextLiteralView {
    /// The printing visitor, when it has walked the value, has written down the
    /// source text of the value behind what it had.
    pub proof fn lemma_printed(self, state: Seq<char>)
        ensures
            self.walked::<CodePrinterVisitor>(state) == state + self.source(),
        decreases self,
    {
        let state1 = walked_opt_token::<CodePrinterVisitor, _>(state, self.open);
        assert(state1 =~= state + opt_token_source(self.open));
        let held = opt_token_source(self.open);
        let state2 = walked_opt_token::<CodePrinterVisitor, _>(state1, self.newline);
        assert(state2 =~= state1 + opt_token_source(self.newline));
        lemma_appended(state, held, opt_token_source(self.newline));
        let held = held + opt_token_source(self.newline);
        TextElementView::lemma_printed_all(state2, self.elements, self.elements.len());
        assert(
            TextElementView::source_parts(
                self.elements
            ).subrange(
                0,
                self.elements.len() as int,
            ) =~= TextElementView::source_parts(self.elements)
        );
        let state3 = TextElementView::walked_all::<CodePrinterVisitor>(
            state2,
            self.elements,
            self.elements.len(),
        );
        assert(state3 =~= state2 + TextElementView::sources(self.elements));
        lemma_appended(state, held, TextElementView::sources(self.elements));
        let held = held + TextElementView::sources(self.elements);
        let state4 = walked_opt_token::<CodePrinterVisitor, _>(state3, self.close);
        assert(state4 =~= state3 + opt_token_source(self.close));
        lemma_appended(state, held, opt_token_source(self.close));
        let held = held + opt_token_source(self.close);
    }
}

impl MultipleOperatorErrorView {
    /// The printing visitor, when it has walked the value, has written down the
    /// source text of the value behind what it had.
    pub proof fn lemma_printed(self, state: Seq<char>)
        ensures
            self.walked::<CodePrinterVisitor>(state) == state + self.source(),
        decreases self,
    {
        lemma_printed_tokens(state, self.operators, self.operators.len());
        assert(
            token_sources(
                self.operators
            ).subrange(0, self.operators.len() as int) =~= token_sources(self.operators)
        );
        let state1 = walked_tokens::<CodePrinterVisitor, _>(
            state,
            self.operators,
            self.operators.len(),
        );
        assert(state1 =~= state + tokens_source(self.operators));
        let held = tokens_source(self.operators);
    }
}

impl MultiSegmentAppSegmentView {
    /// The printing visitor, when it has walked the value, has written down the
    /// source text of the value behind what it had.
    pub proof fn lemma_printed(self, state: Seq<char>)
        ensures
            self.walked::<CodePrinterVisitor>(state) == state + self.source(),
        decreases self,
    {
        let state1 = CodePrinterVisitor::step(state, self.header.item()).0;
        assert(state1 =~= state + self.header.source());
        let held = self.header.source();
        match self.body {
            Some(x) => x.lemma_printed(state1),
            None => {},
        }
        let state2 = (
            match self.body { Some(x) => x.walked::<CodePrinterVisitor>(state1), None => state1, }
        );
        assert(
            state2 =~= state1 + (match self.body { Some(x) => x.source(), None => Seq::empty(), })
        );
        lemma_appended(
            state,
            held,
            (match self.body { Some(x) => x.source(), None => Seq::empty(), }),
        );
        let held = held + (match self.body { Some(x) => x.source(), None => Seq::empty(), });
    }

    /// The printing visitor, when it has walked the first `upto` of the values,
    /// has written down their source text behind what it had.
    pub proof fn lemma_printed_all(
        state: Seq<char>,
        values: Seq<MultiSegmentAppSegmentView>,
        upto: nat,
    )
        requires
            upto <= values.len(),
        ensures
            MultiSegmentAppSegmentView::walked_all::<CodePrinterVisitor>(
                state,
                values,
                upto,
            ) == state + concat(
                MultiSegmentAppSegmentView::source_parts(values).subrange(0, upto as int),
            ),
        decreases values, upto,
    {
        let parts = MultiSegmentAppSegmentView::source_parts(values);
        if upto == 0 {
            assert(parts.subrange(0, 0) =~= Seq::<Seq<char>>::empty());
            assert(state + concat(parts.subrange(0, 0)) =~= state);
        } else {
            let before = (upto - 1) as nat;
            MultiSegmentAppSegmentView::lemma_printed_all(state, values, before);
            let mid = MultiSegmentAppSegmentView::walked_all::<CodePrinterVisitor>(
                state,
                values,
                before,
            );
            values[upto - 1].lemma_printed(mid);
            assert(parts.subrange(0, upto as int).drop_last() =~= parts.subrange(0, before as int));
            assert(parts[upto - 1] == values[upto - 1].source());
            lemma_appended(
                state,
                concat(parts.subrange(0, before as int)),
                values[upto - 1].source(),
            );
        }
    }
}

impl OperatorDelimitedTreeView {
    /// The printing visitor, when it has walked the value, has written down the
    /// source text of the value behind what it had.
    pub proof fn lemma_printed(self, state: Seq<char>)
        ensures
            self.walked::<CodePrinterVisitor>(state) == state + self.source(),
        decreases self,
    {
        let state1 = CodePrinterVisitor::step(state, self.operator.item()).0;
        assert(state1 =~= state + self.operator.source());
        let held = self.operator.source();
        match self.body {
            Some(x) => x.lemma_printed(state1),
            None => {},
        }
        let state2 = (
            match self.body { Some(x) => x.walked::<CodePrinterVisitor>(state1), None => state1, }
        );
        assert(
            state2 =~= state1 + (match self.body { Some(x) => x.source(), None => Seq::empty(), })
        );
        lemma_appended(
            state,
            held,
            (match self.body { Some(x) => x.source(), None => Seq::empty(), }),
        );
        let held = held + (match self.body { Some(x) => x.source(), None => Seq::empty(), });
    }

    /// The printing visitor, when it has walked the first `upto` of the values,
    /// has written down their source text behind what it had.
    pub proof fn lemma_printed_all(
        state: Seq<char>,
        values: Seq<OperatorDelimitedTreeView>,
        upto: nat,
    )
        requires
            upto <= values.len(),
        ensures
            OperatorDelimitedTreeView::walked_all::<CodePrinterVisitor>(
                state,
                values,
                upto,
            ) == state + concat(
                OperatorDelimitedTreeView::source_parts(values).subrange(0, upto as int),
            ),
        decreases values, upto,
    {
        let parts = OperatorDelimitedTreeView::source_parts(values);
        if upto == 0 {
            assert(parts.subrange(0, 0) =~= Seq::<Seq<char>>::empty());
            assert(state + concat(parts.subrange(0, 0)) =~= state);
        } else {
            let before = (upto - 1) as nat;
            OperatorDelimitedTreeView::lemma_printed_all(state, values, before);
            let mid = OperatorDelimitedTreeView::walked_all::<CodePrinterVisitor>(
                state,
                values,
                before,
            );
            values[upto - 1].lemma_printed(mid);
            assert(parts.subrange(0, upto as int).drop_last() =~= parts.subrange(0, before as int));
            assert(parts[upto - 1] == values[upto - 1].source());
            lemma_appended(
                state,
                concat(parts.subrange(0, before as int)),
                values[upto - 1].source(),
            );
        }
    }
}

/// Every node of the sequence is valid.
pub open spec fn all_sound(trees: Seq<TreeView>) -> bool {
    forall|i: int| 0 <= i < trees.len() ==> (#[trigger] trees[i]).valid()
}

/// Two runs of valid nodes are one run of valid nodes.
pub proof fn lemma_all_sound_append(front: Seq<TreeView>, back: Seq<TreeView>)
    requires
        all_sound(front),
        all_sound(back),
    ensures
        all_sound(front + back),
{
    assert forall|i: int| 0 <= i < (
        front + back
    ).len() implies (#[trigger] (front + back)[i]).valid() by {
        if i < front.len() {
            assert(front[i].valid());
        } else {
            assert(back[i - front.len()].valid());
        }
    }
}

/// Runs of valid nodes, put one after the other, are one run of valid nodes.
pub proof fn lemma_all_sound_concat(parts: Seq<Seq<TreeView>>)
    requires
        forall|i: int| 0 <= i < parts.len() ==> all_sound(#[trigger] parts[i]),
    ensures
        all_sound(concat(parts)),
    decreases parts.len(),
{
    if parts.len() > 0 {
        lemma_all_sound_concat(parts.drop_last());
        lemma_all_sound_append(concat(parts.drop_last()), parts.last());
    }
}

impl TreeView {
    /// Every node of a valid tree is valid: the tree itself and every node
    /// inside it has a span that covers exactly the text beneath it.
    pub proof fn lemma_trees_valid(self)
        requires
            self.valid(),
        ensures
            all_sound(self.trees()),
        decreases self,
    {
        (*self.variant).lemma_trees_valid();
        lemma_all_sound_append(seq![self], (*self.variant).trees());
    }
}

/// Every node inside a valid `Invalid` is valid.
proof fn lemma_trees_valid_of_invalid(node: VariantView)
    requires
        (node is Invalid),
        node.valid(),
    ensures
        all_sound(node.trees()),
    decreases node, 0int,
{
    match node {
        VariantView::Invalid { error, ast } => {
            ast.lemma_trees_valid();
            let held = ast.trees();
        },
        _ => {},
    }
}

/// Every node inside a valid `BodyBlock` is valid.
proof fn lemma_trees_valid_of_body_block(node: VariantView)
    requires
        (node is BodyBlock),
        node.valid(),
    ensures
        all_sound(node.trees()),
    decreases node, 0int,
{
    match node {
        VariantView::BodyBlock { statements } => {
            LineView::lemma_all_trees_valid(statements);
            let held = LineView::all_trees(statements);
        },
        _ => {},
    }
}

/// Every node inside a valid `ArgumentBlockApplication` is valid.
proof fn lemma_trees_valid_of_argument_block_application(node: VariantView)
    requires
        (node is ArgumentBlockApplication),
        node.valid(),
    ensures
        all_sound(node.trees()),
    decreases node, 0int,
{
    match node {
        VariantView::ArgumentBlockApplication { lhs, arguments } => {
            match lhs {
                Some(x) => x.lemma_trees_valid(),
                None => {},
            }
            let held = (match lhs { Some(x) => x.trees(), None => Seq::empty(), });
            LineView::lemma_all_trees_valid(arguments);
            lemma_all_sound_append(held, LineView::all_trees(arguments));
            let held = held + LineView::all_trees(arguments);
        },
        _ => {},
    }
}

/// Every node inside a valid `OperatorBlockApplication` is valid.
proof fn lemma_trees_valid_of_operator_block_application(node: VariantView)
    requires
        (node is OperatorBlockApplication),
        node.valid(),
    ensures
        all_sound(node.trees()),
    decreases node, 0int,
{
    match node {
        VariantView::OperatorBlockApplication { lhs, expressions, excess } => {
            match lhs {
                Some(x) => x.lemma_trees_valid(),
                None => {},
            }
            let held = (match lhs { Some(x) => x.trees(), None => Seq::empty(), });
            OperatorLineView::lemma_all_trees_valid(expressions);
            lemma_all_sound_append(held, OperatorLineView::all_trees(expressions));
            let held = held + OperatorLineView::all_trees(expressions);
            LineView::lemma_all_trees_valid(excess);
            lemma_all_sound_append(held, LineView::all_trees(excess));
            let held = held + LineView::all_trees(excess);
        },
        _ => {},
    }
}

/// Every node inside a valid `Ident` is valid.
proof fn lemma_trees_valid_of_ident(node: VariantView)
    requires
        (node is Ident),
        node.valid(),
    ensures
        all_sound(node.trees()),
    decreases node, 0int,
{
    match node {
        VariantView::Ident { token } => {
        },
        _ => {},
    }
}

/// Every node inside a valid `Private` is valid.
proof fn lemma_trees_valid_of_private(node: VariantView)
    requires
        (node is Private),
        node.valid(),
    ensures
        all_sound(node.trees()),
    decreases node, 0int,
{
    match node {
        VariantView::Private { keyword, body } => {
            match body {
                Some(x) => x.lemma_trees_valid(),
                None => {},
            }
            let held = (match body { Some(x) => x.trees(), None => Seq::empty(), });
        },
        _ => {},
    }
}

/// Every node inside a valid `Number` is valid.
proof fn lemma_trees_valid_of_number(node: VariantView)
    requires
        (node is Number),
        node.valid(),
    ensures
        all_sound(node.trees()),
    decreases node, 0int,
{
    match node {
        VariantView::Number { base, integer, fractional_digits } => {
        },
        _ => {},
    }
}

/// Every node inside a valid `Wildcard` is valid.
proof fn lemma_trees_valid_of_wildcard(node: VariantView)
    requires
        (node is Wildcard),
        node.valid(),
    ensures
        all_sound(node.trees()),
    decreases node, 0int,
{
    match node {
        VariantView::Wildcard { token, de_bruijn_index } => {
        },
        _ => {},
    }
}

/// Every node inside a valid `SuspendedDefaultArguments` is valid.
proof fn lemma_trees_valid_of_suspended_default_arguments(node: VariantView)
    requires
        (node is SuspendedDefaultArguments),
        node.valid(),
    ensures
        all_sound(node.trees()),
    decreases node, 0int,
{
    match node {
        VariantView::SuspendedDefaultArguments { token } => {
        },
        _ => {},
    }
}

/// Every node inside a valid `TextLiteral` is valid.
proof fn lemma_trees_valid_of_text_literal(node: VariantView)
    requires
        (node is TextLiteral),
        node.valid(),
    ensures
        all_sound(node.trees()),
    decreases node, 0int,
{
    match node {
        VariantView::TextLiteral { open, newline, elements, close, closed } => {
            TextElementView::lemma_all_trees_valid(elements);
            let held = TextElementView::all_trees(elements);
        },
        _ => {},
    }
}

/// Every node inside a valid `App` is valid.
proof fn lemma_trees_valid_of_app(node: VariantView)
    requires
        (node is App),
        node.valid(),
    ensures
        all_sound(node.trees()),
    decreases node, 0int,
{
    match node {
        VariantView::App { func, arg } => {
            func.lemma_trees_valid();
            let held = func.trees();
            arg.lemma_trees_valid();
            lemma_all_sound_append(held, arg.trees());
            let held = held + arg.trees();
        },
        _ => {},
    }
}

/// Every node inside a valid `NamedApp` is valid.
proof fn lemma_trees_valid_of_named_app(node: VariantView)
    requires
        (node is NamedApp),
        node.valid(),
    ensures
        all_sound(node.trees()),
    decreases node, 0int,
{
    match node {
        VariantView::NamedApp { func, open, name, equals, arg, close } => {
            func.lemma_trees_valid();
            let held = func.trees();
            arg.lemma_trees_valid();
            lemma_all_sound_append(held, arg.trees());
            let held = held + arg.trees();
        },
        _ => {},
    }
}

/// Every node inside a valid `OprApp` is valid.
proof fn lemma_trees_valid_of_opr_app(node: VariantView)
    requires
        (node is OprApp),
        node.valid(),
    ensures
        all_sound(node.trees()),
    decreases node, 0int,
{
    match node {
        VariantView::OprApp { lhs, opr, rhs } => {
            match lhs {
                Some(x) => x.lemma_trees_valid(),
                None => {},
            }
            let held = (match lhs { Some(x) => x.trees(), None => Seq::empty(), });
            match rhs {
                Some(x) => x.lemma_trees_valid(),
                None => {},
            }
            lemma_all_sound_append(
                held,
                (match rhs { Some(x) => x.trees(), None => Seq::empty(), }),
            );
            let held = held + (match rhs { Some(x) => x.trees(), None => Seq::empty(), });
        },
        _ => {},
    }
}

/// Every node inside a valid `UnaryOprApp` is valid.
proof fn lemma_trees_valid_of_unary_opr_app(node: VariantView)
    requires
        (node is UnaryOprApp),
        node.valid(),
    ensures
        all_sound(node.trees()),
    decreases node, 0int,
{
    match node {
        VariantView::UnaryOprApp { opr, rhs } => {
            match rhs {
                Some(x) => x.lemma_trees_valid(),
                None => {},
            }
            let held = (match rhs { Some(x) => x.trees(), None => Seq::empty(), });
        },
        _ => {},
    }
}

/// Every node inside a valid `AutoscopedIdentifier` is valid.
proof fn lemma_trees_valid_of_autoscoped_identifier(node: VariantView)
    requires
        (node is AutoscopedIdentifier),
        node.valid(),
    ensures
        all_sound(node.trees()),
    decreases node, 0int,
{
    match node {
        VariantView::AutoscopedIdentifier { opr, ident } => {
        },
        _ => {},
    }
}

/// Every node inside a valid `OprSectionBoundary` is valid.
proof fn lemma_trees_valid_of_opr_section_boundary(node: VariantView)
    requires
        (node is OprSectionBoundary),
        node.valid(),
    ensures
        all_sound(node.trees()),
    decreases node, 0int,
{
    match node {
        VariantView::OprSectionBoundary { arguments, ast } => {
            ast.lemma_trees_valid();
            let held = ast.trees();
        },
        _ => {},
    }
}

/// Every node inside a valid `TemplateFunction` is valid.
proof fn lemma_trees_valid_of_template_function(node: VariantView)
    requires
        (node is TemplateFunction),
        node.valid(),
    ensures
        all_sound(node.trees()),
    decreases node, 0int,
{
    match node {
        VariantView::TemplateFunction { arguments, ast } => {
            ast.lemma_trees_valid();
            let held = ast.trees();
        },
        _ => {},
    }
}

/// Every node inside a valid `MultiSegmentApp` is valid.
proof fn lemma_trees_valid_of_multi_segment_app(node: VariantView)
    requires
        (node is MultiSegmentApp),
        node.valid(),
    ensures
        all_sound(node.trees()),
    decreases node, 0int,
{
    match node {
        VariantView::MultiSegmentApp { segments } => {
            MultiSegmentAppSegmentView::lemma_all_trees_valid(segments);
            let held = MultiSegmentAppSegmentView::all_trees(segments);
        },
        _ => {},
    }
}

/// Every node inside a valid `TypeDef` is valid.
proof fn lemma_trees_valid_of_type_def(node: VariantView)
    requires
        (node is TypeDef),
        node.valid(),
    ensures
        all_sound(node.trees()),
    decreases node, 0int,
{
    match node {
        VariantView::TypeDef { keyword, name, params, body } => {
            ArgumentDefinitionView::lemma_all_trees_valid(params);
            let held = ArgumentDefinitionView::all_trees(params);
            LineView::lemma_all_trees_valid(body);
            lemma_all_sound_append(held, LineView::all_trees(body));
            let held = held + LineView::all_trees(body);
        },
        _ => {},
    }
}

/// Every node inside a valid `Assignment` is valid.
proof fn lemma_trees_valid_of_assignment(node: VariantView)
    requires
        (node is Assignment),
        node.valid(),
    ensures
        all_sound(node.trees()),
    decreases node, 0int,
{
    match node {
        VariantView::Assignment { pattern, equals, expr } => {
            pattern.lemma_trees_valid();
            let held = pattern.trees();
            expr.lemma_trees_valid();
            lemma_all_sound_append(held, expr.trees());
            let held = held + expr.trees();
        },
        _ => {},
    }
}

/// Every node inside a valid `Function` is valid.
proof fn lemma_trees_valid_of_function(node: VariantView)
    requires
        (node is Function),
        node.valid(),
    ensures
        all_sound(node.trees()),
    decreases node, 0int,
{
    match node {
        VariantView::Function { name, args, returns_, equals, body } => {
            name.lemma_trees_valid();
            let held = name.trees();
            ArgumentDefinitionView::lemma_all_trees_valid(args);
            lemma_all_sound_append(held, ArgumentDefinitionView::all_trees(args));
            let held = held + ArgumentDefinitionView::all_trees(args);
            match returns_ {
                Some(x) => x.lemma_trees_valid(),
                None => {},
            }
            lemma_all_sound_append(
                held,
                (match returns_ { Some(x) => x.trees(), None => Seq::empty(), }),
            );
            let held = held + (match returns_ { Some(x) => x.trees(), None => Seq::empty(), });
            match body {
                Some(x) => x.lemma_trees_valid(),
                None => {},
            }
            lemma_all_sound_append(
                held,
                (match body { Some(x) => x.trees(), None => Seq::empty(), }),
            );
            let held = held + (match body { Some(x) => x.trees(), None => Seq::empty(), });
        },
        _ => {},
    }
}

/// Every node inside a valid `ForeignFunction` is valid.
proof fn lemma_trees_valid_of_foreign_function(node: VariantView)
    requires
        (node is ForeignFunction),
        node.valid(),
    ensures
        all_sound(node.trees()),
    decreases node, 0int,
{
    match node {
        VariantView::ForeignFunction { foreign, language, name, args, equals, body } => {
            ArgumentDefinitionView::lemma_all_trees_valid(args);
            let held = ArgumentDefinitionView::all_trees(args);
            body.lemma_trees_valid();
            lemma_all_sound_append(held, body.trees());
            let held = held + body.trees();
        },
        _ => {},
    }
}

/// Every node inside a valid `Import` is valid.
proof fn lemma_trees_valid_of_import(node: VariantView)
    requires
        (node is Import),
        node.valid(),
    ensures
        all_sound(node.trees()),
    decreases node, 0int,
{
    match node {
        VariantView::Import { polyglot, from, import, all, as_, hiding } => {
            match polyglot {
                Some(x) => x.lemma_trees_valid(),
                None => {},
            }
            let held = (match polyglot { Some(x) => x.trees(), None => Seq::empty(), });
            match from {
                Some(x) => x.lemma_trees_valid(),
                None => {},
            }
            lemma_all_sound_append(
                held,
                (match from { Some(x) => x.trees(), None => Seq::empty(), }),
            );
            let held = held + (match from { Some(x) => x.trees(), None => Seq::empty(), });
            import.lemma_trees_valid();
            lemma_all_sound_append(held, import.trees());
            let held = held + import.trees();
            match as_ {
                Some(x) => x.lemma_trees_valid(),
                None => {},
            }
            lemma_all_sound_append(
                held,
                (match as_ { Some(x) => x.trees(), None => Seq::empty(), }),
            );
            let held = held + (match as_ { Some(x) => x.trees(), None => Seq::empty(), });
            match hiding {
                Some(x) => x.lemma_trees_valid(),
                None => {},
            }
            lemma_all_sound_append(
                held,
                (match hiding { Some(x) => x.trees(), None => Seq::empty(), }),
            );
            let held = held + (match hiding { Some(x) => x.trees(), None => Seq::empty(), });
        },
        _ => {},
    }
}

/// Every node inside a valid `Export` is valid.
proof fn lemma_trees_valid_of_export(node: VariantView)
    requires
        (node is Export),
        node.valid(),
    ensures
        all_sound(node.trees()),
    decreases node, 0int,
{
    match node {
        VariantView::Export { from, export, all, as_, hiding } => {
            match from {
                Some(x) => x.lemma_trees_valid(),
                None => {},
            }
            let held = (match from { Some(x) => x.trees(), None => Seq::empty(), });
            export.lemma_trees_valid();
            lemma_all_sound_append(held, export.trees());
            let held = held + export.trees();
            match as_ {
                Some(x) => x.lemma_trees_valid(),
                None => {},
            }
            lemma_all_sound_append(
                held,
                (match as_ { Some(x) => x.trees(), None => Seq::empty(), }),
            );
            let held = held + (match as_ { Some(x) => x.trees(), None => Seq::empty(), });
            match hiding {
                Some(x) => x.lemma_trees_valid(),
                None => {},
            }
            lemma_all_sound_append(
                held,
                (match hiding { Some(x) => x.trees(), None => Seq::empty(), }),
            );
            let held = held + (match hiding { Some(x) => x.trees(), None => Seq::empty(), });
        },
        _ => {},
    }
}

/// Every node inside a valid `Group` is valid.
proof fn lemma_trees_valid_of_group(node: VariantView)
    requires
        (node is Group),
        node.valid(),
    ensures
        all_sound(node.trees()),
    decreases node, 0int,
{
    match node {
        VariantView::Group { open, body, close } => {
            match body {
                Some(x) => x.lemma_trees_valid(),
                None => {},
            }
            let held = (match body { Some(x) => x.trees(), None => Seq::empty(), });
        },
        _ => {},
    }
}

/// Every node inside a valid `TypeSignature` is valid.
proof fn lemma_trees_valid_of_type_signature(node: VariantView)
    requires
        (node is TypeSignature),
        node.valid(),
    ensures
        all_sound(node.trees()),
    decreases node, 0int,
{
    match node {
        VariantView::TypeSignature { variable, operator, type_ } => {
            variable.lemma_trees_valid();
            let held = variable.trees();
            type_.lemma_trees_valid();
            lemma_all_sound_append(held, type_.trees());
            let held = held + type_.trees();
        },
        _ => {},
    }
}

/// Every node inside a valid `TypeAnnotated` is valid.
proof fn lemma_trees_valid_of_type_annotated(node: VariantView)
    requires
        (node is TypeAnnotated),
        node.valid(),
    ensures
        all_sound(node.trees()),
    decreases node, 0int,
{
    match node {
        VariantView::TypeAnnotated { expression, operator, type_ } => {
            expression.lemma_trees_valid();
            let held = expression.trees();
            type_.lemma_trees_valid();
            lemma_all_sound_append(held, type_.trees());
            let held = held + type_.trees();
        },
        _ => {},
    }
}

/// Every node inside a valid `CaseOf` is valid.
proof fn lemma_trees_valid_of_case_of(node: VariantView)
    requires
        (node is CaseOf),
        node.valid(),
    ensures
        all_sound(node.trees()),
    decreases node, 0int,
{
    match node {
        VariantView::CaseOf { case, expression, of, cases } => {
            match expression {
                Some(x) => x.lemma_trees_valid(),
                None => {},
            }
            let held = (match expression { Some(x) => x.trees(), None => Seq::empty(), });
            CaseLineView::lemma_all_trees_valid(cases);
            lemma_all_sound_append(held, CaseLineView::all_trees(cases));
            let held = held + CaseLineView::all_trees(cases);
        },
        _ => {},
    }
}

/// Every node inside a valid `Lambda` is valid.
proof fn lemma_trees_valid_of_lambda(node: VariantView)
    requires
        (node is Lambda),
        node.valid(),
    ensures
        all_sound(node.trees()),
    decreases node, 0int,
{
    match node {
        VariantView::Lambda { operator, arrow } => {
            match arrow {
                Some(x) => x.lemma_trees_valid(),
                None => {},
            }
            let held = (match arrow { Some(x) => x.trees(), None => Seq::empty(), });
        },
        _ => {},
    }
}

/// Every node inside a valid `Array` is valid.
proof fn lemma_trees_valid_of_array(node: VariantView)
    requires
        (node is Array),
        node.valid(),
    ensures
        all_sound(node.trees()),
    decreases node, 0int,
{
    match node {
        VariantView::Array { left, first, rest, right } => {
            match first {
                Some(x) => x.lemma_trees_valid(),
                None => {},
            }
            let held = (match first { Some(x) => x.trees(), None => Seq::empty(), });
            OperatorDelimitedTreeView::lemma_all_trees_valid(rest);
            lemma_all_sound_append(held, OperatorDelimitedTreeView::all_trees(rest));
            let held = held + OperatorDelimitedTreeView::all_trees(rest);
        },
        _ => {},
    }
}

/// Every node inside a valid `Tuple` is valid.
proof fn lemma_trees_valid_of_tuple(node: VariantView)
    requires
        (node is Tuple),
        node.valid(),
    ensures
        all_sound(node.trees()),
    decreases node, 0int,
{
    match node {
        VariantView::Tuple { left, first, rest, right } => {
            match first {
                Some(x) => x.lemma_trees_valid(),
                None => {},
            }
            let held = (match first { Some(x) => x.trees(), None => Seq::empty(), });
            OperatorDelimitedTreeView::lemma_all_trees_valid(rest);
            lemma_all_sound_append(held, OperatorDelimitedTreeView::all_trees(rest));
            let held = held + OperatorDelimitedTreeView::all_trees(rest);
        },
        _ => {},
    }
}

/// Every node inside a valid `Annotated` is valid.
proof fn lemma_trees_valid_of_annotated(node: VariantView)
    requires
        (node is Annotated),
        node.valid(),
    ensures
        all_sound(node.trees()),
    decreases node, 0int,
{
    match node {
        VariantView::Annotated { token, annotation, argument, newlines, expression } => {
            match argument {
                Some(x) => x.lemma_trees_valid(),
                None => {},
            }
            let held = (match argument { Some(x) => x.trees(), None => Seq::empty(), });
            match expression {
                Some(x) => x.lemma_trees_valid(),
                None => {},
            }
            lemma_all_sound_append(
                held,
                (match expression { Some(x) => x.trees(), None => Seq::empty(), }),
            );
            let held = held + (match expression { Some(x) => x.trees(), None => Seq::empty(), });
        },
        _ => {},
    }
}

/// Every node inside a valid `AnnotatedBuiltin` is valid.
proof fn lemma_trees_valid_of_annotated_builtin(node: VariantView)
    requires
        (node is AnnotatedBuiltin),
        node.valid(),
    ensures
        all_sound(node.trees()),
    decreases node, 0int,
{
    match node {
        VariantView::AnnotatedBuiltin { token, annotation, newlines, expression } => {
            match expression {
                Some(x) => x.lemma_trees_valid(),
                None => {},
            }
            let held = (match expression { Some(x) => x.trees(), None => Seq::empty(), });
        },
        _ => {},
    }
}

/// Every node inside a valid `Documented` is valid.
proof fn lemma_trees_valid_of_documented(node: VariantView)
    requires
        (node is Documented),
        node.valid(),
    ensures
        all_sound(node.trees()),
    decreases node, 0int,
{
    match node {
        VariantView::Documented { documentation, expression } => {
            documentation.lemma_trees_valid();
            let held = documentation.trees();
            match expression {
                Some(x) => x.lemma_trees_valid(),
                None => {},
            }
            lemma_all_sound_append(
                held,
                (match expression { Some(x) => x.trees(), None => Seq::empty(), }),
            );
            let held = held + (match expression { Some(x) => x.trees(), None => Seq::empty(), });
        },
        _ => {},
    }
}

/// Every node inside a valid `ConstructorDefinition` is valid.
proof fn lemma_trees_valid_of_constructor_definition(node: VariantView)
    requires
        (node is ConstructorDefinition),
        node.valid(),
    ensures
        all_sound(node.trees()),
    decreases node, 0int,
{
    match node {
        VariantView::ConstructorDefinition { constructor, arguments, block } => {
            ArgumentDefinitionView::lemma_all_trees_valid(arguments);
            let held = ArgumentDefinitionView::all_trees(arguments);
            ArgumentDefinitionLineView::lemma_all_trees_valid(block);
            lemma_all_sound_append(held, ArgumentDefinitionLineView::all_trees(block));
            let held = held + ArgumentDefinitionLineView::all_trees(block);
        },
        _ => {},
    }
}

impl VariantView {
    /// Every node inside a valid value is valid.
    pub proof fn lemma_trees_valid(self)
        requires
            self.valid(),
        ensures
            all_sound(self.trees()),
        decreases self, 1int,
    {
        match self {
            VariantView::Invalid { .. } => lemma_trees_valid_of_invalid(self),
            VariantView::BodyBlock { .. } => lemma_trees_valid_of_body_block(self),
            VariantView::ArgumentBlockApplication { .. } => lemma_trees_valid_of_argument_block_application(
                self
            ),
            VariantView::OperatorBlockApplication { .. } => lemma_trees_valid_of_operator_block_application(
                self
            ),
            VariantView::Ident { .. } => lemma_trees_valid_of_ident(self),
            VariantView::Private { .. } => lemma_trees_valid_of_private(self),
            VariantView::Number { .. } => lemma_trees_valid_of_number(self),
            VariantView::Wildcard { .. } => lemma_trees_valid_of_wildcard(self),
            VariantView::SuspendedDefaultArguments { .. } => lemma_trees_valid_of_suspended_default_arguments(
                self
            ),
            VariantView::TextLiteral { .. } => lemma_trees_valid_of_text_literal(self),
            VariantView::App { .. } => lemma_trees_valid_of_app(self),
            VariantView::NamedApp { .. } => lemma_trees_valid_of_named_app(self),
            VariantView::OprApp { .. } => lemma_trees_valid_of_opr_app(self),
            VariantView::UnaryOprApp { .. } => lemma_trees_valid_of_unary_opr_app(self),
            VariantView::AutoscopedIdentifier { .. } => lemma_trees_valid_of_autoscoped_identifier(
                self
            ),
            VariantView::OprSectionBoundary { .. } => lemma_trees_valid_of_opr_section_boundary(
                self
            ),
            VariantView::TemplateFunction { .. } => lemma_trees_valid_of_template_function(self),
            VariantView::MultiSegmentApp { .. } => lemma_trees_valid_of_multi_segment_app(self),
            VariantView::TypeDef { .. } => lemma_trees_valid_of_type_def(self),
            VariantView::Assignment { .. } => lemma_trees_valid_of_assignment(self),
            VariantView::Function { .. } => lemma_trees_valid_of_function(self),
            VariantView::ForeignFunction { .. } => lemma_trees_valid_of_foreign_function(self),
            VariantView::Import { .. } => lemma_trees_valid_of_import(self),
            VariantView::Export { .. } => lemma_trees_valid_of_export(self),
            VariantView::Group { .. } => lemma_trees_valid_of_group(self),
            VariantView::TypeSignature { .. } => lemma_trees_valid_of_type_signature(self),
            VariantView::TypeAnnotated { .. } => lemma_trees_valid_of_type_annotated(self),
            VariantView::CaseOf { .. } => lemma_trees_valid_of_case_of(self),
            VariantView::Lambda { .. } => lemma_trees_valid_of_lambda(self),
            VariantView::Array { .. } => lemma_trees_valid_of_array(self),
            VariantView::Tuple { .. } => lemma_trees_valid_of_tuple(self),
            VariantView::Annotated { .. } => lemma_trees_valid_of_annotated(self),
            VariantView::AnnotatedBuiltin { .. } => lemma_trees_valid_of_annotated_builtin(self),
            VariantView::Documented { .. } => lemma_trees_valid_of_documented(self),
            VariantView::ConstructorDefinition { .. } => lemma_trees_valid_of_constructor_definition(
                self
            ),
        }
    }
}

impl LineView {
    /// Every node inside a valid value is valid.
    pub proof fn lemma_trees_valid(self)
        requires
            self.valid(),
        ensures
            all_sound(self.trees()),
        decreases self,
    {
        match self.expression {
            Some(x) => x.lemma_trees_valid(),
            None => {},
        }
        let held = (match self.expression { Some(x) => x.trees(), None => Seq::empty(), });
    }

    /// Every node inside valid values is valid.
    pub proof fn lemma_all_trees_valid(values: Seq<LineView>)
        requires
            LineView::all_valid(values),
        ensures
            all_sound(LineView::all_trees(values)),
        decreases values,
    {
        let parts = LineView::tree_parts(values);
        assert forall|i: int| 0 <= i < parts.len() implies all_sound(#[trigger] parts[i]) by {
            assert(values[i].valid());
            values[i].lemma_trees_valid();
        }
        lemma_all_sound_concat(parts);
    }
}

impl OperatorBlockExpressionView {
    /// Every node inside a valid value is valid.
    pub proof fn lemma_trees_valid(self)
        requires
            self.valid(),
        ensures
            all_sound(self.trees()),
        decreases self,
    {
        self.expression.lemma_trees_valid();
        let held = self.expression.trees();
    }
}

impl OperatorLineView {
    /// Every node inside a valid value is valid.
    pub proof fn lemma_trees_valid(self)
        requires
            self.valid(),
        ensures
            all_sound(self.trees()),
        decreases self,
    {
        match self.expression {
            Some(x) => x.lemma_trees_valid(),
            None => {},
        }
        let held = (match self.expression { Some(x) => x.trees(), None => Seq::empty(), });
    }

    /// Every node inside valid values is valid.
    pub proof fn lemma_all_trees_valid(values: Seq<OperatorLineView>)
        requires
            OperatorLineView::all_valid(values),
        ensures
            all_sound(OperatorLineView::all_trees(values)),
        decreases values,
    {
        let parts = OperatorLineView::tree_parts(values);
        assert forall|i: int| 0 <= i < parts.len() implies all_sound(#[trigger] parts[i]) by {
            assert(values[i].valid());
            values[i].lemma_trees_valid();
        }
        lemma_all_sound_concat(parts);
    }
}

impl ArgumentDefinitionLineView {
    /// Every node inside a valid value is valid.
    pub proof fn lemma_trees_valid(self)
        requires
            self.valid(),
        ensures
            all_sound(self.trees()),
        decreases self,
    {
        match self.argument {
            Some(x) => x.lemma_trees_valid(),
            None => {},
        }
        let held = (match self.argument { Some(x) => x.trees(), None => Seq::empty(), });
    }

    /// Every node inside valid values is valid.
    pub proof fn lemma_all_trees_valid(values: Seq<ArgumentDefinitionLineView>)
        requires
            ArgumentDefinitionLineView::all_valid(values),
        ensures
            all_sound(ArgumentDefinitionLineView::all_trees(values)),
        decreases values,
    {
        let parts = ArgumentDefinitionLineView::tree_parts(values);
        assert forall|i: int| 0 <= i < parts.len() implies all_sound(#[trigger] parts[i]) by {
            assert(values[i].valid());
            values[i].lemma_trees_valid();
        }
        lemma_all_sound_concat(parts);
    }
}

impl TextElementView {
    /// Every node inside a valid value is valid.
    pub proof fn lemma_trees_valid(self)
        requires
            self.valid(),
        ensures
            all_sound(self.trees()),
        decreases self,
    {
        match self {
            TextElementView::Section { text } => {
            },
            TextElementView::Escape { token } => {
            },
            TextElementView::Newline { newline } => {
            },
            TextElementView::Splice { open, expression, close } => {
                match expression {
                    Some(x) => x.lemma_trees_valid(),
                    None => {},
                }
                let held = (match expression { Some(x) => x.trees(), None => Seq::empty(), });
            },
        }
    }

    /// Every node inside valid values is valid.
    pub proof fn lemma_all_trees_valid(values: Seq<TextElementView>)
        requires
            TextElementView::all_valid(values),
        ensures
            all_sound(TextElementView::all_trees(values)),
        decreases values,
    {
        let parts = TextElementView::tree_parts(values);
        assert forall|i: int| 0 <= i < parts.len() implies all_sound(#[trigger] parts[i]) by {
            assert(values[i].valid());
            values[i].lemma_trees_valid();
        }
        lemma_all_sound_concat(parts);
    }
}

impl DocCommentView {
    /// Every node inside a valid value is valid.
    pub proof fn lemma_trees_valid(self)
        requires
            self.valid(),
        ensures
            all_sound(self.trees()),
        decreases self,
    {
        TextElementView::lemma_all_trees_valid(self.elements);
        let held = TextElementView::all_trees(self.elements);
    }
}

impl ArgumentDefinitionView {
    /// Every node inside a valid value is valid.
    pub proof fn lemma_trees_valid(self)
        requires
            self.valid(),
        ensures
            all_sound(self.trees()),
        decreases self,
    {
        self.pattern.lemma_trees_valid();
        let held = self.pattern.trees();
        match self.type_ {
            Some(x) => x.lemma_trees_valid(),
            None => {},
        }
        lemma_all_sound_append(
            held,
            (match self.type_ { Some(x) => x.trees(), None => Seq::empty(), }),
        );
        let held = held + (match self.type_ { Some(x) => x.trees(), None => Seq::empty(), });
        match self.default {
            Some(x) => x.lemma_trees_valid(),
            None => {},
        }
        lemma_all_sound_append(
            held,
            (match self.default { Some(x) => x.trees(), None => Seq::empty(), }),
        );
        let held = held + (match self.default { Some(x) => x.trees(), None => Seq::empty(), });
    }

    /// Every node inside valid values is valid.
    pub proof fn lemma_all_trees_valid(values: Seq<ArgumentDefinitionView>)
        requires
            ArgumentDefinitionView::all_valid(values),
        ensures
            all_sound(ArgumentDefinitionView::all_trees(values)),
        decreases values,
    {
        let parts = ArgumentDefinitionView::tree_parts(values);
        assert forall|i: int| 0 <= i < parts.len() implies all_sound(#[trigger] parts[i]) by {
            assert(values[i].valid());
            values[i].lemma_trees_valid();
        }
        lemma_all_sound_concat(parts);
    }
}

impl ArgumentDefaultView {
    /// Every node inside a valid value is valid.
    pub proof fn lemma_trees_valid(self)
        requires
            self.valid(),
        ensures
            all_sound(self.trees()),
        decreases self,
    {
        self.expression.lemma_trees_valid();
        let held = self.expression.trees();
    }
}

impl ArgumentTypeView {
    /// Every node inside a valid value is valid.
    pub proof fn lemma_trees_valid(self)
        requires
            self.valid(),
        ensures
            all_sound(self.trees()),
        decreases self,
    {
        self.type_.lemma_trees_valid();
        let held = self.type_.trees();
    }
}

impl ReturnSpecificationView {
    /// Every node inside a valid value is valid.
    pub proof fn lemma_trees_valid(self)
        requires
            self.valid(),
        ensures
            all_sound(self.trees()),
        decreases self,
    {
        self.type_.lemma_trees_valid();
        let held = self.type_.trees();
    }
}

impl CaseLineView {
    /// Every node inside a valid value is valid.
    pub proof fn lemma_trees_valid(self)
        requires
            self.valid(),
        ensures
            all_sound(self.trees()),
        decreases self,
    {
        match self.case {
            Some(x) => x.lemma_trees_valid(),
            None => {},
        }
        let held = (match self.case { Some(x) => x.trees(), None => Seq::empty(), });
    }

    /// Every node inside valid values is valid.
    pub proof fn lemma_all_trees_valid(values: Seq<CaseLineView>)
        requires
            CaseLineView::all_valid(values),
        ensures
            all_sound(CaseLineView::all_trees(values)),
        decreases values,
    {
        let parts = CaseLineView::tree_parts(values);
        assert forall|i: int| 0 <= i < parts.len() implies all_sound(#[trigger] parts[i]) by {
            assert(values[i].valid());
            values[i].lemma_trees_valid();
        }
        lemma_all_sound_concat(parts);
    }
}

impl CaseView {
    /// Every node inside a valid value is valid.
    pub proof fn lemma_trees_valid(self)
        requires
            self.valid(),
        ensures
            all_sound(self.trees()),
        decreases self,
    {
        match self.documentation {
            Some(x) => x.lemma_trees_valid(),
            None => {},
        }
        let held = (match self.documentation { Some(x) => x.trees(), None => Seq::empty(), });
        match self.pattern {
            Some(x) => x.lemma_trees_valid(),
            None => {},
        }
        lemma_all_sound_append(
            held,
            (match self.pattern { Some(x) => x.trees(), None => Seq::empty(), }),
        );
        let held = held + (match self.pattern { Some(x) => x.trees(), None => Seq::empty(), });
        match self.expression {
            Some(x) => x.lemma_trees_valid(),
            None => {},
        }
        lemma_all_sound_append(
            held,
            (match self.expression { Some(x) => x.trees(), None => Seq::empty(), }),
        );
        let held = held + (match self.expression { Some(x) => x.trees(), None => Seq::empty(), });
    }
}

impl TextLiteralView {
    /// Every node inside a valid value is valid.
    pub proof fn lemma_trees_valid(self)
        requires
            self.valid(),
        ensures
            all_sound(self.trees()),
        decreases self,
    {
        TextElementView::lemma_all_trees_valid(self.elements);
        let held = TextElementView::all_trees(self.elements);
    }
}

impl MultiSegmentAppSegmentView {
    /// Every node inside a valid value is valid.
    pub proof fn lemma_trees_valid(self)
        requires
            self.valid(),
        ensures
            all_sound(self.trees()),
        decreases self,
    {
        match self.body {
            Some(x) => x.lemma_trees_valid(),
            None => {},
        }
        let held = (match self.body { Some(x) => x.trees(), None => Seq::empty(), });
    }

    /// Every node inside valid values is valid.
    pub proof fn lemma_all_trees_valid(values: Seq<MultiSegmentAppSegmentView>)
        requires
            MultiSegmentAppSegmentView::all_valid(values),
        ensures
            all_sound(MultiSegmentAppSegmentView::all_trees(values)),
        decreases values,
    {
        let parts = MultiSegmentAppSegmentView::tree_parts(values);
        assert forall|i: int| 0 <= i < parts.len() implies all_sound(#[trigger] parts[i]) by {
            assert(values[i].valid());
            values[i].lemma_trees_valid();
        }
        lemma_all_sound_concat(parts);
    }
}

impl OperatorDelimitedTreeView {
    /// Every node inside a valid value is valid.
    pub proof fn lemma_trees_valid(self)
        requires
            self.valid(),
        ensures
            all_sound(self.trees()),
        decreases self,
    {
        match self.body {
            Some(x) => x.lemma_trees_valid(),
            None => {},
        }
        let held = (match self.body { Some(x) => x.trees(), None => Seq::empty(), });
    }

    /// Every node inside valid values is valid.
    pub proof fn lemma_all_trees_valid(values: Seq<OperatorDelimitedTreeView>)
        requires
            OperatorDelimitedTreeView::all_valid(values),
        ensures
            all_sound(OperatorDelimitedTreeView::all_trees(values)),
        decreases values,
    {
        let parts = OperatorDelimitedTreeView::tree_parts(values);
        assert forall|i: int| 0 <= i < parts.len() implies all_sound(#[trigger] parts[i]) by {
            assert(values[i].valid());
            values[i].lemma_trees_valid();
        }
        lemma_all_sound_concat(parts);
    }
}

} // verus!
