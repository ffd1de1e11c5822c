//! Blocks: the lines that stand, indented, under an expression.

use crate::source::Piece;
use crate::token;
use crate::token::Token;
use crate::tree::model::{TreeView, VariantView};
use crate::tree::{OperatorOrError, Tree};
use vstd::prelude::*;

verus! {

/// A line of a block: the newline that begins it, and what stands on it.
#[derive(Debug, PartialEq, Eq)]
pub struct Line {
    pub newline: Token<token::Newline>,
    pub expression: Option<Tree>,
}

/// An operator and its right operand, on a line of their own.
#[derive(Debug, PartialEq, Eq)]
pub struct OperatorBlockExpression {
    pub operator: OperatorOrError,
    pub expression: Tree,
}

/// A line of an operator block.
#[derive(Debug, PartialEq, Eq)]
pub struct OperatorLine {
    pub newline: Token<token::Newline>,
    pub expression: Option<OperatorBlockExpression>,
}

/// The lines of a block, read as a sequence of statements.
pub fn body_from_lines(lines: Vec<Line>) -> (r: Tree)
    requires
        (VariantView::BodyBlock { statements: Line::views(lines@) }).weight() <= usize::MAX,
    ensures
        r@ == TreeView::build(VariantView::BodyBlock { statements: Line::views(lines@) }),
{
    Tree::body_block(lines)
}

} // verus!
