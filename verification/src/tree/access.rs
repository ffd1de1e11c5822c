//! Reaching into a node: the first operator of a sequence of operators, and the
//! whitespace that stands before a line of a case-of expression.

use crate::source::{Offset, SpanView};
use crate::token;
use crate::token::{Token, token_views, TokenView};
use crate::tree::model::{CaseLineView, CaseView, DocCommentView, TreeView};
use crate::tree::{Case, CaseLine, OperatorOrError};
use vstd::prelude::*;

verus! {

/// A sequence of one or more operators.
pub trait NonEmptyOperatorSequence {
    /// Whether the sequence holds an operator, as it should.
    spec fn has_operator(&self) -> bool;

    /// The first operator of the sequence.
    spec fn first(&self) -> TokenView<token::Operator>;

    /// The operators behind the first.
    spec fn others(&self) -> Seq<TokenView<token::Operator>>;

    fn first_operator(&self) -> (r: &Token<token::Operator>)
        requires
            self.has_operator(),
        ensures
            r@ == self.first(),
    ;

    fn first_operator_mut(&mut self) -> (r: &mut Token<token::Operator>)
        requires
            old(self).has_operator(),
        ensures
            r@ == old(self).first(),
            final(self).has_operator(),
            final(self).first() == final(r)@,
            final(self).others() == old(self).others(),
    ;
}

impl NonEmptyOperatorSequence for OperatorOrError {
    open spec fn has_operator(&self) -> bool {
        match self {
            Ok(_) => true,
            Err(error) => error.operators@.len() > 0,
        }
    }

    open spec fn first(&self) -> TokenView<token::Operator> {
        match self {
            Ok(operator) => operator@,
            Err(error) => error.operators@[0]@,
        }
    }

    open spec fn others(&self) -> Seq<TokenView<token::Operator>> {
        match self {
            Ok(_) => Seq::empty(),
            Err(error) => token_views(error.operators@).drop_first(),
        }
    }

    fn first_operator(&self) -> (r: &Token<token::Operator>) {
        match self {
            Ok(operator) => operator,
            Err(error) => &error.operators[0],
        }
    }

    fn first_operator_mut(&mut self) -> (r: &mut Token<token::Operator>) {
        match self {
            Ok(operator) => operator,
            Err(error) => &mut error.operators[0],
        }
    }
}

impl CaseView {
    /// The whitespace before the case: the offset of the first thing that the
    /// case holds.
    pub open spec fn left_offset(self) -> Option<Seq<char>> {
        match self.documentation {
            Some(documentation) => Some(documentation.open.left_offset),
            None => match self.pattern {
                Some(pattern) => Some(pattern.span.left_offset),
                None => match self.arrow {
                    Some(arrow) => Some(arrow.left_offset),
                    None => match self.expression {
                        Some(expression) => Some(expression.span.left_offset),
                        None => None,
                    },
                },
            },
        }
    }
}

impl CaseView {
    /// The same case with `offset` in the place of the whitespace before it.
    pub open spec fn with_left_offset(self, offset: Seq<char>) -> CaseView {
        match self.documentation {
            Some(documentation) => CaseView {
                documentation: Some(
                    DocCommentView {
                        open: TokenView {
                            left_offset: offset,
                            code: documentation.open.code,
                            variant: documentation.open.variant,
                        },
                        elements: documentation.elements,
                        newlines: documentation.newlines,
                    },
                ),
                pattern: self.pattern,
                arrow: self.arrow,
                expression: self.expression,
            },
            None => match self.pattern {
                Some(pattern) => CaseView {
                    documentation: None,
                    pattern: Some(pattern.with_left_offset(offset)),
                    arrow: self.arrow,
                    expression: self.expression,
                },
                None => match self.arrow {
                    Some(arrow) => CaseView {
                        documentation: None,
                        pattern: None,
                        arrow: Some(
                            TokenView {
                                left_offset: offset,
                                code: arrow.code,
                                variant: arrow.variant,
                            },
                        ),
                        expression: self.expression,
                    },
                    None => match self.expression {
                        Some(expression) => CaseView {
                            documentation: None,
                            pattern: None,
                            arrow: None,
                            expression: Some(expression.with_left_offset(offset)),
                        },
                        None => self,
                    },
                },
            },
        }
    }
}

impl TreeView {
    /// The same node with `offset` in the place of the whitespace before it.
    pub open spec fn with_left_offset(self, offset: Seq<char>) -> TreeView {
        TreeView {
            span: SpanView {
                left_offset: offset,
                code_length: self.span.code_length,
            },
            variant: self.variant,
        }
    }
}

impl CaseLineView {
    /// The same line with `offset` in the place of the whitespace before it.
    pub open spec fn with_left_offset(self, offset: Seq<char>) -> CaseLineView {
        match self.newline {
            Some(newline) => CaseLineView {
                newline: Some(
                    TokenView { left_offset: offset, code: newline.code, variant: newline.variant },
                ),
                case: self.case,
            },
            None => match self.case {
                Some(
                    case
                ) => CaseLineView { newline: None, case: Some(case.with_left_offset(offset)) },
                None => self,
            },
        }
    }

    /// The whitespace before the line: the offset of its newline, or of its
    /// case where it has no newline.
    pub open spec fn left_offset(self) -> Option<Seq<char>> {
        match self.newline {
            Some(newline) => Some(newline.left_offset),
            None => match self.case {
                Some(case) => case.left_offset(),
                None => None,
            },
        }
    }
}

impl Case {
    /// The whitespace before the case, which belongs to the first thing that the
    /// case holds.
    pub fn left_offset(&self) -> (r: Option<&Offset>)
        ensures
            r is Some == self@.left_offset() is Some,
            r matches Some(offset) ==> self@.left_offset() == Some(offset@),
    {
        match &self.documentation {
            Some(documentation) => Some(&documentation.open.left_offset),
            None => match &self.pattern {
                Some(pattern) => Some(&pattern.span.left_offset),
                None => match &self.arrow {
                    Some(arrow) => Some(&arrow.left_offset),
                    None => match &self.expression {
                        Some(expression) => Some(&expression.span.left_offset),
                        None => None,
                    },
                },
            },
        }
    }

    /// The same, to be changed in place.
    pub fn left_offset_mut(&mut self) -> (r: Option<&mut Offset>)
        ensures
            r is Some == old(self)@.left_offset() is Some,
            r matches Some(offset) ==> old(self)@.left_offset() == Some(offset@),
            r matches Some(offset) ==> final(self)@ == old(self)@.with_left_offset(final(offset)@),
            r is None ==> final(self)@ == old(self)@,
    {
        match &mut self.documentation {
            Some(documentation) => Some(&mut documentation.open.left_offset),
            None => match &mut self.pattern {
                Some(pattern) => Some(&mut pattern.span.left_offset),
                None => match &mut self.arrow {
                    Some(arrow) => Some(&mut arrow.left_offset),
                    None => match &mut self.expression {
                        Some(expression) => Some(&mut expression.span.left_offset),
                        None => None,
                    },
                },
            },
        }
    }
}

impl CaseLine {
    /// The whitespace before the line, which belongs to the first thing that the
    /// line holds.
    pub fn left_offset(&self) -> (r: Option<&Offset>)
        ensures
            r is Some == self@.left_offset() is Some,
            r matches Some(offset) ==> self@.left_offset() == Some(offset@),
    {
        match &self.newline {
            Some(newline) => Some(&newline.left_offset),
            None => match &self.case {
                Some(case) => case.left_offset(),
                None => None,
            },
        }
    }

    /// The same, to be changed in place.
    pub fn left_offset_mut(&mut self) -> (r: Option<&mut Offset>)
        ensures
            r is Some == old(self)@.left_offset() is Some,
            r matches Some(offset) ==> old(self)@.left_offset() == Some(offset@),
            r matches Some(offset) ==> final(self)@ == old(self)@.with_left_offset(final(offset)@),
            r is None ==> final(self)@ == old(self)@,
    {
        match &mut self.newline {
            Some(newline) => Some(&mut newline.left_offset),
            None => match &mut self.case {
                Some(case) => case.left_offset_mut(),
                None => None,
            },
        }
    }
}

} // verus!
