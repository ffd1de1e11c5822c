//! The smallest trees: one token becomes one node, and a node is marked as being
//! in error.

use crate::source::{Offset, Piece, Span, SpanItem, SpanView};
use crate::token;
use crate::token::{Token, TokenView};
use crate::tree::laws::lemma_of_token;
use crate::tree::model::{ErrorView, TextElementView, TreeView, VariantView};
use crate::tree::{Error, TextElement, Tree, Variant};
use vstd::prelude::*;

verus! {

/// The diagnostic of a bracket that has no partner.
pub open spec fn unmatched_delimiter() -> Seq<char> {
    "Unmatched delimiter"@
}

/// The diagnostic of a token that has no place in an expression.
pub open spec fn unexpected_token(code: Seq<char>) -> Seq<char> {
    "Unexpected token: "@ + code
}

impl TreeView {
    /// The node wrapped into an `Invalid` node that carries `message`. The wrapper
    /// takes the offset of the node for its own.
    pub open spec fn with_error(self, message: Seq<char>) -> TreeView {
        TreeView::build(VariantView::Invalid { error: ErrorView { message }, ast: self })
    }

    /// A text literal that holds the given parts and nothing else.
    pub open spec fn text_fragment(
        open: Option<TokenView<token::TextStart>>,
        newline: Option<TokenView<token::Newline>>,
        elements: Seq<TextElementView>,
        close: Option<TokenView<token::TextEnd>>,
        closed: bool,
    ) -> TreeView {
        TreeView::build(VariantView::TextLiteral { open, newline, elements, close, closed })
    }

    /// The node that stands for an identifier which the source does not hold.
    pub open spec fn placeholder(token: TokenView<token::Variant>) -> TreeView {
        TreeView::build(
            VariantView::Ident {
                token: token.with_variant(
                    token::Ident {
                        is_free: false,
                        lift_level: 0,
                        is_type: false,
                        is_operator_lexically: false,
                        is_default: false,
                    },
                ),
            },
        )
    }

    /// The smallest tree that holds `token`. Every kind of token has one: a
    /// bracket without its partner and a token that cannot stand in an
    /// expression give an `Invalid` node. The empty end of a text gives a closed
    /// literal without a closing token, which keeps the whitespace that stood
    /// before the token as its own offset.
    pub open spec fn of_token(token: TokenView<token::Variant>) -> TreeView {
        match token.variant {
            token::Variant::Ident(ident) => TreeView::build(
                VariantView::Ident { token: token.with_variant(ident) },
            ),
            token::Variant::Digits(digits) => TreeView::build(
                VariantView::Number {
                    base: None,
                    integer: Some(token.with_variant(digits)),
                    fractional_digits: None,
                },
            ),
            token::Variant::NumberBase(base) => TreeView::build(
                VariantView::Number {
                    base: Some(token.with_variant(base)),
                    integer: None,
                    fractional_digits: None,
                },
            ),
            token::Variant::TextStart(open) => TreeView::text_fragment(
                Some(token.with_variant(open)),
                None,
                Seq::empty(),
                None,
                false,
            ),
            token::Variant::TextSection(section) => TreeView::text_fragment(
                None,
                None,
                seq![TextElementView::Section { text: token.with_variant(section) }],
                None,
                false,
            ),
            token::Variant::TextEscape(escape) => TreeView::text_fragment(
                None,
                None,
                seq![TextElementView::Escape { token: token.with_variant(escape) }],
                None,
                false,
            ),
            token::Variant::TextEnd(close) => if token.code.len() == 0 {
                TreeView::text_fragment(None, None, Seq::empty(), None, true).with_left_offset(
                    token.left_offset,
                )
            } else {
                TreeView::text_fragment(
                    None,
                    None,
                    Seq::empty(),
                    Some(token.with_variant(close)),
                    true,
                )
            },
            token::Variant::TextInitialNewline(_) => TreeView::text_fragment(
                None,
                Some(token.with_variant(token::Newline)),
                Seq::empty(),
                None,
                false,
            ),
            token::Variant::TextNewline(_) => TreeView::text_fragment(
                None,
                None,
                seq![TextElementView::Newline { newline: token.with_variant(token::Newline) }],
                None,
                false,
            ),
            token::Variant::Wildcard(wildcard) => TreeView::build(
                VariantView::Wildcard {
                    token: token.with_variant(wildcard),
                    de_bruijn_index: None,
                },
            ),
            token::Variant::SuspendedDefaultArguments(marker) => TreeView::build(
                VariantView::SuspendedDefaultArguments { token: token.with_variant(marker) },
            ),
            token::Variant::OpenSymbol(symbol) => TreeView::build(
                VariantView::Group {
                    open: Some(token.with_variant(symbol)),
                    body: None,
                    close: None,
                },
            ).with_error(unmatched_delimiter()),
            token::Variant::CloseSymbol(symbol) => TreeView::build(
                VariantView::Group {
                    open: None,
                    body: None,
                    close: Some(token.with_variant(symbol)),
                },
            ).with_error(unmatched_delimiter()),
            token::Variant::Newline(_)
            | token::Variant::BlockStart(_)
            | token::Variant::BlockEnd(_)
            | token::Variant::Operator(_)
            | token::Variant::Private(_)
            | token::Variant::Invalid(_) => TreeView::placeholder(token).with_error(
                unexpected_token(token.code),
            ),
        }
    }
}

impl Error {
    /// The error that says `message`.
    pub fn new(message: &str) -> (r: Error)
        ensures
            r@.message == message@,
    {
        Error { message: String::from_str(message) }
    }
}

impl Tree {
    /// Wraps the node into an `Invalid` node that carries `message`.
    pub fn with_error(self, message: &str) -> (r: Tree)
        ensures
            r@ == self@.with_error(message@),
    {
        let ghost whole = self@;
        let Tree { span, variant } = self;
        let Span { left_offset, code_length } = span;
        let ast = Tree { span: Span { left_offset: Offset::empty(), code_length }, variant };
        let r = Tree {
            span: Span { left_offset, code_length },
            variant: Box::new(Variant::Invalid { error: Error::new(message), ast }),
        };
        proof {
            let node = VariantView::Invalid { error: ErrorView { message: message@ }, ast: whole };
            let folded = node.folded(SpanView::empty());
            assert(ast@ == whole.fold_into(SpanView::empty()).1);
            assert(r@.span == folded.0);
            assert(*r@.variant == folded.1);
        }
        r
    }
}

/// A text literal that holds the given parts and nothing else.
fn text_fragment(
    open: Option<Token<token::TextStart>>,
    newline: Option<Token<token::Newline>>,
    element: Option<TextElement>,
    close: Option<Token<token::TextEnd>>,
    closed: bool,
) -> (r: Tree)
    requires
        open.model().weight() + newline.model().weight() + element.model().weight()
            + close.model().weight() <= usize::MAX,
    ensures
        r@ == TreeView::text_fragment(
            open.model(),
            newline.model(),
            match element {
                Some(e) => seq![e@],
                None => Seq::empty(),
            },
            close.model(),
            closed,
        ),
{
    let ghost given = element.model();
    let mut elements: Vec<TextElement> = Vec::new();
    match element {
        Some(e) => {
            elements.push(e);
        },
        None => {},
    }
    proof {
        let views = TextElement::views(elements@);
        match given {
            Some(e) => {
                assert(views =~= seq![e]);
                assert(views.drop_last() =~= Seq::empty());
                assert(views.drop_last().weight() == 0);
            },
            None => {
                assert(views =~= Seq::empty());
            },
        }
    }
    Tree::text_literal(open, newline, elements, close, closed)
}

/// The smallest tree that holds `token`: see [`TreeView::of_token`]. The tree
/// is sound, so that it can be joined with others.
pub fn to_ast(token: Token<token::Variant>) -> (r: Tree)
    requires
        token@.weight() <= usize::MAX,
    ensures
        r@ == TreeView::of_token(token@),
        r@.valid(),
        r@.source() == token@.source(),
        r@.span.full_len() == token@.weight(),
{
    proof {
        lemma_of_token(token@);
    }
    match token.variant {
        token::Variant::Ident(ident) => Tree::ident(token.with_variant(ident)),
        token::Variant::Digits(
            digits
        ) => Tree::number(None, Some(token.with_variant(digits)), None),
        token::Variant::NumberBase(
            base
        ) => Tree::number(Some(token.with_variant(base)), None, None),
        token::Variant::TextStart(open) => text_fragment(
            Some(token.with_variant(open)),
            None,
            None,
            None,
            false,
        ),
        token::Variant::TextSection(section) => text_fragment(
            None,
            None,
            Some(TextElement::Section { text: token.with_variant(section) }),
            None,
            false,
        ),
        token::Variant::TextEscape(escape) => text_fragment(
            None,
            None,
            Some(TextElement::Escape { token: token.with_variant(escape) }),
            None,
            false,
        ),
        token::Variant::TextEnd(close) => {
            if token.code.as_str().is_empty() {
                let Tree { span, variant } = text_fragment(None, None, None, None, true);
                Tree {
                    span: Span { left_offset: token.left_offset, code_length: span.code_length },
                    variant,
                }
            } else {
                text_fragment(None, None, None, Some(token.with_variant(close)), true)
            }
        },
        token::Variant::TextInitialNewline(_) => text_fragment(
            None,
            Some(token.with_variant(token::Newline)),
            None,
            None,
            false,
        ),
        token::Variant::TextNewline(_) => text_fragment(
            None,
            None,
            Some(TextElement::Newline { newline: token.with_variant(token::Newline) }),
            None,
            false,
        ),
        token::Variant::Wildcard(wildcard) => Tree::wildcard(token.with_variant(wildcard), None),
        token::Variant::SuspendedDefaultArguments(marker) => Tree::suspended_default_arguments(
            token.with_variant(marker),
        ),
        token::Variant::OpenSymbol(symbol) => Tree::group(
            Some(token.with_variant(symbol)),
            None,
            None,
        ).with_error("Unmatched delimiter"),
        token::Variant::CloseSymbol(symbol) => Tree::group(
            None,
            None,
            Some(token.with_variant(symbol)),
        ).with_error("Unmatched delimiter"),
        token::Variant::Newline(_)
        | token::Variant::BlockStart(_)
        | token::Variant::BlockEnd(_)
        | token::Variant::Operator(_)
        | token::Variant::Private(_)
        | token::Variant::Invalid(_) => {
            let mut message = String::from_str("Unexpected token: ");
            message.append(token.code.as_str());
            let ident = token::Ident {
                is_free: false,
                lift_level: 0,
                is_type: false,
                is_operator_lexically: false,
                is_default: false,
            };
            Tree::ident(token.with_variant(ident)).with_error(message.as_str())
        },
    }
}

/// [`to_ast`] for a token of any length: the tree of the token, where the text
/// of the token is no longer than a length may be.
pub fn try_to_ast(token: Token<token::Variant>) -> (r: Option<Tree>)
    ensures
        r is Some == (token@.weight() <= usize::MAX),
        r matches Some(tree) ==> tree@ == TreeView::of_token(token@) && tree@.valid(),
{
    match token.checked_len() {
        Some(_) => Some(to_ast(token)),
        None => None,
    }
}

} // verus!
