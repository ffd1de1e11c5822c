//! What holds of the trees that the library builds: the spans cover the source
//! text, and joining trees loses none of it.

use crate::source::{concat, lemma_fold_len, lemma_text_push, texts, Piece, SpanView};
use crate::token;
use crate::token::{lemma_tokens_folded, TokenView};
use crate::tree::application::{
    lemma_applied, lemma_applied_ends_with_argument, lemma_applied_text, lemma_ends_with_argument,
};
use crate::tree::items::ItemView;
use crate::tree::leaves::{unexpected_token, unmatched_delimiter};
use crate::tree::literals::{lemma_joined, lemma_text_joined};
use crate::tree::model::{TextElementView, TextLiteralView, TreeView, VariantView};
use crate::tree::operators::{
    lemma_operators_applied, lemma_with_error, lemma_with_unary_operator, missing_operand,
    two_operands_required,
};
use crate::tree::span::{lemma_build, lemma_build_len};
use vstd::prelude::*;

verus! {

/// The span of a sound tree is as long as the source text of the tree: the
/// offset covers the whitespace before the node, and the code length covers
/// everything in it.
pub proof fn lemma_span_covers_source(tree: TreeView)
    requires
        tree.valid(),
    ensures
        tree.span.left_offset.len() + tree.span.code_length == tree.source().len(),
        tree.source() == tree.span.left_offset + (*tree.variant).source(),
{
}

/// Span coverage: for every node of a sound tree, the tree itself and every
/// node inside it, the text of the items that the node holds, one after the
/// other, is the text that the code length of the node counts, and with the
/// offset of the node before it, it is the source text of the node.
pub proof fn lemma_span_coverage(tree: TreeView)
    requires
        tree.valid(),
    ensures
        forall|i: int|
            0 <= i < tree.trees().len() ==> {
                let node = #[trigger] tree.trees()[i];
                &&& node.span.code_length == ItemView::sources((*node.variant).items()).len()
                &&& node.source() == node.span.left_offset + ItemView::sources(
                    (*node.variant).items(),
                )
            },
{
    tree.lemma_trees_valid();
    assert forall|i: int| 0 <= i < tree.trees().len() implies {
        let node = #[trigger] tree.trees()[i];
        &&& node.span.code_length == ItemView::sources((*node.variant).items()).len()
        &&& node.source() == node.span.left_offset + ItemView::sources((*node.variant).items())
    } by {
        let node = tree.trees()[i];
        assert(node.valid());
        (*node.variant).lemma_items();
    }
}

/// Without an operator, the operands are applied to each other: the result is
/// the application of the two, and no operator application is made.
pub proof fn lemma_no_operator_is_application(func: TreeView, arg: TreeView)
    ensures
        TreeView::operators_applied(Some(func), Seq::empty(), Some(arg)) == func.applied(arg),
{
}

/// Without an operator and without one of the operands, the result is a node in
/// error around the operand that there is, or around the empty node.
pub proof fn lemma_missing_operand_is_in_error(lhs: Option<TreeView>, rhs: Option<TreeView>)
    requires
        lhs is None || rhs is None,
    ensures
        (*TreeView::operators_applied(lhs, Seq::empty(), rhs).variant matches VariantView::Invalid {
            error,
            ast,
        } ==> {
            &&& error.message == missing_operand()
            &&& lhs matches Some(only) ==> ast.variant == only.variant
            &&& rhs matches Some(only) ==> ast.variant == only.variant
            &&& lhs is None && rhs is None ==> ast.variant == TreeView::empty().variant
        }),
        (*TreeView::operators_applied(lhs, Seq::empty(), rhs).variant is Invalid),
{
}

/// A token joiner between two trees that are not the base and the digits of a
/// number applies the one to the other.
pub proof fn lemma_misplaced_joiner_applies(
    lhs: TreeView,
    opr: TokenView<token::Operator>,
    rhs: TreeView,
)
    requires
        opr.variant.properties.is_token_joiner,
        !(lhs.is_number_base() && rhs.carries_digits()),
    ensures
        TreeView::operators_applied(Some(lhs), seq![opr], Some(rhs)) == lhs.applied(rhs),
{
}

/// Application loses no text and moves none: the result is sound, as long as
/// the two trees together, and reads as the first and then the second. That
/// holds of all sound trees of which the first holds nothing behind the place
/// where it takes an argument, so of every tree that is no annotation, and of
/// every annotation that has no newlines and no expression yet.
pub proof fn lemma_application_keeps_text(func: TreeView, arg: TreeView)
    requires
        func.valid(),
        arg.valid(),
        func.ends_with_argument(),
    ensures
        func.applied(arg).valid(),
        func.applied(arg).source() == func.source() + arg.source(),
        func.applied(arg).span.full_len() == func.span.full_len() + arg.span.full_len(),
{
    lemma_applied(func, arg);
    lemma_ends_with_argument(func, arg);
    lemma_applied_text(func, arg);
}

/// An annotation takes what it is applied to as its argument: an empty place
/// is filled, and what the place holds is applied to the new argument, never
/// given up for it. Everything else in the annotation stays as it is, the
/// offset too, and the code grows by the whole length of the argument.
pub proof fn lemma_annotation_takes_argument(func: TreeView, arg: TreeView)
    requires
        *func.variant is Annotated,
    ensures
        (*func.variant matches VariantView::Annotated {
            token,
            annotation,
            argument,
            newlines,
            expression,
        } ==> *func.applied(arg).variant == (VariantView::Annotated {
            token,
            annotation,
            argument: Some(
                match argument {
                    Some(held) => held.applied(arg),
                    None => arg,
                },
            ),
            newlines,
            expression,
        })),
        func.applied(arg).span.left_offset == func.span.left_offset,
        func.valid() && arg.valid() ==> func.applied(arg).span.code_length
            == func.span.code_length + arg.span.full_len(),
{
    if func.valid() && arg.valid() {
        lemma_applied(func, arg);
    }
}

/// A built-in annotation takes what it is applied to as its expression, in the
/// same way.
pub proof fn lemma_builtin_annotation_takes_expression(func: TreeView, arg: TreeView)
    requires
        *func.variant is AnnotatedBuiltin,
    ensures
        (*func.variant matches VariantView::AnnotatedBuiltin {
            token,
            annotation,
            newlines,
            expression,
        } ==> *func.applied(arg).variant == (VariantView::AnnotatedBuiltin {
            token,
            annotation,
            newlines,
            expression: Some(
                match expression {
                    Some(held) => held.applied(arg),
                    None => arg,
                },
            ),
        })),
        func.applied(arg).span.left_offset == func.span.left_offset,
        func.valid() && arg.valid() ==> func.applied(arg).span.code_length
            == func.span.code_length + arg.span.full_len(),
{
    if func.valid() && arg.valid() {
        lemma_applied(func, arg);
    }
}

/// An application is never a node in error: what is in error in the operands
/// stays inside them.
pub proof fn lemma_applied_not_in_error(func: TreeView, arg: TreeView)
    ensures
        !(*func.applied(arg).variant is Invalid),
{
}

/// One ordinary operator gives an operator application that holds the operands
/// that there are and the operator, is not in error, and is as long as the
/// three together.
pub proof fn lemma_ordinary_operator(
    lhs: Option<TreeView>,
    opr: TokenView<token::Operator>,
    rhs: Option<TreeView>,
)
    requires
        !opr.variant.properties.is_token_joiner,
        !opr.variant.properties.is_special,
        !opr.variant.properties.is_type_annotation,
        !opr.variant.properties.is_decimal,
        opr.variant.properties.can_form_section || lhs is Some || rhs is Some,
        rhs matches Some(tree) ==> !tree.is_free_argument_block(),
    ensures
        TreeView::operators_applied(lhs, seq![opr], rhs) == TreeView::build(
            VariantView::OprApp { lhs, opr: Ok(opr), rhs },
        ),
        (*TreeView::operators_applied(lhs, seq![opr], rhs).variant matches VariantView::OprApp {
            lhs: left,
            opr: Ok(kept),
            rhs: right,
        } ==> {
            &&& left is Some == lhs is Some
            &&& right is Some == rhs is Some
            &&& left matches Some(tree) ==> tree.variant == lhs->0.variant
            &&& right matches Some(tree) ==> tree.variant == rhs->0.variant
            &&& kept.code == opr.code
            &&& kept.variant == opr.variant
        }),
        (*TreeView::operators_applied(lhs, seq![opr], rhs).variant matches VariantView::OprApp {
            opr,
            ..
        } ==> opr is Ok),
        (*TreeView::operators_applied(lhs, seq![opr], rhs).variant is OprApp),
        TreeView::operators_applied(lhs, seq![opr], rhs).span.full_len() == lhs.weight()
            + opr.weight() + rhs.weight(),
{
    lemma_build_len(VariantView::OprApp { lhs, opr: Ok(opr), rhs });
}

/// Several operators are all kept: the node is an operator application, not in
/// error itself, whose operator is the error that holds every one of them, with
/// its code and its kind, in their order.
pub proof fn lemma_several_operators_kept(
    lhs: Option<TreeView>,
    operators: Seq<TokenView<token::Operator>>,
    rhs: Option<TreeView>,
)
    requires
        operators.len() >= 2,
    ensures
        (*TreeView::operators_applied(lhs, operators, rhs).variant matches VariantView::OprApp {
            opr: Err(error),
            ..
        } ==> {
            &&& error.operators.len() == operators.len()
            &&& forall|i: int|
                0 <= i < operators.len() ==> {
                    &&& (#[trigger] error.operators[i]).code == operators[i].code
                    &&& error.operators[i].variant == operators[i].variant
                }
        }),
        (*TreeView::operators_applied(lhs, operators, rhs).variant is OprApp),
        (*TreeView::operators_applied(lhs, operators, rhs).variant matches VariantView::OprApp {
            opr,
            ..
        } ==> opr is Err),
{
    let span = lhs.fold_into(SpanView::empty()).0;
    lemma_tokens_folded(operators, span);
}

/// An operator that may not form a section gives a node in error where it
/// stands without any operand; one that may, and is neither reserved nor the
/// `:`, gives an operator application without operands.
pub proof fn lemma_section_legality(opr: TokenView<token::Operator>)
    ensures
        !opr.variant.properties.can_form_section ==> (*TreeView::operators_applied(
            None,
            seq![opr],
            None,
        ).variant is Invalid),
        opr.variant.properties.can_form_section && !opr.variant.properties.is_special
            && !opr.variant.properties.is_type_annotation ==> (*TreeView::operators_applied(
            None,
            seq![opr],
            None,
        ).variant matches VariantView::OprApp { lhs: None, opr: Ok(_), rhs: None }),
{
}

/// An operator that may not form a section, and is neither reserved nor the
/// `:`, without any operand: the node in error says that the operator must be
/// applied to two operands, and holds the bare operator application with the
/// operator in it.
pub proof fn lemma_section_needs_operands(opr: TokenView<token::Operator>)
    requires
        !opr.variant.properties.can_form_section,
        !opr.variant.properties.is_special,
        !opr.variant.properties.is_type_annotation,
    ensures
        (*TreeView::operators_applied(None, seq![opr], None).variant matches VariantView::Invalid {
            error,
            ast,
        } ==> {
            &&& error.message == two_operands_required(opr.code)
            &&& *ast.variant matches VariantView::OprApp { lhs: None, opr: Ok(kept), rhs: None }
            &&& kept.code == opr.code
            &&& kept.variant == opr.variant
        }),
        (*TreeView::operators_applied(None, seq![opr], None).variant is Invalid),
{
}

/// An operator that may form a section, and is neither reserved nor the `:`,
/// without any operand: the bare operator application is not in error, and its
/// span is that of the operator.
pub proof fn lemma_bare_section(opr: TokenView<token::Operator>)
    requires
        opr.variant.properties.can_form_section,
        !opr.variant.properties.is_special,
        !opr.variant.properties.is_type_annotation,
    ensures
        (*TreeView::operators_applied(None, seq![opr], None).variant matches VariantView::OprApp {
            lhs: None,
            opr: Ok(kept),
            rhs: None,
        } ==> kept.code == opr.code && kept.variant == opr.variant),
        (*TreeView::operators_applied(None, seq![opr], None).variant matches VariantView::OprApp {
            lhs: None,
            opr: Ok(_),
            rhs: None,
        }),
        TreeView::operators_applied(None, seq![opr], None).span.left_offset == opr.left_offset,
        TreeView::operators_applied(None, seq![opr], None).span.code_length == opr.code.len(),
{
}

/// A named argument gives a named application, whatever it is applied to but an
/// annotation: the name is the identifier left of the `=` with the whitespace
/// that stood before it, the `=` and the value are those of the argument, and
/// there are no parentheses. Where nothing at all stands before the argument,
/// the node takes the whitespace before the name for its own.
pub proof fn lemma_named_argument_sugar(func: TreeView, arg: TreeView)
    requires
        arg.is_named_argument(),
        !(*func.variant is Annotated),
        !(*func.variant is AnnotatedBuiltin),
    ensures
        func.applied(arg) == TreeView::build(
            VariantView::NamedApp {
                func,
                open: None,
                name: arg.argument_name(),
                equals: arg.argument_equals(),
                arg: arg.argument_value(),
                close: None,
            },
        ),
        (*func.applied(arg).variant matches VariantView::NamedApp {
            func: _,
            open,
            name,
            equals,
            arg: value,
            close,
        } ==> {
            &&& open is None
            &&& close is None
            &&& name.code == arg.argument_name().code
            &&& equals.code == arg.argument_equals().code
            &&& value.variant == arg.argument_value().variant
            &&& func.span.full_len() > 0 ==> {
                &&& name == arg.argument_name()
                &&& equals == arg.argument_equals()
                &&& value == arg.argument_value()
            }
        }),
        (*func.applied(arg).variant is NamedApp),
{
}

/// A bracket without its partner gives a group that holds it and nothing else,
/// in a node in error.
pub proof fn lemma_unmatched_delimiter(token: TokenView<token::Variant>)
    requires
        token.variant is OpenSymbol,
    ensures
        (*TreeView::of_token(token).variant matches VariantView::Invalid { error, ast } ==> {
            &&& error.message == unmatched_delimiter()
            &&& *ast.variant matches VariantView::Group {
                open: Some(open),
                body: None,
                close: None,
            }
            &&& open.code == token.code
        }),
        (*TreeView::of_token(token).variant is Invalid),
{
}

/// The tree of a token is sound, as long as the token, and reads as the token
/// does.
pub proof fn lemma_of_token(token: TokenView<token::Variant>)
    ensures
        TreeView::of_token(token).valid(),
        TreeView::of_token(token).span.full_len() == token.weight(),
        TreeView::of_token(token).source() == token.source(),
{
    let nothing = Seq::<TextElementView>::empty();
    assert(TextElementView::source_parts(nothing) =~= Seq::<Seq<char>>::empty());
    assert(TextElementView::sources(nothing) =~= Seq::<char>::empty());
    match token.variant {
        token::Variant::Ident(ident) => {
            lemma_build(VariantView::Ident { token: token.with_variant(ident) });
        },
        token::Variant::Digits(digits) => {
            let node = VariantView::Number {
                base: None,
                integer: Some(token.with_variant(digits)),
                fractional_digits: None,
            };
            lemma_build(node);
            assert(node.source() =~= token.source());
        },
        token::Variant::NumberBase(base) => {
            let node = VariantView::Number {
                base: Some(token.with_variant(base)),
                integer: None,
                fractional_digits: None,
            };
            lemma_build(node);
            assert(node.source() =~= token.source());
        },
        token::Variant::TextStart(open) => {
            let node = VariantView::TextLiteral {
                open: Some(token.with_variant(open)),
                newline: None,
                elements: nothing,
                close: None,
                closed: false,
            };
            lemma_build(node);
            assert(node.source() =~= token.source());
        },
        token::Variant::TextSection(section) => {
            let element = TextElementView::Section { text: token.with_variant(section) };
            lemma_text_element(element);
            let node = VariantView::TextLiteral {
                open: None,
                newline: None,
                elements: seq![element],
                close: None,
                closed: false,
            };
            lemma_build(node);
            assert(node.source() =~= token.source());
        },
        token::Variant::TextEscape(escape) => {
            let element = TextElementView::Escape { token: token.with_variant(escape) };
            lemma_text_element(element);
            let node = VariantView::TextLiteral {
                open: None,
                newline: None,
                elements: seq![element],
                close: None,
                closed: false,
            };
            lemma_build(node);
            assert(node.source() =~= token.source());
        },
        token::Variant::TextEnd(close) => {
            if token.code.len() == 0 {
                let node = VariantView::TextLiteral {
                    open: None,
                    newline: None,
                    elements: nothing,
                    close: None,
                    closed: true,
                };
                lemma_build(node);
                assert(node.source() =~= Seq::<char>::empty());
                assert(token.code =~= Seq::<char>::empty());
                assert(TreeView::of_token(token).source() =~= token.source());
            } else {
                let node = VariantView::TextLiteral {
                    open: None,
                    newline: None,
                    elements: nothing,
                    close: Some(token.with_variant(close)),
                    closed: true,
                };
                lemma_build(node);
                assert(node.source() =~= token.source());
            }
        },
        token::Variant::TextInitialNewline(_) => {
            let node = VariantView::TextLiteral {
                open: None,
                newline: Some(token.with_variant(token::Newline)),
                elements: nothing,
                close: None,
                closed: false,
            };
            lemma_build(node);
            assert(node.source() =~= token.source());
        },
        token::Variant::TextNewline(_) => {
            let element = TextElementView::Newline { newline: token.with_variant(token::Newline) };
            lemma_text_element(element);
            let node = VariantView::TextLiteral {
                open: None,
                newline: None,
                elements: seq![element],
                close: None,
                closed: false,
            };
            lemma_build(node);
            assert(node.source() =~= token.source());
        },
        token::Variant::Wildcard(wildcard) => {
            lemma_build(
                VariantView::Wildcard {
                    token: token.with_variant(wildcard),
                    de_bruijn_index: None,
                },
            );
        },
        token::Variant::SuspendedDefaultArguments(marker) => {
            lemma_build(
                VariantView::SuspendedDefaultArguments { token: token.with_variant(marker) },
            );
        },
        token::Variant::OpenSymbol(symbol) => {
            let node = VariantView::Group {
                open: Some(token.with_variant(symbol)),
                body: None,
                close: None,
            };
            lemma_build(node);
            assert(node.source() =~= token.source());
            lemma_with_error(TreeView::build(node), unmatched_delimiter());
        },
        token::Variant::CloseSymbol(symbol) => {
            let node = VariantView::Group {
                open: None,
                body: None,
                close: Some(token.with_variant(symbol)),
            };
            lemma_build(node);
            assert(node.source() =~= token.source());
            lemma_with_error(TreeView::build(node), unmatched_delimiter());
        },
        _ => {
            let ident = token::Ident {
                is_free: false,
                lift_level: 0,
                is_type: false,
                is_operator_lexically: false,
                is_default: false,
            };
            let node = VariantView::Ident { token: token.with_variant(ident) };
            lemma_build(node);
            lemma_with_error(
                TreeView::placeholder(token),
                unexpected_token(token.code),
            );
        },
    }
}

/// One element of a text that holds no expression is sound, and the text of
/// it alone is its own text.
pub proof fn lemma_text_element(element: TextElementView)
    requires
        !(element is Splice),
    ensures
        TextElementView::all_valid(seq![element]),
        TextElementView::sources(seq![element]) == element.source(),
{
    let parts = TextElementView::source_parts(seq![element]);
    assert(parts.len() == 1);
    assert(parts[0] == seq![element][0].source());
    assert(parts.drop_last() =~= Seq::<Seq<char>>::empty());
    assert(concat(parts.drop_last()) =~= Seq::<char>::empty());
    assert(concat(parts) =~= element.source());
}

/// A fragment of a text holds an opening token, an initial newline and a
/// closing token where it was given one, and as many elements as it was given.
pub proof fn lemma_text_fragment(
    open: Option<TokenView<token::TextStart>>,
    newline: Option<TokenView<token::Newline>>,
    elements: Seq<TextElementView>,
    close: Option<TokenView<token::TextEnd>>,
    closed: bool,
)
    ensures
        (*TreeView::text_fragment(open, newline, elements, close, closed).variant
            matches VariantView::TextLiteral {
                open: start,
                newline: first,
                elements: all,
                close: end,
                closed: _,
            }
            ==> {
            &&& start is Some <==> open is Some
            &&& first is Some <==> newline is Some
            &&& all.len() == elements.len()
            &&& end is Some <==> close is Some
        }),
        (*TreeView::text_fragment(open, newline, elements, close, closed).variant is TextLiteral),
{
    let new_open = open.fold_into(SpanView::empty());
    let new_newline = newline.fold_into(new_open.0);
    lemma_fold_len(elements, new_newline.0);
}

/// A token of a text: its opening, its initial newline, a section, an escape,
/// a newline, or its end.
pub open spec fn is_text_token(token: TokenView<token::Variant>) -> bool {
    ||| token.variant is TextStart
    ||| token.variant is TextInitialNewline
    ||| token.variant is TextSection
    ||| token.variant is TextEscape
    ||| token.variant is TextNewline
    ||| token.variant is TextEnd
}

/// The fragment of a text that one token gives holds that token and nothing
/// else: the opening token or the initial newline where the token is that, one
/// element where the token is a section, an escape or a newline, and the
/// closing token where the token is the end of a text and not empty.
pub proof fn lemma_fragment_of_token(token: TokenView<token::Variant>)
    requires
        is_text_token(token),
    ensures
        (*TreeView::of_token(token).variant matches VariantView::TextLiteral {
            open,
            newline,
            elements,
            close,
            closed,
        } ==> {
            &&& open is Some <==> token.variant is TextStart
            &&& newline is Some <==> token.variant is TextInitialNewline
            &&& elements.len() == (if token.variant is TextSection || token.variant is TextEscape
                || token.variant is TextNewline {
                1nat
            } else {
                0nat
            })
            &&& close is Some <==> token.variant is TextEnd && token.code.len() > 0
        }),
        (*TreeView::of_token(token).variant is TextLiteral),
        token.variant is TextEnd && token.code.len() == 0 ==> TreeView::of_token(
            token,
        ).span.left_offset == token.left_offset,
{
    match token.variant {
        token::Variant::TextStart(open) => lemma_text_fragment(
            Some(token.with_variant(open)),
            None,
            Seq::empty(),
            None,
            false,
        ),
        token::Variant::TextSection(section) => lemma_text_fragment(
            None,
            None,
            seq![TextElementView::Section { text: token.with_variant(section) }],
            None,
            false,
        ),
        token::Variant::TextEscape(escape) => lemma_text_fragment(
            None,
            None,
            seq![TextElementView::Escape { token: token.with_variant(escape) }],
            None,
            false,
        ),
        token::Variant::TextNewline(_) => lemma_text_fragment(
            None,
            None,
            seq![TextElementView::Newline { newline: token.with_variant(token::Newline) }],
            None,
            false,
        ),
        token::Variant::TextEnd(close) => {
            if token.code.len() == 0 {
                lemma_text_fragment(None, None, Seq::empty(), None, true);
            } else {
                lemma_text_fragment(
                    None,
                    None,
                    Seq::empty(),
                    Some(token.with_variant(close)),
                    true,
                );
            }
        },
        token::Variant::TextInitialNewline(_) => lemma_text_fragment(
            None,
            Some(token.with_variant(token::Newline)),
            Seq::empty(),
            None,
            false,
        ),
        _ => {},
    }
}

/// The fragment of a text that one token gives is joined to a text without
/// loss: the text that has no end yet reads, with the fragment joined to it, as
/// before and then as the token does. The token is a section, an escape, a
/// newline or the end of a text; or the initial newline, joined to a text that
/// holds no more than its opening. An empty end has nothing that could keep
/// whitespace, so there is none before it.
pub proof fn lemma_token_fragment_joined(lhs: TextLiteralView, token: TokenView<token::Variant>)
    requires
        lhs.close is None,
        is_text_token(token),
        !(token.variant is TextStart),
        token.variant is TextInitialNewline ==> lhs.newline is None && lhs.elements.len() == 0,
        token.variant is TextEnd && token.code.len() == 0 ==> token.left_offset.len() == 0,
    ensures
        (*TreeView::of_token(token).variant matches VariantView::TextLiteral {
            open,
            newline,
            elements,
            close,
            closed,
        } ==> {
            let rhs = TextLiteralView { open, newline, elements, close, closed };
            let offset = TreeView::of_token(token).span.left_offset;
            &&& lhs.joins_in_order(rhs, offset)
            &&& lhs.joined(rhs, offset).source() == lhs.source() + token.source()
            &&& lhs.valid() ==> lhs.joined(rhs, offset).valid()
        }),
        (*TreeView::of_token(token).variant is TextLiteral),
{
    let tree = TreeView::of_token(token);
    lemma_of_token(token);
    lemma_fragment_of_token(token);
    match *tree.variant {
        VariantView::TextLiteral { open, newline, elements, close, closed } => {
            let rhs = TextLiteralView { open, newline, elements, close, closed };
            let offset = tree.span.left_offset;
            lemma_fragment_joined(lhs, tree, rhs, offset, token.source());
        },
        _ => {},
    }
}

/// What [`lemma_token_fragment_joined`] says, of a fragment of which no more
/// is known than what it needs.
proof fn lemma_fragment_joined(
    lhs: TextLiteralView,
    tree: TreeView,
    rhs: TextLiteralView,
    offset: Seq<char>,
    text: Seq<char>,
)
    requires
        lhs.joins_in_order(rhs, offset),
        tree.valid(),
        tree.source() == text,
        tree.span.left_offset == offset,
        *tree.variant == (VariantView::TextLiteral {
            open: rhs.open,
            newline: rhs.newline,
            elements: rhs.elements,
            close: rhs.close,
            closed: rhs.closed,
        }),
    ensures
        lhs.joined(rhs, offset).source() == lhs.source() + text,
        lhs.valid() ==> lhs.joined(rhs, offset).valid(),
{
    lemma_joined(lhs, rhs, offset);
    assert(tree.source() == offset + rhs.source());
    assert(lhs.source() + offset + rhs.source() =~= lhs.source() + (offset + rhs.source()));
}

/// The tokens of one text literal, in the order in which they stand in the
/// source: the opening comes first if it comes at all, the initial newline
/// right behind it, and the end last. An empty end has nothing that could keep
/// whitespace, so behind other tokens there is none before it.
pub open spec fn spells_text(tokens: Seq<TokenView<token::Variant>>) -> bool {
    &&& tokens.len() > 0
    &&& forall|i: int| 0 <= i < tokens.len() ==> is_text_token(#[trigger] tokens[i])
    &&& forall|i: int|
        0 <= i < tokens.len() && (#[trigger] tokens[i]).variant is TextStart ==> i == 0
    &&& forall|i: int|
        1 <= i < tokens.len() && (#[trigger] tokens[i]).variant is TextInitialNewline ==> i == 1
            && tokens[0].variant is TextStart
    &&& forall|i: int|
        0 <= i < tokens.len() && (#[trigger] tokens[i]).variant is TextEnd ==> {
            &&& i == tokens.len() - 1
            &&& i == 0 || tokens[i].code.len() > 0 || tokens[i].left_offset.len() == 0
        }
}

/// The text literal that the tokens of one text give: the fragment of the first
/// token, with the fragment of each token behind it joined to it in turn.
pub open spec fn text_of_tokens(tokens: Seq<TokenView<token::Variant>>) -> TreeView
    recommends
        tokens.len() > 0,
    decreases tokens.len(),
{
    if tokens.len() <= 1 {
        TreeView::of_token(tokens[0])
    } else {
        text_of_tokens(tokens.drop_last()).text_joined(TreeView::of_token(tokens.last()))
    }
}

/// Round trip of a text literal: the literal that is joined from the tokens of
/// one text is sound and reads as the tokens do.
pub proof fn lemma_text_round_trip(tokens: Seq<TokenView<token::Variant>>)
    requires
        spells_text(tokens),
    ensures
        text_of_tokens(tokens).valid(),
        text_of_tokens(tokens).source() == tokens.text(),
        (*text_of_tokens(tokens).variant matches VariantView::TextLiteral {
            open: _,
            newline,
            elements,
            close,
            closed: _,
        } ==> {
            &&& close is Some ==> tokens.last().variant is TextEnd
            &&& tokens.len() == 1 && tokens[0].variant is TextStart ==> newline is None
                && elements.len() == 0
        }),
        (*text_of_tokens(tokens).variant is TextLiteral),
    decreases tokens.len(),
{
    let last = tokens.last();
    let rhs = TreeView::of_token(last);
    lemma_of_token(last);
    lemma_fragment_of_token(last);
    let front = tokens.drop_last();
    assert(tokens =~= front.push(last));
    lemma_text_push(front, last);
    if tokens.len() == 1 {
        assert(front.text() =~= Seq::<char>::empty()) by {
            assert(texts(front) =~= Seq::<Seq<char>>::empty());
        }
        assert(tokens.text() =~= last.source());
    } else {
        assert(spells_text(front)) by {
            assert forall|i: int| 0 <= i < front.len() implies front[i] == tokens[i] by {}
        }
        lemma_text_round_trip(front);
        let lhs = text_of_tokens(front);
        assert(!(front.last().variant is TextEnd)) by {
            assert(front.last() == tokens[tokens.len() - 2]);
        }
        assert(!(last.variant is TextStart));
        if last.variant is TextInitialNewline {
            assert(tokens.len() == 2);
            assert(front[0] == tokens[0]);
        }
        assert(lhs.text_literal().joins_in_order(rhs.text_literal(), rhs.span.left_offset));
        lemma_text_joined(lhs, rhs);
    }
}

/// The tree of a token is no annotation.
pub proof fn lemma_of_token_ends_with_argument(token: TokenView<token::Variant>)
    ensures
        TreeView::of_token(token).ends_with_argument(),
{
}

/// A prefix operator gives no tree in which anything stands behind the place
/// of its argument: an annotation that it gives holds its name and no more.
pub proof fn lemma_unary_operator_ends_with_argument(
    opr: TokenView<token::Operator>,
    rhs: Option<TreeView>,
)
    ensures
        TreeView::with_unary_operator(opr, rhs).ends_with_argument(),
{
}

/// Operators between operands give no tree in which anything stands behind the
/// place of its argument, unless an operand is such a tree.
pub proof fn lemma_operators_end_with_argument(
    lhs: Option<TreeView>,
    operators: Seq<TokenView<token::Operator>>,
    rhs: Option<TreeView>,
)
    requires
        lhs matches Some(tree) ==> tree.ends_with_argument(),
        rhs matches Some(tree) ==> tree.ends_with_argument(),
    ensures
        TreeView::operators_applied(lhs, operators, rhs).ends_with_argument(),
{
    match (lhs, rhs) {
        (Some(func), Some(arg)) => lemma_applied_ends_with_argument(func, arg),
        _ => {},
    }
}

/// How a tree came to be: from one token, from the tokens of one text literal,
/// or from trees that came to be likewise and were joined by one of the
/// functions of the library. Whoever decides in which order the tokens of a
/// source text are joined, what they build is described by a value of this type.
pub enum Derivation {
    /// The tree of one token.
    Token(TokenView<token::Variant>),
    /// The text literal of the tokens of one text, joined in their order.
    Text(Seq<TokenView<token::Variant>>),
    /// One tree applied to another.
    Application(Box<Derivation>, Box<Derivation>),
    /// Operators between the operands that there are.
    Operators(Option<Box<Derivation>>, Seq<TokenView<token::Operator>>, Option<Box<Derivation>>),
    /// A prefix operator before its operand.
    Unary(TokenView<token::Operator>, Option<Box<Derivation>>),
}

impl Derivation {
    /// The tree that is built.
    pub open spec fn tree(self) -> TreeView
        decreases self,
    {
        match self {
            Derivation::Token(token) => TreeView::of_token(token),
            Derivation::Text(tokens) => text_of_tokens(tokens),
            Derivation::Application(func, arg) => func.tree().applied(arg.tree()),
            Derivation::Operators(lhs, operators, rhs) => TreeView::operators_applied(
                Derivation::operand(lhs),
                operators,
                Derivation::operand(rhs),
            ),
            Derivation::Unary(opr, rhs) => TreeView::with_unary_operator(
                opr,
                Derivation::operand(rhs),
            ),
        }
    }

    /// The tree of an operand that may be missing.
    pub open spec fn operand(operand: Option<Box<Derivation>>) -> Option<TreeView>
        decreases operand,
    {
        match operand {
            Some(derivation) => Some(derivation.tree()),
            None => None,
        }
    }

    /// The source text that the tokens of the derivation spell, in their order.
    pub open spec fn text(self) -> Seq<char>
        decreases self,
    {
        match self {
            Derivation::Token(token) => token.source(),
            Derivation::Text(tokens) => tokens.text(),
            Derivation::Application(func, arg) => func.text() + arg.text(),
            Derivation::Operators(lhs, operators, rhs) => Derivation::operand_text(lhs)
                + operators.text() + Derivation::operand_text(rhs),
            Derivation::Unary(opr, rhs) => opr.source() + Derivation::operand_text(rhs),
        }
    }

    /// The source text of an operand that may be missing.
    pub open spec fn operand_text(operand: Option<Box<Derivation>>) -> Seq<char>
        decreases operand,
    {
        match operand {
            Some(derivation) => derivation.text(),
            None => Seq::empty(),
        }
    }

    /// The tokens of each text literal are those of one text, in their order:
    /// see [`spells_text`].
    pub open spec fn texts_are_whole(self) -> bool
        decreases self,
    {
        match self {
            Derivation::Token(_) => true,
            Derivation::Text(tokens) => spells_text(tokens),
            Derivation::Application(func, arg) => func.texts_are_whole() && arg.texts_are_whole(),
            Derivation::Operators(lhs, _, rhs) => Derivation::operand_texts_are_whole(lhs)
                && Derivation::operand_texts_are_whole(rhs),
            Derivation::Unary(_, rhs) => Derivation::operand_texts_are_whole(rhs),
        }
    }

    /// The same of an operand that may be missing.
    pub open spec fn operand_texts_are_whole(operand: Option<Box<Derivation>>) -> bool
        decreases operand,
    {
        match operand {
            Some(derivation) => derivation.texts_are_whole(),
            None => true,
        }
    }

    /// A token joiner that stands between two operands holds no text, as none
    /// that a lexer gives does. Such a joiner is not kept in the tree, so what
    /// it held would be lost.
    pub open spec fn joiners_are_empty(self) -> bool
        decreases self,
    {
        match self {
            Derivation::Token(_) => true,
            Derivation::Text(_) => true,
            Derivation::Application(func, arg) => func.joiners_are_empty()
                && arg.joiners_are_empty(),
            Derivation::Operators(lhs, operators, rhs) => {
                &&& Derivation::operand_joiners_are_empty(lhs)
                &&& Derivation::operand_joiners_are_empty(rhs)
                &&& operators.len() == 1 && operators[0].variant.properties.is_token_joiner
                    && lhs is Some && rhs is Some ==> operators[0].source().len() == 0
            },
            Derivation::Unary(_, rhs) => Derivation::operand_joiners_are_empty(rhs),
        }
    }

    /// The same of an operand that may be missing.
    pub open spec fn operand_joiners_are_empty(operand: Option<Box<Derivation>>) -> bool
        decreases operand,
    {
        match operand {
            Some(derivation) => derivation.joiners_are_empty(),
            None => true,
        }
    }

    /// No derivation gives an annotation that holds anything behind the place
    /// of its argument: whatever is applied to the tree comes to stand behind
    /// all of its text.
    pub proof fn lemma_ends_with_argument(self)
        ensures
            self.tree().ends_with_argument(),
        decreases self,
    {
        match self {
            Derivation::Token(token) => lemma_of_token_ends_with_argument(token),
            Derivation::Text(tokens) => {
                if tokens.len() <= 1 {
                    lemma_of_token_ends_with_argument(tokens[0]);
                }
            },
            Derivation::Application(func, arg) => {
                func.lemma_ends_with_argument();
                arg.lemma_ends_with_argument();
                lemma_applied_ends_with_argument(func.tree(), arg.tree());
            },
            Derivation::Operators(lhs, operators, rhs) => {
                Derivation::lemma_operand_ends_with_argument(lhs);
                Derivation::lemma_operand_ends_with_argument(rhs);
                lemma_operators_end_with_argument(
                    Derivation::operand(lhs),
                    operators,
                    Derivation::operand(rhs),
                );
            },
            Derivation::Unary(opr, rhs) => {
                lemma_unary_operator_ends_with_argument(opr, Derivation::operand(rhs));
            },
        }
    }

    /// The same of an operand that may be missing.
    pub proof fn lemma_operand_ends_with_argument(operand: Option<Box<Derivation>>)
        ensures
            Derivation::operand(operand) matches Some(tree) ==> tree.ends_with_argument(),
        decreases operand,
    {
        match operand {
            Some(derivation) => derivation.lemma_ends_with_argument(),
            None => {},
        }
    }

    /// Every tree that is built is sound, in whatever order the tokens were
    /// joined.
    pub proof fn lemma_sound(self)
        requires
            self.texts_are_whole(),
        ensures
            self.tree().valid(),
        decreases self,
    {
        match self {
            Derivation::Token(token) => lemma_of_token(token),
            Derivation::Text(tokens) => lemma_text_round_trip(tokens),
            Derivation::Application(func, arg) => {
                func.lemma_sound();
                arg.lemma_sound();
                lemma_applied(func.tree(), arg.tree());
            },
            Derivation::Operators(lhs, operators, rhs) => {
                Derivation::lemma_operand_sound(lhs);
                Derivation::lemma_operand_sound(rhs);
                lemma_operators_applied(
                    Derivation::operand(lhs),
                    operators,
                    Derivation::operand(rhs),
                );
            },
            Derivation::Unary(opr, rhs) => {
                Derivation::lemma_operand_sound(rhs);
                lemma_with_unary_operator(opr, Derivation::operand(rhs));
            },
        }
    }

    /// The tree of an operand that may be missing is sound.
    pub proof fn lemma_operand_sound(operand: Option<Box<Derivation>>)
        requires
            Derivation::operand_texts_are_whole(operand),
        ensures
            Derivation::operand(operand).sound(),
        decreases operand,
    {
        match operand {
            Some(derivation) => derivation.lemma_sound(),
            None => {},
        }
    }

    /// Round trip: the tree that is built from tokens is sound and reads as
    /// the tokens do, in whatever order they were joined. What is asked is asked
    /// of the tokens: those of a text literal are those of one text, and a token
    /// joiner between two operands holds no text.
    pub proof fn lemma_round_trip(self)
        requires
            self.texts_are_whole(),
            self.joiners_are_empty(),
        ensures
            self.tree().valid(),
            self.tree().source() == self.text(),
        decreases self,
    {
        self.lemma_sound();
        match self {
            Derivation::Token(token) => lemma_of_token(token),
            Derivation::Text(tokens) => lemma_text_round_trip(tokens),
            Derivation::Application(func, arg) => {
                func.lemma_round_trip();
                arg.lemma_round_trip();
                func.lemma_ends_with_argument();
                lemma_ends_with_argument(func.tree(), arg.tree());
                lemma_applied_text(func.tree(), arg.tree());
            },
            Derivation::Operators(lhs, operators, rhs) => {
                Derivation::lemma_operand_round_trip(lhs);
                Derivation::lemma_operand_round_trip(rhs);
                Derivation::lemma_operand_ends_with_argument(lhs);
                match (Derivation::operand(lhs), Derivation::operand(rhs)) {
                    (Some(func), Some(arg)) => lemma_ends_with_argument(func, arg),
                    _ => {},
                }
                lemma_operators_applied(
                    Derivation::operand(lhs),
                    operators,
                    Derivation::operand(rhs),
                );
            },
            Derivation::Unary(opr, rhs) => {
                Derivation::lemma_operand_round_trip(rhs);
                lemma_with_unary_operator(opr, Derivation::operand(rhs));
            },
        }
    }

    /// The tree of an operand reads as its tokens do.
    pub proof fn lemma_operand_round_trip(operand: Option<Box<Derivation>>)
        requires
            Derivation::operand_texts_are_whole(operand),
            Derivation::operand_joiners_are_empty(operand),
        ensures
            Derivation::operand(operand).sound(),
            Derivation::operand(operand).text() == Derivation::operand_text(operand),
        decreases operand,
    {
        match operand {
            Some(derivation) => derivation.lemma_round_trip(),
            None => {},
        }
    }
}

} // verus!
