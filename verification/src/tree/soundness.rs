//! Whether a tree is sound: whether every span in it covers exactly the text
//! beneath it, so that the tree may be handed to the functions that join trees.

use crate::source::{concat, Piece};
use crate::token::{lemma_seq_tokens, opt_token_source, tokens_source, Token};
use crate::tree::block::{Line, OperatorBlockExpression, OperatorLine};
use crate::tree::model::{
    ArgumentDefinitionLineView, ArgumentDefinitionView, CaseLineView, LineView,
    MultiSegmentAppSegmentView, OperatorDelimitedTreeView, OperatorLineView, TextElementView,
};
use crate::tree::text::operator_or_error_source;
use crate::tree::{
    ArgumentDefault, ArgumentDefinition, ArgumentDefinitionLine, ArgumentType, Case, CaseLine,
    DocComment, FractionalDigits, MultiSegmentAppSegment, MultipleOperatorError,
    OperatorDelimitedTree, ReturnSpecification, TextElement, TextLiteral, Tree, Variant,
};
use vstd::pervasive::unreached;
use vstd::prelude::*;

verus! {

/// The text of the first fragments is no longer than the text of all.
pub proof fn lemma_concat_prefix(parts: Seq<Seq<char>>, k: int)
    requires
        0 <= k <= parts.len(),
    ensures
        concat(parts.subrange(0, k)).len() <= concat(parts).len(),
    decreases parts.len(),
{
    if k < parts.len() {
        lemma_concat_prefix(parts.drop_last(), k);
        assert(parts.drop_last().subrange(0, k) =~= parts.subrange(0, k));
    } else {
        assert(parts.subrange(0, k) =~= parts);
    }
}

/// The sum of a length and a length that may be missing, where it is there and
/// the sum fits.
pub fn add_len(total: usize, part: Option<usize>) -> (r: Option<usize>)
    ensures
        r is Some == (part is Some && total + part->0 <= usize::MAX),
        r matches Some(n) ==> n == total + part->0,
{
    match part {
        Some(n) => {
            if n > usize::MAX - total {
                None
            } else {
                Some(total + n)
            }
        },
        None => None,
    }
}

impl<T> Token<T> {
    /// The length of the source text of the token, where it fits.
    pub fn checked_len(&self) -> (r: Option<usize>)
        ensures
            r is Some == (self@.source().len() <= usize::MAX),
            r matches Some(n) ==> n == self@.source().len(),
    {
        add_len(self.left_offset.len(), Some(self.code_length()))
    }
}

/// The length of the source text of the tokens, where it fits.
pub fn checked_len_of_tokens<T>(tokens: &Vec<Token<T>>) -> (r: Option<usize>)
    ensures
        r is Some == (tokens_source(crate::token::token_views(tokens@)).len() <= usize::MAX),
        r matches Some(n) ==> n == tokens_source(crate::token::token_views(tokens@)).len(),
{
    let ghost parts = crate::token::token_sources(crate::token::token_views(tokens@));
    let mut total: usize = 0;
    let mut i: usize = 0;
    assert(parts.subrange(0, 0) =~= Seq::<Seq<char>>::empty());
    while i < tokens.len()
        invariant
            i <= tokens@.len(),
            parts == crate::token::token_sources(crate::token::token_views(tokens@)),
            total == concat(parts.subrange(0, i as int)).len(),
        decreases tokens@.len() - i,
    {
        proof {
            lemma_concat_prefix(parts, i + 1);
            assert(parts.subrange(0, i + 1).drop_last() =~= parts.subrange(0, i as int));
        }
        total = add_len(total, tokens[i].checked_len())?;
        i = i + 1;
    }
    assert(parts.subrange(0, i as int) =~= parts);
    Some(total)
}

impl Tree {
    /// The length of the source text of the node, where every span in the node
    /// covers exactly the text beneath it and the length fits.
    pub fn checked_len(&self) -> (r: Option<usize>)
        ensures
            r is Some == (self@.valid() && self@.source().len() <= usize::MAX),
            r matches Some(n) ==> n == self@.source().len(),
        decreases self,
    {
        let inner: usize = self.variant.checked_len()?;
        if inner != self.span.code_length {
            return None;
        }
        add_len(self.span.left_offset.len(), Some(inner))
    }

    /// Whether every span in the node covers exactly the text beneath it, and
    /// the text is no longer than a length may be. Such a node may be handed to
    /// the functions that join trees.
    pub fn is_sound(&self) -> (b: bool)
        ensures
            b == (self@.valid() && self@.span.full_len() <= usize::MAX),
    {
        self.checked_len().is_some()
    }
}

/// The length of the source text of `Invalid`, where it is sound and fits.
fn checked_len_of_invalid(node: &Variant) -> (r: Option<usize>)
    requires
        (node is Invalid),
    ensures
        r is Some == (node@.valid() && node@.source().len() <= usize::MAX),
        r matches Some(n) ==> n == node@.source().len(),
    decreases node, 0int,
{
    match node {
        Variant::Invalid { error: _, ast } => {
            let total: usize = 0;
            let ghost held = Seq::<char>::empty();
            let part = ast.checked_len();
            let total = add_len(total, part)?;
            let ghost held = held + (node@->Invalid_ast).source();
            assert(node@.source() =~= held);
            Some(total)
        },
        _ => unreached(),
    }
}

/// The length of the source text of `BodyBlock`, where it is sound and fits.
fn checked_len_of_body_block(node: &Variant) -> (r: Option<usize>)
    requires
        (node is BodyBlock),
    ensures
        r is Some == (node@.valid() && node@.source().len() <= usize::MAX),
        r matches Some(n) ==> n == node@.source().len(),
    decreases node, 0int,
{
    match node {
        Variant::BodyBlock { statements } => {
            let total: usize = 0;
            let ghost held = Seq::<char>::empty();
            let part = Line::checked_len_of_all(statements);
            let total = add_len(total, part)?;
            let ghost held = held + LineView::sources((node@->BodyBlock_statements));
            assert(node@.source() =~= held);
            Some(total)
        },
        _ => unreached(),
    }
}

/// The length of the source text of `ArgumentBlockApplication`, where it is sound and fits.
fn checked_len_of_argument_block_application(node: &Variant) -> (r: Option<usize>)
    requires
        (node is ArgumentBlockApplication),
    ensures
        r is Some == (node@.valid() && node@.source().len() <= usize::MAX),
        r matches Some(n) ==> n == node@.source().len(),
    decreases node, 0int,
{
    match node {
        Variant::ArgumentBlockApplication { lhs, arguments } => {
            let total: usize = 0;
            let ghost held = Seq::<char>::empty();
            let part = match lhs {
                Some(x) => x.checked_len(),
                None => Some(0),
            };
            let total = add_len(total, part)?;
            let ghost held = held + (
                match (
                    node@->ArgumentBlockApplication_lhs
                ) { Some(x) => x.source(), None => Seq::empty(), }
            );
            let part = Line::checked_len_of_all(arguments);
            let total = add_len(total, part)?;
            let ghost held = held + LineView::sources((node@->ArgumentBlockApplication_arguments));
            assert(node@.source() =~= held);
            Some(total)
        },
        _ => unreached(),
    }
}

/// The length of the source text of `OperatorBlockApplication`, where it is sound and fits.
fn checked_len_of_operator_block_application(node: &Variant) -> (r: Option<usize>)
    requires
        (node is OperatorBlockApplication),
    ensures
        r is Some == (node@.valid() && node@.source().len() <= usize::MAX),
        r matches Some(n) ==> n == node@.source().len(),
    decreases node, 0int,
{
    match node {
        Variant::OperatorBlockApplication { lhs, expressions, excess } => {
            let total: usize = 0;
            let ghost held = Seq::<char>::empty();
            let part = match lhs {
                Some(x) => x.checked_len(),
                None => Some(0),
            };
            let total = add_len(total, part)?;
            let ghost held = held + (
                match (
                    node@->OperatorBlockApplication_lhs
                ) { Some(x) => x.source(), None => Seq::empty(), }
            );
            let part = OperatorLine::checked_len_of_all(expressions);
            let total = add_len(total, part)?;
            let ghost held = held + OperatorLineView::sources(
                (node@->OperatorBlockApplication_expressions)
            );
            let part = Line::checked_len_of_all(excess);
            let total = add_len(total, part)?;
            let ghost held = held + LineView::sources((node@->OperatorBlockApplication_excess));
            assert(node@.source() =~= held);
            Some(total)
        },
        _ => unreached(),
    }
}

/// The length of the source text of `Ident`, where it is sound and fits.
fn checked_len_of_ident(node: &Variant) -> (r: Option<usize>)
    requires
        (node is Ident),
    ensures
        r is Some == (node@.valid() && node@.source().len() <= usize::MAX),
        r matches Some(n) ==> n == node@.source().len(),
    decreases node, 0int,
{
    match node {
        Variant::Ident { token } => {
            let total: usize = 0;
            let ghost held = Seq::<char>::empty();
            let part = token.checked_len();
            let total = add_len(total, part)?;
            let ghost held = held + (node@->Ident_token).source();
            assert(node@.source() =~= held);
            Some(total)
        },
        _ => unreached(),
    }
}

/// The length of the source text of `Private`, where it is sound and fits.
fn checked_len_of_private(node: &Variant) -> (r: Option<usize>)
    requires
        (node is Private),
    ensures
        r is Some == (node@.valid() && node@.source().len() <= usize::MAX),
        r matches Some(n) ==> n == node@.source().len(),
    decreases node, 0int,
{
    match node {
        Variant::Private { keyword, body } => {
            let total: usize = 0;
            let ghost held = Seq::<char>::empty();
            let part = keyword.checked_len();
            let total = add_len(total, part)?;
            let ghost held = held + (node@->Private_keyword).source();
            let part = match body {
                Some(x) => x.checked_len(),
                None => Some(0),
            };
            let total = add_len(total, part)?;
            let ghost held = held + (
                match (node@->Private_body) { Some(x) => x.source(), None => Seq::empty(), }
            );
            assert(node@.source() =~= held);
            Some(total)
        },
        _ => unreached(),
    }
}

/// The length of the source text of `Number`, where it is sound and fits.
fn checked_len_of_number(node: &Variant) -> (r: Option<usize>)
    requires
        (node is Number),
    ensures
        r is Some == (node@.valid() && node@.source().len() <= usize::MAX),
        r matches Some(n) ==> n == node@.source().len(),
    decreases node, 0int,
{
    match node {
        Variant::Number { base, integer, fractional_digits } => {
            let total: usize = 0;
            let ghost held = Seq::<char>::empty();
            let part = match base {
                Some(x) => x.checked_len(),
                None => Some(0),
            };
            let total = add_len(total, part)?;
            let ghost held = held + opt_token_source((node@->Number_base));
            let part = match integer {
                Some(x) => x.checked_len(),
                None => Some(0),
            };
            let total = add_len(total, part)?;
            let ghost held = held + opt_token_source((node@->Number_integer));
            let part = match fractional_digits {
                Some(x) => x.checked_len(),
                None => Some(0),
            };
            let total = add_len(total, part)?;
            let ghost held = held + (
                match (
                    node@->Number_fractional_digits
                ) { Some(x) => x.source(), None => Seq::empty(), }
            );
            assert(node@.source() =~= held);
            Some(total)
        },
        _ => unreached(),
    }
}

/// The length of the source text of `Wildcard`, where it is sound and fits.
fn checked_len_of_wildcard(node: &Variant) -> (r: Option<usize>)
    requires
        (node is Wildcard),
    ensures
        r is Some == (node@.valid() && node@.source().len() <= usize::MAX),
        r matches Some(n) ==> n == node@.source().len(),
    decreases node, 0int,
{
    match node {
        Variant::Wildcard { token, de_bruijn_index: _ } => {
            let total: usize = 0;
            let ghost held = Seq::<char>::empty();
            let part = token.checked_len();
            let total = add_len(total, part)?;
            let ghost held = held + (node@->Wildcard_token).source();
            assert(node@.source() =~= held);
            Some(total)
        },
        _ => unreached(),
    }
}

/// The length of the source text of `SuspendedDefaultArguments`, where it is sound and fits.
fn checked_len_of_suspended_default_arguments(node: &Variant) -> (r: Option<usize>)
    requires
        (node is SuspendedDefaultArguments),
    ensures
        r is Some == (node@.valid() && node@.source().len() <= usize::MAX),
        r matches Some(n) ==> n == node@.source().len(),
    decreases node, 0int,
{
    match node {
        Variant::SuspendedDefaultArguments { token } => {
            let total: usize = 0;
            let ghost held = Seq::<char>::empty();
            let part = token.checked_len();
            let total = add_len(total, part)?;
            let ghost held = held + (node@->SuspendedDefaultArguments_token).source();
            assert(node@.source() =~= held);
            Some(total)
        },
        _ => unreached(),
    }
}

/// The length of the source text of `TextLiteral`, where it is sound and fits.
fn checked_len_of_text_literal(node: &Variant) -> (r: Option<usize>)
    requires
        (node is TextLiteral),
    ensures
        r is Some == (node@.valid() && node@.source().len() <= usize::MAX),
        r matches Some(n) ==> n == node@.source().len(),
    decreases node, 0int,
{
    match node {
        Variant::TextLiteral { open, newline, elements, close, closed: _ } => {
            let total: usize = 0;
            let ghost held = Seq::<char>::empty();
            let part = match open {
                Some(x) => x.checked_len(),
                None => Some(0),
            };
            let total = add_len(total, part)?;
            let ghost held = held + opt_token_source((node@->TextLiteral_open));
            let part = match newline {
                Some(x) => x.checked_len(),
                None => Some(0),
            };
            let total = add_len(total, part)?;
            let ghost held = held + opt_token_source((node@->TextLiteral_newline));
            let part = TextElement::checked_len_of_all(elements);
            let total = add_len(total, part)?;
            let ghost held = held + TextElementView::sources((node@->TextLiteral_elements));
            let part = match close {
                Some(x) => x.checked_len(),
                None => Some(0),
            };
            let total = add_len(total, part)?;
            let ghost held = held + opt_token_source((node@->TextLiteral_close));
            assert(node@.source() =~= held);
            Some(total)
        },
        _ => unreached(),
    }
}

/// The length of the source text of `App`, where it is sound and fits.
fn checked_len_of_app(node: &Variant) -> (r: Option<usize>)
    requires
        (node is App),
    ensures
        r is Some == (node@.valid() && node@.source().len() <= usize::MAX),
        r matches Some(n) ==> n == node@.source().len(),
    decreases node, 0int,
{
    match node {
        Variant::App { func, arg } => {
            let total: usize = 0;
            let ghost held = Seq::<char>::empty();
            let part = func.checked_len();
            let total = add_len(total, part)?;
            let ghost held = held + (node@->App_func).source();
            let part = arg.checked_len();
            let total = add_len(total, part)?;
            let ghost held = held + (node@->App_arg).source();
            assert(node@.source() =~= held);
            Some(total)
        },
        _ => unreached(),
    }
}

/// The length of the source text of `NamedApp`, where it is sound and fits.
#[verifier::rlimit(80)]
fn checked_len_of_named_app(node: &Variant) -> (r: Option<usize>)
    requires
        (node is NamedApp),
    ensures
        r is Some == (node@.valid() && node@.source().len() <= usize::MAX),
        r matches Some(n) ==> n == node@.source().len(),
    decreases node, 0int,
{
    match node {
        Variant::NamedApp { func, open, name, equals, arg, close } => {
            let total: usize = 0;
            let ghost held = Seq::<char>::empty();
            let part = func.checked_len();
            let total = add_len(total, part)?;
            let ghost held = held + (node@->NamedApp_func).source();
            let part = match open {
                Some(x) => x.checked_len(),
                None => Some(0),
            };
            let total = add_len(total, part)?;
            let ghost held = held + opt_token_source((node@->NamedApp_open));
            let part = name.checked_len();
            let total = add_len(total, part)?;
            let ghost held = held + (node@->NamedApp_name).source();
            let part = equals.checked_len();
            let total = add_len(total, part)?;
            let ghost held = held + (node@->NamedApp_equals).source();
            let part = arg.checked_len();
            let total = add_len(total, part)?;
            let ghost held = held + (node@->NamedApp_arg).source();
            let part = match close {
                Some(x) => x.checked_len(),
                None => Some(0),
            };
            let total = add_len(total, part)?;
            let ghost held = held + opt_token_source((node@->NamedApp_close));
            assert(node@.source() =~= held);
            Some(total)
        },
        _ => unreached(),
    }
}

/// The length of the source text of `OprApp`, where it is sound and fits.
fn checked_len_of_opr_app(node: &Variant) -> (r: Option<usize>)
    requires
        (node is OprApp),
    ensures
        r is Some == (node@.valid() && node@.source().len() <= usize::MAX),
        r matches Some(n) ==> n == node@.source().len(),
    decreases node, 0int,
{
    match node {
        Variant::OprApp { lhs, opr, rhs } => {
            let total: usize = 0;
            let ghost held = Seq::<char>::empty();
            let part = match lhs {
                Some(x) => x.checked_len(),
                None => Some(0),
            };
            let total = add_len(total, part)?;
            let ghost held = held + (
                match (node@->OprApp_lhs) { Some(x) => x.source(), None => Seq::empty(), }
            );
            let part = match opr {
                Ok(x) => x.checked_len(),
                Err(x) => x.checked_len(),
            };
            let total = add_len(total, part)?;
            let ghost held = held + operator_or_error_source((node@->OprApp_opr));
            let part = match rhs {
                Some(x) => x.checked_len(),
                None => Some(0),
            };
            let total = add_len(total, part)?;
            let ghost held = held + (
                match (node@->OprApp_rhs) { Some(x) => x.source(), None => Seq::empty(), }
            );
            assert(node@.source() =~= held);
            Some(total)
        },
        _ => unreached(),
    }
}

/// The length of the source text of `UnaryOprApp`, where it is sound and fits.
fn checked_len_of_unary_opr_app(node: &Variant) -> (r: Option<usize>)
    requires
        (node is UnaryOprApp),
    ensures
        r is Some == (node@.valid() && node@.source().len() <= usize::MAX),
        r matches Some(n) ==> n == node@.source().len(),
    decreases node, 0int,
{
    match node {
        Variant::UnaryOprApp { opr, rhs } => {
            let total: usize = 0;
            let ghost held = Seq::<char>::empty();
            let part = opr.checked_len();
            let total = add_len(total, part)?;
            let ghost held = held + (node@->UnaryOprApp_opr).source();
            let part = match rhs {
                Some(x) => x.checked_len(),
                None => Some(0),
            };
            let total = add_len(total, part)?;
            let ghost held = held + (
                match (node@->UnaryOprApp_rhs) { Some(x) => x.source(), None => Seq::empty(), }
            );
            assert(node@.source() =~= held);
            Some(total)
        },
        _ => unreached(),
    }
}

/// The length of the source text of `AutoscopedIdentifier`, where it is sound and fits.
fn checked_len_of_autoscoped_identifier(node: &Variant) -> (r: Option<usize>)
    requires
        (node is AutoscopedIdentifier),
    ensures
        r is Some == (node@.valid() && node@.source().len() <= usize::MAX),
        r matches Some(n) ==> n == node@.source().len(),
    decreases node, 0int,
{
    match node {
        Variant::AutoscopedIdentifier { opr, ident } => {
            let total: usize = 0;
            let ghost held = Seq::<char>::empty();
            let part = opr.checked_len();
            let total = add_len(total, part)?;
            let ghost held = held + (node@->AutoscopedIdentifier_opr).source();
            let part = ident.checked_len();
            let total = add_len(total, part)?;
            let ghost held = held + (node@->AutoscopedIdentifier_ident).source();
            assert(node@.source() =~= held);
            Some(total)
        },
        _ => unreached(),
    }
}

/// The length of the source text of `OprSectionBoundary`, where it is sound and fits.
fn checked_len_of_opr_section_boundary(node: &Variant) -> (r: Option<usize>)
    requires
        (node is OprSectionBoundary),
    ensures
        r is Some == (node@.valid() && node@.source().len() <= usize::MAX),
        r matches Some(n) ==> n == node@.source().len(),
    decreases node, 0int,
{
    match node {
        Variant::OprSectionBoundary { arguments: _, ast } => {
            let total: usize = 0;
            let ghost held = Seq::<char>::empty();
            let part = ast.checked_len();
            let total = add_len(total, part)?;
            let ghost held = held + (node@->OprSectionBoundary_ast).source();
            assert(node@.source() =~= held);
            Some(total)
        },
        _ => unreached(),
    }
}

/// The length of the source text of `TemplateFunction`, where it is sound and fits.
fn checked_len_of_template_function(node: &Variant) -> (r: Option<usize>)
    requires
        (node is TemplateFunction),
    ensures
        r is Some == (node@.valid() && node@.source().len() <= usize::MAX),
        r matches Some(n) ==> n == node@.source().len(),
    decreases node, 0int,
{
    match node {
        Variant::TemplateFunction { arguments: _, ast } => {
            let total: usize = 0;
            let ghost held = Seq::<char>::empty();
            let part = ast.checked_len();
            let total = add_len(total, part)?;
            let ghost held = held + (node@->TemplateFunction_ast).source();
            assert(node@.source() =~= held);
            Some(total)
        },
        _ => unreached(),
    }
}

/// The length of the source text of `MultiSegmentApp`, where it is sound and fits.
fn checked_len_of_multi_segment_app(node: &Variant) -> (r: Option<usize>)
    requires
        (node is MultiSegmentApp),
    ensures
        r is Some == (node@.valid() && node@.source().len() <= usize::MAX),
        r matches Some(n) ==> n == node@.source().len(),
    decreases node, 0int,
{
    match node {
        Variant::MultiSegmentApp { segments } => {
            let total: usize = 0;
            let ghost held = Seq::<char>::empty();
            let part = MultiSegmentAppSegment::checked_len_of_all(segments);
            let total = add_len(total, part)?;
            let ghost held = held + MultiSegmentAppSegmentView::sources(
                (node@->MultiSegmentApp_segments)
            );
            assert(node@.source() =~= held);
            Some(total)
        },
        _ => unreached(),
    }
}

/// The length of the source text of `TypeDef`, where it is sound and fits.
fn checked_len_of_type_def(node: &Variant) -> (r: Option<usize>)
    requires
        (node is TypeDef),
    ensures
        r is Some == (node@.valid() && node@.source().len() <= usize::MAX),
        r matches Some(n) ==> n == node@.source().len(),
    decreases node, 0int,
{
    match node {
        Variant::TypeDef { keyword, name, params, body } => {
            let total: usize = 0;
            let ghost held = Seq::<char>::empty();
            let part = keyword.checked_len();
            let total = add_len(total, part)?;
            let ghost held = held + (node@->TypeDef_keyword).source();
            let part = name.checked_len();
            let total = add_len(total, part)?;
            let ghost held = held + (node@->TypeDef_name).source();
            let part = ArgumentDefinition::checked_len_of_all(params);
            let total = add_len(total, part)?;
            let ghost held = held + ArgumentDefinitionView::sources((node@->TypeDef_params));
            let part = Line::checked_len_of_all(body);
            let total = add_len(total, part)?;
            let ghost held = held + LineView::sources((node@->TypeDef_body));
            assert(node@.source() =~= held);
            Some(total)
        },
        _ => unreached(),
    }
}

/// The length of the source text of `Assignment`, where it is sound and fits.
fn checked_len_of_assignment(node: &Variant) -> (r: Option<usize>)
    requires
        (node is Assignment),
    ensures
        r is Some == (node@.valid() && node@.source().len() <= usize::MAX),
        r matches Some(n) ==> n == node@.source().len(),
    decreases node, 0int,
{
    match node {
        Variant::Assignment { pattern, equals, expr } => {
            let total: usize = 0;
            let ghost held = Seq::<char>::empty();
            let part = pattern.checked_len();
            let total = add_len(total, part)?;
            let ghost held = held + (node@->Assignment_pattern).source();
            let part = equals.checked_len();
            let total = add_len(total, part)?;
            let ghost held = held + (node@->Assignment_equals).source();
            let part = expr.checked_len();
            let total = add_len(total, part)?;
            let ghost held = held + (node@->Assignment_expr).source();
            assert(node@.source() =~= held);
            Some(total)
        },
        _ => unreached(),
    }
}

/// The length of the source text of `Function`, where it is sound and fits.
#[verifier::rlimit(80)]
fn checked_len_of_function(node: &Variant) -> (r: Option<usize>)
    requires
        (node is Function),
    ensures
        r is Some == (node@.valid() && node@.source().len() <= usize::MAX),
        r matches Some(n) ==> n == node@.source().len(),
    decreases node, 0int,
{
    match node {
        Variant::Function { name, args, returns_, equals, body } => {
            let total: usize = 0;
            let ghost held = Seq::<char>::empty();
            let part = name.checked_len();
            let total = add_len(total, part)?;
            let ghost held = held + (node@->Function_name).source();
            let part = ArgumentDefinition::checked_len_of_all(args);
            let total = add_len(total, part)?;
            let ghost held = held + ArgumentDefinitionView::sources((node@->Function_args));
            let part = match returns_ {
                Some(x) => x.checked_len(),
                None => Some(0),
            };
            let total = add_len(total, part)?;
            let ghost held = held + (
                match (node@->Function_returns_) { Some(x) => x.source(), None => Seq::empty(), }
            );
            let part = equals.checked_len();
            let total = add_len(total, part)?;
            let ghost held = held + (node@->Function_equals).source();
            let part = match body {
                Some(x) => x.checked_len(),
                None => Some(0),
            };
            let total = add_len(total, part)?;
            let ghost held = held + (
                match (node@->Function_body) { Some(x) => x.source(), None => Seq::empty(), }
            );
            assert(node@.source() =~= held);
            Some(total)
        },
        _ => unreached(),
    }
}

/// The length of the source text of `ForeignFunction`, where it is sound and fits.
#[verifier::rlimit(80)]
fn checked_len_of_foreign_function(node: &Variant) -> (r: Option<usize>)
    requires
        (node is ForeignFunction),
    ensures
        r is Some == (node@.valid() && node@.source().len() <= usize::MAX),
        r matches Some(n) ==> n == node@.source().len(),
    decreases node, 0int,
{
    match node {
        Variant::ForeignFunction { foreign, language, name, args, equals, body } => {
            let total: usize = 0;
            let ghost held = Seq::<char>::empty();
            let part = foreign.checked_len();
            let total = add_len(total, part)?;
            let ghost held = held + (node@->ForeignFunction_foreign).source();
            let part = language.checked_len();
            let total = add_len(total, part)?;
            let ghost held = held + (node@->ForeignFunction_language).source();
            let part = name.checked_len();
            let total = add_len(total, part)?;
            let ghost held = held + (node@->ForeignFunction_name).source();
            let part = ArgumentDefinition::checked_len_of_all(args);
            let total = add_len(total, part)?;
            let ghost held = held + ArgumentDefinitionView::sources((node@->ForeignFunction_args));
            let part = equals.checked_len();
            let total = add_len(total, part)?;
            let ghost held = held + (node@->ForeignFunction_equals).source();
            let part = body.checked_len();
            let total = add_len(total, part)?;
            let ghost held = held + (node@->ForeignFunction_body).source();
            assert(node@.source() =~= held);
            Some(total)
        },
        _ => unreached(),
    }
}

/// The length of the source text of `Import`, where it is sound and fits.
#[verifier::rlimit(80)]
fn checked_len_of_import(node: &Variant) -> (r: Option<usize>)
    requires
        (node is Import),
    ensures
        r is Some == (node@.valid() && node@.source().len() <= usize::MAX),
        r matches Some(n) ==> n == node@.source().len(),
    decreases node, 0int,
{
    match node {
        Variant::Import { polyglot, from, import, all, as_, hiding } => {
            let total: usize = 0;
            let ghost held = Seq::<char>::empty();
            let part = match polyglot {
                Some(x) => x.checked_len(),
                None => Some(0),
            };
            let total = add_len(total, part)?;
            let ghost held = held + (
                match (node@->Import_polyglot) { Some(x) => x.source(), None => Seq::empty(), }
            );
            let part = match from {
                Some(x) => x.checked_len(),
                None => Some(0),
            };
            let total = add_len(total, part)?;
            let ghost held = held + (
                match (node@->Import_from) { Some(x) => x.source(), None => Seq::empty(), }
            );
            let part = import.checked_len();
            let total = add_len(total, part)?;
            let ghost held = held + (node@->Import_import).source();
            let part = match all {
                Some(x) => x.checked_len(),
                None => Some(0),
            };
            let total = add_len(total, part)?;
            let ghost held = held + opt_token_source((node@->Import_all));
            let part = match as_ {
                Some(x) => x.checked_len(),
                None => Some(0),
            };
            let total = add_len(total, part)?;
            let ghost held = held + (
                match (node@->Import_as_) { Some(x) => x.source(), None => Seq::empty(), }
            );
            let part = match hiding {
                Some(x) => x.checked_len(),
                None => Some(0),
            };
            let total = add_len(total, part)?;
            let ghost held = held + (
                match (node@->Import_hiding) { Some(x) => x.source(), None => Seq::empty(), }
            );
            assert(node@.source() =~= held);
            Some(total)
        },
        _ => unreached(),
    }
}

/// The length of the source text of `Export`, where it is sound and fits.
#[verifier::rlimit(80)]
fn checked_len_of_export(node: &Variant) -> (r: Option<usize>)
    requires
        (node is Export),
    ensures
        r is Some == (node@.valid() && node@.source().len() <= usize::MAX),
        r matches Some(n) ==> n == node@.source().len(),
    decreases node, 0int,
{
    match node {
        Variant::Export { from, export, all, as_, hiding } => {
            let total: usize = 0;
            let ghost held = Seq::<char>::empty();
            let part = match from {
                Some(x) => x.checked_len(),
                None => Some(0),
            };
            let total = add_len(total, part)?;
            let ghost held = held + (
                match (node@->Export_from) { Some(x) => x.source(), None => Seq::empty(), }
            );
            let part = export.checked_len();
            let total = add_len(total, part)?;
            let ghost held = held + (node@->Export_export).source();
            let part = match all {
                Some(x) => x.checked_len(),
                None => Some(0),
            };
            let total = add_len(total, part)?;
            let ghost held = held + opt_token_source((node@->Export_all));
            let part = match as_ {
                Some(x) => x.checked_len(),
                None => Some(0),
            };
            let total = add_len(total, part)?;
            let ghost held = held + (
                match (node@->Export_as_) { Some(x) => x.source(), None => Seq::empty(), }
            );
            let part = match hiding {
                Some(x) => x.checked_len(),
                None => Some(0),
            };
            let total = add_len(total, part)?;
            let ghost held = held + (
                match (node@->Export_hiding) { Some(x) => x.source(), None => Seq::empty(), }
            );
            assert(node@.source() =~= held);
            Some(total)
        },
        _ => unreached(),
    }
}

/// The length of the source text of `Group`, where it is sound and fits.
fn checked_len_of_group(node: &Variant) -> (r: Option<usize>)
    requires
        (node is Group),
    ensures
        r is Some == (node@.valid() && node@.source().len() <= usize::MAX),
        r matches Some(n) ==> n == node@.source().len(),
    decreases node, 0int,
{
    match node {
        Variant::Group { open, body, close } => {
            let total: usize = 0;
            let ghost held = Seq::<char>::empty();
            let part = match open {
                Some(x) => x.checked_len(),
                None => Some(0),
            };
            let total = add_len(total, part)?;
            let ghost held = held + opt_token_source((node@->Group_open));
            let part = match body {
                Some(x) => x.checked_len(),
                None => Some(0),
            };
            let total = add_len(total, part)?;
            let ghost held = held + (
                match (node@->Group_body) { Some(x) => x.source(), None => Seq::empty(), }
            );
            let part = match close {
                Some(x) => x.checked_len(),
                None => Some(0),
            };
            let total = add_len(total, part)?;
            let ghost held = held + opt_token_source((node@->Group_close));
            assert(node@.source() =~= held);
            Some(total)
        },
        _ => unreached(),
    }
}

/// The length of the source text of `TypeSignature`, where it is sound and fits.
fn checked_len_of_type_signature(node: &Variant) -> (r: Option<usize>)
    requires
        (node is TypeSignature),
    ensures
        r is Some == (node@.valid() && node@.source().len() <= usize::MAX),
        r matches Some(n) ==> n == node@.source().len(),
    decreases node, 0int,
{
    match node {
        Variant::TypeSignature { variable, operator, type_ } => {
            let total: usize = 0;
            let ghost held = Seq::<char>::empty();
            let part = variable.checked_len();
            let total = add_len(total, part)?;
            let ghost held = held + (node@->TypeSignature_variable).source();
            let part = operator.checked_len();
            let total = add_len(total, part)?;
            let ghost held = held + (node@->TypeSignature_operator).source();
            let part = type_.checked_len();
            let total = add_len(total, part)?;
            let ghost held = held + (node@->TypeSignature_type_).source();
            assert(node@.source() =~= held);
            Some(total)
        },
        _ => unreached(),
    }
}

/// The length of the source text of `TypeAnnotated`, where it is sound and fits.
fn checked_len_of_type_annotated(node: &Variant) -> (r: Option<usize>)
    requires
        (node is TypeAnnotated),
    ensures
        r is Some == (node@.valid() && node@.source().len() <= usize::MAX),
        r matches Some(n) ==> n == node@.source().len(),
    decreases node, 0int,
{
    match node {
        Variant::TypeAnnotated { expression, operator, type_ } => {
            let total: usize = 0;
            let ghost held = Seq::<char>::empty();
            let part = expression.checked_len();
            let total = add_len(total, part)?;
            let ghost held = held + (node@->TypeAnnotated_expression).source();
            let part = operator.checked_len();
            let total = add_len(total, part)?;
            let ghost held = held + (node@->TypeAnnotated_operator).source();
            let part = type_.checked_len();
            let total = add_len(total, part)?;
            let ghost held = held + (node@->TypeAnnotated_type_).source();
            assert(node@.source() =~= held);
            Some(total)
        },
        _ => unreached(),
    }
}

/// The length of the source text of `CaseOf`, where it is sound and fits.
fn checked_len_of_case_of(node: &Variant) -> (r: Option<usize>)
    requires
        (node is CaseOf),
    ensures
        r is Some == (node@.valid() && node@.source().len() <= usize::MAX),
        r matches Some(n) ==> n == node@.source().len(),
    decreases node, 0int,
{
    match node {
        Variant::CaseOf { case, expression, of, cases } => {
            let total: usize = 0;
            let ghost held = Seq::<char>::empty();
            let part = case.checked_len();
            let total = add_len(total, part)?;
            let ghost held = held + (node@->CaseOf_case).source();
            let part = match expression {
                Some(x) => x.checked_len(),
                None => Some(0),
            };
            let total = add_len(total, part)?;
            let ghost held = held + (
                match (node@->CaseOf_expression) { Some(x) => x.source(), None => Seq::empty(), }
            );
            let part = of.checked_len();
            let total = add_len(total, part)?;
            let ghost held = held + (node@->CaseOf_of).source();
            let part = CaseLine::checked_len_of_all(cases);
            let total = add_len(total, part)?;
            let ghost held = held + CaseLineView::sources((node@->CaseOf_cases));
            assert(node@.source() =~= held);
            Some(total)
        },
        _ => unreached(),
    }
}

/// The length of the source text of `Lambda`, where it is sound and fits.
fn checked_len_of_lambda(node: &Variant) -> (r: Option<usize>)
    requires
        (node is Lambda),
    ensures
        r is Some == (node@.valid() && node@.source().len() <= usize::MAX),
        r matches Some(n) ==> n == node@.source().len(),
    decreases node, 0int,
{
    match node {
        Variant::Lambda { operator, arrow } => {
            let total: usize = 0;
            let ghost held = Seq::<char>::empty();
            let part = operator.checked_len();
            let total = add_len(total, part)?;
            let ghost held = held + (node@->Lambda_operator).source();
            let part = match arrow {
                Some(x) => x.checked_len(),
                None => Some(0),
            };
            let total = add_len(total, part)?;
            let ghost held = held + (
                match (node@->Lambda_arrow) { Some(x) => x.source(), None => Seq::empty(), }
            );
            assert(node@.source() =~= held);
            Some(total)
        },
        _ => unreached(),
    }
}

/// The length of the source text of `Array`, where it is sound and fits.
fn checked_len_of_array(node: &Variant) -> (r: Option<usize>)
    requires
        (node is Array),
    ensures
        r is Some == (node@.valid() && node@.source().len() <= usize::MAX),
        r matches Some(n) ==> n == node@.source().len(),
    decreases node, 0int,
{
    match node {
        Variant::Array { left, first, rest, right } => {
            let total: usize = 0;
            let ghost held = Seq::<char>::empty();
            let part = left.checked_len();
            let total = add_len(total, part)?;
            let ghost held = held + (node@->Array_left).source();
            let part = match first {
                Some(x) => x.checked_len(),
                None => Some(0),
            };
            let total = add_len(total, part)?;
            let ghost held = held + (
                match (node@->Array_first) { Some(x) => x.source(), None => Seq::empty(), }
            );
            let part = OperatorDelimitedTree::checked_len_of_all(rest);
            let total = add_len(total, part)?;
            let ghost held = held + OperatorDelimitedTreeView::sources((node@->Array_rest));
            let part = right.checked_len();
            let total = add_len(total, part)?;
            let ghost held = held + (node@->Array_right).source();
            assert(node@.source() =~= held);
            Some(total)
        },
        _ => unreached(),
    }
}

/// The length of the source text of `Tuple`, where it is sound and fits.
fn checked_len_of_tuple(node: &Variant) -> (r: Option<usize>)
    requires
        (node is Tuple),
    ensures
        r is Some == (node@.valid() && node@.source().len() <= usize::MAX),
        r matches Some(n) ==> n == node@.source().len(),
    decreases node, 0int,
{
    match node {
        Variant::Tuple { left, first, rest, right } => {
            let total: usize = 0;
            let ghost held = Seq::<char>::empty();
            let part = left.checked_len();
            let total = add_len(total, part)?;
            let ghost held = held + (node@->Tuple_left).source();
            let part = match first {
                Some(x) => x.checked_len(),
                None => Some(0),
            };
            let total = add_len(total, part)?;
            let ghost held = held + (
                match (node@->Tuple_first) { Some(x) => x.source(), None => Seq::empty(), }
            );
            let part = OperatorDelimitedTree::checked_len_of_all(rest);
            let total = add_len(total, part)?;
            let ghost held = held + OperatorDelimitedTreeView::sources((node@->Tuple_rest));
            let part = right.checked_len();
            let total = add_len(total, part)?;
            let ghost held = held + (node@->Tuple_right).source();
            assert(node@.source() =~= held);
            Some(total)
        },
        _ => unreached(),
    }
}

/// The length of the source text of `Annotated`, where it is sound and fits.
#[verifier::rlimit(80)]
fn checked_len_of_annotated(node: &Variant) -> (r: Option<usize>)
    requires
        (node is Annotated),
    ensures
        r is Some == (node@.valid() && node@.source().len() <= usize::MAX),
        r matches Some(n) ==> n == node@.source().len(),
    decreases node, 0int,
{
    match node {
        Variant::Annotated { token, annotation, argument, newlines, expression } => {
            let total: usize = 0;
            let ghost held = Seq::<char>::empty();
            let part = token.checked_len();
            let total = add_len(total, part)?;
            let ghost held = held + (node@->Annotated_token).source();
            let part = annotation.checked_len();
            let total = add_len(total, part)?;
            let ghost held = held + (node@->Annotated_annotation).source();
            let part = match argument {
                Some(x) => x.checked_len(),
                None => Some(0),
            };
            let total = add_len(total, part)?;
            let ghost held = held + (
                match (node@->Annotated_argument) { Some(x) => x.source(), None => Seq::empty(), }
            );
            proof {
                lemma_seq_tokens((node@->Annotated_newlines));
            }
            let part = checked_len_of_tokens(newlines);
            let total = add_len(total, part)?;
            let ghost held = held + tokens_source((node@->Annotated_newlines));
            let part = match expression {
                Some(x) => x.checked_len(),
                None => Some(0),
            };
            let total = add_len(total, part)?;
            let ghost held = held + (
                match (node@->Annotated_expression) { Some(x) => x.source(), None => Seq::empty(), }
            );
            assert(node@.source() =~= held);
            Some(total)
        },
        _ => unreached(),
    }
}

/// The length of the source text of `AnnotatedBuiltin`, where it is sound and fits.
fn checked_len_of_annotated_builtin(node: &Variant) -> (r: Option<usize>)
    requires
        (node is AnnotatedBuiltin),
    ensures
        r is Some == (node@.valid() && node@.source().len() <= usize::MAX),
        r matches Some(n) ==> n == node@.source().len(),
    decreases node, 0int,
{
    match node {
        Variant::AnnotatedBuiltin { token, annotation, newlines, expression } => {
            let total: usize = 0;
            let ghost held = Seq::<char>::empty();
            let part = token.checked_len();
            let total = add_len(total, part)?;
            let ghost held = held + (node@->AnnotatedBuiltin_token).source();
            let part = annotation.checked_len();
            let total = add_len(total, part)?;
            let ghost held = held + (node@->AnnotatedBuiltin_annotation).source();
            proof {
                lemma_seq_tokens((node@->AnnotatedBuiltin_newlines));
            }
            let part = checked_len_of_tokens(newlines);
            let total = add_len(total, part)?;
            let ghost held = held + tokens_source((node@->AnnotatedBuiltin_newlines));
            let part = match expression {
                Some(x) => x.checked_len(),
                None => Some(0),
            };
            let total = add_len(total, part)?;
            let ghost held = held + (
                match (
                    node@->AnnotatedBuiltin_expression
                ) { Some(x) => x.source(), None => Seq::empty(), }
            );
            assert(node@.source() =~= held);
            Some(total)
        },
        _ => unreached(),
    }
}

/// The length of the source text of `Documented`, where it is sound and fits.
fn checked_len_of_documented(node: &Variant) -> (r: Option<usize>)
    requires
        (node is Documented),
    ensures
        r is Some == (node@.valid() && node@.source().len() <= usize::MAX),
        r matches Some(n) ==> n == node@.source().len(),
    decreases node, 0int,
{
    match node {
        Variant::Documented { documentation, expression } => {
            let total: usize = 0;
            let ghost held = Seq::<char>::empty();
            let part = documentation.checked_len();
            let total = add_len(total, part)?;
            let ghost held = held + (node@->Documented_documentation).source();
            let part = match expression {
                Some(x) => x.checked_len(),
                None => Some(0),
            };
            let total = add_len(total, part)?;
            let ghost held = held + (
                match (
                    node@->Documented_expression
                ) { Some(x) => x.source(), None => Seq::empty(), }
            );
            assert(node@.source() =~= held);
            Some(total)
        },
        _ => unreached(),
    }
}

/// The length of the source text of `ConstructorDefinition`, where it is sound and fits.
fn checked_len_of_constructor_definition(node: &Variant) -> (r: Option<usize>)
    requires
        (node is ConstructorDefinition),
    ensures
        r is Some == (node@.valid() && node@.source().len() <= usize::MAX),
        r matches Some(n) ==> n == node@.source().len(),
    decreases node, 0int,
{
    match node {
        Variant::ConstructorDefinition { constructor, arguments, block } => {
            let total: usize = 0;
            let ghost held = Seq::<char>::empty();
            let part = constructor.checked_len();
            let total = add_len(total, part)?;
            let ghost held = held + (node@->ConstructorDefinition_constructor).source();
            let part = ArgumentDefinition::checked_len_of_all(arguments);
            let total = add_len(total, part)?;
            let ghost held = held + ArgumentDefinitionView::sources(
                (node@->ConstructorDefinition_arguments)
            );
            let part = ArgumentDefinitionLine::checked_len_of_all(block);
            let total = add_len(total, part)?;
            let ghost held = held + ArgumentDefinitionLineView::sources(
                (node@->ConstructorDefinition_block)
            );
            assert(node@.source() =~= held);
            Some(total)
        },
        _ => unreached(),
    }
}

impl Variant {
    /// The length of the source text of the value, where every span inside the
    /// value covers exactly the text beneath it and the length fits.
    pub fn checked_len(&self) -> (r: Option<usize>)
        ensures
            r is Some == (self@.valid() && self@.source().len() <= usize::MAX),
            r matches Some(n) ==> n == self@.source().len(),
        decreases self, 1int,
    {
        match self {
            Variant::Invalid { .. } => checked_len_of_invalid(self),
            Variant::BodyBlock { .. } => checked_len_of_body_block(self),
            Variant::ArgumentBlockApplication { .. } => checked_len_of_argument_block_application(
                self
            ),
            Variant::OperatorBlockApplication { .. } => checked_len_of_operator_block_application(
                self
            ),
            Variant::Ident { .. } => checked_len_of_ident(self),
            Variant::Private { .. } => checked_len_of_private(self),
            Variant::Number { .. } => checked_len_of_number(self),
            Variant::Wildcard { .. } => checked_len_of_wildcard(self),
            Variant::SuspendedDefaultArguments { .. } => checked_len_of_suspended_default_arguments(
                self
            ),
            Variant::TextLiteral { .. } => checked_len_of_text_literal(self),
            Variant::App { .. } => checked_len_of_app(self),
            Variant::NamedApp { .. } => checked_len_of_named_app(self),
            Variant::OprApp { .. } => checked_len_of_opr_app(self),
            Variant::UnaryOprApp { .. } => checked_len_of_unary_opr_app(self),
            Variant::AutoscopedIdentifier { .. } => checked_len_of_autoscoped_identifier(self),
            Variant::OprSectionBoundary { .. } => checked_len_of_opr_section_boundary(self),
            Variant::TemplateFunction { .. } => checked_len_of_template_function(self),
            Variant::MultiSegmentApp { .. } => checked_len_of_multi_segment_app(self),
            Variant::TypeDef { .. } => checked_len_of_type_def(self),
            Variant::Assignment { .. } => checked_len_of_assignment(self),
            Variant::Function { .. } => checked_len_of_function(self),
            Variant::ForeignFunction { .. } => checked_len_of_foreign_function(self),
            Variant::Import { .. } => checked_len_of_import(self),
            Variant::Export { .. } => checked_len_of_export(self),
            Variant::Group { .. } => checked_len_of_group(self),
            Variant::TypeSignature { .. } => checked_len_of_type_signature(self),
            Variant::TypeAnnotated { .. } => checked_len_of_type_annotated(self),
            Variant::CaseOf { .. } => checked_len_of_case_of(self),
            Variant::Lambda { .. } => checked_len_of_lambda(self),
            Variant::Array { .. } => checked_len_of_array(self),
            Variant::Tuple { .. } => checked_len_of_tuple(self),
            Variant::Annotated { .. } => checked_len_of_annotated(self),
            Variant::AnnotatedBuiltin { .. } => checked_len_of_annotated_builtin(self),
            Variant::Documented { .. } => checked_len_of_documented(self),
            Variant::ConstructorDefinition { .. } => checked_len_of_constructor_definition(self),
        }
    }
}

impl Line {
    /// The length of the source text of the value, where every span inside the
    /// value covers exactly the text beneath it and the length fits.
    pub fn checked_len(&self) -> (r: Option<usize>)
        ensures
            r is Some == (self@.valid() && self@.source().len() <= usize::MAX),
            r matches Some(n) ==> n == self@.source().len(),
        decreases self,
    {
        let total: usize = 0;
        let ghost held = Seq::<char>::empty();
        let part = self.newline.checked_len();
        let total = add_len(total, part)?;
        let ghost held = held + self@.newline.source();
        let part = match &self.expression {
            Some(x) => x.checked_len(),
            None => Some(0),
        };
        let total = add_len(total, part)?;
        let ghost held = held + (
            match self@.expression { Some(x) => x.source(), None => Seq::empty(), }
        );
        assert(self@.source() =~= held);
        Some(total)
    }

    /// The length of the source text of the values, where they are sound and the
    /// length fits.
    pub fn checked_len_of_all(values: &Vec<Line>) -> (r: Option<usize>)
        ensures
            r is Some == (LineView::all_valid(Line::views(values@)) && LineView::sources(
                Line::views(values@),
            ).len() <= usize::MAX),
            r matches Some(n) ==> n == LineView::sources(Line::views(values@)).len(),
        decreases values,
    {
        let ghost models = Line::views(values@);
        let ghost parts = LineView::source_parts(models);
        let mut total: usize = 0;
        let mut i: usize = 0;
        assert(parts.subrange(0, 0) =~= Seq::<Seq<char>>::empty());
        while i < values.len()
            invariant
                i <= values@.len(),
                models == Line::views(values@),
                parts == LineView::source_parts(models),
                total == concat(parts.subrange(0, i as int)).len(),
                forall|j: int| 0 <= j < i ==> (#[trigger] models[j]).valid(),
            decreases values@.len() - i,
        {
            proof {
                lemma_concat_prefix(parts, i + 1);
                assert(parts.subrange(0, i + 1).drop_last() =~= parts.subrange(0, i as int));
                assert(parts[i as int] == models[i as int].source());
                assert(models[i as int] == values@[i as int]@);
            }
            total = add_len(total, values[i].checked_len())?;
            i = i + 1;
        }
        assert(parts.subrange(0, i as int) =~= parts);
        Some(total)
    }
}

impl OperatorBlockExpression {
    /// The length of the source text of the value, where every span inside the
    /// value covers exactly the text beneath it and the length fits.
    pub fn checked_len(&self) -> (r: Option<usize>)
        ensures
            r is Some == (self@.valid() && self@.source().len() <= usize::MAX),
            r matches Some(n) ==> n == self@.source().len(),
        decreases self,
    {
        let total: usize = 0;
        let ghost held = Seq::<char>::empty();
        let part = match &self.operator {
            Ok(x) => x.checked_len(),
            Err(x) => x.checked_len(),
        };
        let total = add_len(total, part)?;
        let ghost held = held + operator_or_error_source(self@.operator);
        let part = self.expression.checked_len();
        let total = add_len(total, part)?;
        let ghost held = held + self@.expression.source();
        assert(self@.source() =~= held);
        Some(total)
    }
}

impl OperatorLine {
    /// The length of the source text of the value, where every span inside the
    /// value covers exactly the text beneath it and the length fits.
    pub fn checked_len(&self) -> (r: Option<usize>)
        ensures
            r is Some == (self@.valid() && self@.source().len() <= usize::MAX),
            r matches Some(n) ==> n == self@.source().len(),
        decreases self,
    {
        let total: usize = 0;
        let ghost held = Seq::<char>::empty();
        let part = self.newline.checked_len();
        let total = add_len(total, part)?;
        let ghost held = held + self@.newline.source();
        let part = match &self.expression {
            Some(x) => x.checked_len(),
            None => Some(0),
        };
        let total = add_len(total, part)?;
        let ghost held = held + (
            match self@.expression { Some(x) => x.source(), None => Seq::empty(), }
        );
        assert(self@.source() =~= held);
        Some(total)
    }

    /// The length of the source text of the values, where they are sound and the
    /// length fits.
    pub fn checked_len_of_all(values: &Vec<OperatorLine>) -> (r: Option<usize>)
        ensures
            r is Some == (OperatorLineView::all_valid(
                OperatorLine::views(values@)
            ) && OperatorLineView::sources(
                OperatorLine::views(values@),
            ).len() <= usize::MAX),
            r matches Some(
                n
            ) ==> n == OperatorLineView::sources(OperatorLine::views(values@)).len(),
        decreases values,
    {
        let ghost models = OperatorLine::views(values@);
        let ghost parts = OperatorLineView::source_parts(models);
        let mut total: usize = 0;
        let mut i: usize = 0;
        assert(parts.subrange(0, 0) =~= Seq::<Seq<char>>::empty());
        while i < values.len()
            invariant
                i <= values@.len(),
                models == OperatorLine::views(values@),
                parts == OperatorLineView::source_parts(models),
                total == concat(parts.subrange(0, i as int)).len(),
                forall|j: int| 0 <= j < i ==> (#[trigger] models[j]).valid(),
            decreases values@.len() - i,
        {
            proof {
                lemma_concat_prefix(parts, i + 1);
                assert(parts.subrange(0, i + 1).drop_last() =~= parts.subrange(0, i as int));
                assert(parts[i as int] == models[i as int].source());
                assert(models[i as int] == values@[i as int]@);
            }
            total = add_len(total, values[i].checked_len())?;
            i = i + 1;
        }
        assert(parts.subrange(0, i as int) =~= parts);
        Some(total)
    }
}

impl ArgumentDefinitionLine {
    /// The length of the source text of the value, where every span inside the
    /// value covers exactly the text beneath it and the length fits.
    pub fn checked_len(&self) -> (r: Option<usize>)
        ensures
            r is Some == (self@.valid() && self@.source().len() <= usize::MAX),
            r matches Some(n) ==> n == self@.source().len(),
        decreases self,
    {
        let total: usize = 0;
        let ghost held = Seq::<char>::empty();
        let part = self.newline.checked_len();
        let total = add_len(total, part)?;
        let ghost held = held + self@.newline.source();
        let part = match &self.argument {
            Some(x) => x.checked_len(),
            None => Some(0),
        };
        let total = add_len(total, part)?;
        let ghost held = held + (
            match self@.argument { Some(x) => x.source(), None => Seq::empty(), }
        );
        assert(self@.source() =~= held);
        Some(total)
    }

    /// The length of the source text of the values, where they are sound and the
    /// length fits.
    pub fn checked_len_of_all(values: &Vec<ArgumentDefinitionLine>) -> (r: Option<usize>)
        ensures
            r is Some == (ArgumentDefinitionLineView::all_valid(
                ArgumentDefinitionLine::views(values@)
            ) && ArgumentDefinitionLineView::sources(
                ArgumentDefinitionLine::views(values@),
            ).len() <= usize::MAX),
            r matches Some(
                n
            ) ==> n == ArgumentDefinitionLineView::sources(
                ArgumentDefinitionLine::views(values@)
            ).len(),
        decreases values,
    {
        let ghost models = ArgumentDefinitionLine::views(values@);
        let ghost parts = ArgumentDefinitionLineView::source_parts(models);
        let mut total: usize = 0;
        let mut i: usize = 0;
        assert(parts.subrange(0, 0) =~= Seq::<Seq<char>>::empty());
        while i < values.len()
            invariant
                i <= values@.len(),
                models == ArgumentDefinitionLine::views(values@),
                parts == ArgumentDefinitionLineView::source_parts(models),
                total == concat(parts.subrange(0, i as int)).len(),
                forall|j: int| 0 <= j < i ==> (#[trigger] models[j]).valid(),
            decreases values@.len() - i,
        {
            proof {
                lemma_concat_prefix(parts, i + 1);
                assert(parts.subrange(0, i + 1).drop_last() =~= parts.subrange(0, i as int));
                assert(parts[i as int] == models[i as int].source());
                assert(models[i as int] == values@[i as int]@);
            }
            total = add_len(total, values[i].checked_len())?;
            i = i + 1;
        }
        assert(parts.subrange(0, i as int) =~= parts);
        Some(total)
    }
}

impl TextElement {
    /// The length of the source text of the value, where every span inside the
    /// value covers exactly the text beneath it and the length fits.
    pub fn checked_len(&self) -> (r: Option<usize>)
        ensures
            r is Some == (self@.valid() && self@.source().len() <= usize::MAX),
            r matches Some(n) ==> n == self@.source().len(),
        decreases self,
    {
        match self {
            TextElement::Section { text } => {
                let total: usize = 0;
                let ghost held = Seq::<char>::empty();
                let part = text.checked_len();
                let total = add_len(total, part)?;
                let ghost held = held + (self@->Section_text).source();
                assert(self@.source() =~= held);
                Some(total)
            },
            TextElement::Escape { token } => {
                let total: usize = 0;
                let ghost held = Seq::<char>::empty();
                let part = token.checked_len();
                let total = add_len(total, part)?;
                let ghost held = held + (self@->Escape_token).source();
                assert(self@.source() =~= held);
                Some(total)
            },
            TextElement::Newline { newline } => {
                let total: usize = 0;
                let ghost held = Seq::<char>::empty();
                let part = newline.checked_len();
                let total = add_len(total, part)?;
                let ghost held = held + (self@->Newline_newline).source();
                assert(self@.source() =~= held);
                Some(total)
            },
            TextElement::Splice { open, expression, close } => {
                let total: usize = 0;
                let ghost held = Seq::<char>::empty();
                let part = open.checked_len();
                let total = add_len(total, part)?;
                let ghost held = held + (self@->Splice_open).source();
                let part = match expression {
                    Some(x) => x.checked_len(),
                    None => Some(0),
                };
                let total = add_len(total, part)?;
                let ghost held = held + (
                    match (
                        self@->Splice_expression
                    ) { Some(x) => x.source(), None => Seq::empty(), }
                );
                let part = close.checked_len();
                let total = add_len(total, part)?;
                let ghost held = held + (self@->Splice_close).source();
                assert(self@.source() =~= held);
                Some(total)
            },
        }
    }

    /// The length of the source text of the values, where they are sound and the
    /// length fits.
    pub fn checked_len_of_all(values: &Vec<TextElement>) -> (r: Option<usize>)
        ensures
            r is Some == (TextElementView::all_valid(
                TextElement::views(values@)
            ) && TextElementView::sources(
                TextElement::views(values@),
            ).len() <= usize::MAX),
            r matches Some(n) ==> n == TextElementView::sources(TextElement::views(values@)).len(),
        decreases values,
    {
        let ghost models = TextElement::views(values@);
        let ghost parts = TextElementView::source_parts(models);
        let mut total: usize = 0;
        let mut i: usize = 0;
        assert(parts.subrange(0, 0) =~= Seq::<Seq<char>>::empty());
        while i < values.len()
            invariant
                i <= values@.len(),
                models == TextElement::views(values@),
                parts == TextElementView::source_parts(models),
                total == concat(parts.subrange(0, i as int)).len(),
                forall|j: int| 0 <= j < i ==> (#[trigger] models[j]).valid(),
            decreases values@.len() - i,
        {
            proof {
                lemma_concat_prefix(parts, i + 1);
                assert(parts.subrange(0, i + 1).drop_last() =~= parts.subrange(0, i as int));
                assert(parts[i as int] == models[i as int].source());
                assert(models[i as int] == values@[i as int]@);
            }
            total = add_len(total, values[i].checked_len())?;
            i = i + 1;
        }
        assert(parts.subrange(0, i as int) =~= parts);
        Some(total)
    }
}

impl DocComment {
    /// The length of the source text of the value, where every span inside the
    /// value covers exactly the text beneath it and the length fits.
    pub fn checked_len(&self) -> (r: Option<usize>)
        ensures
            r is Some == (self@.valid() && self@.source().len() <= usize::MAX),
            r matches Some(n) ==> n == self@.source().len(),
        decreases self,
    {
        let total: usize = 0;
        let ghost held = Seq::<char>::empty();
        let part = self.open.checked_len();
        let total = add_len(total, part)?;
        let ghost held = held + self@.open.source();
        let part = TextElement::checked_len_of_all(&self.elements);
        let total = add_len(total, part)?;
        let ghost held = held + TextElementView::sources(self@.elements);
        proof {
            lemma_seq_tokens(self@.newlines);
        }
        let part = checked_len_of_tokens(&self.newlines);
        let total = add_len(total, part)?;
        let ghost held = held + tokens_source(self@.newlines);
        assert(self@.source() =~= held);
        Some(total)
    }
}

impl FractionalDigits {
    /// The length of the source text of the value, where every span inside the
    /// value covers exactly the text beneath it and the length fits.
    pub fn checked_len(&self) -> (r: Option<usize>)
        ensures
            r is Some == (self@.valid() && self@.source().len() <= usize::MAX),
            r matches Some(n) ==> n == self@.source().len(),
        decreases self,
    {
        let total: usize = 0;
        let ghost held = Seq::<char>::empty();
        let part = self.dot.checked_len();
        let total = add_len(total, part)?;
        let ghost held = held + self@.dot.source();
        let part = self.digits.checked_len();
        let total = add_len(total, part)?;
        let ghost held = held + self@.digits.source();
        assert(self@.source() =~= held);
        Some(total)
    }
}

impl ArgumentDefinition {
    /// The length of the source text of the value, where every span inside the
    /// value covers exactly the text beneath it and the length fits.
    #[verifier::rlimit(80)]
    pub fn checked_len(&self) -> (r: Option<usize>)
        ensures
            r is Some == (self@.valid() && self@.source().len() <= usize::MAX),
            r matches Some(n) ==> n == self@.source().len(),
        decreases self,
    {
        let total: usize = 0;
        let ghost held = Seq::<char>::empty();
        let part = match &self.open {
            Some(x) => x.checked_len(),
            None => Some(0),
        };
        let total = add_len(total, part)?;
        let ghost held = held + opt_token_source(self@.open);
        let part = match &self.open2 {
            Some(x) => x.checked_len(),
            None => Some(0),
        };
        let total = add_len(total, part)?;
        let ghost held = held + opt_token_source(self@.open2);
        let part = match &self.suspension {
            Some(x) => x.checked_len(),
            None => Some(0),
        };
        let total = add_len(total, part)?;
        let ghost held = held + opt_token_source(self@.suspension);
        let part = self.pattern.checked_len();
        let total = add_len(total, part)?;
        let ghost held = held + self@.pattern.source();
        let part = match &self.type_ {
            Some(x) => x.checked_len(),
            None => Some(0),
        };
        let total = add_len(total, part)?;
        let ghost held = held + (
            match self@.type_ { Some(x) => x.source(), None => Seq::empty(), }
        );
        let part = match &self.close2 {
            Some(x) => x.checked_len(),
            None => Some(0),
        };
        let total = add_len(total, part)?;
        let ghost held = held + opt_token_source(self@.close2);
        let part = match &self.default {
            Some(x) => x.checked_len(),
            None => Some(0),
        };
        let total = add_len(total, part)?;
        let ghost held = held + (
            match self@.default { Some(x) => x.source(), None => Seq::empty(), }
        );
        let part = match &self.close {
            Some(x) => x.checked_len(),
            None => Some(0),
        };
        let total = add_len(total, part)?;
        let ghost held = held + opt_token_source(self@.close);
        assert(self@.source() =~= held);
        Some(total)
    }

    /// The length of the source text of the values, where they are sound and the
    /// length fits.
    pub fn checked_len_of_all(values: &Vec<ArgumentDefinition>) -> (r: Option<usize>)
        ensures
            r is Some == (ArgumentDefinitionView::all_valid(
                ArgumentDefinition::views(values@)
            ) && ArgumentDefinitionView::sources(
                ArgumentDefinition::views(values@),
            ).len() <= usize::MAX),
            r matches Some(
                n
            ) ==> n == ArgumentDefinitionView::sources(ArgumentDefinition::views(values@)).len(),
        decreases values,
    {
        let ghost models = ArgumentDefinition::views(values@);
        let ghost parts = ArgumentDefinitionView::source_parts(models);
        let mut total: usize = 0;
        let mut i: usize = 0;
        assert(parts.subrange(0, 0) =~= Seq::<Seq<char>>::empty());
        while i < values.len()
            invariant
                i <= values@.len(),
                models == ArgumentDefinition::views(values@),
                parts == ArgumentDefinitionView::source_parts(models),
                total == concat(parts.subrange(0, i as int)).len(),
                forall|j: int| 0 <= j < i ==> (#[trigger] models[j]).valid(),
            decreases values@.len() - i,
        {
            proof {
                lemma_concat_prefix(parts, i + 1);
                assert(parts.subrange(0, i + 1).drop_last() =~= parts.subrange(0, i as int));
                assert(parts[i as int] == models[i as int].source());
                assert(models[i as int] == values@[i as int]@);
            }
            total = add_len(total, values[i].checked_len())?;
            i = i + 1;
        }
        assert(parts.subrange(0, i as int) =~= parts);
        Some(total)
    }
}

impl ArgumentDefault {
    /// The length of the source text of the value, where every span inside the
    /// value covers exactly the text beneath it and the length fits.
    pub fn checked_len(&self) -> (r: Option<usize>)
        ensures
            r is Some == (self@.valid() && self@.source().len() <= usize::MAX),
            r matches Some(n) ==> n == self@.source().len(),
        decreases self,
    {
        let total: usize = 0;
        let ghost held = Seq::<char>::empty();
        let part = self.equals.checked_len();
        let total = add_len(total, part)?;
        let ghost held = held + self@.equals.source();
        let part = self.expression.checked_len();
        let total = add_len(total, part)?;
        let ghost held = held + self@.expression.source();
        assert(self@.source() =~= held);
        Some(total)
    }
}

impl ArgumentType {
    /// The length of the source text of the value, where every span inside the
    /// value covers exactly the text beneath it and the length fits.
    pub fn checked_len(&self) -> (r: Option<usize>)
        ensures
            r is Some == (self@.valid() && self@.source().len() <= usize::MAX),
            r matches Some(n) ==> n == self@.source().len(),
        decreases self,
    {
        let total: usize = 0;
        let ghost held = Seq::<char>::empty();
        let part = self.operator.checked_len();
        let total = add_len(total, part)?;
        let ghost held = held + self@.operator.source();
        let part = self.type_.checked_len();
        let total = add_len(total, part)?;
        let ghost held = held + self@.type_.source();
        assert(self@.source() =~= held);
        Some(total)
    }
}

impl ReturnSpecification {
    /// The length of the source text of the value, where every span inside the
    /// value covers exactly the text beneath it and the length fits.
    pub fn checked_len(&self) -> (r: Option<usize>)
        ensures
            r is Some == (self@.valid() && self@.source().len() <= usize::MAX),
            r matches Some(n) ==> n == self@.source().len(),
        decreases self,
    {
        let total: usize = 0;
        let ghost held = Seq::<char>::empty();
        let part = self.arrow.checked_len();
        let total = add_len(total, part)?;
        let ghost held = held + self@.arrow.source();
        let part = self.type_.checked_len();
        let total = add_len(total, part)?;
        let ghost held = held + self@.type_.source();
        assert(self@.source() =~= held);
        Some(total)
    }
}

impl CaseLine {
    /// The length of the source text of the value, where every span inside the
    /// value covers exactly the text beneath it and the length fits.
    pub fn checked_len(&self) -> (r: Option<usize>)
        ensures
            r is Some == (self@.valid() && self@.source().len() <= usize::MAX),
            r matches Some(n) ==> n == self@.source().len(),
        decreases self,
    {
        let total: usize = 0;
        let ghost held = Seq::<char>::empty();
        let part = match &self.newline {
            Some(x) => x.checked_len(),
            None => Some(0),
        };
        let total = add_len(total, part)?;
        let ghost held = held + opt_token_source(self@.newline);
        let part = match &self.case {
            Some(x) => x.checked_len(),
            None => Some(0),
        };
        let total = add_len(total, part)?;
        let ghost held = held + (match self@.case { Some(x) => x.source(), None => Seq::empty(), });
        assert(self@.source() =~= held);
        Some(total)
    }

    /// The length of the source text of the values, where they are sound and the
    /// length fits.
    pub fn checked_len_of_all(values: &Vec<CaseLine>) -> (r: Option<usize>)
        ensures
            r is Some == (CaseLineView::all_valid(
                CaseLine::views(values@)
            ) && CaseLineView::sources(
                CaseLine::views(values@),
            ).len() <= usize::MAX),
            r matches Some(n) ==> n == CaseLineView::sources(CaseLine::views(values@)).len(),
        decreases values,
    {
        let ghost models = CaseLine::views(values@);
        let ghost parts = CaseLineView::source_parts(models);
        let mut total: usize = 0;
        let mut i: usize = 0;
        assert(parts.subrange(0, 0) =~= Seq::<Seq<char>>::empty());
        while i < values.len()
            invariant
                i <= values@.len(),
                models == CaseLine::views(values@),
                parts == CaseLineView::source_parts(models),
                total == concat(parts.subrange(0, i as int)).len(),
                forall|j: int| 0 <= j < i ==> (#[trigger] models[j]).valid(),
            decreases values@.len() - i,
        {
            proof {
                lemma_concat_prefix(parts, i + 1);
                assert(parts.subrange(0, i + 1).drop_last() =~= parts.subrange(0, i as int));
                assert(parts[i as int] == models[i as int].source());
                assert(models[i as int] == values@[i as int]@);
            }
            total = add_len(total, values[i].checked_len())?;
            i = i + 1;
        }
        assert(parts.subrange(0, i as int) =~= parts);
        Some(total)
    }
}

impl Case {
    /// The length of the source text of the value, where every span inside the
    /// value covers exactly the text beneath it and the length fits.
    pub fn checked_len(&self) -> (r: Option<usize>)
        ensures
            r is Some == (self@.valid() && self@.source().len() <= usize::MAX),
            r matches Some(n) ==> n == self@.source().len(),
        decreases self,
    {
        let total: usize = 0;
        let ghost held = Seq::<char>::empty();
        let part = match &self.documentation {
            Some(x) => x.checked_len(),
            None => Some(0),
        };
        let total = add_len(total, part)?;
        let ghost held = held + (
            match self@.documentation { Some(x) => x.source(), None => Seq::empty(), }
        );
        let part = match &self.pattern {
            Some(x) => x.checked_len(),
            None => Some(0),
        };
        let total = add_len(total, part)?;
        let ghost held = held + (
            match self@.pattern { Some(x) => x.source(), None => Seq::empty(), }
        );
        let part = match &self.arrow {
            Some(x) => x.checked_len(),
            None => Some(0),
        };
        let total = add_len(total, part)?;
        let ghost held = held + opt_token_source(self@.arrow);
        let part = match &self.expression {
            Some(x) => x.checked_len(),
            None => Some(0),
        };
        let total = add_len(total, part)?;
        let ghost held = held + (
            match self@.expression { Some(x) => x.source(), None => Seq::empty(), }
        );
        assert(self@.source() =~= held);
        Some(total)
    }
}

impl TextLiteral {
    /// The length of the source text of the value, where every span inside the
    /// value covers exactly the text beneath it and the length fits.
    pub fn checked_len(&self) -> (r: Option<usize>)
        ensures
            r is Some == (self@.valid() && self@.source().len() <= usize::MAX),
            r matches Some(n) ==> n == self@.source().len(),
        decreases self,
    {
        let total: usize = 0;
        let ghost held = Seq::<char>::empty();
        let part = match &self.open {
            Some(x) => x.checked_len(),
            None => Some(0),
        };
        let total = add_len(total, part)?;
        let ghost held = held + opt_token_source(self@.open);
        let part = match &self.newline {
            Some(x) => x.checked_len(),
            None => Some(0),
        };
        let total = add_len(total, part)?;
        let ghost held = held + opt_token_source(self@.newline);
        let part = TextElement::checked_len_of_all(&self.elements);
        let total = add_len(total, part)?;
        let ghost held = held + TextElementView::sources(self@.elements);
        let part = match &self.close {
            Some(x) => x.checked_len(),
            None => Some(0),
        };
        let total = add_len(total, part)?;
        let ghost held = held + opt_token_source(self@.close);
        assert(self@.source() =~= held);
        Some(total)
    }
}

impl MultipleOperatorError {
    /// The length of the source text of the operators, where there is at least
    /// one and the length fits.
    pub fn checked_len(&self) -> (r: Option<usize>)
        ensures
            r is Some == (self@.valid() && self@.source().len() <= usize::MAX),
            r matches Some(n) ==> n == self@.source().len(),
    {
        if self.operators.len() == 0 {
            return None;
        }
        checked_len_of_tokens(&self.operators)
    }
}

impl MultiSegmentAppSegment {
    /// The length of the source text of the value, where every span inside the
    /// value covers exactly the text beneath it and the length fits.
    pub fn checked_len(&self) -> (r: Option<usize>)
        ensures
            r is Some == (self@.valid() && self@.source().len() <= usize::MAX),
            r matches Some(n) ==> n == self@.source().len(),
        decreases self,
    {
        let total: usize = 0;
        let ghost held = Seq::<char>::empty();
        let part = self.header.checked_len();
        let total = add_len(total, part)?;
        let ghost held = held + self@.header.source();
        let part = match &self.body {
            Some(x) => x.checked_len(),
            None => Some(0),
        };
        let total = add_len(total, part)?;
        let ghost held = held + (match self@.body { Some(x) => x.source(), None => Seq::empty(), });
        assert(self@.source() =~= held);
        Some(total)
    }

    /// The length of the source text of the values, where they are sound and the
    /// length fits.
    pub fn checked_len_of_all(values: &Vec<MultiSegmentAppSegment>) -> (r: Option<usize>)
        ensures
            r is Some == (MultiSegmentAppSegmentView::all_valid(
                MultiSegmentAppSegment::views(values@)
            ) && MultiSegmentAppSegmentView::sources(
                MultiSegmentAppSegment::views(values@),
            ).len() <= usize::MAX),
            r matches Some(
                n
            ) ==> n == MultiSegmentAppSegmentView::sources(
                MultiSegmentAppSegment::views(values@)
            ).len(),
        decreases values,
    {
        let ghost models = MultiSegmentAppSegment::views(values@);
        let ghost parts = MultiSegmentAppSegmentView::source_parts(models);
        let mut total: usize = 0;
        let mut i: usize = 0;
        assert(parts.subrange(0, 0) =~= Seq::<Seq<char>>::empty());
        while i < values.len()
            invariant
                i <= values@.len(),
                models == MultiSegmentAppSegment::views(values@),
                parts == MultiSegmentAppSegmentView::source_parts(models),
                total == concat(parts.subrange(0, i as int)).len(),
                forall|j: int| 0 <= j < i ==> (#[trigger] models[j]).valid(),
            decreases values@.len() - i,
        {
            proof {
                lemma_concat_prefix(parts, i + 1);
                assert(parts.subrange(0, i + 1).drop_last() =~= parts.subrange(0, i as int));
                assert(parts[i as int] == models[i as int].source());
                assert(models[i as int] == values@[i as int]@);
            }
            total = add_len(total, values[i].checked_len())?;
            i = i + 1;
        }
        assert(parts.subrange(0, i as int) =~= parts);
        Some(total)
    }
}

impl OperatorDelimitedTree {
    /// The length of the source text of the value, where every span inside the
    /// value covers exactly the text beneath it and the length fits.
    pub fn checked_len(&self) -> (r: Option<usize>)
        ensures
            r is Some == (self@.valid() && self@.source().len() <= usize::MAX),
            r matches Some(n) ==> n == self@.source().len(),
        decreases self,
    {
        let total: usize = 0;
        let ghost held = Seq::<char>::empty();
        let part = self.operator.checked_len();
        let total = add_len(total, part)?;
        let ghost held = held + self@.operator.source();
        let part = match &self.body {
            Some(x) => x.checked_len(),
            None => Some(0),
        };
        let total = add_len(total, part)?;
        let ghost held = held + (match self@.body { Some(x) => x.source(), None => Seq::empty(), });
        assert(self@.source() =~= held);
        Some(total)
    }

    /// The length of the source text of the values, where they are sound and the
    /// length fits.
    pub fn checked_len_of_all(values: &Vec<OperatorDelimitedTree>) -> (r: Option<usize>)
        ensures
            r is Some == (OperatorDelimitedTreeView::all_valid(
                OperatorDelimitedTree::views(values@)
            ) && OperatorDelimitedTreeView::sources(
                OperatorDelimitedTree::views(values@),
            ).len() <= usize::MAX),
            r matches Some(
                n
            ) ==> n == OperatorDelimitedTreeView::sources(
                OperatorDelimitedTree::views(values@)
            ).len(),
        decreases values,
    {
        let ghost models = OperatorDelimitedTree::views(values@);
        let ghost parts = OperatorDelimitedTreeView::source_parts(models);
        let mut total: usize = 0;
        let mut i: usize = 0;
        assert(parts.subrange(0, 0) =~= Seq::<Seq<char>>::empty());
        while i < values.len()
            invariant
                i <= values@.len(),
                models == OperatorDelimitedTree::views(values@),
                parts == OperatorDelimitedTreeView::source_parts(models),
                total == concat(parts.subrange(0, i as int)).len(),
                forall|j: int| 0 <= j < i ==> (#[trigger] models[j]).valid(),
            decreases values@.len() - i,
        {
            proof {
                lemma_concat_prefix(parts, i + 1);
                assert(parts.subrange(0, i + 1).drop_last() =~= parts.subrange(0, i as int));
                assert(parts[i as int] == models[i as int].source());
                assert(models[i as int] == values@[i as int]@);
            }
            total = add_len(total, values[i].checked_len())?;
            i = i + 1;
        }
        assert(parts.subrange(0, i as int) =~= parts);
        Some(total)
    }
}

} // verus!
