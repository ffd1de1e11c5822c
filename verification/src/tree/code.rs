//! Reading the source text back from a tree: every offset and every token, in
//! the order in which they stand in the tree.

use crate::source::{concat, lemma_appended};
use crate::token::{opt_token_source, tokens_source, write_tokens};
use crate::tree::block::{Line, OperatorBlockExpression, OperatorLine};
use crate::tree::model::{
    ArgumentDefinitionLineView, ArgumentDefinitionView, CaseLineView,
    LineView, MultiSegmentAppSegmentView, OperatorDelimitedTreeView, OperatorLineView,
    TextElementView,
};
use crate::tree::text::operator_or_error_source;
use crate::tree::{
    ArgumentDefault, ArgumentDefinition, ArgumentDefinitionLine, ArgumentType, Case, CaseLine,
    DocComment, FractionalDigits, MultiSegmentAppSegment, MultipleOperatorError,
    OperatorDelimitedTree, ReturnSpecification, TextElement, TextLiteral, Tree, Variant,
};
use vstd::pervasive::unreached;
use vstd::prelude::*;

verus! {

impl Tree {
    /// Appends the source text of the node to `out`.
    pub fn write_code(&self, out: String) -> (r: String)
        ensures
            r@ == out@ + self@.source(),
        decreases self,
    {
        let ghost start = out@;
        let mut out = out;
        out.append(self.span.left_offset.code.as_str());
        let out = self.variant.write_code(out);
        assert(out@ =~= start + (self@.span.left_offset + (*self@.variant).source()));
        out
    }

    /// The source text of the node, with the whitespace before it.
    pub fn code(&self) -> (r: String)
        ensures
            r@ == self@.source(),
    {
        let out = self.write_code(String::new());
        assert(Seq::<char>::empty() + self@.source() =~= self@.source());
        out
    }

    /// The source text of the node, without the whitespace before it.
    pub fn trimmed_code(&self) -> (r: String)
        ensures
            r@ == (*self@.variant).source(),
    {
        let out = self.variant.write_code(String::new());
        assert(Seq::<char>::empty() + (*self@.variant).source() =~= (*self@.variant).source());
        out
    }
}

/// Appends the source text of `Invalid` to `out`.
fn write_invalid(node: &Variant, out: String) -> (r: String)
    requires
        (node is Invalid),
    ensures
        r@ == out@ + node@.source(),
    decreases node, 0int,
{
    match node {
        Variant::Invalid { error: _, ast } => {
            let ghost start = out@;
            let out = ast.write_code(out);
            let ghost text = (node@->Invalid_ast).source();
            out
        },
        _ => unreached(),
    }
}

/// Appends the source text of `BodyBlock` to `out`.
fn write_body_block(node: &Variant, out: String) -> (r: String)
    requires
        (node is BodyBlock),
    ensures
        r@ == out@ + node@.source(),
    decreases node, 0int,
{
    match node {
        Variant::BodyBlock { statements } => {
            let ghost start = out@;
            let out = Line::write_all(statements, out);
            let ghost text = LineView::sources((node@->BodyBlock_statements));
            out
        },
        _ => unreached(),
    }
}

/// Appends the source text of `ArgumentBlockApplication` to `out`.
fn write_argument_block_application(node: &Variant, out: String) -> (r: String)
    requires
        (node is ArgumentBlockApplication),
    ensures
        r@ == out@ + node@.source(),
    decreases node, 0int,
{
    match node {
        Variant::ArgumentBlockApplication { lhs, arguments } => {
            let ghost start = out@;
            let out = match lhs {
                Some(x) => x.write_code(out),
                None => out,
            };
            let ghost text = (
                match (
                    node@->ArgumentBlockApplication_lhs
                ) { Some(x) => x.source(), None => Seq::empty(), }
            );
            let out = Line::write_all(arguments, out);
            proof {
                lemma_appended(
                    start,
                    text,
                    LineView::sources((node@->ArgumentBlockApplication_arguments)),
                );
            }
            let ghost text = text + LineView::sources((node@->ArgumentBlockApplication_arguments));
            out
        },
        _ => unreached(),
    }
}

/// Appends the source text of `OperatorBlockApplication` to `out`.
fn write_operator_block_application(node: &Variant, out: String) -> (r: String)
    requires
        (node is OperatorBlockApplication),
    ensures
        r@ == out@ + node@.source(),
    decreases node, 0int,
{
    match node {
        Variant::OperatorBlockApplication { lhs, expressions, excess } => {
            let ghost start = out@;
            let out = match lhs {
                Some(x) => x.write_code(out),
                None => out,
            };
            let ghost text = (
                match (
                    node@->OperatorBlockApplication_lhs
                ) { Some(x) => x.source(), None => Seq::empty(), }
            );
            let out = OperatorLine::write_all(expressions, out);
            proof {
                lemma_appended(
                    start,
                    text,
                    OperatorLineView::sources((node@->OperatorBlockApplication_expressions)),
                );
            }
            let ghost text = text + OperatorLineView::sources(
                (node@->OperatorBlockApplication_expressions)
            );
            let out = Line::write_all(excess, out);
            proof {
                lemma_appended(
                    start,
                    text,
                    LineView::sources((node@->OperatorBlockApplication_excess)),
                );
            }
            let ghost text = text + LineView::sources((node@->OperatorBlockApplication_excess));
            out
        },
        _ => unreached(),
    }
}

/// Appends the source text of `Ident` to `out`.
fn write_ident(node: &Variant, out: String) -> (r: String)
    requires
        (node is Ident),
    ensures
        r@ == out@ + node@.source(),
    decreases node, 0int,
{
    match node {
        Variant::Ident { token } => {
            let ghost start = out@;
            let out = token.write_code(out);
            let ghost text = (node@->Ident_token).source();
            out
        },
        _ => unreached(),
    }
}

/// Appends the source text of `Private` to `out`.
fn write_private(node: &Variant, out: String) -> (r: String)
    requires
        (node is Private),
    ensures
        r@ == out@ + node@.source(),
    decreases node, 0int,
{
    match node {
        Variant::Private { keyword, body } => {
            let ghost start = out@;
            let out = keyword.write_code(out);
            let ghost text = (node@->Private_keyword).source();
            let out = match body {
                Some(x) => x.write_code(out),
                None => out,
            };
            proof {
                lemma_appended(
                    start,
                    text,
                    (match (node@->Private_body) { Some(x) => x.source(), None => Seq::empty(), }),
                );
            }
            let ghost text = text + (
                match (node@->Private_body) { Some(x) => x.source(), None => Seq::empty(), }
            );
            out
        },
        _ => unreached(),
    }
}

/// Appends the source text of `Number` to `out`.
fn write_number(node: &Variant, out: String) -> (r: String)
    requires
        (node is Number),
    ensures
        r@ == out@ + node@.source(),
    decreases node, 0int,
{
    match node {
        Variant::Number { base, integer, fractional_digits } => {
            let ghost start = out@;
            let out = match base {
                Some(x) => x.write_code(out),
                None => out,
            };
            let ghost text = opt_token_source((node@->Number_base));
            let out = match integer {
                Some(x) => x.write_code(out),
                None => out,
            };
            proof {
                lemma_appended(start, text, opt_token_source((node@->Number_integer)));
            }
            let ghost text = text + opt_token_source((node@->Number_integer));
            let out = match fractional_digits {
                Some(x) => x.write_code(out),
                None => out,
            };
            proof {
                lemma_appended(
                    start,
                    text,
                    (
                        match (
                            node@->Number_fractional_digits
                        ) { Some(x) => x.source(), None => Seq::empty(), }
                    ),
                );
            }
            let ghost text = text + (
                match (
                    node@->Number_fractional_digits
                ) { Some(x) => x.source(), None => Seq::empty(), }
            );
            out
        },
        _ => unreached(),
    }
}

/// Appends the source text of `Wildcard` to `out`.
fn write_wildcard(node: &Variant, out: String) -> (r: String)
    requires
        (node is Wildcard),
    ensures
        r@ == out@ + node@.source(),
    decreases node, 0int,
{
    match node {
        Variant::Wildcard { token, de_bruijn_index: _ } => {
            let ghost start = out@;
            let out = token.write_code(out);
            let ghost text = (node@->Wildcard_token).source();
            out
        },
        _ => unreached(),
    }
}

/// Appends the source text of `SuspendedDefaultArguments` to `out`.
fn write_suspended_default_arguments(node: &Variant, out: String) -> (r: String)
    requires
        (node is SuspendedDefaultArguments),
    ensures
        r@ == out@ + node@.source(),
    decreases node, 0int,
{
    match node {
        Variant::SuspendedDefaultArguments { token } => {
            let ghost start = out@;
            let out = token.write_code(out);
            let ghost text = (node@->SuspendedDefaultArguments_token).source();
            out
        },
        _ => unreached(),
    }
}

/// Appends the source text of `TextLiteral` to `out`.
fn write_text_literal(node: &Variant, out: String) -> (r: String)
    requires
        (node is TextLiteral),
    ensures
        r@ == out@ + node@.source(),
    decreases node, 0int,
{
    match node {
        Variant::TextLiteral { open, newline, elements, close, closed: _ } => {
            let ghost start = out@;
            let out = match open {
                Some(x) => x.write_code(out),
                None => out,
            };
            let ghost text = opt_token_source((node@->TextLiteral_open));
            let out = match newline {
                Some(x) => x.write_code(out),
                None => out,
            };
            proof {
                lemma_appended(start, text, opt_token_source((node@->TextLiteral_newline)));
            }
            let ghost text = text + opt_token_source((node@->TextLiteral_newline));
            let out = TextElement::write_all(elements, out);
            proof {
                lemma_appended(
                    start,
                    text,
                    TextElementView::sources((node@->TextLiteral_elements)),
                );
            }
            let ghost text = text + TextElementView::sources((node@->TextLiteral_elements));
            let out = match close {
                Some(x) => x.write_code(out),
                None => out,
            };
            proof {
                lemma_appended(start, text, opt_token_source((node@->TextLiteral_close)));
            }
            let ghost text = text + opt_token_source((node@->TextLiteral_close));
            out
        },
        _ => unreached(),
    }
}

/// Appends the source text of `App` to `out`.
fn write_app(node: &Variant, out: String) -> (r: String)
    requires
        (node is App),
    ensures
        r@ == out@ + node@.source(),
    decreases node, 0int,
{
    match node {
        Variant::App { func, arg } => {
            let ghost start = out@;
            let out = func.write_code(out);
            let ghost text = (node@->App_func).source();
            let out = arg.write_code(out);
            proof {
                lemma_appended(start, text, (node@->App_arg).source());
            }
            let ghost text = text + (node@->App_arg).source();
            out
        },
        _ => unreached(),
    }
}

/// Appends the source text of `NamedApp` to `out`.
fn write_named_app(node: &Variant, out: String) -> (r: String)
    requires
        (node is NamedApp),
    ensures
        r@ == out@ + node@.source(),
    decreases node, 0int,
{
    match node {
        Variant::NamedApp { func, open, name, equals, arg, close } => {
            let ghost start = out@;
            let out = func.write_code(out);
            let ghost text = (node@->NamedApp_func).source();
            let out = match open {
                Some(x) => x.write_code(out),
                None => out,
            };
            proof {
                lemma_appended(start, text, opt_token_source((node@->NamedApp_open)));
            }
            let ghost text = text + opt_token_source((node@->NamedApp_open));
            let out = name.write_code(out);
            proof {
                lemma_appended(start, text, (node@->NamedApp_name).source());
            }
            let ghost text = text + (node@->NamedApp_name).source();
            let out = equals.write_code(out);
            proof {
                lemma_appended(start, text, (node@->NamedApp_equals).source());
            }
            let ghost text = text + (node@->NamedApp_equals).source();
            let out = arg.write_code(out);
            proof {
                lemma_appended(start, text, (node@->NamedApp_arg).source());
            }
            let ghost text = text + (node@->NamedApp_arg).source();
            let out = match close {
                Some(x) => x.write_code(out),
                None => out,
            };
            proof {
                lemma_appended(start, text, opt_token_source((node@->NamedApp_close)));
            }
            let ghost text = text + opt_token_source((node@->NamedApp_close));
            out
        },
        _ => unreached(),
    }
}

/// Appends the source text of `OprApp` to `out`.
fn write_opr_app(node: &Variant, out: String) -> (r: String)
    requires
        (node is OprApp),
    ensures
        r@ == out@ + node@.source(),
    decreases node, 0int,
{
    match node {
        Variant::OprApp { lhs, opr, rhs } => {
            let ghost start = out@;
            let out = match lhs {
                Some(x) => x.write_code(out),
                None => out,
            };
            let ghost text = (
                match (node@->OprApp_lhs) { Some(x) => x.source(), None => Seq::empty(), }
            );
            let out = match opr {
                Ok(x) => x.write_code(out),
                Err(x) => x.write_code(out),
            };
            proof {
                lemma_appended(start, text, operator_or_error_source((node@->OprApp_opr)));
            }
            let ghost text = text + operator_or_error_source((node@->OprApp_opr));
            let out = match rhs {
                Some(x) => x.write_code(out),
                None => out,
            };
            proof {
                lemma_appended(
                    start,
                    text,
                    (match (node@->OprApp_rhs) { Some(x) => x.source(), None => Seq::empty(), }),
                );
            }
            let ghost text = text + (
                match (node@->OprApp_rhs) { Some(x) => x.source(), None => Seq::empty(), }
            );
            out
        },
        _ => unreached(),
    }
}

/// Appends the source text of `UnaryOprApp` to `out`.
fn write_unary_opr_app(node: &Variant, out: String) -> (r: String)
    requires
        (node is UnaryOprApp),
    ensures
        r@ == out@ + node@.source(),
    decreases node, 0int,
{
    match node {
        Variant::UnaryOprApp { opr, rhs } => {
            let ghost start = out@;
            let out = opr.write_code(out);
            let ghost text = (node@->UnaryOprApp_opr).source();
            let out = match rhs {
                Some(x) => x.write_code(out),
                None => out,
            };
            proof {
                lemma_appended(
                    start,
                    text,
                    (
                        match (
                            node@->UnaryOprApp_rhs
                        ) { Some(x) => x.source(), None => Seq::empty(), }
                    ),
                );
            }
            let ghost text = text + (
                match (node@->UnaryOprApp_rhs) { Some(x) => x.source(), None => Seq::empty(), }
            );
            out
        },
        _ => unreached(),
    }
}

/// Appends the source text of `AutoscopedIdentifier` to `out`.
fn write_autoscoped_identifier(node: &Variant, out: String) -> (r: String)
    requires
        (node is AutoscopedIdentifier),
    ensures
        r@ == out@ + node@.source(),
    decreases node, 0int,
{
    match node {
        Variant::AutoscopedIdentifier { opr, ident } => {
            let ghost start = out@;
            let out = opr.write_code(out);
            let ghost text = (node@->AutoscopedIdentifier_opr).source();
            let out = ident.write_code(out);
            proof {
                lemma_appended(start, text, (node@->AutoscopedIdentifier_ident).source());
            }
            let ghost text = text + (node@->AutoscopedIdentifier_ident).source();
            out
        },
        _ => unreached(),
    }
}

/// Appends the source text of `OprSectionBoundary` to `out`.
fn write_opr_section_boundary(node: &Variant, out: String) -> (r: String)
    requires
        (node is OprSectionBoundary),
    ensures
        r@ == out@ + node@.source(),
    decreases node, 0int,
{
    match node {
        Variant::OprSectionBoundary { arguments: _, ast } => {
            let ghost start = out@;
            let out = ast.write_code(out);
            let ghost text = (node@->OprSectionBoundary_ast).source();
            out
        },
        _ => unreached(),
    }
}

/// Appends the source text of `TemplateFunction` to `out`.
fn write_template_function(node: &Variant, out: String) -> (r: String)
    requires
        (node is TemplateFunction),
    ensures
        r@ == out@ + node@.source(),
    decreases node, 0int,
{
    match node {
        Variant::TemplateFunction { arguments: _, ast } => {
            let ghost start = out@;
            let out = ast.write_code(out);
            let ghost text = (node@->TemplateFunction_ast).source();
            out
        },
        _ => unreached(),
    }
}

/// Appends the source text of `MultiSegmentApp` to `out`.
fn write_multi_segment_app(node: &Variant, out: String) -> (r: String)
    requires
        (node is MultiSegmentApp),
    ensures
        r@ == out@ + node@.source(),
    decreases node, 0int,
{
    match node {
        Variant::MultiSegmentApp { segments } => {
            let ghost start = out@;
            let out = MultiSegmentAppSegment::write_all(segments, out);
            let ghost text = MultiSegmentAppSegmentView::sources((node@->MultiSegmentApp_segments));
            out
        },
        _ => unreached(),
    }
}

/// Appends the source text of `TypeDef` to `out`.
fn write_type_def(node: &Variant, out: String) -> (r: String)
    requires
        (node is TypeDef),
    ensures
        r@ == out@ + node@.source(),
    decreases node, 0int,
{
    match node {
        Variant::TypeDef { keyword, name, params, body } => {
            let ghost start = out@;
            let out = keyword.write_code(out);
            let ghost text = (node@->TypeDef_keyword).source();
            let out = name.write_code(out);
            proof {
                lemma_appended(start, text, (node@->TypeDef_name).source());
            }
            let ghost text = text + (node@->TypeDef_name).source();
            let out = ArgumentDefinition::write_all(params, out);
            proof {
                lemma_appended(
                    start,
                    text,
                    ArgumentDefinitionView::sources((node@->TypeDef_params)),
                );
            }
            let ghost text = text + ArgumentDefinitionView::sources((node@->TypeDef_params));
            let out = Line::write_all(body, out);
            proof {
                lemma_appended(start, text, LineView::sources((node@->TypeDef_body)));
            }
            let ghost text = text + LineView::sources((node@->TypeDef_body));
            out
        },
        _ => unreached(),
    }
}

/// Appends the source text of `Assignment` to `out`.
fn write_assignment(node: &Variant, out: String) -> (r: String)
    requires
        (node is Assignment),
    ensures
        r@ == out@ + node@.source(),
    decreases node, 0int,
{
    match node {
        Variant::Assignment { pattern, equals, expr } => {
            let ghost start = out@;
            let out = pattern.write_code(out);
            let ghost text = (node@->Assignment_pattern).source();
            let out = equals.write_code(out);
            proof {
                lemma_appended(start, text, (node@->Assignment_equals).source());
            }
            let ghost text = text + (node@->Assignment_equals).source();
            let out = expr.write_code(out);
            proof {
                lemma_appended(start, text, (node@->Assignment_expr).source());
            }
            let ghost text = text + (node@->Assignment_expr).source();
            out
        },
        _ => unreached(),
    }
}

/// Appends the source text of `Function` to `out`.
fn write_function(node: &Variant, out: String) -> (r: String)
    requires
        (node is Function),
    ensures
        r@ == out@ + node@.source(),
    decreases node, 0int,
{
    match node {
        Variant::Function { name, args, returns_, equals, body } => {
            let ghost start = out@;
            let out = name.write_code(out);
            let ghost text = (node@->Function_name).source();
            let out = ArgumentDefinition::write_all(args, out);
            proof {
                lemma_appended(
                    start,
                    text,
                    ArgumentDefinitionView::sources((node@->Function_args)),
                );
            }
            let ghost text = text + ArgumentDefinitionView::sources((node@->Function_args));
            let out = match returns_ {
                Some(x) => x.write_code(out),
                None => out,
            };
            proof {
                lemma_appended(
                    start,
                    text,
                    (
                        match (
                            node@->Function_returns_
                        ) { Some(x) => x.source(), None => Seq::empty(), }
                    ),
                );
            }
            let ghost text = text + (
                match (node@->Function_returns_) { Some(x) => x.source(), None => Seq::empty(), }
            );
            let out = equals.write_code(out);
            proof {
                lemma_appended(start, text, (node@->Function_equals).source());
            }
            let ghost text = text + (node@->Function_equals).source();
            let out = match body {
                Some(x) => x.write_code(out),
                None => out,
            };
            proof {
                lemma_appended(
                    start,
                    text,
                    (match (node@->Function_body) { Some(x) => x.source(), None => Seq::empty(), }),
                );
            }
            let ghost text = text + (
                match (node@->Function_body) { Some(x) => x.source(), None => Seq::empty(), }
            );
            out
        },
        _ => unreached(),
    }
}

/// Appends the source text of `ForeignFunction` to `out`.
fn write_foreign_function(node: &Variant, out: String) -> (r: String)
    requires
        (node is ForeignFunction),
    ensures
        r@ == out@ + node@.source(),
    decreases node, 0int,
{
    match node {
        Variant::ForeignFunction { foreign, language, name, args, equals, body } => {
            let ghost start = out@;
            let out = foreign.write_code(out);
            let ghost text = (node@->ForeignFunction_foreign).source();
            let out = language.write_code(out);
            proof {
                lemma_appended(start, text, (node@->ForeignFunction_language).source());
            }
            let ghost text = text + (node@->ForeignFunction_language).source();
            let out = name.write_code(out);
            proof {
                lemma_appended(start, text, (node@->ForeignFunction_name).source());
            }
            let ghost text = text + (node@->ForeignFunction_name).source();
            let out = ArgumentDefinition::write_all(args, out);
            proof {
                lemma_appended(
                    start,
                    text,
                    ArgumentDefinitionView::sources((node@->ForeignFunction_args)),
                );
            }
            let ghost text = text + ArgumentDefinitionView::sources((node@->ForeignFunction_args));
            let out = equals.write_code(out);
            proof {
                lemma_appended(start, text, (node@->ForeignFunction_equals).source());
            }
            let ghost text = text + (node@->ForeignFunction_equals).source();
            let out = body.write_code(out);
            proof {
                lemma_appended(start, text, (node@->ForeignFunction_body).source());
            }
            let ghost text = text + (node@->ForeignFunction_body).source();
            out
        },
        _ => unreached(),
    }
}

/// Appends the source text of `Import` to `out`.
fn write_import(node: &Variant, out: String) -> (r: String)
    requires
        (node is Import),
    ensures
        r@ == out@ + node@.source(),
    decreases node, 0int,
{
    match node {
        Variant::Import { polyglot, from, import, all, as_, hiding } => {
            let ghost start = out@;
            let out = match polyglot {
                Some(x) => x.write_code(out),
                None => out,
            };
            let ghost text = (
                match (node@->Import_polyglot) { Some(x) => x.source(), None => Seq::empty(), }
            );
            let out = match from {
                Some(x) => x.write_code(out),
                None => out,
            };
            proof {
                lemma_appended(
                    start,
                    text,
                    (match (node@->Import_from) { Some(x) => x.source(), None => Seq::empty(), }),
                );
            }
            let ghost text = text + (
                match (node@->Import_from) { Some(x) => x.source(), None => Seq::empty(), }
            );
            let out = import.write_code(out);
            proof {
                lemma_appended(start, text, (node@->Import_import).source());
            }
            let ghost text = text + (node@->Import_import).source();
            let out = match all {
                Some(x) => x.write_code(out),
                None => out,
            };
            proof {
                lemma_appended(start, text, opt_token_source((node@->Import_all)));
            }
            let ghost text = text + opt_token_source((node@->Import_all));
            let out = match as_ {
                Some(x) => x.write_code(out),
                None => out,
            };
            proof {
                lemma_appended(
                    start,
                    text,
                    (match (node@->Import_as_) { Some(x) => x.source(), None => Seq::empty(), }),
                );
            }
            let ghost text = text + (
                match (node@->Import_as_) { Some(x) => x.source(), None => Seq::empty(), }
            );
            let out = match hiding {
                Some(x) => x.write_code(out),
                None => out,
            };
            proof {
                lemma_appended(
                    start,
                    text,
                    (match (node@->Import_hiding) { Some(x) => x.source(), None => Seq::empty(), }),
                );
            }
            let ghost text = text + (
                match (node@->Import_hiding) { Some(x) => x.source(), None => Seq::empty(), }
            );
            out
        },
        _ => unreached(),
    }
}

/// Appends the source text of `Export` to `out`.
fn write_export(node: &Variant, out: String) -> (r: String)
    requires
        (node is Export),
    ensures
        r@ == out@ + node@.source(),
    decreases node, 0int,
{
    match node {
        Variant::Export { from, export, all, as_, hiding } => {
            let ghost start = out@;
            let out = match from {
                Some(x) => x.write_code(out),
                None => out,
            };
            let ghost text = (
                match (node@->Export_from) { Some(x) => x.source(), None => Seq::empty(), }
            );
            let out = export.write_code(out);
            proof {
                lemma_appended(start, text, (node@->Export_export).source());
            }
            let ghost text = text + (node@->Export_export).source();
            let out = match all {
                Some(x) => x.write_code(out),
                None => out,
            };
            proof {
                lemma_appended(start, text, opt_token_source((node@->Export_all)));
            }
            let ghost text = text + opt_token_source((node@->Export_all));
            let out = match as_ {
                Some(x) => x.write_code(out),
                None => out,
            };
            proof {
                lemma_appended(
                    start,
                    text,
                    (match (node@->Export_as_) { Some(x) => x.source(), None => Seq::empty(), }),
                );
            }
            let ghost text = text + (
                match (node@->Export_as_) { Some(x) => x.source(), None => Seq::empty(), }
            );
            let out = match hiding {
                Some(x) => x.write_code(out),
                None => out,
            };
            proof {
                lemma_appended(
                    start,
                    text,
                    (match (node@->Export_hiding) { Some(x) => x.source(), None => Seq::empty(), }),
                );
            }
            let ghost text = text + (
                match (node@->Export_hiding) { Some(x) => x.source(), None => Seq::empty(), }
            );
            out
        },
        _ => unreached(),
    }
}

/// Appends the source text of `Group` to `out`.
fn write_group(node: &Variant, out: String) -> (r: String)
    requires
        (node is Group),
    ensures
        r@ == out@ + node@.source(),
    decreases node, 0int,
{
    match node {
        Variant::Group { open, body, close } => {
            let ghost start = out@;
            let out = match open {
                Some(x) => x.write_code(out),
                None => out,
            };
            let ghost text = opt_token_source((node@->Group_open));
            let out = match body {
                Some(x) => x.write_code(out),
                None => out,
            };
            proof {
                lemma_appended(
                    start,
                    text,
                    (match (node@->Group_body) { Some(x) => x.source(), None => Seq::empty(), }),
                );
            }
            let ghost text = text + (
                match (node@->Group_body) { Some(x) => x.source(), None => Seq::empty(), }
            );
            let out = match close {
                Some(x) => x.write_code(out),
                None => out,
            };
            proof {
                lemma_appended(start, text, opt_token_source((node@->Group_close)));
            }
            let ghost text = text + opt_token_source((node@->Group_close));
            out
        },
        _ => unreached(),
    }
}

/// Appends the source text of `TypeSignature` to `out`.
fn write_type_signature(node: &Variant, out: String) -> (r: String)
    requires
        (node is TypeSignature),
    ensures
        r@ == out@ + node@.source(),
    decreases node, 0int,
{
    match node {
        Variant::TypeSignature { variable, operator, type_ } => {
            let ghost start = out@;
            let out = variable.write_code(out);
            let ghost text = (node@->TypeSignature_variable).source();
            let out = operator.write_code(out);
            proof {
                lemma_appended(start, text, (node@->TypeSignature_operator).source());
            }
            let ghost text = text + (node@->TypeSignature_operator).source();
            let out = type_.write_code(out);
            proof {
                lemma_appended(start, text, (node@->TypeSignature_type_).source());
            }
            let ghost text = text + (node@->TypeSignature_type_).source();
            out
        },
        _ => unreached(),
    }
}

/// Appends the source text of `TypeAnnotated` to `out`.
fn write_type_annotated(node: &Variant, out: String) -> (r: String)
    requires
        (node is TypeAnnotated),
    ensures
        r@ == out@ + node@.source(),
    decreases node, 0int,
{
    match node {
        Variant::TypeAnnotated { expression, operator, type_ } => {
            let ghost start = out@;
            let out = expression.write_code(out);
            let ghost text = (node@->TypeAnnotated_expression).source();
            let out = operator.write_code(out);
            proof {
                lemma_appended(start, text, (node@->TypeAnnotated_operator).source());
            }
            let ghost text = text + (node@->TypeAnnotated_operator).source();
            let out = type_.write_code(out);
            proof {
                lemma_appended(start, text, (node@->TypeAnnotated_type_).source());
            }
            let ghost text = text + (node@->TypeAnnotated_type_).source();
            out
        },
        _ => unreached(),
    }
}

/// Appends the source text of `CaseOf` to `out`.
fn write_case_of(node: &Variant, out: String) -> (r: String)
    requires
        (node is CaseOf),
    ensures
        r@ == out@ + node@.source(),
    decreases node, 0int,
{
    match node {
        Variant::CaseOf { case, expression, of, cases } => {
            let ghost start = out@;
            let out = case.write_code(out);
            let ghost text = (node@->CaseOf_case).source();
            let out = match expression {
                Some(x) => x.write_code(out),
                None => out,
            };
            proof {
                lemma_appended(
                    start,
                    text,
                    (
                        match (
                            node@->CaseOf_expression
                        ) { Some(x) => x.source(), None => Seq::empty(), }
                    ),
                );
            }
            let ghost text = text + (
                match (node@->CaseOf_expression) { Some(x) => x.source(), None => Seq::empty(), }
            );
            let out = of.write_code(out);
            proof {
                lemma_appended(start, text, (node@->CaseOf_of).source());
            }
            let ghost text = text + (node@->CaseOf_of).source();
            let out = CaseLine::write_all(cases, out);
            proof {
                lemma_appended(start, text, CaseLineView::sources((node@->CaseOf_cases)));
            }
            let ghost text = text + CaseLineView::sources((node@->CaseOf_cases));
            out
        },
        _ => unreached(),
    }
}

/// Appends the source text of `Lambda` to `out`.
fn write_lambda(node: &Variant, out: String) -> (r: String)
    requires
        (node is Lambda),
    ensures
        r@ == out@ + node@.source(),
    decreases node, 0int,
{
    match node {
        Variant::Lambda { operator, arrow } => {
            let ghost start = out@;
            let out = operator.write_code(out);
            let ghost text = (node@->Lambda_operator).source();
            let out = match arrow {
                Some(x) => x.write_code(out),
                None => out,
            };
            proof {
                lemma_appended(
                    start,
                    text,
                    (match (node@->Lambda_arrow) { Some(x) => x.source(), None => Seq::empty(), }),
                );
            }
            let ghost text = text + (
                match (node@->Lambda_arrow) { Some(x) => x.source(), None => Seq::empty(), }
            );
            out
        },
        _ => unreached(),
    }
}

/// Appends the source text of `Array` to `out`.
fn write_array(node: &Variant, out: String) -> (r: String)
    requires
        (node is Array),
    ensures
        r@ == out@ + node@.source(),
    decreases node, 0int,
{
    match node {
        Variant::Array { left, first, rest, right } => {
            let ghost start = out@;
            let out = left.write_code(out);
            let ghost text = (node@->Array_left).source();
            let out = match first {
                Some(x) => x.write_code(out),
                None => out,
            };
            proof {
                lemma_appended(
                    start,
                    text,
                    (match (node@->Array_first) { Some(x) => x.source(), None => Seq::empty(), }),
                );
            }
            let ghost text = text + (
                match (node@->Array_first) { Some(x) => x.source(), None => Seq::empty(), }
            );
            let out = OperatorDelimitedTree::write_all(rest, out);
            proof {
                lemma_appended(
                    start,
                    text,
                    OperatorDelimitedTreeView::sources((node@->Array_rest)),
                );
            }
            let ghost text = text + OperatorDelimitedTreeView::sources((node@->Array_rest));
            let out = right.write_code(out);
            proof {
                lemma_appended(start, text, (node@->Array_right).source());
            }
            let ghost text = text + (node@->Array_right).source();
            out
        },
        _ => unreached(),
    }
}

/// Appends the source text of `Tuple` to `out`.
fn write_tuple(node: &Variant, out: String) -> (r: String)
    requires
        (node is Tuple),
    ensures
        r@ == out@ + node@.source(),
    decreases node, 0int,
{
    match node {
        Variant::Tuple { left, first, rest, right } => {
            let ghost start = out@;
            let out = left.write_code(out);
            let ghost text = (node@->Tuple_left).source();
            let out = match first {
                Some(x) => x.write_code(out),
                None => out,
            };
            proof {
                lemma_appended(
                    start,
                    text,
                    (match (node@->Tuple_first) { Some(x) => x.source(), None => Seq::empty(), }),
                );
            }
            let ghost text = text + (
                match (node@->Tuple_first) { Some(x) => x.source(), None => Seq::empty(), }
            );
            let out = OperatorDelimitedTree::write_all(rest, out);
            proof {
                lemma_appended(
                    start,
                    text,
                    OperatorDelimitedTreeView::sources((node@->Tuple_rest)),
                );
            }
            let ghost text = text + OperatorDelimitedTreeView::sources((node@->Tuple_rest));
            let out = right.write_code(out);
            proof {
                lemma_appended(start, text, (node@->Tuple_right).source());
            }
            let ghost text = text + (node@->Tuple_right).source();
            out
        },
        _ => unreached(),
    }
}

/// Appends the source text of `Annotated` to `out`.
fn write_annotated(node: &Variant, out: String) -> (r: String)
    requires
        (node is Annotated),
    ensures
        r@ == out@ + node@.source(),
    decreases node, 0int,
{
    match node {
        Variant::Annotated { token, annotation, argument, newlines, expression } => {
            let ghost start = out@;
            let out = token.write_code(out);
            let ghost text = (node@->Annotated_token).source();
            let out = annotation.write_code(out);
            proof {
                lemma_appended(start, text, (node@->Annotated_annotation).source());
            }
            let ghost text = text + (node@->Annotated_annotation).source();
            let out = match argument {
                Some(x) => x.write_code(out),
                None => out,
            };
            proof {
                lemma_appended(
                    start,
                    text,
                    (
                        match (
                            node@->Annotated_argument
                        ) { Some(x) => x.source(), None => Seq::empty(), }
                    ),
                );
            }
            let ghost text = text + (
                match (node@->Annotated_argument) { Some(x) => x.source(), None => Seq::empty(), }
            );
            let out = write_tokens(newlines, out);
            proof {
                lemma_appended(start, text, tokens_source((node@->Annotated_newlines)));
            }
            let ghost text = text + tokens_source((node@->Annotated_newlines));
            let out = match expression {
                Some(x) => x.write_code(out),
                None => out,
            };
            proof {
                lemma_appended(
                    start,
                    text,
                    (
                        match (
                            node@->Annotated_expression
                        ) { Some(x) => x.source(), None => Seq::empty(), }
                    ),
                );
            }
            let ghost text = text + (
                match (node@->Annotated_expression) { Some(x) => x.source(), None => Seq::empty(), }
            );
            out
        },
        _ => unreached(),
    }
}

/// Appends the source text of `AnnotatedBuiltin` to `out`.
fn write_annotated_builtin(node: &Variant, out: String) -> (r: String)
    requires
        (node is AnnotatedBuiltin),
    ensures
        r@ == out@ + node@.source(),
    decreases node, 0int,
{
    match node {
        Variant::AnnotatedBuiltin { token, annotation, newlines, expression } => {
            let ghost start = out@;
            let out = token.write_code(out);
            let ghost text = (node@->AnnotatedBuiltin_token).source();
            let out = annotation.write_code(out);
            proof {
                lemma_appended(start, text, (node@->AnnotatedBuiltin_annotation).source());
            }
            let ghost text = text + (node@->AnnotatedBuiltin_annotation).source();
            let out = write_tokens(newlines, out);
            proof {
                lemma_appended(start, text, tokens_source((node@->AnnotatedBuiltin_newlines)));
            }
            let ghost text = text + tokens_source((node@->AnnotatedBuiltin_newlines));
            let out = match expression {
                Some(x) => x.write_code(out),
                None => out,
            };
            proof {
                lemma_appended(
                    start,
                    text,
                    (
                        match (
                            node@->AnnotatedBuiltin_expression
                        ) { Some(x) => x.source(), None => Seq::empty(), }
                    ),
                );
            }
            let ghost text = text + (
                match (
                    node@->AnnotatedBuiltin_expression
                ) { Some(x) => x.source(), None => Seq::empty(), }
            );
            out
        },
        _ => unreached(),
    }
}

/// Appends the source text of `Documented` to `out`.
fn write_documented(node: &Variant, out: String) -> (r: String)
    requires
        (node is Documented),
    ensures
        r@ == out@ + node@.source(),
    decreases node, 0int,
{
    match node {
        Variant::Documented { documentation, expression } => {
            let ghost start = out@;
            let out = documentation.write_code(out);
            let ghost text = (node@->Documented_documentation).source();
            let out = match expression {
                Some(x) => x.write_code(out),
                None => out,
            };
            proof {
                lemma_appended(
                    start,
                    text,
                    (
                        match (
                            node@->Documented_expression
                        ) { Some(x) => x.source(), None => Seq::empty(), }
                    ),
                );
            }
            let ghost text = text + (
                match (
                    node@->Documented_expression
                ) { Some(x) => x.source(), None => Seq::empty(), }
            );
            out
        },
        _ => unreached(),
    }
}

/// Appends the source text of `ConstructorDefinition` to `out`.
fn write_constructor_definition(node: &Variant, out: String) -> (r: String)
    requires
        (node is ConstructorDefinition),
    ensures
        r@ == out@ + node@.source(),
    decreases node, 0int,
{
    match node {
        Variant::ConstructorDefinition { constructor, arguments, block } => {
            let ghost start = out@;
            let out = constructor.write_code(out);
            let ghost text = (node@->ConstructorDefinition_constructor).source();
            let out = ArgumentDefinition::write_all(arguments, out);
            proof {
                lemma_appended(
                    start,
                    text,
                    ArgumentDefinitionView::sources((node@->ConstructorDefinition_arguments)),
                );
            }
            let ghost text = text + ArgumentDefinitionView::sources(
                (node@->ConstructorDefinition_arguments)
            );
            let out = ArgumentDefinitionLine::write_all(block, out);
            proof {
                lemma_appended(
                    start,
                    text,
                    ArgumentDefinitionLineView::sources((node@->ConstructorDefinition_block)),
                );
            }
            let ghost text = text + ArgumentDefinitionLineView::sources(
                (node@->ConstructorDefinition_block)
            );
            out
        },
        _ => unreached(),
    }
}

impl Variant {
    /// Appends the source text of the value to `out`.
    pub fn write_code(&self, out: String) -> (r: String)
        ensures
            r@ == out@ + self@.source(),
        decreases self, 1int,
    {
        match self {
            Variant::Invalid { .. } => write_invalid(self, out),
            Variant::BodyBlock { .. } => write_body_block(self, out),
            Variant::ArgumentBlockApplication { .. } => write_argument_block_application(self, out),
            Variant::OperatorBlockApplication { .. } => write_operator_block_application(self, out),
            Variant::Ident { .. } => write_ident(self, out),
            Variant::Private { .. } => write_private(self, out),
            Variant::Number { .. } => write_number(self, out),
            Variant::Wildcard { .. } => write_wildcard(self, out),
            Variant::SuspendedDefaultArguments { .. } => write_suspended_default_arguments(
                self,
                out,
            ),
            Variant::TextLiteral { .. } => write_text_literal(self, out),
            Variant::App { .. } => write_app(self, out),
            Variant::NamedApp { .. } => write_named_app(self, out),
            Variant::OprApp { .. } => write_opr_app(self, out),
            Variant::UnaryOprApp { .. } => write_unary_opr_app(self, out),
            Variant::AutoscopedIdentifier { .. } => write_autoscoped_identifier(self, out),
            Variant::OprSectionBoundary { .. } => write_opr_section_boundary(self, out),
            Variant::TemplateFunction { .. } => write_template_function(self, out),
            Variant::MultiSegmentApp { .. } => write_multi_segment_app(self, out),
            Variant::TypeDef { .. } => write_type_def(self, out),
            Variant::Assignment { .. } => write_assignment(self, out),
            Variant::Function { .. } => write_function(self, out),
            Variant::ForeignFunction { .. } => write_foreign_function(self, out),
            Variant::Import { .. } => write_import(self, out),
            Variant::Export { .. } => write_export(self, out),
            Variant::Group { .. } => write_group(self, out),
            Variant::TypeSignature { .. } => write_type_signature(self, out),
            Variant::TypeAnnotated { .. } => write_type_annotated(self, out),
            Variant::CaseOf { .. } => write_case_of(self, out),
            Variant::Lambda { .. } => write_lambda(self, out),
            Variant::Array { .. } => write_array(self, out),
            Variant::Tuple { .. } => write_tuple(self, out),
            Variant::Annotated { .. } => write_annotated(self, out),
            Variant::AnnotatedBuiltin { .. } => write_annotated_builtin(self, out),
            Variant::Documented { .. } => write_documented(self, out),
            Variant::ConstructorDefinition { .. } => write_constructor_definition(self, out),
        }
    }
}

impl Line {
    /// Appends the source text of the value to `out`.
    pub fn write_code(&self, out: String) -> (r: String)
        ensures
            r@ == out@ + self@.source(),
        decreases self,
    {
        let ghost start = out@;
        let out = self.newline.write_code(out);
        let ghost text = self@.newline.source();
        let out = match &self.expression {
            Some(x) => x.write_code(out),
            None => out,
        };
        proof {
            lemma_appended(
                start,
                text,
                (match self@.expression { Some(x) => x.source(), None => Seq::empty(), }),
            );
        }
        let ghost text = text + (
            match self@.expression { Some(x) => x.source(), None => Seq::empty(), }
        );
        out
    }

    /// Appends the source text of the values to `out`, in order.
    pub fn write_all(items: &Vec<Line>, out: String) -> (r: String)
        ensures
            r@ == out@ + LineView::sources(Line::views(items@)),
        decreases items,
    {
        let ghost start = out@;
        let ghost parts = LineView::source_parts(Line::views(items@));
        let mut out = out;
        let mut i: usize = 0;
        assert(parts.subrange(0, 0) =~= Seq::<Seq<char>>::empty());
        assert(out@ =~= start + concat(parts.subrange(0, 0)));
        while i < items.len()
            invariant
                i <= items@.len(),
                parts == LineView::source_parts(Line::views(items@)),
                out@ == start + concat(parts.subrange(0, i as int)),
            decreases items@.len() - i,
        {
            let ghost before = out@;
            out = items[i].write_code(out);
            proof {
                assert(parts.subrange(0, i + 1).drop_last() =~= parts.subrange(0, i as int));
                assert(parts[i as int] == items@[i as int]@.source());
                assert(out@ =~= start + concat(parts.subrange(0, i + 1)));
            }
            i = i + 1;
        }
        assert(parts.subrange(0, i as int) =~= parts);
        out
    }
}

impl OperatorBlockExpression {
    /// Appends the source text of the value to `out`.
    pub fn write_code(&self, out: String) -> (r: String)
        ensures
            r@ == out@ + self@.source(),
        decreases self,
    {
        let ghost start = out@;
        let out = match &self.operator {
            Ok(x) => x.write_code(out),
            Err(x) => x.write_code(out),
        };
        let ghost text = operator_or_error_source(self@.operator);
        let out = self.expression.write_code(out);
        proof {
            lemma_appended(start, text, self@.expression.source());
        }
        let ghost text = text + self@.expression.source();
        out
    }
}

impl OperatorLine {
    /// Appends the source text of the value to `out`.
    pub fn write_code(&self, out: String) -> (r: String)
        ensures
            r@ == out@ + self@.source(),
        decreases self,
    {
        let ghost start = out@;
        let out = self.newline.write_code(out);
        let ghost text = self@.newline.source();
        let out = match &self.expression {
            Some(x) => x.write_code(out),
            None => out,
        };
        proof {
            lemma_appended(
                start,
                text,
                (match self@.expression { Some(x) => x.source(), None => Seq::empty(), }),
            );
        }
        let ghost text = text + (
            match self@.expression { Some(x) => x.source(), None => Seq::empty(), }
        );
        out
    }

    /// Appends the source text of the values to `out`, in order.
    pub fn write_all(items: &Vec<OperatorLine>, out: String) -> (r: String)
        ensures
            r@ == out@ + OperatorLineView::sources(OperatorLine::views(items@)),
        decreases items,
    {
        let ghost start = out@;
        let ghost parts = OperatorLineView::source_parts(OperatorLine::views(items@));
        let mut out = out;
        let mut i: usize = 0;
        assert(parts.subrange(0, 0) =~= Seq::<Seq<char>>::empty());
        assert(out@ =~= start + concat(parts.subrange(0, 0)));
        while i < items.len()
            invariant
                i <= items@.len(),
                parts == OperatorLineView::source_parts(OperatorLine::views(items@)),
                out@ == start + concat(parts.subrange(0, i as int)),
            decreases items@.len() - i,
        {
            let ghost before = out@;
            out = items[i].write_code(out);
            proof {
                assert(parts.subrange(0, i + 1).drop_last() =~= parts.subrange(0, i as int));
                assert(parts[i as int] == items@[i as int]@.source());
                assert(out@ =~= start + concat(parts.subrange(0, i + 1)));
            }
            i = i + 1;
        }
        assert(parts.subrange(0, i as int) =~= parts);
        out
    }
}

impl ArgumentDefinitionLine {
    /// Appends the source text of the value to `out`.
    pub fn write_code(&self, out: String) -> (r: String)
        ensures
            r@ == out@ + self@.source(),
        decreases self,
    {
        let ghost start = out@;
        let out = self.newline.write_code(out);
        let ghost text = self@.newline.source();
        let out = match &self.argument {
            Some(x) => x.write_code(out),
            None => out,
        };
        proof {
            lemma_appended(
                start,
                text,
                (match self@.argument { Some(x) => x.source(), None => Seq::empty(), }),
            );
        }
        let ghost text = text + (
            match self@.argument { Some(x) => x.source(), None => Seq::empty(), }
        );
        out
    }

    /// Appends the source text of the values to `out`, in order.
    pub fn write_all(items: &Vec<ArgumentDefinitionLine>, out: String) -> (r: String)
        ensures
            r@ == out@ + ArgumentDefinitionLineView::sources(ArgumentDefinitionLine::views(items@)),
        decreases items,
    {
        let ghost start = out@;
        let ghost parts = ArgumentDefinitionLineView::source_parts(
            ArgumentDefinitionLine::views(items@)
        );
        let mut out = out;
        let mut i: usize = 0;
        assert(parts.subrange(0, 0) =~= Seq::<Seq<char>>::empty());
        assert(out@ =~= start + concat(parts.subrange(0, 0)));
        while i < items.len()
            invariant
                i <= items@.len(),
                parts == ArgumentDefinitionLineView::source_parts(
                    ArgumentDefinitionLine::views(items@)
                ),
                out@ == start + concat(parts.subrange(0, i as int)),
            decreases items@.len() - i,
        {
            let ghost before = out@;
            out = items[i].write_code(out);
            proof {
                assert(parts.subrange(0, i + 1).drop_last() =~= parts.subrange(0, i as int));
                assert(parts[i as int] == items@[i as int]@.source());
                assert(out@ =~= start + concat(parts.subrange(0, i + 1)));
            }
            i = i + 1;
        }
        assert(parts.subrange(0, i as int) =~= parts);
        out
    }
}

impl TextElement {
    /// Appends the source text of the value to `out`.
    pub fn write_code(&self, out: String) -> (r: String)
        ensures
            r@ == out@ + self@.source(),
        decreases self,
    {
        match self {
            TextElement::Section { text } => {
                let ghost start = out@;
                let out = text.write_code(out);
                let ghost text = (self@->Section_text).source();
                out
            },
            TextElement::Escape { token } => {
                let ghost start = out@;
                let out = token.write_code(out);
                let ghost text = (self@->Escape_token).source();
                out
            },
            TextElement::Newline { newline } => {
                let ghost start = out@;
                let out = newline.write_code(out);
                let ghost text = (self@->Newline_newline).source();
                out
            },
            TextElement::Splice { open, expression, close } => {
                let ghost start = out@;
                let out = open.write_code(out);
                let ghost text = (self@->Splice_open).source();
                let out = match expression {
                    Some(x) => x.write_code(out),
                    None => out,
                };
                proof {
                    lemma_appended(
                        start,
                        text,
                        (
                            match (
                                self@->Splice_expression
                            ) { Some(x) => x.source(), None => Seq::empty(), }
                        ),
                    );
                }
                let ghost text = text + (
                    match (
                        self@->Splice_expression
                    ) { Some(x) => x.source(), None => Seq::empty(), }
                );
                let out = close.write_code(out);
                proof {
                    lemma_appended(start, text, (self@->Splice_close).source());
                }
                let ghost text = text + (self@->Splice_close).source();
                out
            },
        }
    }

    /// Appends the source text of the values to `out`, in order.
    pub fn write_all(items: &Vec<TextElement>, out: String) -> (r: String)
        ensures
            r@ == out@ + TextElementView::sources(TextElement::views(items@)),
        decreases items,
    {
        let ghost start = out@;
        let ghost parts = TextElementView::source_parts(TextElement::views(items@));
        let mut out = out;
        let mut i: usize = 0;
        assert(parts.subrange(0, 0) =~= Seq::<Seq<char>>::empty());
        assert(out@ =~= start + concat(parts.subrange(0, 0)));
        while i < items.len()
            invariant
                i <= items@.len(),
                parts == TextElementView::source_parts(TextElement::views(items@)),
                out@ == start + concat(parts.subrange(0, i as int)),
            decreases items@.len() - i,
        {
            let ghost before = out@;
            out = items[i].write_code(out);
            proof {
                assert(parts.subrange(0, i + 1).drop_last() =~= parts.subrange(0, i as int));
                assert(parts[i as int] == items@[i as int]@.source());
                assert(out@ =~= start + concat(parts.subrange(0, i + 1)));
            }
            i = i + 1;
        }
        assert(parts.subrange(0, i as int) =~= parts);
        out
    }
}

impl DocComment {
    /// Appends the source text of the value to `out`.
    pub fn write_code(&self, out: String) -> (r: String)
        ensures
            r@ == out@ + self@.source(),
        decreases self,
    {
        let ghost start = out@;
        let out = self.open.write_code(out);
        let ghost text = self@.open.source();
        let out = TextElement::write_all(&self.elements, out);
        proof {
            lemma_appended(start, text, TextElementView::sources(self@.elements));
        }
        let ghost text = text + TextElementView::sources(self@.elements);
        let out = write_tokens(&self.newlines, out);
        proof {
            lemma_appended(start, text, tokens_source(self@.newlines));
        }
        let ghost text = text + tokens_source(self@.newlines);
        out
    }
}

impl FractionalDigits {
    /// Appends the source text of the value to `out`.
    pub fn write_code(&self, out: String) -> (r: String)
        ensures
            r@ == out@ + self@.source(),
        decreases self,
    {
        let ghost start = out@;
        let out = self.dot.write_code(out);
        let ghost text = self@.dot.source();
        let out = self.digits.write_code(out);
        proof {
            lemma_appended(start, text, self@.digits.source());
        }
        let ghost text = text + self@.digits.source();
        out
    }
}

impl ArgumentDefinition {
    /// Appends the source text of the value to `out`.
    pub fn write_code(&self, out: String) -> (r: String)
        ensures
            r@ == out@ + self@.source(),
        decreases self,
    {
        let ghost start = out@;
        let out = match &self.open {
            Some(x) => x.write_code(out),
            None => out,
        };
        let ghost text = opt_token_source(self@.open);
        let out = match &self.open2 {
            Some(x) => x.write_code(out),
            None => out,
        };
        proof {
            lemma_appended(start, text, opt_token_source(self@.open2));
        }
        let ghost text = text + opt_token_source(self@.open2);
        let out = match &self.suspension {
            Some(x) => x.write_code(out),
            None => out,
        };
        proof {
            lemma_appended(start, text, opt_token_source(self@.suspension));
        }
        let ghost text = text + opt_token_source(self@.suspension);
        let out = self.pattern.write_code(out);
        proof {
            lemma_appended(start, text, self@.pattern.source());
        }
        let ghost text = text + self@.pattern.source();
        let out = match &self.type_ {
            Some(x) => x.write_code(out),
            None => out,
        };
        proof {
            lemma_appended(
                start,
                text,
                (match self@.type_ { Some(x) => x.source(), None => Seq::empty(), }),
            );
        }
        let ghost text = text + (
            match self@.type_ { Some(x) => x.source(), None => Seq::empty(), }
        );
        let out = match &self.close2 {
            Some(x) => x.write_code(out),
            None => out,
        };
        proof {
            lemma_appended(start, text, opt_token_source(self@.close2));
        }
        let ghost text = text + opt_token_source(self@.close2);
        let out = match &self.default {
            Some(x) => x.write_code(out),
            None => out,
        };
        proof {
            lemma_appended(
                start,
                text,
                (match self@.default { Some(x) => x.source(), None => Seq::empty(), }),
            );
        }
        let ghost text = text + (
            match self@.default { Some(x) => x.source(), None => Seq::empty(), }
        );
        let out = match &self.close {
            Some(x) => x.write_code(out),
            None => out,
        };
        proof {
            lemma_appended(start, text, opt_token_source(self@.close));
        }
        let ghost text = text + opt_token_source(self@.close);
        out
    }

    /// Appends the source text of the values to `out`, in order.
    pub fn write_all(items: &Vec<ArgumentDefinition>, out: String) -> (r: String)
        ensures
            r@ == out@ + ArgumentDefinitionView::sources(ArgumentDefinition::views(items@)),
        decreases items,
    {
        let ghost start = out@;
        let ghost parts = ArgumentDefinitionView::source_parts(ArgumentDefinition::views(items@));
        let mut out = out;
        let mut i: usize = 0;
        assert(parts.subrange(0, 0) =~= Seq::<Seq<char>>::empty());
        assert(out@ =~= start + concat(parts.subrange(0, 0)));
        while i < items.len()
            invariant
                i <= items@.len(),
                parts == ArgumentDefinitionView::source_parts(ArgumentDefinition::views(items@)),
                out@ == start + concat(parts.subrange(0, i as int)),
            decreases items@.len() - i,
        {
            let ghost before = out@;
            out = items[i].write_code(out);
            proof {
                assert(parts.subrange(0, i + 1).drop_last() =~= parts.subrange(0, i as int));
                assert(parts[i as int] == items@[i as int]@.source());
                assert(out@ =~= start + concat(parts.subrange(0, i + 1)));
            }
            i = i + 1;
        }
        assert(parts.subrange(0, i as int) =~= parts);
        out
    }
}

impl ArgumentDefault {
    /// Appends the source text of the value to `out`.
    pub fn write_code(&self, out: String) -> (r: String)
        ensures
            r@ == out@ + self@.source(),
        decreases self,
    {
        let ghost start = out@;
        let out = self.equals.write_code(out);
        let ghost text = self@.equals.source();
        let out = self.expression.write_code(out);
        proof {
            lemma_appended(start, text, self@.expression.source());
        }
        let ghost text = text + self@.expression.source();
        out
    }
}

impl ArgumentType {
    /// Appends the source text of the value to `out`.
    pub fn write_code(&self, out: String) -> (r: String)
        ensures
            r@ == out@ + self@.source(),
        decreases self,
    {
        let ghost start = out@;
        let out = self.operator.write_code(out);
        let ghost text = self@.operator.source();
        let out = self.type_.write_code(out);
        proof {
            lemma_appended(start, text, self@.type_.source());
        }
        let ghost text = text + self@.type_.source();
        out
    }
}

impl ReturnSpecification {
    /// Appends the source text of the value to `out`.
    pub fn write_code(&self, out: String) -> (r: String)
        ensures
            r@ == out@ + self@.source(),
        decreases self,
    {
        let ghost start = out@;
        let out = self.arrow.write_code(out);
        let ghost text = self@.arrow.source();
        let out = self.type_.write_code(out);
        proof {
            lemma_appended(start, text, self@.type_.source());
        }
        let ghost text = text + self@.type_.source();
        out
    }
}

impl CaseLine {
    /// Appends the source text of the value to `out`.
    pub fn write_code(&self, out: String) -> (r: String)
        ensures
            r@ == out@ + self@.source(),
        decreases self,
    {
        let ghost start = out@;
        let out = match &self.newline {
            Some(x) => x.write_code(out),
            None => out,
        };
        let ghost text = opt_token_source(self@.newline);
        let out = match &self.case {
            Some(x) => x.write_code(out),
            None => out,
        };
        proof {
            lemma_appended(
                start,
                text,
                (match self@.case { Some(x) => x.source(), None => Seq::empty(), }),
            );
        }
        let ghost text = text + (match self@.case { Some(x) => x.source(), None => Seq::empty(), });
        out
    }

    /// Appends the source text of the values to `out`, in order.
    pub fn write_all(items: &Vec<CaseLine>, out: String) -> (r: String)
        ensures
            r@ == out@ + CaseLineView::sources(CaseLine::views(items@)),
        decreases items,
    {
        let ghost start = out@;
        let ghost parts = CaseLineView::source_parts(CaseLine::views(items@));
        let mut out = out;
        let mut i: usize = 0;
        assert(parts.subrange(0, 0) =~= Seq::<Seq<char>>::empty());
        assert(out@ =~= start + concat(parts.subrange(0, 0)));
        while i < items.len()
            invariant
                i <= items@.len(),
                parts == CaseLineView::source_parts(CaseLine::views(items@)),
                out@ == start + concat(parts.subrange(0, i as int)),
            decreases items@.len() - i,
        {
            let ghost before = out@;
            out = items[i].write_code(out);
            proof {
                assert(parts.subrange(0, i + 1).drop_last() =~= parts.subrange(0, i as int));
                assert(parts[i as int] == items@[i as int]@.source());
                assert(out@ =~= start + concat(parts.subrange(0, i + 1)));
            }
            i = i + 1;
        }
        assert(parts.subrange(0, i as int) =~= parts);
        out
    }
}

impl Case {
    /// Appends the source text of the value to `out`.
    pub fn write_code(&self, out: String) -> (r: String)
        ensures
            r@ == out@ + self@.source(),
        decreases self,
    {
        let ghost start = out@;
        let out = match &self.documentation {
            Some(x) => x.write_code(out),
            None => out,
        };
        let ghost text = (
            match self@.documentation { Some(x) => x.source(), None => Seq::empty(), }
        );
        let out = match &self.pattern {
            Some(x) => x.write_code(out),
            None => out,
        };
        proof {
            lemma_appended(
                start,
                text,
                (match self@.pattern { Some(x) => x.source(), None => Seq::empty(), }),
            );
        }
        let ghost text = text + (
            match self@.pattern { Some(x) => x.source(), None => Seq::empty(), }
        );
        let out = match &self.arrow {
            Some(x) => x.write_code(out),
            None => out,
        };
        proof {
            lemma_appended(start, text, opt_token_source(self@.arrow));
        }
        let ghost text = text + opt_token_source(self@.arrow);
        let out = match &self.expression {
            Some(x) => x.write_code(out),
            None => out,
        };
        proof {
            lemma_appended(
                start,
                text,
                (match self@.expression { Some(x) => x.source(), None => Seq::empty(), }),
            );
        }
        let ghost text = text + (
            match self@.expression { Some(x) => x.source(), None => Seq::empty(), }
        );
        out
    }
}

impl TextLiteral {
    /// Appends the source text of the value to `out`.
    pub fn write_code(&self, out: String) -> (r: String)
        ensures
            r@ == out@ + self@.source(),
        decreases self,
    {
        let ghost start = out@;
        let out = match &self.open {
            Some(x) => x.write_code(out),
            None => out,
        };
        let ghost text = opt_token_source(self@.open);
        let out = match &self.newline {
            Some(x) => x.write_code(out),
            None => out,
        };
        proof {
            lemma_appended(start, text, opt_token_source(self@.newline));
        }
        let ghost text = text + opt_token_source(self@.newline);
        let out = TextElement::write_all(&self.elements, out);
        proof {
            lemma_appended(start, text, TextElementView::sources(self@.elements));
        }
        let ghost text = text + TextElementView::sources(self@.elements);
        let out = match &self.close {
            Some(x) => x.write_code(out),
            None => out,
        };
        proof {
            lemma_appended(start, text, opt_token_source(self@.close));
        }
        let ghost text = text + opt_token_source(self@.close);
        out
    }
}

impl MultipleOperatorError {
    /// Appends the source text of the value to `out`.
    pub fn write_code(&self, out: String) -> (r: String)
        ensures
            r@ == out@ + self@.source(),
        decreases self,
    {
        let ghost start = out@;
        let out = write_tokens(&self.operators, out);
        let ghost text = tokens_source(self@.operators);
        out
    }
}

impl MultiSegmentAppSegment {
    /// Appends the source text of the value to `out`.
    pub fn write_code(&self, out: String) -> (r: String)
        ensures
            r@ == out@ + self@.source(),
        decreases self,
    {
        let ghost start = out@;
        let out = self.header.write_code(out);
        let ghost text = self@.header.source();
        let out = match &self.body {
            Some(x) => x.write_code(out),
            None => out,
        };
        proof {
            lemma_appended(
                start,
                text,
                (match self@.body { Some(x) => x.source(), None => Seq::empty(), }),
            );
        }
        let ghost text = text + (match self@.body { Some(x) => x.source(), None => Seq::empty(), });
        out
    }

    /// Appends the source text of the values to `out`, in order.
    pub fn write_all(items: &Vec<MultiSegmentAppSegment>, out: String) -> (r: String)
        ensures
            r@ == out@ + MultiSegmentAppSegmentView::sources(MultiSegmentAppSegment::views(items@)),
        decreases items,
    {
        let ghost start = out@;
        let ghost parts = MultiSegmentAppSegmentView::source_parts(
            MultiSegmentAppSegment::views(items@)
        );
        let mut out = out;
        let mut i: usize = 0;
        assert(parts.subrange(0, 0) =~= Seq::<Seq<char>>::empty());
        assert(out@ =~= start + concat(parts.subrange(0, 0)));
        while i < items.len()
            invariant
                i <= items@.len(),
                parts == MultiSegmentAppSegmentView::source_parts(
                    MultiSegmentAppSegment::views(items@)
                ),
                out@ == start + concat(parts.subrange(0, i as int)),
            decreases items@.len() - i,
        {
            let ghost before = out@;
            out = items[i].write_code(out);
            proof {
                assert(parts.subrange(0, i + 1).drop_last() =~= parts.subrange(0, i as int));
                assert(parts[i as int] == items@[i as int]@.source());
                assert(out@ =~= start + concat(parts.subrange(0, i + 1)));
            }
            i = i + 1;
        }
        assert(parts.subrange(0, i as int) =~= parts);
        out
    }
}

impl OperatorDelimitedTree {
    /// Appends the source text of the value to `out`.
    pub fn write_code(&self, out: String) -> (r: String)
        ensures
            r@ == out@ + self@.source(),
        decreases self,
    {
        let ghost start = out@;
        let out = self.operator.write_code(out);
        let ghost text = self@.operator.source();
        let out = match &self.body {
            Some(x) => x.write_code(out),
            None => out,
        };
        proof {
            lemma_appended(
                start,
                text,
                (match self@.body { Some(x) => x.source(), None => Seq::empty(), }),
            );
        }
        let ghost text = text + (match self@.body { Some(x) => x.source(), None => Seq::empty(), });
        out
    }

    /// Appends the source text of the values to `out`, in order.
    pub fn write_all(items: &Vec<OperatorDelimitedTree>, out: String) -> (r: String)
        ensures
            r@ == out@ + OperatorDelimitedTreeView::sources(OperatorDelimitedTree::views(items@)),
        decreases items,
    {
        let ghost start = out@;
        let ghost parts = OperatorDelimitedTreeView::source_parts(
            OperatorDelimitedTree::views(items@)
        );
        let mut out = out;
        let mut i: usize = 0;
        assert(parts.subrange(0, 0) =~= Seq::<Seq<char>>::empty());
        assert(out@ =~= start + concat(parts.subrange(0, 0)));
        while i < items.len()
            invariant
                i <= items@.len(),
                parts == OperatorDelimitedTreeView::source_parts(
                    OperatorDelimitedTree::views(items@)
                ),
                out@ == start + concat(parts.subrange(0, i as int)),
            decreases items@.len() - i,
        {
            let ghost before = out@;
            out = items[i].write_code(out);
            proof {
                assert(parts.subrange(0, i + 1).drop_last() =~= parts.subrange(0, i as int));
                assert(parts[i as int] == items@[i as int]@.source());
                assert(out@ =~= start + concat(parts.subrange(0, i + 1)));
            }
            i = i + 1;
        }
        assert(parts.subrange(0, i as int) =~= parts);
        out
    }
}

} // verus!
