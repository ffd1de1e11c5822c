//! The source text of a tree, and what it means for the spans of a tree to be
//! right: each covers exactly the text beneath it.

use crate::source::concat;
use crate::token::{opt_token_source, tokens_source};
use crate::tree::model::OperatorOrErrorView;
use crate::tree::model::{
    ArgumentDefaultView, ArgumentDefinitionLineView, ArgumentDefinitionView, ArgumentTypeView,
    CaseLineView, CaseView, DocCommentView, FractionalDigitsView, LineView,
    MultiSegmentAppSegmentView, MultipleOperatorErrorView, OperatorBlockExpressionView,
    OperatorDelimitedTreeView, OperatorLineView, ReturnSpecificationView, TextElementView,
    TextLiteralView, TreeView, VariantView,
};
use vstd::prelude::*;

verus! {

/// The source text of an operator or of the error of several.
pub open spec fn operator_or_error_source(opr: OperatorOrErrorView) -> Seq<char> {
    match opr {
        Ok(token) => token.source(),
        Err(error) => error.source(),
    }
}

/// An operator is valid, and so is the error of several that holds at least one.
pub open spec fn operator_or_error_valid(opr: OperatorOrErrorView) -> bool {
    match opr {
        Ok(_) => true,
        Err(error) => error.valid(),
    }
}

impl TreeView {
    /// The source text of the node: the whitespace before it, and the text of
    /// everything in it, in the order of the source.
    pub open spec fn source(self) -> Seq<char>
        decreases self,
    {
        self.span.left_offset + (*self.variant).source()
    }

    /// The span of the node covers exactly the text of what is in it, and the
    /// same holds of every node beneath.
    pub open spec fn valid(self) -> bool
        decreases self,
    {
        self.span.code_length == (*self.variant).source().len() && (*self.variant).valid()
    }
}

impl VariantView {
    /// The source text that the value stands for.
    pub open spec fn source(self) -> Seq<char>
        decreases self,
    {
        match self {
            VariantView::Invalid { error, ast } => {
                ast.source()
            },
            VariantView::BodyBlock { statements } => {
                LineView::sources(statements)
            },
            VariantView::ArgumentBlockApplication { lhs, arguments } => {
                (match lhs {
                    Some(x) => x.source(),
                    None => Seq::empty(),
                })
                + LineView::sources(arguments)
            },
            VariantView::OperatorBlockApplication { lhs, expressions, excess } => {
                (match lhs {
                    Some(x) => x.source(),
                    None => Seq::empty(),
                })
                + OperatorLineView::sources(expressions)
                + LineView::sources(excess)
            },
            VariantView::Ident { token } => {
                token.source()
            },
            VariantView::Private { keyword, body } => {
                keyword.source()
                + (match body {
                    Some(x) => x.source(),
                    None => Seq::empty(),
                })
            },
            VariantView::Number { base, integer, fractional_digits } => {
                opt_token_source(base)
                + opt_token_source(integer)
                + (match fractional_digits {
                    Some(x) => x.source(),
                    None => Seq::empty(),
                })
            },
            VariantView::Wildcard { token, de_bruijn_index } => {
                token.source()
            },
            VariantView::SuspendedDefaultArguments { token } => {
                token.source()
            },
            VariantView::TextLiteral { open, newline, elements, close, closed } => {
                opt_token_source(open)
                + opt_token_source(newline)
                + TextElementView::sources(elements)
                + opt_token_source(close)
            },
            VariantView::App { func, arg } => {
                func.source()
                + arg.source()
            },
            VariantView::NamedApp { func, open, name, equals, arg, close } => {
                func.source()
                + opt_token_source(open)
                + name.source()
                + equals.source()
                + arg.source()
                + opt_token_source(close)
            },
            VariantView::OprApp { lhs, opr, rhs } => {
                (match lhs {
                    Some(x) => x.source(),
                    None => Seq::empty(),
                })
                + operator_or_error_source(opr)
                + (match rhs {
                    Some(x) => x.source(),
                    None => Seq::empty(),
                })
            },
            VariantView::UnaryOprApp { opr, rhs } => {
                opr.source()
                + (match rhs {
                    Some(x) => x.source(),
                    None => Seq::empty(),
                })
            },
            VariantView::AutoscopedIdentifier { opr, ident } => {
                opr.source()
                + ident.source()
            },
            VariantView::OprSectionBoundary { arguments, ast } => {
                ast.source()
            },
            VariantView::TemplateFunction { arguments, ast } => {
                ast.source()
            },
            VariantView::MultiSegmentApp { segments } => {
                MultiSegmentAppSegmentView::sources(segments)
            },
            VariantView::TypeDef { keyword, name, params, body } => {
                keyword.source()
                + name.source()
                + ArgumentDefinitionView::sources(params)
                + LineView::sources(body)
            },
            VariantView::Assignment { pattern, equals, expr } => {
                pattern.source()
                + equals.source()
                + expr.source()
            },
            VariantView::Function { name, args, returns_, equals, body } => {
                name.source()
                + ArgumentDefinitionView::sources(args)
                + (match returns_ {
                    Some(x) => x.source(),
                    None => Seq::empty(),
                })
                + equals.source()
                + (match body {
                    Some(x) => x.source(),
                    None => Seq::empty(),
                })
            },
            VariantView::ForeignFunction { foreign, language, name, args, equals, body } => {
                foreign.source()
                + language.source()
                + name.source()
                + ArgumentDefinitionView::sources(args)
                + equals.source()
                + body.source()
            },
            VariantView::Import { polyglot, from, import, all, as_, hiding } => {
                (match polyglot {
                    Some(x) => x.source(),
                    None => Seq::empty(),
                })
                + (match from {
                    Some(x) => x.source(),
                    None => Seq::empty(),
                })
                + import.source()
                + opt_token_source(all)
                + (match as_ {
                    Some(x) => x.source(),
                    None => Seq::empty(),
                })
                + (match hiding {
                    Some(x) => x.source(),
                    None => Seq::empty(),
                })
            },
            VariantView::Export { from, export, all, as_, hiding } => {
                (match from {
                    Some(x) => x.source(),
                    None => Seq::empty(),
                })
                + export.source()
                + opt_token_source(all)
                + (match as_ {
                    Some(x) => x.source(),
                    None => Seq::empty(),
                })
                + (match hiding {
                    Some(x) => x.source(),
                    None => Seq::empty(),
                })
            },
            VariantView::Group { open, body, close } => {
                opt_token_source(open)
                + (match body {
                    Some(x) => x.source(),
                    None => Seq::empty(),
                })
                + opt_token_source(close)
            },
            VariantView::TypeSignature { variable, operator, type_ } => {
                variable.source()
                + operator.source()
                + type_.source()
            },
            VariantView::TypeAnnotated { expression, operator, type_ } => {
                expression.source()
                + operator.source()
                + type_.source()
            },
            VariantView::CaseOf { case, expression, of, cases } => {
                case.source()
                + (match expression {
                    Some(x) => x.source(),
                    None => Seq::empty(),
                })
                + of.source()
                + CaseLineView::sources(cases)
            },
            VariantView::Lambda { operator, arrow } => {
                operator.source()
                + (match arrow {
                    Some(x) => x.source(),
                    None => Seq::empty(),
                })
            },
            VariantView::Array { left, first, rest, right } => {
                left.source()
                + (match first {
                    Some(x) => x.source(),
                    None => Seq::empty(),
                })
                + OperatorDelimitedTreeView::sources(rest)
                + right.source()
            },
            VariantView::Tuple { left, first, rest, right } => {
                left.source()
                + (match first {
                    Some(x) => x.source(),
                    None => Seq::empty(),
                })
                + OperatorDelimitedTreeView::sources(rest)
                + right.source()
            },
            VariantView::Annotated { token, annotation, argument, newlines, expression } => {
                token.source()
                + annotation.source()
                + (match argument {
                    Some(x) => x.source(),
                    None => Seq::empty(),
                })
                + tokens_source(newlines)
                + (match expression {
                    Some(x) => x.source(),
                    None => Seq::empty(),
                })
            },
            VariantView::AnnotatedBuiltin { token, annotation, newlines, expression } => {
                token.source()
                + annotation.source()
                + tokens_source(newlines)
                + (match expression {
                    Some(x) => x.source(),
                    None => Seq::empty(),
                })
            },
            VariantView::Documented { documentation, expression } => {
                documentation.source()
                + (match expression {
                    Some(x) => x.source(),
                    None => Seq::empty(),
                })
            },
            VariantView::ConstructorDefinition { constructor, arguments, block } => {
                constructor.source()
                + ArgumentDefinitionView::sources(arguments)
                + ArgumentDefinitionLineView::sources(block)
            },
        }
    }

    /// Every span inside the value covers exactly the text beneath it.
    pub open spec fn valid(self) -> bool
        decreases self,
    {
        match self {
            VariantView::Invalid { error, ast } => {
                ast.valid()
            },
            VariantView::BodyBlock { statements } => {
                LineView::all_valid(statements)
            },
            VariantView::ArgumentBlockApplication { lhs, arguments } => {
                (match lhs {
                    Some(x) => x.valid(),
                    None => true,
                })
                && LineView::all_valid(arguments)
            },
            VariantView::OperatorBlockApplication { lhs, expressions, excess } => {
                (match lhs {
                    Some(x) => x.valid(),
                    None => true,
                })
                && OperatorLineView::all_valid(expressions)
                && LineView::all_valid(excess)
            },
            VariantView::Ident { token } => {
                true
            },
            VariantView::Private { keyword, body } => {
                (match body {
                    Some(x) => x.valid(),
                    None => true,
                })
            },
            VariantView::Number { base, integer, fractional_digits } => {
                true
            },
            VariantView::Wildcard { token, de_bruijn_index } => {
                true
            },
            VariantView::SuspendedDefaultArguments { token } => {
                true
            },
            VariantView::TextLiteral { open, newline, elements, close, closed } => {
                TextElementView::all_valid(elements)
            },
            VariantView::App { func, arg } => {
                func.valid()
                && arg.valid()
            },
            VariantView::NamedApp { func, open, name, equals, arg, close } => {
                func.valid()
                && arg.valid()
            },
            VariantView::OprApp { lhs, opr, rhs } => {
                (match lhs {
                    Some(x) => x.valid(),
                    None => true,
                })
                && operator_or_error_valid(opr)
                && (match rhs {
                    Some(x) => x.valid(),
                    None => true,
                })
            },
            VariantView::UnaryOprApp { opr, rhs } => {
                (match rhs {
                    Some(x) => x.valid(),
                    None => true,
                })
            },
            VariantView::AutoscopedIdentifier { opr, ident } => {
                true
            },
            VariantView::OprSectionBoundary { arguments, ast } => {
                ast.valid()
            },
            VariantView::TemplateFunction { arguments, ast } => {
                ast.valid()
            },
            VariantView::MultiSegmentApp { segments } => {
                MultiSegmentAppSegmentView::all_valid(segments)
            },
            VariantView::TypeDef { keyword, name, params, body } => {
                ArgumentDefinitionView::all_valid(params)
                && LineView::all_valid(body)
            },
            VariantView::Assignment { pattern, equals, expr } => {
                pattern.valid()
                && expr.valid()
            },
            VariantView::Function { name, args, returns_, equals, body } => {
                name.valid()
                && ArgumentDefinitionView::all_valid(args)
                && (match returns_ {
                    Some(x) => x.valid(),
                    None => true,
                })
                && (match body {
                    Some(x) => x.valid(),
                    None => true,
                })
            },
            VariantView::ForeignFunction { foreign, language, name, args, equals, body } => {
                ArgumentDefinitionView::all_valid(args)
                && body.valid()
            },
            VariantView::Import { polyglot, from, import, all, as_, hiding } => {
                (match polyglot {
                    Some(x) => x.valid(),
                    None => true,
                })
                && (match from {
                    Some(x) => x.valid(),
                    None => true,
                })
                && import.valid()
                && (match as_ {
                    Some(x) => x.valid(),
                    None => true,
                })
                && (match hiding {
                    Some(x) => x.valid(),
                    None => true,
                })
            },
            VariantView::Export { from, export, all, as_, hiding } => {
                (match from {
                    Some(x) => x.valid(),
                    None => true,
                })
                && export.valid()
                && (match as_ {
                    Some(x) => x.valid(),
                    None => true,
                })
                && (match hiding {
                    Some(x) => x.valid(),
                    None => true,
                })
            },
            VariantView::Group { open, body, close } => {
                (match body {
                    Some(x) => x.valid(),
                    None => true,
                })
            },
            VariantView::TypeSignature { variable, operator, type_ } => {
                variable.valid()
                && type_.valid()
            },
            VariantView::TypeAnnotated { expression, operator, type_ } => {
                expression.valid()
                && type_.valid()
            },
            VariantView::CaseOf { case, expression, of, cases } => {
                (match expression {
                    Some(x) => x.valid(),
                    None => true,
                })
                && CaseLineView::all_valid(cases)
            },
            VariantView::Lambda { operator, arrow } => {
                (match arrow {
                    Some(x) => x.valid(),
                    None => true,
                })
            },
            VariantView::Array { left, first, rest, right } => {
                (match first {
                    Some(x) => x.valid(),
                    None => true,
                })
                && OperatorDelimitedTreeView::all_valid(rest)
            },
            VariantView::Tuple { left, first, rest, right } => {
                (match first {
                    Some(x) => x.valid(),
                    None => true,
                })
                && OperatorDelimitedTreeView::all_valid(rest)
            },
            VariantView::Annotated { token, annotation, argument, newlines, expression } => {
                (match argument {
                    Some(x) => x.valid(),
                    None => true,
                })
                && (match expression {
                    Some(x) => x.valid(),
                    None => true,
                })
            },
            VariantView::AnnotatedBuiltin { token, annotation, newlines, expression } => {
                (match expression {
                    Some(x) => x.valid(),
                    None => true,
                })
            },
            VariantView::Documented { documentation, expression } => {
                documentation.valid()
                && (match expression {
                    Some(x) => x.valid(),
                    None => true,
                })
            },
            VariantView::ConstructorDefinition { constructor, arguments, block } => {
                ArgumentDefinitionView::all_valid(arguments)
                && ArgumentDefinitionLineView::all_valid(block)
            },
        }
    }
}

impl LineView {
    /// The source text that the value stands for.
    pub open spec fn source(self) -> Seq<char>
        decreases self,
    {
        self.newline.source()
        + (match self.expression {
            Some(x) => x.source(),
            None => Seq::empty(),
        })
    }

    /// Every span inside the value covers exactly the text beneath it.
    pub open spec fn valid(self) -> bool
        decreases self,
    {
        (match self.expression {
            Some(x) => x.valid(),
            None => true,
        })
    }

    /// The source texts of the values of a sequence, in order.
    pub open spec fn source_parts(items: Seq<LineView>) -> Seq<Seq<char>>
        decreases items, 0int,
    {
        Seq::new(
            items.len(),
            |i: int|
                if 0 <= i < items.len() {
                    items[i].source()
                } else {
                    arbitrary()
                },
        )
    }

    /// The source text of a sequence of values.
    pub open spec fn sources(items: Seq<LineView>) -> Seq<char>
        decreases items, 1int,
    {
        concat(LineView::source_parts(items))
    }

    /// Every value of the sequence is valid.
    pub open spec fn all_valid(items: Seq<LineView>) -> bool
        decreases items,
    {
        forall|i: int| 0 <= i < items.len() ==> (#[trigger] items[i]).valid()
    }
}

impl OperatorBlockExpressionView {
    /// The source text that the value stands for.
    pub open spec fn source(self) -> Seq<char>
        decreases self,
    {
        operator_or_error_source(self.operator)
        + self.expression.source()
    }

    /// Every span inside the value covers exactly the text beneath it.
    pub open spec fn valid(self) -> bool
        decreases self,
    {
        operator_or_error_valid(self.operator)
        && self.expression.valid()
    }
}

impl OperatorLineView {
    /// The source text that the value stands for.
    pub open spec fn source(self) -> Seq<char>
        decreases self,
    {
        self.newline.source()
        + (match self.expression {
            Some(x) => x.source(),
            None => Seq::empty(),
        })
    }

    /// Every span inside the value covers exactly the text beneath it.
    pub open spec fn valid(self) -> bool
        decreases self,
    {
        (match self.expression {
            Some(x) => x.valid(),
            None => true,
        })
    }

    /// The source texts of the values of a sequence, in order.
    pub open spec fn source_parts(items: Seq<OperatorLineView>) -> Seq<Seq<char>>
        decreases items, 0int,
    {
        Seq::new(
            items.len(),
            |i: int|
                if 0 <= i < items.len() {
                    items[i].source()
                } else {
                    arbitrary()
                },
        )
    }

    /// The source text of a sequence of values.
    pub open spec fn sources(items: Seq<OperatorLineView>) -> Seq<char>
        decreases items, 1int,
    {
        concat(OperatorLineView::source_parts(items))
    }

    /// Every value of the sequence is valid.
    pub open spec fn all_valid(items: Seq<OperatorLineView>) -> bool
        decreases items,
    {
        forall|i: int| 0 <= i < items.len() ==> (#[trigger] items[i]).valid()
    }
}

impl ArgumentDefinitionLineView {
    /// The source text that the value stands for.
    pub open spec fn source(self) -> Seq<char>
        decreases self,
    {
        self.newline.source()
        + (match self.argument {
            Some(x) => x.source(),
            None => Seq::empty(),
        })
    }

    /// Every span inside the value covers exactly the text beneath it.
    pub open spec fn valid(self) -> bool
        decreases self,
    {
        (match self.argument {
            Some(x) => x.valid(),
            None => true,
        })
    }

    /// The source texts of the values of a sequence, in order.
    pub open spec fn source_parts(items: Seq<ArgumentDefinitionLineView>) -> Seq<Seq<char>>
        decreases items, 0int,
    {
        Seq::new(
            items.len(),
            |i: int|
                if 0 <= i < items.len() {
                    items[i].source()
                } else {
                    arbitrary()
                },
        )
    }

    /// The source text of a sequence of values.
    pub open spec fn sources(items: Seq<ArgumentDefinitionLineView>) -> Seq<char>
        decreases items, 1int,
    {
        concat(ArgumentDefinitionLineView::source_parts(items))
    }

    /// Every value of the sequence is valid.
    pub open spec fn all_valid(items: Seq<ArgumentDefinitionLineView>) -> bool
        decreases items,
    {
        forall|i: int| 0 <= i < items.len() ==> (#[trigger] items[i]).valid()
    }
}

impl TextElementView {
    /// The source text that the value stands for.
    pub open spec fn source(self) -> Seq<char>
        decreases self,
    {
        match self {
            TextElementView::Section { text } => {
                text.source()
            },
            TextElementView::Escape { token } => {
                token.source()
            },
            TextElementView::Newline { newline } => {
                newline.source()
            },
            TextElementView::Splice { open, expression, close } => {
                open.source()
                + (match expression {
                    Some(x) => x.source(),
                    None => Seq::empty(),
                })
                + close.source()
            },
        }
    }

    /// Every span inside the value covers exactly the text beneath it.
    pub open spec fn valid(self) -> bool
        decreases self,
    {
        match self {
            TextElementView::Section { text } => {
                true
            },
            TextElementView::Escape { token } => {
                true
            },
            TextElementView::Newline { newline } => {
                true
            },
            TextElementView::Splice { open, expression, close } => {
                (match expression {
                    Some(x) => x.valid(),
                    None => true,
                })
            },
        }
    }

    /// The source texts of the values of a sequence, in order.
    pub open spec fn source_parts(items: Seq<TextElementView>) -> Seq<Seq<char>>
        decreases items, 0int,
    {
        Seq::new(
            items.len(),
            |i: int|
                if 0 <= i < items.len() {
                    items[i].source()
                } else {
                    arbitrary()
                },
        )
    }

    /// The source text of a sequence of values.
    pub open spec fn sources(items: Seq<TextElementView>) -> Seq<char>
        decreases items, 1int,
    {
        concat(TextElementView::source_parts(items))
    }

    /// Every value of the sequence is valid.
    pub open spec fn all_valid(items: Seq<TextElementView>) -> bool
        decreases items,
    {
        forall|i: int| 0 <= i < items.len() ==> (#[trigger] items[i]).valid()
    }
}

impl DocCommentView {
    /// The source text that the value stands for.
    pub open spec fn source(self) -> Seq<char>
        decreases self,
    {
        self.open.source()
        + TextElementView::sources(self.elements)
        + tokens_source(self.newlines)
    }

    /// Every span inside the value covers exactly the text beneath it.
    pub open spec fn valid(self) -> bool
        decreases self,
    {
        TextElementView::all_valid(self.elements)
    }
}

impl FractionalDigitsView {
    /// The source text that the value stands for.
    pub open spec fn source(self) -> Seq<char>
        decreases self,
    {
        self.dot.source()
        + self.digits.source()
    }

    /// Every span inside the value covers exactly the text beneath it.
    pub open spec fn valid(self) -> bool
        decreases self,
    {
        true
    }
}

impl ArgumentDefinitionView {
    /// The source text that the value stands for.
    pub open spec fn source(self) -> Seq<char>
        decreases self,
    {
        opt_token_source(self.open)
        + opt_token_source(self.open2)
        + opt_token_source(self.suspension)
        + self.pattern.source()
        + (match self.type_ {
            Some(x) => x.source(),
            None => Seq::empty(),
        })
        + opt_token_source(self.close2)
        + (match self.default {
            Some(x) => x.source(),
            None => Seq::empty(),
        })
        + opt_token_source(self.close)
    }

    /// Every span inside the value covers exactly the text beneath it.
    pub open spec fn valid(self) -> bool
        decreases self,
    {
        self.pattern.valid()
        && (match self.type_ {
            Some(x) => x.valid(),
            None => true,
        })
        && (match self.default {
            Some(x) => x.valid(),
            None => true,
        })
    }

    /// The source texts of the values of a sequence, in order.
    pub open spec fn source_parts(items: Seq<ArgumentDefinitionView>) -> Seq<Seq<char>>
        decreases items, 0int,
    {
        Seq::new(
            items.len(),
            |i: int|
                if 0 <= i < items.len() {
                    items[i].source()
                } else {
                    arbitrary()
                },
        )
    }

    /// The source text of a sequence of values.
    pub open spec fn sources(items: Seq<ArgumentDefinitionView>) -> Seq<char>
        decreases items, 1int,
    {
        concat(ArgumentDefinitionView::source_parts(items))
    }

    /// Every value of the sequence is valid.
    pub open spec fn all_valid(items: Seq<ArgumentDefinitionView>) -> bool
        decreases items,
    {
        forall|i: int| 0 <= i < items.len() ==> (#[trigger] items[i]).valid()
    }
}

impl ArgumentDefaultView {
    /// The source text that the value stands for.
    pub open spec fn source(self) -> Seq<char>
        decreases self,
    {
        self.equals.source()
        + self.expression.source()
    }

    /// Every span inside the value covers exactly the text beneath it.
    pub open spec fn valid(self) -> bool
        decreases self,
    {
        self.expression.valid()
    }
}

impl ArgumentTypeView {
    /// The source text that the value stands for.
    pub open spec fn source(self) -> Seq<char>
        decreases self,
    {
        self.operator.source()
        + self.type_.source()
    }

    /// Every span inside the value covers exactly the text beneath it.
    pub open spec fn valid(self) -> bool
        decreases self,
    {
        self.type_.valid()
    }
}

impl ReturnSpecificationView {
    /// The source text that the value stands for.
    pub open spec fn source(self) -> Seq<char>
        decreases self,
    {
        self.arrow.source()
        + self.type_.source()
    }

    /// Every span inside the value covers exactly the text beneath it.
    pub open spec fn valid(self) -> bool
        decreases self,
    {
        self.type_.valid()
    }
}

impl CaseLineView {
    /// The source text that the value stands for.
    pub open spec fn source(self) -> Seq<char>
        decreases self,
    {
        opt_token_source(self.newline)
        + (match self.case {
            Some(x) => x.source(),
            None => Seq::empty(),
        })
    }

    /// Every span inside the value covers exactly the text beneath it.
    pub open spec fn valid(self) -> bool
        decreases self,
    {
        (match self.case {
            Some(x) => x.valid(),
            None => true,
        })
    }

    /// The source texts of the values of a sequence, in order.
    pub open spec fn source_parts(items: Seq<CaseLineView>) -> Seq<Seq<char>>
        decreases items, 0int,
    {
        Seq::new(
            items.len(),
            |i: int|
                if 0 <= i < items.len() {
                    items[i].source()
                } else {
                    arbitrary()
                },
        )
    }

    /// The source text of a sequence of values.
    pub open spec fn sources(items: Seq<CaseLineView>) -> Seq<char>
        decreases items, 1int,
    {
        concat(CaseLineView::source_parts(items))
    }

    /// Every value of the sequence is valid.
    pub open spec fn all_valid(items: Seq<CaseLineView>) -> bool
        decreases items,
    {
        forall|i: int| 0 <= i < items.len() ==> (#[trigger] items[i]).valid()
    }
}

impl CaseView {
    /// The source text that the value stands for.
    pub open spec fn source(self) -> Seq<char>
        decreases self,
    {
        (match self.documentation {
            Some(x) => x.source(),
            None => Seq::empty(),
        })
        + (match self.pattern {
            Some(x) => x.source(),
            None => Seq::empty(),
        })
        + opt_token_source(self.arrow)
        + (match self.expression {
            Some(x) => x.source(),
            None => Seq::empty(),
        })
    }

    /// Every span inside the value covers exactly the text beneath it.
    pub open spec fn valid(self) -> bool
        decreases self,
    {
        (match self.documentation {
            Some(x) => x.valid(),
            None => true,
        })
        && (match self.pattern {
            Some(x) => x.valid(),
            None => true,
        })
        && (match self.expression {
            Some(x) => x.valid(),
            None => true,
        })
    }
}

impl TextLiteralView {
    /// The source text that the value stands for.
    pub open spec fn source(self) -> Seq<char>
        decreases self,
    {
        opt_token_source(self.open)
        + opt_token_source(self.newline)
        + TextElementView::sources(self.elements)
        + opt_token_source(self.close)
    }

    /// Every span inside the value covers exactly the text beneath it.
    pub open spec fn valid(self) -> bool
        decreases self,
    {
        TextElementView::all_valid(self.elements)
    }
}

impl MultipleOperatorErrorView {
    /// The source text that the value stands for.
    pub open spec fn source(self) -> Seq<char>
        decreases self,
    {
        tokens_source(self.operators)
    }

    /// The error holds at least one operator.
    pub open spec fn valid(self) -> bool
        decreases self,
    {
        self.operators.len() > 0
    }
}

impl MultiSegmentAppSegmentView {
    /// The source text that the value stands for.
    pub open spec fn source(self) -> Seq<char>
        decreases self,
    {
        self.header.source()
        + (match self.body {
            Some(x) => x.source(),
            None => Seq::empty(),
        })
    }

    /// Every span inside the value covers exactly the text beneath it.
    pub open spec fn valid(self) -> bool
        decreases self,
    {
        (match self.body {
            Some(x) => x.valid(),
            None => true,
        })
    }

    /// The source texts of the values of a sequence, in order.
    pub open spec fn source_parts(items: Seq<MultiSegmentAppSegmentView>) -> Seq<Seq<char>>
        decreases items, 0int,
    {
        Seq::new(
            items.len(),
            |i: int|
                if 0 <= i < items.len() {
                    items[i].source()
                } else {
                    arbitrary()
                },
        )
    }

    /// The source text of a sequence of values.
    pub open spec fn sources(items: Seq<MultiSegmentAppSegmentView>) -> Seq<char>
        decreases items, 1int,
    {
        concat(MultiSegmentAppSegmentView::source_parts(items))
    }

    /// Every value of the sequence is valid.
    pub open spec fn all_valid(items: Seq<MultiSegmentAppSegmentView>) -> bool
        decreases items,
    {
        forall|i: int| 0 <= i < items.len() ==> (#[trigger] items[i]).valid()
    }
}

impl OperatorDelimitedTreeView {
    /// The source text that the value stands for.
    pub open spec fn source(self) -> Seq<char>
        decreases self,
    {
        self.operator.source()
        + (match self.body {
            Some(x) => x.source(),
            None => Seq::empty(),
        })
    }

    /// Every span inside the value covers exactly the text beneath it.
    pub open spec fn valid(self) -> bool
        decreases self,
    {
        (match self.body {
            Some(x) => x.valid(),
            None => true,
        })
    }

    /// The source texts of the values of a sequence, in order.
    pub open spec fn source_parts(items: Seq<OperatorDelimitedTreeView>) -> Seq<Seq<char>>
        decreases items, 0int,
    {
        Seq::new(
            items.len(),
            |i: int|
                if 0 <= i < items.len() {
                    items[i].source()
                } else {
                    arbitrary()
                },
        )
    }

    /// The source text of a sequence of values.
    pub open spec fn sources(items: Seq<OperatorDelimitedTreeView>) -> Seq<char>
        decreases items, 1int,
    {
        concat(OperatorDelimitedTreeView::source_parts(items))
    }

    /// Every value of the sequence is valid.
    pub open spec fn all_valid(items: Seq<OperatorDelimitedTreeView>) -> bool
        decreases items,
    {
        forall|i: int| 0 <= i < items.len() ==> (#[trigger] items[i]).valid()
    }
}

} // verus!
