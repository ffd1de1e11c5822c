//! The mathematical model of the tree: each type of the tree has a model in
//! which text is a sequence of characters and a list is a sequence, and the
//! contracts of the library speak of these models.

use crate::source::SpanView;
use crate::token;
use crate::token::{opt_token_view, token_views, Token, TokenView};
use crate::tree::block::{Line, OperatorBlockExpression, OperatorLine};
use crate::tree::{
    ArgumentDefault, ArgumentDefinition, ArgumentDefinitionLine, ArgumentType, Case, CaseLine,
    DocComment, Error, FractionalDigits, MultiSegmentAppSegment, MultipleOperatorError,
    OperatorDelimitedTree, ReturnSpecification, TextElement, TextLiteral, Tree, Variant,
};
use vstd::prelude::*;

verus! {

/// The model of [`Tree`].
pub struct TreeView {
    pub span: SpanView,
    pub variant: Box<VariantView>,
}

/// The model of [`Error`].
pub struct ErrorView {
    pub message: Seq<char>,
}

/// The model of an operator or of the error of several.
pub type OperatorOrErrorView = Result<TokenView<token::Operator>, MultipleOperatorErrorView>;

/// The model of an operator or of the error of several.
pub open spec fn operator_or_error_view(
    opr: Result<Token<token::Operator>, MultipleOperatorError>,
) -> OperatorOrErrorView {
    match opr {
        Ok(token) => Ok(token@),
        Err(error) => Err(error@),
    }
}

/// The model of [`Variant`].
pub enum VariantView {
    Invalid { error: ErrorView, ast: TreeView },
    BodyBlock { statements: Seq<LineView> },
    ArgumentBlockApplication { lhs: Option<TreeView>, arguments: Seq<LineView> },
    OperatorBlockApplication {
        lhs: Option<TreeView>,
        expressions: Seq<OperatorLineView>,
        excess: Seq<LineView>,
    },
    Ident { token: TokenView<token::Ident> },
    Private { keyword: TokenView<token::Private>, body: Option<TreeView> },
    Number {
        base: Option<TokenView<token::NumberBase>>,
        integer: Option<TokenView<token::Digits>>,
        fractional_digits: Option<FractionalDigitsView>,
    },
    Wildcard { token: TokenView<token::Wildcard>, de_bruijn_index: Option<u32> },
    SuspendedDefaultArguments { token: TokenView<token::SuspendedDefaultArguments> },
    TextLiteral {
        open: Option<TokenView<token::TextStart>>,
        newline: Option<TokenView<token::Newline>>,
        elements: Seq<TextElementView>,
        close: Option<TokenView<token::TextEnd>>,
        closed: bool,
    },
    App { func: TreeView, arg: TreeView },
    NamedApp {
        func: TreeView,
        open: Option<TokenView<token::OpenSymbol>>,
        name: TokenView<token::Ident>,
        equals: TokenView<token::Operator>,
        arg: TreeView,
        close: Option<TokenView<token::CloseSymbol>>,
    },
    OprApp { lhs: Option<TreeView>, opr: OperatorOrErrorView, rhs: Option<TreeView> },
    UnaryOprApp { opr: TokenView<token::Operator>, rhs: Option<TreeView> },
    AutoscopedIdentifier { opr: TokenView<token::Operator>, ident: TokenView<token::Ident> },
    OprSectionBoundary { arguments: u32, ast: TreeView },
    TemplateFunction { arguments: u32, ast: TreeView },
    MultiSegmentApp { segments: Seq<MultiSegmentAppSegmentView> },
    TypeDef {
        keyword: TokenView<token::Ident>,
        name: TokenView<token::Ident>,
        params: Seq<ArgumentDefinitionView>,
        body: Seq<LineView>,
    },
    Assignment { pattern: TreeView, equals: TokenView<token::Operator>, expr: TreeView },
    Function {
        name: TreeView,
        args: Seq<ArgumentDefinitionView>,
        returns_: Option<ReturnSpecificationView>,
        equals: TokenView<token::Operator>,
        body: Option<TreeView>,
    },
    ForeignFunction {
        foreign: TokenView<token::Ident>,
        language: TokenView<token::Ident>,
        name: TokenView<token::Ident>,
        args: Seq<ArgumentDefinitionView>,
        equals: TokenView<token::Operator>,
        body: TreeView,
    },
    Import {
        polyglot: Option<MultiSegmentAppSegmentView>,
        from: Option<MultiSegmentAppSegmentView>,
        import: MultiSegmentAppSegmentView,
        all: Option<TokenView<token::Ident>>,
        as_: Option<MultiSegmentAppSegmentView>,
        hiding: Option<MultiSegmentAppSegmentView>,
    },
    Export {
        from: Option<MultiSegmentAppSegmentView>,
        export: MultiSegmentAppSegmentView,
        all: Option<TokenView<token::Ident>>,
        as_: Option<MultiSegmentAppSegmentView>,
        hiding: Option<MultiSegmentAppSegmentView>,
    },
    Group {
        open: Option<TokenView<token::OpenSymbol>>,
        body: Option<TreeView>,
        close: Option<TokenView<token::CloseSymbol>>,
    },
    TypeSignature { variable: TreeView, operator: TokenView<token::Operator>, type_: TreeView },
    TypeAnnotated { expression: TreeView, operator: TokenView<token::Operator>, type_: TreeView },
    CaseOf {
        case: TokenView<token::Ident>,
        expression: Option<TreeView>,
        of: TokenView<token::Ident>,
        cases: Seq<CaseLineView>,
    },
    Lambda { operator: TokenView<token::Operator>, arrow: Option<TreeView> },
    Array {
        left: TokenView<token::OpenSymbol>,
        first: Option<TreeView>,
        rest: Seq<OperatorDelimitedTreeView>,
        right: TokenView<token::CloseSymbol>,
    },
    Tuple {
        left: TokenView<token::OpenSymbol>,
        first: Option<TreeView>,
        rest: Seq<OperatorDelimitedTreeView>,
        right: TokenView<token::CloseSymbol>,
    },
    Annotated {
        token: TokenView<token::Operator>,
        annotation: TokenView<token::Ident>,
        argument: Option<TreeView>,
        newlines: Seq<TokenView<token::Newline>>,
        expression: Option<TreeView>,
    },
    AnnotatedBuiltin {
        token: TokenView<token::Operator>,
        annotation: TokenView<token::Ident>,
        newlines: Seq<TokenView<token::Newline>>,
        expression: Option<TreeView>,
    },
    Documented { documentation: DocCommentView, expression: Option<TreeView> },
    ConstructorDefinition {
        constructor: TokenView<token::Ident>,
        arguments: Seq<ArgumentDefinitionView>,
        block: Seq<ArgumentDefinitionLineView>,
    },
}

/// The model of [`Line`].
pub struct LineView {
    pub newline: TokenView<token::Newline>,
    pub expression: Option<TreeView>,
}

/// The model of [`OperatorBlockExpression`].
pub struct OperatorBlockExpressionView {
    pub operator: OperatorOrErrorView,
    pub expression: TreeView,
}

/// The model of [`OperatorLine`].
pub struct OperatorLineView {
    pub newline: TokenView<token::Newline>,
    pub expression: Option<OperatorBlockExpressionView>,
}

/// The model of [`ArgumentDefinitionLine`].
pub struct ArgumentDefinitionLineView {
    pub newline: TokenView<token::Newline>,
    pub argument: Option<ArgumentDefinitionView>,
}

/// The model of [`TextElement`].
pub enum TextElementView {
    Section { text: TokenView<token::TextSection> },
    Escape { token: TokenView<token::TextEscape> },
    Newline { newline: TokenView<token::Newline> },
    Splice {
        open: TokenView<token::OpenSymbol>,
        expression: Option<TreeView>,
        close: TokenView<token::CloseSymbol>,
    },
}

/// The model of [`DocComment`].
pub struct DocCommentView {
    pub open: TokenView<token::TextStart>,
    pub elements: Seq<TextElementView>,
    pub newlines: Seq<TokenView<token::Newline>>,
}

/// The model of [`FractionalDigits`].
pub struct FractionalDigitsView {
    pub dot: TokenView<token::Operator>,
    pub digits: TokenView<token::Digits>,
}

/// The model of [`ArgumentDefinition`].
pub struct ArgumentDefinitionView {
    pub open: Option<TokenView<token::OpenSymbol>>,
    pub open2: Option<TokenView<token::OpenSymbol>>,
    pub suspension: Option<TokenView<token::Operator>>,
    pub pattern: TreeView,
    pub type_: Option<ArgumentTypeView>,
    pub close2: Option<TokenView<token::CloseSymbol>>,
    pub default: Option<ArgumentDefaultView>,
    pub close: Option<TokenView<token::CloseSymbol>>,
}

/// The model of [`ArgumentDefault`].
pub struct ArgumentDefaultView {
    pub equals: TokenView<token::Operator>,
    pub expression: TreeView,
}

/// The model of [`ArgumentType`].
pub struct ArgumentTypeView {
    pub operator: TokenView<token::Operator>,
    pub type_: TreeView,
}

/// The model of [`ReturnSpecification`].
pub struct ReturnSpecificationView {
    pub arrow: TokenView<token::Operator>,
    pub type_: TreeView,
}

/// The model of [`CaseLine`].
pub struct CaseLineView {
    pub newline: Option<TokenView<token::Newline>>,
    pub case: Option<CaseView>,
}

/// The model of [`Case`].
pub struct CaseView {
    pub documentation: Option<DocCommentView>,
    pub pattern: Option<TreeView>,
    pub arrow: Option<TokenView<token::Operator>>,
    pub expression: Option<TreeView>,
}

/// The model of [`TextLiteral`].
pub struct TextLiteralView {
    pub open: Option<TokenView<token::TextStart>>,
    pub newline: Option<TokenView<token::Newline>>,
    pub elements: Seq<TextElementView>,
    pub close: Option<TokenView<token::TextEnd>>,
    pub closed: bool,
}

/// The model of [`MultipleOperatorError`].
pub struct MultipleOperatorErrorView {
    pub operators: Seq<TokenView<token::Operator>>,
}

/// The model of [`MultiSegmentAppSegment`].
pub struct MultiSegmentAppSegmentView {
    pub header: TokenView<token::Variant>,
    pub body: Option<TreeView>,
}

/// The model of [`OperatorDelimitedTree`].
pub struct OperatorDelimitedTreeView {
    pub operator: TokenView<token::Operator>,
    pub body: Option<TreeView>,
}

impl Tree {
    /// The model of the node.
    pub open spec fn view(self) -> TreeView
        decreases self,
    {
        TreeView { span: self.span@, variant: Box::new((*self.variant)@) }
    }
}

impl Error {
    /// The model of the error.
    pub open spec fn view(self) -> ErrorView {
        ErrorView { message: self.message@ }
    }
}

impl Variant {
    /// The model of the value.
    pub open spec fn view(self) -> VariantView
        decreases self,
    {
        match self {
            Variant::Invalid { error, ast } => VariantView::Invalid {
                error: error@,
                ast: ast@,
            },
            Variant::BodyBlock { statements } => VariantView::BodyBlock {
                statements: Line::views(statements@),
            },
            Variant::ArgumentBlockApplication {
                lhs,
                arguments,
            } => VariantView::ArgumentBlockApplication {
                lhs: match lhs {
                    Some(t) => Some(t@),
                    None => None,
                },
                arguments: Line::views(arguments@),
            },
            Variant::OperatorBlockApplication {
                lhs,
                expressions,
                excess,
            } => VariantView::OperatorBlockApplication {
                lhs: match lhs {
                    Some(t) => Some(t@),
                    None => None,
                },
                expressions: OperatorLine::views(expressions@),
                excess: Line::views(excess@),
            },
            Variant::Ident { token } => VariantView::Ident {
                token: token@,
            },
            Variant::Private { keyword, body } => VariantView::Private {
                keyword: keyword@,
                body: match body {
                    Some(t) => Some(t@),
                    None => None,
                },
            },
            Variant::Number { base, integer, fractional_digits } => VariantView::Number {
                base: opt_token_view(base),
                integer: opt_token_view(integer),
                fractional_digits: match fractional_digits {
                    Some(x) => Some(x@),
                    None => None,
                },
            },
            Variant::Wildcard { token, de_bruijn_index } => VariantView::Wildcard {
                token: token@,
                de_bruijn_index: de_bruijn_index,
            },
            Variant::SuspendedDefaultArguments { token } => VariantView::SuspendedDefaultArguments {
                token: token@,
            },
            Variant::TextLiteral {
                open,
                newline,
                elements,
                close,
                closed,
            } => VariantView::TextLiteral {
                open: opt_token_view(open),
                newline: opt_token_view(newline),
                elements: TextElement::views(elements@),
                close: opt_token_view(close),
                closed: closed,
            },
            Variant::App { func, arg } => VariantView::App {
                func: func@,
                arg: arg@,
            },
            Variant::NamedApp { func, open, name, equals, arg, close } => VariantView::NamedApp {
                func: func@,
                open: opt_token_view(open),
                name: name@,
                equals: equals@,
                arg: arg@,
                close: opt_token_view(close),
            },
            Variant::OprApp { lhs, opr, rhs } => VariantView::OprApp {
                lhs: match lhs {
                    Some(t) => Some(t@),
                    None => None,
                },
                opr: operator_or_error_view(opr),
                rhs: match rhs {
                    Some(t) => Some(t@),
                    None => None,
                },
            },
            Variant::UnaryOprApp { opr, rhs } => VariantView::UnaryOprApp {
                opr: opr@,
                rhs: match rhs {
                    Some(t) => Some(t@),
                    None => None,
                },
            },
            Variant::AutoscopedIdentifier { opr, ident } => VariantView::AutoscopedIdentifier {
                opr: opr@,
                ident: ident@,
            },
            Variant::OprSectionBoundary { arguments, ast } => VariantView::OprSectionBoundary {
                arguments: arguments,
                ast: ast@,
            },
            Variant::TemplateFunction { arguments, ast } => VariantView::TemplateFunction {
                arguments: arguments,
                ast: ast@,
            },
            Variant::MultiSegmentApp { segments } => VariantView::MultiSegmentApp {
                segments: MultiSegmentAppSegment::views(segments@),
            },
            Variant::TypeDef { keyword, name, params, body } => VariantView::TypeDef {
                keyword: keyword@,
                name: name@,
                params: ArgumentDefinition::views(params@),
                body: Line::views(body@),
            },
            Variant::Assignment { pattern, equals, expr } => VariantView::Assignment {
                pattern: pattern@,
                equals: equals@,
                expr: expr@,
            },
            Variant::Function { name, args, returns_, equals, body } => VariantView::Function {
                name: name@,
                args: ArgumentDefinition::views(args@),
                returns_: match returns_ {
                    Some(x) => Some(x@),
                    None => None,
                },
                equals: equals@,
                body: match body {
                    Some(t) => Some(t@),
                    None => None,
                },
            },
            Variant::ForeignFunction {
                foreign,
                language,
                name,
                args,
                equals,
                body,
            } => VariantView::ForeignFunction {
                foreign: foreign@,
                language: language@,
                name: name@,
                args: ArgumentDefinition::views(args@),
                equals: equals@,
                body: body@,
            },
            Variant::Import { polyglot, from, import, all, as_, hiding } => VariantView::Import {
                polyglot: match polyglot {
                    Some(x) => Some(x@),
                    None => None,
                },
                from: match from {
                    Some(x) => Some(x@),
                    None => None,
                },
                import: import@,
                all: opt_token_view(all),
                as_: match as_ {
                    Some(x) => Some(x@),
                    None => None,
                },
                hiding: match hiding {
                    Some(x) => Some(x@),
                    None => None,
                },
            },
            Variant::Export { from, export, all, as_, hiding } => VariantView::Export {
                from: match from {
                    Some(x) => Some(x@),
                    None => None,
                },
                export: export@,
                all: opt_token_view(all),
                as_: match as_ {
                    Some(x) => Some(x@),
                    None => None,
                },
                hiding: match hiding {
                    Some(x) => Some(x@),
                    None => None,
                },
            },
            Variant::Group { open, body, close } => VariantView::Group {
                open: opt_token_view(open),
                body: match body {
                    Some(t) => Some(t@),
                    None => None,
                },
                close: opt_token_view(close),
            },
            Variant::TypeSignature { variable, operator, type_ } => VariantView::TypeSignature {
                variable: variable@,
                operator: operator@,
                type_: type_@,
            },
            Variant::TypeAnnotated { expression, operator, type_ } => VariantView::TypeAnnotated {
                expression: expression@,
                operator: operator@,
                type_: type_@,
            },
            Variant::CaseOf { case, expression, of, cases } => VariantView::CaseOf {
                case: case@,
                expression: match expression {
                    Some(t) => Some(t@),
                    None => None,
                },
                of: of@,
                cases: CaseLine::views(cases@),
            },
            Variant::Lambda { operator, arrow } => VariantView::Lambda {
                operator: operator@,
                arrow: match arrow {
                    Some(t) => Some(t@),
                    None => None,
                },
            },
            Variant::Array { left, first, rest, right } => VariantView::Array {
                left: left@,
                first: match first {
                    Some(t) => Some(t@),
                    None => None,
                },
                rest: OperatorDelimitedTree::views(rest@),
                right: right@,
            },
            Variant::Tuple { left, first, rest, right } => VariantView::Tuple {
                left: left@,
                first: match first {
                    Some(t) => Some(t@),
                    None => None,
                },
                rest: OperatorDelimitedTree::views(rest@),
                right: right@,
            },
            Variant::Annotated {
                token,
                annotation,
                argument,
                newlines,
                expression,
            } => VariantView::Annotated {
                token: token@,
                annotation: annotation@,
                argument: match argument {
                    Some(t) => Some(t@),
                    None => None,
                },
                newlines: token_views(newlines@),
                expression: match expression {
                    Some(t) => Some(t@),
                    None => None,
                },
            },
            Variant::AnnotatedBuiltin {
                token,
                annotation,
                newlines,
                expression,
            } => VariantView::AnnotatedBuiltin {
                token: token@,
                annotation: annotation@,
                newlines: token_views(newlines@),
                expression: match expression {
                    Some(t) => Some(t@),
                    None => None,
                },
            },
            Variant::Documented { documentation, expression } => VariantView::Documented {
                documentation: documentation@,
                expression: match expression {
                    Some(t) => Some(t@),
                    None => None,
                },
            },
            Variant::ConstructorDefinition {
                constructor,
                arguments,
                block,
            } => VariantView::ConstructorDefinition {
                constructor: constructor@,
                arguments: ArgumentDefinition::views(arguments@),
                block: ArgumentDefinitionLine::views(block@),
            },
        }
    }
}

impl Line {
    /// The model of the value.
    pub open spec fn view(self) -> LineView
        decreases self,
    {
        LineView {
            newline: self.newline@,
            expression: match self.expression {
                Some(t) => Some(t@),
                None => None,
            },
        }
    }

    /// The models of the values of a sequence, in order.
    pub open spec fn views(items: Seq<Line>) -> Seq<LineView>
        decreases items,
    {
        Seq::new(
            items.len(),
            |i: int|
                if 0 <= i < items.len() {
                    items[i]@
                } else {
                    arbitrary()
                },
        )
    }
}

impl OperatorBlockExpression {
    /// The model of the value.
    pub open spec fn view(self) -> OperatorBlockExpressionView
        decreases self,
    {
        OperatorBlockExpressionView {
            operator: operator_or_error_view(self.operator),
            expression: self.expression@,
        }
    }
}

impl OperatorLine {
    /// The model of the value.
    pub open spec fn view(self) -> OperatorLineView
        decreases self,
    {
        OperatorLineView {
            newline: self.newline@,
            expression: match self.expression {
                Some(x) => Some(x@),
                None => None,
            },
        }
    }

    /// The models of the values of a sequence, in order.
    pub open spec fn views(items: Seq<OperatorLine>) -> Seq<OperatorLineView>
        decreases items,
    {
        Seq::new(
            items.len(),
            |i: int|
                if 0 <= i < items.len() {
                    items[i]@
                } else {
                    arbitrary()
                },
        )
    }
}

impl ArgumentDefinitionLine {
    /// The model of the value.
    pub open spec fn view(self) -> ArgumentDefinitionLineView
        decreases self,
    {
        ArgumentDefinitionLineView {
            newline: self.newline@,
            argument: match self.argument {
                Some(x) => Some(x@),
                None => None,
            },
        }
    }

    /// The models of the values of a sequence, in order.
    pub open spec fn views(items: Seq<ArgumentDefinitionLine>) -> Seq<ArgumentDefinitionLineView>
        decreases items,
    {
        Seq::new(
            items.len(),
            |i: int|
                if 0 <= i < items.len() {
                    items[i]@
                } else {
                    arbitrary()
                },
        )
    }
}

impl TextElement {
    /// The model of the value.
    pub open spec fn view(self) -> TextElementView
        decreases self,
    {
        match self {
            TextElement::Section { text } => TextElementView::Section {
                text: text@,
            },
            TextElement::Escape { token } => TextElementView::Escape {
                token: token@,
            },
            TextElement::Newline { newline } => TextElementView::Newline {
                newline: newline@,
            },
            TextElement::Splice { open, expression, close } => TextElementView::Splice {
                open: open@,
                expression: match expression {
                    Some(t) => Some(t@),
                    None => None,
                },
                close: close@,
            },
        }
    }

    /// The models of the values of a sequence, in order.
    pub open spec fn views(items: Seq<TextElement>) -> Seq<TextElementView>
        decreases items,
    {
        Seq::new(
            items.len(),
            |i: int|
                if 0 <= i < items.len() {
                    items[i]@
                } else {
                    arbitrary()
                },
        )
    }
}

impl DocComment {
    /// The model of the value.
    pub open spec fn view(self) -> DocCommentView
        decreases self,
    {
        DocCommentView {
            open: self.open@,
            elements: TextElement::views(self.elements@),
            newlines: token_views(self.newlines@),
        }
    }
}

impl FractionalDigits {
    /// The model of the value.
    pub open spec fn view(self) -> FractionalDigitsView
        decreases self,
    {
        FractionalDigitsView {
            dot: self.dot@,
            digits: self.digits@,
        }
    }
}

impl ArgumentDefinition {
    /// The model of the value.
    pub open spec fn view(self) -> ArgumentDefinitionView
        decreases self,
    {
        ArgumentDefinitionView {
            open: opt_token_view(self.open),
            open2: opt_token_view(self.open2),
            suspension: opt_token_view(self.suspension),
            pattern: self.pattern@,
            type_: match self.type_ {
                Some(x) => Some(x@),
                None => None,
            },
            close2: opt_token_view(self.close2),
            default: match self.default {
                Some(x) => Some(x@),
                None => None,
            },
            close: opt_token_view(self.close),
        }
    }

    /// The models of the values of a sequence, in order.
    pub open spec fn views(items: Seq<ArgumentDefinition>) -> Seq<ArgumentDefinitionView>
        decreases items,
    {
        Seq::new(
            items.len(),
            |i: int|
                if 0 <= i < items.len() {
                    items[i]@
                } else {
                    arbitrary()
                },
        )
    }
}

impl ArgumentDefault {
    /// The model of the value.
    pub open spec fn view(self) -> ArgumentDefaultView
        decreases self,
    {
        ArgumentDefaultView {
            equals: self.equals@,
            expression: self.expression@,
        }
    }
}

impl ArgumentType {
    /// The model of the value.
    pub open spec fn view(self) -> ArgumentTypeView
        decreases self,
    {
        ArgumentTypeView {
            operator: self.operator@,
            type_: self.type_@,
        }
    }
}

impl ReturnSpecification {
    /// The model of the value.
    pub open spec fn view(self) -> ReturnSpecificationView
        decreases self,
    {
        ReturnSpecificationView {
            arrow: self.arrow@,
            type_: self.type_@,
        }
    }
}

impl CaseLine {
    /// The model of the value.
    pub open spec fn view(self) -> CaseLineView
        decreases self,
    {
        CaseLineView {
            newline: opt_token_view(self.newline),
            case: match self.case {
                Some(x) => Some(x@),
                None => None,
            },
        }
    }

    /// The models of the values of a sequence, in order.
    pub open spec fn views(items: Seq<CaseLine>) -> Seq<CaseLineView>
        decreases items,
    {
        Seq::new(
            items.len(),
            |i: int|
                if 0 <= i < items.len() {
                    items[i]@
                } else {
                    arbitrary()
                },
        )
    }
}

impl Case {
    /// The model of the value.
    pub open spec fn view(self) -> CaseView
        decreases self,
    {
        CaseView {
            documentation: match self.documentation {
                Some(x) => Some(x@),
                None => None,
            },
            pattern: match self.pattern {
                Some(t) => Some(t@),
                None => None,
            },
            arrow: opt_token_view(self.arrow),
            expression: match self.expression {
                Some(t) => Some(t@),
                None => None,
            },
        }
    }
}

impl TextLiteral {
    /// The model of the value.
    pub open spec fn view(self) -> TextLiteralView
        decreases self,
    {
        TextLiteralView {
            open: opt_token_view(self.open),
            newline: opt_token_view(self.newline),
            elements: TextElement::views(self.elements@),
            close: opt_token_view(self.close),
            closed: self.closed,
        }
    }
}

impl MultipleOperatorError {
    /// The model of the value.
    pub open spec fn view(self) -> MultipleOperatorErrorView
        decreases self,
    {
        MultipleOperatorErrorView {
            operators: token_views(self.operators@),
        }
    }
}

impl MultiSegmentAppSegment {
    /// The model of the value.
    pub open spec fn view(self) -> MultiSegmentAppSegmentView
        decreases self,
    {
        MultiSegmentAppSegmentView {
            header: self.header@,
            body: match self.body {
                Some(t) => Some(t@),
                None => None,
            },
        }
    }

    /// The models of the values of a sequence, in order.
    pub open spec fn views(items: Seq<MultiSegmentAppSegment>) -> Seq<MultiSegmentAppSegmentView>
        decreases items,
    {
        Seq::new(
            items.len(),
            |i: int|
                if 0 <= i < items.len() {
                    items[i]@
                } else {
                    arbitrary()
                },
        )
    }
}

impl OperatorDelimitedTree {
    /// The model of the value.
    pub open spec fn view(self) -> OperatorDelimitedTreeView
        decreases self,
    {
        OperatorDelimitedTreeView {
            operator: self.operator@,
            body: match self.body {
                Some(t) => Some(t@),
                None => None,
            },
        }
    }

    /// The models of the values of a sequence, in order.
    pub open spec fn views(items: Seq<OperatorDelimitedTree>) -> Seq<OperatorDelimitedTreeView>
        decreases items,
    {
        Seq::new(
            items.len(),
            |i: int|
                if 0 <= i < items.len() {
                    items[i]@
                } else {
                    arbitrary()
                },
        )
    }
}

} // verus!
