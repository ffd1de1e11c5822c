//! The syntax tree: a closed set of node shapes, each of which keeps the tokens
//! it was made of, so that the source text can be read back from the tree.
//!
//! The types of the tree stand here. Around them:
//! - `model` gives each type its mathematical model, and `text` says what the
//!   source text of a model is and when its spans are valid;
//! - `span` says how the span of a node is built from what the node holds, and
//!   `construct` builds nodes so;
//! - `leaves`, `application`, `operators` and `literals` join tokens and trees
//!   into trees;
//! - `code`, `items`, `visit` and `soundness` read a tree: its text, its
//!   items, what a visitor sees of it, and whether its spans are valid;
//! - `access` reaches into a node;
//! - `laws` and `visit_laws` hold what is proved of all this: the spans cover
//!   the text, joining loses none of it, and walking a tree reads it back.

use crate::source::Span;
use crate::token;
use crate::token::Token;
use crate::tree::block::{Line, OperatorLine};
use vstd::prelude::*;

pub use crate::tree::access::NonEmptyOperatorSequence;
pub use crate::tree::application::{apply, maybe_apply, try_apply};
pub use crate::tree::leaves::{to_ast, try_to_ast};
pub use crate::tree::literals::join_text_literals;
pub use crate::tree::operators::{
    apply_operator, apply_unary_operator, try_apply_operator, try_apply_unary_operator,
};

pub mod access;
pub mod application;
pub mod block;
pub mod code;
pub mod construct;
pub mod items;
pub mod laws;
pub mod leaves;
pub mod literals;
pub mod model;
pub mod operators;
pub mod soundness;
pub mod span;
pub mod text;
pub mod visit;
pub mod visit_laws;

verus! {

/// A node of the syntax tree: where it stands in the source, and what it is.
#[derive(Debug, PartialEq, Eq)]
pub struct Tree {
    pub span: Span,
    pub variant: Box<Variant>,
}

/// The node that holds `variant` and stands at `span`, as they are.
#[allow(non_snake_case)]
pub fn Tree(span: Span, variant: Variant) -> (r: Tree)
    ensures
        r.span == span,
        *r.variant == variant,
{
    Tree { span, variant: Box::new(variant) }
}

/// The reason why a fragment of the tree is in error.
#[derive(Debug, PartialEq, Eq)]
pub struct Error {
    pub message: String,
}

/// One operator, or the error of several where one was expected.
pub type OperatorOrError = Result<Token<token::Operator>, MultipleOperatorError>;

/// The shapes that a node of the tree can have.
#[derive(Debug, PartialEq, Eq)]
pub enum Variant {
    /// A fragment that is in error, with the reason.
    Invalid { error: Error, ast: Tree },
    /// A sequence of lines, read as statements.
    BodyBlock { statements: Vec<Line> },
    /// A sequence of lines that are the arguments of a call.
    ArgumentBlockApplication { lhs: Option<Tree>, arguments: Vec<Line> },
    /// A sequence of lines that each begin with an operator.
    OperatorBlockApplication {
        lhs: Option<Tree>,
        expressions: Vec<OperatorLine>,
        excess: Vec<Line>,
    },
    /// An identifier, like `foo`.
    Ident { token: Token<token::Ident> },
    /// The keyword `private`, and what it marks.
    Private { keyword: Token<token::Private>, body: Option<Tree> },
    /// A number literal, like `10` or `16_FF` or `1.5`.
    Number {
        base: Option<Token<token::NumberBase>>,
        integer: Option<Token<token::Digits>>,
        fractional_digits: Option<FractionalDigits>,
    },
    /// The wildcard `_`.
    Wildcard { token: Token<token::Wildcard>, de_bruijn_index: Option<u32> },
    /// The marker `...`.
    SuspendedDefaultArguments { token: Token<token::SuspendedDefaultArguments> },
    /// A text literal. `closed` tells whether its end was seen.
    TextLiteral {
        open: Option<Token<token::TextStart>>,
        newline: Option<Token<token::Newline>>,
        elements: Vec<TextElement>,
        close: Option<Token<token::TextEnd>>,
        closed: bool,
    },
    /// An application, like `print "hello"`.
    App { func: Tree, arg: Tree },
    /// An application that names its argument, like `f (x = 1)`.
    NamedApp {
        func: Tree,
        open: Option<Token<token::OpenSymbol>>,
        name: Token<token::Ident>,
        equals: Token<token::Operator>,
        arg: Tree,
        close: Option<Token<token::CloseSymbol>>,
    },
    /// An operator with its operands. One without an operand is a section.
    OprApp { lhs: Option<Tree>, opr: OperatorOrError, rhs: Option<Tree> },
    /// A prefix operator with its operand.
    UnaryOprApp { opr: Token<token::Operator>, rhs: Option<Tree> },
    /// The autoscope marker before a constructor name, like `..True`.
    AutoscopedIdentifier { opr: Token<token::Operator>, ident: Token<token::Ident> },
    /// The point where operator sections turn into lambdas.
    OprSectionBoundary { arguments: u32, ast: Tree },
    /// An expression with wildcards that stands for a lambda.
    TemplateFunction { arguments: u32, ast: Tree },
    /// An application in several segments, like `if a then b else c`.
    MultiSegmentApp { segments: Vec<MultiSegmentAppSegment> },
    /// A type definition.
    TypeDef {
        keyword: Token<token::Ident>,
        name: Token<token::Ident>,
        params: Vec<ArgumentDefinition>,
        body: Vec<Line>,
    },
    /// An assignment, like `foo = bar 23`.
    Assignment { pattern: Tree, equals: Token<token::Operator>, expr: Tree },
    /// A function definition, like `add x y = x + y`.
    Function {
        name: Tree,
        args: Vec<ArgumentDefinition>,
        returns_: Option<ReturnSpecification>,
        equals: Token<token::Operator>,
        body: Option<Tree>,
    },
    /// The definition of a function in another language.
    ForeignFunction {
        foreign: Token<token::Ident>,
        language: Token<token::Ident>,
        name: Token<token::Ident>,
        args: Vec<ArgumentDefinition>,
        equals: Token<token::Operator>,
        body: Tree,
    },
    /// An import statement.
    Import {
        polyglot: Option<MultiSegmentAppSegment>,
        from: Option<MultiSegmentAppSegment>,
        import: MultiSegmentAppSegment,
        all: Option<Token<token::Ident>>,
        as_: Option<MultiSegmentAppSegment>,
        hiding: Option<MultiSegmentAppSegment>,
    },
    /// An export statement.
    Export {
        from: Option<MultiSegmentAppSegment>,
        export: MultiSegmentAppSegment,
        all: Option<Token<token::Ident>>,
        as_: Option<MultiSegmentAppSegment>,
        hiding: Option<MultiSegmentAppSegment>,
    },
    /// An expression in parentheses.
    Group {
        open: Option<Token<token::OpenSymbol>>,
        body: Option<Tree>,
        close: Option<Token<token::CloseSymbol>>,
    },
    /// A statement that declares the type of a variable.
    TypeSignature { variable: Tree, operator: Token<token::Operator>, type_: Tree },
    /// An expression with its type written behind it.
    TypeAnnotated { expression: Tree, operator: Token<token::Operator>, type_: Tree },
    /// A `case _ of` expression.
    CaseOf {
        case: Token<token::Ident>,
        expression: Option<Tree>,
        of: Token<token::Ident>,
        cases: Vec<CaseLine>,
    },
    /// A lambda expression.
    Lambda { operator: Token<token::Operator>, arrow: Option<Tree> },
    /// An array literal.
    Array {
        left: Token<token::OpenSymbol>,
        first: Option<Tree>,
        rest: Vec<OperatorDelimitedTree>,
        right: Token<token::CloseSymbol>,
    },
    /// A tuple literal.
    Tuple {
        left: Token<token::OpenSymbol>,
        first: Option<Tree>,
        rest: Vec<OperatorDelimitedTree>,
        right: Token<token::CloseSymbol>,
    },
    /// An expression behind an annotation, like `@on_problems f`.
    Annotated {
        token: Token<token::Operator>,
        annotation: Token<token::Ident>,
        argument: Option<Tree>,
        newlines: Vec<Token<token::Newline>>,
        expression: Option<Tree>,
    },
    /// An expression behind a built-in annotation, like `@Tail_Call f 4`.
    AnnotatedBuiltin {
        token: Token<token::Operator>,
        annotation: Token<token::Ident>,
        newlines: Vec<Token<token::Newline>>,
        expression: Option<Tree>,
    },
    /// An expression behind a documentation comment.
    Documented { documentation: DocComment, expression: Option<Tree> },
    /// The definition of a constructor of a type.
    ConstructorDefinition {
        constructor: Token<token::Ident>,
        arguments: Vec<ArgumentDefinition>,
        block: Vec<ArgumentDefinitionLine>,
    },
}

/// An argument specification on its own line.
#[derive(Debug, PartialEq, Eq)]
pub struct ArgumentDefinitionLine {
    pub newline: Token<token::Newline>,
    pub argument: Option<ArgumentDefinition>,
}

/// A component of a text literal, between the quotation marks.
#[derive(Debug, PartialEq, Eq)]
pub enum TextElement {
    /// The text itself.
    Section { text: Token<token::TextSection> },
    /// An escaped character.
    Escape { token: Token<token::TextEscape> },
    /// A logical newline.
    Newline { newline: Token<token::Newline> },
    /// An interpolated expression.
    Splice {
        open: Token<token::OpenSymbol>,
        expression: Option<Tree>,
        close: Token<token::CloseSymbol>,
    },
}

/// A documentation comment.
#[derive(Debug, PartialEq, Eq)]
pub struct DocComment {
    pub open: Token<token::TextStart>,
    pub elements: Vec<TextElement>,
    pub newlines: Vec<Token<token::Newline>>,
}

/// The part of a number behind the decimal point.
#[derive(Debug, PartialEq, Eq)]
pub struct FractionalDigits {
    pub dot: Token<token::Operator>,
    pub digits: Token<token::Digits>,
}

/// The definition of one argument of a function.
#[derive(Debug, PartialEq, Eq)]
pub struct ArgumentDefinition {
    pub open: Option<Token<token::OpenSymbol>>,
    pub open2: Option<Token<token::OpenSymbol>>,
    pub suspension: Option<Token<token::Operator>>,
    pub pattern: Tree,
    pub type_: Option<ArgumentType>,
    pub close2: Option<Token<token::CloseSymbol>>,
    pub default: Option<ArgumentDefault>,
    pub close: Option<Token<token::CloseSymbol>>,
}

/// The default value of an argument.
#[derive(Debug, PartialEq, Eq)]
pub struct ArgumentDefault {
    pub equals: Token<token::Operator>,
    pub expression: Tree,
}

/// The type ascribed to an argument.
#[derive(Debug, PartialEq, Eq)]
pub struct ArgumentType {
    pub operator: Token<token::Operator>,
    pub type_: Tree,
}

/// The return type of a function, behind its arrow.
#[derive(Debug, PartialEq, Eq)]
pub struct ReturnSpecification {
    pub arrow: Token<token::Operator>,
    pub type_: Tree,
}

/// A line of a case-of expression.
#[derive(Debug, PartialEq, Eq)]
pub struct CaseLine {
    pub newline: Option<Token<token::Newline>>,
    pub case: Option<Case>,
}

/// One case of a case-of expression.
#[derive(Debug, PartialEq, Eq)]
pub struct Case {
    pub documentation: Option<DocComment>,
    pub pattern: Option<Tree>,
    pub arrow: Option<Token<token::Operator>>,
    pub expression: Option<Tree>,
}

/// The fields of a text literal, as the lexer builds it up piece by piece.
#[derive(Debug, PartialEq, Eq)]
pub struct TextLiteral {
    pub open: Option<Token<token::TextStart>>,
    pub newline: Option<Token<token::Newline>>,
    pub elements: Vec<TextElement>,
    pub close: Option<Token<token::TextEnd>>,
    pub closed: bool,
}

/// Several operators next to each other, as in `a + * b`: all of them are kept.
#[derive(Debug, PartialEq, Eq)]
pub struct MultipleOperatorError {
    pub operators: Vec<Token<token::Operator>>,
}

/// A segment of a multi-segment application, like `if cond` in `if cond then a else b`.
#[derive(Debug, PartialEq, Eq)]
pub struct MultiSegmentAppSegment {
    pub header: Token<token::Variant>,
    pub body: Option<Tree>,
}

/// An expression behind a delimiting operator.
#[derive(Debug, PartialEq, Eq)]
pub struct OperatorDelimitedTree {
    pub operator: Token<token::Operator>,
    pub body: Option<Tree>,
}

} // verus!
