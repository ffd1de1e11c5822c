use enso_parser::source::{Offset, Span};
use enso_parser::token;
use enso_parser::token::Token;
use enso_parser::tree::block::{Line, OperatorBlockExpression, OperatorLine};
use enso_parser::tree::{apply, apply_operator, apply_unary_operator, maybe_apply, Tree, Variant};

fn tok<T>(offset: &str, code: &str, variant: T) -> Token<T> {
    Token::new(Offset::new(offset.to_string()), code.to_string(), variant)
}

fn ident_kind(is_type: bool) -> token::Ident {
    token::Ident {
        is_free: false,
        lift_level: 0,
        is_type,
        is_operator_lexically: false,
        is_default: false,
    }
}

fn ident(offset: &str, code: &str) -> Tree {
    Tree::ident(tok(offset, code, ident_kind(false)))
}

fn type_ident(offset: &str, code: &str) -> Tree {
    Tree::ident(tok(offset, code, ident_kind(true)))
}

fn span(offset: &str, code_length: usize) -> Span {
    Span { left_offset: Offset::new(offset.to_string()), code_length }
}

fn plain() -> token::OperatorProperties {
    token::OperatorProperties::new()
}

fn operator(
    offset: &str,
    code: &str,
    properties: token::OperatorProperties,
) -> Token<token::Operator> {
    tok(offset, code, token::Operator { properties })
}

fn assignment(offset: &str) -> Token<token::Operator> {
    let mut properties = plain();
    properties.is_assignment = true;
    operator(offset, "=", properties)
}

fn annotation_marker(offset: &str) -> Token<token::Operator> {
    let mut properties = plain();
    properties.is_annotation = true;
    operator(offset, "@", properties)
}

fn line(newline_offset: &str, expression: Option<Tree>) -> Line {
    Line { newline: tok(newline_offset, "\n", token::Newline), expression }
}

#[test]
fn two_plain_trees_give_an_app() {
    let tree = apply(ident(" ", "foo"), ident(" ", "bar"));
    assert_eq!(tree.span, span(" ", 7));
    assert_eq!(tree.code(), " foo bar");
    match *tree.variant {
        Variant::App { func, arg } => {
            assert_eq!(func.span, span("", 3));
            assert_eq!(arg.span, span(" ", 3));
            assert_eq!(func.code(), "foo");
            assert_eq!(arg.code(), " bar");
        }
        other => panic!("expected an application, got {:?}", other),
    }
}

#[test]
fn application_is_left_nested_when_repeated() {
    let tree = apply(apply(ident("", "f"), ident(" ", "x")), ident("  ", "y"));
    assert_eq!(tree.code(), "f x  y");
    assert_eq!(tree.span, span("", 6));
    match *tree.variant {
        Variant::App { func, arg } => {
            assert_eq!(func.code(), "f x");
            assert_eq!(arg.code(), "  y");
        }
        other => panic!("expected an application, got {:?}", other),
    }
}

#[test]
fn named_argument_gives_a_named_app() {
    let argument = apply_operator(
        Some(ident(" ", "x")),
        vec![assignment("")],
        Some(ident("", "e")),
    );
    assert_eq!(argument.code(), " x=e");
    let tree = apply(ident("", "f"), argument);
    assert_eq!(tree.code(), "f x=e");
    assert_eq!(tree.span, span("", 5));
    match *tree.variant {
        Variant::NamedApp { func, open, name, equals, arg, close } => {
            assert_eq!(func.code(), "f");
            assert_eq!(open, None);
            assert_eq!(name, tok(" ", "x", ident_kind(false)));
            assert_eq!(equals, assignment(""));
            assert_eq!(arg.code(), "e");
            assert_eq!(close, None);
        }
        other => panic!("expected a named application, got {:?}", other),
    }
}

#[test]
fn named_argument_in_parentheses_gives_a_named_app() {
    let body = apply_operator(Some(ident("", "x")), vec![assignment(" ")], Some(ident(" ", "y")));
    let group = Tree::group(
        Some(tok(" ", "(", token::OpenSymbol)),
        Some(body),
        Some(tok("", ")", token::CloseSymbol)),
    );
    assert_eq!(group.code(), " (x = y)");
    let tree = apply(ident("", "f"), group);
    assert_eq!(tree.code(), "f (x = y)");
    assert_eq!(tree.span, span("", 9));
    match *tree.variant {
        Variant::NamedApp { func: _, open, name, equals, arg, close } => {
            assert_eq!(open, Some(tok(" ", "(", token::OpenSymbol)));
            assert_eq!(name, tok("", "x", ident_kind(false)));
            assert_eq!(equals, assignment(" "));
            assert_eq!(arg.code(), " y");
            assert_eq!(close, Some(tok("", ")", token::CloseSymbol)));
        }
        other => panic!("expected a named application, got {:?}", other),
    }
}

#[test]
fn assignment_to_something_else_than_an_identifier_gives_an_app() {
    let lhs = apply(ident(" ", "a"), ident(" ", "b"));
    let argument = apply_operator(Some(lhs), vec![assignment("")], Some(ident("", "e")));
    let tree = apply(ident("", "f"), argument);
    assert_eq!(tree.code(), "f a b=e");
    assert!(matches!(*tree.variant, Variant::App { .. }));
}

#[test]
fn annotation_takes_its_argument() {
    let annotated = apply_unary_operator(annotation_marker(""), Some(ident("", "on_problems")));
    assert_eq!(annotated.code(), "@on_problems");
    let tree = apply(annotated, ident(" ", "handler"));
    assert_eq!(tree.code(), "@on_problems handler");
    assert_eq!(tree.span, span("", 20));
    match *tree.variant {
        Variant::Annotated { token: _, annotation, argument, newlines, expression } => {
            assert_eq!(annotation.code, "on_problems");
            assert_eq!(argument.map(|t| t.code()), Some(" handler".to_string()));
            assert!(newlines.is_empty());
            assert_eq!(expression, None);
        }
        other => panic!("expected an annotation, got {:?}", other),
    }
}

#[test]
fn annotation_with_its_argument_applies_the_argument() {
    let annotated = apply_unary_operator(annotation_marker(" "), Some(ident("", "a")));
    let once = apply(annotated, ident(" ", "b"));
    let twice = apply(once, ident(" ", "c"));
    assert_eq!(twice.code(), " @a b c");
    assert_eq!(twice.span, span(" ", 6));
    match *twice.variant {
        Variant::Annotated { token, annotation, argument, newlines, expression } => {
            assert_eq!(token, annotation_marker(""));
            assert_eq!(annotation, tok("", "a", ident_kind(false)));
            assert!(newlines.is_empty());
            assert_eq!(expression, None);
            let argument = argument.expect("the argument stays in its place");
            assert_eq!(argument, apply(ident(" ", "b"), ident(" ", "c")));
            assert_eq!(argument.code(), " b c");
        }
        other => panic!("expected an annotation, got {:?}", other),
    }
}

#[test]
fn annotation_before_a_line_break_still_takes_its_argument() {
    let annotated = Tree::annotated(
        annotation_marker(""),
        tok("", "a", ident_kind(false)),
        None,
        vec![tok("", "\n", token::Newline)],
        Some(ident("", "e")),
    );
    assert_eq!(annotated.code(), "@a\ne");
    let tree = apply(annotated, ident(" ", "x"));
    assert_eq!(tree.span, span("", 6));
    assert_eq!(tree.code(), "@a x\ne");
    match *tree.variant {
        Variant::Annotated { token: _, annotation: _, argument, newlines, expression } => {
            assert_eq!(argument, Some(ident(" ", "x")));
            assert_eq!(newlines, vec![tok("", "\n", token::Newline)]);
            assert_eq!(expression, Some(ident("", "e")));
        }
        other => panic!("expected an annotation, got {:?}", other),
    }
}

#[test]
fn builtin_annotation_applies_its_expression() {
    let builtin = apply_unary_operator(annotation_marker(" "), Some(type_ident("", "Tail_Call")));
    assert_eq!(builtin.code(), " @Tail_Call");
    let once = apply(builtin, ident(" ", "f"));
    assert_eq!(once.code(), " @Tail_Call f");
    let twice = apply(once, ident(" ", "4"));
    assert_eq!(twice.code(), " @Tail_Call f 4");
    assert_eq!(twice.span, span(" ", 14));
    match *twice.variant {
        Variant::AnnotatedBuiltin { token: _, annotation, newlines, expression } => {
            assert_eq!(annotation.code, "Tail_Call");
            assert!(newlines.is_empty());
            let expression = expression.expect("the expression is filled");
            assert_eq!(expression.code(), " f 4");
            assert_eq!(expression.span, span(" ", 3));
            assert!(matches!(*expression.variant, Variant::App { .. }));
        }
        other => panic!("expected a built-in annotation, got {:?}", other),
    }
}

#[test]
fn argument_block_takes_the_expression_before_it() {
    let block = Tree::argument_block_application(
        None,
        vec![line(" ", Some(ident("    ", "x"))), line("", Some(ident("    ", "y")))],
    );
    assert_eq!(block.code(), " \n    x\n    y");
    assert_eq!(block.span, span(" ", 12));
    let tree = apply(ident("  ", "f"), block);
    assert_eq!(tree.code(), "  f \n    x\n    y");
    assert_eq!(tree.span, span("  ", 14));
    match *tree.variant {
        Variant::ArgumentBlockApplication { lhs, arguments } => {
            let lhs = lhs.expect("the expression is attached");
            assert_eq!(lhs.span, span("", 1));
            assert_eq!(arguments.len(), 2);
            assert_eq!(arguments[0].newline, tok(" ", "\n", token::Newline));
            assert_eq!(arguments[1].newline, tok("", "\n", token::Newline));
        }
        other => panic!("expected an argument block, got {:?}", other),
    }
}

#[test]
fn operator_block_takes_the_expression_before_it() {
    let expression = OperatorBlockExpression {
        operator: Ok(operator("    ", "+", plain())),
        expression: ident(" ", "x"),
    };
    let block = Tree::operator_block_application(
        None,
        vec![OperatorLine {
            newline: tok(" ", "\n", token::Newline),
            expression: Some(expression),
        }],
        vec![],
    );
    assert_eq!(block.code(), " \n    + x");
    let tree = apply(ident("", "a"), block);
    assert_eq!(tree.code(), "a \n    + x");
    assert_eq!(tree.span, span("", 10));
    match *tree.variant {
        Variant::OperatorBlockApplication { lhs, expressions, excess } => {
            assert_eq!(lhs.map(|t| t.code()), Some("a".to_string()));
            assert_eq!(expressions.len(), 1);
            assert_eq!(expressions[0].newline.left_offset.code, " ");
            assert!(excess.is_empty());
        }
        other => panic!("expected an operator block, got {:?}", other),
    }
}

#[test]
fn block_behind_an_operator_is_its_right_operand() {
    let awaiting = apply_operator(Some(ident("", "a")), vec![operator(" ", "->", plain())], None);
    assert_eq!(awaiting.code(), "a ->");
    let block = Tree::argument_block_application(None, vec![line("", Some(ident("    ", "b")))]);
    let tree = apply(awaiting, block);
    assert_eq!(tree.code(), "a ->\n    b");
    assert_eq!(tree.span, span("", 10));
    match *tree.variant {
        Variant::OprApp { lhs, opr, rhs } => {
            assert_eq!(lhs.map(|t| t.code()), Some("a".to_string()));
            assert!(opr.is_ok());
            let rhs = rhs.expect("the block is the right operand");
            assert!(matches!(*rhs.variant, Variant::BodyBlock { .. }));
            assert_eq!(rhs.code(), "\n    b");
        }
        other => panic!("expected an operator application, got {:?}", other),
    }
}

#[test]
fn block_with_whitespace_before_it_keeps_the_whitespace() {
    let awaiting = apply_operator(Some(ident("", "a")), vec![operator(" ", "+", plain())], None);
    let block = Tree::argument_block_application(None, vec![line("  ", Some(ident(" ", "b")))]);
    assert_eq!(block.span, span("  ", 3));
    let tree = apply(awaiting, block);
    assert_eq!(tree.code(), "a +  \n b");
    assert_eq!(tree.span, span("", 8));
}

#[test]
fn maybe_apply_without_a_function_gives_the_argument() {
    let tree = maybe_apply(None, ident(" ", "x"));
    assert_eq!(tree.code(), " x");
    assert!(matches!(*tree.variant, Variant::Ident { .. }));
    let tree = maybe_apply(Some(ident("", "f")), ident(" ", "x"));
    assert_eq!(tree.code(), "f x");
    assert!(matches!(*tree.variant, Variant::App { .. }));
}

#[test]
fn span_of_an_application_covers_its_text() {
    let tree = apply(apply(ident(" ", "foo"), ident("\t", "bar")), ident("   ", "baz"));
    let text = tree.code();
    assert_eq!(text, " foo\tbar   baz");
    assert_eq!(
        tree.span.left_offset.code.chars().count() + tree.span.code_length,
        text.chars().count(),
    );
    assert_eq!(tree.trimmed_code(), "foo\tbar   baz");
}

#[test]
fn named_argument_in_parentheses_keeps_the_whitespace_before_the_name() {
    let body = apply_operator(
        Some(ident(" ", "x")),
        vec![assignment(" ")],
        Some(ident(" ", "1")),
    );
    assert_eq!(body.span, span(" ", 5));
    let group = Tree::group(
        Some(tok(" ", "(", token::OpenSymbol)),
        Some(body),
        Some(tok("", ")", token::CloseSymbol)),
    );
    assert_eq!(group.code(), " ( x = 1)");
    let func = ident("", "f");
    let sum = func.span.code_length + 1 + group.span.code_length;
    let tree = apply(func, group);
    assert_eq!(tree.code(), "f ( x = 1)");
    assert_eq!(tree.span, span("", 10));
    assert_eq!(tree.span.code_length, sum);
    match *tree.variant {
        Variant::NamedApp { func, open, name, equals, arg, close } => {
            assert_eq!(func, ident("", "f"));
            assert_eq!(open, Some(tok(" ", "(", token::OpenSymbol)));
            assert_eq!(name, tok(" ", "x", ident_kind(false)));
            assert_eq!(equals, assignment(" "));
            assert_eq!(arg, ident(" ", "1"));
            assert_eq!(close, Some(tok("", ")", token::CloseSymbol)));
        }
        other => panic!("expected a named application, got {:?}", other),
    }
}

#[test]
fn named_argument_keeps_every_offset_before_the_name() {
    let name = Tree(
        span("\t", 2),
        Variant::Ident { token: tok(" ", "x", ident_kind(false)) },
    );
    let argument = Tree(
        span("  ", 6),
        Variant::OprApp { lhs: Some(name), opr: Ok(assignment(" ")), rhs: Some(ident("", "e")) },
    );
    assert!(argument.is_sound());
    assert_eq!(argument.code(), "  \t x =e");
    let tree = apply(ident("", "f"), argument);
    assert_eq!(tree.code(), "f  \t x =e");
    assert_eq!(tree.span, span("", 9));
    match *tree.variant {
        Variant::NamedApp { func: _, open, name, equals, arg, close } => {
            assert_eq!(open, None);
            assert_eq!(name, tok("  \t ", "x", ident_kind(false)));
            assert_eq!(equals, assignment(" "));
            assert_eq!(arg, ident("", "e"));
            assert_eq!(close, None);
        }
        other => panic!("expected a named application, got {:?}", other),
    }
    let name = Tree(
        span(" ", 2),
        Variant::Ident { token: tok(" ", "x", ident_kind(false)) },
    );
    let body = Tree(
        span(" ", 6),
        Variant::OprApp { lhs: Some(name), opr: Ok(assignment("")), rhs: Some(ident(" ", "e")) },
    );
    let group = Tree(
        span(" ", 9),
        Variant::Group {
            open: Some(tok("", "(", token::OpenSymbol)),
            body: Some(body),
            close: Some(tok("", ")", token::CloseSymbol)),
        },
    );
    assert!(group.is_sound());
    assert_eq!(group.code(), " (   x= e)");
    let tree = apply(ident("", "f"), group);
    assert_eq!(tree.code(), "f (   x= e)");
    assert_eq!(tree.span, span("", 11));
    match *tree.variant {
        Variant::NamedApp { func: _, open, name, equals: _, arg: _, close: _ } => {
            assert_eq!(open, Some(tok(" ", "(", token::OpenSymbol)));
            assert_eq!(name, tok("   ", "x", ident_kind(false)));
        }
        other => panic!("expected a named application, got {:?}", other),
    }
}

#[test]
fn block_without_a_line_keeps_the_whitespace_before_it() {
    let block = Tree(
        span("  ", 0),
        Variant::ArgumentBlockApplication { lhs: None, arguments: vec![] },
    );
    assert!(block.is_sound());
    let tree = apply(ident("", "f"), block);
    assert_eq!(tree.code(), "f  ");
    assert_eq!(tree.span, span("", 3));
    assert!(matches!(*tree.variant, Variant::App { .. }));
    let block = Tree(
        span(" ", 0),
        Variant::OperatorBlockApplication { lhs: None, expressions: vec![], excess: vec![] },
    );
    let tree = apply(ident(" ", "f"), block);
    assert_eq!(tree.code(), " f ");
    assert_eq!(tree.span, span(" ", 2));
    assert!(matches!(*tree.variant, Variant::App { .. }));
    let block = Tree::argument_block_application(None, vec![]);
    let tree = apply(ident(" ", "f"), block);
    assert_eq!(tree.code(), " f");
    assert_eq!(
        *tree.variant,
        Variant::ArgumentBlockApplication { lhs: Some(ident("", "f")), arguments: vec![] }
    );
    let awaiting = apply_operator(Some(ident("", "a")), vec![operator(" ", "->", plain())], None);
    let block = Tree(
        span("  ", 0),
        Variant::ArgumentBlockApplication { lhs: None, arguments: vec![] },
    );
    let tree = apply(awaiting, block);
    assert_eq!(tree.code(), "a ->  ");
    assert_eq!(tree.span, span("", 6));
    match *tree.variant {
        Variant::OprApp { lhs: _, opr: _, rhs } => {
            let rhs = rhs.expect("the block is the right operand");
            assert_eq!(rhs.span, span("  ", 0));
            assert_eq!(*rhs.variant, Variant::BodyBlock { statements: vec![] });
        }
        other => panic!("expected an operator application, got {:?}", other),
    }
}

#[test]
fn operator_block_of_excess_lines_hands_its_offset_to_the_first_of_them() {
    let block = Tree::operator_block_application(
        None,
        vec![],
        vec![line("  ", Some(ident("    ", "x"))), line("", None)],
    );
    assert_eq!(block.span, span("  ", 7));
    let tree = apply(ident(" ", "a"), block);
    assert_eq!(tree.code(), " a  \n    x\n");
    assert_eq!(tree.span, span(" ", 10));
    match *tree.variant {
        Variant::OperatorBlockApplication { lhs, expressions, excess } => {
            assert_eq!(lhs, Some(ident("", "a")));
            assert!(expressions.is_empty());
            assert_eq!(excess, vec![line("  ", Some(ident("    ", "x"))), line("", None)]);
        }
        other => panic!("expected an operator block, got {:?}", other),
    }
}

#[test]
fn block_that_has_taken_an_expression_is_applied_plainly() {
    let block = Tree::argument_block_application(
        Some(ident(" ", "g")),
        vec![line("", Some(ident("  ", "x")))],
    );
    let tree = apply(ident("", "f"), block);
    assert_eq!(tree.code(), "f g\n  x");
    assert!(matches!(*tree.variant, Variant::App { .. }));
}

#[test]
fn length_of_an_application_is_the_sum_of_both_lengths() {
    let full = |tree: &Tree| tree.span.left_offset.code.chars().count() + tree.span.code_length;
    let body = apply_operator(Some(ident(" ", "x")), vec![assignment("")], Some(ident("", "e")));
    let pairs = vec![
        (ident(" ", "f"), ident("  ", "x")),
        (ident(" ", "f"), body),
        (
            apply_unary_operator(annotation_marker(" "), Some(ident(" ", "a"))),
            ident("  ", "x"),
        ),
        (
            ident("", "f"),
            Tree::argument_block_application(None, vec![line(" ", Some(ident("  ", "x")))]),
        ),
        (
            ident("", "f"),
            Tree::group(Some(tok(" ", "(", token::OpenSymbol)), None, None),
        ),
    ];
    for (func, arg) in pairs {
        let sum = full(&func) + full(&arg);
        let text = format!("{}{}", func.code(), arg.code());
        let tree = apply(func, arg);
        assert!(tree.is_sound());
        assert_eq!(full(&tree), sum);
        assert_eq!(tree.code(), text);
        assert!(!matches!(*tree.variant, Variant::Invalid { .. }));
    }
}
