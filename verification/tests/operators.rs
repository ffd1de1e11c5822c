use enso_parser::source::{Offset, Span};
use enso_parser::token;
use enso_parser::token::Token;
use enso_parser::tree::block::Line;
use enso_parser::tree::{
    apply, apply_operator, apply_unary_operator, to_ast, try_apply, FractionalDigits,
    MultipleOperatorError, Tree, Variant,
};

fn tok<T>(offset: &str, code: &str, variant: T) -> Token<T> {
    Token::new(Offset::new(offset.to_string()), code.to_string(), variant)
}

fn ident_kind(is_type: bool) -> token::Ident {
    token::Ident {
        is_free: false,
        lift_level: 0,
        is_type,
        is_operator_lexically: false,
        is_default: false,
    }
}

fn ident(offset: &str, code: &str) -> Tree {
    Tree::ident(tok(offset, code, ident_kind(false)))
}

fn span(offset: &str, code_length: usize) -> Span {
    Span { left_offset: Offset::new(offset.to_string()), code_length }
}

fn plain() -> token::OperatorProperties {
    token::OperatorProperties::new()
}

fn operator(
    offset: &str,
    code: &str,
    properties: token::OperatorProperties,
) -> Token<token::Operator> {
    tok(offset, code, token::Operator { properties })
}

fn invalid_message(tree: &Tree) -> String {
    match &*tree.variant {
        Variant::Invalid { error, ast: _ } => error.message.clone(),
        other => panic!("expected an invalid node, got {:?}", other),
    }
}

fn digits(offset: &str, code: &str) -> Tree {
    to_ast(tok(offset, code, token::Variant::Digits(token::Digits { base: None })))
}

#[test]
fn no_operator_is_an_application() {
    let tree = apply_operator(Some(ident("", "f")), vec![], Some(ident(" ", "x")));
    assert_eq!(tree, apply(ident("", "f"), ident(" ", "x")));
    assert_eq!(tree.code(), "f x");
}

#[test]
fn no_operator_and_a_missing_operand_is_in_error() {
    let tree = apply_operator(Some(ident(" ", "f")), vec![], None);
    assert_eq!(invalid_message(&tree), "An application must have two operands.");
    assert_eq!(tree.code(), " f");
    let tree = apply_operator(None, vec![], Some(ident(" ", "x")));
    assert_eq!(invalid_message(&tree), "An application must have two operands.");
    assert_eq!(tree.code(), " x");
    let tree = apply_operator(None, vec![], None);
    assert_eq!(invalid_message(&tree), "An application must have two operands.");
    assert_eq!(tree.code(), "");
    assert_eq!(tree.span, span("", 0));
}

#[test]
fn one_operator_between_two_operands() {
    let tree = apply_operator(
        Some(ident("", "a")),
        vec![operator(" ", "+", plain())],
        Some(ident(" ", "b")),
    );
    assert_eq!(tree.code(), "a + b");
    assert_eq!(tree.span, span("", 5));
    match *tree.variant {
        Variant::OprApp { lhs, opr, rhs } => {
            assert_eq!(lhs.map(|t| t.code()), Some("a".to_string()));
            assert_eq!(opr, Ok(operator(" ", "+", plain())));
            assert_eq!(rhs.map(|t| t.code()), Some(" b".to_string()));
        }
        other => panic!("expected an operator application, got {:?}", other),
    }
}

#[test]
fn operator_sections() {
    let left = apply_operator(Some(ident("", "a")), vec![operator(" ", "+", plain())], None);
    assert_eq!(left.code(), "a +");
    assert!(matches!(*left.variant, Variant::OprApp { lhs: Some(_), opr: Ok(_), rhs: None }));
    let right = apply_operator(None, vec![operator(" ", "+", plain())], Some(ident(" ", "b")));
    assert_eq!(right.code(), " + b");
    assert_eq!(right.span, span(" ", 3));
    assert!(matches!(*right.variant, Variant::OprApp { lhs: None, opr: Ok(_), rhs: Some(_) }));
    let bare = apply_operator(None, vec![operator("", "+", plain())], None);
    assert_eq!(bare.code(), "+");
    assert!(matches!(*bare.variant, Variant::OprApp { lhs: None, opr: Ok(_), rhs: None }));
}

#[test]
fn operator_that_cannot_form_a_section_needs_an_operand() {
    let mut properties = plain();
    properties.can_form_section = false;
    let tree = apply_operator(None, vec![operator(" ", "->", properties)], None);
    assert_eq!(invalid_message(&tree), "Operator `->` must be applied to two operands.");
    assert_eq!(tree.code(), " ->");
    match *tree.variant {
        Variant::Invalid { error: _, ast } => {
            assert!(matches!(*ast.variant, Variant::OprApp { lhs: None, opr: Ok(_), rhs: None }));
        }
        other => panic!("expected an invalid node, got {:?}", other),
    }
    let tree = apply_operator(Some(ident("", "a")), vec![operator(" ", "->", properties)], None);
    assert!(matches!(*tree.variant, Variant::OprApp { lhs: Some(_), opr: Ok(_), rhs: None }));
}

#[test]
fn several_operators_are_all_kept() {
    let tree = apply_operator(
        Some(ident("", "a")),
        vec![operator(" ", "+", plain()), operator(" ", "*", plain())],
        Some(ident(" ", "b")),
    );
    assert_eq!(tree.code(), "a + * b");
    assert_eq!(tree.span, span("", 7));
    match *tree.variant {
        Variant::OprApp { lhs: _, opr, rhs: _ } => {
            assert_eq!(
                opr,
                Err(MultipleOperatorError {
                    operators: vec![operator(" ", "+", plain()), operator(" ", "*", plain())],
                })
            );
        }
        other => panic!("expected an operator application, got {:?}", other),
    }
}

#[test]
fn several_operators_without_operands() {
    let tree = apply_operator(
        None,
        vec![operator(" ", "+", plain()), operator("", "-", plain()), operator("", "*", plain())],
        None,
    );
    assert_eq!(tree.code(), " +-*");
    assert_eq!(tree.span, span(" ", 3));
    match *tree.variant {
        Variant::OprApp { lhs: None, opr: Err(error), rhs: None } => {
            let codes: Vec<String> = error.operators.iter().map(|t| t.code.clone()).collect();
            assert_eq!(codes, vec!["+", "-", "*"]);
        }
        other => panic!("expected an operator application in error, got {:?}", other),
    }
}

#[test]
fn token_joiner_glues_digits_to_the_base() {
    let base = to_ast(tok(" ", "16_", token::Variant::NumberBase(token::NumberBase)));
    let mut properties = plain();
    properties.is_token_joiner = true;
    let hex = token::Digits { base: Some(token::Base::Hexadecimal) };
    let digits = to_ast(tok("", "FF", token::Variant::Digits(hex)));
    let tree = apply_operator(Some(base), vec![operator("", "", properties)], Some(digits));
    assert_eq!(tree.code(), " 16_FF");
    assert_eq!(tree.span, span(" ", 5));
    assert_eq!(
        *tree.variant,
        Variant::Number {
            base: Some(tok("", "16_", token::NumberBase)),
            integer: Some(tok("", "FF", hex)),
            fractional_digits: None,
        }
    );
}

#[test]
fn token_joiner_between_other_trees_applies_them() {
    let mut properties = plain();
    properties.is_token_joiner = true;
    let tree = apply_operator(
        Some(ident("", "a")),
        vec![operator("", "", properties)],
        Some(ident(" ", "b")),
    );
    assert_eq!(tree, apply(ident("", "a"), ident(" ", "b")));
}

#[test]
fn decimal_point_joins_integer_and_fraction() {
    let mut properties = plain();
    properties.is_decimal = true;
    let tree = apply_operator(
        Some(digits("", "10")),
        vec![operator("", ".", properties)],
        Some(digits("", "5")),
    );
    assert_eq!(tree.code(), "10.5");
    assert_eq!(tree.span, span("", 4));
    assert_eq!(
        *tree.variant,
        Variant::Number {
            base: None,
            integer: Some(tok("", "10", token::Digits { base: None })),
            fractional_digits: Some(FractionalDigits {
                dot: operator("", ".", properties),
                digits: tok("", "5", token::Digits { base: None }),
            }),
        }
    );
}

#[test]
fn decimal_point_behind_something_else_is_an_operator() {
    let mut properties = plain();
    properties.is_decimal = true;
    let tree = apply_operator(
        Some(ident("", "a")),
        vec![operator("", ".", properties)],
        Some(digits("", "5")),
    );
    assert_eq!(tree.code(), "a.5");
    assert!(matches!(*tree.variant, Variant::OprApp { .. }));
}

#[test]
fn special_operator_is_in_error() {
    let mut properties = plain();
    properties.is_special = true;
    let tree = apply_operator(
        Some(ident("", "a")),
        vec![operator(" ", "#", properties)],
        Some(ident(" ", "b")),
    );
    assert_eq!(invalid_message(&tree), "Invalid use of special operator.");
    assert_eq!(tree.code(), "a # b");
    assert_eq!(tree.span, span("", 5));
}

#[test]
fn type_annotation_needs_two_operands() {
    let mut properties = plain();
    properties.is_type_annotation = true;
    let tree = apply_operator(
        Some(ident("", "a")),
        vec![operator(" ", ":", properties)],
        Some(ident(" ", "T")),
    );
    assert_eq!(tree.code(), "a : T");
    match *tree.variant {
        Variant::TypeAnnotated { expression, operator: colon, type_ } => {
            assert_eq!(expression.code(), "a");
            assert_eq!(colon, operator(" ", ":", properties));
            assert_eq!(type_.code(), " T");
        }
        other => panic!("expected a type annotation, got {:?}", other),
    }
    let tree = apply_operator(None, vec![operator(" ", ":", properties)], Some(ident(" ", "T")));
    assert_eq!(invalid_message(&tree), "`:` operator must be applied to two operands.");
    assert_eq!(tree.code(), " : T");
}

#[test]
fn block_as_right_operand_is_read_as_statements() {
    let block = Tree::argument_block_application(
        None,
        vec![Line {
            newline: tok(" ", "\n", token::Newline),
            expression: Some(ident("  ", "b")),
        }],
    );
    let tree = apply_operator(Some(ident("", "a")), vec![operator(" ", "=", plain())], Some(block));
    assert_eq!(tree.code(), "a = \n  b");
    assert_eq!(tree.span, span("", 8));
    match *tree.variant {
        Variant::OprApp { lhs: _, opr: _, rhs } => {
            let rhs = rhs.expect("the right operand is there");
            assert_eq!(rhs.span, span(" ", 4));
            assert!(matches!(*rhs.variant, Variant::BodyBlock { .. }));
        }
        other => panic!("expected an operator application, got {:?}", other),
    }
}

#[test]
fn annotation_marker_before_an_identifier() {
    let mut properties = plain();
    properties.is_annotation = true;
    let tree = apply_unary_operator(operator(" ", "@", properties), Some(ident("", "name")));
    assert_eq!(tree.code(), " @name");
    assert_eq!(
        *tree.variant,
        Variant::Annotated {
            token: operator("", "@", properties),
            annotation: tok("", "name", ident_kind(false)),
            argument: None,
            newlines: vec![],
            expression: None,
        }
    );
    let tree = apply_unary_operator(
        operator("", "@", properties),
        Some(Tree::ident(tok("", "Builtin", ident_kind(true)))),
    );
    assert_eq!(
        *tree.variant,
        Variant::AnnotatedBuiltin {
            token: operator("", "@", properties),
            annotation: tok("", "Builtin", ident_kind(true)),
            newlines: vec![],
            expression: None,
        }
    );
}

#[test]
fn autoscope_marker() {
    let mut properties = plain();
    properties.is_autoscope = true;
    let tree = apply_unary_operator(
        operator(" ", "..", properties),
        Some(Tree::ident(tok("", "True", ident_kind(true)))),
    );
    assert_eq!(tree.code(), " ..True");
    assert_eq!(
        *tree.variant,
        Variant::AutoscopedIdentifier {
            opr: operator("", "..", properties),
            ident: tok("", "True", ident_kind(true)),
        }
    );
    let tree = apply_unary_operator(operator("", "..", properties), Some(ident("", "lower")));
    assert_eq!(
        invalid_message(&tree),
        "The auto-scope operator may only be applied to a capitalized identifier."
    );
    assert_eq!(tree.code(), "..lower");
    let number = digits("", "1");
    let tree = apply_unary_operator(operator("", "..", properties), Some(number));
    assert_eq!(
        invalid_message(&tree),
        "The auto-scope operator (..) may only be applied to an identifier."
    );
    assert_eq!(tree.code(), "..1");
}

#[test]
fn unary_operator_that_needs_its_operand() {
    let mut properties = plain();
    properties.can_form_section = false;
    let tree = apply_unary_operator(operator("", "~", properties), None);
    assert_eq!(invalid_message(&tree), "Operator `~` must be applied to an operand.");
    assert_eq!(tree.code(), "~");
    let tree = apply_unary_operator(operator("", "-", plain()), None);
    assert!(matches!(*tree.variant, Variant::UnaryOprApp { opr: _, rhs: None }));
}

#[test]
fn unary_operator_before_its_operand() {
    let tree = apply_unary_operator(operator(" ", "-", plain()), Some(ident("", "x")));
    assert_eq!(tree.code(), " -x");
    assert_eq!(tree.span, span(" ", 2));
    match *tree.variant {
        Variant::UnaryOprApp { opr, rhs } => {
            assert_eq!(opr, operator("", "-", plain()));
            assert_eq!(rhs.map(|t| t.code()), Some("x".to_string()));
        }
        other => panic!("expected a unary operator application, got {:?}", other),
    }
}

#[test]
fn default_tree_is_an_empty_identifier() {
    let tree = Tree::default();
    assert_eq!(tree.span, span("", 0));
    assert_eq!(tree.code(), "");
    assert_eq!(*tree.variant, Variant::Ident { token: tok("", "", ident_kind(false)) });
}

#[test]
fn annotation_marker_keeps_the_whitespace_before_the_name() {
    let mut properties = plain();
    properties.is_annotation = true;
    let tree = apply_unary_operator(operator(" ", "@", properties), Some(ident("  ", "name")));
    assert_eq!(tree.code(), " @  name");
    assert_eq!(tree.span, span(" ", 7));
    assert_eq!(
        *tree.variant,
        Variant::Annotated {
            token: operator("", "@", properties),
            annotation: tok("  ", "name", ident_kind(false)),
            argument: None,
            newlines: vec![],
            expression: None,
        }
    );
    let tree = apply_unary_operator(
        operator("", "@", properties),
        Some(Tree::ident(tok(" ", "Builtin", ident_kind(true)))),
    );
    assert_eq!(tree.code(), "@ Builtin");
    assert_eq!(
        *tree.variant,
        Variant::AnnotatedBuiltin {
            token: operator("", "@", properties),
            annotation: tok(" ", "Builtin", ident_kind(true)),
            newlines: vec![],
            expression: None,
        }
    );
}

#[test]
fn autoscope_marker_keeps_the_whitespace_before_the_identifier() {
    let mut properties = plain();
    properties.is_autoscope = true;
    let tree = apply_unary_operator(
        operator("", "..", properties),
        Some(Tree::ident(tok(" ", "True", ident_kind(true)))),
    );
    assert_eq!(tree.code(), ".. True");
    assert_eq!(tree.span, span("", 7));
    assert_eq!(
        *tree.variant,
        Variant::AutoscopedIdentifier {
            opr: operator("", "..", properties),
            ident: tok(" ", "True", ident_kind(true)),
        }
    );
    let operand = Tree(
        span(" ", 5),
        Variant::Ident { token: tok("\t", "True", ident_kind(true)) },
    );
    let tree = apply_unary_operator(operator("", "..", properties), Some(operand));
    assert_eq!(tree.code(), ".. \tTrue");
    assert_eq!(
        *tree.variant,
        Variant::AutoscopedIdentifier {
            opr: operator("", "..", properties),
            ident: tok(" \t", "True", ident_kind(true)),
        }
    );
    let tree = apply_unary_operator(operator(" ", "..", properties), Some(ident(" ", "lower")));
    assert_eq!(
        invalid_message(&tree),
        "The auto-scope operator may only be applied to a capitalized identifier."
    );
    assert_eq!(tree.code(), " .. lower");
    assert_eq!(tree.span, span(" ", 8));
}

#[test]
fn digits_behind_whitespace_keep_it() {
    let base = to_ast(tok(" ", "16_", token::Variant::NumberBase(token::NumberBase)));
    let mut joiner = plain();
    joiner.is_token_joiner = true;
    let hex = token::Digits { base: Some(token::Base::Hexadecimal) };
    let tree = apply_operator(
        Some(base),
        vec![operator("", "", joiner)],
        Some(to_ast(tok("  ", "FF", token::Variant::Digits(hex)))),
    );
    assert_eq!(tree.code(), " 16_  FF");
    assert_eq!(tree.span, span(" ", 7));
    assert_eq!(
        *tree.variant,
        Variant::Number {
            base: Some(tok("", "16_", token::NumberBase)),
            integer: Some(tok("  ", "FF", hex)),
            fractional_digits: None,
        }
    );
    let mut point = plain();
    point.is_decimal = true;
    let tree = apply_operator(
        Some(digits("", "10")),
        vec![operator(" ", ".", point)],
        Some(digits("  ", "5")),
    );
    assert_eq!(tree.code(), "10 .  5");
    assert_eq!(tree.span, span("", 7));
    assert_eq!(
        *tree.variant,
        Variant::Number {
            base: None,
            integer: Some(tok("", "10", token::Digits { base: None })),
            fractional_digits: Some(FractionalDigits {
                dot: operator(" ", ".", point),
                digits: tok("  ", "5", token::Digits { base: None }),
            }),
        }
    );
}

#[test]
fn token_joiner_before_a_number_without_digits_applies_it() {
    let base = to_ast(tok("", "2_", token::Variant::NumberBase(token::NumberBase)));
    let mut joiner = plain();
    joiner.is_token_joiner = true;
    let empty = Tree::number(None, None, None);
    let tree = apply_operator(Some(base), vec![operator("", "", joiner)], Some(empty));
    assert_eq!(tree.code(), "2_");
    assert!(matches!(*tree.variant, Variant::App { .. }));
}

#[test]
fn operator_error_without_operators_is_not_sound() {
    let tree = Tree(
        span("", 0),
        Variant::OprApp {
            lhs: None,
            opr: Err(MultipleOperatorError { operators: vec![] }),
            rhs: None,
        },
    );
    assert!(!tree.is_sound());
    assert_eq!(try_apply(ident("", "f"), tree), None);
    let tree = Tree(
        span("", 2),
        Variant::OprApp {
            lhs: None,
            opr: Err(MultipleOperatorError {
                operators: vec![operator("", "+", plain()), operator("", "-", plain())],
            }),
            rhs: None,
        },
    );
    assert!(tree.is_sound());
    let tree = try_apply(ident("", "f"), tree).expect("both trees are sound");
    assert_eq!(tree.code(), "f+-");
}

#[test]
fn operators_keep_the_text_of_their_operands() {
    let full = |tree: &Tree| tree.span.left_offset.code.chars().count() + tree.span.code_length;
    let mut no_section = plain();
    no_section.can_form_section = false;
    let mut special = plain();
    special.is_special = true;
    let mut colon = plain();
    colon.is_type_annotation = true;
    let cases = vec![
        (Some(ident(" ", "a")), vec![operator(" ", "+", plain())], Some(ident(" ", "b"))),
        (None, vec![operator(" ", "+", plain())], Some(ident(" ", "b"))),
        (Some(ident(" ", "a")), vec![operator(" ", "->", no_section)], None),
        (None, vec![operator(" ", "->", no_section)], None),
        (Some(ident(" ", "a")), vec![operator(" ", "#", special)], Some(ident(" ", "b"))),
        (None, vec![operator(" ", ":", colon)], Some(ident(" ", "T"))),
        (
            Some(ident(" ", "a")),
            vec![operator(" ", "+", plain()), operator("", "-", plain())],
            Some(ident(" ", "b")),
        ),
        (Some(ident(" ", "a")), vec![], None),
        (Some(ident(" ", "a")), vec![], Some(ident(" ", "b"))),
    ];
    for (lhs, operators, rhs) in cases {
        let mut text = String::new();
        let mut sum = 0;
        if let Some(lhs) = &lhs {
            text.push_str(&lhs.code());
            sum += full(lhs);
        }
        for operator in &operators {
            text.push_str(&operator.left_offset.code);
            text.push_str(&operator.code);
            sum += operator.left_offset.code.chars().count() + operator.code.chars().count();
        }
        if let Some(rhs) = &rhs {
            text.push_str(&rhs.code());
            sum += full(rhs);
        }
        let tree = apply_operator(lhs, operators, rhs);
        assert!(tree.is_sound());
        assert_eq!(tree.code(), text);
        assert_eq!(full(&tree), sum);
    }
}
