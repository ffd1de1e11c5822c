use enso_parser::source::{Offset, Span};
use enso_parser::token;
use enso_parser::token::Token;
use enso_parser::tree::{to_ast, Error, TextElement, Tree, Variant};

fn tok<T>(offset: &str, code: &str, variant: T) -> Token<T> {
    Token::new(Offset::new(offset.to_string()), code.to_string(), variant)
}

fn ident_kind(is_type: bool) -> token::Ident {
    token::Ident {
        is_free: false,
        lift_level: 0,
        is_type,
        is_operator_lexically: false,
        is_default: false,
    }
}

fn span(offset: &str, code_length: usize) -> Span {
    Span { left_offset: Offset::new(offset.to_string()), code_length }
}

#[test]
fn identifier_becomes_ident_node() {
    let tree = to_ast(tok(" ", "foo", token::Variant::Ident(ident_kind(false))));
    assert_eq!(tree.span, span(" ", 3));
    assert_eq!(*tree.variant, Variant::Ident { token: tok("", "foo", ident_kind(false)) });
    assert_eq!(tree.code(), " foo");
    assert_eq!(tree.trimmed_code(), "foo");
}

#[test]
fn digits_become_number_with_integer_part() {
    let tree = to_ast(tok("", "10", token::Variant::Digits(token::Digits { base: None })));
    assert_eq!(tree.span, span("", 2));
    assert_eq!(
        *tree.variant,
        Variant::Number {
            base: None,
            integer: Some(tok("", "10", token::Digits { base: None })),
            fractional_digits: None,
        }
    );
}

#[test]
fn number_base_becomes_number_with_base_only() {
    let tree = to_ast(tok("  ", "16", token::Variant::NumberBase(token::NumberBase)));
    assert_eq!(tree.span, span("  ", 2));
    assert_eq!(
        *tree.variant,
        Variant::Number {
            base: Some(tok("", "16", token::NumberBase)),
            integer: None,
            fractional_digits: None,
        }
    );
}

#[test]
fn text_start_opens_a_literal() {
    let tree = to_ast(tok(" ", "'", token::Variant::TextStart(token::TextStart)));
    assert_eq!(tree.span, span(" ", 1));
    assert_eq!(
        *tree.variant,
        Variant::TextLiteral {
            open: Some(tok("", "'", token::TextStart)),
            newline: None,
            elements: vec![],
            close: None,
            closed: false,
        }
    );
}

#[test]
fn text_section_becomes_one_element() {
    let tree = to_ast(tok("", "abc", token::Variant::TextSection(token::TextSection)));
    assert_eq!(tree.span, span("", 3));
    assert_eq!(
        *tree.variant,
        Variant::TextLiteral {
            open: None,
            newline: None,
            elements: vec![TextElement::Section { text: tok("", "abc", token::TextSection) }],
            close: None,
            closed: false,
        }
    );
}

#[test]
fn text_escape_becomes_one_element() {
    let escape = token::TextEscape { value: Some(10) };
    let tree = to_ast(tok("", "\\n", token::Variant::TextEscape(escape)));
    assert_eq!(tree.span, span("", 2));
    assert_eq!(
        *tree.variant,
        Variant::TextLiteral {
            open: None,
            newline: None,
            elements: vec![TextElement::Escape { token: tok("", "\\n", escape) }],
            close: None,
            closed: false,
        }
    );
}

#[test]
fn text_end_closes_the_literal() {
    let tree = to_ast(tok("", "'", token::Variant::TextEnd(token::TextEnd)));
    assert_eq!(tree.span, span("", 1));
    assert_eq!(
        *tree.variant,
        Variant::TextLiteral {
            open: None,
            newline: None,
            elements: vec![],
            close: Some(tok("", "'", token::TextEnd)),
            closed: true,
        }
    );
}

#[test]
fn empty_text_end_gives_closed_literal_without_token() {
    let tree = to_ast(tok("", "", token::Variant::TextEnd(token::TextEnd)));
    assert_eq!(tree.span, span("", 0));
    assert_eq!(
        *tree.variant,
        Variant::TextLiteral {
            open: None,
            newline: None,
            elements: vec![],
            close: None,
            closed: true,
        }
    );
    assert_eq!(tree.code(), "");
    let tree = to_ast(tok(" \t", "", token::Variant::TextEnd(token::TextEnd)));
    assert_eq!(tree.span, span(" \t", 0));
    assert_eq!(
        *tree.variant,
        Variant::TextLiteral {
            open: None,
            newline: None,
            elements: vec![],
            close: None,
            closed: true,
        }
    );
    assert_eq!(tree.code(), " \t");
    assert!(tree.is_sound());
}

#[test]
fn initial_newline_of_a_text_goes_to_the_newline_slot() {
    let tree = to_ast(tok("", "\n", token::Variant::TextInitialNewline(token::TextInitialNewline)));
    assert_eq!(
        *tree.variant,
        Variant::TextLiteral {
            open: None,
            newline: Some(tok("", "\n", token::Newline)),
            elements: vec![],
            close: None,
            closed: false,
        }
    );
    assert_eq!(tree.span, span("", 1));
}

#[test]
fn newline_in_a_text_becomes_an_element() {
    let tree = to_ast(tok(" ", "\n", token::Variant::TextNewline(token::TextNewline)));
    assert_eq!(
        *tree.variant,
        Variant::TextLiteral {
            open: None,
            newline: None,
            elements: vec![TextElement::Newline { newline: tok("", "\n", token::Newline) }],
            close: None,
            closed: false,
        }
    );
    assert_eq!(tree.code(), " \n");
}

#[test]
fn wildcard_has_no_index_yet() {
    let wildcard = token::Wildcard { lift_level: 0 };
    let tree = to_ast(tok("", "_", token::Variant::Wildcard(wildcard)));
    assert_eq!(
        *tree.variant,
        Variant::Wildcard { token: tok("", "_", wildcard), de_bruijn_index: None }
    );
}

#[test]
fn suspended_default_arguments_marker() {
    let marker = token::SuspendedDefaultArguments;
    let tree = to_ast(tok(" ", "...", token::Variant::SuspendedDefaultArguments(marker)));
    assert_eq!(*tree.variant, Variant::SuspendedDefaultArguments { token: tok("", "...", marker) });
    assert_eq!(tree.span, span(" ", 3));
}

#[test]
fn lone_open_bracket_is_an_unmatched_delimiter() {
    let tree = to_ast(tok(" ", "(", token::Variant::OpenSymbol(token::OpenSymbol)));
    assert_eq!(tree.span, span(" ", 1));
    match *tree.variant {
        Variant::Invalid { error, ast } => {
            assert_eq!(error, Error::new("Unmatched delimiter"));
            assert_eq!(ast.span, span("", 1));
            assert_eq!(
                *ast.variant,
                Variant::Group {
                    open: Some(tok("", "(", token::OpenSymbol)),
                    body: None,
                    close: None,
                }
            );
        }
        other => panic!("expected an invalid node, got {:?}", other),
    }
}

#[test]
fn lone_close_bracket_is_an_unmatched_delimiter() {
    let tree = to_ast(tok("", ")", token::Variant::CloseSymbol(token::CloseSymbol)));
    match *tree.variant {
        Variant::Invalid { error, ast } => {
            assert_eq!(error.message, "Unmatched delimiter");
            assert_eq!(
                *ast.variant,
                Variant::Group {
                    open: None,
                    body: None,
                    close: Some(tok("", ")", token::CloseSymbol)),
                }
            );
        }
        other => panic!("expected an invalid node, got {:?}", other),
    }
}

#[test]
fn unexpected_tokens_become_placeholders_in_error() {
    let operator = token::Operator { properties: token::OperatorProperties::new() };
    let kinds = vec![
        token::Variant::Newline(token::Newline),
        token::Variant::BlockStart(token::BlockStart),
        token::Variant::BlockEnd(token::BlockEnd),
        token::Variant::Operator(operator),
        token::Variant::Private(token::Private),
        token::Variant::Invalid(token::Invalid),
    ];
    for kind in kinds {
        let tree = to_ast(tok(" ", "+", kind));
        assert_eq!(tree.code(), " +");
        match *tree.variant {
            Variant::Invalid { error, ast } => {
                assert_eq!(error.message, "Unexpected token: +");
                assert_eq!(*ast.variant, Variant::Ident { token: tok("", "+", ident_kind(false)) });
            }
            other => panic!("expected an invalid node, got {:?}", other),
        }
    }
}

#[test]
fn with_error_wraps_and_takes_the_offset() {
    let tree = Tree::ident(tok("  ", "x", ident_kind(false))).with_error("bad");
    assert_eq!(tree.span, span("  ", 1));
    match *tree.variant {
        Variant::Invalid { error, ast } => {
            assert_eq!(error.message, "bad");
            assert_eq!(ast.span, span("", 1));
        }
        other => panic!("expected an invalid node, got {:?}", other),
    }
}

#[test]
fn to_ast_keeps_the_text_of_every_kind_of_token() {
    let operator = token::Operator { properties: token::OperatorProperties::new() };
    let kinds = vec![
        token::Variant::Ident(ident_kind(true)),
        token::Variant::Digits(token::Digits { base: Some(token::Base::Hexadecimal) }),
        token::Variant::NumberBase(token::NumberBase),
        token::Variant::TextStart(token::TextStart),
        token::Variant::TextSection(token::TextSection),
        token::Variant::TextEscape(token::TextEscape { value: None }),
        token::Variant::TextEnd(token::TextEnd),
        token::Variant::TextInitialNewline(token::TextInitialNewline),
        token::Variant::TextNewline(token::TextNewline),
        token::Variant::Wildcard(token::Wildcard { lift_level: 1 }),
        token::Variant::SuspendedDefaultArguments(token::SuspendedDefaultArguments),
        token::Variant::OpenSymbol(token::OpenSymbol),
        token::Variant::CloseSymbol(token::CloseSymbol),
        token::Variant::Operator(operator),
        token::Variant::Newline(token::Newline),
    ];
    for kind in kinds {
        let tree = to_ast(tok(" \t", "xy", kind));
        assert_eq!(tree.code(), " \txy");
        assert_eq!(tree.trimmed_code(), "xy");
        assert_eq!(tree.span.left_offset.code, " \t");
        assert_eq!(tree.span.code_length, 2);
    }
}
