use enso_parser::source::{Offset, Span};
use enso_parser::token;
use enso_parser::token::Token;
use enso_parser::tree::block::Line;
use enso_parser::tree::{
    apply, apply_operator, join_text_literals, to_ast, ArgumentDefinition, TextElement, TextLiteral,
    Tree, Variant,
};

fn tok<T>(offset: &str, code: &str, variant: T) -> Token<T> {
    Token::new(Offset::new(offset.to_string()), code.to_string(), variant)
}

fn ident_kind() -> token::Ident {
    token::Ident {
        is_free: false,
        lift_level: 0,
        is_type: false,
        is_operator_lexically: false,
        is_default: false,
    }
}

fn ident(offset: &str, code: &str) -> Tree {
    Tree::ident(tok(offset, code, ident_kind()))
}

fn span(offset: &str, code_length: usize) -> Span {
    Span { left_offset: Offset::new(offset.to_string()), code_length }
}

fn operator(offset: &str, code: &str) -> Token<token::Operator> {
    tok(offset, code, token::Operator { properties: token::OperatorProperties::new() })
}

fn section(offset: &str, code: &str) -> TextElement {
    TextElement::Section { text: tok(offset, code, token::TextSection) }
}

#[test]
fn fragments_of_a_text_are_joined() {
    let mut lhs = TextLiteral {
        open: Some(tok("", "'", token::TextStart)),
        newline: None,
        elements: vec![section("", "ab")],
        close: None,
        closed: false,
    };
    let mut lhs_span = span(" ", 3);
    let mut rhs = TextLiteral {
        open: None,
        newline: None,
        elements: vec![section("", "cd"), section("", "e")],
        close: Some(tok("", "'", token::TextEnd)),
        closed: true,
    };
    let rhs_span = span("  ", 4);
    join_text_literals(&mut lhs, &mut rhs, &mut lhs_span, rhs_span);
    assert_eq!(lhs_span, span(" ", 9));
    assert_eq!(
        lhs,
        TextLiteral {
            open: Some(tok("", "'", token::TextStart)),
            newline: None,
            elements: vec![section("", "ab"), section("  ", "cd"), section("", "e")],
            close: Some(tok("", "'", token::TextEnd)),
            closed: true,
        }
    );
    assert_eq!(
        rhs,
        TextLiteral { open: None, newline: None, elements: vec![], close: None, closed: true }
    );
    let tree = Tree {
        span: lhs_span,
        variant: Box::new(Variant::TextLiteral {
            open: lhs.open,
            newline: lhs.newline,
            elements: lhs.elements,
            close: lhs.close,
            closed: lhs.closed,
        }),
    };
    assert_eq!(tree.code(), " 'ab  cde'");
}

#[test]
fn joining_takes_over_the_initial_newline() {
    let mut lhs = TextLiteral {
        open: Some(tok("", "'''", token::TextStart)),
        newline: None,
        elements: vec![],
        close: None,
        closed: false,
    };
    let mut lhs_span = span("", 3);
    let mut rhs = TextLiteral {
        open: None,
        newline: Some(tok("", "\n", token::Newline)),
        elements: vec![],
        close: None,
        closed: false,
    };
    join_text_literals(&mut lhs, &mut rhs, &mut lhs_span, span("", 1));
    assert_eq!(lhs_span, span("", 4));
    assert_eq!(lhs.newline, Some(tok("", "\n", token::Newline)));
    assert_eq!(rhs.newline, None);
    assert!(!lhs.closed);
}

#[test]
fn joining_an_empty_fragment_keeps_the_newline() {
    let mut lhs = TextLiteral {
        open: None,
        newline: Some(tok("", "\n", token::Newline)),
        elements: vec![section("", "a")],
        close: None,
        closed: false,
    };
    let mut lhs_span = span("", 2);
    let mut rhs =
        TextLiteral { open: None, newline: None, elements: vec![], close: None, closed: true };
    join_text_literals(&mut lhs, &mut rhs, &mut lhs_span, span("", 0));
    assert_eq!(lhs_span, span("", 2));
    assert_eq!(lhs.newline, Some(tok("", "\n", token::Newline)));
    assert_eq!(lhs.elements, vec![section("", "a")]);
    assert!(lhs.closed);
}

#[test]
fn joining_puts_the_whitespace_before_the_first_element() {
    let mut lhs = TextLiteral {
        open: Some(tok("", "'", token::TextStart)),
        newline: None,
        elements: vec![section("", "a")],
        close: None,
        closed: false,
    };
    let mut lhs_span = span("", 2);
    let mut rhs = TextLiteral {
        open: None,
        newline: None,
        elements: vec![section(" ", "b")],
        close: None,
        closed: false,
    };
    join_text_literals(&mut lhs, &mut rhs, &mut lhs_span, span("\t", 2));
    assert_eq!(lhs_span, span("", 5));
    assert_eq!(lhs.elements, vec![section("", "a"), section("\t ", "b")]);
    assert_eq!(lhs.close, None);
    let tree = Tree(
        lhs_span,
        Variant::TextLiteral {
            open: lhs.open,
            newline: lhs.newline,
            elements: lhs.elements,
            close: lhs.close,
            closed: lhs.closed,
        },
    );
    assert!(tree.is_sound());
    assert_eq!(tree.code(), "'a\t b");
}

#[test]
fn joining_the_end_of_a_text_keeps_the_whitespace_before_it() {
    let mut lhs = TextLiteral {
        open: Some(tok("", "'", token::TextStart)),
        newline: None,
        elements: vec![section("", "a")],
        close: None,
        closed: false,
    };
    let mut lhs_span = span(" ", 2);
    let end = to_ast(tok("  ", "'", token::Variant::TextEnd(token::TextEnd)));
    assert_eq!(end.span, span("  ", 1));
    let mut rhs = match *end.variant {
        Variant::TextLiteral { open, newline, elements, close, closed } => {
            TextLiteral { open, newline, elements, close, closed }
        }
        other => panic!("expected a text literal, got {:?}", other),
    };
    join_text_literals(&mut lhs, &mut rhs, &mut lhs_span, end.span);
    assert_eq!(lhs_span, span(" ", 5));
    assert_eq!(lhs.elements, vec![section("", "a")]);
    assert_eq!(lhs.close, Some(tok("  ", "'", token::TextEnd)));
    assert!(lhs.closed);
    assert_eq!(
        rhs,
        TextLiteral { open: None, newline: None, elements: vec![], close: None, closed: true }
    );
    let tree = Tree(
        lhs_span,
        Variant::TextLiteral {
            open: lhs.open,
            newline: lhs.newline,
            elements: lhs.elements,
            close: lhs.close,
            closed: lhs.closed,
        },
    );
    assert!(tree.is_sound());
    assert_eq!(tree.code(), " 'a  '");
}

#[test]
fn joining_an_initial_newline_keeps_the_whitespace_before_it() {
    let start = to_ast(tok(" ", "\"\"\"", token::Variant::TextStart(token::TextStart)));
    let mut lhs_span = start.span;
    let mut lhs = match *start.variant {
        Variant::TextLiteral { open, newline, elements, close, closed } => {
            TextLiteral { open, newline, elements, close, closed }
        }
        other => panic!("expected a text literal, got {:?}", other),
    };
    let fragment =
        to_ast(tok("  ", "\n", token::Variant::TextInitialNewline(token::TextInitialNewline)));
    assert_eq!(fragment.span, span("  ", 1));
    let mut rhs = match *fragment.variant {
        Variant::TextLiteral { open, newline, elements, close, closed } => {
            TextLiteral { open, newline, elements, close, closed }
        }
        other => panic!("expected a text literal, got {:?}", other),
    };
    join_text_literals(&mut lhs, &mut rhs, &mut lhs_span, fragment.span);
    assert_eq!(lhs_span, span(" ", 6));
    assert_eq!(lhs.newline, Some(tok("  ", "\n", token::Newline)));
    assert!(lhs.elements.is_empty());
    assert_eq!(lhs.close, None);
    assert!(!lhs.closed);
    let tokens = vec![
        tok("", "a", token::Variant::TextSection(token::TextSection)),
        tok(" ", "\\n", token::Variant::TextEscape(token::TextEscape { value: Some(10) })),
        tok("", "\n", token::Variant::TextNewline(token::TextNewline)),
        tok("\t", "\"\"\"", token::Variant::TextEnd(token::TextEnd)),
    ];
    for token in tokens {
        let fragment = to_ast(token);
        let mut rhs = match *fragment.variant {
            Variant::TextLiteral { open, newline, elements, close, closed } => {
                TextLiteral { open, newline, elements, close, closed }
            }
            other => panic!("expected a text literal, got {:?}", other),
        };
        join_text_literals(&mut lhs, &mut rhs, &mut lhs_span, fragment.span);
    }
    assert_eq!(lhs.elements.len(), 3);
    assert_eq!(lhs.close, Some(tok("\t", "\"\"\"", token::TextEnd)));
    assert!(lhs.closed);
    let tree = Tree(
        lhs_span,
        Variant::TextLiteral {
            open: lhs.open,
            newline: lhs.newline,
            elements: lhs.elements,
            close: lhs.close,
            closed: lhs.closed,
        },
    );
    assert!(tree.is_sound());
    assert_eq!(tree.code(), " \"\"\"  \na \\n\n\t\"\"\"");
}

#[test]
fn code_reads_the_source_back() {
    let source = "main =\n    x = 1\n    print x";
    let x_is_1 = apply_operator(
        Some(ident("    ", "x")),
        vec![operator(" ", "=")],
        Some(to_ast(tok(" ", "1", token::Variant::Digits(token::Digits { base: None })))),
    );
    let print_x = apply(ident("    ", "print"), ident(" ", "x"));
    let block = Tree::argument_block_application(
        None,
        vec![
            Line { newline: tok("", "\n", token::Newline), expression: Some(x_is_1) },
            Line { newline: tok("", "\n", token::Newline), expression: Some(print_x) },
        ],
    );
    let tree = apply_operator(Some(ident("", "main")), vec![operator(" ", "=")], Some(block));
    assert_eq!(tree.code(), source);
    assert_eq!(tree.trimmed_code(), source);
    assert_eq!(tree.span, span("", source.chars().count()));
}

#[test]
fn trimmed_code_leaves_out_the_leading_whitespace_only() {
    let tree = apply(ident("  ", "f"), ident("  ", "x"));
    assert_eq!(tree.code(), "  f  x");
    assert_eq!(tree.trimmed_code(), "f  x");
}

#[test]
fn code_counts_characters_not_bytes() {
    let tree = apply(ident(" ", "größe"), ident(" ", "λ"));
    assert_eq!(tree.code(), " größe λ");
    assert_eq!(tree.span, span(" ", 7));
}

#[test]
fn function_definition_reads_back() {
    let argument = |offset: &str, name: &str| ArgumentDefinition {
        open: None,
        open2: None,
        suspension: None,
        pattern: ident(offset, name),
        type_: None,
        close2: None,
        default: None,
        close: None,
    };
    let body = apply_operator(
        Some(ident(" ", "x")),
        vec![operator(" ", "+")],
        Some(ident(" ", "y")),
    );
    let tree = Tree::function(
        ident(" ", "add"),
        vec![argument(" ", "x"), argument(" ", "y")],
        None,
        operator(" ", "="),
        Some(body),
    );
    assert_eq!(tree.code(), " add x y = x + y");
    assert_eq!(tree.span, span(" ", 15));
    match *tree.variant {
        Variant::Function { name, args, returns_: _, equals: _, body: _ } => {
            assert_eq!(name.span, span("", 3));
            assert_eq!(args[0].pattern.span, span(" ", 1));
        }
        other => panic!("expected a function, got {:?}", other),
    }
}

#[test]
fn first_child_hands_its_offset_to_the_node() {
    let tree = Tree::group(
        Some(tok("   ", "(", token::OpenSymbol)),
        Some(ident(" ", "x")),
        Some(tok(" ", ")", token::CloseSymbol)),
    );
    assert_eq!(tree.span, span("   ", 5));
    match *tree.variant {
        Variant::Group { open, body, close } => {
            assert_eq!(open, Some(tok("", "(", token::OpenSymbol)));
            assert_eq!(body.map(|t| t.span), Some(span(" ", 1)));
            assert_eq!(close, Some(tok(" ", ")", token::CloseSymbol)));
        }
        other => panic!("expected a group, got {:?}", other),
    }
}

#[test]
fn empty_first_child_does_not_keep_the_offset_of_the_next() {
    let tree = Tree::body_block(vec![
        Line { newline: tok("", "", token::Newline), expression: Some(ident("  ", "a")) },
        Line { newline: tok(" ", "\n", token::Newline), expression: Some(ident("", "b")) },
    ]);
    assert_eq!(tree.code(), "  a \nb");
    assert_eq!(tree.span, span("  ", 4));
    match *tree.variant {
        Variant::BodyBlock { statements } => {
            assert_eq!(
                statements[0].expression.as_ref().map(|t| t.span.clone()),
                Some(span("", 1)),
            );
            assert_eq!(statements[1].newline.left_offset.code, " ");
        }
        other => panic!("expected a block, got {:?}", other),
    }
}

#[test]
fn offsets_and_spans() {
    let mut offset = Offset::new("  ".to_string());
    assert_eq!(offset.len(), 2);
    assert!(!offset.is_empty());
    let taken = offset.take_as_prefix();
    assert_eq!(taken.code, "  ");
    assert!(offset.is_empty());
    offset.push(&Offset::new("\t".to_string()));
    assert_eq!(offset.code, "\t");
    assert_eq!(taken.concat(&offset).code, "  \t");
    let empty = Span::empty_without_offset();
    assert!(empty.is_empty());
    assert!(empty.is_only_offset());
    let some = span(" ", 3);
    assert!(!some.is_empty());
    assert!(!some.is_only_offset());
    assert_eq!(some.length_including_whitespace(), 4);
    assert!(span(" ", 0).is_only_offset());
    assert!(!span(" ", 0).is_empty());
}
