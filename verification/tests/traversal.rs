use enso_parser::source::{Offset, Span, SpanItem};
use enso_parser::token;
use enso_parser::token::Token;
use enso_parser::tree::block::{body_from_lines, Line};
use enso_parser::tree::items::Item;
use enso_parser::tree::visit::{CodePrinterVisitor, ItemVisitor, Visitor};
use enso_parser::tree::{
    apply, apply_operator, apply_unary_operator, to_ast, try_apply, try_apply_operator,
    try_apply_unary_operator, try_to_ast, Case, CaseLine, MultipleOperatorError,
    NonEmptyOperatorSequence, OperatorOrError, Tree, Variant,
};

fn tok<T>(offset: &str, code: &str, variant: T) -> Token<T> {
    Token::new(Offset::new(offset.to_string()), code.to_string(), variant)
}

fn ident_kind() -> token::Ident {
    token::Ident {
        is_free: false,
        lift_level: 0,
        is_type: false,
        is_operator_lexically: false,
        is_default: false,
    }
}

fn ident(offset: &str, code: &str) -> Tree {
    Tree::ident(tok(offset, code, ident_kind()))
}

fn operator(offset: &str, code: &str) -> Token<token::Operator> {
    tok(offset, code, token::Operator { properties: token::OperatorProperties::new() })
}

fn item_text(item: &Item) -> String {
    match item {
        Item::Tree(tree) => tree.code(),
        Item::Token { left_offset, code } => format!("{}{}", left_offset.code, code),
    }
}

fn sum(a: &str, b: &str) -> Tree {
    apply_operator(Some(ident("", a)), vec![operator(" ", "+")], Some(ident(" ", b)))
}

#[test]
fn items_of_a_node_are_its_tokens_and_children_in_order() {
    let tree = sum("a", "b");
    let items = tree.visit_items();
    assert_eq!(items.len(), 3);
    assert!(matches!(items[0], Item::Tree(_)));
    assert!(matches!(items[1], Item::Token { .. }));
    assert!(matches!(items[2], Item::Tree(_)));
    let texts: Vec<String> = items.iter().map(item_text).collect();
    assert_eq!(texts, vec!["a", " +", " b"]);
}

#[test]
fn items_read_as_the_node_does() {
    let block = Tree::body_block(vec![
        Line { newline: tok("", "\n", token::Newline), expression: Some(sum("x", "y")) },
        Line { newline: tok(" ", "\n", token::Newline), expression: None },
        Line { newline: tok("", "\n", token::Newline), expression: Some(ident("  ", "z")) },
    ]);
    let items = block.visit_items();
    assert_eq!(items.len(), 5);
    let text: String = items.iter().map(item_text).collect();
    assert_eq!(text, block.trimmed_code());
    assert_eq!(text, "\nx + y \n\n  z");
}

#[test]
fn trees_inside_a_node_come_before_what_is_in_them() {
    let tree = apply(sum("a", "b"), ident(" ", "c"));
    let trees = tree.visit_trees();
    let codes: Vec<String> = trees.iter().map(|t| t.code()).collect();
    assert_eq!(codes, vec!["a + b", "a", " b", " c"]);
}

#[test]
fn a_leaf_holds_one_token_and_no_tree() {
    let leaf = ident(" ", "x");
    assert!(leaf.visit_trees().is_empty());
    let items = leaf.visit_items();
    assert_eq!(items.len(), 1);
    assert_eq!(item_text(&items[0]), "x");
}

#[test]
fn code_printer_visitor_reads_the_source_back() {
    let tree = apply(sum(" a", "b"), ident("  ", "c"));
    let mut visitor = CodePrinterVisitor::default();
    tree.visit_item(&mut visitor);
    assert_eq!(visitor.code, tree.code());
    let mut visitor = CodePrinterVisitor::default();
    tree.variant.visit_item(&mut visitor);
    assert_eq!(visitor.code, tree.trimmed_code());
}

struct Shallow {
    seen: Vec<String>,
}

impl Visitor for Shallow {}

impl ItemVisitor for Shallow {
    type State = ();

    fn visit_item(&mut self, item: Item<'_>) -> bool {
        self.seen.push(item_text(&item));
        false
    }
}

#[test]
fn visitor_decides_whether_to_walk_into_a_node() {
    let tree = apply(sum("a", "b"), ident(" ", "c"));
    let mut visitor = Shallow { seen: vec![] };
    tree.visit_item(&mut visitor);
    assert_eq!(visitor.seen, vec!["a + b c"]);
    let mut visitor = Shallow { seen: vec![] };
    tree.variant.visit_item(&mut visitor);
    assert_eq!(visitor.seen, vec!["a + b", " c"]);
}

#[test]
fn built_trees_are_sound_and_others_are_found_out() {
    let tree = apply(sum("a", "b"), ident(" ", "c"));
    assert!(tree.is_sound());
    assert_eq!(tree.checked_len(), Some(7));
    let wrong = Tree(
        Span { left_offset: Offset::new(" ".to_string()), code_length: 5 },
        Variant::Ident { token: tok("", "abc", ident_kind()) },
    );
    assert!(!wrong.is_sound());
    assert_eq!(wrong.checked_len(), None);
    let inside = apply(ident("", "f"), ident(" ", "x"));
    let broken = match *inside.variant {
        Variant::App { func, arg } => {
            let arg = Tree(
                Span { left_offset: arg.span.left_offset, code_length: 9 },
                *arg.variant,
            );
            Tree(inside.span, Variant::App { func, arg })
        }
        other => panic!("expected an application, got {:?}", other),
    };
    assert!(!broken.is_sound());
}

#[test]
fn checked_entry_points_refuse_trees_that_are_not_sound() {
    let wrong = || {
        Tree(
            Span { left_offset: Offset::empty(), code_length: 2 },
            Variant::Ident { token: tok("", "abc", ident_kind()) },
        )
    };
    assert_eq!(try_apply(wrong(), ident(" ", "x")), None);
    assert_eq!(try_apply(ident("", "f"), wrong()), None);
    assert_eq!(
        try_apply(ident("", "f"), ident(" ", "x")),
        Some(apply(ident("", "f"), ident(" ", "x")))
    );
    assert_eq!(try_apply_operator(Some(wrong()), vec![operator("", "+")], None), None);
    assert_eq!(try_apply_operator(None, vec![operator("", "+")], Some(wrong())), None);
    assert_eq!(
        try_apply_operator(Some(ident("", "a")), vec![operator(" ", "+")], Some(ident(" ", "b"))),
        Some(sum("a", "b"))
    );
    assert_eq!(try_apply_unary_operator(operator("", "-"), Some(wrong())), None);
    let negated = try_apply_unary_operator(operator("", "-"), Some(ident("", "x")));
    assert_eq!(negated.map(|t| t.code()), Some("-x".to_string()));
    let leaf = try_to_ast(tok(" ", "x", token::Variant::Ident(ident_kind())));
    assert_eq!(leaf.map(|t| t.code()), Some(" x".to_string()));
}

#[test]
fn first_operator_of_one_and_of_several() {
    let one: OperatorOrError = Ok(operator(" ", "+"));
    assert_eq!(one.first_operator(), &operator(" ", "+"));
    let mut several: OperatorOrError =
        Err(MultipleOperatorError { operators: vec![operator("", "-"), operator("", "*")] });
    assert_eq!(several.first_operator(), &operator("", "-"));
    several.first_operator_mut().left_offset = Offset::new("  ".to_string());
    assert_eq!(several.first_operator(), &operator("  ", "-"));
}

#[test]
fn whitespace_before_a_case_line() {
    let mut line = CaseLine {
        newline: Some(tok(" ", "\n", token::Newline)),
        case: Some(Case {
            documentation: None,
            pattern: Some(ident("  ", "x")),
            arrow: None,
            expression: None,
        }),
    };
    assert_eq!(line.left_offset().map(|o| o.code.clone()), Some(" ".to_string()));
    *line.left_offset_mut().expect("the line has a newline") = Offset::new("\t".to_string());
    assert_eq!(line.newline, Some(tok("\t", "\n", token::Newline)));
    let mut line = CaseLine {
        newline: None,
        case: Some(Case {
            documentation: None,
            pattern: None,
            arrow: Some(operator(" ", "->")),
            expression: Some(ident(" ", "y")),
        }),
    };
    assert_eq!(line.left_offset().map(|o| o.code.clone()), Some(" ".to_string()));
    line.left_offset_mut().expect("the case has an arrow").push(&Offset::new(" ".to_string()));
    assert_eq!(line.case.as_ref().and_then(|c| c.arrow.clone()), Some(operator("  ", "->")));
    let mut empty = CaseLine { newline: None, case: None };
    assert!(empty.left_offset().is_none());
    assert!(empty.left_offset_mut().is_none());
    let mut bare = Case { documentation: None, pattern: None, arrow: None, expression: None };
    assert!(bare.left_offset().is_none());
    assert!(bare.left_offset_mut().is_none());
}

fn check_covers(tree: &Tree, text: &str) {
    assert_eq!(tree.code(), text);
    assert!(tree.is_sound(), "the spans of {:?} do not cover its text", tree);
    assert_eq!(tree.checked_len(), Some(text.chars().count()));
    for inner in tree.visit_trees() {
        assert!(inner.is_sound());
        assert_eq!(
            inner.span.left_offset.len() + inner.span.code_length,
            inner.code().chars().count()
        );
    }
}

#[test]
fn every_tree_that_is_built_covers_its_text() {
    let mut joiner = token::OperatorProperties::new();
    joiner.is_token_joiner = true;
    let mut decimal = token::OperatorProperties::new();
    decimal.is_decimal = true;
    let mut assignment = token::OperatorProperties::new();
    assignment.is_assignment = true;
    let mut annotation = token::OperatorProperties::new();
    annotation.is_annotation = true;
    let mut strict = token::OperatorProperties::new();
    strict.can_form_section = false;
    let op = |offset: &str, code: &str, properties: token::OperatorProperties| {
        tok(offset, code, token::Operator { properties })
    };
    let digits = |offset: &str, code: &str| {
        to_ast(tok(offset, code, token::Variant::Digits(token::Digits { base: None })))
    };
    let block = |offset: &str| {
        Tree::argument_block_application(
            None,
            vec![
                Line {
                    newline: tok(offset, "\n", token::Newline),
                    expression: Some(ident("  ", "p")),
                },
                Line { newline: tok("", "\n", token::Newline), expression: None },
            ],
        )
    };

    check_covers(&apply(ident(" ", "f"), ident("  ", "x")), " f  x");
    check_covers(&apply(ident("", "f"), block(" ")), "f \n  p\n");
    check_covers(&sum("a", "b"), "a + b");
    check_covers(
        &apply(apply_operator(Some(ident("", "a")), vec![operator(" ", "->")], None), block("")),
        "a ->\n  p\n",
    );
    check_covers(
        &apply_operator(Some(ident("", "a")), vec![operator(" ", "=")], Some(block(" "))),
        "a = \n  p\n",
    );
    check_covers(
        &apply(
            ident("", "f"),
            apply_operator(
                Some(ident(" ", "x")),
                vec![op("", "=", assignment)],
                Some(digits("", "1")),
            ),
        ),
        "f x=1",
    );
    check_covers(
        &apply_operator(Some(digits(" ", "10")), vec![op("", ".", decimal)], Some(digits("", "5"))),
        " 10.5",
    );
    check_covers(
        &apply_operator(
            Some(to_ast(tok("", "2_", token::Variant::NumberBase(token::NumberBase)))),
            vec![op("", "", joiner)],
            Some(digits("", "101")),
        ),
        "2_101",
    );
    check_covers(&apply_operator(None, vec![op(" ", "->", strict)], None), " ->");
    check_covers(
        &apply_operator(Some(ident("", "a")), vec![operator(" ", "+"), operator("", "-")], None),
        "a +-",
    );
    check_covers(&apply_operator(Some(ident(" ", "a")), vec![], None), " a");
    let annotated = apply_unary_operator(op(" ", "@", annotation), Some(ident("", "doc")));
    check_covers(&annotated, " @doc");
    check_covers(&apply(annotated, ident(" ", "x")), " @doc x");
    check_covers(&apply_unary_operator(operator("", "-"), Some(sum("a", "b"))), "-a + b");
    check_covers(&to_ast(tok(" ", "(", token::Variant::OpenSymbol(token::OpenSymbol))), " (");
}

#[test]
fn lines_are_read_as_statements() {
    let tree = body_from_lines(vec![
        Line { newline: tok(" ", "\n", token::Newline), expression: Some(ident("", "a")) },
        Line { newline: tok("", "\n", token::Newline), expression: Some(ident("", "b")) },
    ]);
    assert_eq!(tree.code(), " \na\nb");
    assert_eq!(tree.span, Span { left_offset: Offset::new(" ".to_string()), code_length: 4 });
    assert!(matches!(*tree.variant, Variant::BodyBlock { .. }));
    let empty = body_from_lines(vec![]);
    assert_eq!(empty.span, Span::empty_without_offset());
    assert_eq!(empty.code(), "");
}

#[test]
fn node_around_parts_keeps_their_offsets() {
    let variant = Variant::App { func: ident(" ", "f"), arg: ident(" ", "x") };
    assert_eq!(variant.measure(), 4);
    let tree = Tree::around(Offset::new("\t".to_string()), variant);
    assert_eq!(tree.span, Span { left_offset: Offset::new("\t".to_string()), code_length: 4 });
    assert_eq!(tree.code(), "\t f x");
    assert!(tree.is_sound());
    match *tree.variant {
        Variant::App { func, arg: _ } => assert_eq!(func.span.left_offset.code, " "),
        other => panic!("expected an application, got {:?}", other),
    }
    assert_eq!(ident(" ", "abc").measure(), 4);
    assert_eq!(tok("  ", "ab", token::Newline).measure(), 4);
    assert_eq!(Some(ident("", "a")).measure(), 1);
    let nothing: Option<Tree> = None;
    assert_eq!(nothing.measure(), 0);
    assert_eq!(vec![ident(" ", "a"), ident(" ", "bc")].measure(), 5);
}
