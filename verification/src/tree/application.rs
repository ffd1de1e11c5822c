//! Application: two trees that stand next to each other become one. Mostly
//! that is an `App` node; some shapes of operand are taken in otherwise. No
//! rewrite loses text: an offset that leaves its place goes to the next thing
//! that the node holds.

use crate::source::{concat, lemma_concat_first, Offset, Piece, Span, SpanItem, SpanView};
use crate::token;
use crate::token::{token_sources, tokens_source, Token, TokenView};
use crate::tree::block::{Line, OperatorLine};
use crate::tree::model::{LineView, OperatorLineView, TreeView, VariantView};
use crate::tree::span::{lemma_around, lemma_build, lemma_build_len};
use crate::tree::{Tree, Variant};
use vstd::pervasive::unreached;
use vstd::prelude::*;

verus! {

impl LineView {
    /// The same line with `more` before the offset of its newline.
    pub open spec fn offset_prefixed(self, more: Seq<char>) -> LineView {
        LineView { newline: self.newline.offset_prefixed(more), expression: self.expression }
    }

    /// The same lines with `more` before the offset of the first of them.
    pub open spec fn first_prefixed(lines: Seq<LineView>, more: Seq<char>) -> Seq<LineView> {
        if lines.len() == 0 {
            lines
        } else {
            lines.update(0, lines[0].offset_prefixed(more))
        }
    }
}

impl OperatorLineView {
    /// The same line with `more` before the offset of its newline.
    pub open spec fn offset_prefixed(self, more: Seq<char>) -> OperatorLineView {
        OperatorLineView {
            newline: self.newline.offset_prefixed(more),
            expression: self.expression,
        }
    }

    /// The same lines with `more` before the offset of the first of them.
    pub open spec fn first_prefixed(lines: Seq<OperatorLineView>, more: Seq<char>) -> Seq<
        OperatorLineView,
    > {
        if lines.len() == 0 {
            lines
        } else {
            lines.update(0, lines[0].offset_prefixed(more))
        }
    }
}

/// What [`LineView::first_prefixed`] does to the text of the lines: where there
/// is a line, `more` stands before the text of the lines.
pub proof fn lemma_lines_prefixed(lines: Seq<LineView>, more: Seq<char>)
    requires
        LineView::all_valid(lines),
    ensures
        LineView::all_valid(LineView::first_prefixed(lines, more)),
        lines.len() == 0 ==> LineView::first_prefixed(lines, more) == lines,
        lines.len() > 0 ==> LineView::sources(LineView::first_prefixed(lines, more)) == more
            + LineView::sources(lines),
{
    if lines.len() > 0 {
        let after = LineView::first_prefixed(lines, more);
        let was = LineView::source_parts(lines);
        let now = LineView::source_parts(after);
        lemma_concat_first(was);
        lemma_concat_first(now);
        assert(now.drop_first() =~= was.drop_first());
        assert forall|i: int| 0 <= i < after.len() implies (#[trigger] after[i]).valid() by {
            assert(lines[i].valid());
        }
        assert(now[0] =~= more + was[0]);
        assert(now[0] + concat(now.drop_first()) =~= more + (was[0] + concat(was.drop_first())));
    }
}

/// What [`OperatorLineView::first_prefixed`] does to the text of the lines.
pub proof fn lemma_operator_lines_prefixed(lines: Seq<OperatorLineView>, more: Seq<char>)
    requires
        OperatorLineView::all_valid(lines),
    ensures
        OperatorLineView::all_valid(OperatorLineView::first_prefixed(lines, more)),
        lines.len() == 0 ==> OperatorLineView::first_prefixed(lines, more) == lines,
        lines.len() > 0 ==> OperatorLineView::sources(
            OperatorLineView::first_prefixed(lines, more),
        ) == more + OperatorLineView::sources(lines),
{
    if lines.len() > 0 {
        let after = OperatorLineView::first_prefixed(lines, more);
        let was = OperatorLineView::source_parts(lines);
        let now = OperatorLineView::source_parts(after);
        lemma_concat_first(was);
        lemma_concat_first(now);
        assert(now.drop_first() =~= was.drop_first());
        assert forall|i: int| 0 <= i < after.len() implies (#[trigger] after[i]).valid() by {
            assert(lines[i].valid());
        }
        assert(now[0] =~= more + was[0]);
        assert(now[0] + concat(now.drop_first()) =~= more + (was[0] + concat(was.drop_first())));
    }
}

impl TreeView {
    /// The same node without the whitespace before it.
    pub open spec fn without_offset(self) -> TreeView {
        TreeView {
            span: SpanView { left_offset: Seq::empty(), code_length: self.span.code_length },
            variant: self.variant,
        }
    }

    /// An argument block that no expression has taken yet.
    pub open spec fn is_free_argument_block(self) -> bool {
        match *self.variant {
            VariantView::ArgumentBlockApplication { lhs: None, arguments: _ } => true,
            _ => false,
        }
    }

    /// An operator block that no expression has taken yet.
    pub open spec fn is_free_operator_block(self) -> bool {
        match *self.variant {
            VariantView::OperatorBlockApplication { lhs: None, expressions: _, excess: _ } => true,
            _ => false,
        }
    }

    /// A block can take an expression before it where its own offset has a
    /// place to go: it has a line whose newline takes the offset, or it has no
    /// offset.
    pub open spec fn hands_over_offset(self) -> bool {
        self.span.left_offset.len() == 0 || match *self.variant {
            VariantView::ArgumentBlockApplication { lhs: _, arguments } => arguments.len() > 0,
            VariantView::OperatorBlockApplication { lhs: _, expressions, excess } => {
                expressions.len() > 0 || excess.len() > 0
            },
            _ => false,
        }
    }

    /// One operator with its left operand, still without the right one.
    pub open spec fn awaits_right_operand(self) -> bool {
        match *self.variant {
            VariantView::OprApp { lhs: Some(_), opr: Ok(_), rhs: None } => true,
            _ => false,
        }
    }

    /// An assignment to a bare identifier, like `x = 1`.
    pub open spec fn is_named_argument(self) -> bool {
        match *self.variant {
            VariantView::OprApp { lhs: Some(lhs), opr: Ok(opr), rhs: Some(_) } => {
                opr.variant.properties.is_assignment && (*lhs.variant is Ident)
            },
            _ => false,
        }
    }

    /// An assignment to a bare identifier in parentheses, like `(x = 1)`.
    pub open spec fn is_grouped_named_argument(self) -> bool {
        match *self.variant {
            VariantView::Group { open: Some(_), body: Some(body), close: Some(_) } => {
                body.is_named_argument()
            },
            _ => false,
        }
    }

    /// A free argument block read as a sequence of statements. The offset of the
    /// block goes to the newline of its first line, and from there to the node
    /// that is built; a block without a line keeps it as the offset of the node.
    pub open spec fn block_as_body(self) -> TreeView {
        match *self.variant {
            VariantView::ArgumentBlockApplication { lhs: _, arguments } => {
                if arguments.len() > 0 {
                    TreeView::build(
                        VariantView::BodyBlock {
                            statements: LineView::first_prefixed(arguments, self.span.left_offset),
                        },
                    )
                } else {
                    TreeView::around(
                        self.span.left_offset,
                        VariantView::BodyBlock { statements: arguments },
                    )
                }
            },
            _ => self,
        }
    }

    /// `self`, an operator that awaits its right operand, with the lines of
    /// `block` as that operand.
    pub open spec fn with_block_as_operand(self, block: TreeView) -> TreeView {
        match *self.variant {
            VariantView::OprApp { lhs, opr, rhs: _ } => TreeView::around(
                self.span.left_offset,
                VariantView::OprApp { lhs, opr, rhs: Some(block.block_as_body()) },
            ),
            _ => self,
        }
    }

    /// The free argument block `block` with `self` as the expression that its
    /// lines are the arguments of. The node takes the offset of `self`, and the
    /// offset of the block goes to the newline of its first line.
    pub open spec fn with_argument_block(self, block: TreeView) -> TreeView {
        match *block.variant {
            VariantView::ArgumentBlockApplication { lhs: _, arguments } => TreeView::around(
                self.span.left_offset,
                VariantView::ArgumentBlockApplication {
                    lhs: Some(self.without_offset()),
                    arguments: LineView::first_prefixed(arguments, block.span.left_offset),
                },
            ),
            _ => block,
        }
    }

    /// The free operator block `block` with `self` as the expression that its
    /// lines go on from. The offset of the block goes to the newline of its
    /// first line, which is the first of the lines in excess where there is no
    /// other.
    pub open spec fn with_operator_block(self, block: TreeView) -> TreeView {
        match *block.variant {
            VariantView::OperatorBlockApplication { lhs: _, expressions, excess } => {
                TreeView::around(
                    self.span.left_offset,
                    VariantView::OperatorBlockApplication {
                        lhs: Some(self.without_offset()),
                        expressions: OperatorLineView::first_prefixed(
                            expressions,
                            block.span.left_offset,
                        ),
                        excess: if expressions.len() > 0 {
                            excess
                        } else {
                            LineView::first_prefixed(excess, block.span.left_offset)
                        },
                    },
                )
            },
            _ => block,
        }
    }

    /// The name of a named argument: the identifier left of the `=`, with all
    /// the whitespace that stood before it, which is the offset of the
    /// argument, of the node of the identifier, and of the identifier itself.
    pub open spec fn argument_name(self) -> TokenView<token::Ident>
        recommends
            self.is_named_argument(),
    {
        match *self.variant {
            VariantView::OprApp { lhs: Some(lhs), opr: _, rhs: _ } => match *lhs.variant {
                VariantView::Ident { token } => token.offset_prefixed(
                    self.span.left_offset + lhs.span.left_offset,
                ),
                _ => arbitrary(),
            },
            _ => arbitrary(),
        }
    }

    /// The `=` of a named argument.
    pub open spec fn argument_equals(self) -> TokenView<token::Operator>
        recommends
            self.is_named_argument(),
    {
        match *self.variant {
            VariantView::OprApp { lhs: _, opr: Ok(opr), rhs: _ } => opr,
            _ => arbitrary(),
        }
    }

    /// The value of a named argument: what stands right of the `=`.
    pub open spec fn argument_value(self) -> TreeView
        recommends
            self.is_named_argument(),
    {
        match *self.variant {
            VariantView::OprApp { lhs: _, opr: _, rhs: Some(rhs) } => rhs,
            _ => arbitrary(),
        }
    }

    /// `self` applied to the named argument `arg`: the name is the identifier
    /// left of the `=`, which takes the whitespace that stood before it.
    pub open spec fn with_named_argument(self, arg: TreeView) -> TreeView
        recommends
            arg.is_named_argument(),
    {
        TreeView::build(
            VariantView::NamedApp {
                func: self,
                open: None,
                name: arg.argument_name(),
                equals: arg.argument_equals(),
                arg: arg.argument_value(),
                close: None,
            },
        )
    }

    /// `self` applied to the named argument in parentheses `arg`: the opening
    /// parenthesis takes the offset of `arg`, and the name the whitespace that
    /// stood between the parenthesis and it.
    pub open spec fn with_grouped_named_argument(self, arg: TreeView) -> TreeView
        recommends
            arg.is_grouped_named_argument(),
    {
        match *arg.variant {
            VariantView::Group { open: Some(open), body: Some(body), close: Some(close) } => {
                TreeView::build(
                    VariantView::NamedApp {
                        func: self,
                        open: Some(open.offset_prefixed(arg.span.left_offset)),
                        name: body.argument_name(),
                        equals: body.argument_equals(),
                        arg: body.argument_value(),
                        close: Some(close),
                    },
                )
            },
            _ => arg,
        }
    }

    /// `self` applied to `arg`, where `self` is no annotation. The first of
    /// these that fits decides: a free argument block becomes the right operand
    /// of an operator that awaits one, or else takes `self` as its expression; a
    /// free operator block takes `self` likewise; a named argument, bare or in
    /// parentheses, gives a `NamedApp`; anything else gives an `App`. A block
    /// takes `self` only where its offset has a place to go.
    pub open spec fn applied_plainly(self, arg: TreeView) -> TreeView {
        if arg.is_free_argument_block() && self.awaits_right_operand() {
            self.with_block_as_operand(arg)
        } else if arg.is_free_argument_block() && arg.hands_over_offset() {
            self.with_argument_block(arg)
        } else if arg.is_free_operator_block() && arg.hands_over_offset() {
            self.with_operator_block(arg)
        } else if arg.is_named_argument() {
            self.with_named_argument(arg)
        } else if arg.is_grouped_named_argument() {
            self.with_grouped_named_argument(arg)
        } else {
            TreeView::build(VariantView::App { func: self, arg })
        }
    }

    /// What an annotation holds in the slot that takes `arg`, after it has
    /// taken it: `arg`, or what was held applied to `arg`.
    pub open spec fn filled(held: Option<TreeView>, arg: TreeView) -> TreeView
        decreases held,
    {
        match held {
            Some(inner) => inner.applied(arg),
            None => arg,
        }
    }

    /// `self` applied to `arg`. An annotation takes `arg` as its argument, and a
    /// built-in annotation as its expression; where the slot is occupied, what
    /// it holds is applied to `arg`. Everything else is applied plainly.
    pub open spec fn applied(self, arg: TreeView) -> TreeView
        decreases self,
    {
        match *self.variant {
            VariantView::Annotated { token, annotation, argument, newlines, expression } => {
                TreeView::around(
                    self.span.left_offset,
                    VariantView::Annotated {
                        token,
                        annotation,
                        argument: Some(TreeView::filled(argument, arg)),
                        newlines,
                        expression,
                    },
                )
            },
            VariantView::AnnotatedBuiltin { token, annotation, newlines, expression } => {
                TreeView::around(
                    self.span.left_offset,
                    VariantView::AnnotatedBuiltin {
                        token,
                        annotation,
                        newlines,
                        expression: Some(TreeView::filled(expression, arg)),
                    },
                )
            },
            _ => self.applied_plainly(arg),
        }
    }

    /// The text that an annotation holds behind its argument: its newlines and
    /// its expression.
    pub open spec fn annotation_tail(self) -> Seq<char> {
        match *self.variant {
            VariantView::Annotated {
                token: _,
                annotation: _,
                argument: _,
                newlines,
                expression,
            } => {
                tokens_source(newlines) + (match expression {
                    Some(x) => x.source(),
                    None => Seq::empty(),
                })
            },
            _ => Seq::empty(),
        }
    }

    /// Applying `self` to `arg` keeps the text in its order. It does unless an
    /// annotation is in the way that holds text behind the place of its
    /// argument: the argument stands before that text, so the two must read the
    /// same in either order, which they do where the annotation holds no such
    /// text.
    pub open spec fn applies_in_order(self, arg: TreeView) -> bool
        decreases self,
    {
        match *self.variant {
            VariantView::Annotated {
                token: _,
                annotation: _,
                argument,
                newlines: _,
                expression: _,
            } => {
                &&& self.annotation_tail() + arg.source() == arg.source() + self.annotation_tail()
                &&& match argument {
                    Some(held) => held.applies_in_order(arg),
                    None => true,
                }
            },
            VariantView::AnnotatedBuiltin {
                token: _,
                annotation: _,
                newlines: _,
                expression,
            } => match expression {
                Some(inner) => inner.applies_in_order(arg),
                None => true,
            },
            _ => true,
        }
    }

    /// Nothing in `self` stands behind the place where it takes an argument:
    /// an annotation holds no newlines and no expression yet, and what it holds
    /// as its argument, or a built-in annotation as its expression, is such a
    /// tree again. So is every tree that is no annotation.
    pub open spec fn ends_with_argument(self) -> bool
        decreases self,
    {
        match *self.variant {
            VariantView::Annotated { token: _, annotation: _, argument, newlines, expression } => {
                &&& newlines.len() == 0
                &&& expression is None
                &&& match argument {
                    Some(held) => held.ends_with_argument(),
                    None => true,
                }
            },
            VariantView::AnnotatedBuiltin {
                token: _,
                annotation: _,
                newlines: _,
                expression,
            } => match expression {
                Some(inner) => inner.ends_with_argument(),
                None => true,
            },
            _ => true,
        }
    }
}

/// The span of a sound tree is as long as its text.
pub proof fn lemma_length(tree: TreeView)
    requires
        tree.valid(),
    ensures
        tree.span.full_len() == tree.source().len(),
{
}

/// A free argument block that is read as statements stays sound and keeps its
/// text.
pub proof fn lemma_block_as_body(block: TreeView)
    requires
        block.valid(),
        block.is_free_argument_block(),
    ensures
        block.block_as_body().valid(),
        block.block_as_body().source() == block.source(),
        block.block_as_body().span.full_len() == block.span.full_len(),
{
    match *block.variant {
        VariantView::ArgumentBlockApplication { lhs, arguments } => {
            let more = block.span.left_offset;
            lemma_lines_prefixed(arguments, more);
            assert((*block.variant).source() =~= LineView::sources(arguments));
            if arguments.len() > 0 {
                let statements = LineView::first_prefixed(arguments, more);
                lemma_build(VariantView::BodyBlock { statements });
            } else {
                lemma_around(more, VariantView::BodyBlock { statements: arguments });
            }
            lemma_length(block.block_as_body());
        },
        _ => {},
    }
}

/// An operator that takes a block as its right operand stays sound and keeps
/// the text.
pub proof fn lemma_with_block_as_operand(func: TreeView, block: TreeView)
    requires
        func.valid(),
        block.valid(),
        func.awaits_right_operand(),
        block.is_free_argument_block(),
    ensures
        func.with_block_as_operand(block).valid(),
        func.with_block_as_operand(block).source() == func.source() + block.source(),
{
    lemma_block_as_body(block);
    let body = block.block_as_body();
    match *func.variant {
        VariantView::OprApp { lhs, opr, rhs } => {
            let node = VariantView::OprApp { lhs, opr, rhs: Some(body) };
            assert(node.valid());
            lemma_around(func.span.left_offset, node);
            assert(func.span.left_offset + node.source() =~= func.source() + block.source());
        },
        _ => {},
    }
}

/// An argument block that takes an expression stays sound and keeps the text.
pub proof fn lemma_with_argument_block(func: TreeView, block: TreeView)
    requires
        func.valid(),
        block.valid(),
        block.is_free_argument_block(),
        block.hands_over_offset(),
    ensures
        func.with_argument_block(block).valid(),
        func.with_argument_block(block).source() == func.source() + block.source(),
{
    match *block.variant {
        VariantView::ArgumentBlockApplication { lhs: _, arguments } => {
            let more = block.span.left_offset;
            lemma_lines_prefixed(arguments, more);
            let bare = func.without_offset();
            assert(bare.valid());
            assert(bare.source() =~= (*func.variant).source());
            let lines = LineView::first_prefixed(arguments, more);
            let node = VariantView::ArgumentBlockApplication { lhs: Some(bare), arguments: lines };
            assert(node.valid());
            lemma_around(func.span.left_offset, node);
            if arguments.len() == 0 {
                assert(more =~= Seq::<char>::empty());
            }
            assert(LineView::sources(lines) =~= block.source());
            assert(node.source() =~= (*func.variant).source() + block.source());
            assert(func.span.left_offset + node.source() =~= func.source() + block.source());
        },
        _ => {},
    }
}

/// An operator block that takes an expression stays sound and keeps the text.
pub proof fn lemma_with_operator_block(func: TreeView, block: TreeView)
    requires
        func.valid(),
        block.valid(),
        block.is_free_operator_block(),
        block.hands_over_offset(),
    ensures
        func.with_operator_block(block).valid(),
        func.with_operator_block(block).source() == func.source() + block.source(),
{
    match *block.variant {
        VariantView::OperatorBlockApplication { lhs: _, expressions, excess } => {
            let more = block.span.left_offset;
            lemma_operator_lines_prefixed(expressions, more);
            lemma_lines_prefixed(excess, more);
            let bare = func.without_offset();
            assert(bare.valid());
            assert(bare.source() =~= (*func.variant).source());
            let lines = OperatorLineView::first_prefixed(expressions, more);
            let rest = if expressions.len() > 0 {
                excess
            } else {
                LineView::first_prefixed(excess, more)
            };
            let node = VariantView::OperatorBlockApplication {
                lhs: Some(bare),
                expressions: lines,
                excess: rest,
            };
            assert(node.valid());
            lemma_around(func.span.left_offset, node);
            if expressions.len() == 0 {
                assert(OperatorLineView::source_parts(expressions) =~= Seq::<Seq<char>>::empty());
                assert(OperatorLineView::sources(expressions) =~= Seq::<char>::empty());
                if excess.len() == 0 {
                    assert(more =~= Seq::<char>::empty());
                }
            }
            assert(OperatorLineView::sources(lines) + LineView::sources(rest) =~= block.source());
            assert(node.source() =~= (*func.variant).source() + block.source());
            assert(func.span.left_offset + node.source() =~= func.source() + block.source());
        },
        _ => {},
    }
}

/// The parts of a sound named argument: its value is sound, and the argument
/// reads as its name, its `=` and its value.
pub proof fn lemma_named_argument(arg: TreeView)
    requires
        arg.valid(),
        arg.is_named_argument(),
    ensures
        arg.argument_value().valid(),
        arg.source() == arg.argument_name().source() + arg.argument_equals().source()
            + arg.argument_value().source(),
{
    match *arg.variant {
        VariantView::OprApp { lhs: Some(lhs), opr: Ok(opr), rhs: Some(rhs) } => {
            match *lhs.variant {
                VariantView::Ident { token } => {
                    let name = arg.argument_name();
                    assert(rhs.valid());
                    assert(name.source() =~= arg.span.left_offset + lhs.source());
                    assert(arg.source() =~= name.source() + opr.source() + rhs.source());
                },
                _ => {},
            }
        },
        _ => {},
    }
}

/// An application to a named argument is sound and keeps the text.
pub proof fn lemma_with_named_argument(func: TreeView, arg: TreeView)
    requires
        func.valid(),
        arg.valid(),
        arg.is_named_argument(),
    ensures
        func.with_named_argument(arg).valid(),
        func.with_named_argument(arg).source() == func.source() + arg.source(),
{
    lemma_named_argument(arg);
    let node = VariantView::NamedApp {
        func,
        open: None,
        name: arg.argument_name(),
        equals: arg.argument_equals(),
        arg: arg.argument_value(),
        close: None,
    };
    assert(node.valid());
    lemma_build(node);
    assert(node.source() =~= func.source() + arg.source());
}

/// An application to a named argument in parentheses is sound and keeps the
/// text.
pub proof fn lemma_with_grouped_named_argument(func: TreeView, arg: TreeView)
    requires
        func.valid(),
        arg.valid(),
        arg.is_grouped_named_argument(),
    ensures
        func.with_grouped_named_argument(arg).valid(),
        func.with_grouped_named_argument(arg).source() == func.source() + arg.source(),
{
    match *arg.variant {
        VariantView::Group { open: Some(open), body: Some(body), close: Some(close) } => {
            assert(body.valid());
            lemma_named_argument(body);
            let paren = open.offset_prefixed(arg.span.left_offset);
            let node = VariantView::NamedApp {
                func,
                open: Some(paren),
                name: body.argument_name(),
                equals: body.argument_equals(),
                arg: body.argument_value(),
                close: Some(close),
            };
            assert(node.valid());
            lemma_build(node);
            assert(paren.source() =~= arg.span.left_offset + open.source());
            assert(arg.source() =~= paren.source() + body.source() + close.source());
            assert(node.source() =~= func.source() + arg.source());
        },
        _ => {},
    }
}

/// Applying a sound tree plainly to another gives a sound tree that reads as
/// the two do, one after the other, and is as long as the two together.
pub proof fn lemma_applied_plainly(func: TreeView, arg: TreeView)
    requires
        func.valid(),
        arg.valid(),
    ensures
        func.applied_plainly(arg).valid(),
        func.applied_plainly(arg).source() == func.source() + arg.source(),
        func.applied_plainly(arg).span.full_len() == func.span.full_len() + arg.span.full_len(),
{
    if arg.is_free_argument_block() && func.awaits_right_operand() {
        lemma_with_block_as_operand(func, arg);
    } else if arg.is_free_argument_block() && arg.hands_over_offset() {
        lemma_with_argument_block(func, arg);
    } else if arg.is_free_operator_block() && arg.hands_over_offset() {
        lemma_with_operator_block(func, arg);
    } else if arg.is_named_argument() {
        lemma_with_named_argument(func, arg);
    } else if arg.is_grouped_named_argument() {
        lemma_with_grouped_named_argument(func, arg);
    } else {
        lemma_build(VariantView::App { func, arg });
    }
    lemma_length(func.applied_plainly(arg));
}

/// An annotation that takes `inner` in the place of the argument that it holds
/// stays sound, and grows by what `inner` is longer than that argument.
pub proof fn lemma_annotation_filled(func: TreeView, inner: TreeView)
    requires
        func.valid(),
        inner.valid(),
        (*func.variant is Annotated),
    ensures
        (*func.variant matches VariantView::Annotated {
            token,
            annotation,
            argument,
            newlines,
            expression,
        } ==> {
            let node = VariantView::Annotated {
                token,
                annotation,
                argument: Some(inner),
                newlines,
                expression,
            };
            &&& TreeView::around(func.span.left_offset, node).valid()
            &&& TreeView::around(func.span.left_offset, node).span.full_len() + (match argument {
                Some(e) => e.span.full_len(),
                None => 0,
            }) == func.span.full_len() + inner.span.full_len()
        }),
{
    match *func.variant {
        VariantView::Annotated { token, annotation, argument, newlines, expression } => {
            let node = VariantView::Annotated {
                token,
                annotation,
                argument: Some(inner),
                newlines,
                expression,
            };
            assert(node.valid());
            lemma_around(func.span.left_offset, node);
            assert(inner.source().len() == inner.span.full_len());
            match argument {
                Some(e) => {
                    assert(e.valid());
                    assert(e.source().len() == e.span.full_len());
                    assert(node.source().len() + e.source().len() == (*func.variant).source().len()
                        + inner.source().len());
                },
                None => {
                    assert(node.source().len() == (*func.variant).source().len()
                        + inner.source().len());
                },
            }
        },
        _ => {},
    }
}

/// A built-in annotation that takes `inner` as its expression stays sound where
/// `inner` is sound, and grows by what `inner` is longer than the expression
/// that it held.
pub proof fn lemma_builtin_annotation_filled(func: TreeView, inner: TreeView)
    requires
        func.valid(),
        inner.valid(),
        (*func.variant is AnnotatedBuiltin),
    ensures
        (*func.variant matches VariantView::AnnotatedBuiltin {
            token,
            annotation,
            newlines,
            expression,
        } ==> {
            let node = VariantView::AnnotatedBuiltin {
                token,
                annotation,
                newlines,
                expression: Some(inner),
            };
            &&& TreeView::around(func.span.left_offset, node).valid()
            &&& TreeView::around(func.span.left_offset, node).span.full_len() + (match expression {
                Some(e) => e.span.full_len(),
                None => 0,
            }) == func.span.full_len() + inner.span.full_len()
        }),
{
    match *func.variant {
        VariantView::AnnotatedBuiltin { token, annotation, newlines, expression } => {
            let node = VariantView::AnnotatedBuiltin {
                token,
                annotation,
                newlines,
                expression: Some(inner),
            };
            assert(node.valid());
            lemma_around(func.span.left_offset, node);
            assert(inner.source().len() == inner.span.full_len());
            match expression {
                Some(e) => {
                    assert(e.valid());
                    assert(e.source().len() == e.span.full_len());
                    assert(node.source().len() + e.source().len() == (*func.variant).source().len()
                        + inner.source().len());
                },
                None => {
                    assert(node.source().len() == (*func.variant).source().len()
                        + inner.source().len());
                },
            }
        },
        _ => {},
    }
}

/// Applying a sound tree to a sound tree gives a sound tree, which is as long
/// as the two together: no text is lost.
pub proof fn lemma_applied(func: TreeView, arg: TreeView)
    requires
        func.valid(),
        arg.valid(),
    ensures
        func.applied(arg).valid(),
        func.applied(arg).span.full_len() == func.span.full_len() + arg.span.full_len(),
    decreases func,
{
    match *func.variant {
        VariantView::Annotated { token, annotation, argument, newlines, expression } => {
            match argument {
                Some(held) => {
                    assert(held.valid());
                    lemma_applied(held, arg);
                },
                None => {},
            }
            lemma_annotation_filled(func, TreeView::filled(argument, arg));
        },
        VariantView::AnnotatedBuiltin { token, annotation, newlines, expression } => {
            match expression {
                Some(held) => {
                    assert(held.valid());
                    lemma_applied(held, arg);
                },
                None => {},
            }
            lemma_builtin_annotation_filled(func, TreeView::filled(expression, arg));
        },
        _ => lemma_applied_plainly(func, arg),
    }
}

/// An annotation that takes `inner` in the place of its argument reads as
/// before, with `more` behind it, where `inner` reads as the argument with
/// `more` behind it, and `more` and the text behind the argument read the same
/// in either order.
pub proof fn lemma_annotation_filled_text(func: TreeView, inner: TreeView, more: Seq<char>)
    requires
        func.valid(),
        inner.valid(),
        (*func.variant is Annotated),
        func.annotation_tail() + more == more + func.annotation_tail(),
        (*func.variant matches VariantView::Annotated { argument, .. } ==> inner.source()
            == (match argument {
            Some(e) => e.source(),
            None => Seq::empty(),
        }) + more),
    ensures
        (*func.variant matches VariantView::Annotated {
            token,
            annotation,
            argument,
            newlines,
            expression,
        } ==> TreeView::around(
            func.span.left_offset,
            VariantView::Annotated {
                token,
                annotation,
                argument: Some(inner),
                newlines,
                expression,
            },
        ).source() == func.source() + more),
{
    match *func.variant {
        VariantView::Annotated { token, annotation, argument, newlines, expression } => {
            let node = VariantView::Annotated {
                token,
                annotation,
                argument: Some(inner),
                newlines,
                expression,
            };
            assert(node.valid());
            lemma_around(func.span.left_offset, node);
            let tail = func.annotation_tail();
            let held = match argument {
                Some(e) => e.source(),
                None => Seq::empty(),
            };
            let front = token.source() + annotation.source() + held;
            let offset = func.span.left_offset;
            assert(node.source() =~= front + (more + tail));
            assert(node.source() == front + (tail + more));
            assert(front + (tail + more) =~= (front + tail) + more);
            assert((*func.variant).source() =~= front + tail);
            assert(offset + ((front + tail) + more) =~= (offset + (front + tail)) + more);
        },
        _ => {},
    }
}

/// A built-in annotation that takes `inner` in the place of the expression that
/// it holds reads as before, with `more` behind it, where `inner` reads as that
/// expression with `more` behind it.
pub proof fn lemma_builtin_annotation_filled_text(func: TreeView, inner: TreeView, more: Seq<char>)
    requires
        func.valid(),
        inner.valid(),
        (*func.variant is AnnotatedBuiltin),
        (*func.variant matches VariantView::AnnotatedBuiltin { expression, .. } ==> inner.source()
            == (match expression {
            Some(e) => e.source(),
            None => Seq::empty(),
        }) + more),
    ensures
        (*func.variant matches VariantView::AnnotatedBuiltin {
            token,
            annotation,
            newlines,
            expression,
        } ==> TreeView::around(
            func.span.left_offset,
            VariantView::AnnotatedBuiltin { token, annotation, newlines, expression: Some(inner) },
        ).source() == func.source() + more),
{
    match *func.variant {
        VariantView::AnnotatedBuiltin { token, annotation, newlines, expression } => {
            let node = VariantView::AnnotatedBuiltin {
                token,
                annotation,
                newlines,
                expression: Some(inner),
            };
            assert(node.valid());
            lemma_around(func.span.left_offset, node);
            assert(func.span.left_offset + node.source() =~= func.source() + more);
        },
        _ => {},
    }
}

/// Application keeps the text: the result reads as the first tree and then the
/// second. That holds of all sound trees but of an annotation that holds text
/// behind the place of its argument, before which the argument comes to stand.
pub proof fn lemma_applied_text(func: TreeView, arg: TreeView)
    requires
        func.valid(),
        arg.valid(),
        func.applies_in_order(arg),
    ensures
        func.applied(arg).source() == func.source() + arg.source(),
    decreases func,
{
    lemma_applied(func, arg);
    match *func.variant {
        VariantView::Annotated { token, annotation, argument, newlines, expression } => {
            match argument {
                Some(held) => {
                    assert(held.valid());
                    lemma_applied(held, arg);
                    lemma_applied_text(held, arg);
                },
                None => {
                    assert(arg.source() =~= Seq::<char>::empty() + arg.source());
                },
            }
            lemma_annotation_filled_text(func, TreeView::filled(argument, arg), arg.source());
        },
        VariantView::AnnotatedBuiltin { token, annotation, newlines, expression } => {
            match expression {
                Some(held) => {
                    assert(held.valid());
                    lemma_applied(held, arg);
                    lemma_applied_text(held, arg);
                },
                None => {
                    assert(arg.source() =~= Seq::<char>::empty() + arg.source());
                },
            }
            lemma_builtin_annotation_filled_text(
                func,
                TreeView::filled(expression, arg),
                arg.source(),
            );
        },
        _ => lemma_applied_plainly(func, arg),
    }
}

/// A tree in which nothing stands behind the place of its argument keeps the
/// text in its order, whatever it is applied to.
pub proof fn lemma_ends_with_argument(func: TreeView, arg: TreeView)
    requires
        func.ends_with_argument(),
    ensures
        func.applies_in_order(arg),
    decreases func,
{
    match *func.variant {
        VariantView::Annotated { token, annotation, argument, newlines, expression } => {
            assert(tokens_source(newlines) =~= Seq::<char>::empty()) by {
                assert(token_sources(newlines) =~= Seq::<Seq<char>>::empty());
            }
            assert(func.annotation_tail() =~= Seq::<char>::empty());
            assert(func.annotation_tail() + arg.source() =~= arg.source() + func.annotation_tail());
            match argument {
                Some(held) => lemma_ends_with_argument(held, arg),
                None => {},
            }
        },
        VariantView::AnnotatedBuiltin { token, annotation, newlines, expression } => {
            match expression {
                Some(inner) => lemma_ends_with_argument(inner, arg),
                None => {},
            }
        },
        _ => {},
    }
}

/// Application gives no tree in which anything stands behind the place of its
/// argument, unless one of the two is such a tree.
pub proof fn lemma_applied_ends_with_argument(func: TreeView, arg: TreeView)
    requires
        func.ends_with_argument(),
        arg.ends_with_argument(),
    ensures
        func.applied(arg).ends_with_argument(),
    decreases func,
{
    match *func.variant {
        VariantView::Annotated { token, annotation, argument, newlines, expression } => {
            match argument {
                Some(held) => lemma_applied_ends_with_argument(held, arg),
                None => {},
            }
        },
        VariantView::AnnotatedBuiltin { token, annotation, newlines, expression } => {
            match expression {
                Some(inner) => lemma_applied_ends_with_argument(inner, arg),
                None => {},
            }
        },
        _ => {},
    }
}

/// The same lines with the text of `more` before the offset of the first of them.
fn first_line_prefixed(lines: Vec<Line>, more: &Offset) -> (r: Vec<Line>)
    ensures
        Line::views(r@) == LineView::first_prefixed(Line::views(lines@), more@),
{
    let ghost was = Line::views(lines@);
    let mut lines = lines;
    if lines.len() > 0 {
        let Line { newline, expression } = lines.remove(0);
        let first = Line { newline: newline.offset_prefixed(more), expression };
        lines.insert(0, first);
    }
    assert(Line::views(lines@) =~= LineView::first_prefixed(was, more@));
    lines
}

/// The same lines with the text of `more` before the offset of the first of them.
fn first_operator_line_prefixed(lines: Vec<OperatorLine>, more: &Offset) -> (r: Vec<OperatorLine>)
    ensures
        OperatorLine::views(r@) == OperatorLineView::first_prefixed(
            OperatorLine::views(lines@),
            more@,
        ),
{
    let ghost was = OperatorLine::views(lines@);
    let mut lines = lines;
    if lines.len() > 0 {
        let OperatorLine { newline, expression } = lines.remove(0);
        let first = OperatorLine { newline: newline.offset_prefixed(more), expression };
        lines.insert(0, first);
    }
    assert(OperatorLine::views(lines@) =~= OperatorLineView::first_prefixed(was, more@));
    lines
}

impl Tree {
    /// Whether [`TreeView::is_free_argument_block`] holds of the node.
    pub fn is_free_argument_block(&self) -> (b: bool)
        ensures
            b == self@.is_free_argument_block(),
    {
        match &*self.variant {
            Variant::ArgumentBlockApplication { lhs: None, arguments: _ } => true,
            _ => false,
        }
    }

    /// Whether [`TreeView::is_free_operator_block`] holds of the node.
    pub fn is_free_operator_block(&self) -> (b: bool)
        ensures
            b == self@.is_free_operator_block(),
    {
        match &*self.variant {
            Variant::OperatorBlockApplication { lhs: None, expressions: _, excess: _ } => true,
            _ => false,
        }
    }

    /// Whether [`TreeView::hands_over_offset`] holds of the node.
    pub fn hands_over_offset(&self) -> (b: bool)
        ensures
            b == self@.hands_over_offset(),
    {
        if self.span.left_offset.is_empty() {
            return true;
        }
        match &*self.variant {
            Variant::ArgumentBlockApplication { lhs: _, arguments } => {
                assert(Line::views(arguments@).len() == arguments@.len());
                arguments.len() > 0
            },
            Variant::OperatorBlockApplication { lhs: _, expressions, excess } => {
                assert(OperatorLine::views(expressions@).len() == expressions@.len());
                assert(Line::views(excess@).len() == excess@.len());
                expressions.len() > 0 || excess.len() > 0
            },
            _ => false,
        }
    }

    /// Whether [`TreeView::awaits_right_operand`] holds of the node.
    pub fn awaits_right_operand(&self) -> (b: bool)
        ensures
            b == self@.awaits_right_operand(),
    {
        match &*self.variant {
            Variant::OprApp { lhs: Some(_), opr: Ok(_), rhs: None } => true,
            _ => false,
        }
    }

    /// Whether the node is an identifier.
    pub fn is_ident(&self) -> (b: bool)
        ensures
            b == (*self@.variant is Ident),
    {
        match &*self.variant {
            Variant::Ident { token: _ } => true,
            _ => false,
        }
    }

    /// Whether [`TreeView::is_named_argument`] holds of the node.
    pub fn is_named_argument(&self) -> (b: bool)
        ensures
            b == self@.is_named_argument(),
    {
        match &*self.variant {
            Variant::OprApp { lhs: Some(lhs), opr: Ok(opr), rhs: Some(_) } => {
                opr.variant.properties.is_assignment && lhs.is_ident()
            },
            _ => false,
        }
    }

    /// Whether [`TreeView::is_grouped_named_argument`] holds of the node.
    pub fn is_grouped_named_argument(&self) -> (b: bool)
        ensures
            b == self@.is_grouped_named_argument(),
    {
        match &*self.variant {
            Variant::Group { open: Some(_), body: Some(body), close: Some(_) } => {
                body.is_named_argument()
            },
            _ => false,
        }
    }
}

/// A free argument block read as a sequence of statements.
pub fn block_as_body(block: Tree) -> (r: Tree)
    requires
        block@.valid(),
        block@.is_free_argument_block(),
        block@.span.full_len() <= usize::MAX,
    ensures
        r@ == block@.block_as_body(),
{
    proof {
        lemma_block_as_body(block@);
    }
    let Tree { span, variant } = block;
    match *variant {
        Variant::ArgumentBlockApplication { lhs: _, arguments } => {
            if arguments.len() > 0 {
                let statements = first_line_prefixed(arguments, &span.left_offset);
                proof {
                    lemma_build_len(
                        VariantView::BodyBlock { statements: Line::views(statements@) },
                    );
                }
                Tree::body_block(statements)
            } else {
                Tree::around(span.left_offset, Variant::BodyBlock { statements: arguments })
            }
        },
        _ => unreached(),
    }
}

fn with_block_as_operand(func: Tree, block: Tree) -> (r: Tree)
    requires
        func@.valid(),
        block@.valid(),
        func@.awaits_right_operand(),
        block@.is_free_argument_block(),
        func@.span.full_len() + block@.span.full_len() <= usize::MAX,
    ensures
        r@ == func@.with_block_as_operand(block@),
{
    proof {
        lemma_with_block_as_operand(func@, block@);
        lemma_length(func@.with_block_as_operand(block@));
    }
    let body = block_as_body(block);
    let Tree { span, variant } = func;
    match *variant {
        Variant::OprApp { lhs, opr, rhs: _ } => Tree::around(
            span.left_offset,
            Variant::OprApp { lhs, opr, rhs: Some(body) },
        ),
        _ => unreached(),
    }
}

fn with_argument_block(func: Tree, block: Tree) -> (r: Tree)
    requires
        func@.valid(),
        block@.valid(),
        block@.is_free_argument_block(),
        block@.hands_over_offset(),
        func@.span.full_len() + block@.span.full_len() <= usize::MAX,
    ensures
        r@ == func@.with_argument_block(block@),
{
    proof {
        lemma_with_argument_block(func@, block@);
        lemma_length(func@.with_argument_block(block@));
    }
    let Tree { span: block_span, variant } = block;
    let Tree { span: func_span, variant: func_variant } = func;
    let Span { left_offset, code_length } = func_span;
    let bare = Tree {
        span: Span { left_offset: Offset::empty(), code_length },
        variant: func_variant,
    };
    match *variant {
        Variant::ArgumentBlockApplication { lhs: _, arguments } => {
            let arguments = first_line_prefixed(arguments, &block_span.left_offset);
            Tree::around(
                left_offset,
                Variant::ArgumentBlockApplication { lhs: Some(bare), arguments },
            )
        },
        _ => unreached(),
    }
}

fn with_operator_block(func: Tree, block: Tree) -> (r: Tree)
    requires
        func@.valid(),
        block@.valid(),
        block@.is_free_operator_block(),
        block@.hands_over_offset(),
        func@.span.full_len() + block@.span.full_len() <= usize::MAX,
    ensures
        r@ == func@.with_operator_block(block@),
{
    proof {
        lemma_with_operator_block(func@, block@);
        lemma_length(func@.with_operator_block(block@));
    }
    let Tree { span: block_span, variant } = block;
    let Tree { span: func_span, variant: func_variant } = func;
    let Span { left_offset, code_length } = func_span;
    let bare = Tree {
        span: Span { left_offset: Offset::empty(), code_length },
        variant: func_variant,
    };
    match *variant {
        Variant::OperatorBlockApplication { lhs: _, expressions, excess } => {
            let excess = if expressions.len() > 0 {
                excess
            } else {
                first_line_prefixed(excess, &block_span.left_offset)
            };
            let expressions = first_operator_line_prefixed(expressions, &block_span.left_offset);
            Tree::around(
                left_offset,
                Variant::OperatorBlockApplication { lhs: Some(bare), expressions, excess },
            )
        },
        _ => unreached(),
    }
}

/// The parts of a named argument: its name with the whitespace that stood
/// before it, its `=` and its value.
fn named_argument_parts(arg: Tree) -> (r: (Token<token::Ident>, Token<token::Operator>, Tree))
    requires
        arg@.is_named_argument(),
    ensures
        r.0@ == arg@.argument_name(),
        r.1@ == arg@.argument_equals(),
        r.2@ == arg@.argument_value(),
{
    let ghost whole = arg@;
    let Tree { span, variant } = arg;
    match *variant {
        Variant::OprApp { lhs: Some(lhs), opr: Ok(opr), rhs: Some(rhs) } => {
            let ghost left = lhs@;
            assert(*left.variant is Ident);
            assert(*whole.variant == (VariantView::OprApp {
                lhs: Some(left),
                opr: Ok(opr@),
                rhs: Some(rhs@),
            }));
            let Tree { span: lhs_span, variant: lhs_variant } = lhs;
            assert(*left.variant == (*lhs_variant)@);
            match *lhs_variant {
                Variant::Ident { token } => {
                    let before = span.left_offset.concat(&lhs_span.left_offset);
                    (token.offset_prefixed(&before), opr, rhs)
                },
                _ => unreached(),
            }
        },
        _ => unreached(),
    }
}

fn with_named_argument(func: Tree, arg: Tree) -> (r: Tree)
    requires
        func@.valid(),
        arg@.valid(),
        arg@.is_named_argument(),
        func@.span.full_len() + arg@.span.full_len() <= usize::MAX,
    ensures
        r@ == func@.with_named_argument(arg@),
{
    proof {
        lemma_with_named_argument(func@, arg@);
        lemma_length(func@.with_named_argument(arg@));
        lemma_build_len(
            VariantView::NamedApp {
                func: func@,
                open: None,
                name: arg@.argument_name(),
                equals: arg@.argument_equals(),
                arg: arg@.argument_value(),
                close: None,
            },
        );
    }
    let (name, equals, value) = named_argument_parts(arg);
    Tree::named_app(func, None, name, equals, value, None)
}

fn with_grouped_named_argument(func: Tree, arg: Tree) -> (r: Tree)
    requires
        func@.valid(),
        arg@.valid(),
        arg@.is_grouped_named_argument(),
        func@.span.full_len() + arg@.span.full_len() <= usize::MAX,
    ensures
        r@ == func@.with_grouped_named_argument(arg@),
{
    proof {
        lemma_with_grouped_named_argument(func@, arg@);
        lemma_length(func@.with_grouped_named_argument(arg@));
    }
    let Tree { span, variant } = arg;
    match *variant {
        Variant::Group { open: Some(open), body: Some(body), close: Some(close) } => {
            let open = open.offset_prefixed(&span.left_offset);
            proof {
                assert(body@.is_named_argument());
                lemma_build_len(
                    VariantView::NamedApp {
                        func: func@,
                        open: Some(open@),
                        name: body@.argument_name(),
                        equals: body@.argument_equals(),
                        arg: body@.argument_value(),
                        close: Some(close@),
                    },
                );
            }
            let (name, equals, value) = named_argument_parts(body);
            Tree::named_app(func, Some(open), name, equals, value, Some(close))
        },
        _ => unreached(),
    }
}

fn apply_plainly(func: Tree, arg: Tree) -> (r: Tree)
    requires
        func@.valid(),
        arg@.valid(),
        func@.span.full_len() + arg@.span.full_len() <= usize::MAX,
    ensures
        r@ == func@.applied_plainly(arg@),
{
    if arg.is_free_argument_block() && func.awaits_right_operand() {
        with_block_as_operand(func, arg)
    } else if arg.is_free_argument_block() && arg.hands_over_offset() {
        with_argument_block(func, arg)
    } else if arg.is_free_operator_block() && arg.hands_over_offset() {
        with_operator_block(func, arg)
    } else if arg.is_named_argument() {
        with_named_argument(func, arg)
    } else if arg.is_grouped_named_argument() {
        with_grouped_named_argument(func, arg)
    } else {
        proof {
            lemma_applied_plainly(func@, arg@);
            lemma_build_len(VariantView::App { func: func@, arg: arg@ });
        }
        Tree::app(func, arg)
    }
}

/// Joins two trees that stand next to each other, `func` before `arg`, into one.
/// For most operands that is an `App` node; annotations, blocks and named
/// arguments are taken in as [`TreeView::applied`] says. The result is sound
/// again, so that it can be applied in turn, and as long as the two together;
/// it reads as the two do, one after the other, wherever
/// [`TreeView::applies_in_order`] holds.
pub fn apply(func: Tree, arg: Tree) -> (r: Tree)
    requires
        func@.valid(),
        arg@.valid(),
        func@.span.full_len() + arg@.span.full_len() <= usize::MAX,
    ensures
        r@ == func@.applied(arg@),
        r@.valid(),
        r@.span.full_len() == func@.span.full_len() + arg@.span.full_len(),
        func@.applies_in_order(arg@) ==> r@.source() == func@.source() + arg@.source(),
    decreases func,
{
    proof {
        lemma_applied(func@, arg@);
        if func@.applies_in_order(arg@) {
            lemma_applied_text(func@, arg@);
        }
    }
    let ghost whole = func@;
    let Tree { span, variant } = func;
    match *variant {
        Variant::Annotated { token, annotation, argument, newlines, expression } => {
            let ghost held: Option<TreeView> = argument.model();
            proof {
                match held {
                    Some(inner) => {
                        assert(inner.valid());
                        lemma_applied(inner, arg@);
                        assert(inner.source().len() == inner.span.full_len());
                    },
                    None => {},
                }
                lemma_annotation_filled(whole, TreeView::filled(held, arg@));
            }
            let inner = maybe_apply(argument, arg);
            Tree::around(
                span.left_offset,
                Variant::Annotated {
                    token,
                    annotation,
                    argument: Some(inner),
                    newlines,
                    expression,
                },
            )
        },
        Variant::AnnotatedBuiltin { token, annotation, newlines, expression } => {
            let ghost held: Option<TreeView> = expression.model();
            proof {
                match held {
                    Some(inner) => {
                        assert(inner.valid());
                        lemma_applied(inner, arg@);
                        assert(inner.source().len() == inner.span.full_len());
                    },
                    None => {},
                }
                lemma_builtin_annotation_filled(whole, TreeView::filled(held, arg@));
            }
            let inner = maybe_apply(expression, arg);
            Tree::around(
                span.left_offset,
                Variant::AnnotatedBuiltin { token, annotation, newlines, expression: Some(inner) },
            )
        },
        other => apply_plainly(Tree { span, variant: Box::new(other) }, arg),
    }
}

/// `x`, or `f` applied to `x` where there is an `f`.
pub fn maybe_apply(f: Option<Tree>, x: Tree) -> (r: Tree)
    requires
        x@.valid(),
        f matches Some(func) ==> func@.valid() && func@.span.full_len() + x@.span.full_len()
            <= usize::MAX,
    ensures
        r@ == TreeView::filled(f.model(), x@),
        r@.valid(),
    decreases f,
{
    match f {
        Some(func) => apply(func, x),
        None => x,
    }
}

/// [`apply`] for trees of which nothing is known: the two are looked at first,
/// and they are joined where both are sound and their text together is no
/// longer than a length may be.
pub fn try_apply(func: Tree, arg: Tree) -> (r: Option<Tree>)
    ensures
        r is Some == (func@.valid() && arg@.valid() && func@.span.full_len()
            + arg@.span.full_len() <= usize::MAX),
        r matches Some(tree) ==> tree@ == func@.applied(arg@) && tree@.valid(),
{
    match func.checked_len() {
        Some(before) => match arg.checked_len() {
            Some(after) => {
                if after > usize::MAX - before {
                    None
                } else {
                    Some(apply(func, arg))
                }
            },
            None => None,
        },
        None => None,
    }
}

} // verus!
