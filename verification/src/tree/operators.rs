//! Operators: an operator (or several) between two operands that may be
//! missing, and a prefix operator before its operand.

use crate::source::{concat, texts, Offset, Piece, Span, SpanItem, SpanView};
use crate::token;
use crate::token::{lemma_models_tokens, lemma_seq_tokens, Token, token_views, TokenView};
use crate::tree::application::{
    apply, block_as_body, lemma_applied, lemma_applied_text, lemma_block_as_body, lemma_length,
};
use crate::tree::model::{
    ErrorView, FractionalDigitsView, MultipleOperatorErrorView, OperatorOrErrorView, TreeView,
    VariantView,
};
use crate::tree::soundness::checked_len_of_tokens;
use crate::tree::span::{lemma_around, lemma_build, lemma_build_len};
use crate::tree::{FractionalDigits, MultipleOperatorError, OperatorOrError, Tree, Variant};
use vstd::pervasive::unreached;
use vstd::prelude::*;

verus! {

/// The diagnostic of two trees that were to be applied, of which one is missing.
pub open spec fn missing_operand() -> Seq<char> {
    "An application must have two operands."@
}

/// The diagnostic of a reserved operator.
pub open spec fn special_operator() -> Seq<char> {
    "Invalid use of special operator."@
}

/// The diagnostic of a `:` that lacks an operand.
pub open spec fn type_annotation_operands() -> Seq<char> {
    "`:` operator must be applied to two operands."@
}

/// The diagnostic of an operator with the code `code` that stands without any
/// operand, and may not.
pub open spec fn two_operands_required(code: Seq<char>) -> Seq<char> {
    "Operator `"@ + code + "` must be applied to two operands."@
}

/// The diagnostic of a prefix operator with the code `code` that stands without
/// its operand, and may not.
pub open spec fn operand_required(code: Seq<char>) -> Seq<char> {
    "Operator `"@ + code + "` must be applied to an operand."@
}

/// The diagnostic of the autoscope marker before an identifier that is no
/// constructor name.
pub open spec fn autoscope_needs_capitalized() -> Seq<char> {
    "The auto-scope operator may only be applied to a capitalized identifier."@
}

/// The diagnostic of the autoscope marker before something that is no identifier.
pub open spec fn autoscope_needs_identifier() -> Seq<char> {
    "The auto-scope operator (..) may only be applied to an identifier."@
}

impl TreeView {
    /// The node that the library gives where the source holds nothing: an
    /// identifier without any text.
    pub open spec fn empty() -> TreeView {
        TreeView {
            span: SpanView::empty(),
            variant: Box::new(
                VariantView::Ident {
                    token: TokenView {
                        left_offset: Seq::empty(),
                        code: Seq::empty(),
                        variant: token::Ident {
                            is_free: false,
                            lift_level: 0,
                            is_type: false,
                            is_operator_lexically: false,
                            is_default: false,
                        },
                    },
                },
            ),
        }
    }

    /// The base of a number, still without its digits.
    pub open spec fn is_number_base(self) -> bool {
        match *self.variant {
            VariantView::Number { base: _, integer: None, fractional_digits: None } => true,
            _ => false,
        }
    }

    /// Digits of a number, without a base: an integer part, a fractional part,
    /// or both.
    pub open spec fn carries_digits(self) -> bool {
        match *self.variant {
            VariantView::Number { base: None, integer, fractional_digits } => {
                integer is Some || fractional_digits is Some
            },
            _ => false,
        }
    }

    /// A number that has its integer part and no fractional digits yet.
    pub open spec fn is_integer(self) -> bool {
        match *self.variant {
            VariantView::Number { base: _, integer: Some(_), fractional_digits: None } => true,
            _ => false,
        }
    }

    /// Digits and nothing else.
    pub open spec fn is_bare_digits(self) -> bool {
        match *self.variant {
            VariantView::Number { base: None, integer: Some(_), fractional_digits: None } => true,
            _ => false,
        }
    }

    /// The number `self`, a base, with the digits of `digits` behind it. The
    /// whitespace that stood before `digits` goes to the first token of them.
    /// The operator that joined them is not kept.
    pub open spec fn with_digits(self, digits: TreeView) -> TreeView
        recommends
            self.is_number_base(),
            digits.carries_digits(),
    {
        let more = digits.span.left_offset;
        match (*self.variant, *digits.variant) {
            (
                VariantView::Number { base, integer: _, fractional_digits: _ },
                VariantView::Number { base: _, integer, fractional_digits },
            ) => TreeView::around(
                self.span.left_offset,
                VariantView::Number {
                    base,
                    integer: match integer {
                        Some(whole) => Some(whole.offset_prefixed(more)),
                        None => None,
                    },
                    fractional_digits: match fractional_digits {
                        Some(fraction) => Some(
                            FractionalDigitsView {
                                dot: if integer is Some {
                                    fraction.dot
                                } else {
                                    fraction.dot.offset_prefixed(more)
                                },
                                digits: fraction.digits,
                            },
                        ),
                        None => None,
                    },
                },
            ),
            _ => self,
        }
    }

    /// The number `self` with `dot` and the digits of `digits` as its fractional
    /// part. The whitespace that stood before `digits` stays before them.
    pub open spec fn with_fraction(
        self,
        dot: TokenView<token::Operator>,
        digits: TreeView,
    ) -> TreeView
        recommends
            self.is_integer(),
            digits.is_bare_digits(),
    {
        match (*self.variant, *digits.variant) {
            (
                VariantView::Number { base, integer, fractional_digits: _ },
                VariantView::Number { base: _, integer: Some(part), fractional_digits: _ },
            ) => TreeView::around(
                self.span.left_offset,
                VariantView::Number {
                    base,
                    integer,
                    fractional_digits: Some(
                        FractionalDigitsView {
                            dot,
                            digits: part.offset_prefixed(digits.span.left_offset),
                        },
                    ),
                },
            ),
            _ => self,
        }
    }

    /// Two trees next to each other with no operator between them: the first
    /// applied to the second. Where one is missing, the other is marked as being
    /// in error; where both are, that is the empty node.
    pub open spec fn juxtaposed(lhs: Option<TreeView>, rhs: Option<TreeView>) -> TreeView {
        match (lhs, rhs) {
            (Some(func), Some(arg)) => func.applied(arg),
            (Some(only), None) => only.with_error(missing_operand()),
            (None, Some(only)) => only.with_error(missing_operand()),
            (None, None) => TreeView::empty().with_error(missing_operand()),
        }
    }

    /// The right operand as it goes into an operator application: a free argument
    /// block is read as a sequence of statements.
    pub open spec fn as_right_operand(rhs: Option<TreeView>) -> Option<TreeView> {
        match rhs {
            Some(tree) => if tree.is_free_argument_block() {
                Some(tree.block_as_body())
            } else {
                rhs
            },
            None => None,
        }
    }

    /// The operator application of `opr`, which may be the error of several
    /// operators, to the operands that there are. One with an operand missing is
    /// a section.
    pub open spec fn operator_node(
        lhs: Option<TreeView>,
        opr: OperatorOrErrorView,
        rhs: Option<TreeView>,
    ) -> TreeView {
        TreeView::build(VariantView::OprApp { lhs, opr, rhs: TreeView::as_right_operand(rhs) })
    }

    /// One operator between the operands that there are. The first of these that
    /// fits decides: a token joiner between two trees glues the digits of a number
    /// to its base, and applies any other two trees to each other; a reserved
    /// operator is in error; `:` gives a `TypeAnnotated` of two operands, and is
    /// in error otherwise; an operator that may not stand alone is in error without
    /// any operand; a decimal point between an integer and bare digits gives one
    /// number; everything else gives an operator application.
    pub open spec fn with_operator(
        lhs: Option<TreeView>,
        opr: TokenView<token::Operator>,
        rhs: Option<TreeView>,
    ) -> TreeView {
        let properties = opr.variant.properties;
        if properties.is_token_joiner && lhs is Some && rhs is Some {
            if lhs->0.is_number_base() && rhs->0.carries_digits() {
                lhs->0.with_digits(rhs->0)
            } else {
                lhs->0.applied(rhs->0)
            }
        } else if properties.is_special {
            TreeView::build(VariantView::OprApp { lhs, opr: Ok(opr), rhs }).with_error(
                special_operator(),
            )
        } else if properties.is_type_annotation {
            if lhs is Some && rhs is Some {
                TreeView::build(
                    VariantView::TypeAnnotated { expression: lhs->0, operator: opr, type_: rhs->0 },
                )
            } else {
                TreeView::build(VariantView::OprApp { lhs, opr: Ok(opr), rhs }).with_error(
                    type_annotation_operands(),
                )
            }
        } else if !properties.can_form_section && lhs is None && rhs is None {
            TreeView::build(VariantView::OprApp { lhs, opr: Ok(opr), rhs }).with_error(
                two_operands_required(opr.code),
            )
        } else if properties.is_decimal && lhs is Some && rhs is Some && lhs->0.is_integer()
            && rhs->0.is_bare_digits() {
            lhs->0.with_fraction(opr, rhs->0)
        } else {
            TreeView::operator_node(lhs, Ok(opr), rhs)
        }
    }

    /// The operators `operators` between the operands that there are. None is a
    /// juxtaposition; one is that operator; several are kept, all of them, as the
    /// error of an operator application.
    pub open spec fn operators_applied(
        lhs: Option<TreeView>,
        operators: Seq<TokenView<token::Operator>>,
        rhs: Option<TreeView>,
    ) -> TreeView {
        if operators.len() == 0 {
            TreeView::juxtaposed(lhs, rhs)
        } else if operators.len() == 1 {
            TreeView::with_operator(lhs, operators[0], rhs)
        } else {
            TreeView::operator_node(lhs, Err(MultipleOperatorErrorView { operators }), rhs)
        }
    }

    /// The identifier that a tree is, where it is one, with the whitespace
    /// that stood before the tree.
    pub open spec fn ident_token(self) -> TokenView<token::Ident>
        recommends
            *self.variant is Ident,
    {
        match *self.variant {
            VariantView::Ident { token } => token.offset_prefixed(self.span.left_offset),
            _ => arbitrary(),
        }
    }

    /// One operator between its operands keeps the text. It does unless it is a
    /// token joiner between two operands that holds text, for a token joiner is
    /// not kept; and where a token joiner applies its operands to each other,
    /// that application must keep the text.
    pub open spec fn operator_in_order(
        lhs: Option<TreeView>,
        opr: TokenView<token::Operator>,
        rhs: Option<TreeView>,
    ) -> bool {
        opr.variant.properties.is_token_joiner && lhs is Some && rhs is Some ==> {
            &&& opr.source().len() == 0
            &&& lhs->0.is_number_base() && rhs->0.carries_digits() || lhs->0.applies_in_order(
                rhs->0,
            )
        }
    }

    /// The operators between their operands keep the text.
    pub open spec fn operators_in_order(
        lhs: Option<TreeView>,
        operators: Seq<TokenView<token::Operator>>,
        rhs: Option<TreeView>,
    ) -> bool {
        if operators.len() == 0 {
            lhs is Some && rhs is Some ==> lhs->0.applies_in_order(rhs->0)
        } else if operators.len() == 1 {
            TreeView::operator_in_order(lhs, operators[0], rhs)
        } else {
            true
        }
    }

    /// The prefix operator `opr` before the operand `rhs`, which may be missing.
    /// The first of these that fits decides: an annotation marker before an
    /// identifier gives an annotation that awaits what it annotates, a built-in
    /// one where the identifier is the name of a type, and the identifier keeps
    /// the whitespace that stood before it; the autoscope marker gives
    /// an `AutoscopedIdentifier`, which is in error unless the operand is the name
    /// of a type; an operator that may not stand alone is in error without its
    /// operand; everything else gives a `UnaryOprApp`.
    pub open spec fn with_unary_operator(
        opr: TokenView<token::Operator>,
        rhs: Option<TreeView>,
    ) -> TreeView {
        let properties = opr.variant.properties;
        if properties.is_annotation && rhs is Some && (*rhs->0.variant is Ident) {
            let annotation = rhs->0.ident_token();
            if annotation.variant.is_type {
                TreeView::build(
                    VariantView::AnnotatedBuiltin {
                        token: opr,
                        annotation,
                        newlines: Seq::empty(),
                        expression: None,
                    },
                )
            } else {
                TreeView::build(
                    VariantView::Annotated {
                        token: opr,
                        annotation,
                        argument: None,
                        newlines: Seq::empty(),
                        expression: None,
                    },
                )
            }
        } else if properties.is_autoscope && rhs is Some {
            if *rhs->0.variant is Ident {
                let ident = rhs->0.ident_token();
                let node = TreeView::build(VariantView::AutoscopedIdentifier { opr, ident });
                if ident.variant.is_type {
                    node
                } else {
                    node.with_error(autoscope_needs_capitalized())
                }
            } else {
                TreeView::build(VariantView::UnaryOprApp { opr, rhs }).with_error(
                    autoscope_needs_identifier(),
                )
            }
        } else if !properties.can_form_section && rhs is None {
            TreeView::build(VariantView::UnaryOprApp { opr, rhs }).with_error(
                operand_required(opr.code),
            )
        } else {
            TreeView::build(VariantView::UnaryOprApp { opr, rhs })
        }
    }
}

/// A sound node that is marked as being in error is sound, and as long as before.
pub proof fn lemma_with_error(tree: TreeView, message: Seq<char>)
    requires
        tree.valid(),
    ensures
        tree.with_error(message).valid(),
        tree.with_error(message).span.full_len() == tree.span.full_len(),
        tree.with_error(message).source() == tree.source(),
{
    let node = VariantView::Invalid { error: ErrorView { message }, ast: tree };
    lemma_build(node);
}

/// The identifier that a sound tree is reads as the tree does.
pub proof fn lemma_ident_token(tree: TreeView)
    requires
        tree.valid(),
        *tree.variant is Ident,
    ensures
        tree.ident_token().source() == tree.source(),
{
    match *tree.variant {
        VariantView::Ident { token } => {
            assert(token.offset_prefixed(tree.span.left_offset).source() =~= tree.source());
        },
        _ => {},
    }
}

/// A base that takes its digits is a sound number that reads as the two do.
pub proof fn lemma_with_digits(base: TreeView, digits: TreeView)
    requires
        base.valid(),
        digits.valid(),
        base.is_number_base(),
        digits.carries_digits(),
    ensures
        base.with_digits(digits).valid(),
        base.with_digits(digits).source() == base.source() + digits.source(),
{
    let more = digits.span.left_offset;
    match (*base.variant, *digits.variant) {
        (
            VariantView::Number { base: radix, integer: _, fractional_digits: _ },
            VariantView::Number { base: _, integer, fractional_digits },
        ) => {
            let result = base.with_digits(digits);
            lemma_around(base.span.left_offset, *result.variant);
            match integer {
                Some(whole) => {
                    assert(whole.offset_prefixed(more).source() =~= more + whole.source());
                },
                None => match fractional_digits {
                    Some(fraction) => {
                        assert(fraction.dot.offset_prefixed(more).source() =~= more
                            + fraction.dot.source());
                    },
                    None => {},
                },
            }
            assert(base.span.left_offset + (*result.variant).source() =~= base.source()
                + digits.source());
        },
        _ => {},
    }
}

/// An integer that takes its fractional digits is a sound number that reads as
/// the integer, the decimal point and the digits do.
pub proof fn lemma_with_fraction(
    integer: TreeView,
    dot: TokenView<token::Operator>,
    digits: TreeView,
)
    requires
        integer.valid(),
        digits.valid(),
        integer.is_integer(),
        digits.is_bare_digits(),
    ensures
        integer.with_fraction(dot, digits).valid(),
        integer.with_fraction(dot, digits).source() == integer.source() + dot.source()
            + digits.source(),
{
    match (*integer.variant, *digits.variant) {
        (
            VariantView::Number { base, integer: whole, fractional_digits: _ },
            VariantView::Number { base: _, integer: Some(part), fractional_digits: _ },
        ) => {
            let result = integer.with_fraction(dot, digits);
            lemma_around(integer.span.left_offset, *result.variant);
            assert(part.offset_prefixed(digits.span.left_offset).source() =~= digits.source());
            assert(integer.span.left_offset + (*result.variant).source() =~= integer.source()
                + dot.source() + digits.source());
        },
        _ => {},
    }
}

/// A right operand stays sound and keeps its text as it goes into an operator
/// application.
pub proof fn lemma_as_right_operand(rhs: Option<TreeView>)
    requires
        rhs.sound(),
    ensures
        TreeView::as_right_operand(rhs).sound(),
        TreeView::as_right_operand(rhs).text() == rhs.text(),
{
    match rhs {
        Some(tree) => {
            if tree.is_free_argument_block() {
                lemma_block_as_body(tree);
            }
        },
        None => {},
    }
}

/// An operator application of sound operands is sound, and reads as its left
/// operand, its operator and its right operand.
pub proof fn lemma_operator_node(
    lhs: Option<TreeView>,
    opr: OperatorOrErrorView,
    rhs: Option<TreeView>,
)
    requires
        lhs.sound(),
        opr.sound(),
        rhs.sound(),
    ensures
        TreeView::operator_node(lhs, opr, rhs).valid(),
        TreeView::operator_node(lhs, opr, rhs).source() == lhs.text() + opr.text() + rhs.text(),
{
    lemma_as_right_operand(rhs);
    match opr {
        Ok(token) => {},
        Err(error) => {
            lemma_seq_tokens(error.operators);
        },
    }
    let node = VariantView::OprApp { lhs, opr, rhs: TreeView::as_right_operand(rhs) };
    assert(node.valid());
    lemma_build(node);
}

/// An operator application as it is, of sound operands, is sound, and reads as
/// its left operand, its operator and its right operand.
pub proof fn lemma_plain_operator_node(
    lhs: Option<TreeView>,
    opr: TokenView<token::Operator>,
    rhs: Option<TreeView>,
)
    requires
        lhs.sound(),
        rhs.sound(),
    ensures
        TreeView::build(VariantView::OprApp { lhs, opr: Ok(opr), rhs }).valid(),
        TreeView::build(VariantView::OprApp { lhs, opr: Ok(opr), rhs }).source() == lhs.text()
            + opr.source() + rhs.text(),
{
    let node = VariantView::OprApp { lhs, opr: Ok(opr), rhs };
    assert(node.valid());
    lemma_build(node);
}

/// Two sound trees next to each other give a sound tree, as long as the two
/// together, which reads as the two do wherever their application keeps the
/// text in its order.
pub proof fn lemma_juxtaposed(lhs: Option<TreeView>, rhs: Option<TreeView>)
    requires
        lhs.sound(),
        rhs.sound(),
    ensures
        TreeView::juxtaposed(lhs, rhs).valid(),
        TreeView::juxtaposed(lhs, rhs).span.full_len() == lhs.weight() + rhs.weight(),
        (lhs is Some && rhs is Some ==> lhs->0.applies_in_order(rhs->0)) ==> TreeView::juxtaposed(
            lhs,
            rhs,
        ).source() == lhs.text() + rhs.text(),
{
    let nothing = Seq::<char>::empty();
    match (lhs, rhs) {
        (Some(func), Some(arg)) => {
            lemma_applied(func, arg);
            if func.applies_in_order(arg) {
                lemma_applied_text(func, arg);
            }
        },
        (Some(only), None) => {
            lemma_with_error(only, missing_operand());
            assert(only.source() =~= lhs.text() + rhs.text());
        },
        (None, Some(only)) => {
            lemma_with_error(only, missing_operand());
            assert(only.source() =~= lhs.text() + rhs.text());
        },
        (None, None) => {
            assert((*TreeView::empty().variant).source() =~= nothing);
            lemma_with_error(TreeView::empty(), missing_operand());
            assert(TreeView::empty().source() =~= lhs.text() + rhs.text());
        },
    }
}

/// One operator between sound operands gives a sound tree, no longer than its
/// parts, which reads as the left operand, the operator and the right operand
/// wherever [`TreeView::operator_in_order`] holds.
pub proof fn lemma_with_operator(
    lhs: Option<TreeView>,
    opr: TokenView<token::Operator>,
    rhs: Option<TreeView>,
)
    requires
        lhs.sound(),
        rhs.sound(),
    ensures
        TreeView::with_operator(lhs, opr, rhs).valid(),
        TreeView::with_operator(lhs, opr, rhs).span.full_len() <= lhs.weight() + opr.weight()
            + rhs.weight(),
        TreeView::operator_in_order(lhs, opr, rhs) ==> TreeView::with_operator(
            lhs,
            opr,
            rhs,
        ).source() == lhs.text() + opr.source() + rhs.text(),
{
    let properties = opr.variant.properties;
    let plain = TreeView::build(VariantView::OprApp { lhs, opr: Ok(opr), rhs });
    let result = TreeView::with_operator(lhs, opr, rhs);
    lemma_plain_operator_node(lhs, opr, rhs);
    lhs.lemma_measure();
    rhs.lemma_measure();
    if properties.is_token_joiner && lhs is Some && rhs is Some {
        if lhs->0.is_number_base() && rhs->0.carries_digits() {
            lemma_with_digits(lhs->0, rhs->0);
        } else {
            lemma_applied(lhs->0, rhs->0);
            if lhs->0.applies_in_order(rhs->0) {
                lemma_applied_text(lhs->0, rhs->0);
            }
        }
        lemma_length(result);
        if TreeView::operator_in_order(lhs, opr, rhs) {
            assert(opr.source() =~= Seq::<char>::empty());
            assert(lhs->0.source() + rhs->0.source() =~= lhs.text() + opr.source() + rhs.text());
        }
    } else if properties.is_special {
        lemma_with_error(plain, special_operator());
        lemma_length(result);
    } else if properties.is_type_annotation {
        if lhs is Some && rhs is Some {
            let node = VariantView::TypeAnnotated {
                expression: lhs->0,
                operator: opr,
                type_: rhs->0,
            };
            assert(node.valid());
            lemma_build(node);
        } else {
            lemma_with_error(plain, type_annotation_operands());
        }
        lemma_length(result);
    } else if !properties.can_form_section && lhs is None && rhs is None {
        lemma_with_error(plain, two_operands_required(opr.code));
        lemma_length(result);
    } else if properties.is_decimal && lhs is Some && rhs is Some && lhs->0.is_integer()
        && rhs->0.is_bare_digits() {
        lemma_with_fraction(lhs->0, opr, rhs->0);
        lemma_length(result);
    } else {
        lemma_operator_node(lhs, Ok(opr), rhs);
        lemma_length(result);
    }
}

/// The text of no operator is empty, and the text of one operator is its own.
pub proof fn lemma_few_operators_text(operators: Seq<TokenView<token::Operator>>)
    requires
        operators.len() <= 1,
    ensures
        operators.len() == 0 ==> operators.text() == Seq::<char>::empty(),
        operators.len() == 1 ==> operators.text() == operators[0].source(),
{
    let parts = texts(operators);
    if operators.len() == 0 {
        assert(parts =~= Seq::<Seq<char>>::empty());
    } else {
        assert(parts.drop_last() =~= Seq::<Seq<char>>::empty());
        assert(concat(parts.drop_last()) =~= Seq::<char>::empty());
        assert(concat(parts) =~= operators[0].source());
    }
}

/// Operators between sound operands give a sound tree, no longer than its
/// parts, which reads as the left operand, the operators and the right operand
/// wherever [`TreeView::operators_in_order`] holds.
pub proof fn lemma_operators_applied(
    lhs: Option<TreeView>,
    operators: Seq<TokenView<token::Operator>>,
    rhs: Option<TreeView>,
)
    requires
        lhs.sound(),
        rhs.sound(),
    ensures
        TreeView::operators_applied(lhs, operators, rhs).valid(),
        TreeView::operators_applied(lhs, operators, rhs).span.full_len() <= lhs.weight()
            + operators.weight() + rhs.weight(),
        TreeView::operators_in_order(lhs, operators, rhs) ==> TreeView::operators_applied(
            lhs,
            operators,
            rhs,
        ).source() == lhs.text() + operators.text() + rhs.text(),
{
    let result = TreeView::operators_applied(lhs, operators, rhs);
    if operators.len() == 0 {
        lemma_juxtaposed(lhs, rhs);
        lemma_few_operators_text(operators);
        assert(lhs.text() + rhs.text() =~= lhs.text() + operators.text() + rhs.text());
    } else if operators.len() == 1 {
        lemma_with_operator(lhs, operators[0], rhs);
        lemma_few_operators_text(operators);
        assert(operators.drop_last().weight() == 0);
    } else {
        let error = MultipleOperatorErrorView { operators };
        let opr: OperatorOrErrorView = Err(error);
        lemma_operator_node(lhs, opr, rhs);
        lemma_seq_tokens(operators);
        assert(opr.text() == error.source());
        assert(error.source() == operators.text());
        lemma_length(result);
        lhs.lemma_measure();
        rhs.lemma_measure();
        operators.lemma_measure();
    }
}

/// A prefix operator before a sound operand gives a sound tree that reads as
/// the operator and the operand do, and is as long as the two together.
pub proof fn lemma_with_unary_operator(opr: TokenView<token::Operator>, rhs: Option<TreeView>)
    requires
        rhs.sound(),
    ensures
        TreeView::with_unary_operator(opr, rhs).valid(),
        TreeView::with_unary_operator(opr, rhs).source() == opr.source() + rhs.text(),
        TreeView::with_unary_operator(opr, rhs).span.full_len() == opr.weight() + rhs.weight(),
{
    let properties = opr.variant.properties;
    let plain = VariantView::UnaryOprApp { opr, rhs };
    let result = TreeView::with_unary_operator(opr, rhs);
    assert(plain.valid());
    lemma_build(plain);
    rhs.lemma_measure();
    let nothing = Seq::<TokenView<token::Newline>>::empty();
    if properties.is_annotation && rhs is Some && (*rhs->0.variant is Ident) {
        let annotation = rhs->0.ident_token();
        lemma_ident_token(rhs->0);
        lemma_seq_tokens(nothing);
        assert(texts(nothing) =~= Seq::<Seq<char>>::empty());
        if annotation.variant.is_type {
            let node = VariantView::AnnotatedBuiltin {
                token: opr,
                annotation,
                newlines: nothing,
                expression: None,
            };
            assert(node.valid());
            lemma_build(node);
            assert(node.source() =~= opr.source() + rhs.text());
        } else {
            let node = VariantView::Annotated {
                token: opr,
                annotation,
                argument: None,
                newlines: nothing,
                expression: None,
            };
            assert(node.valid());
            lemma_build(node);
            assert(node.source() =~= opr.source() + rhs.text());
        }
    } else if properties.is_autoscope && rhs is Some {
        if *rhs->0.variant is Ident {
            let ident = rhs->0.ident_token();
            lemma_ident_token(rhs->0);
            let node = VariantView::AutoscopedIdentifier { opr, ident };
            assert(node.valid());
            lemma_build(node);
            if !ident.variant.is_type {
                lemma_with_error(TreeView::build(node), autoscope_needs_capitalized());
            }
        } else {
            lemma_with_error(TreeView::build(plain), autoscope_needs_identifier());
        }
    } else if !properties.can_form_section && rhs is None {
        lemma_with_error(TreeView::build(plain), operand_required(opr.code));
    }
    lemma_length(result);
}

impl Default for Tree {
    /// The node that the library gives where the source holds nothing.
    fn default() -> (r: Tree)
        ensures
            r@ == TreeView::empty(),
    {
        let token = Token {
            left_offset: Offset::empty(),
            code: String::new(),
            variant: token::Ident {
                is_free: false,
                lift_level: 0,
                is_type: false,
                is_operator_lexically: false,
                is_default: false,
            },
        };
        Tree { span: Span::empty_without_offset(), variant: Box::new(Variant::Ident { token }) }
    }
}

impl Tree {
    /// Whether [`TreeView::is_number_base`] holds of the node.
    pub fn is_number_base(&self) -> (b: bool)
        ensures
            b == self@.is_number_base(),
    {
        match &*self.variant {
            Variant::Number { base: _, integer: None, fractional_digits: None } => true,
            _ => false,
        }
    }

    /// Whether [`TreeView::carries_digits`] holds of the node.
    pub fn carries_digits(&self) -> (b: bool)
        ensures
            b == self@.carries_digits(),
    {
        match &*self.variant {
            Variant::Number { base: None, integer, fractional_digits } => {
                integer.is_some() || fractional_digits.is_some()
            },
            _ => false,
        }
    }

    /// Whether [`TreeView::is_integer`] holds of the node.
    pub fn is_integer(&self) -> (b: bool)
        ensures
            b == self@.is_integer(),
    {
        match &*self.variant {
            Variant::Number { base: _, integer: Some(_), fractional_digits: None } => true,
            _ => false,
        }
    }

    /// Whether [`TreeView::is_bare_digits`] holds of the node.
    pub fn is_bare_digits(&self) -> (b: bool)
        ensures
            b == self@.is_bare_digits(),
    {
        match &*self.variant {
            Variant::Number { base: None, integer: Some(_), fractional_digits: None } => true,
            _ => false,
        }
    }
}

/// The text "Operator `", the code of `opr` and `rest`.
fn operator_message(opr: &Token<token::Operator>, rest: &str) -> (r: String)
    ensures
        r@ == "Operator `"@ + opr@.code + rest@,
{
    let mut message = String::from_str("Operator `");
    message.append(opr.code.as_str());
    message.append(rest);
    message
}

fn with_digits(base: Tree, digits: Tree) -> (r: Tree)
    requires
        base@.valid(),
        digits@.valid(),
        base@.is_number_base(),
        digits@.carries_digits(),
        base@.span.full_len() + digits@.span.full_len() <= usize::MAX,
    ensures
        r@ == base@.with_digits(digits@),
{
    proof {
        lemma_with_digits(base@, digits@);
        lemma_length(base@.with_digits(digits@));
    }
    let Tree { span, variant } = base;
    let Tree { span: digits_span, variant: digits_variant } = digits;
    match *variant {
        Variant::Number { base, integer: _, fractional_digits: _ } => match *digits_variant {
            Variant::Number { base: _, integer, fractional_digits } => {
                let whole_there = integer.is_some();
                let integer = match integer {
                    Some(whole) => Some(whole.offset_prefixed(&digits_span.left_offset)),
                    None => None,
                };
                let fractional_digits = match fractional_digits {
                    Some(fraction) => {
                        let FractionalDigits { dot, digits } = fraction;
                        let dot = if whole_there {
                            dot
                        } else {
                            dot.offset_prefixed(&digits_span.left_offset)
                        };
                        Some(FractionalDigits { dot, digits })
                    },
                    None => None,
                };
                Tree::around(span.left_offset, Variant::Number { base, integer, fractional_digits })
            },
            _ => unreached(),
        },
        _ => unreached(),
    }
}

fn with_fraction(integer: Tree, dot: Token<token::Operator>, digits: Tree) -> (r: Tree)
    requires
        integer@.valid(),
        digits@.valid(),
        integer@.is_integer(),
        digits@.is_bare_digits(),
        integer@.span.full_len() + dot@.weight() + digits@.span.full_len() <= usize::MAX,
    ensures
        r@ == integer@.with_fraction(dot@, digits@),
{
    proof {
        lemma_with_fraction(integer@, dot@, digits@);
        lemma_length(integer@.with_fraction(dot@, digits@));
    }
    let Tree { span, variant } = integer;
    let Tree { span: digits_span, variant: digits_variant } = digits;
    match *variant {
        Variant::Number { base, integer, fractional_digits: _ } => match *digits_variant {
            Variant::Number { base: _, integer: Some(part), fractional_digits: _ } => {
                let digits = part.offset_prefixed(&digits_span.left_offset);
                Tree::around(
                    span.left_offset,
                    Variant::Number {
                        base,
                        integer,
                        fractional_digits: Some(FractionalDigits { dot, digits }),
                    },
                )
            },
            _ => unreached(),
        },
        _ => unreached(),
    }
}

fn juxtapose(lhs: Option<Tree>, rhs: Option<Tree>) -> (r: Tree)
    requires
        lhs.model().sound(),
        rhs.model().sound(),
        lhs.model().weight() + rhs.model().weight() <= usize::MAX,
    ensures
        r@ == TreeView::juxtaposed(lhs.model(), rhs.model()),
{
    match lhs {
        Some(func) => match rhs {
            Some(arg) => apply(func, arg),
            None => func.with_error("An application must have two operands."),
        },
        None => match rhs {
            Some(arg) => arg.with_error("An application must have two operands."),
            None => Tree::default().with_error("An application must have two operands."),
        },
    }
}

fn operator_node(lhs: Option<Tree>, opr: OperatorOrError, rhs: Option<Tree>) -> (r: Tree)
    requires
        lhs.model().sound(),
        rhs.model().sound(),
        lhs.model().weight() + opr.model().weight() + rhs.model().weight() <= usize::MAX,
    ensures
        r@ == TreeView::operator_node(lhs.model(), opr.model(), rhs.model()),
{
    proof {
        lemma_as_right_operand(rhs.model());
        rhs.model().lemma_measure();
        TreeView::as_right_operand(rhs.model()).lemma_measure();
    }
    let rhs = match rhs {
        Some(tree) => {
            if tree.is_free_argument_block() {
                Some(block_as_body(tree))
            } else {
                Some(tree)
            }
        },
        None => None,
    };
    proof {
        lemma_build_len(
            VariantView::OprApp { lhs: lhs.model(), opr: opr.model(), rhs: rhs.model() },
        );
    }
    Tree::opr_app(lhs, opr, rhs)
}

fn plain_operator_node(lhs: Option<Tree>, opr: Token<token::Operator>, rhs: Option<Tree>) -> (r:
    Tree)
    requires
        lhs.model().weight() + opr@.weight() + rhs.model().weight() <= usize::MAX,
    ensures
        r@ == TreeView::build(
            VariantView::OprApp { lhs: lhs.model(), opr: Ok(opr@), rhs: rhs.model() },
        ),
{
    Tree::opr_app(lhs, Ok(opr), rhs)
}

fn apply_single_operator(lhs: Option<Tree>, opr: Token<token::Operator>, rhs: Option<Tree>) -> (r:
    Tree)
    requires
        lhs.model().sound(),
        rhs.model().sound(),
        lhs.model().weight() + opr@.weight() + rhs.model().weight() <= usize::MAX,
    ensures
        r@ == TreeView::with_operator(lhs.model(), opr@, rhs.model()),
{
    let properties = opr.variant.properties;
    match lhs {
        Some(left) => match rhs {
            Some(right) => {
                if properties.is_token_joiner {
                    if left.is_number_base() && right.carries_digits() {
                        with_digits(left, right)
                    } else {
                        apply(left, right)
                    }
                } else if properties.is_special {
                    plain_operator_node(Some(left), opr, Some(right)).with_error(
                        "Invalid use of special operator.",
                    )
                } else if properties.is_type_annotation {
                    proof {
                        lemma_build_len(
                            VariantView::TypeAnnotated {
                                expression: left@,
                                operator: opr@,
                                type_: right@,
                            },
                        );
                    }
                    Tree::type_annotated(left, opr, right)
                } else if properties.is_decimal && left.is_integer() && right.is_bare_digits() {
                    with_fraction(left, opr, right)
                } else {
                    operator_node(Some(left), Ok(opr), Some(right))
                }
            },
            None => apply_to_section(Some(left), opr, None),
        },
        None => apply_to_section(None, opr, rhs),
    }
}

/// One operator between operands of which at least one is missing.
fn apply_to_section(lhs: Option<Tree>, opr: Token<token::Operator>, rhs: Option<Tree>) -> (r: Tree)
    requires
        lhs.model().sound(),
        rhs.model().sound(),
        lhs is None || rhs is None,
        lhs.model().weight() + opr@.weight() + rhs.model().weight() <= usize::MAX,
    ensures
        r@ == TreeView::with_operator(lhs.model(), opr@, rhs.model()),
{
    let properties = opr.variant.properties;
    if properties.is_special {
        plain_operator_node(lhs, opr, rhs).with_error("Invalid use of special operator.")
    } else if properties.is_type_annotation {
        plain_operator_node(lhs, opr, rhs).with_error(
            "`:` operator must be applied to two operands.",
        )
    } else if !properties.can_form_section && lhs.is_none() && rhs.is_none() {
        let message = operator_message(&opr, "` must be applied to two operands.");
        plain_operator_node(lhs, opr, rhs).with_error(message.as_str())
    } else {
        operator_node(lhs, Ok(opr), rhs)
    }
}

/// Joins the operands that there are with the operators between them. No
/// operator is a juxtaposition, one operator is applied as its kind asks, and
/// several operators are all kept as the error of an operator application: see
/// [`TreeView::operators_applied`]. The result is sound again, and it reads as
/// the left operand, the operators and the right operand do wherever
/// [`TreeView::operators_in_order`] holds.
pub fn apply_operator(lhs: Option<Tree>, opr: Vec<Token<token::Operator>>, rhs: Option<Tree>) -> (r:
    Tree)
    requires
        lhs.model().sound(),
        rhs.model().sound(),
        lhs.model().weight() + token_views(opr@).weight() + rhs.model().weight() <= usize::MAX,
    ensures
        r@ == TreeView::operators_applied(lhs.model(), token_views(opr@), rhs.model()),
        r@.valid(),
        TreeView::operators_in_order(lhs.model(), token_views(opr@), rhs.model()) ==> r@.source()
            == lhs.model().text() + token_views(opr@).text() + rhs.model().text(),
{
    proof {
        lemma_operators_applied(lhs.model(), token_views(opr@), rhs.model());
        lemma_models_tokens(opr@);
    }
    let mut opr = opr;
    if opr.len() == 0 {
        juxtapose(lhs, rhs)
    } else if opr.len() == 1 {
        let ghost only = token_views(opr@);
        match opr.pop() {
            Some(token) => {
                proof {
                    assert(only[0] == token@);
                    assert(only.drop_last().weight() == 0);
                }
                apply_single_operator(lhs, token, rhs)
            },
            None => unreached(),
        }
    } else {
        operator_node(lhs, Err(MultipleOperatorError { operators: opr }), rhs)
    }
}

/// The identifier that a tree is, with the whitespace that stood before the
/// tree.
fn ident_parts(tree: Tree) -> (r: Token<token::Ident>)
    requires
        *tree@.variant is Ident,
    ensures
        r@ == tree@.ident_token(),
{
    let Tree { span, variant } = tree;
    match *variant {
        Variant::Ident { token } => token.offset_prefixed(&span.left_offset),
        _ => unreached(),
    }
}

/// Puts the prefix operator `opr` before its operand `rhs`, which may be missing.
/// Mostly that is a `UnaryOprApp`; an annotation marker and the autoscope marker
/// are taken in as [`TreeView::with_unary_operator`] says. The result is sound
/// again, and reads as the operator and the operand do.
pub fn apply_unary_operator(opr: Token<token::Operator>, rhs: Option<Tree>) -> (r: Tree)
    requires
        rhs.model().sound(),
        opr@.weight() + rhs.model().weight() <= usize::MAX,
    ensures
        r@ == TreeView::with_unary_operator(opr@, rhs.model()),
        r@.valid(),
        r@.source() == opr@.source() + rhs.model().text(),
{
    proof {
        lemma_with_unary_operator(opr@, rhs.model());
        lemma_build_len(VariantView::UnaryOprApp { opr: opr@, rhs: rhs.model() });
        rhs.model().lemma_measure();
    }
    let properties = opr.variant.properties;
    match rhs {
        Some(tree) => {
            if properties.is_annotation && tree.is_ident() {
                proof {
                    lemma_ident_token(tree@);
                }
                let annotation = ident_parts(tree);
                let newlines: Vec<Token<token::Newline>> = Vec::new();
                proof {
                    let nothing = Seq::<TokenView<token::Newline>>::empty();
                    assert(token_views(newlines@) =~= nothing);
                    assert(nothing.weight() == 0);
                }
                if annotation.variant.is_type {
                    Tree::annotated_builtin(opr, annotation, newlines, None)
                } else {
                    Tree::annotated(opr, annotation, None, newlines, None)
                }
            } else if properties.is_autoscope {
                if tree.is_ident() {
                    proof {
                        lemma_ident_token(tree@);
                    }
                    let ident = ident_parts(tree);
                    let is_type = ident.variant.is_type;
                    let node = Tree::autoscoped_identifier(opr, ident);
                    if is_type {
                        node
                    } else {
                        node.with_error(
                            "The auto-scope operator may only be applied to a capitalized identifier.",
                        )
                    }
                } else {
                    Tree::unary_opr_app(opr, Some(tree)).with_error(
                        "The auto-scope operator (..) may only be applied to an identifier.",
                    )
                }
            } else {
                Tree::unary_opr_app(opr, Some(tree))
            }
        },
        None => {
            if !properties.can_form_section {
                let message = operator_message(&opr, "` must be applied to an operand.");
                Tree::unary_opr_app(opr, None).with_error(message.as_str())
            } else {
                Tree::unary_opr_app(opr, None)
            }
        },
    }
}

/// The length of the source text of an operand that may be missing, where the
/// operand is sound and the length fits.
fn checked_operand_len(operand: &Option<Tree>) -> (r: Option<usize>)
    ensures
        r is Some == (operand.model().sound() && operand.model().weight() <= usize::MAX),
        r matches Some(n) ==> n == operand.model().weight(),
{
    match operand {
        Some(tree) => tree.checked_len(),
        None => Some(0),
    }
}

/// [`apply_operator`] for operands of which nothing is known: they are looked
/// at first, and they are joined where they are sound and the text of all is no
/// longer than a length may be.
pub fn try_apply_operator(
    lhs: Option<Tree>,
    opr: Vec<Token<token::Operator>>,
    rhs: Option<Tree>,
) -> (r: Option<Tree>)
    ensures
        r is Some == (lhs.model().sound() && rhs.model().sound() && lhs.model().weight()
            + token_views(opr@).weight() + rhs.model().weight() <= usize::MAX),
        r matches Some(tree) ==> tree@ == TreeView::operators_applied(
            lhs.model(),
            token_views(opr@),
            rhs.model(),
        ) && tree@.valid(),
{
    proof {
        lemma_seq_tokens(token_views(opr@));
        token_views(opr@).lemma_measure();
    }
    let before: usize = match checked_operand_len(&lhs) {
        Some(n) => n,
        None => {
            return None;
        },
    };
    let between: usize = match checked_len_of_tokens(&opr) {
        Some(n) => n,
        None => {
            return None;
        },
    };
    let after: usize = match checked_operand_len(&rhs) {
        Some(n) => n,
        None => {
            return None;
        },
    };
    if between > usize::MAX - before {
        return None;
    }
    if after > usize::MAX - before - between {
        return None;
    }
    Some(apply_operator(lhs, opr, rhs))
}

/// [`apply_unary_operator`] for an operand of which nothing is known: it is
/// looked at first, and the operator is put before it where it is sound and the
/// text of both is no longer than a length may be.
pub fn try_apply_unary_operator(opr: Token<token::Operator>, rhs: Option<Tree>) -> (r: Option<Tree>)
    ensures
        r is Some == (rhs.model().sound() && opr@.weight() + rhs.model().weight() <= usize::MAX),
        r matches Some(tree) ==> tree@ == TreeView::with_unary_operator(opr@, rhs.model())
            && tree@.valid(),
{
    let before: usize = match opr.checked_len() {
        Some(n) => n,
        None => {
            return None;
        },
    };
    let after: usize = match checked_operand_len(&rhs) {
        Some(n) => n,
        None => {
            return None;
        },
    };
    if after > usize::MAX - before {
        return None;
    }
    Some(apply_unary_operator(opr, rhs))
}

} // verus!
