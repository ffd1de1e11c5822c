//! Text literals arrive in fragments, which are joined here into one.

use crate::source::{concat, lemma_concat_append, lemma_concat_first, Offset, Span, SpanView};
use crate::token;
use crate::token::Token;
use crate::tree::model::{TextElementView, TextLiteralView, TreeView, VariantView};
use crate::tree::{TextElement, TextLiteral};
use vstd::prelude::*;

verus! {

impl TextElementView {
    /// The same element with `more` before the offset of its first token.
    pub open spec fn offset_prefixed(self, more: Seq<char>) -> TextElementView {
        match self {
            TextElementView::Section { text } => TextElementView::Section {
                text: text.offset_prefixed(more),
            },
            TextElementView::Escape { token } => TextElementView::Escape {
                token: token.offset_prefixed(more),
            },
            TextElementView::Newline { newline } => TextElementView::Newline {
                newline: newline.offset_prefixed(more),
            },
            TextElementView::Splice { open, expression, close } => TextElementView::Splice {
                open: open.offset_prefixed(more),
                expression,
                close,
            },
        }
    }

    /// The same elements with `more` before the offset of the first of them.
    pub open spec fn first_prefixed(elements: Seq<TextElementView>, more: Seq<char>) -> Seq<
        TextElementView,
    > {
        if elements.len() == 0 {
            elements
        } else {
            elements.update(0, elements[0].offset_prefixed(more))
        }
    }
}

impl TextLiteralView {
    /// Joining `rhs` to `self` keeps the text in its order: `rhs` brings no
    /// opening token, which would be left behind; `self` has no end yet, which
    /// would be given up for that of `rhs`; an initial newline of `rhs` finds
    /// `self` without one and without elements, before which it would come to
    /// stand, and has no whitespace before it that would go to an element
    /// behind it; and the whitespace before `rhs` has something to go to.
    pub open spec fn joins_in_order(self, rhs: TextLiteralView, rhs_offset: Seq<char>) -> bool {
        &&& rhs.open is None
        &&& self.close is None
        &&& rhs.newline is Some ==> {
            &&& self.newline is None
            &&& self.elements.len() == 0
            &&& rhs_offset.len() == 0 || rhs.elements.len() == 0
        }
        &&& rhs_offset.len() == 0 || rhs.elements.len() > 0 || rhs.newline is Some
            || rhs.close is Some
    }
}

/// What [`TextElementView::first_prefixed`] does to the text of the elements.
pub proof fn lemma_elements_prefixed(elements: Seq<TextElementView>, more: Seq<char>)
    requires
        more.len() == 0 || elements.len() > 0,
    ensures
        TextElementView::all_valid(elements) ==> TextElementView::all_valid(
            TextElementView::first_prefixed(elements, more),
        ),
        TextElementView::sources(TextElementView::first_prefixed(elements, more)) == more
            + TextElementView::sources(elements),
{
    let after = TextElementView::first_prefixed(elements, more);
    let was = TextElementView::source_parts(elements);
    let now = TextElementView::source_parts(after);
    if elements.len() > 0 {
        lemma_concat_first(was);
        lemma_concat_first(now);
        assert(now.drop_first() =~= was.drop_first());
        if TextElementView::all_valid(elements) {
            assert forall|i: int| 0 <= i < after.len() implies (#[trigger] after[i]).valid() by {
                assert(elements[i].valid());
            }
        }
        assert(now[0] =~= more + was[0]);
        assert(now[0] + concat(now.drop_first()) =~= more + (was[0] + concat(was.drop_first())));
    } else {
        assert(more + TextElementView::sources(elements) =~= TextElementView::sources(elements));
    }
}

/// Joining two fragments of a text loses no text: the result reads as the
/// first, the whitespace before the second, and the second. Where both are
/// sound, so is the result.
pub proof fn lemma_joined(lhs: TextLiteralView, rhs: TextLiteralView, rhs_offset: Seq<char>)
    requires
        lhs.joins_in_order(rhs, rhs_offset),
    ensures
        lhs.joined(rhs, rhs_offset).source() == lhs.source() + rhs_offset + rhs.source(),
        lhs.valid() && rhs.valid() ==> lhs.joined(rhs, rhs_offset).valid(),
{
    let moved = if rhs.elements.len() > 0 {
        TextElementView::first_prefixed(rhs.elements, rhs_offset)
    } else {
        rhs.elements
    };
    let all = lhs.elements + moved;
    let none = Seq::<char>::empty();
    if rhs.elements.len() > 0 {
        lemma_elements_prefixed(rhs.elements, rhs_offset);
    } else {
        assert(TextElementView::sources(rhs.elements) =~= none) by {
            assert(TextElementView::source_parts(rhs.elements) =~= Seq::<Seq<char>>::empty());
        }
        if rhs.newline is Some {
            assert(rhs.newline->0.offset_prefixed(rhs_offset).source() =~= rhs_offset
                + rhs.newline->0.source());
        } else if rhs.close is Some {
            assert(rhs.close->0.offset_prefixed(rhs_offset).source() =~= rhs_offset
                + rhs.close->0.source());
        }
    }
    if rhs.newline is Some {
        assert(TextElementView::sources(lhs.elements) =~= none) by {
            assert(TextElementView::source_parts(lhs.elements) =~= Seq::<Seq<char>>::empty());
        }
        assert(all =~= moved);
    } else {
        assert(TextElementView::source_parts(all) =~= TextElementView::source_parts(lhs.elements)
            + TextElementView::source_parts(moved));
        lemma_concat_append(
            TextElementView::source_parts(lhs.elements),
            TextElementView::source_parts(moved),
        );
    }
    assert(lhs.joined(rhs, rhs_offset).source() =~= lhs.source() + rhs_offset + rhs.source());
    if lhs.valid() && rhs.valid() {
        assert forall|i: int| 0 <= i < all.len() implies (#[trigger] all[i]).valid() by {
            if i < lhs.elements.len() {
                assert(lhs.elements[i].valid());
            } else {
                if rhs.elements.len() > 0 {
                    assert(moved[i - lhs.elements.len()].valid());
                } else {
                    assert(rhs.elements[i - lhs.elements.len()].valid());
                }
            }
        }
    }
}

impl TextLiteralView {
    /// The literal `self` with the fragment `rhs` joined to its end, where
    /// `rhs_offset` is the whitespace that stood before `rhs`. The elements of
    /// `rhs` follow those of `self`, and the first of them takes `rhs_offset`
    /// before the offset that it has; where `rhs` has no element, its initial
    /// newline takes `rhs_offset` so, and where it has neither, its closing
    /// token. The initial newline of `rhs`, where it has one, its closing token
    /// and whether it is closed are taken over; its opening token is not.
    pub open spec fn joined(self, rhs: TextLiteralView, rhs_offset: Seq<char>) -> TextLiteralView {
        TextLiteralView {
            open: self.open,
            newline: match rhs.newline {
                Some(newline) => if rhs.elements.len() == 0 {
                    Some(newline.offset_prefixed(rhs_offset))
                } else {
                    rhs.newline
                },
                None => self.newline,
            },
            elements: self.elements + TextElementView::first_prefixed(rhs.elements, rhs_offset),
            close: match rhs.close {
                Some(close) => if rhs.elements.len() == 0 && rhs.newline is None {
                    Some(close.offset_prefixed(rhs_offset))
                } else {
                    rhs.close
                },
                None => None,
            },
            closed: rhs.closed,
        }
    }

    /// What is left of a fragment that was joined to another.
    pub open spec fn drained(self) -> TextLiteralView {
        TextLiteralView {
            open: self.open,
            newline: None,
            elements: Seq::empty(),
            close: None,
            closed: self.closed,
        }
    }
}

impl SpanView {
    /// The span with `more` characters of code added.
    pub open spec fn grown(self, more: nat) -> SpanView {
        SpanView { left_offset: self.left_offset, code_length: self.code_length + more }
    }
}

impl TreeView {
    /// The text literal that the node holds, where it holds one.
    pub open spec fn text_literal(self) -> TextLiteralView
        recommends
            *self.variant is TextLiteral,
    {
        match *self.variant {
            VariantView::TextLiteral { open, newline, elements, close, closed } => TextLiteralView {
                open,
                newline,
                elements,
                close,
                closed,
            },
            _ => arbitrary(),
        }
    }

    /// The node of a text literal after the fragment that the node `rhs` holds
    /// was joined to it: the literal is the joined one, and the span has grown
    /// by the whole length of `rhs`.
    pub open spec fn text_joined(self, rhs: TreeView) -> TreeView
        recommends
            *self.variant is TextLiteral,
            *rhs.variant is TextLiteral,
    {
        let text = self.text_literal().joined(rhs.text_literal(), rhs.span.left_offset);
        TreeView {
            span: self.span.grown(rhs.span.full_len()),
            variant: Box::new(
                VariantView::TextLiteral {
                    open: text.open,
                    newline: text.newline,
                    elements: text.elements,
                    close: text.close,
                    closed: text.closed,
                },
            ),
        }
    }
}

/// The node of a text literal to which a fragment was joined is sound where
/// both were, and reads as the two do, one after the other.
pub proof fn lemma_text_joined(lhs: TreeView, rhs: TreeView)
    requires
        lhs.valid(),
        rhs.valid(),
        *lhs.variant is TextLiteral,
        *rhs.variant is TextLiteral,
        lhs.text_literal().joins_in_order(rhs.text_literal(), rhs.span.left_offset),
    ensures
        lhs.text_joined(rhs).valid(),
        lhs.text_joined(rhs).source() == lhs.source() + rhs.source(),
{
    let first = lhs.text_literal();
    let second = rhs.text_literal();
    let offset = rhs.span.left_offset;
    lemma_joined(first, second, offset);
    assert((*lhs.variant).source() == first.source());
    assert((*rhs.variant).source() == second.source());
    assert((*lhs.text_joined(rhs).variant).source() == first.joined(second, offset).source());
    let before = lhs.span.left_offset;
    assert(before + (first.source() + offset + second.source()) =~= (before + first.source())
        + (offset + second.source()));
}

impl TextElement {
    /// The same element with the text of `more` before the offset of its first
    /// token.
    pub fn offset_prefixed(self, more: &Offset) -> (r: TextElement)
        ensures
            r@ == self@.offset_prefixed(more@),
    {
        match self {
            TextElement::Section { text } => TextElement::Section {
                text: text.offset_prefixed(more),
            },
            TextElement::Escape { token } => TextElement::Escape {
                token: token.offset_prefixed(more),
            },
            TextElement::Newline { newline } => TextElement::Newline {
                newline: newline.offset_prefixed(more),
            },
            TextElement::Splice { open, expression, close } => TextElement::Splice {
                open: open.offset_prefixed(more),
                expression,
                close,
            },
        }
    }
}

/// Joins the fragment `rhs` of a text literal to the end of `lhs`, as
/// [`TextLiteralView::joined`] says, and leaves `rhs` drained. The span of `lhs`
/// grows by the whole length of the span of `rhs`.
pub fn join_text_literals(
    lhs: &mut TextLiteral,
    rhs: &mut TextLiteral,
    lhs_span: &mut Span,
    rhs_span: Span,
)
    requires
        old(lhs_span)@.code_length + rhs_span@.full_len() <= usize::MAX,
    ensures
        final(lhs)@ == old(lhs)@.joined(old(rhs)@, rhs_span@.left_offset),
        final(rhs)@ == old(rhs)@.drained(),
        final(lhs_span)@ == old(lhs_span)@.grown(rhs_span@.full_len()),
{
    let ghost was = lhs@;
    let ghost other = rhs@;
    let added: usize = rhs_span.length_including_whitespace();
    lhs_span.code_length = lhs_span.code_length + added;
    let mut elements: Vec<TextElement> = Vec::new();
    core::mem::swap(&mut rhs.elements, &mut elements);
    let mut newline: Option<Token<token::Newline>> = None;
    core::mem::swap(&mut rhs.newline, &mut newline);
    let mut close: Option<Token<token::TextEnd>> = None;
    core::mem::swap(&mut rhs.close, &mut close);
    if elements.len() > 0 {
        let first = elements.remove(0);
        lhs.elements.push(first.offset_prefixed(&rhs_span.left_offset));
        lhs.elements.append(&mut elements);
        if newline.is_some() {
            lhs.newline = newline;
        }
        lhs.close = close;
    } else {
        match newline {
            Some(newline) => {
                lhs.newline = Some(newline.offset_prefixed(&rhs_span.left_offset));
                lhs.close = close;
            },
            None => {
                lhs.close = match close {
                    Some(close) => Some(close.offset_prefixed(&rhs_span.left_offset)),
                    None => None,
                };
            },
        }
    }
    lhs.closed = rhs.closed;
    proof {
        assert(TextElement::views(lhs.elements@) =~= was.elements + TextElementView::first_prefixed(
            other.elements,
            rhs_span@.left_offset,
        ));
        assert(TextElement::views(rhs.elements@) =~= Seq::<TextElementView>::empty());
    }
}

} // verus!
