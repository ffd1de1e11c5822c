//! Offsets and spans: the bookkeeping of leading whitespace and code length
//! that every node of a tree carries.

use vstd::prelude::*;

verus! {

/// The values of several runs, one run after the other.
pub open spec fn concat<A>(parts: Seq<Seq<A>>) -> Seq<A>
    decreases parts.len(),
{
    if parts.len() == 0 {
        Seq::empty()
    } else {
        concat(parts.drop_last()) + parts.last()
    }
}

/// The text of two runs of fragments is the text of the first and then the text
/// of the second.
pub proof fn lemma_concat_append<A>(front: Seq<Seq<A>>, back: Seq<Seq<A>>)
    ensures
        concat(front + back) == concat(front) + concat(back),
    decreases back.len(),
{
    if back.len() == 0 {
        assert(front + back =~= front);
        assert(concat(front) + concat(back) =~= concat(front));
    } else {
        lemma_concat_append(front, back.drop_last());
        assert((front + back).drop_last() =~= front + back.drop_last());
        assert(concat(front + back) =~= concat(front) + concat(back));
    }
}

/// Text that is appended to what was appended before is appended to the start.
pub proof fn lemma_appended<A>(start: Seq<A>, text: Seq<A>, more: Seq<A>)
    ensures
        (start + text) + more == start + (text + more),
{
    assert((start + text) + more =~= start + (text + more));
}

/// The text of several fragments is the first of them and then the text of the rest.
pub proof fn lemma_concat_first<A>(parts: Seq<Seq<A>>)
    requires
        parts.len() > 0,
    ensures
        concat(parts) == parts[0] + concat(parts.drop_first()),
    decreases parts.len(),
{
    if parts.len() == 1 {
        assert(parts.drop_last() =~= Seq::<Seq<A>>::empty());
        assert(parts.drop_first() =~= Seq::<Seq<A>>::empty());
        assert(concat(parts) =~= parts[0] + concat(parts.drop_first()));
    } else {
        let front = parts.drop_last();
        lemma_concat_first(front);
        assert(parts.drop_first().drop_last() =~= front.drop_first());
        assert(concat(parts) =~= parts[0] + concat(parts.drop_first()));
    }
}

/// The whitespace (or comment) text that stands directly before an element,
/// kept verbatim. Its model is the text itself.
#[derive(Clone, Debug, PartialEq, Eq)]
pub struct Offset {
    pub code: String,
}

impl Offset {
    /// The text of the offset.
    pub open spec fn view(&self) -> Seq<char> {
        self.code@
    }

    /// The offset that holds `code`.
    pub fn new(code: String) -> (r: Offset)
        ensures
            r@ == code@,
    {
        Offset { code }
    }

    /// The offset that holds no text.
    pub fn empty() -> (r: Offset)
        ensures
            r@ == Seq::<char>::empty(),
    {
        Offset { code: String::new() }
    }

    /// The number of characters of the offset.
    pub fn len(&self) -> (n: usize)
        ensures
            n == self@.len(),
    {
        self.code.as_str().unicode_len()
    }

    /// Whether the offset holds no text.
    pub fn is_empty(&self) -> (b: bool)
        ensures
            b == (self@.len() == 0),
    {
        self.code.as_str().is_empty()
    }

    /// Hands the text out and leaves the offset empty.
    pub fn take_as_prefix(&mut self) -> (r: Offset)
        ensures
            r@ == old(self)@,
            final(self)@ == Seq::<char>::empty(),
    {
        let mut code = String::new();
        core::mem::swap(&mut self.code, &mut code);
        Offset { code }
    }

    /// The text of `self` followed by the text of `other`.
    pub fn concat(self, other: &Offset) -> (r: Offset)
        ensures
            r@ == self@ + other@,
    {
        let mut code = self.code;
        code.append(other.code.as_str());
        Offset { code }
    }

    /// Appends the text of `other` in place.
    pub fn push(&mut self, other: &Offset)
        ensures
            final(self)@ == old(self)@ + other@,
    {
        self.code.append(other.code.as_str());
    }
}

/// The model of a [`Span`]: the offset text and the length of the code after it.
pub struct SpanView {
    pub left_offset: Seq<char>,
    pub code_length: nat,
}

impl SpanView {
    /// The span of nothing.
    pub open spec fn empty() -> SpanView {
        SpanView { left_offset: Seq::empty(), code_length: 0 }
    }

    /// Neither offset nor code.
    pub open spec fn is_empty(self) -> bool {
        self.left_offset.len() == 0 && self.code_length == 0
    }

    /// The length of the offset and of the code together.
    pub open spec fn full_len(self) -> nat {
        self.left_offset.len() + self.code_length
    }

    /// Takes in an element with the given offset and code length. An empty span
    /// takes the element's offset for its own and leaves the element without one;
    /// any other span grows by the element's offset and code. The result is the
    /// new span and the offset that stays with the element.
    pub open spec fn absorb(
        self,
        left_offset: Seq<char>,
        code_length: nat,
    ) -> (SpanView, Seq<char>) {
        if self.is_empty() {
            (SpanView { left_offset, code_length }, Seq::empty())
        } else {
            (
                SpanView {
                    left_offset: self.left_offset,
                    code_length: self.code_length + left_offset.len() + code_length,
                },
                left_offset,
            )
        }
    }
}

/// Where an element stands in the source: the whitespace before it, and the length
/// of its own code, which counts everything beneath it but not that whitespace.
#[derive(Clone, Debug, PartialEq, Eq)]
pub struct Span {
    pub left_offset: Offset,
    pub code_length: usize,
}

impl Span {
    /// The model of the span.
    pub open spec fn view(&self) -> SpanView {
        SpanView { left_offset: self.left_offset@, code_length: self.code_length as nat }
    }

    /// The span of nothing.
    pub fn empty_without_offset() -> (r: Span)
        ensures
            r@ == SpanView::empty(),
    {
        Span { left_offset: Offset::empty(), code_length: 0 }
    }

    /// Whether the span holds neither offset nor code.
    pub fn is_empty(&self) -> (b: bool)
        ensures
            b == self@.is_empty(),
    {
        self.left_offset.is_empty() && self.code_length == 0
    }

    /// Whether the span holds whitespace at most.
    pub fn is_only_offset(&self) -> (b: bool)
        ensures
            b == (self@.code_length == 0),
    {
        self.code_length == 0
    }

    /// The length of the offset and of the code together.
    pub fn length_including_whitespace(&self) -> (n: usize)
        requires
            self@.full_len() <= usize::MAX,
        ensures
            n == self@.full_len(),
    {
        self.left_offset.len() + self.code_length
    }

    /// The executable form of [`SpanView::absorb`].
    pub fn absorb(self, left_offset: Offset, code_length: usize) -> (r: (Span, Offset))
        requires
            self@.full_len() + left_offset@.len() + code_length <= usize::MAX,
        ensures
            r.0@ == self@.absorb(left_offset@, code_length as nat).0,
            r.1@ == self@.absorb(left_offset@, code_length as nat).1,
    {
        if self.is_empty() {
            (Span { left_offset, code_length }, Offset::empty())
        } else {
            let added: usize = left_offset.len() + code_length;
            (
                Span { left_offset: self.left_offset, code_length: self.code_length + added },
                left_offset,
            )
        }
    }
}

/// A model value that a growing span can take in: a token, a tree, or anything
/// made of them. `fold_into` gives the span after the value and the value as it
/// stands in the tree afterwards (its leading offset may have moved to the span).
pub trait Piece: Sized {
    spec fn fold_into(self, span: SpanView) -> (SpanView, Self);

    /// The number of characters that the value adds to a span.
    spec fn weight(self) -> nat;

    /// The source text that the value stands for.
    spec fn text(self) -> Seq<char>;

    /// Every span inside the value covers exactly the text beneath it.
    spec fn sound(self) -> bool;

    proof fn lemma_weight(self, span: SpanView)
        ensures
            self.fold_into(span).0.full_len() == span.full_len() + self.weight(),
    ;

    /// A sound value adds to a span as many characters as its text has.
    proof fn lemma_measure(self)
        requires
            self.sound(),
        ensures
            self.weight() == self.text().len(),
    ;

    /// Folding a sound value into a span loses no text.
    proof fn lemma_fold(self, span: SpanView, covered: Seq<char>)
        requires
            self.sound(),
            span.code_length == covered.len(),
        ensures
            self.fold_into(span).1.sound(),
            self.fold_into(
                span
            ).0.code_length == covered.len() + self.fold_into(span).1.text().len(),
            self.fold_into(span).0.left_offset + (covered + self.fold_into(span).1.text()) == (
            span.left_offset + covered) + self.text(),
    ;
}

impl<P: Piece> Piece for Option<P> {
    open spec fn fold_into(self, span: SpanView) -> (SpanView, Self) {
        match self {
            Some(p) => (p.fold_into(span).0, Some(p.fold_into(span).1)),
            None => (span, None),
        }
    }

    open spec fn weight(self) -> nat {
        match self {
            Some(p) => p.weight(),
            None => 0,
        }
    }

    open spec fn text(self) -> Seq<char> {
        match self {
            Some(p) => p.text(),
            None => Seq::empty(),
        }
    }

    open spec fn sound(self) -> bool {
        match self {
            Some(p) => p.sound(),
            None => true,
        }
    }

    proof fn lemma_weight(self, span: SpanView) {
        match self {
            Some(p) => p.lemma_weight(span),
            None => {},
        }
    }

    proof fn lemma_measure(self) {
        match self {
            Some(p) => p.lemma_measure(),
            None => {},
        }
    }

    proof fn lemma_fold(self, span: SpanView, covered: Seq<char>) {
        match self {
            Some(p) => p.lemma_fold(span, covered),
            None => {
                assert(span.left_offset + (
                    covered + Seq::<char>::empty()
                ) =~= (span.left_offset + covered)
                    + Seq::<char>::empty());
            },
        }
    }
}

impl<P: Piece, Q: Piece> Piece for Result<P, Q> {
    open spec fn fold_into(self, span: SpanView) -> (SpanView, Self) {
        match self {
            Ok(p) => (p.fold_into(span).0, Ok(p.fold_into(span).1)),
            Err(q) => (q.fold_into(span).0, Err(q.fold_into(span).1)),
        }
    }

    open spec fn weight(self) -> nat {
        match self {
            Ok(p) => p.weight(),
            Err(q) => q.weight(),
        }
    }

    open spec fn text(self) -> Seq<char> {
        match self {
            Ok(p) => p.text(),
            Err(q) => q.text(),
        }
    }

    open spec fn sound(self) -> bool {
        match self {
            Ok(p) => p.sound(),
            Err(q) => q.sound(),
        }
    }

    proof fn lemma_weight(self, span: SpanView) {
        match self {
            Ok(p) => p.lemma_weight(span),
            Err(q) => q.lemma_weight(span),
        }
    }

    proof fn lemma_measure(self) {
        match self {
            Ok(p) => p.lemma_measure(),
            Err(q) => q.lemma_measure(),
        }
    }

    proof fn lemma_fold(self, span: SpanView, covered: Seq<char>) {
        match self {
            Ok(p) => p.lemma_fold(span, covered),
            Err(q) => q.lemma_fold(span, covered),
        }
    }
}

/// The texts of the values of a sequence, in order.
pub open spec fn texts<P: Piece>(items: Seq<P>) -> Seq<Seq<char>> {
    Seq::new(items.len(), |i: int| items[i].text())
}

impl<P: Piece> Piece for Seq<P> {
    open spec fn fold_into(self, span: SpanView) -> (SpanView, Self)
        decreases self.len(),
    {
        if self.len() == 0 {
            (span, self)
        } else {
            let done = self.drop_last().fold_into(span);
            let last = self.last().fold_into(done.0);
            (last.0, done.1.push(last.1))
        }
    }

    open spec fn weight(self) -> nat
        decreases self.len(),
    {
        if self.len() == 0 {
            0
        } else {
            self.drop_last().weight() + self.last().weight()
        }
    }

    open spec fn text(self) -> Seq<char> {
        concat(texts(self))
    }

    open spec fn sound(self) -> bool {
        forall|i: int| 0 <= i < self.len() ==> (#[trigger] self[i]).sound()
    }

    proof fn lemma_weight(self, span: SpanView)
        decreases self.len(),
    {
        if self.len() > 0 {
            self.drop_last().lemma_weight(span);
            self.last().lemma_weight(self.drop_last().fold_into(span).0);
        }
    }

    proof fn lemma_measure(self)
        decreases self.len(),
    {
        if self.len() > 0 {
            let front = self.drop_last();
            front.lemma_measure();
            self.last().lemma_measure();
            assert(front.push(self.last()) =~= self);
            lemma_text_push(front, self.last());
        }
    }

    proof fn lemma_fold(self, span: SpanView, covered: Seq<char>)
        decreases self.len(),
    {
        if self.len() == 0 {
            assert(
                span.left_offset + (
                    covered + self.text()
                ) =~= (span.left_offset + covered) + self.text()
            );
        } else {
            let front = self.drop_last();
            let done = front.fold_into(span);
            front.lemma_fold(span, covered);
            let grown = covered + done.1.text();
            self.last().lemma_fold(done.0, grown);
            let last = self.last().fold_into(done.0);
            let all = done.1.push(last.1);
            lemma_text_push(done.1, last.1);
            assert(front.push(self.last()) =~= self);
            lemma_text_push(front, self.last());
            assert(grown + last.1.text() =~= covered + all.text());
            assert((
                (span.left_offset + covered) + front.text()
            ) + self.last().text() =~= (span.left_offset
                + covered) + self.text());
            assert forall|i: int| 0 <= i < all.len() implies (#[trigger] all[i]).sound() by {
                if i < done.1.len() {
                    assert(all[i] == done.1[i]);
                }
            }
        }
    }
}

/// One more step of folding the fields of a node. So far the span covers
/// `covered`, which is `base` and then the text `now` of the fields as they stand
/// in the node, and the whole reads as `whole` and then the text `was` of the
/// fields as they were. After `piece`, the same holds with its two texts added.
pub proof fn lemma_step<P: Piece>(
    piece: P,
    span: SpanView,
    covered: Seq<char>,
    base: Seq<char>,
    now: Seq<char>,
    whole: Seq<char>,
    was: Seq<char>,
)
    requires
        piece.sound(),
        span.code_length == covered.len(),
        covered == base + now,
        span.left_offset + covered == whole + was,
    ensures
        piece.fold_into(span).1.sound(),
        piece.fold_into(span).0.code_length == (covered + piece.fold_into(span).1.text()).len(),
        covered + piece.fold_into(span).1.text() == base + (now + piece.fold_into(span).1.text()),
        piece.fold_into(span).0.left_offset + (covered + piece.fold_into(span).1.text()) == whole
            + (was + piece.text()),
{
    piece.lemma_fold(span, covered);
    let after = piece.fold_into(span);
    assert(covered + after.1.text() =~= base + (now + after.1.text()));
    assert((whole + was) + piece.text() =~= whole + (was + piece.text()));
}

/// The text of a sequence with one more value is the text of the sequence
/// followed by the text of that value.
pub proof fn lemma_text_push<P: Piece>(items: Seq<P>, last: P)
    ensures
        items.push(last).text() == items.text() + last.text(),
{
    let all = items.push(last);
    assert(texts(all).drop_last() =~= texts(items));
    assert(texts(all).last() == last.text());
}

/// Each value of a sequence weighs no more than the whole, and neither does a prefix.
pub proof fn lemma_weight_prefix<P: Piece>(items: Seq<P>, k: int)
    requires
        0 <= k <= items.len(),
    ensures
        items.subrange(0, k).weight() <= items.weight(),
        k < items.len() ==> items.subrange(0, k).weight() + items[k].weight() <= items.weight(),
    decreases items.len(),
{
    if k < items.len() {
        let front = items.drop_last();
        if k < front.len() {
            lemma_weight_prefix(front, k);
            assert(front.subrange(0, k) =~= items.subrange(0, k));
        } else {
            assert(items.subrange(0, k) =~= front);
        }
    } else {
        assert(items.subrange(0, k) =~= items);
    }
}

/// An executable value that a growing span can take in. `model` is the value's
/// mathematical model, and `add_to_span` does what [`Piece::fold_into`] says of it.
pub trait SpanItem: Sized {
    type M: Piece;

    spec fn model(&self) -> Self::M;

    fn add_to_span(self, span: Span) -> (r: (Span, Self))
        requires
            span@.full_len() + self.model().weight() <= usize::MAX,
        ensures
            r.0@ == self.model().fold_into(span@).0,
            r.1.model() == self.model().fold_into(span@).1,
    ;

    /// The number of characters that the value adds to a span.
    fn measure(&self) -> (n: usize)
        requires
            self.model().weight() <= usize::MAX,
        ensures
            n == self.model().weight(),
    ;
}

impl<T: SpanItem> SpanItem for Option<T> {
    type M = Option<T::M>;

    open spec fn model(&self) -> Option<T::M> {
        match self {
            Some(t) => Some(t.model()),
            None => None,
        }
    }

    fn add_to_span(self, span: Span) -> (r: (Span, Self)) {
        match self {
            Some(t) => {
                let (span, t) = t.add_to_span(span);
                (span, Some(t))
            },
            None => (span, None),
        }
    }

    fn measure(&self) -> (n: usize) {
        match self {
            Some(t) => t.measure(),
            None => 0,
        }
    }
}

impl<T: SpanItem, E: SpanItem> SpanItem for Result<T, E> {
    type M = Result<T::M, E::M>;

    open spec fn model(&self) -> Result<T::M, E::M> {
        match self {
            Ok(t) => Ok(t.model()),
            Err(e) => Err(e.model()),
        }
    }

    fn add_to_span(self, span: Span) -> (r: (Span, Self)) {
        match self {
            Ok(t) => {
                let (span, t) = t.add_to_span(span);
                (span, Ok(t))
            },
            Err(e) => {
                let (span, e) = e.add_to_span(span);
                (span, Err(e))
            },
        }
    }

    fn measure(&self) -> (n: usize) {
        match self {
            Ok(t) => t.measure(),
            Err(e) => e.measure(),
        }
    }
}

/// The models of the values of a sequence, in order.
pub open spec fn models<T: SpanItem>(items: Seq<T>) -> Seq<T::M> {
    Seq::new(items.len(), |i: int| items[i].model())
}

/// The same values in the opposite order.
pub fn reversed<T>(items: Vec<T>) -> (r: Vec<T>)
    ensures
        r@ == items@.reverse(),
{
    let mut items = items;
    let ghost all = items@;
    let mut out: Vec<T> = Vec::new();
    while items.len() > 0
        invariant
            items@.len() + out@.len() == all.len(),
            items@ == all.subrange(0, items@.len() as int),
            forall|i: int| 0 <= i < out@.len() ==> out@[i] == all[all.len() - 1 - i],
        decreases items@.len(),
    {
        match items.pop() {
            Some(x) => out.push(x),
            None => {},
        }
    }
    assert(out@ =~= all.reverse());
    out
}

impl<T: SpanItem> SpanItem for Vec<T> {
    type M = Seq<T::M>;

    open spec fn model(&self) -> Seq<T::M> {
        models(self@)
    }

    fn add_to_span(self, span: Span) -> (r: (Span, Self)) {
        let ghost all = self@;
        let ghost span0 = span@;
        let mut rest = reversed(self);
        let mut span = span;
        let mut out: Vec<T> = Vec::new();
        while rest.len() > 0
            invariant
                rest@.len() + out@.len() == all.len(),
                rest@ == all.reverse().subrange(0, rest@.len() as int),
                span@ == models(all.subrange(0, out@.len() as int)).fold_into(span0).0,
                models(out@) == models(all.subrange(0, out@.len() as int)).fold_into(span0).1,
                span0.full_len() + models(all).weight() <= usize::MAX,
            decreases rest@.len(),
        {
            let ghost k = out@.len() as int;
            let ghost front = models(all.subrange(0, k));
            let ghost upto = models(all.subrange(0, k + 1));
            match rest.pop() {
                Some(x) => {
                    proof {
                        assert(x == all[k]);
                        assert(upto.drop_last() =~= front);
                        assert(upto.last() == x.model());
                        front.lemma_weight(span0);
                        lemma_weight_prefix(models(all), k);
                        assert(models(all).subrange(0, k) =~= front);
                    }
                    let (grown, x) = x.add_to_span(span);
                    span = grown;
                    out.push(x);
                    proof {
                        assert(models(out@) =~= upto.fold_into(span0).1);
                    }
                },
                None => {},
            }
        }
        proof {
            assert(all.subrange(0, out@.len() as int) =~= all);
        }
        (span, out)
    }

    fn measure(&self) -> (n: usize) {
        let ghost all = models(self@);
        let mut n: usize = 0;
        let mut i: usize = 0;
        while i < self.len()
            invariant
                i <= self@.len(),
                all == models(self@),
                all.weight() <= usize::MAX,
                n == all.subrange(0, i as int).weight(),
            decreases self@.len() - i,
        {
            proof {
                lemma_weight_prefix(all, i as int);
                assert(all.subrange(0, i + 1).drop_last() =~= all.subrange(0, i as int));
                assert(all.subrange(0, i + 1).last() == self@[i as int].model());
            }
            let one: usize = self[i].measure();
            n = n + one;
            i = i + 1;
        }
        proof {
            assert(all.subrange(0, i as int) =~= all);
        }
        n
    }
}

/// Folding a sequence into a span gives as many values as there were.
pub proof fn lemma_fold_len<P: Piece>(pieces: Seq<P>, span: SpanView)
    ensures
        pieces.fold_into(span).1.len() == pieces.len(),
    decreases pieces.len(),
{
    if pieces.len() > 0 {
        lemma_fold_len(pieces.drop_last(), span);
    }
}

} // verus!
