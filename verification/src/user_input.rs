use vstd::prelude::*;

use std::ops::RangeInclusive;
use vstd::std_specs::cmp::{PartialOrdIs, PartialOrdSpec};
use vstd::std_specs::range::ContainsSpec;

verus! {

/// Which entries of a list are selected.
#[derive(Debug, Clone)]
pub enum SelectionMode {
    Empty,
    Single(usize),
    Multiple(Vec<usize>),
    /// A span of entries, clicked from `first`.
    Range { first: usize, r: RangeInclusive<usize> },
}

/// What a selection holds, as plain values: a span keeps its bounds and
/// whether it has been iterated to its end.
pub ghost enum SelectionView {
    Nothing,
    One(usize),
    Many(Seq<usize>),
    Span { first: usize, start: usize, end: usize, exhausted: bool },
}

/// The lower bound of an inclusive range.
pub assume_specification<Idx>[ RangeInclusive::<Idx>::start ](r: &RangeInclusive<Idx>) -> (ret: &Idx)
    ensures
        !r@.exhausted ==> *ret == r@.start,
;

/// The upper bound of an inclusive range.
pub assume_specification<Idx>[ RangeInclusive::<Idx>::end ](r: &RangeInclusive<Idx>) -> (ret: &Idx)
    ensures
        !r@.exhausted ==> *ret == r@.end,
;

/// `RangeInclusive::is_empty`: a range that has been iterated to its end
/// holds no items; otherwise it holds none exactly when its start is not at
/// most its end (for index types whose comparison behaves).
pub assume_specification<Idx: PartialOrd<Idx>>[ RangeInclusive::<Idx>::is_empty ](r: &RangeInclusive<Idx>) -> (ret: bool) where
    Idx: PartialOrd<Idx>,
    ensures
        r@.exhausted ==> ret,
        !r@.exhausted && Idx::obeys_partial_cmp_spec() ==> ret == !r@.start.is_le(&r@.end),
;

/// A copy of an inclusive range (nothing is claimed of it).
pub assume_specification<Idx: Clone>[ <RangeInclusive<Idx> as Clone>::clone ](r: &RangeInclusive<Idx>) -> RangeInclusive<Idx>;

impl View for SelectionMode {
    type V = SelectionView;

    open spec fn view(&self) -> SelectionView {
        match self {
            SelectionMode::Empty => SelectionView::Nothing,
            SelectionMode::Single(i) => SelectionView::One(*i),
            SelectionMode::Multiple(v) => SelectionView::Many(v@),
            SelectionMode::Range { first, r } => SelectionView::Span {
                first: *first,
                start: r@.start,
                end: r@.end,
                exhausted: r@.exhausted,
            },
        }
    }
}

/// The span from `a` to `b`, clicked from `first`.
pub open spec fn span(first: usize, a: usize, b: usize) -> SelectionView {
    SelectionView::Span { first, start: a, end: b, exhausted: false }
}

/// The indexes that iterating a span yields: none once it has been
/// iterated to its end, `start..=end` otherwise.
pub open spec fn span_entries(start: usize, end: usize, exhausted: bool) -> Seq<usize> {
    if exhausted {
        Seq::empty()
    } else {
        span_items(start, end)
    }
}

/// The indexes `start..=end` in order.
pub open spec fn span_items(start: usize, end: usize) -> Seq<usize> {
    if start <= end {
        Seq::new((end - start + 1) as nat, |i: int| (start + i) as usize)
    } else {
        Seq::empty()
    }
}

/// `i` is the first position of `x` in `s`.
pub open spec fn first_at(s: Seq<usize>, x: usize, i: int) -> bool {
    &&& 0 <= i < s.len()
    &&& s[i] == x
    &&& forall|j: int| 0 <= j < i ==> s[j] != x
}

/// `s` with its first `x` taken out, or with `x` added at the end when it
/// holds none.
pub open spec fn toggled(s: Seq<usize>, x: usize) -> Seq<usize> {
    if s.contains(x) {
        s.remove(choose|i: int| first_at(s, x, i))
    } else {
        s.push(x)
    }
}

impl SelectionView {
    /// The selection after a click on `idx`: with shift held a span is
    /// drawn from the last anchor (a click on the anchor itself narrows it
    /// to that entry, or clears a single selection), with control held the
    /// entry is added to or taken out of the selected ones, and a plain
    /// click selects that entry alone.
    pub open spec fn clicked(self, idx: usize, shift: bool, control: bool) -> SelectionView {
        if shift {
            match self {
                SelectionView::Nothing => SelectionView::One(idx),
                SelectionView::One(i) => if idx == i {
                    SelectionView::Nothing
                } else if idx < i {
                    span(i, idx, i)
                } else {
                    span(i, i, idx)
                },
                SelectionView::Many(v) => {
                    let last = v.last();
                    if last == idx {
                        SelectionView::One(idx)
                    } else if last < idx {
                        span(last, last, idx)
                    } else {
                        span(last, idx, last)
                    }
                },
                SelectionView::Span { first, .. } => if first == idx {
                    SelectionView::One(idx)
                } else if first < idx {
                    span(first, first, idx)
                } else {
                    span(first, idx, first)
                },
            }
        } else if control {
            match self {
                SelectionView::Nothing => SelectionView::Many(seq![idx]),
                SelectionView::One(i) => SelectionView::Many(seq![i, idx]),
                SelectionView::Many(v) => SelectionView::Many(toggled(v, idx)),
                SelectionView::Span { start, end, exhausted, .. } => SelectionView::Many(
                    toggled(span_entries(start, end, exhausted), idx),
                ),
            }
        } else {
            SelectionView::One(idx)
        }
    }

    /// Whether the entry at `idx` is selected.
    pub open spec fn has(self, idx: usize) -> bool {
        match self {
            SelectionView::Nothing => false,
            SelectionView::One(i) => i == idx,
            SelectionView::Many(v) => v.contains(idx),
            SelectionView::Span { start, end, exhausted, .. } => start <= idx && if exhausted {
                idx < end
            } else {
                idx <= end
            },
        }
    }

    /// A click on `idx` can be handled: a shift-click needs a last entry
    /// of a multiple selection.
    pub open spec fn click_ok(self, shift: bool, control: bool) -> bool {
        shift ==> (self matches SelectionView::Many(v) ==> v.len() > 0)
    }
}

/// The indexes `start..=end` in order.
pub(crate) fn items_between(start: usize, end: usize) -> (v: Vec<usize>)
    ensures
        v@ == span_items(start, end),
{
    let mut v: Vec<usize> = Vec::new();
    if start > end {
        return v;
    }
    let mut i: usize = start;
    loop
        invariant_except_break
            start <= i <= end,
            v@ == span_items(start, end).subrange(0, i - start),
        ensures
            v@ == span_items(start, end),
        decreases end - i,
    {
        v.push(i);
        assert(v@ == span_items(start, end).subrange(0, i + 1 - start));
        if i == end {
            assert(span_items(start, end).subrange(0, i + 1 - start) == span_items(start, end));
            break;
        }
        i = i + 1;
    }
    v
}

/// Takes the first `x` out of `v`, or adds `x` at the end when it holds
/// none.
fn toggle(items: Vec<usize>, x: usize) -> (r: Vec<usize>)
    ensures
        r@ == toggled(items@, x),
{
    let mut v = items;
    let mut i: usize = 0;
    while i < v.len()
        invariant
            i <= v@.len(),
            v@ == items@,
            forall|j: int| 0 <= j < i ==> v@[j] != x,
        decreases v@.len() - i,
    {
        if v[i] == x {
            let ghost s = v@;
            proof {
                assert(first_at(s, x, i as int));
                assert forall|k: int| #[trigger] first_at(s, x, k) implies k == i by {
                    if k < i {
                    } else if k > i {
                        assert(s[i as int] == x);
                    }
                }
                assert(s.contains(x));
            }
            v.remove(i);
            return v;
        }
        i = i + 1;
    }
    assert(!v@.contains(x));
    v.push(x);
    v
}

impl SelectionMode {
    /// Updates the selection after a click on entry `clicked_idx`, with
    /// shift or control held or neither.
    pub fn update_selection(self, clicked_idx: usize, shift: bool, control: bool) -> (r: Self)
        requires
            self@.click_ok(shift, control),
        ensures
            r@ == self@.clicked(clicked_idx, shift, control),
    {
        let ghost before = self@;
        let res = if shift {
            match self {
                SelectionMode::Empty => SelectionMode::Single(clicked_idx),
                SelectionMode::Single(idx) => if clicked_idx == idx {
                    SelectionMode::Empty
                } else if clicked_idx < idx {
                    SelectionMode::Range { first: idx, r: clicked_idx..=idx }
                } else {
                    SelectionMode::Range { first: idx, r: idx..=clicked_idx }
                },
                SelectionMode::Multiple(v) => {
                    let last = v[v.len() - 1];
                    if last == clicked_idx {
                        SelectionMode::Single(clicked_idx)
                    } else if last < clicked_idx {
                        SelectionMode::Range { first: last, r: last..=clicked_idx }
                    } else {
                        SelectionMode::Range { first: last, r: clicked_idx..=last }
                    }
                },
                SelectionMode::Range { first, r: _ } => if first == clicked_idx {
                    SelectionMode::Single(clicked_idx)
                } else if first < clicked_idx {
                    SelectionMode::Range { first, r: first..=clicked_idx }
                } else {
                    SelectionMode::Range { first, r: clicked_idx..=first }
                },
            }
        } else if control {
            match self {
                SelectionMode::Empty => {
                    let mut v = Vec::new();
                    v.push(clicked_idx);
                    assert(v@ =~= seq![clicked_idx]);
                    SelectionMode::Multiple(v)
                },
                SelectionMode::Single(idx) => {
                    let mut v = Vec::new();
                    v.push(idx);
                    v.push(clicked_idx);
                    assert(v@ =~= seq![idx, clicked_idx]);
                    SelectionMode::Multiple(v)
                },
                SelectionMode::Multiple(v) => SelectionMode::Multiple(toggle(v, clicked_idx)),
                SelectionMode::Range { first: _, r } => {
                    let v = if r.is_empty() {
                        Vec::new()
                    } else {
                        items_between(*r.start(), *r.end())
                    };
                    SelectionMode::Multiple(toggle(v, clicked_idx))
                },
            }
        } else {
            SelectionMode::Single(clicked_idx)
        };
        res
    }

    /// Whether the entry at `idx` is selected.
    pub fn contains(&self, idx: usize) -> (r: bool)
        ensures
            r == self@.has(idx),
    {
        match self {
            SelectionMode::Empty => false,
            SelectionMode::Single(sidx) => *sidx == idx,
            SelectionMode::Multiple(v) => {
                let mut i: usize = 0;
                while i < v.len()
                    invariant
                        i <= v@.len(),
                        self@ == SelectionView::Many(v@),
                        forall|j: int| 0 <= j < i ==> v@[j] != idx,
                    decreases v@.len() - i,
                {
                    if v[i] == idx {
                        assert(v@[i as int] == idx);
                        return true;
                    }
                    i = i + 1;
                }
                false
            },
            SelectionMode::Range { first: _, r } => r.contains(&idx),
        }
    }
}

/// A plain click selects the clicked entry and nothing else.
pub proof fn law_plain_click_selects_one(sel: SelectionView, idx: usize, i: usize)
    ensures
        sel.clicked(idx, false, false).has(i) <==> i == idx,
{
}

/// A shift-click away from a single selected entry selects exactly the
/// entries between the two, both included.
pub proof fn law_shift_click_spans(a: usize, b: usize, i: usize)
    requires
        a != b,
    ensures
        SelectionView::One(a).clicked(b, true, false).has(i) <==> (if a < b {
            a <= i <= b
        } else {
            b <= i <= a
        }),
{
}

/// A shift-click on a span anchored at `first`, on another entry, selects
/// exactly the entries between the anchor and the clicked entry, both
/// included, and keeps the anchor; a shift-click on the anchor itself
/// selects that entry alone. This holds whatever the span held before.
pub proof fn law_shift_click_on_span_redraws_it(
    first: usize,
    start: usize,
    end: usize,
    exhausted: bool,
    idx: usize,
    i: usize,
)
    ensures
        ({
            let before = SelectionView::Span { first, start, end, exhausted };
            let after = before.clicked(idx, true, false);
            &&& idx != first ==> (after.has(i) <==> (if first < idx {
                first <= i <= idx
            } else {
                idx <= i <= first
            }))
            &&& idx != first ==> (after matches SelectionView::Span { first: f2, .. } && f2 == first)
            &&& idx == first ==> (after.has(i) <==> i == idx)
        }),
{
}

/// The entry a shift-click draws from: the single selected entry, the
/// last of several, or the anchor of a span.
pub open spec fn shift_anchor(sel: SelectionView) -> Option<usize> {
    match sel {
        SelectionView::Nothing => Option::None,
        SelectionView::One(a) => Option::Some(a),
        SelectionView::Many(v) => Option::Some(v.last()),
        SelectionView::Span { first, .. } => Option::Some(first),
    }
}

/// A shift-click selects, from any selection with an anchor, exactly the
/// entries between the anchor and the clicked entry, both included, and
/// the anchor stays; with nothing selected it selects the clicked entry; on
/// the anchor itself it clears a single selection and otherwise keeps that
/// entry alone.
pub proof fn law_shift_click(sel: SelectionView, idx: usize, i: usize)
    requires
        sel.click_ok(true, false),
    ensures
        ({
            let after = sel.clicked(idx, true, false);
            match shift_anchor(sel) {
                Option::None => after.has(i) <==> i == idx,
                Option::Some(a) => if a != idx {
                    &&& after.has(i) <==> (if a < idx {
                        a <= i <= idx
                    } else {
                        idx <= i <= a
                    })
                    &&& after matches SelectionView::Span { first, .. } && first == a
                } else if sel is One {
                    !after.has(i)
                } else {
                    after.has(i) <==> i == idx
                },
            }
        }),
{
}

/// Some position up to `w` is the first position of `x`.
proof fn lemma_first_upto(v: Seq<usize>, x: usize, w: int) -> (k: int)
    requires
        0 <= w < v.len(),
        v[w] == x,
    ensures
        first_at(v, x, k),
    decreases w,
{
    if exists|j: int| 0 <= j < w && v[j] == x {
        let j = choose|j: int| 0 <= j < w && v[j] == x;
        lemma_first_upto(v, x, j)
    } else {
        w
    }
}

/// The first position of an entry that a sequence holds is the position
/// that `toggled` takes out.
proof fn lemma_first_position(v: Seq<usize>, x: usize) -> (k: int)
    requires
        v.contains(x),
    ensures
        first_at(v, x, k),
        toggled(v, x) == v.remove(k),
{
    let w = choose|j: int| 0 <= j < v.len() && v[j] == x;
    let k = lemma_first_upto(v, x, w);
    assert(first_at(v, x, k));
    let c = choose|j: int| first_at(v, x, j);
    assert(first_at(v, x, c));
    assert(c == k) by {
        if c < k {
            assert(v[c] == x);
        } else if c > k {
            assert(v[k] == x);
        }
    }
    k
}

/// Taking out the first `x` of distinct entries leaves the others.
proof fn lemma_toggle_out(v: Seq<usize>, x: usize, i: usize)
    requires
        v.no_duplicates(),
        v.contains(x),
    ensures
        !toggled(v, x).contains(x),
        i != x ==> (toggled(v, x).contains(i) == v.contains(i)),
        toggled(v, x).no_duplicates(),
{
    let k = lemma_first_position(v, x);
    let t = v.remove(k);
    assert(t.len() == v.len() - 1);
    assert(forall|j: int| 0 <= j < k ==> t[j] == v[j]);
    assert(forall|j: int| k <= j < t.len() ==> t[j] == v[j + 1]);
    if t.contains(x) {
        let j = choose|j: int| 0 <= j < t.len() && t[j] == x;
        if j >= k {
            assert(v[j + 1] == v[k]);
        }
    }
    if i != x {
        if v.contains(i) {
            let j = choose|j: int| 0 <= j < v.len() && v[j] == i;
            if j < k {
                assert(t[j] == i);
            } else {
                assert(t[j - 1] == i);
            }
        }
        if t.contains(i) {
            let j = choose|j: int| 0 <= j < t.len() && t[j] == i;
            if j < k {
                assert(v[j] == i);
            } else {
                assert(v[j + 1] == i);
            }
        }
    }
    assert forall|a: int, b: int| 0 <= a < t.len() && 0 <= b < t.len() && a != b implies t[a] != t[b] by {
        let a2 = if a < k { a } else { a + 1 };
        let b2 = if b < k { b } else { b + 1 };
        assert(t[a] == v[a2] && t[b] == v[b2]);
    }
}

/// Adding an absent `x` at the end of distinct entries keeps the others.
proof fn lemma_toggle_in(v: Seq<usize>, x: usize, i: usize)
    requires
        v.no_duplicates(),
        !v.contains(x),
    ensures
        toggled(v, x).contains(x),
        i != x ==> (toggled(v, x).contains(i) == v.contains(i)),
        toggled(v, x).no_duplicates(),
{
    let t = v.push(x);
    assert(t[v.len() as int] == x);
    if i != x {
        if v.contains(i) {
            let j = choose|j: int| 0 <= j < v.len() && v[j] == i;
            assert(t[j] == i);
        }
        if t.contains(i) {
            let j = choose|j: int| 0 <= j < t.len() && t[j] == i;
            assert(v[j] == i);
        }
    }
    assert forall|a: int, b: int| 0 <= a < t.len() && 0 <= b < t.len() && a != b implies t[a] != t[b] by {
        if a == v.len() {
            assert(v[b] == t[b]);
        } else if b == v.len() {
            assert(v[a] == t[a]);
        }
    }
}

/// A control-click on a selection of distinct entries flips whether the
/// clicked entry is selected, leaves every other entry as it was, and keeps
/// the entries distinct.
pub proof fn law_control_click_toggles(v: Seq<usize>, x: usize, i: usize)
    requires
        v.no_duplicates(),
    ensures
        SelectionView::Many(v).clicked(x, false, true).has(x) == !SelectionView::Many(v).has(x),
        i != x ==> (SelectionView::Many(v).clicked(x, false, true).has(i) == SelectionView::Many(v).has(i)),
        toggled(v, x).no_duplicates(),
{
    if v.contains(x) {
        lemma_toggle_out(v, x, i);
    } else {
        lemma_toggle_in(v, x, i);
    }
}

/// The indexes of a span are distinct and are exactly those between its
/// bounds.
proof fn lemma_span_items(start: usize, end: usize, k: usize)
    ensures
        span_items(start, end).no_duplicates(),
        span_items(start, end).contains(k) <==> start <= k <= end,
{
    let s = span_items(start, end);
    if start <= k <= end {
        assert(s[k - start] == k);
    }
}

/// A control-click on any selection flips whether the clicked entry is
/// selected and leaves every other entry as it was; the result is a
/// selection of distinct entries. It holds unless the clicked entry is the
/// single selected one (which the click selects twice), for multiple
/// selections of distinct entries, and for spans iterated to their end
/// that hold nothing (as iteration leaves them).
pub proof fn law_control_click_flips_the_clicked_entry(sel: SelectionView, x: usize, k: usize)
    requires
        sel != SelectionView::One(x),
        sel matches SelectionView::Many(v) ==> v.no_duplicates(),
        sel matches SelectionView::Span { start, end, exhausted, .. } ==> (exhausted ==> end <= start),
    ensures
        sel.clicked(x, false, true) matches SelectionView::Many(w) && w.no_duplicates(),
        sel.clicked(x, false, true).has(k) == (sel.has(k) != (k == x)),
{
    match sel {
        SelectionView::Nothing => {
            let w = seq![x];
            assert(w[0] == x);
            if w.contains(k) {
                let j = choose|j: int| 0 <= j < 1 && w[j] == k;
            }
        },
        SelectionView::One(i) => {
            let w = seq![i, x];
            assert(w[0] == i && w[1] == x);
            if w.contains(k) {
                let j = choose|j: int| 0 <= j < 2 && w[j] == k;
            }
        },
        SelectionView::Many(v) => {
            law_control_click_toggles(v, x, k);
        },
        SelectionView::Span { start, end, exhausted, .. } => {
            let items = span_entries(start, end, exhausted);
            lemma_span_items(start, end, k);
            lemma_span_items(start, end, x);
            assert(items.no_duplicates());
            assert(items.contains(k) == sel.has(k));
            assert(items.contains(x) == sel.has(x));
            if items.contains(x) {
                lemma_toggle_out(items, x, k);
            } else {
                lemma_toggle_in(items, x, k);
            }
        },
    }
}

/// What the text input reports.
#[derive(Debug, Clone)]
pub enum InputMessage {
    UrlChanged(String),
    UrlSubmitted,
}

/// The text the user has typed.
#[derive(Debug)]
pub struct UserInputs {
    pub url: String,
}

impl UserInputs {
    /// Keeps the typed text; a submission changes nothing here.
    pub fn update(&mut self, message: InputMessage)
        ensures
            match message {
                InputMessage::UrlChanged(s) => final(self).url@ == s@,
                InputMessage::UrlSubmitted => final(self).url@ == old(self).url@,
            },
    {
        match message {
            InputMessage::UrlChanged(s) => self.url = s,
            InputMessage::UrlSubmitted => {},
        }
    }
}

} // verus!
