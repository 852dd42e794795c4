//! Fragments of text on a page: which of them are covered, and in which order they are read.
//!
//! Which fragments are covered and which share a row are questions of distance on the page.
//! Their answers are handed in.
use vstd::prelude::*;

use crate::document::models::{
    AnnotationSignal, AnnotationSignalView, FilledRectangleSignal, FilledRectangleSignalView,
    PositionedTextFragment, PositionedTextFragmentView,
};
use crate::measure::{
    is_less, less, median, middle, Measure, MEASURE_0_10, MEASURE_INFINITY,
};

verus! {

// ---------------------------------------------------------------------------
// Redactions
// ---------------------------------------------------------------------------

/// A box by two opposite corners, as its lowest and its highest corner.
pub open spec fn corners_in_order(rect: [Measure; 4]) -> [Measure; 4] {
    let (left, right) = if less(rect[2], rect[0]) {
        (rect[2], rect[0])
    } else {
        (rect[0], rect[2])
    };
    let (low, high) = if less(rect[3], rect[1]) {
        (rect[3], rect[1])
    } else {
        (rect[1], rect[3])
    };
    [left, low, right, high]
}

/// Computes [`corners_in_order`].
pub fn normalize_corner_rect(rect: [Measure; 4]) -> (r: [Measure; 4])
    ensures
        r == corners_in_order(rect),
{
    let (left, right) = if is_less(rect[2], rect[0]) {
        (rect[2], rect[0])
    } else {
        (rect[0], rect[2])
    };
    let (low, high) = if is_less(rect[3], rect[1]) {
        (rect[3], rect[1])
    } else {
        (rect[1], rect[3])
    };
    [left, low, right, high]
}

/// The boxes of those among the first `n` annotations that cover what is under them.
pub open spec fn covering_boxes(list: Seq<AnnotationSignalView>, n: int) -> Seq<[Measure; 4]>
    decreases n,
{
    if n <= 0 {
        seq![]
    } else {
        let before = covering_boxes(list, n - 1);
        let a = list[n - 1];
        match a.rect {
            Some(rect) if a.is_explicit_redaction || a.is_dark_overlay_candidate => before.push(
                corners_in_order(rect),
            ),
            _ => before,
        }
    }
}

/// Computes [`covering_boxes`] of all annotations.
pub fn find_covering_boxes(list: &Vec<AnnotationSignal>) -> (r: Vec<[Measure; 4]>)
    ensures
        r@ == covering_boxes(list.deep_view(), list.deep_view().len() as int),
{
    let mut r: Vec<[Measure; 4]> = Vec::new();
    for n in 0..list.len()
        invariant
            r@ == covering_boxes(list.deep_view(), n as int),
    {
        assert(list.deep_view()[n as int] == list@[n as int].deep_view());
        if list[n].is_explicit_redaction || list[n].is_dark_overlay_candidate {
            match list[n].rect {
                Some(rect) => {
                    r.push(normalize_corner_rect(rect));
                },
                None => {},
            }
        }
    }
    r
}

/// Corner, width and height of those among the first `n` rectangles that may be redactions.
pub open spec fn covering_bars(list: Seq<FilledRectangleSignalView>, n: int) -> Seq<[Measure; 4]>
    decreases n,
{
    if n <= 0 {
        seq![]
    } else if list[n - 1].possible_redaction {
        covering_bars(list, n - 1).push(list[n - 1].rect)
    } else {
        covering_bars(list, n - 1)
    }
}

/// Computes [`covering_bars`] of all rectangles.
pub fn find_covering_bars(list: &Vec<FilledRectangleSignal>) -> (r: Vec<[Measure; 4]>)
    ensures
        r@ == covering_bars(list.deep_view(), list.deep_view().len() as int),
{
    let mut r: Vec<[Measure; 4]> = Vec::new();
    for n in 0..list.len()
        invariant
            r@ == covering_bars(list.deep_view(), n as int),
    {
        assert(list.deep_view()[n as int] == list@[n as int].deep_view());
        if list[n].possible_redaction {
            r.push(list[n].rect);
        }
    }
    r
}

/// Whether a fragment is covered.
pub open spec fn is_covered(covered: Seq<bool>, i: int) -> bool {
    0 <= i < covered.len() && covered[i]
}

/// A fragment of which only that it is redacted can be read.
pub open spec fn masked(fragment: PositionedTextFragmentView) -> PositionedTextFragmentView {
    PositionedTextFragmentView { text: "[REDACTED]"@, redaction_masked: true, ..fragment }
}

/// Fragments with those masked that are covered.
pub open spec fn masked_fragments(
    fragments: Seq<PositionedTextFragmentView>,
    covered: Seq<bool>,
) -> Seq<PositionedTextFragmentView> {
    Seq::new(
        fragments.len(),
        |i: int|
            if is_covered(covered, i) {
                masked(fragments[i])
            } else {
                fragments[i]
            },
    )
}

/// How many of the first `n` fragments are covered.
pub open spec fn covered_count(covered: Seq<bool>, n: int) -> nat
    decreases n,
{
    if n <= 0 {
        0
    } else {
        covered_count(covered, n - 1) + if is_covered(covered, n - 1) {
            1nat
        } else {
            0nat
        }
    }
}

fn mask(fragment: &mut PositionedTextFragment)
    ensures
        final(fragment).deep_view() == masked(old(fragment).deep_view()),
{
    fragment.text = "[REDACTED]".to_owned();
    fragment.redaction_masked = true;
}

/// Masks the fragments that the visible layer of a page covers, before anything is read in
/// them, and gives their number.
pub fn apply_visual_redaction_masks(
    fragments: &mut Vec<PositionedTextFragment>,
    covered: &Vec<bool>,
) -> (r: usize)
    ensures
        final(fragments).deep_view() == masked_fragments(old(fragments).deep_view(), covered@),
        r == covered_count(covered@, old(fragments).deep_view().len() as int),
{
    let ghost start = fragments.deep_view();
    let count = fragments.len();
    let mut r: usize = 0;
    for i in 0..count
        invariant
            count == fragments@.len(),
            count == start.len(),
            r <= i,
            r == covered_count(covered@, i as int),
            forall|j: int|
                0 <= j < count ==> (#[trigger] fragments.deep_view()[j]) == if j < i && is_covered(
                    covered@,
                    j,
                ) {
                    masked(start[j])
                } else {
                    start[j]
                },
    {
        if i < covered.len() && covered[i] {
            let ghost now = fragments.deep_view();
            assert(now[i as int] == fragments@[i as int].deep_view());
            mask(&mut fragments[i]);
            assert(fragments.deep_view() =~= now.update(i as int, masked(start[i as int])));
            r += 1;
        }
    }
    assert(fragments.deep_view() =~= masked_fragments(start, covered@));
    r
}

/// Whether fragments differ at most in what covered ones say.
pub open spec fn alike_but_for_covered(
    a: Seq<PositionedTextFragmentView>,
    b: Seq<PositionedTextFragmentView>,
    covered: Seq<bool>,
) -> bool {
    &&& a.len() == b.len()
    &&& forall|i: int|
        0 <= i < a.len() ==> if is_covered(covered, i) {
            masked(#[trigger] a[i]) == masked(b[i])
        } else {
            a[i] == b[i]
        }
}

/// What a covered fragment says cannot be read from what masking leaves of it: fragments that
/// differ in nothing else are the same once they are masked.
pub proof fn law_covered_text_is_gone(
    a: Seq<PositionedTextFragmentView>,
    b: Seq<PositionedTextFragmentView>,
    covered: Seq<bool>,
)
    requires
        alike_but_for_covered(a, b, covered),
    ensures
        masked_fragments(a, covered) == masked_fragments(b, covered),
{
    assert(masked_fragments(a, covered) =~= masked_fragments(b, covered));
}

// ---------------------------------------------------------------------------
// Order
// ---------------------------------------------------------------------------

/// Whether a fragment comes before another: from left to right, as the page shows them.
pub open spec fn left_of(a: PositionedTextFragmentView, b: PositionedTextFragmentView) -> bool {
    less(a.x, b.x) || (!less(b.x, a.x) && a.sequence < b.sequence)
}

/// Whether a fragment comes before another: from top to bottom, and then from left to right.
pub open spec fn above(a: PositionedTextFragmentView, b: PositionedTextFragmentView) -> bool {
    less(b.y, a.y) || (!less(a.y, b.y) && left_of(a, b))
}

/// Whether a fragment comes before another, by rows too if `down`.
pub open spec fn ahead(
    a: PositionedTextFragmentView,
    b: PositionedTextFragmentView,
    down: bool,
) -> bool {
    if down {
        above(a, b)
    } else {
        left_of(a, b)
    }
}

fn is_ahead(a: &PositionedTextFragment, b: &PositionedTextFragment, down: bool) -> (r: bool)
    ensures
        r == ahead(a.deep_view(), b.deep_view(), down),
{
    let left = is_less(a.x, b.x) || (!is_less(b.x, a.x) && a.sequence < b.sequence);
    if down {
        is_less(b.y, a.y) || (!is_less(a.y, b.y) && left)
    } else {
        left
    }
}

/// Where a fragment belongs in a sorted list: behind all that it does not come before.
pub open spec fn fragment_place(
    list: Seq<PositionedTextFragmentView>,
    fragment: PositionedTextFragmentView,
    down: bool,
    from: int,
) -> int
    decreases list.len() - from,
{
    if 0 <= from < list.len() && !ahead(fragment, list[from], down) {
        fragment_place(list, fragment, down, from + 1)
    } else {
        from
    }
}

/// The first `n` fragments in order.
pub open spec fn sorted_fragments(
    list: Seq<PositionedTextFragmentView>,
    down: bool,
    n: int,
) -> Seq<PositionedTextFragmentView>
    decreases n,
{
    if n <= 0 {
        seq![]
    } else {
        let before = sorted_fragments(list, down, n - 1);
        before.insert(fragment_place(before, list[n - 1], down, 0), list[n - 1])
    }
}

fn insert_fragment(
    list: &mut Vec<PositionedTextFragment>,
    fragment: PositionedTextFragment,
    down: bool,
)
    ensures
        final(list).deep_view() == old(list).deep_view().insert(
            fragment_place(old(list).deep_view(), fragment.deep_view(), down, 0),
            fragment.deep_view(),
        ),
        final(list)@.len() == old(list)@.len() + 1,
{
    let ghost now = list.deep_view();
    let ghost view = fragment.deep_view();
    let mut i: usize = 0;
    while i < list.len() && !is_ahead(&fragment, &list[i], down)
        invariant
            now == list.deep_view(),
            view == fragment.deep_view(),
            i <= list@.len(),
            fragment_place(now, view, down, i as int) == fragment_place(now, view, down, 0),
        decreases list@.len() - i,
    {
        assert(now[i as int] == list@[i as int].deep_view());
        i += 1;
    }
    assert(i < list@.len() ==> now[i as int] == list@[i as int].deep_view());
    list.insert(i, fragment);
    assert(list.deep_view() =~= now.insert(i as int, view));
}

/// Sorts fragments, by rows too if `down`.
pub fn sort_fragments(list: &Vec<PositionedTextFragment>, down: bool) -> (r: Vec<
    PositionedTextFragment,
>)
    ensures
        r.deep_view() == sorted_fragments(list.deep_view(), down, list.deep_view().len() as int),
{
    let mut r: Vec<PositionedTextFragment> = Vec::new();
    assert(r.deep_view() =~= seq![]);
    for n in 0..list.len()
        invariant
            r.deep_view() == sorted_fragments(list.deep_view(), down, n as int),
    {
        assert(list.deep_view()[n as int] == list@[n as int].deep_view());
        insert_fragment(&mut r, list[n].clone(), down);
    }
    r
}

/// The type sizes of the first `n` fragments that are more than a speck and not endless.
pub open spec fn type_sizes(list: Seq<PositionedTextFragmentView>, n: int) -> Seq<Measure>
    decreases n,
{
    if n <= 0 {
        seq![]
    } else {
        match list[n - 1].font_size {
            Some(size) if MEASURE_0_10 < size < MEASURE_INFINITY => type_sizes(list, n - 1).push(
                size,
            ),
            _ => type_sizes(list, n - 1),
        }
    }
}

/// The type size that fragments typically have, by which their rows are told apart.
pub fn typical_type_size(list: &Vec<PositionedTextFragment>) -> (r: Option<Measure>)
    ensures
        r == median(type_sizes(list.deep_view(), list.deep_view().len() as int)),
{
    let mut sizes: Vec<Measure> = Vec::new();
    for n in 0..list.len()
        invariant
            sizes@ == type_sizes(list.deep_view(), n as int),
    {
        assert(list.deep_view()[n as int] == list@[n as int].deep_view());
        match list[n].font_size {
            Some(size) => {
                if MEASURE_0_10 < size && size < MEASURE_INFINITY {
                    sizes.push(size);
                }
            },
            None => {},
        }
    }
    middle(&sizes)
}

/// The fragments among the first `n` that belong to a row, from left to right.
pub open spec fn row_fragments(
    list: Seq<PositionedTextFragmentView>,
    groups: Seq<usize>,
    row: usize,
    n: int,
) -> Seq<PositionedTextFragmentView>
    decreases n,
{
    if n <= 0 {
        seq![]
    } else {
        let before = row_fragments(list, groups, row, n - 1);
        if n <= groups.len() && groups[n - 1] == row {
            before.insert(fragment_place(before, list[n - 1], false, 0), list[n - 1])
        } else {
            before
        }
    }
}

/// The fragments of a row, from left to right, where `groups` gives the row of each fragment.
pub fn gather_row(list: &Vec<PositionedTextFragment>, groups: &Vec<usize>, row: usize) -> (r: Vec<
    PositionedTextFragment,
>)
    ensures
        r.deep_view() == row_fragments(
            list.deep_view(),
            groups@,
            row,
            list.deep_view().len() as int,
        ),
{
    let mut r: Vec<PositionedTextFragment> = Vec::new();
    assert(r.deep_view() =~= seq![]);
    for n in 0..list.len()
        invariant
            r.deep_view() == row_fragments(list.deep_view(), groups@, row, n as int),
    {
        assert(list.deep_view()[n as int] == list@[n as int].deep_view());
        if n < groups.len() && groups[n] == row {
            insert_fragment(&mut r, list[n].clone(), false);
        }
    }
    r
}

// ---------------------------------------------------------------------------
// Laws of the order
// ---------------------------------------------------------------------------

/// A box has its corners in order, and they are those that it was given by.
pub proof fn law_corners_are_put_in_order(rect: [Measure; 4])
    ensures
        ({
            let ordered = corners_in_order(rect);
            &&& !less(ordered[2], ordered[0])
            &&& !less(ordered[3], ordered[1])
            &&& (ordered[0] == rect[0] && ordered[2] == rect[2]) || (ordered[0] == rect[2]
                && ordered[2] == rect[0])
            &&& (ordered[1] == rect[1] && ordered[3] == rect[3]) || (ordered[1] == rect[3]
                && ordered[3] == rect[1])
        }),
{
}

/// What covers a page are its redaction and dark overlay annotations that have a box, and its
/// rectangles that may be redactions.
pub proof fn law_covers_are_gathered(
    annotations: Seq<AnnotationSignalView>,
    rectangles: Seq<FilledRectangleSignalView>,
    n: int,
)
    requires
        0 <= n,
    ensures
        covering_boxes(annotations, 0).len() == 0,
        covering_bars(rectangles, 0).len() == 0,
        n < annotations.len() ==> ({
            let a = annotations[n];
            let covers = a.rect is Some && (a.is_explicit_redaction || a.is_dark_overlay_candidate);
            &&& covers ==> covering_boxes(annotations, n + 1) == covering_boxes(
                annotations,
                n,
            ).push(corners_in_order(a.rect->0))
            &&& !covers ==> covering_boxes(annotations, n + 1) == covering_boxes(annotations, n)
        }),
        n < rectangles.len() && rectangles[n].possible_redaction ==> covering_bars(
            rectangles,
            n + 1,
        ) == covering_bars(rectangles, n).push(rectangles[n].rect),
        n < rectangles.len() && !rectangles[n].possible_redaction ==> covering_bars(
            rectangles,
            n + 1,
        ) == covering_bars(rectangles, n),
{
}

/// A covered fragment reads "[REDACTED]" and is marked so; it keeps its place. The others stay.
pub proof fn law_covered_fragments_are_masked(
    fragments: Seq<PositionedTextFragmentView>,
    covered: Seq<bool>,
    i: int,
)
    requires
        0 <= i < fragments.len(),
    ensures
        ({
            let after = masked_fragments(fragments, covered);
            let hidden = i < covered.len() && covered[i];
            &&& after.len() == fragments.len()
            &&& !hidden ==> after[i] == fragments[i]
            &&& hidden ==> after[i].text == "[REDACTED]"@ && after[i].redaction_masked
            &&& after[i].x == fragments[i].x && after[i].y == fragments[i].y
            &&& after[i].sequence == fragments[i].sequence
            &&& after[i].font_size == fragments[i].font_size
            &&& hidden ==> covered_count(covered, i + 1) == covered_count(covered, i) + 1
            &&& !hidden ==> covered_count(covered, i + 1) == covered_count(covered, i)
            &&& covered_count(covered, 0) == 0
        }),
{
}

/// Where a fragment comes from: the same page place, and from top to bottom first.
pub proof fn law_reading_order(a: PositionedTextFragmentView, b: PositionedTextFragmentView)
    requires
        a.x >= 0,
        b.x >= 0,
        a.y >= 0,
        b.y >= 0,
    ensures
        ahead(a, b, false) <==> a.x < b.x || (a.x == b.x && a.sequence < b.sequence),
        ahead(a, b, true) <==> a.y > b.y || (a.y == b.y && (a.x < b.x || (a.x == b.x && a.sequence
            < b.sequence))),
{
}

proof fn lemma_placed(
    list: Seq<PositionedTextFragmentView>,
    fragment: PositionedTextFragmentView,
    down: bool,
    from: int,
)
    requires
        0 <= from <= list.len(),
        forall|i: int| 0 <= i < from ==> !ahead(fragment, #[trigger] list[i], down),
    ensures
        from <= fragment_place(list, fragment, down, from) <= list.len(),
        forall|i: int|
            0 <= i < fragment_place(list, fragment, down, from) ==> !ahead(
                fragment,
                #[trigger] list[i],
                down,
            ),
        fragment_place(list, fragment, down, from) < list.len() ==> ahead(
            fragment,
            list[fragment_place(list, fragment, down, from)],
            down,
        ),
    decreases list.len() - from,
{
    if from < list.len() && !ahead(fragment, list[from], down) {
        lemma_placed(list, fragment, down, from + 1);
    }
}

/// Whether no fragment of a list comes before one that stands ahead of it.
pub open spec fn in_reading_order(list: Seq<PositionedTextFragmentView>, down: bool) -> bool {
    forall|i: int, j: int|
        0 <= i < j < list.len() ==> !ahead(#[trigger] list[j], #[trigger] list[i], down)
}

proof fn lemma_inserted_in_order(
    list: Seq<PositionedTextFragmentView>,
    fragment: PositionedTextFragmentView,
    down: bool,
)
    requires
        in_reading_order(list, down),
    ensures
        ({
            let after = list.insert(fragment_place(list, fragment, down, 0), fragment);
            &&& in_reading_order(after, down)
            &&& after.len() == list.len() + 1
            &&& after.to_multiset() == list.to_multiset().insert(fragment)
        }),
{
    lemma_placed(list, fragment, down, 0);
    let p = fragment_place(list, fragment, down, 0);
    let after = list.insert(p, fragment);
    assert(after.to_multiset() =~= list.to_multiset().insert(fragment)) by {
        broadcast use vstd::seq_lib::group_to_multiset_ensures;

        assert(after.remove(p) =~= list);
        assert(after[p] == fragment);
        assert(after.contains(fragment));
    }
    assert forall|i: int, j: int| 0 <= i < j < after.len() implies !ahead(
        #[trigger] after[j],
        #[trigger] after[i],
        down,
    ) by {
        if i == p {
            assert(after[j] == list[j - 1]);
            if j - 1 > p {
                assert(!ahead(list[j - 1], list[p], down));
            }
        } else if j == p {
            assert(after[i] == list[i]);
        } else {
            let a = if i < p {
                i
            } else {
                i - 1
            };
            let b = if j < p {
                j
            } else {
                j - 1
            };
            assert(after[i] == list[a] && after[j] == list[b]);
        }
    }
}

/// Sorting fragments puts them in order and loses, adds or changes none of them.
pub proof fn law_sorted_fragments(list: Seq<PositionedTextFragmentView>, down: bool, n: int)
    requires
        0 <= n <= list.len(),
    ensures
        in_reading_order(sorted_fragments(list, down, n), down),
        sorted_fragments(list, down, n).to_multiset() == list.take(n).to_multiset(),
    decreases n,
{
    broadcast use vstd::seq_lib::group_to_multiset_ensures;

    if n > 0 {
        law_sorted_fragments(list, down, n - 1);
        lemma_inserted_in_order(sorted_fragments(list, down, n - 1), list[n - 1], down);
        assert(list.take(n) =~= list.take(n - 1).push(list[n - 1]));
    } else {
        assert(list.take(0) =~= seq![]);
        assert(sorted_fragments(list, down, n) =~= seq![]);
    }
}

/// A row holds the fragments that are grouped into it, all of them and no other, from left to
/// right.
pub proof fn law_rows_hold_their_fragments(
    list: Seq<PositionedTextFragmentView>,
    groups: Seq<usize>,
    row: usize,
    n: int,
)
    requires
        0 <= n < list.len(),
    ensures
        in_reading_order(row_fragments(list, groups, row, n), false),
        row_fragments(list, groups, row, 0).len() == 0,
        n < groups.len() && groups[n] == row ==> row_fragments(
            list,
            groups,
            row,
            n + 1,
        ).to_multiset() == row_fragments(list, groups, row, n).to_multiset().insert(list[n]),
        !(n < groups.len() && groups[n] == row) ==> row_fragments(list, groups, row, n + 1)
            == row_fragments(list, groups, row, n),
    decreases n,
{
    if n > 0 {
        law_rows_hold_their_fragments(list, groups, row, n - 1);
        lemma_inserted_in_order(row_fragments(list, groups, row, n - 1), list[n - 1], false);
    }
    lemma_inserted_in_order(row_fragments(list, groups, row, n), list[n], false);
}

/// The type sizes of a page are those above 0.10 and below infinity.
pub proof fn law_type_sizes(list: Seq<PositionedTextFragmentView>, n: int)
    requires
        0 <= n < list.len(),
    ensures
        type_sizes(list, 0).len() == 0,
        ({
            let sized = list[n].font_size matches Some(size) && 0x3fb9_9999_9999_999a < size && size
                < 0x7ff0_0000_0000_0000;
            &&& sized ==> type_sizes(list, n + 1) == type_sizes(list, n).push(list[n].font_size->0)
            &&& !sized ==> type_sizes(list, n + 1) == type_sizes(list, n)
        }),
{
}

} // verus!
