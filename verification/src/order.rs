//! Text in order: comparison by code points, and lists that are kept sorted.
use vstd::prelude::*;

use crate::text::chars_of;

verus! {

/// Whether `a` comes before `b` from position `i` on.
pub open spec fn before_from(a: Seq<char>, b: Seq<char>, i: int) -> bool
    decreases b.len() - i,
{
    if i < 0 || i >= b.len() {
        false
    } else if i >= a.len() {
        true
    } else if a[i] == b[i] {
        before_from(a, b, i + 1)
    } else {
        a[i] < b[i]
    }
}

/// Whether one text comes before another: by the first character in which they differ, and
/// the shorter first where one continues the other.
pub open spec fn comes_before(a: Seq<char>, b: Seq<char>) -> bool {
    before_from(a, b, 0)
}

/// Decides [`comes_before`].
pub fn is_before(a: &str, b: &str) -> (r: bool)
    ensures
        r == comes_before(a@, b@),
{
    let x = chars_of(a);
    let y = chars_of(b);
    let mut i: usize = 0;
    while i < y.len()
        invariant
            x@ == a@,
            y@ == b@,
            i <= y@.len(),
            before_from(a@, b@, i as int) == comes_before(a@, b@),
        decreases y@.len() - i,
    {
        if i >= x.len() {
            return true;
        }
        if x[i] != y[i] {
            return x[i] < y[i];
        }
        i += 1;
    }
    false
}

/// Where the first text of a list from `from` on stands that does not come before `text`.
pub open spec fn place(list: Seq<Seq<char>>, text: Seq<char>, from: int) -> int
    decreases list.len() - from,
{
    if 0 <= from < list.len() && comes_before(list[from], text) {
        place(list, text, from + 1)
    } else {
        from
    }
}

/// A sorted list with one more text in its place, unless it holds it already.
pub open spec fn inserted(list: Seq<Seq<char>>, text: Seq<char>) -> Seq<Seq<char>> {
    let i = place(list, text, 0);
    if i < list.len() && list[i] == text {
        list
    } else {
        list.insert(i, text)
    }
}

/// A place lies in its list, and everything before it comes before the text.
pub proof fn lemma_place(list: Seq<Seq<char>>, text: Seq<char>, from: int)
    requires
        0 <= from <= list.len(),
    ensures
        from <= place(list, text, from) <= list.len(),
        forall|i: int| from <= i < place(list, text, from) ==> comes_before(#[trigger] list[i], text),
        place(list, text, from) < list.len() ==> !comes_before(
            list[place(list, text, from)],
            text,
        ),
    decreases list.len() - from,
{
    if from < list.len() && comes_before(list[from], text) {
        lemma_place(list, text, from + 1);
    }
}

/// Inserts a text in its place.
pub fn insert_sorted(list: &mut Vec<String>, text: String)
    ensures
        final(list).deep_view() == inserted(old(list).deep_view(), text@),
{
    let ghost before = list.deep_view();
    let mut i: usize = 0;
    while i < list.len() && is_before(list[i].as_str(), text.as_str())
        invariant
            before == list.deep_view(),
            i <= list@.len(),
            place(before, text@, i as int) == place(before, text@, 0),
        decreases list@.len() - i,
    {
        assert(before[i as int] == list@[i as int]@);
        i += 1;
    }
    proof {
        lemma_place(before, text@, 0);
        if i < list@.len() {
            assert(before[i as int] == list@[i as int]@);
        }
    }
    if i < list.len() && list[i] == text {
        return;
    }
    list.insert(i, text);
    assert(list.deep_view() =~= before.insert(i as int, text@));
}

/// Whether a list is sorted and holds no text twice.
pub open spec fn sorted_texts(list: Seq<Seq<char>>) -> bool {
    forall|i: int, j: int|
        0 <= i < j < list.len() ==> comes_before(#[trigger] list[i], #[trigger] list[j])
}

proof fn lemma_before_transitive(a: Seq<char>, b: Seq<char>, c: Seq<char>, i: int)
    requires
        0 <= i,
        before_from(a, b, i),
        before_from(b, c, i),
    ensures
        before_from(a, c, i),
    decreases c.len() - i,
{
    if i < a.len() && i < b.len() && i < c.len() && a[i] == b[i] && b[i] == c[i] {
        lemma_before_transitive(a, b, c, i + 1);
    }
}

proof fn lemma_before_total(a: Seq<char>, b: Seq<char>, i: int)
    requires
        0 <= i <= a.len(),
        i <= b.len(),
        a.take(i) == b.take(i),
        !before_from(a, b, i),
        !before_from(b, a, i),
    ensures
        a == b,
    decreases a.len() - i,
{
    if i < a.len() && i < b.len() {
        assert(a[i] == b[i]);
        assert(a.take(i + 1) =~= a.take(i).push(a[i]));
        assert(b.take(i + 1) =~= b.take(i).push(b[i]));
        lemma_before_total(a, b, i + 1);
    } else {
        assert(a.take(i) =~= a);
        assert(b.take(i) =~= b);
    }
}

/// Inserting keeps a list sorted and free of repetition, loses nothing, and leaves the text
/// in it.
pub proof fn law_inserted_keeps_order(list: Seq<Seq<char>>, text: Seq<char>)
    requires
        sorted_texts(list),
    ensures
        sorted_texts(inserted(list, text)),
        inserted(list, text).contains(text),
        forall|i: int|
            0 <= i < list.len() ==> inserted(list, text).contains(#[trigger] list[i]),
{
    lemma_place(list, text, 0);
    let at = place(list, text, 0);
    let after = inserted(list, text);
    if at < list.len() && list[at] == text {
        assert(after[at] == text);
    } else {
        assert(after[at] == text);
        if at < list.len() {
            assert(list[at].take(0) =~= text.take(0));
            if !comes_before(text, list[at]) {
                lemma_before_total(list[at], text, 0);
            }
        }
        assert forall|i: int, j: int| 0 <= i < j < after.len() implies comes_before(
            #[trigger] after[i],
            #[trigger] after[j],
        ) by {
            let a = if i < at {
                list[i]
            } else if i == at {
                text
            } else {
                list[i - 1]
            };
            let b = if j < at {
                list[j]
            } else if j == at {
                text
            } else {
                list[j - 1]
            };
            assert(after[i] == a);
            assert(after[j] == b);
            if i == at {
                if j - 1 > at {
                    assert(comes_before(list[at], list[j - 1]));
                    lemma_before_transitive(text, list[at], list[j - 1], 0);
                }
            }
        }
        assert forall|i: int| 0 <= i < list.len() implies after.contains(#[trigger] list[i]) by {
            if i < at {
                assert(after[i] == list[i]);
            } else {
                assert(after[i + 1] == list[i]);
            }
        }
    }
}

/// Texts stand in the order of the first character in which they differ, and a text that another
/// goes on from comes before it.
pub proof fn law_the_first_difference_orders(common: Seq<char>, a: Seq<char>, b: Seq<char>)
    requires
        b.len() > 0,
        a.len() > 0 ==> a[0] != b[0],
    ensures
        comes_before(common + a, common + b) <==> a.len() == 0 || a[0] < b[0],
{
    lemma_common_front(common, a, b, 0);
}

proof fn lemma_common_front(common: Seq<char>, a: Seq<char>, b: Seq<char>, i: int)
    requires
        0 <= i <= common.len(),
        b.len() > 0,
        a.len() > 0 ==> a[0] != b[0],
    ensures
        before_from(common + a, common + b, i) <==> a.len() == 0 || a[0] < b[0],
    decreases common.len() - i,
{
    if i < common.len() {
        assert((common + a)[i] == common[i] && (common + b)[i] == common[i]);
        lemma_common_front(common, a, b, i + 1);
    } else {
        assert((common + b)[i] == b[0]);
        if a.len() > 0 {
            assert((common + a)[i] == a[0]);
        }
    }
}

} // verus!
