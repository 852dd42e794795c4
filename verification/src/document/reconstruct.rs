//! Rows of text, made of the fragments that share a line of the page.
//!
//! How far two fragments stand apart and which of several columns of numbers is the best are
//! questions of distance on the page. Their answers are handed in.
use vstd::prelude::*;

use crate::document::layout::{
    leading_number, leading_transcript_line_number, numbers_a_line, sequence_score,
    tolerant_line_sequence_score,
};
use crate::document::models::{
    no_layout, PageLayoutDiagnostics, PageLayoutDiagnosticsView, PositionedTextFragment,
    PositionedTextFragmentView, VisualRow, VisualRowView,
};
use crate::document::plain::{count_numbered, numbered_count};
use crate::measure::{is_less, less, median, middle, reaches, Measure, MEASURE_0_42};
use crate::number::{decimal, decimal_string, next, parse_u16, parsed_u16, succ};
use crate::pieces::{join, joined, joined_first, respace, single_spaced};
use crate::scan::{
    blank, count_chars, count_within, first_char, is_blank, last_char, lemma_filled,
    lemma_filled_somewhere, trim, trimmed,
};
use crate::text::{char_within, push_item, same, within, CharClass};
use crate::transcript::gaps::{extreme, find_extreme, sort_numbers, sorted_numbers};

verus! {

// ---------------------------------------------------------------------------
// The text of a row
// ---------------------------------------------------------------------------

/// How a fragment stands to one before it in its row, measured in the type size of that one.
#[derive(Debug, Clone, Copy)]
pub struct Gap {
    /// More than a tenth apart.
    pub wide: bool,
    /// Not overlapping by three tenths or more.
    pub near: bool,
}

impl DeepView for Gap {
    type V = Gap;

    open spec fn deep_view(&self) -> Gap {
        *self
    }
}

/// How the fragment at `i` stands to the one at `p`.
pub open spec fn gap_between(gaps: Seq<Seq<Gap>>, p: int, i: int) -> Gap {
    if 0 <= i < gaps.len() && 0 <= p < gaps[i].len() {
        gaps[i][p]
    } else {
        Gap { wide: false, near: false }
    }
}

fn find_gap(gaps: &Vec<Vec<Gap>>, p: usize, i: usize) -> (r: Gap)
    ensures
        r == gap_between(gaps.deep_view(), p as int, i as int),
{
    if i < gaps.len() {
        assert(gaps.deep_view()[i as int] == gaps@[i as int].deep_view());
        if p < gaps[i].len() {
            assert(gaps@[i as int].deep_view()[p as int] == gaps@[i as int]@[p as int]);
            return gaps[i][p];
        }
    }
    Gap { wide: false, near: false }
}

/// Whether a text ends in a letter or a digit.
pub open spec fn ends_in_word(text: Seq<char>) -> bool {
    text.len() > 0 && within(CharClass::Alphanumeric, text[text.len() - 1])
}

/// Whether a text starts with a letter or a digit.
pub open spec fn starts_with_word(text: Seq<char>) -> bool {
    text.len() > 0 && within(CharClass::Alphanumeric, text[0])
}

/// Whether a text starts with punctuation that closes up with what is before it.
pub open spec fn closes_up(text: Seq<char>) -> bool {
    text.len() > 0 && within(CharClass::ClosingPunctuation, text[0])
}

fn last_is(text: &str, class: CharClass) -> (r: bool)
    ensures
        r == (text@.len() > 0 && within(class, text@[text@.len() - 1])),
{
    match last_char(text) {
        Some(c) => char_within(class, c),
        None => false,
    }
}

fn first_is(text: &str, class: CharClass) -> (r: bool)
    ensures
        r == (text@.len() > 0 && within(class, text@[0])),
{
    match first_char(text) {
        Some(c) => char_within(class, c),
        None => false,
    }
}

/// Whether a space belongs between what was written of a row and a text that follows the
/// fragment `previous`.
pub open spec fn spaced(
    output: Seq<char>,
    previous: PositionedTextFragmentView,
    text: Seq<char>,
    gap: Gap,
) -> bool {
    &&& gap.wide || (gap.near && ends_in_word(previous.text) && starts_with_word(text))
    &&& !(output.len() > 0 && within(CharClass::Space, output[output.len() - 1]))
    &&& !closes_up(text)
}

/// What was written of a row, and the fragment that was written last.
#[verifier::ext_equal]
pub struct Written {
    pub output: Seq<char>,
    pub last: Option<int>,
}

/// What is written of the first `n` fragments of a row, without the one at `left_out`. Of
/// masked fragments in sequence only the first is written.
pub open spec fn written(
    fragments: Seq<PositionedTextFragmentView>,
    gaps: Seq<Seq<Gap>>,
    left_out: Option<int>,
    n: int,
) -> Written
    decreases n,
{
    if n <= 0 {
        Written { output: seq![], last: None }
    } else {
        let before = written(fragments, gaps, left_out, n - 1);
        let i = n - 1;
        let text = trimmed(fragments[i].text);
        if left_out == Some(i) || text.len() == 0 {
            before
        } else {
            match before.last {
                Some(p) => {
                    if fragments[i].redaction_masked && fragments[p].redaction_masked {
                        before
                    } else if spaced(before.output, fragments[p], text, gap_between(gaps, p, i)) {
                        Written { output: before.output + " "@ + text, last: Some(i) }
                    } else {
                        Written { output: before.output + text, last: Some(i) }
                    }
                },
                None => Written { output: before.output + text, last: Some(i) },
            }
        }
    }
}

/// The text of a row, without the fragment at `left_out`.
pub open spec fn row_text(
    fragments: Seq<PositionedTextFragmentView>,
    gaps: Seq<Seq<Gap>>,
    left_out: Option<int>,
) -> Seq<char> {
    single_spaced(written(fragments, gaps, left_out, fragments.len() as int).output)
}

/// Computes [`row_text`].
pub fn join_row_fragments(
    fragments: &Vec<PositionedTextFragment>,
    gaps: &Vec<Vec<Gap>>,
    left_out: Option<usize>,
) -> (r: String)
    ensures
        r@ == row_text(
            fragments.deep_view(),
            gaps.deep_view(),
            match left_out {
                Some(i) => Some(i as int),
                None => None,
            },
        ),
{
    let ghost views = fragments.deep_view();
    let ghost skip: Option<int> = match left_out {
        Some(i) => Some(i as int),
        None => None,
    };
    let mut output = String::new();
    let mut last: Option<usize> = None;
    for i in 0..fragments.len()
        invariant
            views == fragments.deep_view(),
            skip == match left_out {
                Some(i) => Some(i as int),
                None => None,
            },
            last matches Some(p) ==> p < i,
            (Written {
                output: output@,
                last: match last {
                    Some(p) => Some(p as int),
                    None => None,
                },
            }) == written(views, gaps.deep_view(), skip, i as int),
    {
        assert(views[i as int] == fragments@[i as int].deep_view());
        let text = trim(fragments[i].text.as_str());
        let dropped = match left_out {
            Some(k) => k == i,
            None => false,
        };
        if !dropped && !text.is_empty() {
            match last {
                Some(p) => {
                    assert(views[p as int] == fragments@[p as int].deep_view());
                    if !(fragments[i].redaction_masked && fragments[p].redaction_masked) {
                        let gap = find_gap(gaps, p, i);
                        let apart = gap.wide || (gap.near && last_is(
                            fragments[p].text.as_str(),
                            CharClass::Alphanumeric,
                        ) && first_is(text, CharClass::Alphanumeric));
                        if apart && !last_is(output.as_str(), CharClass::Space) && !first_is(
                            text,
                            CharClass::ClosingPunctuation,
                        ) {
                            output.append(" ");
                        }
                        output.append(text);
                        last = Some(i);
                    }
                },
                None => {
                    output.append(text);
                    last = Some(i);
                },
            }
        }
    }
    respace(output.as_str())
}

// ---------------------------------------------------------------------------
// Rows
// ---------------------------------------------------------------------------

/// The fragments of a row from left to right, its height on the page, and how the fragments
/// stand to each other.
#[derive(Debug)]
pub struct RowSource {
    pub y: Measure,
    pub fragments: Vec<PositionedTextFragment>,
    pub gaps: Vec<Vec<Gap>>,
}

/// The contents of a [`RowSource`].
#[verifier::ext_equal]
pub struct RowSourceView {
    pub y: Measure,
    pub fragments: Seq<PositionedTextFragmentView>,
    pub gaps: Seq<Seq<Gap>>,
}

impl DeepView for RowSource {
    type V = RowSourceView;

    open spec fn deep_view(&self) -> RowSourceView {
        RowSourceView {
            y: self.y,
            fragments: self.fragments.deep_view(),
            gaps: self.gaps.deep_view(),
        }
    }
}

/// A row together with how its fragments stand to each other.
#[derive(Debug)]
pub struct RowDraft {
    pub row: VisualRow,
    pub gaps: Vec<Vec<Gap>>,
}

/// The contents of a [`RowDraft`].
#[verifier::ext_equal]
pub struct RowDraftView {
    pub row: VisualRowView,
    pub gaps: Seq<Seq<Gap>>,
}

impl DeepView for RowDraft {
    type V = RowDraftView;

    open spec fn deep_view(&self) -> RowDraftView {
        RowDraftView { row: self.row.deep_view(), gaps: self.gaps.deep_view() }
    }
}

/// Where the first fragment of a row stands.
pub open spec fn leftmost(fragments: Seq<PositionedTextFragmentView>) -> Option<Measure> {
    if fragments.len() > 0 {
        Some(fragments[0].x)
    } else {
        None
    }
}

fn find_leftmost(fragments: &Vec<PositionedTextFragment>) -> (r: Option<Measure>)
    ensures
        r == leftmost(fragments.deep_view()),
{
    if fragments.len() > 0 {
        assert(fragments.deep_view()[0] == fragments@[0].deep_view());
        Some(fragments[0].x)
    } else {
        None
    }
}

/// The row that fragments make.
pub open spec fn row_of(source: RowSourceView) -> RowDraftView {
    let text = row_text(source.fragments, source.gaps, None);
    let number = leading_number(text);
    let left = leftmost(source.fragments);
    RowDraftView {
        row: VisualRowView {
            panel: 0,
            printed_page: None,
            bbox: None,
            ocr_confidence: None,
            y: source.y,
            left_x: left,
            line_number_x: if number is Some {
                left
            } else {
                None
            },
            line_number: number,
            text,
            fragments: source.fragments,
            marker_stands_clear: false,
        },
        gaps: source.gaps,
    }
}

fn make_row(source: RowSource) -> (r: RowDraft)
    ensures
        r.deep_view() == row_of(source.deep_view()),
{
    let text = join_row_fragments(&source.fragments, &source.gaps, None);
    let line_number = leading_transcript_line_number(text.as_str());
    let left_x = find_leftmost(&source.fragments);
    RowDraft {
        row: VisualRow {
            panel: 0,
            printed_page: None,
            bbox: None,
            ocr_confidence: None,
            y: source.y,
            left_x,
            line_number_x: if line_number.is_some() {
                left_x
            } else {
                None
            },
            line_number,
            text,
            fragments: source.fragments,
            marker_stands_clear: false,
        },
        gaps: source.gaps,
    }
}

/// Where a row belongs among rows from top to bottom: behind all that are not below it.
pub open spec fn row_place(list: Seq<RowDraftView>, y: Measure, from: int) -> int
    decreases list.len() - from,
{
    if 0 <= from < list.len() && !less(list[from].row.y, y) {
        row_place(list, y, from + 1)
    } else {
        from
    }
}

/// The rows that the first `n` sources make, from top to bottom, without the empty ones.
pub open spec fn drafted(sources: Seq<RowSourceView>, n: int) -> Seq<RowDraftView>
    decreases n,
{
    if n <= 0 {
        seq![]
    } else {
        let before = drafted(sources, n - 1);
        let draft = row_of(sources[n - 1]);
        if trimmed(draft.row.text).len() > 0 {
            before.insert(row_place(before, draft.row.y, 0), draft)
        } else {
            before
        }
    }
}

fn insert_row(list: &mut Vec<RowDraft>, draft: RowDraft)
    ensures
        final(list).deep_view() == old(list).deep_view().insert(
            row_place(old(list).deep_view(), draft.deep_view().row.y, 0),
            draft.deep_view(),
        ),
{
    let ghost now = list.deep_view();
    let ghost view = draft.deep_view();
    let y = draft.row.y;
    let mut i: usize = 0;
    while i < list.len() && !is_less(list[i].row.y, y)
        invariant
            now == list.deep_view(),
            y == view.row.y,
            i <= list@.len(),
            row_place(now, y, i as int) == row_place(now, y, 0),
        decreases list@.len() - i,
    {
        assert(now[i as int] == list@[i as int].deep_view());
        i += 1;
    }
    assert(i < list@.len() ==> now[i as int] == list@[i as int].deep_view());
    list.insert(i, draft);
    assert(list.deep_view() =~= now.insert(i as int, view));
}

/// Makes rows of fragments, and puts them from top to bottom.
pub fn draft_rows(sources: Vec<RowSource>) -> (r: Vec<RowDraft>)
    ensures
        r.deep_view() == drafted(sources.deep_view(), sources.deep_view().len() as int),
{
    let ghost views = sources.deep_view();
    let mut list: Vec<RowDraft> = Vec::new();
    let mut rest = sources;
    let mut given: Vec<RowSource> = Vec::new();
    assert(list.deep_view() =~= seq![]);
    // The sources are taken from the end, so they are turned around first.
    let count = rest.len();
    for n in 0..count
        invariant
            views.len() == count,
            rest@.len() == count - n,
            given@.len() == n,
            forall|j: int|
                0 <= j < count - n ==> (#[trigger] rest@[j]).deep_view() == views[j],
            forall|j: int|
                0 <= j < n ==> (#[trigger] given@[j]).deep_view() == views[count - 1 - j],
    {
        match rest.pop() {
            Some(source) => {
                given.push(source);
            },
            None => {},
        }
    }
    for n in 0..count
        invariant
            views.len() == count,
            given@.len() == count - n,
            forall|j: int|
                0 <= j < count - n ==> (#[trigger] given@[j]).deep_view() == views[count - 1 - j],
            list.deep_view() == drafted(views, n as int),
    {
        match given.pop() {
            Some(source) => {
                assert(source.deep_view() == views[n as int]);
                let draft = make_row(source);
                if !trim(draft.row.text.as_str()).is_empty() {
                    insert_row(&mut list, draft);
                }
            },
            None => {},
        }
    }
    list
}

// ---------------------------------------------------------------------------
// Columns of line numbers
// ---------------------------------------------------------------------------

/// Where the line number of a row stands, or else the row.
pub open spec fn number_x(row: VisualRowView) -> Option<Measure> {
    match row.line_number_x {
        Some(x) => Some(x),
        None => row.left_x,
    }
}

/// The line numbers of the first `n` rows that are numbered and stand somewhere.
pub open spec fn placed_numbers(rows: Seq<RowDraftView>, n: int) -> Seq<u16>
    decreases n,
{
    if n <= 0 {
        seq![]
    } else {
        let before = placed_numbers(rows, n - 1);
        match (rows[n - 1].row.line_number, number_x(rows[n - 1].row)) {
            (Some(k), Some(_)) => before.push(k),
            _ => before,
        }
    }
}

/// Where the line numbers of the first `n` rows stand.
pub open spec fn number_places(rows: Seq<RowDraftView>, n: int) -> Seq<Measure>
    decreases n,
{
    if n <= 0 {
        seq![]
    } else {
        let before = number_places(rows, n - 1);
        match (rows[n - 1].row.line_number, number_x(rows[n - 1].row)) {
            (Some(_), Some(x)) => before.push(x),
            _ => before,
        }
    }
}

/// Whether numbers run on like the line numbers of a page: from its first lines, over at
/// least six lines, and mostly one after the other.
pub open spec fn runs_on(numbers: Seq<u16>) -> bool {
    let low = extreme(numbers, true, numbers.len() as int);
    let high = extreme(numbers, false, numbers.len() as int);
    &&& numbers.len() >= 5
    &&& low is Some
    &&& high is Some
    &&& low->0 <= 6
    &&& high->0 - low->0 >= 5
    &&& reaches(sequence_score(numbers, true), 62)
}

fn do_numbers_run_on(numbers: &Vec<u16>) -> (r: bool)
    ensures
        r == runs_on(numbers@),
{
    match (find_extreme(numbers, true), find_extreme(numbers, false)) {
        (Some(low), Some(high)) => numbers.len() >= 5 && low <= 6 && high >= low && high - low >= 5
            && tolerant_line_sequence_score(numbers).at_least(62),
        _ => false,
    }
}

/// The column of the line numbers that rows lead with, where they run on.
pub open spec fn leading_column(rows: Seq<RowDraftView>) -> Option<Measure> {
    if runs_on(placed_numbers(rows, rows.len() as int)) {
        median(number_places(rows, rows.len() as int))
    } else {
        None
    }
}

fn collect_places(rows: &Vec<RowDraft>) -> (r: (Vec<u16>, Vec<Measure>))
    ensures
        r.0@ == placed_numbers(rows.deep_view(), rows.deep_view().len() as int),
        r.1@ == number_places(rows.deep_view(), rows.deep_view().len() as int),
{
    let mut numbers: Vec<u16> = Vec::new();
    let mut places: Vec<Measure> = Vec::new();
    for n in 0..rows.len()
        invariant
            numbers@ == placed_numbers(rows.deep_view(), n as int),
            places@ == number_places(rows.deep_view(), n as int),
    {
        assert(rows.deep_view()[n as int] == rows@[n as int].deep_view());
        let row = &rows[n].row;
        let x = match row.line_number_x {
            Some(x) => Some(x),
            None => row.left_x,
        };
        match (row.line_number, x) {
            (Some(k), Some(x)) => {
                numbers.push(k);
                places.push(x);
            },
            _ => {},
        }
    }
    (numbers, places)
}

/// Computes [`leading_column`].
pub fn find_leading_column(rows: &Vec<RowDraft>) -> (r: Option<Measure>)
    ensures
        r == leading_column(rows.deep_view()),
{
    let (numbers, places) = collect_places(rows);
    if do_numbers_run_on(&numbers) {
        middle(&places)
    } else {
        None
    }
}

/// A fragment that may be a line number.
#[derive(Debug, Clone, Copy, PartialEq, Eq, Structural)]
pub struct Candidate {
    pub row: usize,
    pub fragment: usize,
    pub number: u16,
    pub x: Measure,
}

/// The line number that a fragment is.
pub open spec fn fragment_number(fragment: PositionedTextFragmentView) -> Option<u16> {
    match parsed_u16(trimmed(fragment.text)) {
        Some(n) if numbers_a_line(n) => Some(n),
        _ => None,
    }
}

/// The candidates among the first `n` fragments of a row.
pub open spec fn row_candidates(
    list: Seq<Candidate>,
    fragments: Seq<PositionedTextFragmentView>,
    row: usize,
    n: int,
) -> Seq<Candidate>
    decreases n,
{
    if n <= 0 {
        list
    } else {
        let before = row_candidates(list, fragments, row, n - 1);
        match fragment_number(fragments[n - 1]) {
            Some(number) => before.push(
                Candidate { row, fragment: (n - 1) as usize, number, x: fragments[n - 1].x },
            ),
            None => before,
        }
    }
}

/// The candidates in the first `n` rows.
pub open spec fn candidates(rows: Seq<RowDraftView>, n: int) -> Seq<Candidate>
    decreases n,
{
    if n <= 0 {
        seq![]
    } else {
        let fragments = rows[n - 1].row.fragments;
        row_candidates(
            candidates(rows, n - 1),
            fragments,
            (n - 1) as usize,
            fragments.len() as int,
        )
    }
}

/// Computes [`candidates`] of all rows.
pub fn find_candidates(rows: &Vec<RowDraft>) -> (r: Vec<Candidate>)
    ensures
        r@ == candidates(rows.deep_view(), rows.deep_view().len() as int),
{
    let mut r: Vec<Candidate> = Vec::new();
    for n in 0..rows.len()
        invariant
            r@ == candidates(rows.deep_view(), n as int),
    {
        assert(rows.deep_view()[n as int] == rows@[n as int].deep_view());
        let ghost before = r@;
        let ghost views = rows.deep_view()[n as int].row.fragments;
        let fragments = &rows[n].row.fragments;
        for i in 0..fragments.len()
            invariant
                views == fragments.deep_view(),
                r@ == row_candidates(before, views, n, i as int),
        {
            assert(views[i as int] == fragments@[i as int].deep_view());
            match parse_u16(trim(fragments[i].text.as_str())) {
                Some(number) => {
                    if 1 <= number && number <= 50 {
                        r.push(Candidate { row: n, fragment: i, number, x: fragments[i].x });
                    }
                },
                None => {},
            }
        }
    }
    r
}

/// The candidates among the first `n` that belong to a column, the first of each row.
pub open spec fn column_members(list: Seq<Candidate>, members: Seq<bool>, n: int) -> Seq<Candidate>
    decreases n,
{
    if n <= 0 {
        seq![]
    } else {
        let before = column_members(list, members, n - 1);
        if n <= members.len() && members[n - 1] && (before.len() == 0 || before[before.len()
            - 1].row != list[n - 1].row) {
            before.push(list[n - 1])
        } else {
            before
        }
    }
}

/// The numbers of candidates.
pub open spec fn candidate_numbers(list: Seq<Candidate>) -> Seq<u16> {
    Seq::new(list.len(), |i: int| list[i].number)
}

/// A column of candidates, where its numbers run on and at least five are different.
pub open spec fn checked_column(list: Seq<Candidate>, members: Seq<bool>) -> Option<Seq<Candidate>> {
    let column = column_members(list, members, list.len() as int);
    let numbers = candidate_numbers(column);
    if runs_on(numbers) && sorted_numbers(numbers, numbers.len() as int).len() >= 5 {
        Some(column)
    } else {
        None
    }
}

/// Computes [`checked_column`]. A gutter behaves like a sequence, not merely like a column of
/// numbers.
pub fn check_column(list: &Vec<Candidate>, members: &Vec<bool>) -> (r: Option<Vec<Candidate>>)
    ensures
        match (r, checked_column(list@, members@)) {
            (Some(a), Some(b)) => a@ == b,
            (None, None) => true,
            _ => false,
        },
{
    let mut column: Vec<Candidate> = Vec::new();
    let mut numbers: Vec<u16> = Vec::new();
    for n in 0..list.len()
        invariant
            column@ == column_members(list@, members@, n as int),
            numbers@ == candidate_numbers(column@),
    {
        let len = column.len();
        if n < members.len() && members[n] && (len == 0 || column[len - 1].row != list[n].row) {
            column.push(list[n]);
            numbers.push(list[n].number);
            assert(numbers@ =~= candidate_numbers(column@));
        }
    }
    if do_numbers_run_on(&numbers) && sort_numbers(&numbers).len() >= 5 {
        Some(column)
    } else {
        None
    }
}

/// Where the candidates of a column stand.
pub open spec fn candidate_places(list: Seq<Candidate>) -> Seq<Measure> {
    Seq::new(list.len(), |i: int| list[i].x)
}

/// Where a column stands.
pub fn column_place(column: &Vec<Candidate>) -> (r: Option<Measure>)
    ensures
        r == median(candidate_places(column@)),
{
    let mut places: Vec<Measure> = Vec::new();
    for n in 0..column.len()
        invariant
            places@ == candidate_places(column@).take(n as int),
    {
        places.push(column[n].x);
        assert(candidate_places(column@).take(n + 1) =~= candidate_places(column@).take(
            n as int,
        ).push(column@[n as int].x));
    }
    assert(candidate_places(column@).take(column@.len() as int) =~= candidate_places(column@));
    middle(&places)
}

/// Which of the first `n` columns has the best score, of those that have one; the first of
/// several.
pub open spec fn best_scored(scores: Seq<Option<Measure>>, n: int) -> Option<int>
    decreases n,
{
    if n <= 0 {
        None
    } else {
        let best = best_scored(scores, n - 1);
        match (scores[n - 1], best) {
            (Some(score), Some(i)) => if less(scores[i]->0, score) {
                Some(n - 1)
            } else {
                best
            },
            (Some(_), None) => Some(n - 1),
            (None, _) => best,
        }
    }
}

/// Chooses the column with the best score.
pub fn choose_column(scores: &Vec<Option<Measure>>) -> (r: Option<usize>)
    ensures
        match (r, best_scored(scores@, scores@.len() as int)) {
            (Some(i), Some(k)) => i == k && i < scores@.len() && scores@[i as int] is Some,
            (None, None) => true,
            _ => false,
        },
{
    let mut best: Option<(usize, Measure)> = None;
    for n in 0..scores.len()
        invariant
            match (best, best_scored(scores@, n as int)) {
                (Some((i, score)), Some(k)) => i == k && i < n && scores@[k] == Some(score),
                (None, None) => true,
                _ => false,
            },
    {
        match (scores[n], best) {
            (Some(score), Some((_, greatest))) => {
                if is_less(greatest, score) {
                    best = Some((n, score));
                }
            },
            (Some(score), None) => {
                best = Some((n, score));
            },
            (None, _) => {},
        }
    }
    match best {
        Some((i, _)) => Some(i),
        None => None,
    }
}

/// A row with the line number that a column gives it, in front of its text.
pub open spec fn renumbered(draft: RowDraftView, candidate: Candidate) -> RowDraftView {
    let row = draft.row;
    let i = candidate.fragment as int;
    let numbered = VisualRowView {
        line_number: Some(candidate.number),
        line_number_x: Some(candidate.x),
        ..row
    };
    if i < row.fragments.len() && trimmed(row.fragments[i].text) == decimal(candidate.number as nat) {
        let body = row_text(row.fragments, draft.gaps, Some(i));
        let rest = row.fragments.remove(i);
        RowDraftView {
            row: VisualRowView {
                text: if body.len() == 0 {
                    decimal(candidate.number as nat)
                } else {
                    decimal(candidate.number as nat) + " "@ + body
                },
                fragments: rest,
                left_x: leftmost(rest),
                ..numbered
            },
            ..draft
        }
    } else {
        RowDraftView { row: numbered, ..draft }
    }
}

fn renumber(draft: &mut RowDraft, candidate: Candidate)
    ensures
        final(draft).deep_view() == renumbered(old(draft).deep_view(), candidate),
{
    let ghost before = draft.deep_view();
    let i = candidate.fragment;
    draft.row.line_number = Some(candidate.number);
    draft.row.line_number_x = Some(candidate.x);
    if i < draft.row.fragments.len() {
        assert(before.row.fragments[i as int] == draft.row.fragments@[i as int].deep_view());
        let digits = decimal_string(candidate.number as u64);
        if same(trim(draft.row.fragments[i].text.as_str()), digits.as_str()) {
            let body = join_row_fragments(&draft.row.fragments, &draft.gaps, Some(i));
            let _removed = draft.row.fragments.remove(i);
            assert(draft.row.fragments.deep_view() =~= before.row.fragments.remove(i as int));
            draft.row.left_x = find_leftmost(&draft.row.fragments);
            draft.row.text = if body.as_str().is_empty() {
                digits
            } else {
                digits.concat(" ").concat(body.as_str())
            };
        }
    }
}

/// Rows with the line numbers that the first `n` candidates of a column give them.
pub open spec fn with_column(rows: Seq<RowDraftView>, column: Seq<Candidate>, n: int) -> Seq<
    RowDraftView,
>
    decreases n,
{
    if n <= 0 {
        rows
    } else {
        let before = with_column(rows, column, n - 1);
        let i = column[n - 1].row as int;
        if i < before.len() {
            before.update(i, renumbered(before[i], column[n - 1]))
        } else {
            before
        }
    }
}

/// Puts the numbers of a column in front of their rows, wherever the column stands.
pub fn normalize_column(rows: &mut Vec<RowDraft>, column: &Vec<Candidate>)
    ensures
        final(rows).deep_view() == with_column(
            old(rows).deep_view(),
            column@,
            column@.len() as int,
        ),
{
    let ghost start = rows.deep_view();
    for n in 0..column.len()
        invariant
            rows.deep_view() == with_column(start, column@, n as int),
    {
        let i = column[n].row;
        if i < rows.len() {
            let ghost now = rows.deep_view();
            assert(now[i as int] == rows@[i as int].deep_view());
            renumber(&mut rows[i], column[n]);
            assert(rows.deep_view() =~= now.update(
                i as int,
                renumbered(now[i as int], column@[n as int]),
            ));
        }
    }
}

/// Settles where the line numbers of a page stand: in front of the rows where they lead them,
/// else in the column that was scored best, whose numbers are put in front of their rows.
pub fn settle_column(
    leading: Option<Measure>,
    scored: Option<(Vec<Candidate>, Measure)>,
    rows: &mut Vec<RowDraft>,
) -> (r: Option<Measure>)
    ensures
        match (leading, scored) {
            (Some(x), _) => r == Some(x) && *final(rows) == *old(rows),
            (None, Some((column, x))) => r == Some(x) && final(rows).deep_view() == with_column(
                old(rows).deep_view(),
                column@,
                column@.len() as int,
            ),
            (None, None) => r is None && *final(rows) == *old(rows),
        },
{
    match (leading, scored) {
        (Some(x), _) => Some(x),
        (None, Some((column, x))) => {
            normalize_column(rows, &column);
            Some(x)
        },
        (None, None) => None,
    }
}

/// How many of the first `n` rows hold more than white space.
pub open spec fn filled_among(rows: Seq<RowDraftView>, n: int) -> nat
    decreases n,
{
    if n <= 0 {
        0
    } else if blank(rows[n - 1].row.text) {
        filled_among(rows, n - 1)
    } else {
        filled_among(rows, n - 1) + 1
    }
}

/// Counts the rows that hold more than white space.
pub fn count_filled(rows: &Vec<RowDraft>) -> (r: usize)
    ensures
        r == filled_among(rows.deep_view(), rows@.len() as int),
{
    let mut count: usize = 0;
    for n in 0..rows.len()
        invariant
            count <= n,
            count == filled_among(rows.deep_view(), n as int),
    {
        assert(rows.deep_view()[n as int] == rows@[n as int].deep_view());
        if !is_blank(rows[n].row.text.as_str()) {
            count = count + 1;
        }
    }
    count
}

// ---------------------------------------------------------------------------
// The page
// ---------------------------------------------------------------------------

/// The texts of rows.
pub open spec fn row_texts(rows: Seq<RowDraftView>) -> Seq<Seq<char>> {
    Seq::new(rows.len(), |i: int| rows[i].row.text)
}

/// The text of all rows.
pub open spec fn rows_text(rows: Seq<RowDraftView>) -> Seq<char> {
    joined(row_texts(rows), "\n"@)
}

/// Computes [`rows_text`].
pub fn join_rows(rows: &Vec<RowDraft>) -> (r: String)
    ensures
        r@ == rows_text(rows.deep_view()),
{
    let ghost all = row_texts(rows.deep_view());
    let mut texts: Vec<String> = Vec::new();
    assert(texts.deep_view() =~= all.take(0));
    for n in 0..rows.len()
        invariant
            all == row_texts(rows.deep_view()),
            texts.deep_view() == all.take(n as int),
    {
        assert(rows.deep_view()[n as int] == rows@[n as int].deep_view());
        push_item(&mut texts, rows[n].row.text.clone());
        assert(all.take(n + 1) =~= all.take(n as int).push(all[n as int]));
    }
    assert(all.take(all.len() as int) =~= all);
    join(&texts, "\n")
}

/// How many letters and digits a text has.
pub fn semantic_char_count(text: &str) -> (r: usize)
    ensures
        r == count_within(text@, CharClass::Alphanumeric),
{
    count_chars(text, CharClass::Alphanumeric)
}

/// How many of the first `n` fragments of a row are masked, on top of a count.
pub open spec fn masked_in_row(
    start: usize,
    fragments: Seq<PositionedTextFragmentView>,
    n: int,
) -> usize
    decreases n,
{
    if n <= 0 {
        start
    } else {
        let before = masked_in_row(start, fragments, n - 1);
        if fragments[n - 1].redaction_masked {
            succ(before)
        } else {
            before
        }
    }
}

/// How many fragments in the first `n` rows are masked.
pub open spec fn masked_in_rows(rows: Seq<RowDraftView>, n: int) -> usize
    decreases n,
{
    if n <= 0 {
        0
    } else {
        let fragments = rows[n - 1].row.fragments;
        masked_in_row(masked_in_rows(rows, n - 1), fragments, fragments.len() as int)
    }
}

fn count_masked(rows: &Vec<RowDraft>) -> (r: usize)
    ensures
        r == masked_in_rows(rows.deep_view(), rows.deep_view().len() as int),
{
    let mut r: usize = 0;
    for n in 0..rows.len()
        invariant
            r == masked_in_rows(rows.deep_view(), n as int),
    {
        assert(rows.deep_view()[n as int] == rows@[n as int].deep_view());
        let ghost before = r;
        let ghost views = rows.deep_view()[n as int].row.fragments;
        let fragments = &rows[n].row.fragments;
        for i in 0..fragments.len()
            invariant
                views == fragments.deep_view(),
                r == masked_in_row(before, views, i as int),
        {
            assert(views[i as int] == fragments@[i as int].deep_view());
            if fragments[i].redaction_masked {
                r = next(r);
            }
        }
    }
    r
}

/// Where line numbers stand, where at least four rows have one.
pub open spec fn likely_column(rows: Seq<RowDraftView>) -> Option<Measure> {
    let places = number_places(rows, rows.len() as int);
    if places.len() < 4 {
        None
    } else {
        median(places)
    }
}

fn likely_line_number_column(rows: &Vec<RowDraft>) -> (r: Option<Measure>)
    ensures
        r == likely_column(rows.deep_view()),
{
    let (_, places) = collect_places(rows);
    if places.len() < 4 {
        None
    } else {
        middle(&places)
    }
}

/// The rows without how their fragments stand to each other.
pub open spec fn finished_rows(rows: Seq<RowDraftView>) -> Seq<VisualRowView> {
    Seq::new(rows.len(), |i: int| rows[i].row)
}

/// Whether the rows are used for the text of a page. They are where little of the page is
/// missing from them, and always where anything in them is masked.
pub open spec fn rows_are_used(rows: Seq<RowDraftView>, confidence: Measure) -> bool {
    &&& confidence >= MEASURE_0_42 || masked_in_rows(rows, rows.len() as int) > 0
    &&& !blank(rows_text(rows))
}

/// The text of a page, given what a plain extraction recovers of it.
pub open spec fn page_text_of(
    rows: Seq<RowDraftView>,
    fallback: Seq<char>,
    confidence: Measure,
) -> Seq<char> {
    if rows_are_used(rows, confidence) {
        rows_text(rows)
    } else {
        fallback
    }
}

/// How the text of a page was recovered from `fragment_count` fragments.
pub open spec fn layout_of(
    rows: Seq<RowDraftView>,
    fragment_count: usize,
    column: Option<Measure>,
    confidence: Measure,
) -> PageLayoutDiagnosticsView {
    let finished = finished_rows(rows);
    PageLayoutDiagnosticsView {
        positioned_text_available: true,
        used_positioned_reconstruction: rows_are_used(rows, confidence),
        fragment_count,
        visual_row_count: rows.len() as usize,
        numbered_row_count: numbered_count(finished, finished.len() as int) as usize,
        masked_redaction_fragments: masked_in_rows(rows, rows.len() as int),
        likely_line_number_column_x: match column {
            Some(x) => Some(x),
            None => likely_column(rows),
        },
        reconstruction_confidence: confidence,
        fallback_reason: if rows_are_used(rows, confidence) {
            None
        } else {
            Some(
                "Positioned reconstruction was too sparse/inconsistent; retained bounded lopdf plain-text extraction."@,
            )
        },
        ..no_layout()
    }
}

/// How the text of a page without fragments was recovered.
pub open spec fn layout_without_fragments() -> PageLayoutDiagnosticsView {
    PageLayoutDiagnosticsView {
        fallback_reason: Some("No decodable positioned PDF text operations."@),
        ..no_layout()
    }
}

/// The rows, the text and the layout of a page, given its rows, the column of its line
/// numbers if one was found, what a plain extraction recovers of it, and how much of that the
/// rows hold.
pub fn reconstruct_visual_rows(
    rows: Vec<RowDraft>,
    fragment_count: usize,
    column: Option<Measure>,
    fallback_text: &str,
    confidence: Measure,
) -> (r: (Vec<VisualRow>, String, PageLayoutDiagnostics))
    ensures
        fragment_count == 0 ==> {
            &&& r.0@.len() == 0
            &&& r.1@ == fallback_text@
            &&& r.2.deep_view() == layout_without_fragments()
        },
        fragment_count > 0 ==> {
            &&& r.0.deep_view() == finished_rows(rows.deep_view())
            &&& r.1@ == page_text_of(rows.deep_view(), fallback_text@, confidence)
            &&& r.2.deep_view() == layout_of(rows.deep_view(), fragment_count, column, confidence)
        },
{
    if fragment_count == 0 {
        let layout = PageLayoutDiagnostics {
            fallback_reason: Some("No decodable positioned PDF text operations.".to_owned()),
            ..PageLayoutDiagnostics::default()
        };
        return (Vec::new(), fallback_text.to_owned(), layout);
    }
    let ghost drafts = rows.deep_view();
    let reconstructed = join_rows(&rows);
    let masked = count_masked(&rows);
    let likely = match column {
        Some(x) => Some(x),
        None => likely_line_number_column(&rows),
    };
    let used = (confidence >= MEASURE_0_42 || masked > 0) && !is_blank(reconstructed.as_str());
    let ghost all = finished_rows(drafts);
    let mut visual_rows: Vec<VisualRow> = Vec::new();
    assert(visual_rows.deep_view() =~= all.take(0));
    for n in 0..rows.len()
        invariant
            drafts == rows.deep_view(),
            all == finished_rows(drafts),
            visual_rows@.len() == n,
            visual_rows.deep_view() == all.take(n as int),
    {
        assert(drafts[n as int] == rows@[n as int].deep_view());
        push_item(&mut visual_rows, rows[n].row.clone());
        assert(all.take(n + 1) =~= all.take(n as int).push(all[n as int]));
    }
    assert(all.take(all.len() as int) =~= all);
    let layout = PageLayoutDiagnostics {
        positioned_text_available: true,
        used_positioned_reconstruction: used,
        fragment_count,
        visual_row_count: visual_rows.len(),
        numbered_row_count: count_numbered(&visual_rows),
        masked_redaction_fragments: masked,
        likely_line_number_column_x: likely,
        reconstruction_confidence: confidence,
        fallback_reason: if used {
            None
        } else {
            Some(
                "Positioned reconstruction was too sparse/inconsistent; retained bounded lopdf plain-text extraction.".to_owned(),
            )
        },
        ..PageLayoutDiagnostics::default()
    };
    let text = if used {
        reconstructed
    } else {
        fallback_text.to_owned()
    };
    (visual_rows, text, layout)
}

// ---------------------------------------------------------------------------
// Laws
// ---------------------------------------------------------------------------

proof fn lemma_drafts_are_filled(sources: Seq<RowSourceView>, n: int)
    ensures
        forall|i: int|
            0 <= i < drafted(sources, n).len() ==> !blank(
                (#[trigger] drafted(sources, n)[i]).row.text,
            ),
    decreases n,
{
    if n > 0 {
        lemma_drafts_are_filled(sources, n - 1);
        let before = drafted(sources, n - 1);
        let draft = row_of(sources[n - 1]);
        lemma_row_place(before, draft.row.y, 0);
    }
}

proof fn lemma_row_place(list: Seq<RowDraftView>, y: Measure, from: int)
    requires
        0 <= from <= list.len(),
    ensures
        from <= row_place(list, y, from) <= list.len(),
    decreases list.len() - from,
{
    if from < list.len() && !less(list[from].row.y, y) {
        lemma_row_place(list, y, from + 1);
    }
}

proof fn lemma_column_keeps_rows_filled(rows: Seq<RowDraftView>, column: Seq<Candidate>, n: int)
    requires
        forall|i: int| 0 <= i < rows.len() ==> !blank((#[trigger] rows[i]).row.text),
    ensures
        with_column(rows, column, n).len() == rows.len(),
        forall|i: int|
            0 <= i < rows.len() ==> !blank((#[trigger] with_column(rows, column, n)[i]).row.text),
    decreases n,
{
    if n > 0 {
        lemma_column_keeps_rows_filled(rows, column, n - 1);
        let before = with_column(rows, column, n - 1);
        let c = column[n - 1];
        if c.row < before.len() {
            let digits = decimal(c.number as nat);
            lemma_decimal_is_filled(c.number as nat);
            let text = renumbered(before[c.row as int], c).row.text;
            if text.len() > 0 && text[0] == digits[0] {
                lemma_filled(text, 0);
            }
        }
    }
}

proof fn lemma_decimal_is_filled(n: nat)
    ensures
        decimal(n).len() > 0,
        !within(CharClass::Space, decimal(n)[0]),
    decreases n,
{
    if n >= 10 {
        lemma_decimal_is_filled(n / 10);
    }
}

proof fn lemma_joined_is_filled(list: Seq<Seq<char>>, sep: Seq<char>, n: int)
    requires
        0 < n <= list.len(),
        !blank(list[0]),
    ensures
        !blank(joined_first(list, sep, n)),
    decreases n,
{
    let i = lemma_filled_somewhere(list[0]);
    lemma_joined_starts(list, sep, n);
    let all = joined_first(list, sep, n);
    assert(all[i] == list[0][i]);
    lemma_filled(all, i);
}

proof fn lemma_joined_starts(list: Seq<Seq<char>>, sep: Seq<char>, n: int)
    requires
        0 < n <= list.len(),
    ensures
        joined_first(list, sep, n).len() >= list[0].len(),
        joined_first(list, sep, n).take(list[0].len() as int) == list[0],
        forall|i: int|
            0 <= i < list[0].len() ==> #[trigger] joined_first(list, sep, n)[i] == list[0][i],
    decreases n,
{
    if n > 1 {
        lemma_joined_starts(list, sep, n - 1);
        let before = joined_first(list, sep, n - 1);
        let all = joined_first(list, sep, n);
        assert forall|i: int| 0 <= i < list[0].len() implies #[trigger] all[i] == list[0][i] by {
            assert(before[i] == list[0][i]);
            assert(all[i] == before[i]);
        }
    }
    assert(joined_first(list, sep, n).take(list[0].len() as int) =~= list[0]);
}

/// Where anything on a page is masked, its text is made of its masked rows alone: what a plain
/// extraction recovers of the page, in which nothing is masked, does not show in it.
pub proof fn law_masked_pages_do_not_fall_back(
    sources: Seq<RowSourceView>,
    column: Seq<Candidate>,
    fallback: Seq<char>,
    confidence: Measure,
)
    ensures
        ({
            let rows = with_column(
                drafted(sources, sources.len() as int),
                column,
                column.len() as int,
            );
            masked_in_rows(rows, rows.len() as int) > 0 ==> page_text_of(rows, fallback, confidence)
                == rows_text(rows)
        }),
{
    let drafts = drafted(sources, sources.len() as int);
    let rows = with_column(drafts, column, column.len() as int);
    lemma_drafts_are_filled(sources, sources.len() as int);
    lemma_column_keeps_rows_filled(drafts, column, column.len() as int);
    if masked_in_rows(rows, rows.len() as int) > 0 {
        assert(rows.len() > 0);
        assert(!blank(rows[0].row.text));
        assert(row_texts(rows)[0] == rows[0].row.text);
        lemma_joined_is_filled(row_texts(rows), "\n"@, rows.len() as int);
    }
}

// ---------------------------------------------------------------------------
// Laws of the rows
// ---------------------------------------------------------------------------

/// A fragment is written behind what stands before it in its row, unless it is left out, blank, or
/// masked behind a masked one. A space parts the two where the gap is wide, or where it is near and
/// a word would run into a word, but not behind a space and not before closing punctuation.
pub proof fn law_fragments_are_written_in_turn(
    fragments: Seq<PositionedTextFragmentView>,
    gaps: Seq<Seq<Gap>>,
    left_out: Option<int>,
    n: int,
)
    requires
        0 <= n < fragments.len(),
        gaps.len() == fragments.len(),
        gaps[n].len() == fragments.len(),
    ensures
        ({
            let before = written(fragments, gaps, left_out, n);
            let after = written(fragments, gaps, left_out, n + 1);
            let text = trimmed(fragments[n].text);
            let start = written(fragments, gaps, left_out, 0);
            &&& start.output.len() == 0 && start.last is None
            &&& left_out == Some(n) || text.len() == 0 ==> after == before
            &&& left_out != Some(n) && text.len() > 0 && before.last is None ==> after.output
                == before.output + text && after.last == Some(n)
            &&& left_out != Some(n) && text.len() > 0 && before.last is Some ==> {
                let p = before.last->0;
                let end = fragments[p].text;
                let gap = gaps[n][p];
                let meet = end.len() > 0 && within(CharClass::Alphanumeric, end[end.len() - 1])
                    && within(CharClass::Alphanumeric, text[0]);
                let parted = (gap.wide || (gap.near && meet)) && !(before.output.len() > 0
                    && within(CharClass::Space, before.output[before.output.len() - 1]))
                    && !within(CharClass::ClosingPunctuation, text[0]);
                0 <= p < n ==> if fragments[n].redaction_masked && fragments[p].redaction_masked {
                    after == before
                } else {
                    after.last == Some(n) && after.output == if parted {
                        before.output + " "@ + text
                    } else {
                        before.output + text
                    }
                }
            }
        }),
{
}

/// Every fragment that is not blank is written, where none is masked or left out: what is written
/// ends with the last of them, and what was written before it stays in front.
pub proof fn law_filled_fragments_are_written(
    fragments: Seq<PositionedTextFragmentView>,
    gaps: Seq<Seq<Gap>>,
    n: int,
)
    requires
        0 <= n < fragments.len(),
        !fragments[n].redaction_masked,
        trimmed(fragments[n].text).len() > 0,
    ensures
        ({
            let before = written(fragments, gaps, None, n).output;
            let after = written(fragments, gaps, None, n + 1).output;
            let text = trimmed(fragments[n].text);
            &&& after.len() >= before.len() + text.len()
            &&& after.take(before.len() as int) == before
            &&& after.skip(after.len() - text.len()) == text
        }),
{
    let before = written(fragments, gaps, None, n).output;
    let after = written(fragments, gaps, None, n + 1).output;
    let text = trimmed(fragments[n].text);
    assert(after.take(before.len() as int) =~= before);
    assert(after.skip(after.len() - text.len()) =~= text);
}

/// A row says what its fragments say, stands where the first of them stands, and is numbered by the
/// number that its text leads with.
pub proof fn law_rows_are_made_of_fragments(source: RowSourceView)
    ensures
        ({
            let row = row_of(source).row;
            let all = written(source.fragments, source.gaps, None, source.fragments.len() as int);
            &&& row.text == single_spaced(all.output)
            &&& row.line_number == leading_number(row.text)
            &&& row.y == source.y
            &&& row.fragments == source.fragments
            &&& source.fragments.len() > 0 ==> row.left_x == Some(source.fragments[0].x)
            &&& source.fragments.len() == 0 ==> row.left_x is None
            &&& row.line_number is Some ==> row.line_number_x == row.left_x
            &&& row.line_number is None ==> row.line_number_x is None
            &&& row.panel == 0 && row.printed_page is None && row.bbox is None
            &&& row.ocr_confidence is None && !row.marker_stands_clear
            &&& row_of(source).gaps == source.gaps
        }),
{
}

proof fn lemma_row_placed(list: Seq<RowDraftView>, y: Measure, from: int)
    requires
        0 <= from <= list.len(),
        forall|i: int| 0 <= i < from ==> !less((#[trigger] list[i]).row.y, y),
    ensures
        from <= row_place(list, y, from) <= list.len(),
        forall|i: int|
            0 <= i < row_place(list, y, from) ==> !less((#[trigger] list[i]).row.y, y),
        row_place(list, y, from) < list.len() ==> less(list[row_place(list, y, from)].row.y, y),
    decreases list.len() - from,
{
    if from < list.len() && !less(list[from].row.y, y) {
        lemma_row_placed(list, y, from + 1);
    }
}

/// Whether rows go from top to bottom.
pub open spec fn top_down(rows: Seq<RowDraftView>) -> bool {
    forall|i: int, j: int|
        0 <= i < j < rows.len() ==> !less((#[trigger] rows[i]).row.y, (#[trigger] rows[j]).row.y)
}

/// The rows of a page go from top to bottom, and each group of fragments with text in it makes one
/// of them; blank ones make none.
pub proof fn law_rows_go_down_the_page(sources: Seq<RowSourceView>, n: int)
    requires
        0 <= n < sources.len(),
    ensures
        top_down(drafted(sources, n)),
        top_down(drafted(sources, n + 1)),
        drafted(sources, 0).len() == 0,
        ({
            let draft = row_of(sources[n]);
            &&& trimmed(draft.row.text).len() == 0 ==> drafted(sources, n + 1) == drafted(
                sources,
                n,
            )
            &&& trimmed(draft.row.text).len() > 0 ==> drafted(sources, n + 1).to_multiset()
                == drafted(sources, n).to_multiset().insert(draft)
        }),
    decreases n,
{
    if n > 0 {
        law_rows_go_down_the_page(sources, n - 1);
    }
    let before = drafted(sources, n);
    let draft = row_of(sources[n]);
    let p = row_place(before, draft.row.y, 0);
    lemma_row_placed(before, draft.row.y, 0);
    let after = before.insert(p, draft);
    assert(after.to_multiset() =~= before.to_multiset().insert(draft)) by {
        broadcast use vstd::seq_lib::group_to_multiset_ensures;

        assert(after.remove(p) =~= before);
        assert(after[p] == draft);
        assert(after.contains(draft));
    }
    assert forall|i: int, j: int| 0 <= i < j < after.len() implies !less(
        (#[trigger] after[i]).row.y,
        (#[trigger] after[j]).row.y,
    ) by {
        if i == p {
            assert(after[j] == before[j - 1]);
            if j - 1 > p {
                assert(!less(before[p].row.y, before[j - 1].row.y));
            }
        } else if j == p {
            assert(after[i] == before[i]);
        } else {
            let a = if i < p {
                i
            } else {
                i - 1
            };
            let b = if j < p {
                j
            } else {
                j - 1
            };
            assert(after[i] == before[a] && after[j] == before[b]);
        }
    }
}

/// The numbered rows of a page count with where their number stands, or else where they start.
pub proof fn law_numbered_rows_are_placed(rows: Seq<RowDraftView>, n: int)
    requires
        0 <= n < rows.len(),
    ensures
        ({
            let row = rows[n].row;
            let x = if row.line_number_x is Some {
                row.line_number_x
            } else {
                row.left_x
            };
            let counts = row.line_number is Some && x is Some;
            &&& placed_numbers(rows, 0).len() == 0 && number_places(rows, 0).len() == 0
            &&& counts ==> placed_numbers(rows, n + 1) == placed_numbers(rows, n).push(
                row.line_number->0,
            ) && number_places(rows, n + 1) == number_places(rows, n).push(x->0)
            &&& !counts ==> placed_numbers(rows, n + 1) == placed_numbers(rows, n)
                && number_places(rows, n + 1) == number_places(rows, n)
        }),
{
}

/// Numbers run on where there are five or more of them, the smallest is at most six, the largest at
/// least five above it, and at least 62 in a hundred follow the one before by one to four.
pub proof fn law_columns_run_on(numbers: Seq<u16>)
    ensures
        ({
            let low = extreme(numbers, true, numbers.len() as int);
            let high = extreme(numbers, false, numbers.len() as int);
            let score = sequence_score(numbers, true);
            runs_on(numbers) <==> numbers.len() >= 5 && low is Some && high is Some && low->0 <= 6
                && high->0 >= low->0 + 5 && 100 * score.part >= 62 * score.whole
        }),
{
}

/// The column of the leading numbers is the middle of where they stand, where they run on; the
/// likely column is, where there are four.
pub proof fn law_columns_stand_in_the_middle(rows: Seq<RowDraftView>)
    ensures
        ({
            let numbers = placed_numbers(rows, rows.len() as int);
            let places = number_places(rows, rows.len() as int);
            &&& runs_on(numbers) ==> leading_column(rows) == median(places)
            &&& !runs_on(numbers) ==> leading_column(rows) is None
            &&& places.len() >= 4 ==> likely_column(rows) == median(places)
            &&& places.len() < 4 ==> likely_column(rows) is None
        }),
{
}

/// The fragments that may number a line are those that are a number from 1 to 50 and nothing else;
/// each is known by its row, its place in it and where it stands.
pub proof fn law_number_fragments_are_candidates(
    rows: Seq<RowDraftView>,
    list: Seq<Candidate>,
    fragments: Seq<PositionedTextFragmentView>,
    row: usize,
    n: int,
)
    requires
        0 <= n < fragments.len() <= usize::MAX,
    ensures
        ({
            let number = parsed_u16(trimmed(fragments[n].text));
            let counts = number matches Some(k) && 1 <= k <= 50;
            let before = row_candidates(list, fragments, row, n);
            let after = row_candidates(list, fragments, row, n + 1);
            &&& row_candidates(list, fragments, row, 0) == list
            &&& !counts ==> after == before
            &&& counts ==> after.len() == before.len() + 1 && after.drop_last() == before
                && after.last().row == row && after.last().fragment == n && after.last().number
                == number->0 && after.last().x == fragments[n].x
        }),
        candidates(rows, 0).len() == 0,
        forall|r: int|
            0 <= r < rows.len() ==> #[trigger] candidates(rows, r + 1) == row_candidates(
                candidates(rows, r),
                rows[r].row.fragments,
                r as usize,
                rows[r].row.fragments.len() as int,
            ),
{
    let before = row_candidates(list, fragments, row, n);
    let after = row_candidates(list, fragments, row, n + 1);
    if after.len() == before.len() + 1 {
        assert(after.drop_last() =~= before);
    }
}

/// Whether candidates are those of row after row.
pub open spec fn by_rows(list: Seq<Candidate>) -> bool {
    forall|i: int, j: int|
        0 <= i < j < list.len() ==> (#[trigger] list[i]).row <= (#[trigger] list[j]).row
}

/// Whether a candidate is a member of a column.
pub open spec fn is_member(
    list: Seq<Candidate>,
    members: Seq<bool>,
    n: int,
    candidate: Candidate,
) -> bool {
    exists|i: int| 0 <= i < n && members[i] && #[trigger] list[i] == candidate
}

/// Whether a column has a candidate of a row.
pub open spec fn has_row(column: Seq<Candidate>, row: usize) -> bool {
    exists|k: int| 0 <= k < column.len() && (#[trigger] column[k]).row == row
}

proof fn lemma_column_is_of_members(list: Seq<Candidate>, members: Seq<bool>, n: int)
    requires
        0 <= n <= list.len(),
        members.len() == list.len(),
    ensures
        forall|k: int|
            0 <= k < column_members(list, members, n).len() ==> is_member(
                list,
                members,
                n,
                #[trigger] column_members(list, members, n)[k],
            ),
    decreases n,
{
    if n > 0 {
        lemma_column_is_of_members(list, members, n - 1);
        let before = column_members(list, members, n - 1);
        let column = column_members(list, members, n);
        assert forall|k: int| 0 <= k < column.len() implies is_member(
            list,
            members,
            n,
            #[trigger] column[k],
        ) by {
            if k < before.len() {
                assert(is_member(list, members, n - 1, before[k]));
                let i = choose|i: int|
                    0 <= i < n - 1 && members[i] && #[trigger] list[i] == before[k];
                assert(list[i] == column[k]);
            } else {
                assert(list[n - 1] == column[k]);
            }
        }
    }
}

proof fn lemma_column_goes_down(list: Seq<Candidate>, members: Seq<bool>, n: int)
    requires
        0 <= n <= list.len(),
        members.len() == list.len(),
        by_rows(list),
    ensures
        ({
            let column = column_members(list, members, n);
            forall|k: int, l: int|
                0 <= k < l < column.len() ==> (#[trigger] column[k]).row < (
                #[trigger] column[l]).row
        }),
    decreases n,
{
    if n > 0 {
        lemma_column_goes_down(list, members, n - 1);
        lemma_column_is_of_members(list, members, n - 1);
        let before = column_members(list, members, n - 1);
        let column = column_members(list, members, n);
        if column.len() > before.len() && before.len() > 0 {
            let last = before.len() - 1;
            assert(is_member(list, members, n - 1, before[last]));
            let i = choose|i: int|
                0 <= i < n - 1 && members[i] && #[trigger] list[i] == before[last];
            assert(list[i].row <= list[n - 1].row);
            assert(before[last].row < list[n - 1].row);
        }
    }
}

proof fn lemma_column_has_rows(list: Seq<Candidate>, members: Seq<bool>, n: int, i: int)
    requires
        0 <= i < n <= list.len(),
        members.len() == list.len(),
        members[i],
    ensures
        has_row(column_members(list, members, n), list[i].row),
    decreases n,
{
    let before = column_members(list, members, n - 1);
    let column = column_members(list, members, n);
    if i < n - 1 {
        lemma_column_has_rows(list, members, n - 1, i);
        let k = choose|k: int| 0 <= k < before.len() && (#[trigger] before[k]).row == list[i].row;
        assert(column[k] == before[k]);
    } else {
        assert(column[column.len() - 1].row == list[i].row);
    }
}

/// A column holds one candidate of each row that has a member of it, and only members.
pub proof fn law_columns_take_one_of_each_row(list: Seq<Candidate>, members: Seq<bool>)
    requires
        members.len() == list.len(),
        by_rows(list),
    ensures
        ({
            let column = column_members(list, members, list.len() as int);
            &&& forall|k: int|
                0 <= k < column.len() ==> is_member(
                    list,
                    members,
                    list.len() as int,
                    #[trigger] column[k],
                )
            &&& forall|k: int, l: int|
                0 <= k < l < column.len() ==> (#[trigger] column[k]).row < (
                #[trigger] column[l]).row
            &&& forall|i: int|
                0 <= i < list.len() && #[trigger] members[i] ==> has_row(column, list[i].row)
        }),
{
    let n = list.len() as int;
    lemma_column_is_of_members(list, members, n);
    lemma_column_goes_down(list, members, n);
    assert forall|i: int| 0 <= i < list.len() && #[trigger] members[i] implies has_row(
        column_members(list, members, n),
        list[i].row,
    ) by {
        lemma_column_has_rows(list, members, n, i);
    }
}

/// A column is taken where its numbers run on and five or more of them are different.
pub proof fn law_columns_are_checked(list: Seq<Candidate>, members: Seq<bool>)
    ensures
        ({
            let column = column_members(list, members, list.len() as int);
            let numbers = Seq::new(column.len(), |i: int| column[i].number);
            let different = sorted_numbers(numbers, numbers.len() as int).len();
            &&& runs_on(numbers) && different >= 5 ==> checked_column(list, members) == Some(column)
            &&& !(runs_on(numbers) && different >= 5) ==> checked_column(list, members) is None
        }),
{
    let column = column_members(list, members, list.len() as int);
    assert(candidate_numbers(column) =~= Seq::new(column.len(), |i: int| column[i].number));
}

/// The best column is one that has a score, none has a better one, and none before it an equal one.
pub proof fn law_best_column(scores: Seq<Option<Measure>>, n: int)
    requires
        0 <= n <= scores.len(),
    ensures
        match best_scored(scores, n) {
            Some(best) => {
                &&& 0 <= best < n && scores[best] is Some
                &&& forall|i: int|
                    0 <= i < n && (#[trigger] scores[i]) is Some ==> !less(
                        scores[best]->0,
                        scores[i]->0,
                    )
                &&& forall|i: int|
                    0 <= i < best && (#[trigger] scores[i]) is Some ==> less(
                        scores[i]->0,
                        scores[best]->0,
                    )
            },
            None => forall|i: int| 0 <= i < n ==> (#[trigger] scores[i]) is None,
        },
    decreases n,
{
    if n > 0 {
        law_best_column(scores, n - 1);
    }
}

/// A row gets the number of its candidate, and where that is written as a fragment of its own, the
/// fragment leaves the row and the number comes in front of what the others say.
pub proof fn law_rows_are_renumbered(draft: RowDraftView, candidate: Candidate)
    requires
        candidate.fragment < draft.row.fragments.len(),
    ensures
        ({
            let after = renumbered(draft, candidate);
            let i = candidate.fragment as int;
            let body = row_text(draft.row.fragments, draft.gaps, Some(i));
            let digits = decimal(candidate.number as nat);
            let whole = trimmed(draft.row.fragments[i].text) == digits;
            &&& after.row.line_number == Some(candidate.number)
            &&& after.row.line_number_x == Some(candidate.x)
            &&& after.row.y == draft.row.y && after.gaps == draft.gaps
            &&& !whole ==> after.row.text == draft.row.text && after.row.fragments
                == draft.row.fragments && after.row.left_x == draft.row.left_x
            &&& whole ==> after.row.fragments == draft.row.fragments.remove(i)
            &&& whole && body.len() > 0 ==> after.row.text == digits + " "@ + body
            &&& whole && body.len() == 0 ==> after.row.text == digits
            &&& whole && after.row.fragments.len() > 0 ==> after.row.left_x == Some(
                after.row.fragments[0].x,
            )
            &&& whole && after.row.fragments.len() == 0 ==> after.row.left_x is None
        }),
{
}

/// Each candidate of a column numbers its own row, and no other row changes with it.
pub proof fn law_columns_number_their_rows(
    rows: Seq<RowDraftView>,
    column: Seq<Candidate>,
    n: int,
)
    requires
        0 <= n < column.len(),
    ensures
        ({
            let before = with_column(rows, column, n);
            let after = with_column(rows, column, n + 1);
            let r = column[n].row as int;
            &&& with_column(rows, column, 0) == rows
            &&& after.len() == before.len()
            &&& r < before.len() ==> after[r] == renumbered(before[r], column[n])
            &&& forall|i: int|
                0 <= i < before.len() && i != r ==> (#[trigger] after[i]) == before[i]
        }),
{
}

/// Masked fragments are counted over all rows, up to the largest number.
pub proof fn law_masked_fragments_are_counted(
    rows: Seq<RowDraftView>,
    start: usize,
    fragments: Seq<PositionedTextFragmentView>,
    n: int,
)
    requires
        0 <= n,
    ensures
        masked_in_row(start, fragments, 0) == start,
        masked_in_rows(rows, 0) == 0,
        n < fragments.len() && !fragments[n].redaction_masked ==> masked_in_row(
            start,
            fragments,
            n + 1,
        ) == masked_in_row(start, fragments, n),
        n < fragments.len() && fragments[n].redaction_masked && masked_in_row(start, fragments, n)
            < usize::MAX ==> masked_in_row(start, fragments, n + 1) == masked_in_row(
            start,
            fragments,
            n,
        ) + 1,
        n < rows.len() ==> masked_in_rows(rows, n + 1) == masked_in_row(
            masked_in_rows(rows, n),
            rows[n].row.fragments,
            rows[n].row.fragments.len() as int,
        ),
{
}

/// The rows make the text of a page where they are sure enough or anything in them is masked, and
/// they say anything; else the page keeps its plain text and says why.
pub proof fn law_rows_or_plain_text(
    rows: Seq<RowDraftView>,
    fallback: Seq<char>,
    fragment_count: usize,
    column: Option<Measure>,
    confidence: Measure,
)
    requires
        rows.len() <= usize::MAX,
    ensures
        ({
            let text = joined(row_texts(rows), "\n"@);
            let masks = masked_in_rows(rows, rows.len() as int);
            let used = (confidence >= 0x3fda_e147_a000_0000 || masks > 0) && !blank(text);
            let layout = layout_of(rows, fragment_count, column, confidence);
            &&& used ==> page_text_of(rows, fallback, confidence) == text
            &&& !used ==> page_text_of(rows, fallback, confidence) == fallback
            &&& layout.used_positioned_reconstruction == used
            &&& used ==> layout.fallback_reason is None
            &&& !used ==> layout.fallback_reason is Some
            &&& layout.positioned_text_available
            &&& layout.fragment_count == fragment_count
            &&& layout.visual_row_count == rows.len()
            &&& layout.masked_redaction_fragments == masks
            &&& layout.reconstruction_confidence == confidence
            &&& column is Some ==> layout.likely_line_number_column_x == column
            &&& column is None ==> layout.likely_line_number_column_x == likely_column(rows)
            &&& row_texts(rows).len() == rows.len() && finished_rows(rows).len() == rows.len()
            &&& forall|i: int|
                0 <= i < rows.len() ==> #[trigger] row_texts(rows)[i] == rows[i].row.text
            &&& forall|i: int|
                0 <= i < rows.len() ==> #[trigger] finished_rows(rows)[i] == rows[i].row
        }),
{
}

} // verus!
