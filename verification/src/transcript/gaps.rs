//! Line numbers: the range that pages run through, and what is missing from it.
use vstd::prelude::*;

use crate::document::models::{
    dialogue_section, ExtractedDocument, ExtractedPage, ExtractedPageView, PageSection,
};
use crate::measure::Ratio;
use crate::number::{decimal, decimal_string, parse_u32_option, parsed_u32, sum, total};
use crate::pieces::{lines, lines_of};
use crate::scan::{trim, trimmed};
use crate::text::{clone_option, lemma_filter_first, push_item};
use crate::transcript::format::{
    is_page_header_content, page_header, parse_source_line, source_line,
};
use crate::transcript::models::{
    find_page_label, page_label, GapKind, GapReason, PageContext, PageContextView, TranscriptGap,
    TranscriptGapView,
};
use crate::transcript::profile::TranscriptProfile;

verus! {

// ---------------------------------------------------------------------------
// The line numbers of a page
// ---------------------------------------------------------------------------

/// The line numbers among the first `n` lines of a page, headers left aside.
pub open spec fn page_numbers(
    page: ExtractedPageView,
    label: Option<Seq<char>>,
    max: u16,
    n: int,
) -> Seq<u16>
    decreases n,
{
    if n <= 0 {
        seq![]
    } else {
        let before = page_numbers(page, label, max, n - 1);
        let (number, body) = source_line(page, trimmed(lines_of(page.text)[n - 1]), max);
        match number {
            Some(k) if !page_header(trimmed(body), label, (n - 1) as nat) => before.push(k),
            _ => before,
        }
    }
}

/// All line numbers of a page.
pub open spec fn line_numbers(
    page: ExtractedPageView,
    contexts: Seq<PageContextView>,
    max: u16,
) -> Seq<u16> {
    page_numbers(
        page,
        page_label(contexts, page.physical_page),
        max,
        lines_of(page.text).len() as int,
    )
}

fn collect_numbers(page: &ExtractedPage, contexts: &Vec<PageContext>, max: u16) -> (r: Vec<u16>)
    ensures
        r@ == line_numbers(page.deep_view(), contexts.deep_view(), max),
{
    let label = find_page_label(contexts, page.physical_page);
    let ghost view = page.deep_view();
    let list = lines(page.text.as_str());
    let mut r: Vec<u16> = Vec::new();
    for n in 0..list.len()
        invariant
            view == page.deep_view(),
            list.deep_view() == lines_of(view.text),
            r@ == page_numbers(view, label.deep_view(), max, n as int),
    {
        assert(list.deep_view()[n as int] == list@[n as int]@);
        let (number, body) = parse_source_line(page, trim(list[n].as_str()), max);
        match number {
            Some(k) => {
                if !is_page_header_content(trim(body), &label, n) {
                    r.push(k);
                }
            },
            None => {},
        }
    }
    r
}

/// The smallest, or the largest, of the first `n` numbers.
pub open spec fn extreme(numbers: Seq<u16>, smallest: bool, n: int) -> Option<u16>
    decreases n,
{
    if n <= 0 {
        None
    } else {
        let k = numbers[n - 1];
        match extreme(numbers, smallest, n - 1) {
            Some(best) if (smallest && best <= k) || (!smallest && best >= k) => Some(best),
            _ => Some(k),
        }
    }
}

/// Computes [`extreme`] of all numbers.
pub fn find_extreme(numbers: &Vec<u16>, smallest: bool) -> (r: Option<u16>)
    ensures
        r == extreme(numbers@, smallest, numbers@.len() as int),
{
    let mut best: Option<u16> = None;
    for n in 0..numbers.len()
        invariant
            best == extreme(numbers@, smallest, n as int),
    {
        let k = numbers[n];
        best = match best {
            Some(b) => if (smallest && b <= k) || (!smallest && b >= k) {
                Some(b)
            } else {
                Some(k)
            },
            None => Some(k),
        };
    }
    best
}

// ---------------------------------------------------------------------------
// The typical range
// ---------------------------------------------------------------------------

/// The smallest, or the largest, line number of each dialogue page among the first `n` that
/// has any.
pub open spec fn page_extremes(
    pages: Seq<ExtractedPageView>,
    contexts: Seq<PageContextView>,
    max: u16,
    smallest: bool,
    n: int,
) -> Seq<u16>
    decreases n,
{
    if n <= 0 {
        seq![]
    } else {
        let before = page_extremes(pages, contexts, max, smallest, n - 1);
        let numbers = line_numbers(pages[n - 1], contexts, max);
        match extreme(numbers, smallest, numbers.len() as int) {
            Some(k) if dialogue_section(pages[n - 1].section) => before.push(k),
            _ => before,
        }
    }
}

/// How often a number stands among the first `n`.
pub open spec fn frequency(numbers: Seq<u16>, k: u16, n: int) -> nat
    decreases n,
{
    if n <= 0 {
        0
    } else {
        frequency(numbers, k, n - 1) + if numbers[n - 1] == k {
            1nat
        } else {
            0nat
        }
    }
}

fn count_frequency(numbers: &Vec<u16>, k: u16) -> (r: usize)
    ensures
        r == frequency(numbers@, k, numbers@.len() as int),
{
    let mut r: usize = 0;
    for n in 0..numbers.len()
        invariant
            r <= n,
            r == frequency(numbers@, k, n as int),
    {
        if numbers[n] == k {
            r += 1;
        }
    }
    r
}

/// The most frequent of the first `n` numbers; of several, the smallest or the largest.
pub open spec fn typical(numbers: Seq<u16>, smallest: bool, n: int) -> Option<u16>
    decreases n,
{
    if n <= 0 {
        None
    } else {
        let k = numbers[n - 1];
        match typical(numbers, smallest, n - 1) {
            Some(best) => {
                let a = frequency(numbers, k, numbers.len() as int);
                let b = frequency(numbers, best, numbers.len() as int);
                if a > b || (a == b && ((smallest && k < best) || (!smallest && k > best))) {
                    Some(k)
                } else {
                    Some(best)
                }
            },
            None => Some(k),
        }
    }
}

fn find_typical(numbers: &Vec<u16>, smallest: bool) -> (r: Option<u16>)
    ensures
        r == typical(numbers@, smallest, numbers@.len() as int),
{
    let mut best: Option<u16> = None;
    for n in 0..numbers.len()
        invariant
            best == typical(numbers@, smallest, n as int),
    {
        let k = numbers[n];
        best = match best {
            Some(other) => {
                let a = count_frequency(numbers, k);
                let b = count_frequency(numbers, other);
                if a > b || (a == b && ((smallest && k < other) || (!smallest && k > other))) {
                    Some(k)
                } else {
                    Some(other)
                }
            },
            None => Some(k),
        };
    }
    best
}

/// The first and last line number that a page of the document typically has.
pub open spec fn line_range(
    pages: Seq<ExtractedPageView>,
    contexts: Seq<PageContextView>,
    max: u16,
) -> (Option<u16>, Option<u16>) {
    let lows = page_extremes(pages, contexts, max, true, pages.len() as int);
    let highs = page_extremes(pages, contexts, max, false, pages.len() as int);
    (typical(lows, true, lows.len() as int), typical(highs, false, highs.len() as int))
}

pub fn learn_line_range(
    document: &ExtractedDocument,
    profile: &TranscriptProfile,
    page_contexts: &Vec<PageContext>,
) -> (r: (Option<u16>, Option<u16>))
    ensures
        r == line_range(
            document.deep_view().pages,
            page_contexts.deep_view(),
            profile.deep_view().max_line_number,
        ),
{
    let max = profile.max_line_number;
    let ghost pages = document.deep_view().pages;
    let ghost contexts = page_contexts.deep_view();
    let mut lows: Vec<u16> = Vec::new();
    let mut highs: Vec<u16> = Vec::new();
    for n in 0..document.pages.len()
        invariant
            pages == document.pages.deep_view(),
            contexts == page_contexts.deep_view(),
            lows@ == page_extremes(pages, contexts, max, true, n as int),
            highs@ == page_extremes(pages, contexts, max, false, n as int),
    {
        assert(pages[n as int] == document.pages@[n as int].deep_view());
        if document.pages[n].section.is_dialogue() {
            let numbers = collect_numbers(&document.pages[n], page_contexts, max);
            match find_extreme(&numbers, true) {
                Some(k) => {
                    lows.push(k);
                },
                None => {},
            }
            match find_extreme(&numbers, false) {
                Some(k) => {
                    highs.push(k);
                },
                None => {},
            }
        }
    }
    (find_typical(&lows, true), find_typical(&highs, false))
}

// ---------------------------------------------------------------------------
// Gaps
// ---------------------------------------------------------------------------

/// The dialogue pages among the first `n` whose label is a number: physical page and number.
pub open spec fn numbered_pages(contexts: Seq<PageContextView>, n: int) -> Seq<(u32, u32)>
    decreases n,
{
    if n <= 0 {
        seq![]
    } else {
        let before = numbered_pages(contexts, n - 1);
        let context = contexts[n - 1];
        match context.transcript_page {
            Some(label) if dialogue_section(context.section) && parsed_u32(label) is Some => {
                before.push((context.physical_page, parsed_u32(label)->0))
            },
            _ => before,
        }
    }
}

fn collect_numbered_pages(contexts: &Vec<PageContext>) -> (r: Vec<(u32, u32)>)
    ensures
        r@ == numbered_pages(contexts.deep_view(), contexts.deep_view().len() as int),
{
    let mut r: Vec<(u32, u32)> = Vec::new();
    for n in 0..contexts.len()
        invariant
            r@ == numbered_pages(contexts.deep_view(), n as int),
    {
        assert(contexts.deep_view()[n as int] == contexts@[n as int].deep_view());
        if contexts[n].section.is_dialogue() {
            match parse_u32_option(&contexts[n].transcript_page) {
                Some(number) => {
                    r.push((contexts[n].physical_page, number));
                },
                None => {},
            }
        }
    }
    r
}

/// A gap of transcript pages between two pages that were observed one after the other.
pub open spec fn page_gap(before: (u32, u32), after: (u32, u32)) -> TranscriptGapView {
    TranscriptGapView {
        kind: GapKind::MissingTranscriptPages,
        physical_page: Some(after.0),
        transcript_page: Some(decimal(after.1 as nat)),
        missing_line_start: None,
        missing_line_end: None,
        missing_transcript_page_start: Some((before.1 + 1) as u32),
        missing_transcript_page_end: Some((after.1 - 1) as u32),
        reason: GapReason::UnobservedInExtractedText,
    }
}

/// The gaps between the first `n` numbered pages.
pub open spec fn page_gaps(pages: Seq<(u32, u32)>, n: int) -> Seq<TranscriptGapView>
    decreases n,
{
    if n <= 1 {
        seq![]
    } else {
        let before = page_gaps(pages, n - 1);
        if pages[n - 1].1 > pages[n - 2].1 + 1 {
            before.push(page_gap(pages[n - 2], pages[n - 1]))
        } else {
            before
        }
    }
}

fn find_page_gaps(pages: &Vec<(u32, u32)>) -> (r: Vec<TranscriptGap>)
    ensures
        r.deep_view() == page_gaps(pages@, pages@.len() as int),
{
    let mut gaps: Vec<TranscriptGap> = Vec::new();
    assert(gaps.deep_view() =~= seq![]);
    for n in 0..pages.len()
        invariant
            gaps.deep_view() == page_gaps(pages@, n as int),
    {
        if n > 0 && pages[n].1 as u64 > pages[n - 1].1 as u64 + 1 {
            push_item(
                &mut gaps,
                TranscriptGap {
                    kind: GapKind::MissingTranscriptPages,
                    physical_page: Some(pages[n].0),
                    transcript_page: Some(decimal_string(pages[n].1 as u64)),
                    missing_line_start: None,
                    missing_line_end: None,
                    missing_transcript_page_start: Some(pages[n - 1].1 + 1),
                    missing_transcript_page_end: Some(pages[n].1 - 1),
                    reason: GapReason::UnobservedInExtractedText,
                },
            );
        }
    }
    gaps
}

/// Where the first number from `from` on stands that is not below `k`.
pub open spec fn number_place(list: Seq<u16>, k: u16, from: int) -> int
    decreases list.len() - from,
{
    if 0 <= from < list.len() && list[from] < k {
        number_place(list, k, from + 1)
    } else {
        from
    }
}

/// Numbers, sorted and each once, with one more.
pub open spec fn number_inserted(list: Seq<u16>, k: u16) -> Seq<u16> {
    let i = number_place(list, k, 0);
    if i < list.len() && list[i] == k {
        list
    } else {
        list.insert(i, k)
    }
}

/// The first `n` numbers, sorted and each once.
pub open spec fn sorted_numbers(numbers: Seq<u16>, n: int) -> Seq<u16>
    decreases n,
{
    if n <= 0 {
        seq![]
    } else {
        number_inserted(sorted_numbers(numbers, n - 1), numbers[n - 1])
    }
}

/// Computes [`sorted_numbers`] of all numbers.
pub fn sort_numbers(numbers: &Vec<u16>) -> (r: Vec<u16>)
    ensures
        r@ == sorted_numbers(numbers@, numbers@.len() as int),
{
    let mut r: Vec<u16> = Vec::new();
    for n in 0..numbers.len()
        invariant
            r@ == sorted_numbers(numbers@, n as int),
    {
        let k = numbers[n];
        let mut i: usize = 0;
        while i < r.len() && r[i] < k
            invariant
                i <= r@.len(),
                number_place(r@, k, i as int) == number_place(r@, k, 0),
            decreases r@.len() - i,
        {
            i += 1;
        }
        if !(i < r.len() && r[i] == k) {
            r.insert(i, k);
        }
    }
    r
}

/// Whether numbers are sorted, each once.
pub open spec fn increasing(list: Seq<u16>) -> bool {
    forall|i: int, j: int| 0 <= i < j < list.len() ==> #[trigger] list[i] < #[trigger] list[j]
}

proof fn lemma_number_place(list: Seq<u16>, k: u16, from: int)
    requires
        0 <= from <= list.len(),
    ensures
        from <= number_place(list, k, from) <= list.len(),
        forall|i: int| from <= i < number_place(list, k, from) ==> #[trigger] list[i] < k,
        number_place(list, k, from) < list.len() ==> list[number_place(list, k, from)] >= k,
    decreases list.len() - from,
{
    if from < list.len() && list[from] < k {
        lemma_number_place(list, k, from + 1);
    }
}

/// Sorting leaves every number once, in order.
pub proof fn law_sorted_numbers(numbers: Seq<u16>, n: int)
    requires
        0 <= n <= numbers.len(),
    ensures
        increasing(sorted_numbers(numbers, n)),
        forall|k: u16|
            sorted_numbers(numbers, n).contains(k) <==> #[trigger] numbers.take(n).contains(k),
    decreases n,
{
    if n > 0 {
        law_sorted_numbers(numbers, n - 1);
        let before = sorted_numbers(numbers, n - 1);
        let after = sorted_numbers(numbers, n);
        let x = numbers[n - 1];
        lemma_number_place(before, x, 0);
        let at = number_place(before, x, 0);
        let old_numbers = numbers.take(n - 1);
        let new_numbers = numbers.take(n);
        assert(new_numbers =~= old_numbers.push(x));
        assert forall|i: int, j: int| 0 <= i < j < after.len() implies #[trigger] after[i]
            < #[trigger] after[j] by {
            if after.len() > before.len() {
                let a = if i < at {
                    before[i]
                } else if i == at {
                    x
                } else {
                    before[i - 1]
                };
                let b = if j < at {
                    before[j]
                } else if j == at {
                    x
                } else {
                    before[j - 1]
                };
                assert(after[i] == a && after[j] == b);
                if i == at && j - 1 > at {
                    assert(before[at] < before[j - 1]);
                }
            }
        }
        assert forall|k: u16| after.contains(k) <==> #[trigger] new_numbers.contains(k) by {
            assert(before.contains(k) <==> old_numbers.contains(k));
            if after.contains(k) {
                let i = choose|i: int| 0 <= i < after.len() && after[i] == k;
                if after.len() == before.len() {
                    assert(before[i] == k);
                } else if i < at {
                    assert(before[i] == k);
                } else if i > at {
                    assert(before[i - 1] == k);
                }
                if before.contains(k) {
                    let m = choose|m: int| 0 <= m < old_numbers.len() && old_numbers[m] == k;
                    assert(new_numbers[m] == k);
                } else {
                    assert(new_numbers[n - 1] == k);
                }
            }
            if new_numbers.contains(k) {
                let m = choose|m: int| 0 <= m < new_numbers.len() && new_numbers[m] == k;
                if m < n - 1 {
                    assert(old_numbers[m] == k);
                    let i = choose|i: int| 0 <= i < before.len() && before[i] == k;
                    if after.len() == before.len() || i < at {
                        assert(after[i] == k);
                    } else {
                        assert(after[i + 1] == k);
                    }
                } else {
                    assert(after[at] == k);
                }
            }
        }
    } else {
        assert(numbers.take(0) =~= sorted_numbers(numbers, 0));
    }
}

/// A gap of lines on a page between two numbers that were observed.
pub open spec fn line_gap(page: u32, label: Option<Seq<char>>, before: u16, after: u16) ->
    TranscriptGapView {
    TranscriptGapView {
        kind: GapKind::MissingLines,
        physical_page: Some(page),
        transcript_page: label,
        missing_line_start: Some((before + 1) as u16),
        missing_line_end: Some((after - 1) as u16),
        missing_transcript_page_start: None,
        missing_transcript_page_end: None,
        reason: GapReason::UnobservedInExtractedText,
    }
}

/// Gaps with those between the first `n` line numbers of a page.
pub open spec fn with_line_gaps(
    gaps: Seq<TranscriptGapView>,
    page: u32,
    label: Option<Seq<char>>,
    numbers: Seq<u16>,
    n: int,
) -> Seq<TranscriptGapView>
    decreases n,
{
    if n <= 1 {
        gaps
    } else {
        let before = with_line_gaps(gaps, page, label, numbers, n - 1);
        if numbers[n - 1] > numbers[n - 2] + 1 {
            before.push(line_gap(page, label, numbers[n - 2], numbers[n - 1]))
        } else {
            before
        }
    }
}

proof fn lemma_gaps_between(
    page: u32,
    label: Option<Seq<char>>,
    numbers: Seq<u16>,
    n: int,
    i: int,
    k: u16,
)
    requires
        0 <= n <= numbers.len(),
        increasing(numbers),
        numbers.contains(k),
        0 <= i < with_line_gaps(seq![], page, label, numbers, n).len(),
    ensures
        ({
            let gap = with_line_gaps(seq![], page, label, numbers, n)[i];
            &&& gap.missing_line_start is Some
            &&& gap.missing_line_end is Some
            &&& gap.missing_line_start->0 <= gap.missing_line_end->0
            &&& !(gap.missing_line_start->0 <= k <= gap.missing_line_end->0)
        }),
    decreases n,
{
    if n > 1 {
        let before = with_line_gaps(seq![], page, label, numbers, n - 1);
        if i < before.len() {
            lemma_gaps_between(page, label, numbers, n - 1, i, k);
        } else {
            let at = choose|at: int| 0 <= at < numbers.len() && numbers[at] == k;
            if at < n - 2 {
                assert(numbers[at] < numbers[n - 2]);
            } else if at > n - 1 {
                assert(numbers[n - 1] < numbers[at]);
            }
        }
    }
}

/// No line of a page that was observed, be it blank, is reported as missing from it.
pub proof fn law_observed_lines_are_not_missing(
    page: u32,
    label: Option<Seq<char>>,
    observed: Seq<u16>,
    i: int,
    k: u16,
)
    requires
        observed.contains(k),
        ({
            let numbers = sorted_numbers(observed, observed.len() as int);
            0 <= i < with_line_gaps(seq![], page, label, numbers, numbers.len() as int).len()
        }),
    ensures
        ({
            let numbers = sorted_numbers(observed, observed.len() as int);
            let gap = with_line_gaps(seq![], page, label, numbers, numbers.len() as int)[i];
            &&& gap.missing_line_start is Some
            &&& gap.missing_line_end is Some
            &&& gap.missing_line_start->0 <= gap.missing_line_end->0
            &&& !(gap.missing_line_start->0 <= k <= gap.missing_line_end->0)
        }),
{
    let numbers = sorted_numbers(observed, observed.len() as int);
    law_sorted_numbers(observed, observed.len() as int);
    assert(observed.take(observed.len() as int) =~= observed);
    assert(observed.take(observed.len() as int).contains(k));
    lemma_gaps_between(page, label, numbers, numbers.len() as int, i, k);
}

fn add_line_gaps(
    gaps: &mut Vec<TranscriptGap>,
    page: u32,
    label: &Option<String>,
    numbers: &Vec<u16>,
)
    ensures
        final(gaps).deep_view() == with_line_gaps(
            old(gaps).deep_view(),
            page,
            label.deep_view(),
            numbers@,
            numbers@.len() as int,
        ),
{
    let ghost before = gaps.deep_view();
    for n in 0..numbers.len()
        invariant
            gaps.deep_view() == with_line_gaps(before, page, label.deep_view(), numbers@, n as int),
    {
        if n > 0 && numbers[n] as u32 > numbers[n - 1] as u32 + 1 {
            push_item(
                gaps,
                TranscriptGap {
                    kind: GapKind::MissingLines,
                    physical_page: Some(page),
                    transcript_page: clone_option(label),
                    missing_line_start: Some(numbers[n - 1] + 1),
                    missing_line_end: Some(numbers[n] - 1),
                    missing_transcript_page_start: None,
                    missing_transcript_page_end: None,
                    reason: GapReason::UnobservedInExtractedText,
                },
            );
        }
    }
}

/// Gaps with those on the first `n` pages.
pub open spec fn with_page_line_gaps(
    gaps: Seq<TranscriptGapView>,
    pages: Seq<ExtractedPageView>,
    contexts: Seq<PageContextView>,
    max: u16,
    n: int,
) -> Seq<TranscriptGapView>
    decreases n,
{
    if n <= 0 {
        gaps
    } else {
        let before = with_page_line_gaps(gaps, pages, contexts, max, n - 1);
        let page = pages[n - 1];
        let raw = line_numbers(page, contexts, max);
        let numbers = sorted_numbers(raw, raw.len() as int);
        if dialogue_section(page.section) {
            with_line_gaps(
                before,
                page.physical_page,
                page_label(contexts, page.physical_page),
                numbers,
                numbers.len() as int,
            )
        } else {
            before
        }
    }
}

/// What was not observed of a document: transcript pages between its pages, and lines
/// between the lines of each page.
pub open spec fn gaps_of(
    pages: Seq<ExtractedPageView>,
    contexts: Seq<PageContextView>,
    max: u16,
) -> Seq<TranscriptGapView> {
    let numbered = numbered_pages(contexts, contexts.len() as int);
    with_page_line_gaps(
        page_gaps(numbered, numbered.len() as int),
        pages,
        contexts,
        max,
        pages.len() as int,
    )
}

pub fn detect_gaps(
    document: &ExtractedDocument,
    profile: &TranscriptProfile,
    page_contexts: &Vec<PageContext>,
) -> (r: Vec<TranscriptGap>)
    ensures
        r.deep_view() == gaps_of(
            document.deep_view().pages,
            page_contexts.deep_view(),
            profile.deep_view().max_line_number,
        ),
{
    let max = profile.max_line_number;
    let ghost pages = document.deep_view().pages;
    let ghost contexts = page_contexts.deep_view();
    let mut gaps = find_page_gaps(&collect_numbered_pages(page_contexts));
    let ghost between = gaps.deep_view();
    for n in 0..document.pages.len()
        invariant
            pages == document.pages.deep_view(),
            contexts == page_contexts.deep_view(),
            gaps.deep_view() == with_page_line_gaps(between, pages, contexts, max, n as int),
    {
        let page = &document.pages[n];
        assert(pages[n as int] == page.deep_view());
        if page.section.is_dialogue() {
            let label = find_page_label(page_contexts, page.physical_page);
            let numbers = sort_numbers(&collect_numbers(page, page_contexts, max));
            add_line_gaps(&mut gaps, page.physical_page, &label, &numbers);
        }
    }
    gaps
}

// ---------------------------------------------------------------------------
// Completeness
// ---------------------------------------------------------------------------

/// The smallest, or the largest, page number of the first `n`.
pub open spec fn extreme_page(pages: Seq<(u32, u32)>, smallest: bool, n: int) -> Option<u32>
    decreases n,
{
    if n <= 0 {
        None
    } else {
        let k = pages[n - 1].1;
        match extreme_page(pages, smallest, n - 1) {
            Some(best) if (smallest && best <= k) || (!smallest && best >= k) => Some(best),
            _ => Some(k),
        }
    }
}

fn find_extreme_page(pages: &Vec<(u32, u32)>, smallest: bool) -> (r: Option<u32>)
    ensures
        r == extreme_page(pages@, smallest, pages@.len() as int),
{
    let mut best: Option<u32> = None;
    for n in 0..pages.len()
        invariant
            best == extreme_page(pages@, smallest, n as int),
    {
        let k = pages[n].1;
        best = match best {
            Some(b) => if (smallest && b <= k) || (!smallest && b >= k) {
                Some(b)
            } else {
                Some(k)
            },
            None => Some(k),
        };
    }
    best
}

proof fn lemma_extreme_pages(pages: Seq<(u32, u32)>, n: int)
    requires
        0 <= n <= pages.len(),
    ensures
        match (extreme_page(pages, true, n), extreme_page(pages, false, n)) {
            (Some(low), Some(high)) => n > 0 && low <= high,
            (None, None) => n == 0,
            _ => false,
        },
    decreases n,
{
    if n > 0 {
        lemma_extreme_pages(pages, n - 1);
    }
}

/// How many different line numbers the first `n` pages have, page by page.
pub open spec fn observed_lines(
    pages: Seq<ExtractedPageView>,
    contexts: Seq<PageContextView>,
    max: u16,
    n: int,
) -> usize
    decreases n,
{
    if n <= 0 {
        0
    } else {
        let before = observed_lines(pages, contexts, max, n - 1);
        let raw = line_numbers(pages[n - 1], contexts, max);
        if dialogue_section(pages[n - 1].section) {
            total(before, sorted_numbers(raw, raw.len() as int).len() as usize)
        } else {
            before
        }
    }
}

/// How many lines a document would have if every page from the first to the last had all of
/// its typical lines.
pub open spec fn expected_lines(
    line_min: Option<u16>,
    line_max: Option<u16>,
    page_min: Option<u32>,
    page_max: Option<u32>,
) -> Option<usize> {
    match (line_min, line_max, page_min, page_max) {
        (Some(a), Some(b), Some(p), Some(q)) => if b < a {
            None
        } else {
            let all = (q - p + 1) * (b - a + 1);
            Some(
                if all <= usize::MAX {
                    all as usize
                } else {
                    usize::MAX
                },
            )
        },
        _ => None,
    }
}

fn count_expected_lines(
    line_min: Option<u16>,
    line_max: Option<u16>,
    page_min: Option<u32>,
    page_max: Option<u32>,
) -> (r: Option<usize>)
    requires
        page_min matches Some(p) ==> page_max matches Some(q) && p <= q,
    ensures
        r == expected_lines(line_min, line_max, page_min, page_max),
{
    match (line_min, line_max, page_min, page_max) {
        (Some(a), Some(b), Some(p), Some(q)) => {
            if b < a {
                return None;
            }
            let page_count: u128 = (q - p) as u128 + 1;
            let line_count: u128 = (b - a) as u128 + 1;
            assert(page_count * line_count <= 0x1_0000_0000 * 0x1_0000) by (nonlinear_arith)
                requires
                    page_count <= 0x1_0000_0000,
                    line_count <= 0x1_0000,
            ;
            let all: u128 = page_count * line_count;
            if all <= usize::MAX as u128 {
                Some(all as usize)
            } else {
                Some(usize::MAX)
            }
        },
        _ => None,
    }
}

/// How much of a document was observed. Where nothing tells how much there should be, half.
pub open spec fn completeness(
    pages: Seq<ExtractedPageView>,
    contexts: Seq<PageContextView>,
    max: u16,
    line_min: Option<u16>,
    line_max: Option<u16>,
) -> Ratio {
    let numbered = numbered_pages(contexts, contexts.len() as int);
    let expected = expected_lines(
        line_min,
        line_max,
        extreme_page(numbered, true, numbered.len() as int),
        extreme_page(numbered, false, numbered.len() as int),
    );
    let seen = observed_lines(pages, contexts, max, pages.len() as int);
    match expected {
        Some(all) => Ratio {
            part: if seen < all {
                seen
            } else {
                all
            },
            whole: all,
        },
        None => Ratio { part: 1, whole: 2 },
    }
}

pub fn calculate_source_completeness(
    document: &ExtractedDocument,
    profile: &TranscriptProfile,
    page_contexts: &Vec<PageContext>,
    typical_min: Option<u16>,
    typical_max: Option<u16>,
) -> (r: Ratio)
    ensures
        r == completeness(
            document.deep_view().pages,
            page_contexts.deep_view(),
            profile.deep_view().max_line_number,
            typical_min,
            typical_max,
        ),
{
    let max = profile.max_line_number;
    let ghost pages = document.deep_view().pages;
    let ghost contexts = page_contexts.deep_view();
    let numbered = collect_numbered_pages(page_contexts);
    proof {
        lemma_extreme_pages(numbered@, numbered@.len() as int);
    }
    let expected = count_expected_lines(
        typical_min,
        typical_max,
        find_extreme_page(&numbered, true),
        find_extreme_page(&numbered, false),
    );
    let all = match expected {
        Some(all) => all,
        None => {
            return Ratio { part: 1, whole: 2 };
        },
    };
    let mut seen: usize = 0;
    for n in 0..document.pages.len()
        invariant
            pages == document.pages.deep_view(),
            contexts == page_contexts.deep_view(),
            seen == observed_lines(pages, contexts, max, n as int),
    {
        assert(pages[n as int] == document.pages@[n as int].deep_view());
        if document.pages[n].section.is_dialogue() {
            let numbers = sort_numbers(&collect_numbers(&document.pages[n], page_contexts, max));
            seen = sum(seen, numbers.len());
        }
    }
    Ratio {
        part: if seen < all {
            seen
        } else {
            all
        },
        whole: all,
    }
}

// ---------------------------------------------------------------------------
// Every gap is reported
// ---------------------------------------------------------------------------

proof fn lemma_extreme(numbers: Seq<u16>, smallest: bool, n: int)
    requires
        0 <= n <= numbers.len(),
    ensures
        n == 0 <==> extreme(numbers, smallest, n) is None,
        extreme(numbers, smallest, n) matches Some(best) ==> (exists|i: int|
            0 <= i < n && #[trigger] numbers[i] == best) && forall|i: int|
            0 <= i < n ==> if smallest {
                best <= #[trigger] numbers[i]
            } else {
                best >= numbers[i]
            },
    decreases n,
{
    if n > 0 {
        lemma_extreme(numbers, smallest, n - 1);
        assert(numbers[n - 1] == numbers[n - 1]);
    }
}

/// The smallest of some numbers is one of them and above none, and the largest below none.
pub proof fn law_extremes_bound_all(numbers: Seq<u16>, i: int)
    requires
        0 <= i < numbers.len(),
    ensures
        extreme(numbers, true, numbers.len() as int) is Some,
        extreme(numbers, false, numbers.len() as int) is Some,
        extreme(numbers, true, numbers.len() as int)->0 <= numbers[i],
        extreme(numbers, false, numbers.len() as int)->0 >= numbers[i],
        numbers.contains(extreme(numbers, true, numbers.len() as int)->0),
        numbers.contains(extreme(numbers, false, numbers.len() as int)->0),
{
    lemma_extreme(numbers, true, numbers.len() as int);
    lemma_extreme(numbers, false, numbers.len() as int);
}

proof fn lemma_typical(numbers: Seq<u16>, smallest: bool, n: int)
    requires
        0 <= n <= numbers.len(),
    ensures
        n == 0 <==> typical(numbers, smallest, n) is None,
        typical(numbers, smallest, n) matches Some(best) ==> (exists|i: int|
            0 <= i < n && #[trigger] numbers[i] == best) && forall|i: int|
            0 <= i < n ==> {
                let a = frequency(numbers, #[trigger] numbers[i], numbers.len() as int);
                let b = frequency(numbers, best, numbers.len() as int);
                b > a || (b == a && if smallest {
                    best <= numbers[i]
                } else {
                    best >= numbers[i]
                })
            },
    decreases n,
{
    if n > 0 {
        lemma_typical(numbers, smallest, n - 1);
        assert(numbers[n - 1] == numbers[n - 1]);
    }
}

/// The typical number is one of the numbers, no other is more frequent, and of several that are
/// as frequent it is the smallest or the largest.
pub proof fn law_typical_is_most_frequent(numbers: Seq<u16>, smallest: bool, i: int)
    requires
        0 <= i < numbers.len(),
    ensures
        ({
            let count = numbers.len() as int;
            let best = typical(numbers, smallest, count)->0;
            &&& typical(numbers, smallest, count) is Some
            &&& numbers.contains(best)
            &&& frequency(numbers, best, count) >= frequency(numbers, numbers[i], count)
            &&& frequency(numbers, best, count) == frequency(numbers, numbers[i], count)
                ==> if smallest {
                best <= numbers[i]
            } else {
                best >= numbers[i]
            }
        }),
{
    lemma_typical(numbers, smallest, numbers.len() as int);
}

proof fn lemma_line_gaps_stay(
    gaps: Seq<TranscriptGapView>,
    page: u32,
    label: Option<Seq<char>>,
    numbers: Seq<u16>,
    n: int,
    i: int,
)
    requires
        0 <= n <= numbers.len(),
        0 <= i < gaps.len(),
    ensures
        i < with_line_gaps(gaps, page, label, numbers, n).len(),
        with_line_gaps(gaps, page, label, numbers, n)[i] == gaps[i],
    decreases n,
{
    if n > 1 {
        lemma_line_gaps_stay(gaps, page, label, numbers, n - 1, i);
    }
}

proof fn lemma_line_gap_is_listed(
    gaps: Seq<TranscriptGapView>,
    page: u32,
    label: Option<Seq<char>>,
    numbers: Seq<u16>,
    n: int,
    k: int,
)
    requires
        0 < k < n <= numbers.len(),
        numbers[k] > numbers[k - 1] + 1,
    ensures
        with_line_gaps(gaps, page, label, numbers, n).contains(
            line_gap(page, label, numbers[k - 1], numbers[k]),
        ),
    decreases n,
{
    let all = with_line_gaps(gaps, page, label, numbers, n);
    let gap = line_gap(page, label, numbers[k - 1], numbers[k]);
    if k == n - 1 {
        assert(all[all.len() - 1] == gap);
    } else {
        lemma_line_gap_is_listed(gaps, page, label, numbers, n - 1, k);
        let before = with_line_gaps(gaps, page, label, numbers, n - 1);
        let i = choose|i: int| 0 <= i < before.len() && before[i] == gap;
        assert(all[i] == gap);
    }
}

proof fn lemma_gaps_stay(
    gaps: Seq<TranscriptGapView>,
    pages: Seq<ExtractedPageView>,
    contexts: Seq<PageContextView>,
    max: u16,
    n: int,
    m: int,
    gap: TranscriptGapView,
)
    requires
        0 <= n <= m <= pages.len(),
        with_page_line_gaps(gaps, pages, contexts, max, n).contains(gap),
    ensures
        with_page_line_gaps(gaps, pages, contexts, max, m).contains(gap),
    decreases m - n,
{
    if n < m {
        lemma_gaps_stay(gaps, pages, contexts, max, n, m - 1, gap);
        let before = with_page_line_gaps(gaps, pages, contexts, max, m - 1);
        let after = with_page_line_gaps(gaps, pages, contexts, max, m);
        let i = choose|i: int| 0 <= i < before.len() && before[i] == gap;
        let page = pages[m - 1];
        let raw = line_numbers(page, contexts, max);
        let numbers = sorted_numbers(raw, raw.len() as int);
        if dialogue_section(page.section) {
            lemma_line_gaps_stay(
                before,
                page.physical_page,
                page_label(contexts, page.physical_page),
                numbers,
                numbers.len() as int,
                i,
            );
        }
        assert(after[i] == gap);
    }
}

/// Where two lines of a page of testimony were observed, and none of those between them, the lines
/// between them are reported as missing, from the first to the last.
pub proof fn law_missing_lines_are_reported(
    pages: Seq<ExtractedPageView>,
    contexts: Seq<PageContextView>,
    max: u16,
    p: int,
    a: u16,
    b: u16,
)
    requires
        0 <= p < pages.len(),
        pages[p].section == PageSection::Transcript,
        line_numbers(pages[p], contexts, max).contains(a),
        line_numbers(pages[p], contexts, max).contains(b),
        a + 1 < b,
        forall|k: u16|
            a < k < b ==> !(#[trigger] line_numbers(pages[p], contexts, max).contains(k)),
    ensures
        gaps_of(pages, contexts, max).contains(
            TranscriptGapView {
                kind: GapKind::MissingLines,
                physical_page: Some(pages[p].physical_page),
                transcript_page: page_label(contexts, pages[p].physical_page),
                missing_line_start: Some((a + 1) as u16),
                missing_line_end: Some((b - 1) as u16),
                missing_transcript_page_start: None,
                missing_transcript_page_end: None,
                reason: GapReason::UnobservedInExtractedText,
            },
        ),
{
    let page = pages[p];
    let raw = line_numbers(page, contexts, max);
    let numbers = sorted_numbers(raw, raw.len() as int);
    let label = page_label(contexts, page.physical_page);
    law_sorted_numbers(raw, raw.len() as int);
    assert(raw.take(raw.len() as int) =~= raw);
    assert(numbers.contains(a));
    assert(numbers.contains(b));
    let i = choose|i: int| 0 <= i < numbers.len() && numbers[i] == a;
    let j = choose|j: int| 0 <= j < numbers.len() && numbers[j] == b;
    assert(i < j) by {
        if j < i {
            assert(numbers[j] < numbers[i]);
        }
    }
    assert(j == i + 1) by {
        if i + 1 < j {
            assert(numbers[i] < numbers[i + 1]);
            assert(numbers[i + 1] < numbers[j]);
            assert(numbers.contains(numbers[i + 1]));
            assert(raw.contains(numbers[i + 1]));
        }
    }
    let numbered = numbered_pages(contexts, contexts.len() as int);
    let first = page_gaps(numbered, numbered.len() as int);
    let before = with_page_line_gaps(first, pages, contexts, max, p);
    lemma_line_gap_is_listed(before, page.physical_page, label, numbers, numbers.len() as int, j);
    lemma_gaps_stay(
        first,
        pages,
        contexts,
        max,
        p + 1,
        pages.len() as int,
        line_gap(page.physical_page, label, a, b),
    );
}

proof fn lemma_page_gap_is_listed(pages: Seq<(u32, u32)>, n: int, k: int)
    requires
        0 < k < n <= pages.len(),
        pages[k].1 > pages[k - 1].1 + 1,
    ensures
        page_gaps(pages, n).contains(page_gap(pages[k - 1], pages[k])),
    decreases n,
{
    let all = page_gaps(pages, n);
    let gap = page_gap(pages[k - 1], pages[k]);
    if k == n - 1 {
        assert(all[all.len() - 1] == gap);
    } else {
        lemma_page_gap_is_listed(pages, n - 1, k);
        let before = page_gaps(pages, n - 1);
        let i = choose|i: int| 0 <= i < before.len() && before[i] == gap;
        assert(all[i] == gap);
    }
}

/// Where the numbers of two transcript pages that were observed one after the other do not follow
/// each other, the pages between them are reported as missing, from the first to the last.
pub proof fn law_missing_pages_are_reported(
    pages: Seq<ExtractedPageView>,
    contexts: Seq<PageContextView>,
    max: u16,
    k: int,
)
    requires
        0 < k < numbered_pages(contexts, contexts.len() as int).len(),
        numbered_pages(contexts, contexts.len() as int)[k].1 > numbered_pages(
            contexts,
            contexts.len() as int,
        )[k - 1].1 + 1,
    ensures
        ({
            let numbered = numbered_pages(contexts, contexts.len() as int);
            gaps_of(pages, contexts, max).contains(
                TranscriptGapView {
                    kind: GapKind::MissingTranscriptPages,
                    physical_page: Some(numbered[k].0),
                    transcript_page: Some(decimal(numbered[k].1 as nat)),
                    missing_line_start: None,
                    missing_line_end: None,
                    missing_transcript_page_start: Some((numbered[k - 1].1 + 1) as u32),
                    missing_transcript_page_end: Some((numbered[k].1 - 1) as u32),
                    reason: GapReason::UnobservedInExtractedText,
                },
            )
        }),
{
    let numbered = numbered_pages(contexts, contexts.len() as int);
    let first = page_gaps(numbered, numbered.len() as int);
    lemma_page_gap_is_listed(numbered, numbered.len() as int, k);
    lemma_gaps_stay(
        first,
        pages,
        contexts,
        max,
        0,
        pages.len() as int,
        page_gap(numbered[k - 1], numbered[k]),
    );
}

/// A page of testimony whose label is a number is numbered so, in the order of the pages.
pub proof fn law_numbered_pages_follow_their_labels(contexts: Seq<PageContextView>, n: int)
    requires
        0 <= n < contexts.len(),
    ensures
        ({
            let before = numbered_pages(contexts, n);
            let after = numbered_pages(contexts, n + 1);
            let label = contexts[n].transcript_page;
            let numbered = contexts[n].section == PageSection::Transcript && label is Some
                && parsed_u32(label->0) is Some;
            &&& numbered ==> after == before.push(
                (contexts[n].physical_page, parsed_u32(label->0)->0),
            )
            &&& !numbered ==> after == before
            &&& numbered_pages(contexts, 0).len() == 0
        }),
{
}

/// The line numbers of a page are those that its lines have, in their order, but for lines that
/// repeat the label of the page.
pub proof fn law_line_numbers_are_those_of_the_lines(
    page: ExtractedPageView,
    label: Option<Seq<char>>,
    max: u16,
    n: int,
)
    requires
        0 <= n < lines_of(page.text).len(),
    ensures
        ({
            let before = page_numbers(page, label, max, n);
            let after = page_numbers(page, label, max, n + 1);
            let (number, body) = source_line(page, trimmed(lines_of(page.text)[n]), max);
            let header = page_header(trimmed(body), label, n as nat);
            &&& number is Some && !header ==> after == before.push(number->0)
            &&& number is None || header ==> after == before
            &&& page_numbers(page, label, max, 0).len() == 0
        }),
{
}

/// What a document would hold if nothing were missing: for each page from the first to the last,
/// all lines from the first to the last. How much of it was observed is never more than that, and
/// half where nothing tells how much there should be.
pub proof fn law_completeness_is_a_share(
    pages: Seq<ExtractedPageView>,
    contexts: Seq<PageContextView>,
    max: u16,
    line_min: Option<u16>,
    line_max: Option<u16>,
    page_min: u32,
    page_max: u32,
)
    requires
        page_min <= page_max,
    ensures
        ({
            let share = completeness(pages, contexts, max, line_min, line_max);
            let seen = observed_lines(pages, contexts, max, pages.len() as int);
            &&& share.part <= share.whole
            &&& line_min is None || line_max is None ==> share.part * 2 == share.whole
            &&& line_min is Some && line_max is Some && line_min->0 <= line_max->0 && (page_max
                - page_min + 1) * (line_max->0 - line_min->0 + 1) <= usize::MAX ==> expected_lines(
                line_min,
                line_max,
                Some(page_min),
                Some(page_max),
            ) == Some(((page_max - page_min + 1) * (line_max->0 - line_min->0 + 1)) as usize)
            &&& share.part < share.whole && line_min is Some && line_max is Some && share != (Ratio {
                part: 1,
                whole: 2,
            }) ==> share.part == seen
        }),
{
}

proof fn lemma_frequency_counts(numbers: Seq<u16>, k: u16, n: int)
    requires
        0 <= n <= numbers.len(),
    ensures
        frequency(numbers, k, n) == numbers.take(n).filter(|other: u16| other == k).len(),
    decreases n,
{
    lemma_filter_first(numbers, |other: u16| other == k, n);
    if n > 0 {
        lemma_frequency_counts(numbers, k, n - 1);
    }
}

/// A number is as frequent as it stands in the list.
pub proof fn law_frequencies_are_counted(numbers: Seq<u16>, k: u16)
    ensures
        frequency(numbers, k, numbers.len() as int) == numbers.filter(
            |other: u16| other == k,
        ).len(),
{
    lemma_frequency_counts(numbers, k, numbers.len() as int);
    assert(numbers.take(numbers.len() as int) =~= numbers);
}

/// A page adds a gap only where its number is not the next one after the page before it, and the
/// gap is what lies between the two. One page alone leaves none.
pub proof fn law_page_gaps_lie_between(pages: Seq<(u32, u32)>, n: int)
    requires
        0 < n < pages.len(),
    ensures
        ({
            let before = page_gaps(pages, n);
            let after = page_gaps(pages, n + 1);
            let skips = pages[n].1 > pages[n - 1].1 + 1;
            &&& page_gaps(pages, 0).len() == 0 && page_gaps(pages, 1).len() == 0
            &&& !skips ==> after == before
            &&& skips ==> after.len() == before.len() + 1 && after.drop_last() == before
                && after.last().kind == GapKind::MissingTranscriptPages
                && after.last().physical_page == Some(pages[n].0)
                && after.last().missing_transcript_page_start == Some((pages[n - 1].1 + 1) as u32)
                && after.last().missing_transcript_page_end == Some((pages[n].1 - 1) as u32)
        }),
{
    if pages[n].1 > pages[n - 1].1 + 1 {
        assert(page_gaps(pages, n + 1).drop_last() =~= page_gaps(pages, n));
    }
}

/// A line adds a gap only where its number is not the next one after the line before it.
pub proof fn law_line_gaps_lie_between(
    gaps: Seq<TranscriptGapView>,
    page: u32,
    label: Option<Seq<char>>,
    numbers: Seq<u16>,
    n: int,
)
    requires
        0 < n < numbers.len(),
    ensures
        ({
            let before = with_line_gaps(gaps, page, label, numbers, n);
            let after = with_line_gaps(gaps, page, label, numbers, n + 1);
            let skips = numbers[n] > numbers[n - 1] + 1;
            &&& with_line_gaps(gaps, page, label, numbers, 0) == gaps
            &&& with_line_gaps(gaps, page, label, numbers, 1) == gaps
            &&& !skips ==> after == before
            &&& skips ==> after.len() == before.len() + 1 && after.drop_last() == before
                && after.last().kind == GapKind::MissingLines && after.last().physical_page == Some(
                page,
            ) && after.last().transcript_page == label && after.last().missing_line_start == Some(
                (numbers[n - 1] + 1) as u16,
            ) && after.last().missing_line_end == Some((numbers[n] - 1) as u16)
        }),
{
    if numbers[n] > numbers[n - 1] + 1 {
        assert(with_line_gaps(gaps, page, label, numbers, n + 1).drop_last() =~= with_line_gaps(
            gaps,
            page,
            label,
            numbers,
            n,
        ));
    }
}

} // verus!
