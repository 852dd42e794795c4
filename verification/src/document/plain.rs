//! Plain text: its pages, and its lines where line numbers stand apart.
use vstd::prelude::*;

use crate::document::layout::numbers_a_line;
use crate::document::models::{
    no_layout, ExtractedPage, ExtractedPageView, PageLayoutDiagnostics, PageLayoutDiagnosticsView,
    PageSection, VisualRow, VisualRowView,
};
use crate::measure::{measure_of_count, negate, opposite, whole_measure, MEASURE_1};
use crate::number::{
    decimal, decimal_string, lemma_decimal_is_digits, lemma_decimal_parsed, lemma_decimal_value,
    parse_u16, parse_u32, parsed_u16, parsed_u32,
};
use crate::pieces::{
    fields, fields_of, first_word, join, joined, law_fields_rejoin, lemma_joined_end_to_end, lines,
    lines_of, words,
};
use crate::scan::{
    after_prefix, any_char, any_within, find_run_end, lemma_run_end_is, run_end, start_trimmed,
    strip_prefix, to_upper, trim, trim_start, trimmed, uppercased,
};
use crate::text::{chars_of, is_space, lemma_filter_first, push_item, within, CharClass};

verus! {

// ---------------------------------------------------------------------------
// Line numbers
// ---------------------------------------------------------------------------

/// Whether a number can number a line.
pub open spec fn gutter_number(n: u32) -> bool {
    1 <= n <= 50
}

/// A line number and what it numbers, with a space between them.
pub open spec fn numbered_text(n: u32, text: Seq<char>) -> Seq<char> {
    decimal(n as nat) + " "@ + text
}

fn write_numbered(n: u32, text: &str) -> (r: String)
    ensures
        r@ == numbered_text(n, text@),
{
    decimal_string(n as u64).concat(" ").concat(text)
}

/// A line with its number set apart from what closes up with it.
pub open spec fn detached(line: Seq<char>) -> Seq<char> {
    let end = run_end(line, CharClass::Digit, 0);
    let rest = start_trimmed(line.skip(end));
    match parsed_u32(line.take(end)) {
        Some(n) if gutter_number(n) && rest.len() > 0 => numbered_text(n, rest),
        _ => line,
    }
}

pub fn normalize_attached_line_number(line: &str) -> (r: String)
    ensures
        r@ == detached(line@),
{
    let v = chars_of(line);
    let end = find_run_end(&v, CharClass::Digit, 0);
    assert(v@.take(end as int) =~= v@.subrange(0, end as int));
    assert(v@.skip(end as int) =~= v@.subrange(end as int, v@.len() as int));
    match parse_u32(line.substring_char(0, end)) {
        Some(n) => {
            let rest = trim_start(line.substring_char(end, v.len()));
            if 1 <= n && n <= 50 && !rest.is_empty() {
                write_numbered(n, rest)
            } else {
                line.to_owned()
            }
        },
        None => line.to_owned(),
    }
}

/// The lines among the first `n` that hold anything, trimmed.
pub open spec fn filled_lines(list: Seq<Seq<char>>, n: int) -> Seq<Seq<char>>
    decreases n,
{
    if n <= 0 {
        seq![]
    } else if trimmed(list[n - 1]).len() > 0 {
        filled_lines(list, n - 1).push(trimmed(list[n - 1]))
    } else {
        filled_lines(list, n - 1)
    }
}

/// The number that a line consists of, where it can number the line after it.
pub open spec fn lone_number(line: Seq<char>) -> Option<u32> {
    match parsed_u32(line) {
        Some(n) if gutter_number(n) => Some(n),
        _ => None,
    }
}

/// Lines from a position on, each number that stands alone joined with the line after it.
pub open spec fn gathered_from(list: Seq<Seq<char>>, i: int) -> Seq<Seq<char>>
    decreases list.len() - i,
{
    if i < 0 || i >= list.len() {
        seq![]
    } else {
        match lone_number(list[i]) {
            Some(n) if i + 1 < list.len() => {
                seq![numbered_text(n, list[i + 1])] + gathered_from(list, i + 2)
            },
            _ => seq![detached(list[i])] + gathered_from(list, i + 1),
        }
    }
}

/// The lines of a page, each with its line number in front of it.
pub open spec fn gathered_lines(page: Seq<char>) -> Seq<Seq<char>> {
    gathered_from(filled_lines(lines_of(page), lines_of(page).len() as int), 0)
}

pub fn normalize_page_lines(page: &str) -> (r: Vec<String>)
    ensures
        r.deep_view() == gathered_lines(page@),
{
    let all = lines(page);
    let mut list: Vec<String> = Vec::new();
    assert(list.deep_view() =~= seq![]);
    for n in 0..all.len()
        invariant
            list.deep_view() == filled_lines(all.deep_view(), n as int),
    {
        assert(all.deep_view()[n as int] == all@[n as int]@);
        let line = trim(all[n].as_str());
        if !line.is_empty() {
            push_item(&mut list, line.to_owned());
        }
    }
    let ghost view = list.deep_view();
    let count = list.len();
    let mut r: Vec<String> = Vec::new();
    let mut i: usize = 0;
    assert(r.deep_view() =~= seq![]);
    assert(r.deep_view() + gathered_from(view, 0) =~= gathered_from(view, 0));
    while i < count
        invariant
            count == list@.len(),
            view == list.deep_view(),
            i <= count,
            gathered_from(view, 0) == r.deep_view() + gathered_from(view, i as int),
        decreases count - i,
    {
        assert(view[i as int] == list@[i as int]@);
        let ghost before = r.deep_view();
        let mut at: Option<u32> = None;
        match parse_u32(list[i].as_str()) {
            Some(n) => {
                if 1 <= n && n <= 50 && i < count - 1 {
                    at = Some(n);
                }
            },
            None => {},
        }
        match at {
            Some(n) => {
                assert(view[i + 1] == list@[i + 1]@);
                push_item(&mut r, write_numbered(n, list[i + 1].as_str()));
                assert(before + (seq![numbered_text(n, view[i + 1])] + gathered_from(view, i + 2))
                    =~= r.deep_view() + gathered_from(view, i + 2));
                i += 2;
            },
            None => {
                push_item(&mut r, normalize_attached_line_number(list[i].as_str()));
                assert(before + (seq![detached(view[i as int])] + gathered_from(view, i + 1))
                    =~= r.deep_view() + gathered_from(view, i + 1));
                i += 1;
            },
        }
    }
    assert(r.deep_view() + gathered_from(view, i as int) =~= r.deep_view());
    r
}

/// A page of plain PDF text with its line numbers in front of their lines.
pub fn normalize_pdf_page(page: &str) -> (r: String)
    ensures
        r@ == joined(gathered_lines(page@), "\n"@),
{
    join(&normalize_page_lines(page), "\n")
}

// ---------------------------------------------------------------------------
// A page
// ---------------------------------------------------------------------------

/// The line number that is the first word of a line.
pub open spec fn first_number(line: Seq<char>) -> Option<u16> {
    match first_word(line) {
        Some(word) => match parsed_u16(word) {
            Some(n) if numbers_a_line(n) => Some(n),
            _ => None,
        },
        None => None,
    }
}

fn find_first_number(line: &str) -> (r: Option<u16>)
    ensures
        r == first_number(line@),
{
    let list = words(line);
    if list.len() == 0 {
        return None;
    }
    assert(list.deep_view()[0] == list@[0]@);
    match parse_u16(list[0].as_str()) {
        Some(n) => if 1 <= n && n <= 50 {
            Some(n)
        } else {
            None
        },
        None => None,
    }
}

/// A line of text as a row. Rows run down the page.
pub open spec fn line_row(line: Seq<char>, index: int) -> VisualRowView {
    VisualRowView {
        panel: 0,
        printed_page: None,
        bbox: None,
        ocr_confidence: None,
        y: opposite(whole_measure(index) as i64),
        left_x: None,
        line_number_x: None,
        line_number: first_number(line),
        text: line,
        fragments: seq![],
        marker_stands_clear: false,
    }
}

/// The rows among the first `n` lines of a text.
pub open spec fn line_rows(list: Seq<Seq<char>>, n: int) -> Seq<VisualRowView>
    decreases n,
{
    if n <= 0 {
        seq![]
    } else if trimmed(list[n - 1]).len() > 0 {
        line_rows(list, n - 1).push(line_row(trimmed(list[n - 1]), n - 1))
    } else {
        line_rows(list, n - 1)
    }
}

/// How many of the first `n` rows are numbered.
pub open spec fn numbered_count(rows: Seq<VisualRowView>, n: int) -> nat
    decreases n,
{
    if n <= 0 {
        0
    } else {
        numbered_count(rows, n - 1) + if rows[n - 1].line_number is Some {
            1nat
        } else {
            0nat
        }
    }
}

/// Computes [`numbered_count`] of all rows.
pub fn count_numbered(rows: &Vec<VisualRow>) -> (r: usize)
    ensures
        r == numbered_count(rows.deep_view(), rows.deep_view().len() as int),
{
    let mut r: usize = 0;
    for n in 0..rows.len()
        invariant
            r <= n,
            r == numbered_count(rows.deep_view(), n as int),
    {
        assert(rows.deep_view()[n as int] == rows@[n as int].deep_view());
        if rows[n].line_number.is_some() {
            r += 1;
        }
    }
    r
}

/// A page of plain text.
pub open spec fn text_page(physical_page: u32, text: Seq<char>) -> ExtractedPageView {
    let rows = line_rows(lines_of(text), lines_of(text).len() as int);
    ExtractedPageView {
        physical_page,
        text,
        raw_text: text,
        section: PageSection::Unknown,
        section_confidence: 0,
        section_reasons: seq![],
        visual_rows: rows,
        layout: PageLayoutDiagnosticsView {
            visual_row_count: rows.len() as usize,
            numbered_row_count: numbered_count(rows, rows.len() as int) as usize,
            reconstruction_confidence: MEASURE_1,
            ..no_layout()
        },
        annotations: seq![],
        filled_rectangles: seq![],
        image_count: 0,
    }
}

pub fn empty_signal_page(physical_page: u32, text: String) -> (r: ExtractedPage)
    ensures
        r.deep_view() == text_page(physical_page, text@),
{
    let list = lines(text.as_str());
    let mut visual_rows: Vec<VisualRow> = Vec::new();
    assert(visual_rows.deep_view() =~= seq![]);
    for n in 0..list.len()
        invariant
            visual_rows.deep_view() == line_rows(list.deep_view(), n as int),
    {
        assert(list.deep_view()[n as int] == list@[n as int]@);
        let line = trim(list[n].as_str());
        if !line.is_empty() {
            let row = VisualRow {
                panel: 0,
                printed_page: None,
                bbox: None,
                ocr_confidence: None,
                y: negate(measure_of_count(n)),
                left_x: None,
                line_number_x: None,
                line_number: find_first_number(line),
                text: line.to_owned(),
                fragments: Vec::new(),
                marker_stands_clear: false,
            };
            assert(row.deep_view() =~= line_row(line@, n as int));
            push_item(&mut visual_rows, row);
        }
    }
    let layout = PageLayoutDiagnostics {
        visual_row_count: visual_rows.len(),
        numbered_row_count: count_numbered(&visual_rows),
        reconstruction_confidence: MEASURE_1,
        ..PageLayoutDiagnostics::default()
    };
    let page = ExtractedPage {
        physical_page,
        raw_text: text.clone(),
        text,
        section: PageSection::Unknown,
        section_confidence: 0,
        section_reasons: Vec::new(),
        visual_rows,
        layout,
        annotations: Vec::new(),
        filled_rectangles: Vec::new(),
        image_count: 0,
    };
    assert(page.deep_view() =~= text_page(physical_page, page.text@));
    page
}

// ---------------------------------------------------------------------------
// Pages
// ---------------------------------------------------------------------------

/// Whether a line announces a page by its number.
pub open spec fn page_marker(line: Seq<char>) -> bool {
    match after_prefix(uppercased(line), "PAGE "@) {
        Some(number) => parsed_u32(trimmed(number)) is Some,
        None => false,
    }
}

pub fn is_page_marker(line: &str) -> (r: bool)
    ensures
        r == page_marker(line@),
{
    let upper = to_upper(line);
    match strip_prefix(upper.as_str(), "PAGE ") {
        Some(number) => parse_u32(trim(number)).is_some(),
        None => false,
    }
}

/// Whether any line holds anything.
pub open spec fn meaningful(list: Seq<Seq<char>>) -> bool {
    exists|i: int| 0 <= i < list.len() && trimmed(#[trigger] list[i]).len() > 0
}

pub fn has_meaningful_content(list: &Vec<String>) -> (r: bool)
    ensures
        r == meaningful(list.deep_view()),
{
    let ghost view = list.deep_view();
    for i in 0..list.len()
        invariant
            view == list.deep_view(),
            forall|j: int| 0 <= j < i ==> trimmed(#[trigger] view[j]).len() == 0,
    {
        assert(view[i as int] == list@[i as int]@);
        if !trim(list[i].as_str()).is_empty() {
            return true;
        }
    }
    false
}

/// What the first lines of a text are cut into: pages that are complete, and the lines of the
/// one that is open once anything was read.
#[verifier::ext_equal]
pub struct Cut {
    pub texts: Seq<Seq<char>>,
    pub current: Seq<Seq<char>>,
    pub started: bool,
}

/// The first `n` lines of a text, cut at page markers.
pub open spec fn cut(list: Seq<Seq<char>>, n: int) -> Cut
    decreases n,
{
    if n <= 0 {
        Cut { texts: seq![], current: seq![], started: false }
    } else {
        let before = cut(list, n - 1);
        let line = list[n - 1];
        if !before.started && trimmed(line).len() == 0 {
            before
        } else if page_marker(trimmed(line)) && meaningful(before.current) {
            Cut {
                texts: before.texts.push(joined(before.current, "\n"@)),
                current: seq![line],
                started: true,
            }
        } else {
            Cut { current: before.current.push(line), started: true, ..before }
        }
    }
}

/// The texts of the pages of a text: divided by form feeds or, where there are none, at page
/// markers.
pub open spec fn page_texts_of(text: Seq<char>) -> Seq<Seq<char>> {
    if any_within(text, CharClass::Is('\u{c}')) {
        let parts = fields_of(text, '\u{c}');
        if parts.len() > 0 && trimmed(parts[parts.len() - 1]).len() == 0 {
            parts.drop_last()
        } else {
            parts
        }
    } else {
        let all = cut(lines_of(text), lines_of(text).len() as int);
        let texts = if meaningful(all.current) {
            all.texts.push(joined(all.current, "\n"@))
        } else {
            all.texts
        };
        if texts.len() == 0 && trimmed(text).len() > 0 {
            seq![trimmed(text)]
        } else {
            texts
        }
    }
}

/// The pages of a text, numbered from one.
pub open spec fn pages_of_text(text: Seq<char>) -> Seq<ExtractedPageView> {
    let texts = page_texts_of(text);
    Seq::new(texts.len(), |i: int| text_page((i + 1) as u32, texts[i]))
}

fn cut_pages(text: &str) -> (r: Vec<String>)
    ensures
        !any_within(text@, CharClass::Is('\u{c}')) ==> r.deep_view() == page_texts_of(text@),
{
    let list = lines(text);
    let ghost view = list.deep_view();
    let mut texts: Vec<String> = Vec::new();
    let mut current: Vec<String> = Vec::new();
    let mut started = false;
    assert(texts.deep_view() =~= seq![]);
    assert(current.deep_view() =~= seq![]);
    for n in 0..list.len()
        invariant
            view == list.deep_view(),
            (Cut { texts: texts.deep_view(), current: current.deep_view(), started }) == cut(
                view,
                n as int,
            ),
    {
        assert(view[n as int] == list@[n as int]@);
        let line = trim(list[n].as_str());
        if started || !line.is_empty() {
            if is_page_marker(line) && has_meaningful_content(&current) {
                push_item(&mut texts, join(&current, "\n"));
                current = Vec::new();
                assert(current.deep_view() =~= seq![]);
                push_item(&mut current, list[n].clone());
                assert(current.deep_view() =~= seq![view[n as int]]);
            } else {
                push_item(&mut current, list[n].clone());
            }
            started = true;
        }
    }
    if has_meaningful_content(&current) {
        push_item(&mut texts, join(&current, "\n"));
    }
    let rest = trim(text);
    if texts.len() == 0 && !rest.is_empty() {
        push_item(&mut texts, rest.to_owned());
        assert(texts.deep_view() =~= seq![trimmed(text@)]);
    }
    texts
}

pub fn split_text_pages(text: &str) -> (r: Vec<ExtractedPage>)
    ensures
        r.deep_view() == pages_of_text(text@),
{
    let mut texts: Vec<String>;
    if any_char(text, CharClass::Is('\u{c}')) {
        texts = fields(text, '\u{c}');
        let count = texts.len();
        let ghost parts = texts.deep_view();
        if count > 0 {
            assert(parts[count - 1] == texts@[count - 1]@);
            if trim(texts[count - 1].as_str()).is_empty() {
                texts.truncate(count - 1);
                assert(texts.deep_view() =~= parts.drop_last());
            }
        }
    } else {
        texts = cut_pages(text);
    }
    let ghost all = pages_of_text(text@);
    let mut pages: Vec<ExtractedPage> = Vec::new();
    assert(pages.deep_view() =~= all.take(0));
    for i in 0..texts.len()
        invariant
            all == pages_of_text(text@),
            texts.deep_view() == page_texts_of(text@),
            pages.deep_view() == all.take(i as int),
    {
        assert(texts.deep_view()[i as int] == texts@[i as int]@);
        push_item(&mut pages, empty_signal_page((i + 1) as u32, texts[i].clone()));
        assert(all.take(i + 1) =~= all.take(i as int).push(all[i as int]));
    }
    assert(all.take(all.len() as int) =~= all);
    pages
}

// ---------------------------------------------------------------------------
// Laws
// ---------------------------------------------------------------------------

/// Whether a line reads "PAGE" and a number, in whatever case.
pub open spec fn announces_page(line: Seq<char>) -> bool {
    let upper = uppercased(trimmed(line));
    &&& upper.len() >= 5
    &&& upper[0] == 'P' && upper[1] == 'A' && upper[2] == 'G' && upper[3] == 'E' && upper[4] == ' '
    &&& parsed_u32(trimmed(upper.skip(5))) is Some
}

/// Whether a page of a text that begins with the line at `first` starts with the line at `a`.
pub open spec fn starts_page(list: Seq<Seq<char>>, first: int, a: int) -> bool {
    a == first || (first < a && announces_page(list[a]))
}

/// How many pages start before the line at `n`.
pub open spec fn pages_started(list: Seq<Seq<char>>, first: int, n: int) -> nat
    decreases n,
{
    if n <= 0 {
        0
    } else {
        pages_started(list, first, n - 1) + if starts_page(list, first, n - 1) {
            1nat
        } else {
            0nat
        }
    }
}

proof fn lemma_announcement(line: Seq<char>)
    ensures
        page_marker(trimmed(line)) == announces_page(line),
        announces_page(line) ==> trimmed(line).len() > 0,
{
    reveal_strlit("PAGE ");
    let upper = uppercased(trimmed(line));
    let p = "PAGE "@;
    if upper.len() >= 5 {
        assert(upper.subrange(5, upper.len() as int) =~= upper.skip(5));
        if upper[0] == 'P' && upper[1] == 'A' && upper[2] == 'G' && upper[3] == 'E' && upper[4]
            == ' ' {
            assert(upper.subrange(0, 5) =~= p);
        } else if upper.subrange(0, 5) == p {
            assert(upper.subrange(0, 5)[0] == upper[0]);
            assert(upper.subrange(0, 5)[1] == upper[1]);
            assert(upper.subrange(0, 5)[2] == upper[2]);
            assert(upper.subrange(0, 5)[3] == upper[3]);
            assert(upper.subrange(0, 5)[4] == upper[4]);
        }
    }
}

proof fn lemma_cut_blank(list: Seq<Seq<char>>, first: int, n: int)
    requires
        0 <= n <= first < list.len(),
        forall|i: int| 0 <= i < first ==> trimmed(#[trigger] list[i]).len() == 0,
    ensures
        cut(list, n) == (Cut { texts: seq![], current: seq![], started: false }),
        pages_started(list, first, n) == 0,
    decreases n,
{
    if n > 0 {
        lemma_cut_blank(list, first, n - 1);
        assert(trimmed(list[n - 1]).len() == 0);
    }
}

/// One more line of the last page is one more line of all pages.
proof fn lemma_last_page_grows(
    texts: Seq<Seq<char>>,
    current: Seq<Seq<char>>,
    line: Seq<char>,
    sep: Seq<char>,
)
    requires
        current.len() > 0,
    ensures
        joined(texts.push(joined(current.push(line), sep)), sep) == joined(
            texts.push(joined(current, sep)),
            sep,
        ) + sep + line,
{
    let open = joined(current, sep);
    lemma_joined_end_to_end(current, seq![line], sep);
    assert(current + seq![line] =~= current.push(line));
    assert(joined(seq![line], sep) == line);
    let grown = open + sep + line;
    assert(joined(current.push(line), sep) == grown);
    assert(texts + seq![open] =~= texts.push(open));
    assert(texts + seq![grown] =~= texts.push(grown));
    assert(joined(seq![open], sep) == open);
    assert(joined(seq![grown], sep) == grown);
    if texts.len() > 0 {
        lemma_joined_end_to_end(texts, seq![open], sep);
        lemma_joined_end_to_end(texts, seq![grown], sep);
        assert(joined(texts, sep) + sep + grown =~= joined(texts, sep) + sep + open + sep + line);
    } else {
        assert(texts.push(open) =~= seq![open]);
        assert(texts.push(grown) =~= seq![grown]);
    }
}

/// One more page of one line is one more line of all pages.
proof fn lemma_page_is_added(texts: Seq<Seq<char>>, line: Seq<char>, sep: Seq<char>)
    requires
        texts.len() > 0,
    ensures
        joined(texts.push(joined(seq![line], sep)), sep) == joined(texts, sep) + sep + line,
{
    assert(joined(seq![line], sep) == line);
    lemma_joined_end_to_end(texts, seq![line], sep);
    assert(texts + seq![line] =~= texts.push(line));
}

/// The page that is open before the line at `n`.
proof fn lemma_cut(list: Seq<Seq<char>>, first: int, n: int) -> (a: int)
    requires
        0 <= first < n <= list.len(),
        forall|i: int| 0 <= i < first ==> trimmed(#[trigger] list[i]).len() == 0,
        trimmed(list[first]).len() > 0,
    ensures
        first <= a < n,
        starts_page(list, first, a),
        forall|m: int| a < m < n ==> !(#[trigger] starts_page(list, first, m)),
        cut(list, n).started,
        cut(list, n).current == list.subrange(a, n),
        meaningful(cut(list, n).current),
        cut(list, n).texts.len() == pages_started(list, first, a),
        pages_started(list, first, n) == pages_started(list, first, a) + 1,
    decreases n,
{
    let at = n - 1;
    let line = list[at];
    let before = cut(list, at);
    let after = cut(list, n);
    lemma_announcement(line);
    if at == first {
        lemma_cut_blank(list, first, at);
        assert(before.current.push(line) =~= list.subrange(first, n));
        assert(after.current[0] == line);
        first
    } else {
        let a = lemma_cut(list, first, at);
        if announces_page(line) {
            assert(after.current =~= list.subrange(at, n));
            assert(after.current[0] == line);
            at
        } else {
            assert(!starts_page(list, first, at));
            assert(after.current =~= list.subrange(a, n));
            assert(trimmed(list[a]).len() > 0) by {
                lemma_announcement(list[a]);
            }
            assert(after.current[0] == list[a]);
            a
        }
    }
}

/// The pages that were cut so far, with the open one, are the lines that were read.
proof fn lemma_cut_loses_nothing(list: Seq<Seq<char>>, first: int, n: int)
    requires
        0 <= first < n <= list.len(),
        forall|i: int| 0 <= i < first ==> trimmed(#[trigger] list[i]).len() == 0,
        trimmed(list[first]).len() > 0,
    ensures
        joined(cut(list, n).texts.push(joined(cut(list, n).current, "\n"@)), "\n"@) == joined(
            list.subrange(first, n),
            "\n"@,
        ),
    decreases n,
{
    let sep = "\n"@;
    let at = n - 1;
    let line = list[at];
    let before = cut(list, at);
    let after = cut(list, n);
    lemma_announcement(line);
    if at == first {
        lemma_cut_blank(list, first, at);
        assert(before.current.push(line) =~= list.subrange(first, n));
        let all = joined(after.current, sep);
        assert(after.texts.push(all) =~= seq![all]);
    } else {
        let a = lemma_cut(list, first, at);
        lemma_cut_loses_nothing(list, first, at);
        lemma_joined_end_to_end(list.subrange(first, at), seq![line], sep);
        assert(list.subrange(first, at) + seq![line] =~= list.subrange(first, n));
        assert(joined(seq![line], sep) == line);
        if announces_page(line) {
            lemma_page_is_added(before.texts.push(joined(before.current, sep)), line, sep);
        } else {
            lemma_last_page_grows(before.texts, before.current, line, sep);
        }
    }
}

proof fn lemma_cut_stays(list: Seq<Seq<char>>, n: int, m: int, k: int)
    requires
        0 <= n <= m <= list.len(),
        0 <= k < cut(list, n).texts.len(),
    ensures
        k < cut(list, m).texts.len(),
        cut(list, m).texts[k] == cut(list, n).texts[k],
    decreases m - n,
{
    if n < m {
        lemma_cut_stays(list, n, m - 1, k);
    }
}

/// Cutting a text into pages loses nothing: with line feeds between them, its pages are its lines,
/// but for blank ones before anything else.
pub proof fn law_pages_keep_every_line(text: Seq<char>, first: int)
    requires
        !text.contains('\u{c}'),
        0 <= first < lines_of(text).len(),
        forall|i: int| 0 <= i < first ==> trimmed(#[trigger] lines_of(text)[i]).len() == 0,
        trimmed(lines_of(text)[first]).len() > 0,
    ensures
        joined(page_texts_of(text), "\n"@) == joined(lines_of(text).skip(first), "\n"@),
        page_texts_of(text).len() == pages_started(
            lines_of(text),
            first,
            lines_of(text).len() as int,
        ),
{
    let list = lines_of(text);
    let n = list.len() as int;
    assert(!any_within(text, CharClass::Is('\u{c}')));
    let a = lemma_cut(list, first, n);
    lemma_cut_loses_nothing(list, first, n);
    assert(list.subrange(first, n) =~= list.skip(first));
}

/// A page of a text is exactly its lines from the one that starts it up to the next that
/// announces a page, with line feeds between them.
pub proof fn law_pages_run_to_the_next_announcement(text: Seq<char>, first: int, a: int, b: int)
    requires
        !text.contains('\u{c}'),
        0 <= first <= a < b <= lines_of(text).len(),
        forall|i: int| 0 <= i < first ==> trimmed(#[trigger] lines_of(text)[i]).len() == 0,
        trimmed(lines_of(text)[first]).len() > 0,
        a == first || announces_page(lines_of(text)[a]),
        forall|m: int| a < m < b ==> !announces_page(#[trigger] lines_of(text)[m]),
        b < lines_of(text).len() ==> announces_page(lines_of(text)[b]),
    ensures
        ({
            let k = pages_started(lines_of(text), first, a) as int;
            &&& k < page_texts_of(text).len()
            &&& page_texts_of(text)[k] == joined(lines_of(text).subrange(a, b), "\n"@)
        }),
{
    let list = lines_of(text);
    let n = list.len() as int;
    assert(!any_within(text, CharClass::Is('\u{c}')));
    let open = lemma_cut(list, first, b);
    assert(starts_page(list, first, a));
    assert(starts_page(list, first, open));
    if open < a {
        assert(starts_page(list, first, a));
        assert(false);
    }
    if a < open {
        assert(announces_page(list[open]));
        assert(false);
    }
    let last = lemma_cut(list, first, n);
    if b < n {
        lemma_announcement(list[b]);
        assert(cut(list, b + 1).texts == cut(list, b).texts.push(
            joined(cut(list, b).current, "\n"@),
        ));
        lemma_cut_stays(list, b + 1, n, pages_started(list, first, a) as int);
    }
}

/// Where form feeds divide a text, its pages with form feeds between them are the text, but for a
/// last one that is blank; no page holds a form feed.
pub proof fn law_form_feeds_divide_pages(text: Seq<char>)
    requires
        text.contains('\u{c}'),
    ensures
        ({
            let pages = page_texts_of(text);
            let whole = joined(pages, seq!['\u{c}']);
            &&& text == whole || (exists|rest: Seq<char>|
                trimmed(rest).len() == 0 && text == #[trigger] (whole + seq!['\u{c}'] + rest))
            &&& forall|i: int| 0 <= i < pages.len() ==> !(#[trigger] pages[i]).contains('\u{c}')
        }),
{
    let i = choose|i: int| 0 <= i < text.len() && text[i] == '\u{c}';
    assert(within(CharClass::Is('\u{c}'), text[i]));
    assert(any_within(text, CharClass::Is('\u{c}')));
    law_fields_rejoin(text, '\u{c}');
    let parts = fields_of(text, '\u{c}');
    let n = parts.len() as int;
    let pages = page_texts_of(text);
    if n > 0 && trimmed(parts[n - 1]).len() == 0 {
        let rest = parts[n - 1];
        assert(pages == parts.drop_last());
        if n > 1 {
            lemma_joined_end_to_end(pages, seq![rest], seq!['\u{c}']);
            assert(pages + seq![rest] =~= parts);
            assert(joined(seq![rest], seq!['\u{c}']) == rest);
            assert(text == joined(pages, seq!['\u{c}']) + seq!['\u{c}'] + rest);
        } else {
            assert(parts =~= seq![rest]);
            assert(joined(parts, seq!['\u{c}']) == rest);
            assert(rest.contains('\u{c}'));
        }
    }
}

/// The pages of a text are numbered from one, hold their text unchanged, and have a row for each
/// line that holds anything, with the text of that line and the number that it starts with.
pub proof fn law_text_pages_hold_their_text(text: Seq<char>, i: int)
    requires
        0 <= i < page_texts_of(text).len(),
        page_texts_of(text).len() <= u32::MAX,
    ensures
        ({
            let page = pages_of_text(text)[i];
            &&& pages_of_text(text).len() == page_texts_of(text).len()
            &&& page.physical_page == i + 1
            &&& page.text == page_texts_of(text)[i]
            &&& page.raw_text == page_texts_of(text)[i]
        }),
{
}

proof fn lemma_line_rows(list: Seq<Seq<char>>, n: int, i: int)
    requires
        0 <= i < n <= list.len(),
        trimmed(list[i]).len() > 0,
    ensures
        exists|k: int|
            0 <= k < line_rows(list, n).len() && (#[trigger] line_rows(list, n)[k]).text == trimmed(
                list[i],
            ),
    decreases n,
{
    let rows = line_rows(list, n);
    let before = line_rows(list, n - 1);
    if i == n - 1 {
        assert(rows[rows.len() - 1].text == trimmed(list[i]));
    } else {
        lemma_line_rows(list, n - 1, i);
        let k = choose|k: int|
            0 <= k < before.len() && (#[trigger] before[k]).text == trimmed(list[i]);
        assert(rows[k] == before[k]);
    }
}

/// Every line of a page of text that holds anything is a row of the page.
pub proof fn law_lines_of_text_become_rows(physical_page: u32, text: Seq<char>, i: int)
    requires
        0 <= i < lines_of(text).len(),
        trimmed(lines_of(text)[i]).len() > 0,
    ensures
        exists|k: int|
            0 <= k < text_page(physical_page, text).visual_rows.len() && (
            #[trigger] text_page(physical_page, text).visual_rows[k]).text == trimmed(
                lines_of(text)[i],
            ),
{
    let list = lines_of(text);
    let n = list.len() as int;
    lemma_line_rows(list, n, i);
    let rows = line_rows(list, n);
    let k = choose|k: int| 0 <= k < rows.len() && (#[trigger] rows[k]).text == trimmed(list[i]);
    assert(text_page(physical_page, text).visual_rows[k] == rows[k]);
}

/// A line number that closes up with its line is set apart from it by one space, where it is a
/// number from 1 to 50 and anything follows; any other line stays.
pub proof fn law_attached_numbers_are_set_apart(n: nat, rest: Seq<char>)
    requires
        rest.len() > 0,
        !is_space(rest[0]),
        !('0' <= rest[0] <= '9'),
    ensures
        1 <= n <= 50 ==> detached(decimal(n) + rest) == decimal(n) + seq![' '] + rest,
        n > 50 ==> detached(decimal(n) + rest) == decimal(n) + rest,
        detached(rest) == rest,
{
    reveal_strlit(" ");
    assert(" "@ =~= seq![' ']);
    let line = decimal(n) + rest;
    let end = decimal(n).len() as int;
    lemma_decimal_is_digits(n);
    assert forall|i: int| 0 <= i < end implies within(CharClass::Digit, #[trigger] line[i]) by {
        assert(line[i] == decimal(n)[i]);
    }
    assert(line[end] == rest[0]);
    lemma_run_end_is(line, CharClass::Digit, 0, end);
    assert(line.take(end) =~= decimal(n));
    assert(line.skip(end) =~= rest);
    lemma_run_end_is(rest, CharClass::Space, 0, 0);
    assert(start_trimmed(rest) =~= rest);
    if n <= 0xffff_ffff {
        lemma_decimal_parsed(n, 0xffff_ffff);
    } else {
        lemma_decimal_value(n);
        lemma_decimal_is_digits(n);
    }
    lemma_run_end_is(rest, CharClass::Digit, 0, 0);
    assert(rest.take(0) =~= seq![]);
}

/// A number from 1 to 50 that stands alone numbers the line after it and is set in front of it;
/// every other line stands for itself, with a number that it starts with set apart.
pub proof fn law_numbers_alone_join_the_next_line(list: Seq<Seq<char>>, i: int)
    requires
        0 <= i < list.len(),
    ensures
        ({
            let alone = parsed_u32(list[i]) is Some && 1 <= parsed_u32(list[i])->0 && parsed_u32(
                list[i],
            )->0 <= 50;
            &&& gathered_from(list, list.len() as int).len() == 0
            &&& alone && i + 1 < list.len() ==> gathered_from(list, i) == seq![
                decimal(parsed_u32(list[i])->0 as nat) + " "@ + list[i + 1],
            ] + gathered_from(list, i + 2)
            &&& !alone || i + 1 == list.len() ==> gathered_from(list, i) == seq![detached(list[i])]
                + gathered_from(list, i + 1)
        }),
{
}

/// The lines of a page that hold anything are gathered, trimmed and in order.
pub proof fn law_filled_lines_are_gathered(list: Seq<Seq<char>>, n: int)
    requires
        0 <= n < list.len(),
    ensures
        filled_lines(list, 0).len() == 0,
        trimmed(list[n]).len() > 0 ==> filled_lines(list, n + 1) == filled_lines(list, n).push(
            trimmed(list[n]),
        ),
        trimmed(list[n]).len() == 0 ==> filled_lines(list, n + 1) == filled_lines(list, n),
{
}

/// Each line that holds anything becomes a row behind those before it, lower on the page, with the
/// number that is its first word if that is one from 1 to 50; blank lines become none.
pub proof fn law_rows_follow_their_lines(list: Seq<Seq<char>>, n: int)
    requires
        0 <= n < list.len(),
    ensures
        ({
            let before = line_rows(list, n);
            let after = line_rows(list, n + 1);
            let line = trimmed(list[n]);
            let word = first_word(line);
            let number = parsed_u16(word->0);
            let numbered = word is Some && number is Some && 1 <= number->0 && number->0 <= 50;
            let row = after.last();
            &&& line_rows(list, 0).len() == 0
            &&& line.len() == 0 ==> after == before
            &&& line.len() > 0 ==> after.len() == before.len() + 1 && after.drop_last() == before
                && row.text == line && row.y == -1 - whole_measure(n) as i64 && row.line_number
                == (if numbered {
                number
            } else {
                None
            }) && row.left_x is None && row.line_number_x is None && row.fragments.len() == 0
                && row.panel == 0 && row.printed_page is None && !row.marker_stands_clear
        }),
{
    if trimmed(list[n]).len() > 0 {
        assert(line_rows(list, n + 1).drop_last() =~= line_rows(list, n));
    }
}

proof fn lemma_numbered_rows(rows: Seq<VisualRowView>, n: int)
    requires
        0 <= n <= rows.len(),
    ensures
        numbered_count(rows, n) == rows.take(n).filter(
            |row: VisualRowView| row.line_number is Some,
        ).len(),
        numbered_count(rows, n) <= n,
    decreases n,
{
    lemma_filter_first(rows, |row: VisualRowView| row.line_number is Some, n);
    if n > 0 {
        lemma_numbered_rows(rows, n - 1);
    }
}

/// A page of text says how many rows it has and how many of them are numbered, and is sure of them;
/// nothing else is known of it.
pub proof fn law_text_pages_count_their_rows(physical_page: u32, text: Seq<char>)
    requires
        lines_of(text).len() <= usize::MAX,
    ensures
        ({
            let page = text_page(physical_page, text);
            let rows = line_rows(lines_of(text), lines_of(text).len() as int);
            &&& page.visual_rows == rows
            &&& page.layout.visual_row_count == rows.len()
            &&& page.layout.numbered_row_count == rows.filter(
                |row: VisualRowView| row.line_number is Some,
            ).len()
            &&& page.layout.reconstruction_confidence == 0x3ff0_0000_0000_0000
            &&& !page.layout.used_positioned_reconstruction
                && !page.layout.positioned_text_available && !page.layout.requires_ocr
            &&& page.section == PageSection::Unknown && page.section_confidence == 0
            &&& page.annotations.len() == 0 && page.filled_rectangles.len() == 0 && page.image_count
                == 0
        }),
{
    let list = lines_of(text);
    let rows = line_rows(list, list.len() as int);
    lemma_rows_at_most(list, list.len() as int);
    lemma_numbered_rows(rows, rows.len() as int);
    assert(rows.take(rows.len() as int) =~= rows);
}

proof fn lemma_rows_at_most(list: Seq<Seq<char>>, n: int)
    requires
        0 <= n <= list.len(),
    ensures
        line_rows(list, n).len() <= n,
    decreases n,
{
    if n > 0 {
        lemma_rows_at_most(list, n - 1);
    }
}

} // verus!
