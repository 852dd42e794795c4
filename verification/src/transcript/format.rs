//! The printed format of a page: line numbers in the gutter, and page labels.
use vstd::prelude::*;

use crate::document::models::{ExtractedPage, ExtractedPageView, VisualRow, VisualRowView};
use crate::number::{
    decimal, decimal_string, lemma_decimal_is_digits, lemma_decimal_parsed, parse_u16, parse_u32,
    parsed_u16, parsed_u32,
};
use crate::pieces::{lines, lines_of};
use crate::scan::{
    after_prefix, all_chars, all_within, begins, blank, find_run_end, has_prefix, is_blank,
    lemma_run_end, lemma_run_end_is, run_end, start_trimmed, starts_with, starts_with_char,
    strip_prefix, strip_start, stripped_start, to_upper, trim, trim_start, trimmed, uppercased,
};
use crate::text::{
    byte_len, chars_of, clone_option, is_digit, is_space, lemma_filter_first, len_bytes, push_item,
    same, space, within, CharClass,
};
use crate::transcript::profile::TranscriptProfile;

verus! {

// ---------------------------------------------------------------------------
// Line numbers
// ---------------------------------------------------------------------------

/// Whether a text opens with a punctuated letter marker.
pub open spec fn opens_with_marker(s: Seq<char>) -> bool {
    has_prefix(s, "Q."@) || has_prefix(s, "A."@) || has_prefix(s, "Q:"@) || has_prefix(s, "A:"@)
}

/// Decides [`opens_with_marker`].
pub fn marker_opens(s: &str) -> (r: bool)
    ensures
        r == opens_with_marker(s@),
{
    starts_with(s, "Q.") || starts_with(s, "A.") || starts_with(s, "Q:") || starts_with(s, "A:")
}

/// Whether a text can follow a line number: nothing, white space, a colon or a marker.
pub open spec fn follows_line_number(s: Seq<char>) -> bool {
    s.len() == 0 || is_space(s[0]) || s[0] == ':' || opens_with_marker(s)
}

/// A line taken apart into its line number, of at most `max`, and its body. A line without
/// such a number is all body.
pub open spec fn numbered_line(line: Seq<char>, max: u16) -> (Option<u16>, Seq<char>) {
    let digits = run_end(line, CharClass::Digit, 0);
    let rest = line.subrange(digits, line.len() as int);
    match parsed_u16(line.subrange(0, digits)) {
        Some(number) => if 0 < number <= max && follows_line_number(rest) {
            (Some(number), start_trimmed(stripped_start(rest, CharClass::Is(':'))))
        } else {
            (None, line)
        },
        None => (None, line),
    }
}

pub fn parse_numbered_line(line: &str, max_line_number: u16) -> (r: (Option<u16>, &str))
    ensures
        (r.0, r.1@) == numbered_line(line@, max_line_number),
{
    let v = chars_of(line);
    let digits = find_run_end(&v, CharClass::Digit, 0);
    let rest = line.substring_char(digits, v.len());
    match parse_u16(line.substring_char(0, digits)) {
        Some(number) => {
            let follows = rest.is_empty() || space(rest.get_char(0)) || begins(rest, ':')
                || marker_opens(rest);
            if number == 0 || number > max_line_number || !follows {
                return (None, line);
            }
            (Some(number), trim_start(strip_start(rest, CharClass::Is(':'))))
        },
        None => (None, line),
    }
}

/// A line number that is set off by a space is stripped, and stripped once: the body that
/// follows it stays as it is, numbers of its own included.
pub proof fn law_line_number_is_stripped_once(n: u16, body: Seq<char>, max: u16)
    requires
        0 < n <= max,
    ensures
        numbered_line(decimal(n as nat) + seq![' '] + body, max) == (
            Some(n),
            start_trimmed(body),
        ),
{
    let d = decimal(n as nat);
    let line = d + seq![' '] + body;
    let rest = seq![' '] + body;
    lemma_decimal_is_digits(n as nat);
    lemma_decimal_parsed(n as nat, 0xffff);
    assert forall|i: int| 0 <= i < d.len() implies within(CharClass::Digit, #[trigger] line[i]) by {
        assert(line[i] == d[i]);
    }
    assert(line[d.len() as int] == ' ');
    lemma_run_end_is(line, CharClass::Digit, 0, d.len() as int);
    assert(line.subrange(0, d.len() as int) =~= d);
    assert(line.subrange(d.len() as int, line.len() as int) =~= rest);
    assert(run_end(rest, CharClass::Is(':'), 0) == 0);
    assert(stripped_start(rest, CharClass::Is(':')) =~= rest);
    let from = run_end(body, CharClass::Space, 0);
    lemma_run_end(body, CharClass::Space, 0);
    assert forall|i: int| 0 <= i < from + 1 implies within(CharClass::Space, #[trigger] rest[i]) by {
        if i > 0 {
            assert(rest[i] == body[i - 1]);
        }
    }
    assert(from < body.len() ==> rest[from + 1] == body[from]);
    lemma_run_end_is(rest, CharClass::Space, 0, from + 1);
    assert(start_trimmed(rest) =~= start_trimmed(body));
}

/// A number that nothing proves to be a line number stays where it is: on a page without a
/// layout that does not number its lines, and in a row that the layout does not number.
pub proof fn law_unproven_numbers_stay(page: ExtractedPageView, raw: Seq<char>, max: u16)
    ensures
        !page.layout.used_positioned_reconstruction && !numbers_lines(page, max) ==> source_line(
            page,
            raw,
            max,
        ) == (None::<u16>, raw),
        ({
            let i = matching_row(page.visual_rows, raw, 0);
            page.layout.used_positioned_reconstruction && i < page.visual_rows.len()
                && page.visual_rows[i].line_number is None ==> source_line(page, raw, max) == (
                None::<u16>,
                raw,
            )
        }),
{
}

/// A printed number with nothing beside it is a line number with an empty body.
pub proof fn law_blank_line_number(n: u16, max: u16)
    requires
        0 < n <= max,
    ensures
        numbered_line(decimal(n as nat), max) == (Some(n), Seq::<char>::empty()),
{
    let d = decimal(n as nat);
    lemma_decimal_is_digits(n as nat);
    lemma_decimal_parsed(n as nat, 0xffff);
    lemma_run_end_is(d, CharClass::Digit, 0, d.len() as int);
    assert(d.subrange(0, d.len() as int) =~= d);
    let rest = d.subrange(d.len() as int, d.len() as int);
    assert(rest =~= Seq::<char>::empty());
    assert(stripped_start(rest, CharClass::Is(':')) =~= rest);
    assert(start_trimmed(rest) =~= rest);
}

/// The numbered lines among the first `n`, each with its number and body.
pub open spec fn gutter_candidates(list: Seq<Seq<char>>, max: u16, n: int) -> Seq<(u16, Seq<char>)>
    decreases n,
{
    if n <= 0 {
        seq![]
    } else {
        let (number, body) = numbered_line(trimmed(list[n - 1]), max);
        match number {
            Some(k) => gutter_candidates(list, max, n - 1).push((k, body)),
            None => gutter_candidates(list, max, n - 1),
        }
    }
}

/// How often a number among the first `n` is greater than the one before it.
pub open spec fn rises(candidates: Seq<(u16, Seq<char>)>, n: int) -> nat
    decreases n,
{
    if n <= 1 {
        0
    } else {
        rises(candidates, n - 1) + if candidates[n - 1].0 > candidates[n - 2].0 {
            1nat
        } else {
            0nat
        }
    }
}

/// Whether a page numbers its lines.
pub open spec fn numbers_lines(page: ExtractedPageView, max: u16) -> bool {
    if page.layout.used_positioned_reconstruction {
        page.layout.numbered_row_count > 0
    } else {
        let list = lines_of(page.text);
        let candidates = gutter_candidates(list, max, list.len() as int);
        let count = candidates.len();
        (exists|i: int| 0 <= i < count && opens_with_marker((#[trigger] candidates[i]).1)) || (count
            >= 3 && rises(candidates, count as int) * 2 >= count - 1)
    }
}

fn collect_candidates(list: &Vec<String>, max: u16) -> (r: Vec<(u16, String)>)
    ensures
        r.deep_view() == gutter_candidates(list.deep_view(), max, list.deep_view().len() as int),
{
    let mut r: Vec<(u16, String)> = Vec::new();
    assert(r.deep_view() =~= seq![]);
    for i in 0..list.len()
        invariant
            r.deep_view() == gutter_candidates(list.deep_view(), max, i as int),
    {
        assert(list.deep_view()[i as int] == list@[i as int]@);
        let (number, body) = parse_numbered_line(trim(list[i].as_str()), max);
        match number {
            Some(k) => {
                push_item(&mut r, (k, body.to_owned()));
            },
            None => {},
        }
    }
    r
}

pub fn has_line_number_convention(page: &ExtractedPage, max: u16) -> (r: bool)
    ensures
        r == numbers_lines(page.deep_view(), max),
{
    if page.layout.used_positioned_reconstruction {
        return page.layout.numbered_row_count > 0;
    }
    let list = lines(page.text.as_str());
    let candidates = collect_candidates(&list, max);
    let ghost view = candidates.deep_view();
    let count = candidates.len();
    let mut rising: usize = 0;
    for i in 0..count
        invariant
            count == candidates@.len(),
            view == candidates.deep_view(),
            !page.layout.used_positioned_reconstruction,
            view == gutter_candidates(
                lines_of(page.deep_view().text),
                max,
                lines_of(page.deep_view().text).len() as int,
            ),
            forall|j: int| 0 <= j < i ==> !opens_with_marker((#[trigger] view[j]).1),
            rising == rises(view, i as int),
            rising <= i,
            i > 0 ==> rising < i,
    {
        assert(view[i as int] == candidates@[i as int].deep_view());
        if marker_opens(candidates[i].1.as_str()) {
            return true;
        }
        if i > 0 {
            assert(view[i - 1] == candidates@[i - 1].deep_view());
            if candidates[i].0 > candidates[i - 1].0 {
                rising += 1;
            }
        }
    }
    count >= 3 && rising >= count - 1 - rising
}

/// Where the first row that reads like a line stands, or the number of rows.
pub open spec fn matching_row(rows: Seq<VisualRowView>, raw: Seq<char>, from: int) -> int
    decreases rows.len() - from,
{
    if 0 <= from < rows.len() && trimmed(rows[from].text) != trimmed(raw) {
        matching_row(rows, raw, from + 1)
    } else {
        from
    }
}

/// A line of a page taken apart into its line number and its body. Where the layout tells
/// which rows are numbered, the layout decides; elsewhere a number counts only on a page
/// that numbers its lines.
pub open spec fn source_line(page: ExtractedPageView, raw: Seq<char>, max: u16) -> (
    Option<u16>,
    Seq<char>,
) {
    let i = matching_row(page.visual_rows, raw, 0);
    if page.layout.used_positioned_reconstruction && i < page.visual_rows.len() {
        match page.visual_rows[i].line_number {
            Some(number) => {
                let (parsed, body) = numbered_line(
                    trimmed(raw),
                    if max < number {
                        number
                    } else {
                        max
                    },
                );
                (
                    Some(number),
                    if parsed == Some(number) {
                        body
                    } else {
                        raw
                    },
                )
            },
            None => (None, raw),
        }
    } else if numbers_lines(page, max) {
        numbered_line(trimmed(raw), max)
    } else {
        (None, raw)
    }
}

/// Strips a printed gutter once, only when the page supplies evidence of one.
pub fn parse_source_line<'a>(page: &ExtractedPage, raw: &'a str, max: u16) -> (r: (
    Option<u16>,
    &'a str,
))
    ensures
        (r.0, r.1@) == source_line(page.deep_view(), raw@, max),
{
    if page.layout.used_positioned_reconstruction {
        let ghost rows = page.deep_view().visual_rows;
        let t = trim(raw);
        for i in 0..page.visual_rows.len()
            invariant
                rows == page.visual_rows.deep_view(),
                t@ == trimmed(raw@),
                page.layout.used_positioned_reconstruction,
                matching_row(rows, raw@, i as int) == matching_row(rows, raw@, 0),
        {
            assert(rows[i as int] == page.visual_rows@[i as int].deep_view());
            if same(trim(page.visual_rows[i].text.as_str()), t) {
                return match page.visual_rows[i].line_number {
                    Some(number) => {
                        let limit = if max < number {
                            number
                        } else {
                            max
                        };
                        let (parsed, body) = parse_numbered_line(t, limit);
                        if parsed == Some(number) {
                            (Some(number), body)
                        } else {
                            (Some(number), raw)
                        }
                    },
                    None => (None, raw),
                };
            }
        }
    }
    if has_line_number_convention(page, max) {
        parse_numbered_line(trim(raw), max)
    } else {
        (None, raw)
    }
}

// ---------------------------------------------------------------------------
// Page labels
// ---------------------------------------------------------------------------

/// The number of a page label such as "PAGE 12".
pub open spec fn marked_page(text: Seq<char>) -> Option<u32> {
    match after_prefix(uppercased(trimmed(text)), "PAGE "@) {
        Some(rest) => parsed_u32(trimmed(rest)),
        None => None,
    }
}

pub fn explicit_page_marker(text: &str) -> (r: Option<u32>)
    ensures
        r == marked_page(text@),
{
    let upper = to_upper(trim(text));
    match strip_prefix(upper.as_str(), "PAGE ") {
        Some(rest) => parse_u32(trim(rest)),
        None => None,
    }
}

/// The number that a text of up to seven digits stands for.
pub open spec fn numeric_page(text: Seq<char>) -> Option<u32> {
    let t = trimmed(text);
    if t.len() == 0 || byte_len(t) > 7 || !all_within(t, CharClass::Digit) {
        None
    } else {
        parsed_u32(t)
    }
}

pub fn pure_numeric_page(text: &str) -> (r: Option<u32>)
    ensures
        r == numeric_page(text@),
{
    let t = trim(text);
    if t.is_empty() || len_bytes(t) > 7 || !all_chars(t, CharClass::Digit) {
        return None;
    }
    parse_u32(t)
}

/// Whether a line near the top of a page repeats the page's label.
pub open spec fn page_header(content: Seq<char>, label: Option<Seq<char>>, index: nat) -> bool {
    index < 8 && match label {
        Some(text) => match parsed_u32(text) {
            Some(expected) => match marked_page(content) {
                Some(page) => page == expected,
                None => numeric_page(content) == Some(expected),
            },
            None => false,
        },
        None => false,
    }
}

pub fn is_page_header_content(
    content: &str,
    transcript_page: &Option<String>,
    logical_index: usize,
) -> (r: bool)
    ensures
        r == page_header(content@, transcript_page.deep_view(), logical_index as nat),
{
    if logical_index >= 8 {
        return false;
    }
    match transcript_page {
        Some(text) => match parse_u32(text.as_str()) {
            Some(expected) => match explicit_page_marker(content) {
                Some(page) => page == expected,
                None => pure_numeric_page(content) == Some(expected),
            },
            None => false,
        },
        None => false,
    }
}

/// The first printed page among the rows from `from` on.
pub open spec fn printed_label(rows: Seq<VisualRowView>, from: int) -> Option<Seq<char>>
    decreases rows.len() - from,
{
    if from < 0 || from >= rows.len() {
        None
    } else if rows[from].printed_page is Some {
        rows[from].printed_page
    } else {
        printed_label(rows, from + 1)
    }
}

/// The page number that a row carries outside the gutter.
pub open spec fn row_page(row: VisualRowView) -> Option<u32> {
    if row.line_number is Some {
        None
    } else {
        match marked_page(row.text) {
            Some(n) => Some(n),
            None => numeric_page(row.text),
        }
    }
}

fn page_of_row(row: &VisualRow) -> (r: Option<u32>)
    ensures
        r == row_page(row.deep_view()),
{
    if row.line_number.is_some() {
        return None;
    }
    match explicit_page_marker(row.text.as_str()) {
        Some(n) => Some(n),
        None => pure_numeric_page(row.text.as_str()),
    }
}

/// The first page number among the rows at the edges of a page, from the `k`th on: the first
/// three from the top, then the last three from the bottom.
pub open spec fn edge_label(rows: Seq<VisualRowView>, k: int) -> Option<u32>
    decreases 6 - k,
{
    let edge = if rows.len() < 3 {
        rows.len() as int
    } else {
        3
    };
    if k < 0 || k >= 2 * edge {
        None
    } else {
        let i = if k < edge {
            k
        } else {
            rows.len() - 1 - (k - edge)
        };
        match row_page(rows[i]) {
            Some(n) => Some(n),
            None => edge_label(rows, k + 1),
        }
    }
}

fn find_edge_label(rows: &Vec<VisualRow>) -> (r: Option<u32>)
    ensures
        r == edge_label(rows.deep_view(), 0),
{
    let ghost view = rows.deep_view();
    let len = rows.len();
    let edge: usize = if len < 3 {
        len
    } else {
        3
    };
    for k in 0..2 * edge
        invariant
            view == rows.deep_view(),
            len == rows@.len(),
            edge == if len < 3 {
                len
            } else {
                3
            },
            edge_label(view, k as int) == edge_label(view, 0),
    {
        let i: usize = if k < edge {
            k
        } else {
            len - 1 - (k - edge)
        };
        assert(view[i as int] == rows@[i as int].deep_view());
        let found = page_of_row(&rows[i]);
        if found.is_some() {
            return found;
        }
    }
    None
}

/// How much speaks for a number being the label of its page: how it is written, where it
/// stands among the lines of the page, and which page came before.
pub open spec fn label_score(
    page: ExtractedPageView,
    max: u16,
    previous: Option<u32>,
    index: int,
    line_number: Option<u16>,
    content: Seq<char>,
    number: u32,
) -> int {
    (if byte_len(content) >= 3 && starts_with_char(content, '0') {
        100int
    } else {
        0
    }) + (if line_number is None && index < 5 && number > max {
        80int
    } else {
        0
    }) + (if previous is Some && number == previous->0 + 1 && index < 5 {
        80int
    } else {
        0
    }) + (if index == 0 && line_number is None && numbers_lines(page, max) {
        80int
    } else {
        0
    }) + (if index < 5 {
        10int
    } else {
        0
    })
}

fn score_label(
    page: &ExtractedPage,
    max: u16,
    previous: Option<u32>,
    index: usize,
    line_number: Option<u16>,
    content: &str,
    number: u32,
) -> (score: i32)
    ensures
        score == label_score(
            page.deep_view(),
            max,
            previous,
            index as int,
            line_number,
            content@,
            number,
        ),
        0 <= score <= 350,
{
    let mut score: i32 = 0;
    if len_bytes(content) >= 3 && begins(content, '0') {
        score += 100;
    }
    if line_number.is_none() && index < 5 && number > max as u32 {
        score += 80;
    }
    match previous {
        Some(before) => {
            if number as u64 == before as u64 + 1 && index < 5 {
                score += 80;
            }
        },
        None => {},
    }
    if index == 0 && line_number.is_none() && has_line_number_convention(page, max) {
        score += 80;
    }
    if index < 5 {
        score += 10;
    }
    score
}

/// The lines among the first `n` that are not blank.
pub open spec fn nonblank_lines(list: Seq<Seq<char>>, n: int) -> Seq<Seq<char>>
    decreases n,
{
    if n <= 0 {
        seq![]
    } else if blank(list[n - 1]) {
        nonblank_lines(list, n - 1)
    } else {
        nonblank_lines(list, n - 1).push(list[n - 1])
    }
}

/// The lines of a text that are not blank.
pub open spec fn text_rows(text: Seq<char>) -> Seq<Seq<char>> {
    nonblank_lines(lines_of(text), lines_of(text).len() as int)
}

/// Computes [`text_rows`].
pub fn rows_of_text(text: &str) -> (r: Vec<String>)
    ensures
        r.deep_view() == text_rows(text@),
{
    let list = lines(text);
    let mut r: Vec<String> = Vec::new();
    assert(r.deep_view() =~= seq![]);
    for i in 0..list.len()
        invariant
            list.deep_view() == lines_of(text@),
            r.deep_view() == nonblank_lines(lines_of(text@), i as int),
    {
        assert(list.deep_view()[i as int] == list@[i as int]@);
        if !is_blank(list[i].as_str()) {
            push_item(&mut r, list[i].clone());
        }
    }
    r
}

/// The label found among the rows of a page from `index` on, given the best scored number
/// so far: an explicit label at once, else the best scored of the first ten rows if its
/// score reaches eighty.
pub open spec fn scanned_label(
    page: ExtractedPageView,
    max: u16,
    previous: Option<u32>,
    rows: Seq<Seq<char>>,
    index: int,
    best: Option<(int, u32)>,
) -> Option<u32>
    decreases 10 - index,
{
    if index < 0 || index >= 10 || index >= rows.len() {
        match best {
            Some((score, number)) => if score >= 80 {
                Some(number)
            } else {
                None
            },
            None => None,
        }
    } else {
        let (line_number, body) = source_line(page, trimmed(rows[index]), max);
        let content = trimmed(body);
        match marked_page(content) {
            Some(number) => Some(number),
            None => match numeric_page(content) {
                Some(number) => {
                    let score = label_score(
                        page,
                        max,
                        previous,
                        index,
                        line_number,
                        content,
                        number,
                    );
                    let better = best matches Some((best_score, _)) ==> best_score < score;
                    scanned_label(
                        page,
                        max,
                        previous,
                        rows,
                        index + 1,
                        if better {
                            Some((score, number))
                        } else {
                            best
                        },
                    )
                },
                None => scanned_label(page, max, previous, rows, index + 1, best),
            },
        }
    }
}

fn scan_label(page: &ExtractedPage, max: u16, previous: Option<u32>) -> (r: Option<u32>)
    ensures
        r == scanned_label(
            page.deep_view(),
            max,
            previous,
            text_rows(page.deep_view().text),
            0,
            None,
        ),
{
    let rows = rows_of_text(page.text.as_str());
    let ghost view = rows.deep_view();
    let mut best: Option<(i32, u32)> = None;
    let mut index: usize = 0;
    while index < 10 && index < rows.len()
        invariant
            view == rows.deep_view(),
            view == text_rows(page.deep_view().text),
            index <= 10,
            index <= view.len(),
            scanned_label(
                page.deep_view(),
                max,
                previous,
                view,
                index as int,
                match best {
                    Some((score, number)) => Some((score as int, number)),
                    None => None,
                },
            ) == scanned_label(page.deep_view(), max, previous, view, 0, None),
        decreases 10 - index,
    {
        assert(view[index as int] == rows@[index as int]@);
        let (line_number, body) = parse_source_line(page, trim(rows[index].as_str()), max);
        let content = trim(body);
        let marked = explicit_page_marker(content);
        if marked.is_some() {
            return marked;
        }
        match pure_numeric_page(content) {
            Some(number) => {
                let score = score_label(page, max, previous, index, line_number, content, number);
                let better = match best {
                    Some((best_score, _)) => best_score < score,
                    None => true,
                };
                if better {
                    best = Some((score, number));
                }
            },
            None => {},
        }
        index += 1;
    }
    match best {
        Some((score, number)) => if score >= 80 {
            Some(number)
        } else {
            None
        },
        None => None,
    }
}

/// Whether a page shows several transcript pages side by side.
pub open spec fn has_panels(rows: Seq<VisualRowView>) -> bool {
    exists|i: int| 0 <= i < rows.len() && (#[trigger] rows[i]).panel > 0
}

/// The label printed on a page.
pub open spec fn transcript_label(page: ExtractedPageView, max: u16, previous: Option<u32>) -> Option<
    Seq<char>,
> {
    let rows = page.visual_rows;
    let positioned = page.layout.used_positioned_reconstruction && page.layout.numbered_row_count
        >= 4;
    if has_panels(rows) {
        None
    } else if printed_label(rows, 0) is Some {
        printed_label(rows, 0)
    } else if positioned && edge_label(rows, 0) is Some {
        Some(decimal(edge_label(rows, 0)->0 as nat))
    } else {
        match scanned_label(page, max, previous, text_rows(page.text), 0, None) {
            Some(number) => Some(decimal(number as nat)),
            None => None,
        }
    }
}

pub fn detect_transcript_page_label(
    page: &ExtractedPage,
    profile: &TranscriptProfile,
    previous_page: Option<u32>,
) -> (r: Option<String>)
    ensures
        r.deep_view() == transcript_label(
            page.deep_view(),
            profile.deep_view().max_line_number,
            previous_page,
        ),
{
    let ghost rows = page.deep_view().visual_rows;
    for i in 0..page.visual_rows.len()
        invariant
            rows == page.visual_rows.deep_view(),
            forall|j: int| 0 <= j < i ==> (#[trigger] rows[j]).panel == 0,
    {
        assert(rows[i as int] == page.visual_rows@[i as int].deep_view());
        if page.visual_rows[i].panel > 0 {
            return None;
        }
    }
    for i in 0..page.visual_rows.len()
        invariant
            rows == page.visual_rows.deep_view(),
            !has_panels(rows),
            printed_label(rows, i as int) == printed_label(rows, 0),
    {
        assert(rows[i as int] == page.visual_rows@[i as int].deep_view());
        if page.visual_rows[i].printed_page.is_some() {
            return clone_option(&page.visual_rows[i].printed_page);
        }
    }
    if page.layout.used_positioned_reconstruction && page.layout.numbered_row_count >= 4 {
        match find_edge_label(&page.visual_rows) {
            Some(number) => {
                return Some(decimal_string(number as u64));
            },
            None => {},
        }
    }
    match scan_label(page, profile.max_line_number, previous_page) {
        Some(number) => Some(decimal_string(number as u64)),
        None => None,
    }
}

// ---------------------------------------------------------------------------
// What counts as a number
// ---------------------------------------------------------------------------

proof fn lemma_digits_in_front(n: nat, rest: Seq<char>)
    requires
        rest.len() > 0 ==> !('0' <= rest[0] <= '9'),
    ensures
        run_end(decimal(n) + rest, CharClass::Digit, 0) == decimal(n).len(),
        (decimal(n) + rest).subrange(0, decimal(n).len() as int) == decimal(n),
        (decimal(n) + rest).subrange(decimal(n).len() as int, (decimal(n) + rest).len() as int)
            == rest,
{
    let d = decimal(n);
    let line = d + rest;
    lemma_decimal_is_digits(n);
    assert forall|i: int| 0 <= i < d.len() implies within(CharClass::Digit, #[trigger] line[i]) by {
        assert(line[i] == d[i]);
    }
    assert(rest.len() > 0 ==> line[d.len() as int] == rest[0]);
    lemma_run_end_is(line, CharClass::Digit, 0, d.len() as int);
    assert(line.subrange(0, d.len() as int) =~= d);
    assert(line.subrange(d.len() as int, line.len() as int) =~= rest);
}

/// A number in front of a line is its line number where it is from 1 up to the largest that there
/// can be, and white space, a colon or a punctuated marker follows it, or nothing. A number above
/// that, zero, or one that runs into other text stays part of the line.
pub proof fn law_numbers_in_front_of_lines(n: nat, rest: Seq<char>, max: u16)
    requires
        rest.len() > 0 ==> !('0' <= rest[0] <= '9'),
    ensures
        ({
            let line = decimal(n) + rest;
            let set_off = rest.len() == 0 || is_space(rest[0]) || rest[0] == ':' || (rest.len() >= 2
                && (rest[0] == 'Q' || rest[0] == 'A') && (rest[1] == '.' || rest[1] == ':'));
            &&& 0 < n <= max && set_off ==> numbered_line(line, max).0 == Some(n as u16)
            &&& 0 < n <= max && set_off && (rest.len() == 0 || rest[0] != ':') ==> numbered_line(
                line,
                max,
            ).1 == start_trimmed(rest)
            &&& !(0 < n <= max && set_off) ==> numbered_line(line, max) == (None::<u16>, line)
        }),
{
    reveal_strlit("Q.");
    reveal_strlit("A.");
    reveal_strlit("Q:");
    reveal_strlit("A:");
    lemma_digits_in_front(n, rest);
    lemma_decimal_is_digits(n);
    crate::number::lemma_decimal_value(n);
    if n <= 0xffff {
        lemma_decimal_parsed(n, 0xffff);
    }
    assert(is_digit(decimal(n)[0])) by {
        assert(within(CharClass::Digit, decimal(n)[0]));
    }
    if rest.len() > 0 && rest[0] != ':' {
        lemma_run_end_is(rest, CharClass::Is(':'), 0, 0);
    }
    assert(rest.subrange(0, rest.len() as int) =~= rest);
    let marked = rest.len() >= 2 && (rest[0] == 'Q' || rest[0] == 'A') && (rest[1] == '.' || rest[1]
        == ':');
    assert(marked == opens_with_marker(rest)) by {
        if rest.len() >= 2 {
            let two = rest.subrange(0, 2);
            assert(two[0] == rest[0] && two[1] == rest[1]);
            assert(two == "Q."@ <==> rest[0] == 'Q' && rest[1] == '.') by {
                if rest[0] == 'Q' && rest[1] == '.' {
                    assert(two =~= "Q."@);
                }
            }
            assert(two == "A."@ <==> rest[0] == 'A' && rest[1] == '.') by {
                if rest[0] == 'A' && rest[1] == '.' {
                    assert(two =~= "A."@);
                }
            }
            assert(two == "Q:"@ <==> rest[0] == 'Q' && rest[1] == ':') by {
                if rest[0] == 'Q' && rest[1] == ':' {
                    assert(two =~= "Q:"@);
                }
            }
            assert(two == "A:"@ <==> rest[0] == 'A' && rest[1] == ':') by {
                if rest[0] == 'A' && rest[1] == ':' {
                    assert(two =~= "A:"@);
                }
            }
        }
    }
}

/// A line that no digit opens has no line number.
pub proof fn law_lines_without_digits_have_no_number(line: Seq<char>, max: u16)
    requires
        line.len() > 0 ==> !('0' <= line[0] <= '9'),
    ensures
        numbered_line(line, max) == (None::<u16>, line),
{
    lemma_run_end_is(line, CharClass::Digit, 0, 0);
    assert(line.subrange(0, 0) =~= seq![]);
}

proof fn lemma_candidate_is_listed(list: Seq<Seq<char>>, max: u16, n: int, i: int)
    requires
        0 <= i < n <= list.len(),
        numbered_line(trimmed(list[i]), max).0 is Some,
    ensures
        exists|k: int|
            0 <= k < gutter_candidates(list, max, n).len() && #[trigger] gutter_candidates(
                list,
                max,
                n,
            )[k] == (
                numbered_line(trimmed(list[i]), max).0->0,
                numbered_line(trimmed(list[i]), max).1,
            ),
    decreases n,
{
    let all = gutter_candidates(list, max, n);
    let before = gutter_candidates(list, max, n - 1);
    let wanted = (
        numbered_line(trimmed(list[i]), max).0->0,
        numbered_line(trimmed(list[i]), max).1,
    );
    if i == n - 1 {
        assert(all[all.len() - 1] == wanted);
    } else {
        lemma_candidate_is_listed(list, max, n - 1, i);
        let k = choose|k: int| 0 <= k < before.len() && #[trigger] before[k] == wanted;
        assert(all[k] == wanted);
    }
}

/// A page whose layout was recovered numbers its lines where any row is numbered. On any other
/// page one number in front of a punctuated marker is enough.
pub proof fn law_numbered_markers_prove_the_gutter(page: ExtractedPageView, max: u16, i: int)
    ensures
        page.layout.used_positioned_reconstruction ==> numbers_lines(page, max) == (
        page.layout.numbered_row_count > 0),
        ({
            let (number, body) = numbered_line(trimmed(lines_of(page.text)[i]), max);
            !page.layout.used_positioned_reconstruction && 0 <= i < lines_of(page.text).len()
                && number is Some && (has_prefix(body, "Q."@) || has_prefix(body, "A."@)
                || has_prefix(body, "Q:"@) || has_prefix(body, "A:"@)) ==> numbers_lines(page, max)
        }),
{
    let list = lines_of(page.text);
    if !page.layout.used_positioned_reconstruction && 0 <= i < list.len() {
        let (number, body) = numbered_line(trimmed(list[i]), max);
        if number is Some && opens_with_marker(body) {
            lemma_candidate_is_listed(list, max, list.len() as int, i);
            let candidates = gutter_candidates(list, max, list.len() as int);
            let k = choose|k: int| 0 <= k < candidates.len() && #[trigger] candidates[k] == (
                number->0,
                body,
            );
            assert(opens_with_marker(candidates[k].1));
        }
    }
}

proof fn lemma_matching_row(rows: Seq<VisualRowView>, raw: Seq<char>, from: int)
    requires
        0 <= from <= rows.len(),
    ensures
        from <= matching_row(rows, raw, from) <= rows.len(),
        forall|k: int|
            from <= k < matching_row(rows, raw, from) ==> trimmed((#[trigger] rows[k]).text)
                != trimmed(raw),
        matching_row(rows, raw, from) < rows.len() ==> trimmed(
            rows[matching_row(rows, raw, from)].text,
        ) == trimmed(raw),
    decreases rows.len() - from,
{
    if from < rows.len() && trimmed(rows[from].text) != trimmed(raw) {
        lemma_matching_row(rows, raw, from + 1);
    }
}

/// Where the layout recovered the rows of a page, a line has the number of the first row that
/// reads like it, and none where that row has none; a number is taken off the line only where the
/// line shows it. A line without such a row, and a line of any other page, is taken apart where the
/// page numbers its lines, and stays whole where it does not.
pub proof fn law_layout_numbers_lines(page: ExtractedPageView, raw: Seq<char>, max: u16, i: int)
    ensures
        ({
            let rows = page.visual_rows;
            let (number, body) = source_line(page, raw, max);
            let read = 0 <= i < rows.len() && trimmed(rows[i].text) == trimmed(raw) && forall|k: int|
                0 <= k < i ==> trimmed((#[trigger] rows[k]).text) != trimmed(raw);
            let unread = forall|k: int|
                0 <= k < rows.len() ==> trimmed((#[trigger] rows[k]).text) != trimmed(raw);
            let positioned = page.layout.used_positioned_reconstruction;
            &&& positioned && read ==> number == rows[i].line_number
            &&& positioned && read && number is None ==> body == raw
            &&& positioned && read && number is Some && numbered_line(
                trimmed(raw),
                if max < number->0 {
                    number->0
                } else {
                    max
                },
            ).0 != number ==> body == raw
            &&& positioned && read && number is Some && numbered_line(
                trimmed(raw),
                if max < number->0 {
                    number->0
                } else {
                    max
                },
            ).0 == number ==> body == numbered_line(
                trimmed(raw),
                if max < number->0 {
                    number->0
                } else {
                    max
                },
            ).1
            &&& (!positioned || unread) && numbers_lines(page, max) ==> (number, body)
                == numbered_line(trimmed(raw), max)
            &&& (!positioned || unread) && !numbers_lines(page, max) ==> number is None && body
                == raw
        }),
{
    lemma_matching_row(page.visual_rows, raw, 0);
}

/// A page label reads "PAGE" and a number.
pub proof fn law_page_labels_are_read(n: nat)
    requires
        n <= u32::MAX,
    ensures
        marked_page("PAGE "@ + decimal(n)) == Some(n as u32),
{
    reveal_strlit("PAGE ");
    let d = decimal(n);
    let label = "PAGE "@ + d;
    lemma_decimal_is_digits(n);
    lemma_decimal_parsed(n, 0xffff_ffff);
    assert forall|i: int| 0 <= i < d.len() implies is_digit(#[trigger] d[i]) by {
        assert(within(CharClass::Digit, d[i]));
    }
    assert(label[0] == 'P');
    assert(label.last() == d.last());
    assert(is_digit(d[d.len() - 1]));
    lemma_solid_ends(label);
    lemma_solid_ends(d);
    assert(uppercased(label) =~= label);
    assert(label.subrange(0, 5) =~= "PAGE "@);
    assert(label.subrange(5, label.len() as int) =~= d);
}

proof fn lemma_solid_ends(s: Seq<char>)
    requires
        s.len() > 0,
        !is_space(s[0]),
        !is_space(s.last()),
    ensures
        trimmed(s) == s,
{
    lemma_run_end_is(s, CharClass::Space, 0, 0);
    crate::scan::lemma_run_start_is(s, CharClass::Space, s.len() as int, s.len() as int);
    assert(s.subrange(0, s.len() as int) =~= s);
}

/// A page with several transcript pages side by side has no label of its own. Else the first label
/// that the layout recovered counts, and before any is read off the text.
pub proof fn law_printed_labels_come_first(
    page: ExtractedPageView,
    max: u16,
    previous: Option<u32>,
    i: int,
)
    requires
        0 <= i < page.visual_rows.len(),
    ensures
        page.visual_rows[i].panel > 0 ==> transcript_label(page, max, previous) is None,
        (forall|k: int| 0 <= k < page.visual_rows.len() ==> (#[trigger] page.visual_rows[k]).panel
            == 0) && page.visual_rows[i].printed_page is Some && (forall|k: int|
            0 <= k < i ==> (#[trigger] page.visual_rows[k]).printed_page is None)
            ==> transcript_label(page, max, previous) == page.visual_rows[i].printed_page,
{
    let rows = page.visual_rows;
    if rows[i].panel > 0 {
        assert(has_panels(rows));
    }
    if rows[i].printed_page is Some && forall|k: int|
        0 <= k < i ==> (#[trigger] rows[k]).printed_page is None {
        lemma_printed_label(rows, 0, i);
    }
}

proof fn lemma_printed_label(rows: Seq<VisualRowView>, from: int, i: int)
    requires
        0 <= from <= i < rows.len(),
        rows[i].printed_page is Some,
        forall|k: int| 0 <= k < i ==> (#[trigger] rows[k]).printed_page is None,
    ensures
        printed_label(rows, from) == rows[i].printed_page,
    decreases i - from,
{
    if from < i {
        lemma_printed_label(rows, from + 1, i);
    }
}

proof fn lemma_text_rows(list: Seq<Seq<char>>, n: int)
    requires
        0 <= n <= list.len(),
    ensures
        nonblank_lines(list, n) == list.take(n).filter(|line: Seq<char>| trimmed(line).len() > 0),
    decreases n,
{
    lemma_filter_first(list, |line: Seq<char>| trimmed(line).len() > 0, n);
    if n > 0 {
        lemma_text_rows(list, n - 1);
    }
}

/// The rows of a text are all of its lines but the blank ones, in their order.
pub proof fn law_text_rows_are_the_filled_lines(text: Seq<char>)
    ensures
        text_rows(text) == lines_of(text).filter(|line: Seq<char>| trimmed(line).len() > 0),
{
    let list = lines_of(text);
    lemma_text_rows(list, list.len() as int);
    assert(list.take(list.len() as int) =~= list);
}

/// A row near the top of a page repeats its label where it shows the same number, by itself or
/// behind "PAGE".
pub proof fn law_page_headers_repeat_the_label(
    content: Seq<char>,
    label: Option<Seq<char>>,
    index: nat,
)
    ensures
        page_header(content, label, index) ==> index < 8 && label is Some && parsed_u32(
            label->0,
        ) is Some && (marked_page(content) == parsed_u32(label->0) || numeric_page(content)
            == parsed_u32(label->0)),
        index < 8 && label is Some && parsed_u32(label->0) is Some && marked_page(content)
            == parsed_u32(label->0) ==> page_header(content, label, index),
        index < 8 && label is Some && parsed_u32(label->0) is Some && marked_page(content) is None
            && numeric_page(content) == parsed_u32(label->0) ==> page_header(content, label, index),
{
}

/// The numbered lines of a page are gathered in order, and it is counted how often a number is above
/// the one before it.
pub proof fn law_numbered_lines_are_gathered(
    list: Seq<Seq<char>>,
    max: u16,
    candidates: Seq<(u16, Seq<char>)>,
    n: int,
)
    requires
        0 <= n,
    ensures
        gutter_candidates(list, max, 0).len() == 0,
        rises(candidates, 0) == 0 && rises(candidates, 1) == 0,
        n < list.len() ==> ({
            let (number, body) = numbered_line(trimmed(list[n]), max);
            &&& number is Some ==> gutter_candidates(list, max, n + 1) == gutter_candidates(
                list,
                max,
                n,
            ).push((number->0, body))
            &&& number is None ==> gutter_candidates(list, max, n + 1) == gutter_candidates(
                list,
                max,
                n,
            )
        }),
        0 < n < candidates.len() && candidates[n].0 > candidates[n - 1].0 ==> rises(
            candidates,
            n + 1,
        ) == rises(candidates, n) + 1,
        0 < n < candidates.len() && candidates[n].0 <= candidates[n - 1].0 ==> rises(
            candidates,
            n + 1,
        ) == rises(candidates, n),
{
}

/// Without a marker behind a number, a page whose layout was not recovered numbers its lines where
/// three or more lines are numbered and at least half of the steps between them rise.
pub proof fn law_rising_numbers_prove_the_gutter(page: ExtractedPageView, max: u16)
    requires
        !page.layout.used_positioned_reconstruction,
    ensures
        ({
            let list = lines_of(page.text);
            let found = gutter_candidates(list, max, list.len() as int);
            let marked = exists|i: int|
                0 <= i < found.len() && (has_prefix((#[trigger] found[i]).1, "Q."@) || has_prefix(
                    found[i].1,
                    "A."@,
                ) || has_prefix(found[i].1, "Q:"@) || has_prefix(found[i].1, "A:"@));
            numbers_lines(page, max) <==> marked || (found.len() >= 3 && 2 * rises(
                found,
                found.len() as int,
            ) + 1 >= found.len())
        }),
{
    let list = lines_of(page.text);
    let found = gutter_candidates(list, max, list.len() as int);
    if exists|i: int| 0 <= i < found.len() && opens_with_marker((#[trigger] found[i]).1) {
        let i = choose|i: int| 0 <= i < found.len() && opens_with_marker((#[trigger] found[i]).1);
        assert(opens_with_marker(found[i].1));
    }
    if exists|i: int|
        0 <= i < found.len() && (has_prefix((#[trigger] found[i]).1, "Q."@) || has_prefix(
            found[i].1,
            "A."@,
        ) || has_prefix(found[i].1, "Q:"@) || has_prefix(found[i].1, "A:"@)) {
        let i = choose|i: int|
            0 <= i < found.len() && (has_prefix((#[trigger] found[i]).1, "Q."@) || has_prefix(
                found[i].1,
                "A."@,
            ) || has_prefix(found[i].1, "Q:"@) || has_prefix(found[i].1, "A:"@));
        assert(opens_with_marker(found[i].1));
    }
}

/// A number that stands alone can be that of a page where it has one to seven digits and nothing
/// else.
pub proof fn law_numbers_alone_can_be_pages(text: Seq<char>)
    ensures
        ({
            let t = trimmed(text);
            let digits = forall|i: int|
                0 <= i < t.len() ==> '0' <= (#[trigger] t[i]) && t[i] <= '9';
            &&& t.len() > 0 && byte_len(t) <= 7 && digits ==> numeric_page(text) == parsed_u32(t)
            &&& t.len() == 0 || byte_len(t) > 7 || !digits ==> numeric_page(text) is None
        }),
{
    let t = trimmed(text);
    assert(all_within(t, CharClass::Digit) <==> forall|i: int|
        0 <= i < t.len() ==> '0' <= (#[trigger] t[i]) && t[i] <= '9') by {
        if all_within(t, CharClass::Digit) {
            assert forall|i: int| 0 <= i < t.len() implies '0' <= (#[trigger] t[i]) && t[i]
                <= '9' by {
                assert(within(CharClass::Digit, t[i]));
            }
        }
    }
}

/// A row outside the gutter carries a page number where it reads "PAGE" and a number, or a number
/// alone; a numbered row carries none.
pub proof fn law_rows_carry_page_numbers(row: VisualRowView)
    ensures
        row.line_number is Some ==> row_page(row) is None,
        row.line_number is None && marked_page(row.text) is Some ==> row_page(row) == marked_page(
            row.text,
        ),
        row.line_number is None && marked_page(row.text) is None ==> row_page(row) == numeric_page(
            row.text,
        ),
{
}

proof fn lemma_edge_label(rows: Seq<VisualRowView>, k: int)
    requires
        rows.len() >= 6,
        0 <= k <= 6,
    ensures
        ({
            let row = |i: int|
                if i < 3 {
                    rows[i]
                } else {
                    rows[rows.len() - 1 - (i - 3)]
                };
            &&& k == 6 ==> edge_label(rows, k) is None
            &&& k < 6 && row_page(row(k)) is Some ==> edge_label(rows, k) == row_page(row(k))
            &&& k < 6 && row_page(row(k)) is None ==> edge_label(rows, k) == edge_label(
                rows,
                k + 1,
            )
        }),
{
}

/// The page number at the edges of a page is the first that one of its first three rows carries,
/// from the top, or else the first that one of its last three does, from the bottom.
pub proof fn law_page_numbers_stand_at_the_edges(rows: Seq<VisualRowView>)
    requires
        rows.len() >= 6,
    ensures
        ({
            let n = rows.len();
            let at = |i: int| row_page(rows[i]);
            edge_label(rows, 0) == if at(0) is Some {
                at(0)
            } else if at(1) is Some {
                at(1)
            } else if at(2) is Some {
                at(2)
            } else if at(n - 1) is Some {
                at(n - 1)
            } else if at(n - 2) is Some {
                at(n - 2)
            } else {
                at(n - 3)
            }
        }),
{
    lemma_edge_label(rows, 0);
    lemma_edge_label(rows, 1);
    lemma_edge_label(rows, 2);
    lemma_edge_label(rows, 3);
    lemma_edge_label(rows, 4);
    lemma_edge_label(rows, 5);
    lemma_edge_label(rows, 6);
}

/// What speaks for a number being the label of its page: zeros in front of it, standing outside the
/// gutter near the top above what lines are numbered by, following the page before near the top,
/// and standing first on a page with a gutter; standing near the top speaks a little for it.
pub proof fn law_labels_are_scored(
    page: ExtractedPageView,
    max: u16,
    previous: Option<u32>,
    index: int,
    line_number: Option<u16>,
    content: Seq<char>,
    number: u32,
)
    requires
        0 <= index,
    ensures
        ({
            let score = label_score(page, max, previous, index, line_number, content, number);
            let padded = byte_len(content) >= 3 && content.len() > 0 && content[0] == '0';
            let above = line_number is None && index <= 4 && number > max;
            let next = previous is Some && previous->0 + 1 == number && index <= 4;
            let first = index == 0 && line_number is None && numbers_lines(page, max);
            let points = |b: bool, n: int|
                if b {
                    n
                } else {
                    0int
                };
            &&& score == points(padded, 100) + points(above, 80) + points(next, 80) + points(
                first,
                80,
            ) + points(index <= 4, 10)
            &&& score >= 80 <==> padded || above || next || first
        }),
{
}

/// The label of a page is looked for in its first ten rows: a row that reads "PAGE" and a number
/// decides at once; else the number with the highest score does, the first of equals, if its score
/// reaches 80.
pub proof fn law_labels_are_looked_for(
    page: ExtractedPageView,
    max: u16,
    previous: Option<u32>,
    rows: Seq<Seq<char>>,
    index: int,
    best: Option<(int, u32)>,
)
    requires
        0 <= index,
    ensures
        ({
            let found = scanned_label(page, max, previous, rows, index, best);
            let over = index >= 10 || index >= rows.len();
            let (line_number, body) = source_line(page, trimmed(rows[index]), max);
            let content = trimmed(body);
            let explicit = marked_page(content);
            let alone = numeric_page(content);
            let score = label_score(
                page,
                max,
                previous,
                index,
                line_number,
                content,
                alone->0,
            );
            let next = |b: Option<(int, u32)>|
                scanned_label(page, max, previous, rows, index + 1, b);
            &&& over && best is None ==> found is None
            &&& over && best is Some && (best->0).0 >= 80 ==> found == Some((best->0).1)
            &&& over && best is Some && (best->0).0 < 80 ==> found is None
            &&& !over && explicit is Some ==> found == explicit
            &&& !over && explicit is None && alone is None ==> found == next(best)
            &&& !over && explicit is None && alone is Some && (best is None || score > (best->0).0)
                ==> found == next(Some((score, alone->0)))
            &&& !over && explicit is None && alone is Some && best is Some && score <= (best->0).0
                ==> found == next(best)
        }),
{
}

/// Without a printed label, a page whose layout was recovered with four numbered rows or more has
/// the page number at its edges; any other, and one without, the one found in its text.
pub proof fn law_labels_are_found(page: ExtractedPageView, max: u16, previous: Option<u32>)
    requires
        forall|k: int|
            0 <= k < page.visual_rows.len() ==> (#[trigger] page.visual_rows[k]).panel == 0,
        printed_label(page.visual_rows, 0) is None,
    ensures
        ({
            let label = transcript_label(page, max, previous);
            let positioned = page.layout.used_positioned_reconstruction
                && page.layout.numbered_row_count >= 4;
            let edge = edge_label(page.visual_rows, 0);
            let read = scanned_label(page, max, previous, text_rows(page.text), 0, None);
            &&& positioned && edge is Some ==> label == Some(decimal(edge->0 as nat))
            &&& !(positioned && edge is Some) && read is Some ==> label == Some(
                decimal(read->0 as nat),
            )
            &&& !(positioned && edge is Some) && read is None ==> label is None
        }),
{
}

} // verus!
