//! What the lines of a page say of the section that the page belongs to.
use vstd::prelude::*;

use crate::document::models::{
    ExtractedPage, ExtractedPageView, PageSection, SectionReason, SectionReasonView, VisualRowView,
};
use crate::measure::{reaches, Ratio};
use crate::number::{decimal, decimal_string, parse_u16, parsed_u16};
use crate::pieces::{first_word, lines, lines_of, split_at_first, split_once, words, words_of};
use crate::scan::{
    all_chars, all_within, contains, find_run_end, has_infix, has_prefix, run_end, start_trimmed,
    starts_with, strip, stripped, to_upper, trim, trim_start, trimmed, uppercased,
};
use crate::text::{char_within, chars_of, is_digit, lemma_filter_first, push_item, CharClass};
use crate::transcript::speaker::{
    colon_turn, split_colon_label, split_titled_speaker_prefix, titled_turn,
};

verus! {

// ---------------------------------------------------------------------------
// Lines
// ---------------------------------------------------------------------------

/// Whether a number can number a line of a page.
pub open spec fn numbers_a_line(n: u16) -> bool {
    1 <= n <= 50
}

/// The line number that a text leads with, as a word of its own.
pub open spec fn leading_number(text: Seq<char>) -> Option<u16> {
    match first_word(text) {
        Some(word) if word.len() > 0 && is_digit(word[0]) => match parsed_u16(word) {
            Some(n) if numbers_a_line(n) => Some(n),
            _ => None,
        },
        _ => None,
    }
}

pub fn leading_transcript_line_number(text: &str) -> (r: Option<u16>)
    ensures
        r == leading_number(text@),
{
    let list = words(text);
    if list.len() == 0 {
        return None;
    }
    assert(list.deep_view()[0] == list@[0]@);
    let word = list[0].as_str();
    if word.unicode_len() == 0 || !char_within(CharClass::Digit, word.get_char(0)) {
        return None;
    }
    match parse_u16(word) {
        Some(n) => if 1 <= n && n <= 50 {
            Some(n)
        } else {
            None
        },
        None => None,
    }
}

/// A line without the line number that it leads with, even where it closes up with it.
pub open spec fn unnumbered(text: Seq<char>) -> Seq<char> {
    let end = run_end(text, CharClass::Digit, 0);
    match parsed_u16(text.take(end)) {
        Some(n) if numbers_a_line(n) => start_trimmed(text.skip(end)),
        _ => text,
    }
}

pub fn strip_leading_line_number(text: &str) -> (r: &str)
    ensures
        r@ == unnumbered(text@),
{
    let v = chars_of(text);
    let end = find_run_end(&v, CharClass::Digit, 0);
    assert(v@.take(end as int) =~= v@.subrange(0, end as int));
    assert(v@.skip(end as int) =~= v@.subrange(end as int, v@.len() as int));
    match parse_u16(text.substring_char(0, end)) {
        Some(n) => if 1 <= n && n <= 50 {
            trim_start(text.substring_char(end, v.len()))
        } else {
            text
        },
        None => text,
    }
}

/// Whether a word cites a line of a page, such as `128:15`.
pub open spec fn citation(token: Seq<char>) -> bool {
    match split_at_first(stripped(token, CharClass::CitationEdge), ':') {
        Some((page, line)) => {
            &&& page.len() > 0
            &&& line.len() > 0
            &&& all_within(page, CharClass::Digit)
            &&& all_within(line, CharClass::Digit)
            &&& parsed_u16(line) is Some
            &&& numbers_a_line(parsed_u16(line)->0)
        },
        None => false,
    }
}

pub fn looks_like_page_line_citation(token: &str) -> (r: bool)
    ensures
        r == citation(token@),
{
    match split_once(strip(token, CharClass::CitationEdge), ':') {
        Some((page, line)) => {
            if page.is_empty() || line.is_empty() || !all_chars(page, CharClass::Digit)
                || !all_chars(line, CharClass::Digit) {
                return false;
            }
            match parse_u16(line) {
                Some(n) => 1 <= n && n <= 50,
                None => false,
            }
        },
        None => false,
    }
}

/// How many of the first `n` words are citations.
pub open spec fn citation_count(list: Seq<Seq<char>>, n: int) -> nat
    decreases n,
{
    if n <= 0 {
        0
    } else {
        citation_count(list, n - 1) + if citation(list[n - 1]) {
            1nat
        } else {
            0nat
        }
    }
}

/// How many citations a text holds.
pub open spec fn citations(text: Seq<char>) -> nat {
    citation_count(words_of(text), words_of(text).len() as int)
}

pub fn count_page_line_citations(text: &str) -> (r: usize)
    ensures
        r == citations(text@),
{
    let list = words(text);
    let mut r: usize = 0;
    for n in 0..list.len()
        invariant
            r <= n,
            r == citation_count(list.deep_view(), n as int),
    {
        assert(list.deep_view()[n as int] == list@[n as int]@);
        if looks_like_page_line_citation(list[n].as_str()) {
            r += 1;
        }
    }
    r
}

/// What a line can say of its page.
#[derive(Clone, Copy)]
pub enum LineSignal {
    /// Anything at all.
    Text,
    /// A line number stands in front.
    Numbered,
    /// A line is cited.
    Citation,
    /// A speaker is named in front.
    Speaker,
    /// A question or an answer is marked in front.
    Marker,
    /// An examiner is named.
    Examiner,
}

/// Whether a text in upper case opens a question or an answer.
pub open spec fn marker_in_front(u: Seq<char>) -> bool {
    ||| has_prefix(u, "Q."@)
    ||| has_prefix(u, "A."@)
    ||| has_prefix(u, "Q "@)
    ||| has_prefix(u, "A "@)
    ||| has_prefix(u, "Q:"@)
    ||| has_prefix(u, "A:"@)
    ||| has_prefix(u, "QUESTION:"@)
    ||| has_prefix(u, "ANSWER:"@)
}

/// Whether a line gives a signal.
pub open spec fn gives(line: Seq<char>, signal: LineSignal) -> bool {
    match signal {
        LineSignal::Text => trimmed(line).len() > 0,
        LineSignal::Numbered => leading_number(trimmed(line)) is Some,
        LineSignal::Citation => citations(line) > 0,
        LineSignal::Speaker => {
            let content = unnumbered(trimmed(line));
            colon_turn(content) is Some || titled_turn(content) is Some
        },
        LineSignal::Marker => marker_in_front(uppercased(start_trimmed(unnumbered(trimmed(line))))),
        LineSignal::Examiner => has_prefix(unnumbered(trimmed(line)), "BY "@),
    }
}

fn line_gives(line: &str, signal: LineSignal) -> (r: bool)
    ensures
        r == gives(line@, signal),
{
    match signal {
        LineSignal::Text => !trim(line).is_empty(),
        LineSignal::Numbered => leading_transcript_line_number(trim(line)).is_some(),
        LineSignal::Citation => count_page_line_citations(line) > 0,
        LineSignal::Speaker => {
            let content = strip_leading_line_number(trim(line));
            split_colon_label(content).is_some() || split_titled_speaker_prefix(content).is_some()
        },
        LineSignal::Marker => {
            let upper = to_upper(trim_start(strip_leading_line_number(trim(line))));
            let u = upper.as_str();
            starts_with(u, "Q.")
                || starts_with(u, "A.")
                || starts_with(u, "Q ")
                || starts_with(u, "A ")
                || starts_with(u, "Q:")
                || starts_with(u, "A:")
                || starts_with(u, "QUESTION:")
                || starts_with(u, "ANSWER:")
        },
        LineSignal::Examiner => starts_with(strip_leading_line_number(trim(line)), "BY "),
    }
}

/// How many of the first `n` lines give a signal.
pub open spec fn signal_count(list: Seq<Seq<char>>, signal: LineSignal, n: int) -> nat
    decreases n,
{
    if n <= 0 {
        0
    } else {
        signal_count(list, signal, n - 1) + if gives(list[n - 1], signal) {
            1nat
        } else {
            0nat
        }
    }
}

/// How many lines of a text give a signal.
pub open spec fn signals(text: Seq<char>, signal: LineSignal) -> nat {
    signal_count(lines_of(text), signal, lines_of(text).len() as int)
}

/// Computes [`signals`].
pub fn count_signals(text: &str, signal: LineSignal) -> (r: usize)
    ensures
        r == signals(text@, signal),
{
    let list = lines(text);
    let mut r: usize = 0;
    for n in 0..list.len()
        invariant
            r <= n,
            r == signal_count(list.deep_view(), signal, n as int),
    {
        assert(list.deep_view()[n as int] == list@[n as int]@);
        if line_gives(list[n].as_str(), signal) {
            r += 1;
        }
    }
    r
}

/// Whether lines with citations are frequent enough for an index: a fifth of the text.
pub open spec fn index_like(text: Seq<char>) -> bool {
    signals(text, LineSignal::Text) > 0 && signals(text, LineSignal::Citation) * 5 >= signals(
        text,
        LineSignal::Text,
    )
}

pub fn looks_index_like(text: &str) -> (r: bool)
    ensures
        r == index_like(text@),
{
    let all = count_signals(text, LineSignal::Text);
    let cited = count_signals(text, LineSignal::Citation);
    all > 0 && cited as u128 * 5 >= all as u128
}

pub fn count_speaker_prefixes(text: &str) -> (r: usize)
    ensures
        r == signals(text@, LineSignal::Speaker),
{
    count_signals(text, LineSignal::Speaker)
}

pub fn count_dialogue_markers(text: &str) -> (r: usize)
    ensures
        r == signals(text@, LineSignal::Marker),
{
    count_signals(text, LineSignal::Marker)
}

/// Whether a text has the structure of dialogue.
pub open spec fn dialogue_like(text: Seq<char>) -> bool {
    ||| signals(text, LineSignal::Speaker) >= 3
    ||| signals(text, LineSignal::Numbered) >= 5
    ||| signals(text, LineSignal::Marker) >= 4
}

pub fn looks_dialogue_like(text: &str) -> (r: bool)
    ensures
        r == dialogue_like(text@),
{
    count_speaker_prefixes(text) >= 3 || count_signals(text, LineSignal::Numbered) >= 5
        || count_dialogue_markers(text) >= 4
}

// ---------------------------------------------------------------------------
// Line numbers
// ---------------------------------------------------------------------------

/// The line numbers of the first `n` rows.
pub open spec fn row_numbers(rows: Seq<VisualRowView>, n: int) -> Seq<u16>
    decreases n,
{
    if n <= 0 {
        seq![]
    } else {
        match rows[n - 1].line_number {
            Some(k) => row_numbers(rows, n - 1).push(k),
            None => row_numbers(rows, n - 1),
        }
    }
}

/// The line numbers that the first `n` lines lead with.
pub open spec fn text_numbers(list: Seq<Seq<char>>, n: int) -> Seq<u16>
    decreases n,
{
    if n <= 0 {
        seq![]
    } else {
        match leading_number(trimmed(list[n - 1])) {
            Some(k) => text_numbers(list, n - 1).push(k),
            None => text_numbers(list, n - 1),
        }
    }
}

/// The line numbers of a page: those of its rows or, where it has none, of its text.
pub open spec fn numbers_of(page: ExtractedPageView) -> Seq<u16> {
    if page.visual_rows.len() > 0 {
        row_numbers(page.visual_rows, page.visual_rows.len() as int)
    } else {
        text_numbers(lines_of(page.text), lines_of(page.text).len() as int)
    }
}

pub fn numbered_rows_from_page(page: &ExtractedPage) -> (r: Vec<u16>)
    ensures
        r@ == numbers_of(page.deep_view()),
{
    let mut r: Vec<u16> = Vec::new();
    if page.visual_rows.len() > 0 {
        let ghost rows = page.deep_view().visual_rows;
        for n in 0..page.visual_rows.len()
            invariant
                rows == page.visual_rows.deep_view(),
                r@ == row_numbers(rows, n as int),
        {
            assert(rows[n as int] == page.visual_rows@[n as int].deep_view());
            match page.visual_rows[n].line_number {
                Some(k) => {
                    r.push(k);
                },
                None => {},
            }
        }
        return r;
    }
    let list = lines(page.text.as_str());
    for n in 0..list.len()
        invariant
            r@ == text_numbers(list.deep_view(), n as int),
    {
        assert(list.deep_view()[n as int] == list@[n as int]@);
        match leading_transcript_line_number(trim(list[n].as_str())) {
            Some(k) => {
                r.push(k);
            },
            None => {},
        }
    }
    r
}

/// A number and another one added, or the largest number.
pub open spec fn raised(n: u16, by: u16) -> u16 {
    if n + by > u16::MAX {
        u16::MAX
    } else {
        (n + by) as u16
    }
}

fn raise(n: u16, by: u16) -> (r: u16)
    ensures
        r == raised(n, by),
{
    if n > u16::MAX - by {
        u16::MAX
    } else {
        n + by
    }
}

/// Whether a line number follows another: directly, or with `slack` after at most four lines.
pub open spec fn follows(a: u16, b: u16, slack: bool) -> bool {
    if slack {
        a < b <= raised(a, 4)
    } else {
        b == raised(a, 1)
    }
}

/// How many of the first `n` line numbers follow the one before them.
pub open spec fn following(numbers: Seq<u16>, slack: bool, n: int) -> nat
    decreases n,
{
    if n <= 1 {
        0
    } else {
        following(numbers, slack, n - 1) + if follows(numbers[n - 2], numbers[n - 1], slack) {
            1nat
        } else {
            0nat
        }
    }
}

/// The part of line numbers after the first that follow the one before them.
pub open spec fn sequence_score(numbers: Seq<u16>, slack: bool) -> Ratio {
    if numbers.len() < 2 {
        Ratio { part: 0, whole: 1 }
    } else {
        Ratio {
            part: following(numbers, slack, numbers.len() as int) as usize,
            whole: (numbers.len() - 1) as usize,
        }
    }
}

fn score_sequence(numbers: &Vec<u16>, slack: bool) -> (r: Ratio)
    ensures
        r == sequence_score(numbers@, slack),
{
    let count = numbers.len();
    if count < 2 {
        return Ratio { part: 0, whole: 1 };
    }
    let mut good: usize = 0;
    for n in 0..count
        invariant
            count == numbers@.len(),
            good <= n,
            good == following(numbers@, slack, n as int),
    {
        if n > 0 {
            let a = numbers[n - 1];
            let b = numbers[n];
            if (slack && a < b && b <= raise(a, 4)) || (!slack && b == raise(a, 1)) {
                good += 1;
            }
        }
    }
    Ratio { part: good, whole: count - 1 }
}

pub fn sequential_line_score(numbers: &Vec<u16>) -> (r: Ratio)
    ensures
        r == sequence_score(numbers@, false),
{
    score_sequence(numbers, false)
}

pub fn tolerant_line_sequence_score(numbers: &Vec<u16>) -> (r: Ratio)
    ensures
        r == sequence_score(numbers@, true),
{
    score_sequence(numbers, true)
}

// ---------------------------------------------------------------------------
// Headings
// ---------------------------------------------------------------------------

/// A line as a heading: without line number and in upper case.
pub open spec fn heading_form(line: Seq<char>) -> Seq<char> {
    uppercased(trimmed(unnumbered(trimmed(line))))
}

/// The first lines of a page that can be headings, at most eight.
pub open spec fn heading_lines(list: Seq<Seq<char>>, n: int) -> Seq<Seq<char>>
    decreases n,
{
    if n <= 0 {
        seq![]
    } else {
        let before = heading_lines(list, n - 1);
        let line = heading_form(list[n - 1]);
        if before.len() < 8 && line.len() > 0 && !all_within(line, CharClass::Digit) {
            before.push(line)
        } else {
            before
        }
    }
}

/// The headings of a text.
pub open spec fn headings_of(text: Seq<char>) -> Seq<Seq<char>> {
    heading_lines(lines_of(text), lines_of(text).len() as int)
}

fn collect_headings(text: &str) -> (r: Vec<String>)
    ensures
        r.deep_view() == headings_of(text@),
{
    let list = lines(text);
    let mut r: Vec<String> = Vec::new();
    assert(r.deep_view() =~= seq![]);
    for n in 0..list.len()
        invariant
            r.deep_view() == heading_lines(list.deep_view(), n as int),
    {
        assert(list.deep_view()[n as int] == list@[n as int]@);
        if r.len() < 8 {
            let line = to_upper(trim(strip_leading_line_number(trim(list[n].as_str()))));
            if !line.as_str().is_empty() && !all_chars(line.as_str(), CharClass::Digit) {
                push_item(&mut r, line);
            }
        }
    }
    r
}

/// Whether a heading starts with a text.
pub open spec fn headed(list: Seq<Seq<char>>, prefix: Seq<char>) -> bool {
    exists|i: int| 0 <= i < list.len() && has_prefix(#[trigger] list[i], prefix)
}

fn has_heading(list: &Vec<String>, prefix: &str) -> (r: bool)
    ensures
        r == headed(list.deep_view(), prefix@),
{
    let ghost view = list.deep_view();
    for i in 0..list.len()
        invariant
            view == list.deep_view(),
            forall|j: int| 0 <= j < i ==> !has_prefix(#[trigger] view[j], prefix@),
    {
        assert(view[i as int] == list@[i as int]@);
        if starts_with(list[i].as_str(), prefix) {
            assert(has_prefix(view[i as int], prefix@));
            return true;
        }
    }
    false
}

// ---------------------------------------------------------------------------
// One page
// ---------------------------------------------------------------------------

/// What is decided of a page: its section, how sure that is in hundredths, and why.
pub struct Judgement {
    pub section: PageSection,
    pub confidence: u8,
    pub reason: SectionReasonView,
}

/// A judgement with a plain reason.
pub open spec fn judged(section: PageSection, confidence: u8, reason: Seq<char>) -> Judgement {
    Judgement { section, confidence, reason: SectionReasonView::Plain(reason) }
}

/// A judgement by a sequence of line numbers.
pub open spec fn scored(confidence: u8, lead: Seq<char>, score: Ratio) -> Judgement {
    Judgement {
        section: PageSection::Transcript,
        confidence,
        reason: SectionReasonView::Scored { lead, score, tail: "."@ },
    }
}

/// The section that the headings and anchors of a page decide by themselves.
pub open spec fn section_by_heading(page: ExtractedPageView) -> Option<Judgement> {
    let headings = headings_of(page.text);
    let speakers = signals(page.text, LineSignal::Speaker);
    let markers = signals(page.text, LineSignal::Marker);
    if headed(headings, "CERTIFICATE OF"@) || headed(headings, "REPORTER'S CERTIFICATE"@) || headed(
        headings,
        "CERTIFICATION OF"@,
    ) {
        Some(
            judged(
                PageSection::Certificate,
                96,
                "Certificate heading; blank numbered lines are not testimony."@,
            ),
        )
    } else if headed(headings, "ERRATA"@) {
        Some(judged(PageSection::Errata, 96, "Errata heading."@))
    } else if headed(headings, "APPEARANCES"@) && speakers == 0 && markers == 0 {
        Some(judged(PageSection::Appearances, 97, "Appearances heading."@))
    } else if page.physical_page <= 3 && (headed(headings, "INTERVIEW OF"@) || headed(
        headings,
        "DEPOSITION OF"@,
    ) || headed(headings, "TRANSCRIPT OF"@)) && speakers == 0 && markers == 0 {
        Some(
            judged(
                PageSection::Cover,
                96,
                "Document title; numbering does not establish dialogue."@,
            ),
        )
    } else if speakers >= 2 || markers >= 2 {
        Some(
            judged(
                PageSection::Transcript,
                92,
                "Explicit speaker/Q-A anchors establish dialogue, including unnumbered formats."@,
            ),
        )
    } else {
        None
    }
}

/// The reference section that words anywhere on a page decide, where the page has `rows`
/// numbered rows.
pub open spec fn section_by_reference_words(page: ExtractedPageView, rows: nat) -> Option<
    Judgement,
> {
    let u = uppercased(page.text);
    let cited = citations(page.text);
    if has_infix(u, "WORD INDEX"@) || has_infix(u, "WORD/PHRASE INDEX"@) || (cited >= 10 && rows
        <= 5 && index_like(page.text)) {
        Some(
            judged(
                PageSection::WordIndex,
                96,
                "Index evidence: "@ + decimal(cited) + " page:line citations and "@ + decimal(rows)
                    + " leading transcript-line rows."@,
            ),
        )
    } else if has_infix(u, "EXHIBIT INDEX"@) || has_infix(u, "INDEX OF EXHIBITS"@) || (has_infix(
        u,
        "EXHIBIT"@,
    ) && has_infix(u, "DESCRIPTION"@) && rows < 8) {
        Some(
            judged(
                PageSection::ExhibitIndex,
                94,
                "Exhibit-index heading/column structure detected."@,
            ),
        )
    } else if has_infix(u, "CERTIFICATE"@) && (has_infix(u, "CERTIFICATE OF TRANSCRIPTION"@)
        || has_infix(u, "I CERTIFY"@) || has_infix(u, "COURT REPORTER"@) || has_infix(u, "NOTARY"@))
        && rows < 8 {
        Some(
            judged(
                PageSection::Certificate,
                92,
                "Reporter/notary certificate language detected."@,
            ),
        )
    } else if (has_infix(u, "ERRATA SHEET"@) || (has_infix(u, "ERRATA"@) && has_infix(u, "PAGE"@)
        && has_infix(u, "LINE"@))) && rows < 8 {
        Some(judged(PageSection::Errata, 92, "Errata/correction-sheet structure detected."@))
    } else if has_infix(u, "ATTACHMENT"@) && rows < 8 {
        Some(judged(PageSection::Attachment, 84, "Attachment heading detected."@))
    } else if has_infix(u, "APPENDIX"@) && rows < 8 {
        Some(judged(PageSection::Appendix, 86, "Appendix heading detected."@))
    } else {
        None
    }
}

/// The section of a page that neither headings nor reference words decide.
pub open spec fn section_by_structure(page: ExtractedPageView, numbers: Seq<u16>) -> Judgement {
    let u = uppercased(page.text);
    let rows = numbers.len();
    let score = sequence_score(numbers, false);
    let speakers = signals(page.text, LineSignal::Speaker);
    let markers = signals(page.text, LineSignal::Marker);
    if (has_infix(u, "CASE NO."@) || has_infix(u, "CASE NUMBER"@)) && (has_infix(u, "COURT"@)
        || has_infix(u, "DISTRICT"@)) && rows < 6 && speakers == 0 && markers == 0 {
        judged(PageSection::Caption, 82, "Court-caption structure detected."@)
    } else if has_infix(u, "APPEARANCES"@) && rows < 8 {
        judged(PageSection::Appearances, 97, "Appearances/front-matter heading detected."@)
    } else if rows >= 8 && reaches(score, 62) {
        scored(
            97,
            "Strong transcript line-number column: "@ + decimal(rows) + " rows, sequential score "@,
            score,
        )
    } else if (has_infix(u, "DEPOSITION OF"@) || has_infix(u, "INTERVIEW OF"@) || has_infix(
        u,
        "TRANSCRIPT OF"@,
    )) && rows < 8 {
        judged(PageSection::Cover, 90, "Transcript-family cover heading detected."@)
    } else if rows >= 4 && reaches(score, 50) {
        scored(
            70,
            "Moderate transcript line-number sequence: "@ + decimal(rows) + " rows, score "@,
            score,
        )
    } else {
        judged(
            PageSection::Unknown,
            35,
            "No decisive section signature: "@ + decimal(rows) + " numbered rows, "@ + decimal(
                citations(page.text),
            ) + " citations, "@ + decimal(speakers) + " speaker prefixes, "@ + decimal(markers)
                + " Q/A markers."@,
        )
    }
}

/// The section of a page by itself.
pub open spec fn judgement(page: ExtractedPageView) -> Judgement {
    let numbers = numbers_of(page);
    match section_by_heading(page) {
        Some(decided) => decided,
        None => match section_by_reference_words(page, numbers.len()) {
            Some(decided) => decided,
            None => section_by_structure(page, numbers),
        },
    }
}

fn plain(section: PageSection, confidence: u8, reason: &str) -> (r: (
    PageSection,
    u8,
    SectionReason,
))
    ensures
        r.0 == section,
        r.1 == confidence,
        r.2.deep_view() == SectionReasonView::Plain(reason@),
{
    (section, confidence, SectionReason::Plain(reason.to_owned()))
}

fn classify_by_heading(page: &ExtractedPage, speakers: usize, markers: usize) -> (r: Option<
    (PageSection, u8, SectionReason),
>)
    requires
        speakers == signals(page.text@, LineSignal::Speaker),
        markers == signals(page.text@, LineSignal::Marker),
    ensures
        match (r, section_by_heading(page.deep_view())) {
            (Some((section, confidence, reason)), Some(j)) => {
                section == j.section && confidence == j.confidence && reason.deep_view() == j.reason
            },
            (None, None) => true,
            _ => false,
        },
{
    let headings = collect_headings(page.text.as_str());
    let anchored = speakers > 0 || markers > 0;
    if has_heading(&headings, "CERTIFICATE OF") || has_heading(&headings, "REPORTER'S CERTIFICATE")
        || has_heading(&headings, "CERTIFICATION OF") {
        return Some(
            plain(
                PageSection::Certificate,
                96,
                "Certificate heading; blank numbered lines are not testimony.",
            ),
        );
    }
    if has_heading(&headings, "ERRATA") {
        return Some(plain(PageSection::Errata, 96, "Errata heading."));
    }
    if has_heading(&headings, "APPEARANCES") && !anchored {
        return Some(plain(PageSection::Appearances, 97, "Appearances heading."));
    }
    if page.physical_page <= 3 && (has_heading(&headings, "INTERVIEW OF") || has_heading(
        &headings,
        "DEPOSITION OF",
    ) || has_heading(&headings, "TRANSCRIPT OF")) && !anchored {
        return Some(
            plain(
                PageSection::Cover,
                96,
                "Document title; numbering does not establish dialogue.",
            ),
        );
    }
    if speakers >= 2 || markers >= 2 {
        return Some(
            plain(
                PageSection::Transcript,
                92,
                "Explicit speaker/Q-A anchors establish dialogue, including unnumbered formats.",
            ),
        );
    }
    None
}

fn classify_by_reference_words(page: &ExtractedPage, u: &str, cited: usize, rows: usize) -> (r:
    Option<(PageSection, u8, SectionReason)>)
    requires
        u@ == uppercased(page.text@),
        cited == citations(page.text@),
    ensures
        match (r, section_by_reference_words(page.deep_view(), rows as nat)) {
            (Some((section, confidence, reason)), Some(j)) => {
                section == j.section && confidence == j.confidence && reason.deep_view() == j.reason
            },
            (None, None) => true,
            _ => false,
        },
{
    if contains(u, "WORD INDEX") || contains(u, "WORD/PHRASE INDEX") || (cited >= 10 && rows <= 5
        && looks_index_like(page.text.as_str())) {
        let reason = "Index evidence: ".to_owned().concat(
            decimal_string(cited as u64).as_str(),
        ).concat(" page:line citations and ").concat(decimal_string(rows as u64).as_str()).concat(
            " leading transcript-line rows.",
        );
        return Some(plain(PageSection::WordIndex, 96, reason.as_str()));
    }
    if contains(u, "EXHIBIT INDEX") || contains(u, "INDEX OF EXHIBITS") || (contains(u, "EXHIBIT")
        && contains(u, "DESCRIPTION") && rows < 8) {
        return Some(
            plain(
                PageSection::ExhibitIndex,
                94,
                "Exhibit-index heading/column structure detected.",
            ),
        );
    }
    if contains(u, "CERTIFICATE") && (contains(u, "CERTIFICATE OF TRANSCRIPTION") || contains(
        u,
        "I CERTIFY",
    ) || contains(u, "COURT REPORTER") || contains(u, "NOTARY")) && rows < 8 {
        return Some(
            plain(
                PageSection::Certificate,
                92,
                "Reporter/notary certificate language detected.",
            ),
        );
    }
    if (contains(u, "ERRATA SHEET") || (contains(u, "ERRATA") && contains(u, "PAGE") && contains(
        u,
        "LINE",
    ))) && rows < 8 {
        return Some(
            plain(PageSection::Errata, 92, "Errata/correction-sheet structure detected."),
        );
    }
    if contains(u, "ATTACHMENT") && rows < 8 {
        return Some(plain(PageSection::Attachment, 84, "Attachment heading detected."));
    }
    if contains(u, "APPENDIX") && rows < 8 {
        return Some(plain(PageSection::Appendix, 86, "Appendix heading detected."));
    }
    None
}

/// The section of a page by itself, how sure that is in hundredths, and why.
pub fn classify_page(page: &ExtractedPage) -> (r: (PageSection, u8, SectionReason))
    ensures
        r.0 == judgement(page.deep_view()).section,
        r.1 == judgement(page.deep_view()).confidence,
        r.2.deep_view() == judgement(page.deep_view()).reason,
{
    let text = page.text.as_str();
    let numbers = numbered_rows_from_page(page);
    let rows = numbers.len();
    let cited = count_page_line_citations(text);
    let speakers = count_speaker_prefixes(text);
    let markers = count_dialogue_markers(text);
    match classify_by_heading(page, speakers, markers) {
        Some(decided) => {
            return decided;
        },
        None => {},
    }
    let upper = to_upper(text);
    let u = upper.as_str();
    match classify_by_reference_words(page, u, cited, rows) {
        Some(decided) => {
            return decided;
        },
        None => {},
    }
    let score = sequential_line_score(&numbers);
    if (contains(u, "CASE NO.") || contains(u, "CASE NUMBER")) && (contains(u, "COURT")
        || contains(u, "DISTRICT")) && rows < 6 && speakers == 0 && markers == 0 {
        return plain(PageSection::Caption, 82, "Court-caption structure detected.");
    }
    if contains(u, "APPEARANCES") && rows < 8 {
        return plain(PageSection::Appearances, 97, "Appearances/front-matter heading detected.");
    }
    let row_text = decimal_string(rows as u64);
    if rows >= 8 && score.at_least(62) {
        let lead = "Strong transcript line-number column: ".to_owned().concat(
            row_text.as_str(),
        ).concat(" rows, sequential score ");
        return (
            PageSection::Transcript,
            97,
            SectionReason::Scored { lead, score, tail: ".".to_owned() },
        );
    }
    if (contains(u, "DEPOSITION OF") || contains(u, "INTERVIEW OF") || contains(u, "TRANSCRIPT OF"))
        && rows < 8 {
        return plain(PageSection::Cover, 90, "Transcript-family cover heading detected.");
    }
    if rows >= 4 && score.at_least(50) {
        let lead = "Moderate transcript line-number sequence: ".to_owned().concat(
            row_text.as_str(),
        ).concat(" rows, score ");
        return (
            PageSection::Transcript,
            70,
            SectionReason::Scored { lead, score, tail: ".".to_owned() },
        );
    }
    let reason = "No decisive section signature: ".to_owned().concat(row_text.as_str()).concat(
        " numbered rows, ",
    ).concat(decimal_string(cited as u64).as_str()).concat(" citations, ").concat(
        decimal_string(speakers as u64).as_str(),
    ).concat(" speaker prefixes, ").concat(decimal_string(markers as u64).as_str()).concat(
        " Q/A markers.",
    );
    plain(PageSection::Unknown, 35, reason.as_str())
}


// ---------------------------------------------------------------------------
// Laws
// ---------------------------------------------------------------------------

proof fn lemma_signal_count(list: Seq<Seq<char>>, signal: LineSignal, n: int)
    requires
        0 <= n <= list.len(),
    ensures
        signal_count(list, signal, n) == list.take(n).filter(
            |line: Seq<char>| gives(line, signal),
        ).len(),
    decreases n,
{
    lemma_filter_first(list, |line: Seq<char>| gives(line, signal), n);
    if n > 0 {
        lemma_signal_count(list, signal, n - 1);
    }
}

/// The lines of a text that give a signal are counted, each of them and no other.
pub proof fn law_signals_are_counted(text: Seq<char>, signal: LineSignal)
    ensures
        signals(text, signal) == lines_of(text).filter(|line: Seq<char>| gives(line, signal)).len(),
{
    let list = lines_of(text);
    lemma_signal_count(list, signal, list.len() as int);
    assert(list.take(list.len() as int) =~= list);
}

/// What a line shows: that it holds anything, that it leads with a number from 1 to 50, that it
/// opens with a label, with a marker, or with "BY", its number aside.
pub proof fn law_lines_give_signals(line: Seq<char>)
    ensures
        ({
            let content = unnumbered(trimmed(line));
            let u = uppercased(start_trimmed(content));
            &&& gives(line, LineSignal::Text) <==> trimmed(line).len() > 0
            &&& gives(line, LineSignal::Speaker) <==> colon_turn(content) is Some || titled_turn(
                content,
            ) is Some
            &&& gives(line, LineSignal::Marker) <==> has_prefix(u, "Q."@) || has_prefix(u, "A."@)
                || has_prefix(u, "Q "@) || has_prefix(u, "A "@) || has_prefix(u, "Q:"@)
                || has_prefix(u, "A:"@) || has_prefix(u, "QUESTION:"@) || has_prefix(u, "ANSWER:"@)
            &&& gives(line, LineSignal::Examiner) <==> has_prefix(content, "BY "@)
            &&& gives(line, LineSignal::Numbered) <==> leading_number(trimmed(line)) is Some
        }),
{
}

/// A line number follows another where it is the next one, or, with slack, one of the next four.
pub proof fn law_line_numbers_follow(a: u16, b: u16)
    requires
        a <= 1000,
    ensures
        follows(a, b, false) <==> b == a + 1,
        follows(a, b, true) <==> a < b <= a + 4,
{
}

proof fn lemma_all_follow(numbers: Seq<u16>, slack: bool, n: int)
    requires
        0 <= n <= numbers.len(),
    ensures
        following(numbers, slack, n) <= if n > 0 {
            n - 1
        } else {
            0
        },
        (forall|i: int|
            0 < i < n ==> follows(numbers[i - 1], #[trigger] numbers[i], slack)) && n > 0
            ==> following(numbers, slack, n) == n - 1,
    decreases n,
{
    if n > 1 {
        lemma_all_follow(numbers, slack, n - 1);
        if forall|i: int| 0 < i < n ==> follows(numbers[i - 1], #[trigger] numbers[i], slack) {
            assert(follows(numbers[n - 2], numbers[n - 1], slack));
        }
    }
}

/// Line numbers that all follow each other score all, and no score is above that.
pub proof fn law_sequences_score_what_follows(numbers: Seq<u16>, slack: bool)
    requires
        2 <= numbers.len() <= usize::MAX,
    ensures
        sequence_score(numbers, slack).whole == numbers.len() - 1,
        sequence_score(numbers, slack).part <= sequence_score(numbers, slack).whole,
        (forall|i: int|
            0 < i < numbers.len() ==> follows(numbers[i - 1], #[trigger] numbers[i], slack))
            ==> sequence_score(numbers, slack).part == numbers.len() - 1,
{
    lemma_all_follow(numbers, slack, numbers.len() as int);
}

/// A page is judged by its headings first. Else a page that says it is an index, or that cites
/// much and numbers little, is a word index; one that carries a strong run of line numbers is a
/// transcript page; and a page of which nothing tells what it is stays unknown.
pub proof fn law_pages_are_judged_in_turn(page: ExtractedPageView)
    ensures
        ({
            let u = uppercased(page.text);
            let headings = headings_of(page.text);
            let speakers = signals(page.text, LineSignal::Speaker);
            let markers = signals(page.text, LineSignal::Marker);
            let numbers = numbers_of(page);
            let rows = numbers.len();
            let score = sequence_score(numbers, false);
            let section = judgement(page).section;
            let heads = |prefix: Seq<char>|
                exists|i: int|
                    0 <= i < headings.len() && has_prefix(#[trigger] headings[i], prefix);
            let certificate = heads("CERTIFICATE OF"@) || heads("REPORTER'S CERTIFICATE"@) || heads(
                "CERTIFICATION OF"@,
            );
            let errata = !certificate && heads("ERRATA"@);
            let speech = speakers > 0 || markers > 0;
            let appearances = !certificate && !errata && heads("APPEARANCES"@) && !speech;
            let cover = !certificate && !errata && !appearances && page.physical_page <= 3 && (heads(
                "INTERVIEW OF"@,
            ) || heads("DEPOSITION OF"@) || heads("TRANSCRIPT OF"@)) && !speech;
            let told = certificate || errata || appearances || cover;
            let dialogue = !told && (speakers >= 2 || markers >= 2);
            let index = has_infix(u, "WORD INDEX"@) || has_infix(u, "WORD/PHRASE INDEX"@) || (
            citations(page.text) >= 10 && rows <= 5 && index_like(page.text));
            let open = !told && !dialogue;
            &&& certificate ==> section == PageSection::Certificate
            &&& errata ==> section == PageSection::Errata
            &&& appearances ==> section == PageSection::Appearances
            &&& cover ==> section == PageSection::Cover
            &&& dialogue ==> section == PageSection::Transcript && judgement(page).confidence == 92
            &&& open && index ==> section == PageSection::WordIndex
            &&& open && !index && (has_infix(u, "EXHIBIT INDEX"@) || has_infix(
                u,
                "INDEX OF EXHIBITS"@,
            )) ==> section == PageSection::ExhibitIndex
            &&& open && section_by_reference_words(page, rows) is None && has_infix(
                u,
                "APPEARANCES"@,
            ) && rows < 8 && !has_infix(u, "CASE N"@) ==> section == PageSection::Appearances
                || section == PageSection::Caption
            &&& open && section_by_reference_words(page, rows) is None && rows >= 8 && score.part
                * 100 >= 62 * score.whole ==> section == PageSection::Transcript && judgement(
                page,
            ).confidence == 97
            &&& section == PageSection::Transcript && open ==> rows >= 4 && score.part * 100 >= 50
                * score.whole
            &&& section == PageSection::Unknown ==> open && speakers < 2 && markers < 2
        }),
{
    assert forall|prefix: Seq<char>| #[trigger] headed(headings_of(page.text), prefix) == exists|
        i: int,
    |
        0 <= i < headings_of(page.text).len() && has_prefix(
            #[trigger] headings_of(page.text)[i],
            prefix,
        ) by {}
}

/// The line numbers of a page are those that its rows have, and where it has no rows, those that
/// its lines lead with, in their order.
pub proof fn law_numbers_of_a_page(page: ExtractedPageView, n: int)
    requires
        0 <= n,
    ensures
        page.visual_rows.len() > 0 ==> numbers_of(page) == row_numbers(
            page.visual_rows,
            page.visual_rows.len() as int,
        ),
        page.visual_rows.len() == 0 ==> numbers_of(page) == text_numbers(
            lines_of(page.text),
            lines_of(page.text).len() as int,
        ),
        n < page.visual_rows.len() ==> row_numbers(page.visual_rows, n + 1)
            == match page.visual_rows[n].line_number {
            Some(k) => row_numbers(page.visual_rows, n).push(k),
            None => row_numbers(page.visual_rows, n),
        },
        n < lines_of(page.text).len() ==> text_numbers(lines_of(page.text), n + 1)
            == match leading_number(trimmed(lines_of(page.text)[n])) {
            Some(k) => text_numbers(lines_of(page.text), n).push(k),
            None => text_numbers(lines_of(page.text), n),
        },
        row_numbers(page.visual_rows, 0).len() == 0,
        text_numbers(lines_of(page.text), 0).len() == 0,
{
}

/// A line leads with a number where its first word is one from 1 to 50, starting with a digit.
pub proof fn law_leading_numbers_are_words(text: Seq<char>)
    ensures
        match first_word(text) {
            Some(word) => leading_number(text) == if word.len() > 0 && is_digit(word[0]) && (
            parsed_u16(word) matches Some(n) && 1 <= n <= 50) {
                parsed_u16(word)
            } else {
                None
            },
            None => leading_number(text) is None,
        },
{
}

/// The number in front of a line goes with the white space behind it, and only where it is one
/// from 1 to 50; any other line stays as it is.
pub proof fn law_line_numbers_are_taken_off(text: Seq<char>)
    ensures
        ({
            let end = run_end(text, CharClass::Digit, 0);
            let numbered = parsed_u16(text.take(end)) matches Some(n) && 1 <= n <= 50;
            &&& !numbered ==> unnumbered(text) == text
            &&& numbered ==> unnumbered(text) == start_trimmed(text.skip(end))
        }),
{
}

/// A word cites a line where it is a page and a line of digits around its first colon, the line
/// being one from 1 to 50.
pub proof fn law_citations_name_page_and_line(token: Seq<char>, list: Seq<Seq<char>>, n: int)
    requires
        0 <= n < list.len(),
    ensures
        citation(token) ==> split_at_first(stripped(token, CharClass::CitationEdge), ':') is Some,
        split_at_first(stripped(token, CharClass::CitationEdge), ':') matches Some((page, line))
            ==> (citation(token) <==> page.len() > 0 && line.len() > 0 && (forall|i: int|
            0 <= i < page.len() ==> is_digit(#[trigger] page[i])) && (forall|i: int|
            0 <= i < line.len() ==> is_digit(#[trigger] line[i])) && (parsed_u16(line) matches Some(
            k,
        ) && 1 <= k <= 50)),
        citation_count(list, 0) == 0,
        citation(list[n]) ==> citation_count(list, n + 1) == citation_count(list, n) + 1,
        !citation(list[n]) ==> citation_count(list, n + 1) == citation_count(list, n),
{
}

/// The headings of a page are the first eight lines of it that hold more than digits once their
/// line number is off, in upper case.
pub proof fn law_headings_are_the_first_lines(list: Seq<Seq<char>>, n: int)
    requires
        0 <= n < list.len(),
    ensures
        ({
            let before = heading_lines(list, n);
            let line = uppercased(trimmed(unnumbered(trimmed(list[n]))));
            let worded = exists|i: int| 0 <= i < line.len() && !is_digit(#[trigger] line[i]);
            &&& heading_lines(list, 0).len() == 0
            &&& before.len() < 8 && worded ==> heading_lines(list, n + 1) == before.push(line)
            &&& before.len() >= 8 || !worded ==> heading_lines(list, n + 1) == before
        }),
{
}

/// Every heading is one of the first lines: a page with more lines keeps the headings it had.
pub proof fn law_headings_stay(list: Seq<Seq<char>>, n: int, m: int)
    requires
        0 <= n <= m <= list.len(),
    ensures
        heading_lines(list, n).len() <= heading_lines(list, m).len() <= 8,
        heading_lines(list, m).take(heading_lines(list, n).len() as int) == heading_lines(list, n),
    decreases m,
{
    if n < m {
        law_headings_stay(list, n, m - 1);
        let k = heading_lines(list, n).len() as int;
        assert(heading_lines(list, m).take(k) =~= heading_lines(list, m - 1).take(k));
    } else if m > 0 {
        law_headings_stay(list, n - 1, m - 1);
        assert(heading_lines(list, m).take(heading_lines(list, m).len() as int) =~= heading_lines(
            list,
            m,
        ));
    }
}

/// Pages that no heading and no dialogue tells, and that are no index: what their words say they
/// are, in this order, where few of their rows are numbered.
pub proof fn law_reference_words_tell_pages(page: ExtractedPageView)
    requires
        section_by_heading(page) is None,
    ensures
        ({
            let u = uppercased(page.text);
            let rows = numbers_of(page).len();
            let section = judgement(page).section;
            let says = |word: Seq<char>| has_infix(u, word);
            let index = says("WORD INDEX"@) || says("WORD/PHRASE INDEX"@) || (citations(page.text)
                >= 10 && rows <= 5 && index_like(page.text));
            let exhibits = !index && (says("EXHIBIT INDEX"@) || says("INDEX OF EXHIBITS"@) || (says(
                "EXHIBIT"@,
            ) && says("DESCRIPTION"@) && rows < 8));
            let certificate = !index && !exhibits && rows < 8 && says("CERTIFICATE"@) && (says(
                "CERTIFICATE OF TRANSCRIPTION"@,
            ) || says("I CERTIFY"@) || says("COURT REPORTER"@) || says("NOTARY"@));
            let errata = !index && !exhibits && !certificate && rows < 8 && (says("ERRATA SHEET"@)
                || (says("ERRATA"@) && says("PAGE"@) && says("LINE"@)));
            let attachment = !index && !exhibits && !certificate && !errata && rows < 8 && says(
                "ATTACHMENT"@,
            );
            let appendix = !index && !exhibits && !certificate && !errata && !attachment && rows < 8
                && says("APPENDIX"@);
            &&& index ==> section == PageSection::WordIndex && judgement(page).confidence == 96
            &&& exhibits ==> section == PageSection::ExhibitIndex && judgement(page).confidence
                == 94
            &&& certificate ==> section == PageSection::Certificate && judgement(page).confidence
                == 92
            &&& errata ==> section == PageSection::Errata && judgement(page).confidence == 92
            &&& attachment ==> section == PageSection::Attachment && judgement(page).confidence
                == 84
            &&& appendix ==> section == PageSection::Appendix && judgement(page).confidence == 86
            &&& (index || exhibits || certificate || errata || attachment || appendix)
                == section_by_reference_words(page, rows) is Some
        }),
{
}

/// Pages that no heading, dialogue or reference word tells: court captions, lists of appearances,
/// pages with a strong column of line numbers, covers, and pages with a moderate column, in this
/// order; the rest is unknown.
pub proof fn law_structure_tells_pages(page: ExtractedPageView)
    requires
        section_by_heading(page) is None,
        section_by_reference_words(page, numbers_of(page).len()) is None,
    ensures
        ({
            let u = uppercased(page.text);
            let rows = numbers_of(page).len();
            let score = sequence_score(numbers_of(page), false);
            let section = judgement(page).section;
            let confidence = judgement(page).confidence;
            let says = |word: Seq<char>| has_infix(u, word);
            let silent = signals(page.text, LineSignal::Speaker) == 0 && signals(
                page.text,
                LineSignal::Marker,
            ) == 0;
            let caption = (says("CASE NO."@) || says("CASE NUMBER"@)) && (says("COURT"@) || says(
                "DISTRICT"@,
            )) && rows < 6 && silent;
            let appearances = !caption && rows < 8 && says("APPEARANCES"@);
            let strong = !caption && !appearances && rows >= 8 && score.part * 100 >= 62
                * score.whole;
            let cover = !caption && !appearances && !strong && rows < 8 && (says("DEPOSITION OF"@)
                || says("INTERVIEW OF"@) || says("TRANSCRIPT OF"@));
            let moderate = !caption && !appearances && !strong && !cover && rows >= 4 && score.part
                * 100 >= 50 * score.whole;
            &&& caption ==> section == PageSection::Caption && confidence == 82
            &&& appearances ==> section == PageSection::Appearances && confidence == 97
            &&& strong ==> section == PageSection::Transcript && confidence == 97
            &&& cover ==> section == PageSection::Cover && confidence == 90
            &&& moderate ==> section == PageSection::Transcript && confidence == 70
            &&& !caption && !appearances && !strong && !cover && !moderate ==> section
                == PageSection::Unknown && confidence == 35
        }),
{
}

/// A text is like an index where at least one in five of its lines cites, and like dialogue where
/// three lines are labelled, five numbered or four marked.
pub proof fn law_likenesses_are_counted(text: Seq<char>)
    ensures
        index_like(text) <==> signals(text, LineSignal::Text) > 0 && 5 * signals(
            text,
            LineSignal::Citation,
        ) >= signals(text, LineSignal::Text),
        dialogue_like(text) <==> (signals(text, LineSignal::Speaker) >= 3 || signals(
            text,
            LineSignal::Numbered,
        ) >= 5 || signals(text, LineSignal::Marker) >= 4),
{
}

} // verus!
