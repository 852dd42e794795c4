//! The inventory of source rows. Every row that extraction recovered gets exactly one
//! stable identifier, whatever becomes of it.
use vstd::prelude::*;

use crate::document::models::{
    dialogue_section, reference_section, DocumentKind, ExtractedDocument, ExtractedDocumentView,
    ExtractedPage, ExtractedPageView, PageSection, TextSource, VisualRow, VisualRowView,
};
use crate::measure::{Measure, MEASURE_45};
use crate::number::{
    decimal, decimal_string, lemma_decimal_injective, lemma_decimal_is_digits, push_decimal,
};
use crate::pieces::{lines, lines_of, words, words_of};
use crate::scan::{
    begins, blank, end_trimmed, ends, ends_with_char, has_infix, has_prefix, is_blank,
    lemma_infix_of_infix, lemma_run_end, lemma_run_end_is, lemma_stripped_stands,
    lemma_subrange_stands, run_end, start_trimmed, starts_with, starts_with_char, stripped_start,
    to_upper, trim, trim_end, trimmed, uppercased,
};
use crate::text::{
    byte_len, clone_option, is_digit, len_bytes, push_item, same, same_option, within, CharClass,
};
use crate::transcript::format::{
    explicit_page_marker, law_text_rows_are_the_filled_lines, marked_page, matching_row, numbered_line, numeric_page,
    parse_source_line, pure_numeric_page, rows_of_text, source_line, text_rows,
};
use crate::transcript::markers::{detect_marker_candidate, marker_candidate};
use crate::transcript::models::{page_label, PageContextView, TranscriptContext};
use crate::transcript::omni_models::{
    CanonicalRow, CanonicalRowView, RowDisposition, RowEventKind,
};
use crate::transcript::profile::TranscriptProfile;
use crate::transcript::speaker::{
    colon_turn, split_colon_label, split_titled_speaker_prefix, titled_turn,
};

verus! {

// ---------------------------------------------------------------------------
// Rows of a page
// ---------------------------------------------------------------------------

/// The rows of a page: those that the layout recovered, or else the lines of its text that
/// are not blank.
pub open spec fn page_rows(page: ExtractedPageView) -> Seq<Seq<char>> {
    if page.layout.used_positioned_reconstruction {
        Seq::new(page.visual_rows.len(), |i: int| page.visual_rows[i].text)
    } else {
        text_rows(page.text)
    }
}

/// Computes [`page_rows`].
pub fn rows_of_page(page: &ExtractedPage) -> (r: Vec<String>)
    ensures
        r.deep_view() == page_rows(page.deep_view()),
{
    if !page.layout.used_positioned_reconstruction {
        return rows_of_text(page.text.as_str());
    }
    let ghost all = page_rows(page.deep_view());
    let mut r: Vec<String> = Vec::new();
    for i in 0..page.visual_rows.len()
        invariant
            page.layout.used_positioned_reconstruction,
            all == page_rows(page.deep_view()),
            r.deep_view() == all.take(i as int),
    {
        push_item(&mut r, page.visual_rows[i].text.clone());
        assert(all.take(i + 1) =~= all.take(i as int).push(page.visual_rows@[i as int].text@));
    }
    assert(all.take(all.len() as int) =~= all);
    r
}

/// The layout row behind the row of a page.
pub open spec fn layout_row(page: ExtractedPageView, index: int) -> Option<VisualRowView> {
    if page.layout.used_positioned_reconstruction && 0 <= index < page.visual_rows.len() {
        Some(page.visual_rows[index])
    } else {
        None
    }
}

fn row_of_layout(page: &ExtractedPage, index: usize) -> (r: Option<&VisualRow>)
    ensures
        r.deep_view() == layout_row(page.deep_view(), index as int),
{
    if page.layout.used_positioned_reconstruction && index < page.visual_rows.len() {
        Some(&page.visual_rows[index])
    } else {
        None
    }
}

/// The identifier of a row.
pub open spec fn row_id(physical_page: u32, index: nat) -> Seq<char> {
    "p"@ + decimal(physical_page as nat) + "_r"@ + decimal(index + 1)
}

fn id_of_row(physical_page: u32, index: usize) -> (r: String)
    requires
        index < usize::MAX,
    ensures
        r@ == row_id(physical_page, index as nat),
{
    let mut id = "p".to_owned();
    push_decimal(&mut id, physical_page as u64);
    let mut id = id.concat("_r");
    push_decimal(&mut id, index as u64 + 1);
    id
}

/// A page number as it is printed.
pub open spec fn printed_number(n: Option<u32>) -> Option<Seq<char>> {
    match n {
        Some(k) => Some(decimal(k as nat)),
        None => None,
    }
}

fn number_in_print(n: Option<u32>) -> (r: Option<String>)
    ensures
        r.deep_view() == printed_number(n),
{
    match n {
        Some(k) => Some(decimal_string(k as u64)),
        None => None,
    }
}

/// The label of the transcript page that a row stands on: the row's own, or else its page's.
pub open spec fn row_label(
    page: ExtractedPageView,
    index: int,
    contexts: Seq<PageContextView>,
) -> Option<Seq<char>> {
    match layout_row(page, index) {
        Some(row) if row.printed_page is Some => row.printed_page,
        _ => page_label(contexts, page.physical_page),
    }
}

fn label_of_row(page: &ExtractedPage, index: usize, context: &TranscriptContext) -> (r: Option<
    String,
>)
    ensures
        r.deep_view() == row_label(
            page.deep_view(),
            index as int,
            context.deep_view().page_contexts,
        ),
{
    match row_of_layout(page, index) {
        Some(row) => {
            if row.printed_page.is_some() {
                return clone_option(&row.printed_page);
            }
        },
        None => {},
    }
    context.transcript_page_for(page.physical_page)
}

/// Whether a row without a line number is the label of its page.
pub open spec fn label_row(number: Option<u16>, body: Seq<char>, label: Option<Seq<char>>) -> bool {
    number is None && label is Some && printed_number(
        match numeric_page(body) {
            Some(n) => Some(n),
            None => marked_page(body),
        },
    ) == label
}

/// Whether a row near the top of a page is a page label that was taken for a numbered line.
pub open spec fn numbered_label_row(
    number: Option<u16>,
    raw: Seq<char>,
    body: Seq<char>,
    index: int,
    label: Option<Seq<char>>,
) -> bool {
    let list = words_of(trimmed(raw));
    &&& number is Some
    &&& list.len() > 1 && byte_len(list[1]) >= 3 && starts_with_char(list[1], '0')
    &&& index < 3
    &&& label is Some && printed_number(numeric_page(body)) == label
}

fn is_label_row(
    number: Option<u16>,
    raw: &str,
    body: &str,
    index: usize,
    label: &Option<String>,
) -> (r: bool)
    ensures
        r == (label_row(number, body@, label.deep_view()) || numbered_label_row(
            number,
            raw@,
            body@,
            index as int,
            label.deep_view(),
        )),
{
    if label.is_none() {
        return false;
    }
    if number.is_none() {
        let found = match pure_numeric_page(body) {
            Some(n) => Some(n),
            None => explicit_page_marker(body),
        };
        return same_option(&number_in_print(found), label);
    }
    let list = words(trim(raw));
    if list.len() < 2 || index >= 3 {
        return false;
    }
    assert(list@[1]@ == list.deep_view()[1]);
    let second = list[1].as_str();
    len_bytes(second) >= 3 && begins(second, '0') && same_option(
        &number_in_print(pure_numeric_page(body)),
        label,
    )
}

/// Whether a row opens a turn.
pub open spec fn opens_turn(body: Seq<char>) -> bool {
    colon_turn(body) is Some || titled_turn(body) is Some || marker_candidate(body) is Some
        || has_prefix(uppercased(trimmed(body)), "BY "@)
}

fn is_anchor(body: &str) -> (r: bool)
    ensures
        r == opens_turn(body@),
{
    split_colon_label(body).is_some() || split_titled_speaker_prefix(body).is_some()
        || detect_marker_candidate(body).is_some() || starts_with(
        to_upper(trim(body)).as_str(),
        "BY ",
    )
}

/// Whether a line belongs to a list of appearances.
pub open spec fn appearance_line(body: Seq<char>) -> bool {
    let u = uppercased(body);
    has_prefix(u, "APPEARANCES"@) || (has_prefix(u, "FOR "@) && ends_with_char(end_trimmed(u), ':'))
}

/// Whether a page carries a list of appearances.
pub open spec fn lists_appearances(page: ExtractedPageView, max: u16) -> bool {
    exists|i: int|
        0 <= i < lines_of(page.text).len() && appearance_line(
            source_line(page, trimmed(#[trigger] lines_of(page.text)[i]), max).1,
        )
}

fn has_appearances(page: &ExtractedPage, max: u16) -> (r: bool)
    ensures
        r == lists_appearances(page.deep_view(), max),
{
    let list = lines(page.text.as_str());
    let ghost view = lines_of(page.deep_view().text);
    for i in 0..list.len()
        invariant
            view == list.deep_view(),
            view == lines_of(page.deep_view().text),
            forall|j: int|
                0 <= j < i ==> !appearance_line(
                    source_line(page.deep_view(), trimmed(#[trigger] view[j]), max).1,
                ),
    {
        assert(view[i as int] == list@[i as int]@);
        let (_, body) = parse_source_line(page, trim(list[i].as_str()), max);
        let upper = to_upper(body);
        let u = upper.as_str();
        if starts_with(u, "APPEARANCES") || (starts_with(u, "FOR ") && ends(trim_end(u), ':')) {
            return true;
        }
    }
    false
}

/// What becomes of a row by its page and its text alone.
pub open spec fn row_disposition(label: bool, body: Seq<char>, section: PageSection) ->
    RowDisposition {
    if label {
        RowDisposition::PageFurniture
    } else if blank(body) {
        RowDisposition::BlankNumberedLine
    } else if reference_section(section) {
        RowDisposition::Reference
    } else if section == PageSection::Cover || section == PageSection::Caption || section
        == PageSection::Appearances {
        RowDisposition::FrontMatter
    } else if dialogue_section(section) {
        RowDisposition::Dialogue
    } else {
        RowDisposition::Unclassified
    }
}

fn disposition_of_row(label: bool, body: &str, section: PageSection) -> (r: RowDisposition)
    ensures
        r == row_disposition(label, body@, section),
{
    if label {
        RowDisposition::PageFurniture
    } else if is_blank(body) {
        RowDisposition::BlankNumberedLine
    } else if section.is_reference_only() {
        RowDisposition::Reference
    } else {
        match section {
            PageSection::Cover
            | PageSection::Caption
            | PageSection::Appearances => RowDisposition::FrontMatter,
            PageSection::Transcript => RowDisposition::Dialogue,
            _ => RowDisposition::Unclassified,
        }
    }
}

/// Whether a box lies in the top margin of its page.
pub open spec fn top_margin(bbox: Option<[Measure; 4]>) -> bool {
    match bbox {
        Some(b) => b[1] < MEASURE_45,
        None => false,
    }
}

fn in_top_margin(bbox: &Option<[Measure; 4]>) -> (r: bool)
    ensures
        r == top_margin(*bbox),
{
    match bbox {
        Some(b) => b[1] < MEASURE_45,
        None => false,
    }
}

// ---------------------------------------------------------------------------
// Rows that repeat in the margin
// ---------------------------------------------------------------------------

/// Where a text stands among those noted so far, or how many there are.
pub open spec fn note_index(notes: Seq<(Seq<char>, Seq<u32>)>, text: Seq<char>, from: int) -> int
    decreases notes.len() - from,
{
    if 0 <= from < notes.len() && notes[from].0 != text {
        note_index(notes, text, from + 1)
    } else {
        from
    }
}

/// The texts seen in the margin, each with the pages that it was seen on, after one more
/// sighting.
pub open spec fn noted(notes: Seq<(Seq<char>, Seq<u32>)>, text: Seq<char>, page: u32) -> Seq<
    (Seq<char>, Seq<u32>),
> {
    let i = note_index(notes, text, 0);
    if i >= notes.len() {
        notes.push((text, seq![page]))
    } else if notes[i].1.contains(page) {
        notes
    } else {
        notes.update(i, (text, notes[i].1.push(page)))
    }
}

/// On how many pages a text was seen in the margin.
pub open spec fn sightings(notes: Seq<(Seq<char>, Seq<u32>)>, text: Seq<char>) -> nat {
    let i = note_index(notes, text, 0);
    if i < notes.len() {
        notes[i].1.len()
    } else {
        0
    }
}

proof fn lemma_note_index(notes: Seq<(Seq<char>, Seq<u32>)>, text: Seq<char>, from: int)
    requires
        0 <= from <= notes.len(),
    ensures
        from <= note_index(notes, text, from) <= notes.len(),
        note_index(notes, text, from) < notes.len() ==> notes[note_index(notes, text, from)].0
            == text,
    decreases notes.len() - from,
{
    if from < notes.len() && notes[from].0 != text {
        lemma_note_index(notes, text, from + 1);
    }
}

fn find_note(notes: &Vec<(String, Vec<u32>)>, text: &str) -> (i: usize)
    ensures
        i == note_index(notes.deep_view(), text@, 0),
        i <= notes@.len(),
        i < notes@.len() ==> notes.deep_view()[i as int].0 == text@,
{
    let mut i: usize = 0;
    while i < notes.len() && !same(notes[i].0.as_str(), text)
        invariant
            i <= notes@.len(),
            note_index(notes.deep_view(), text@, i as int) == note_index(
                notes.deep_view(),
                text@,
                0,
            ),
        decreases notes@.len() - i,
    {
        assert(notes.deep_view()[i as int] == notes@[i as int].deep_view());
        i += 1;
    }
    proof {
        lemma_note_index(notes.deep_view(), text@, 0);
        if i < notes@.len() {
            assert(notes.deep_view()[i as int] == notes@[i as int].deep_view());
        }
    }
    i
}

fn holds(pages: &Vec<u32>, page: u32) -> (r: bool)
    ensures
        r == pages@.contains(page),
{
    for i in 0..pages.len()
        invariant
            forall|j: int| 0 <= j < i ==> pages@[j] != page,
    {
        if pages[i] == page {
            return true;
        }
    }
    false
}

fn note(notes: &mut Vec<(String, Vec<u32>)>, text: &str, page: u32)
    ensures
        final(notes).deep_view() == noted(old(notes).deep_view(), text@, page),
{
    let ghost before = notes.deep_view();
    let i = find_note(notes, text);
    if i < notes.len() {
        assert(before[i as int] == notes@[i as int].deep_view());
        assert(notes@[i as int].1.deep_view() =~= notes@[i as int].1@);
        if !holds(&notes[i].1, page) {
            let mut pages: Vec<u32> = Vec::new();
            let count = notes[i].1.len();
            for k in 0..count
                invariant
                    i < notes@.len(),
                    count == notes@[i as int].1@.len(),
                    pages@ == notes@[i as int].1@.take(k as int),
            {
                pages.push(notes[i].1[k]);
            }
            assert(pages@ =~= notes@[i as int].1@);
            pages.push(page);
            assert(pages.deep_view() =~= before[i as int].1.push(page));
            notes.set(i, (text.to_owned(), pages));
            assert(notes.deep_view() =~= noted(before, text@, page));
        }
    } else {
        let mut pages: Vec<u32> = Vec::new();
        pages.push(page);
        assert(pages.deep_view() =~= seq![page]);
        push_item(notes, (text.to_owned(), pages));
    }
}

// ---------------------------------------------------------------------------
// The inventory
// ---------------------------------------------------------------------------

/// The inventory while it is being made: the rows so far, whether the conversation has
/// started, and the texts seen in the margin.
#[verifier::ext_equal]
pub struct Inventory {
    pub rows: Seq<CanonicalRowView>,
    pub started: bool,
    pub notes: Seq<(Seq<char>, Seq<u32>)>,
}

/// Where the text of a row comes from.
pub open spec fn row_source(page: ExtractedPageView, index: int, kind: DocumentKind) -> TextSource {
    match layout_row(page, index) {
        Some(row) if row.fragments.len() > 0 => row.fragments[0].source,
        _ => if kind == DocumentKind::Text {
            TextSource::PlainText
        } else {
            TextSource::FallbackText
        },
    }
}

fn source_of_row(page: &ExtractedPage, index: usize, kind: DocumentKind) -> (r: TextSource)
    ensures
        r == row_source(page.deep_view(), index as int, kind),
{
    match row_of_layout(page, index) {
        Some(row) => {
            if row.fragments.len() > 0 {
                assert(row.fragments@[0].deep_view() == row.deep_view().fragments[0]);
                return row.fragments[0].source;
            }
        },
        None => {},
    }
    if kind == DocumentKind::Text {
        TextSource::PlainText
    } else {
        TextSource::FallbackText
    }
}

/// A row of a page as the inventory lists it before repetition is looked at.
pub open spec fn inventory_row(
    kind: DocumentKind,
    contexts: Seq<PageContextView>,
    max: u16,
    page: ExtractedPageView,
    index: int,
    started: bool,
) -> CanonicalRowView {
    let raw = page_rows(page)[index];
    let (number, body) = source_line(page, raw, max);
    let visual = layout_row(page, index);
    let label = row_label(page, index, contexts);
    let furniture = label_row(number, body, label) || numbered_label_row(
        number,
        raw,
        body,
        index,
        label,
    );
    let preamble = dialogue_section(page.section) && !furniture && body.len() > 0 && !started
        && !opens_turn(body) && lists_appearances(page, max);
    CanonicalRowView {
        disposition: if preamble {
            RowDisposition::FrontMatter
        } else {
            row_disposition(furniture, body, page.section)
        },
        section: page.section,
        panel: match visual {
            Some(row) => row.panel,
            None => 0,
        },
        bbox: match visual {
            Some(row) => row.bbox,
            None => None,
        },
        ocr_confidence: match visual {
            Some(row) => row.ocr_confidence,
            None => None,
        },
        timestamp: None,
        id: row_id(page.physical_page, index as nat),
        physical_page: page.physical_page,
        transcript_page: label,
        row_index: index as usize,
        line_number: number,
        text: trimmed(body),
        raw_text: trimmed(raw),
        event_kind: if furniture {
            RowEventKind::PageHeader
        } else {
            RowEventKind::Unknown
        },
        speaker_anchor_label: None,
        speaker_participant_id: None,
        format_region_id: None,
        source: row_source(page, index, kind),
    }
}

/// The inventory after one more row.
pub open spec fn inventory_step(
    inventory: Inventory,
    kind: DocumentKind,
    contexts: Seq<PageContextView>,
    max: u16,
    page: ExtractedPageView,
    index: int,
) -> Inventory {
    let raw = page_rows(page)[index];
    let (number, body) = source_line(page, raw, max);
    let row = inventory_row(kind, contexts, max, page, index, inventory.started);
    let speaks = dialogue_section(page.section) && row.event_kind != RowEventKind::PageHeader
        && body.len() > 0 && opens_turn(body);
    let marginal = number is None && top_margin(row.bbox) && !opens_turn(body) && !blank(body);
    Inventory {
        rows: inventory.rows.push(row),
        started: inventory.started || speaks,
        notes: if marginal {
            noted(inventory.notes, trimmed(body), page.physical_page)
        } else {
            inventory.notes
        },
    }
}

/// The inventory after the first `k` rows of a page.
pub open spec fn page_inventory(
    inventory: Inventory,
    kind: DocumentKind,
    contexts: Seq<PageContextView>,
    max: u16,
    page: ExtractedPageView,
    k: int,
) -> Inventory
    decreases k,
{
    if k <= 0 {
        inventory
    } else {
        inventory_step(
            page_inventory(inventory, kind, contexts, max, page, k - 1),
            kind,
            contexts,
            max,
            page,
            k - 1,
        )
    }
}

/// The inventory before the rows of a page: a page without dialogue ends the conversation.
pub open spec fn page_opened(inventory: Inventory, page: ExtractedPageView) -> Inventory {
    Inventory {
        started: inventory.started && dialogue_section(page.section),
        ..inventory
    }
}

/// The inventory after the first `n` pages.
pub open spec fn inventory_after(
    kind: DocumentKind,
    contexts: Seq<PageContextView>,
    max: u16,
    pages: Seq<ExtractedPageView>,
    n: int,
) -> Inventory
    decreases n,
{
    if n <= 0 {
        Inventory { rows: seq![], started: false, notes: seq![] }
    } else {
        let page = pages[n - 1];
        page_inventory(
            page_opened(inventory_after(kind, contexts, max, pages, n - 1), page),
            kind,
            contexts,
            max,
            page,
            page_rows(page).len() as int,
        )
    }
}

/// Whether a row is taken for page furniture because it repeats: only rows without a line
/// number in the top margin are, and only when the text was seen there on three pages.
pub open spec fn repeats_in_margin(row: CanonicalRowView, notes: Seq<(Seq<char>, Seq<u32>)>) -> bool {
    row.line_number is None && top_margin(row.bbox) && sightings(notes, row.text) >= 3
}

/// A row once repetition has been looked at.
pub open spec fn settled_row(row: CanonicalRowView, notes: Seq<(Seq<char>, Seq<u32>)>) ->
    CanonicalRowView {
    if repeats_in_margin(row, notes) {
        CanonicalRowView {
            disposition: RowDisposition::PageFurniture,
            event_kind: RowEventKind::PageHeader,
            ..row
        }
    } else {
        row
    }
}

/// The inventory of a document.
pub open spec fn source_rows(
    document: ExtractedDocumentView,
    contexts: Seq<PageContextView>,
    max: u16,
) -> Seq<CanonicalRowView> {
    let inventory = inventory_after(
        document.kind,
        contexts,
        max,
        document.pages,
        document.pages.len() as int,
    );
    Seq::new(inventory.rows.len(), |i: int| settled_row(inventory.rows[i], inventory.notes))
}

fn make_row(
    kind: DocumentKind,
    context: &TranscriptContext,
    max: u16,
    page: &ExtractedPage,
    index: usize,
    raw: &str,
    started: &mut bool,
    notes: &mut Vec<(String, Vec<u32>)>,
    Ghost(rows): Ghost<Seq<CanonicalRowView>>,
) -> (row: CanonicalRow)
    requires
        index < page_rows(page.deep_view()).len(),
        index < usize::MAX,
        raw@ == page_rows(page.deep_view())[index as int],
    ensures
        (Inventory {
            rows: rows.push(row.deep_view()),
            started: *final(started),
            notes: final(notes).deep_view(),
        }) == inventory_step(
            Inventory { rows, started: *old(started), notes: old(notes).deep_view() },
            kind,
            context.deep_view().page_contexts,
            max,
            page.deep_view(),
            index as int,
        ),
{
    let (number, body) = parse_source_line(page, raw, max);
    let label = label_of_row(page, index, context);
    let furniture = is_label_row(number, raw, body, index, &label);
    let anchor = is_anchor(body);
    let mut disposition = disposition_of_row(furniture, body, page.section);
    if page.section.is_dialogue() && !furniture && !body.is_empty() {
        if anchor {
            *started = true;
        }
        if !*started && has_appearances(page, max) {
            disposition = RowDisposition::FrontMatter;
        }
    }
    let visual = row_of_layout(page, index);
    let bbox = match visual {
        Some(row) => row.bbox,
        None => None,
    };
    if number.is_none() && in_top_margin(&bbox) && !anchor && !is_blank(body) {
        note(notes, trim(body), page.physical_page);
    }
    CanonicalRow {
        disposition,
        section: page.section,
        panel: match visual {
            Some(row) => row.panel,
            None => 0,
        },
        bbox,
        ocr_confidence: match visual {
            Some(row) => row.ocr_confidence,
            None => None,
        },
        timestamp: None,
        id: id_of_row(page.physical_page, index),
        physical_page: page.physical_page,
        transcript_page: label,
        row_index: index,
        line_number: number,
        text: trim(body).to_owned(),
        raw_text: trim(raw).to_owned(),
        event_kind: if furniture {
            RowEventKind::PageHeader
        } else {
            RowEventKind::Unknown
        },
        speaker_anchor_label: None,
        speaker_participant_id: None,
        format_region_id: None,
        source: source_of_row(page, index, kind),
    }
}

fn collect_page(
    kind: DocumentKind,
    context: &TranscriptContext,
    max: u16,
    page: &ExtractedPage,
    rows: &mut Vec<CanonicalRow>,
    started: &mut bool,
    notes: &mut Vec<(String, Vec<u32>)>,
)
    ensures
        (Inventory {
            rows: final(rows).deep_view(),
            started: *final(started),
            notes: final(notes).deep_view(),
        }) == page_inventory(
            page_opened(
                Inventory {
                    rows: old(rows).deep_view(),
                    started: *old(started),
                    notes: old(notes).deep_view(),
                },
                page.deep_view(),
            ),
            kind,
            context.deep_view().page_contexts,
            max,
            page.deep_view(),
            page_rows(page.deep_view()).len() as int,
        ),
{
    let ghost contexts = context.deep_view().page_contexts;
    let ghost view = page.deep_view();
    let ghost opened = page_opened(
        Inventory { rows: rows.deep_view(), started: *started, notes: notes.deep_view() },
        view,
    );
    if !page.section.is_dialogue() {
        *started = false;
    }
    let raw_rows = rows_of_page(page);
    for index in 0..raw_rows.len()
        invariant
            view == page.deep_view(),
            contexts == context.deep_view().page_contexts,
            raw_rows.deep_view() == page_rows(view),
            (Inventory { rows: rows.deep_view(), started: *started, notes: notes.deep_view() })
                == page_inventory(opened, kind, contexts, max, view, index as int),
    {
        assert(raw_rows.deep_view()[index as int] == raw_rows@[index as int]@);
        let ghost before = rows.deep_view();
        let row = make_row(
            kind,
            context,
            max,
            page,
            index,
            raw_rows[index].as_str(),
            started,
            notes,
            Ghost(before),
        );
        push_item(rows, row);
    }
}

fn settle_row(row: &mut CanonicalRow, notes: &Vec<(String, Vec<u32>)>)
    ensures
        final(row).deep_view() == settled_row(old(row).deep_view(), notes.deep_view()),
{
    if row.line_number.is_none() && in_top_margin(&row.bbox) {
        let i = find_note(notes, row.text.as_str());
        if i < notes.len() {
            assert(notes.deep_view()[i as int] == notes@[i as int].deep_view());
            if notes[i].1.len() >= 3 {
                row.disposition = RowDisposition::PageFurniture;
                row.event_kind = RowEventKind::PageHeader;
            }
        }
    }
}

pub fn collect_rows(
    document: &ExtractedDocument,
    context: &TranscriptContext,
    profile: &TranscriptProfile,
) -> (r: Vec<CanonicalRow>)
    ensures
        r.deep_view() == source_rows(
            document.deep_view(),
            context.deep_view().page_contexts,
            profile.deep_view().max_line_number,
        ),
{
    let max = profile.max_line_number;
    let ghost contexts = context.deep_view().page_contexts;
    let ghost pages = document.deep_view().pages;
    let mut rows: Vec<CanonicalRow> = Vec::new();
    let mut started = false;
    let mut notes: Vec<(String, Vec<u32>)> = Vec::new();
    assert(rows.deep_view() =~= seq![]);
    assert(notes.deep_view() =~= seq![]);
    for n in 0..document.pages.len()
        invariant
            pages == document.pages.deep_view(),
            contexts == context.deep_view().page_contexts,
            (Inventory { rows: rows.deep_view(), started, notes: notes.deep_view() })
                == inventory_after(document.kind, contexts, max, pages, n as int),
    {
        assert(pages[n as int] == document.pages@[n as int].deep_view());
        collect_page(
            document.kind,
            context,
            max,
            &document.pages[n],
            &mut rows,
            &mut started,
            &mut notes,
        );
    }
    let ghost before = rows.deep_view();
    let ghost seen = notes.deep_view();
    let count = rows.len();
    for i in 0..count
        invariant
            count == rows@.len(),
            count == before.len(),
            seen == notes.deep_view(),
            forall|j: int|
                0 <= j < count ==> (#[trigger] rows.deep_view()[j]) == if j < i {
                    settled_row(before[j], seen)
                } else {
                    before[j]
                },
    {
        let ghost now = rows.deep_view();
        assert(now[i as int] == rows@[i as int].deep_view());
        settle_row(&mut rows[i], &notes);
        assert(rows.deep_view() =~= now.update(i as int, settled_row(before[i as int], seen)));
    }
    assert(rows.deep_view() =~= source_rows(document.deep_view(), contexts, max));
    rows
}

// ---------------------------------------------------------------------------
// Laws
// ---------------------------------------------------------------------------

/// The rows of the first `n` pages, each by its page, its position there and its text.
pub open spec fn row_positions(pages: Seq<ExtractedPageView>, n: int) -> Seq<(u32, int, Seq<char>)>
    decreases n,
{
    if n <= 0 {
        seq![]
    } else {
        row_positions(pages, n - 1) + Seq::new(
            page_rows(pages[n - 1]).len(),
            |i: int| (pages[n - 1].physical_page, i, page_rows(pages[n - 1])[i]),
        )
    }
}

/// Whether a row stands for a position: it names it, and quotes what is written there.
pub open spec fn stands_for(row: CanonicalRowView, position: (u32, int, Seq<char>)) -> bool {
    &&& row.physical_page == position.0
    &&& row.row_index == position.1 as usize
    &&& row.id == row_id(position.0, position.1 as nat)
    &&& row.raw_text == trimmed(position.2)
    &&& has_infix(row.raw_text, row.text)
}

proof fn lemma_row_quotes(page: ExtractedPageView, raw: Seq<char>, max: u16)
    ensures
        has_infix(trimmed(raw), trimmed(source_line(page, raw, max).1)),
{
    let body = source_line(page, raw, max).1;
    let t = trimmed(raw);
    lemma_stripped_stands(body, CharClass::Space);
    if body == raw {
        lemma_subrange_stands(t, 0, t.len() as int);
        assert(t.subrange(0, t.len() as int) =~= t);
    } else {
        lemma_body_stands(t, max);
        let i = matching_row(page.visual_rows, raw, 0);
        if page.layout.used_positioned_reconstruction && i < page.visual_rows.len() {
            match page.visual_rows[i].line_number {
                Some(number) => {
                    lemma_body_stands(
                        t,
                        if max < number {
                            number
                        } else {
                            max
                        },
                    );
                },
                None => {},
            }
        }
        lemma_infix_of_infix(t, body, trimmed(body));
    }
}

proof fn lemma_body_stands(line: Seq<char>, max: u16)
    ensures
        has_infix(line, numbered_line(line, max).1),
{
    let digits = run_end(line, CharClass::Digit, 0);
    lemma_run_end(line, CharClass::Digit, 0);
    let rest = line.subrange(digits, line.len() as int);
    lemma_subrange_stands(line, digits, line.len() as int);
    let colonless = stripped_start(rest, CharClass::Is(':'));
    lemma_stripped_stands(rest, CharClass::Is(':'));
    lemma_stripped_stands(colonless, CharClass::Space);
    lemma_infix_of_infix(line, rest, colonless);
    lemma_infix_of_infix(line, colonless, start_trimmed(colonless));
    lemma_subrange_stands(line, 0, line.len() as int);
    assert(line.subrange(0, line.len() as int) =~= line);
}

proof fn lemma_page_inventory(
    inventory: Inventory,
    kind: DocumentKind,
    contexts: Seq<PageContextView>,
    max: u16,
    page: ExtractedPageView,
    k: int,
)
    requires
        0 <= k <= page_rows(page).len(),
    ensures
        ({
            let after = page_inventory(inventory, kind, contexts, max, page, k).rows;
            &&& after.len() == inventory.rows.len() + k
            &&& after.take(inventory.rows.len() as int) == inventory.rows
            &&& forall|i: int|
                inventory.rows.len() <= i < after.len() ==> stands_for(
                    #[trigger] after[i],
                    (
                        page.physical_page,
                        i - inventory.rows.len(),
                        page_rows(page)[i - inventory.rows.len()],
                    ),
                )
        }),
    decreases k,
{
    if k > 0 {
        lemma_page_inventory(inventory, kind, contexts, max, page, k - 1);
        let before = page_inventory(inventory, kind, contexts, max, page, k - 1).rows;
        let after = page_inventory(inventory, kind, contexts, max, page, k).rows;
        lemma_row_quotes(page, page_rows(page)[k - 1], max);
        assert(after.take(inventory.rows.len() as int) =~= before.take(
            inventory.rows.len() as int,
        ));
    } else {
        assert(inventory.rows.take(inventory.rows.len() as int) =~= inventory.rows);
    }
}

proof fn lemma_inventory_after(
    kind: DocumentKind,
    contexts: Seq<PageContextView>,
    max: u16,
    pages: Seq<ExtractedPageView>,
    n: int,
)
    requires
        0 <= n <= pages.len(),
    ensures
        ({
            let rows = inventory_after(kind, contexts, max, pages, n).rows;
            let positions = row_positions(pages, n);
            &&& rows.len() == positions.len()
            &&& forall|i: int| 0 <= i < rows.len() ==> stands_for(#[trigger] rows[i], positions[i])
        }),
    decreases n,
{
    if n > 0 {
        lemma_inventory_after(kind, contexts, max, pages, n - 1);
        let page = pages[n - 1];
        let before = inventory_after(kind, contexts, max, pages, n - 1);
        let opened = page_opened(before, page);
        let count = page_rows(page).len() as int;
        lemma_page_inventory(opened, kind, contexts, max, page, count);
        let rows = inventory_after(kind, contexts, max, pages, n).rows;
        let positions = row_positions(pages, n);
        assert forall|i: int| 0 <= i < rows.len() implies stands_for(
            #[trigger] rows[i],
            positions[i],
        ) by {
            if i < before.rows.len() {
                assert(rows[i] == rows.take(before.rows.len() as int)[i]);
            }
        }
    }
}

/// The inventory is complete: it lists every row of every page once, in order, each under
/// the identifier of its page and position and with the text that is written there.
pub proof fn law_inventory_is_complete(
    document: ExtractedDocumentView,
    contexts: Seq<PageContextView>,
    max: u16,
)
    ensures
        ({
            let rows = source_rows(document, contexts, max);
            let positions = row_positions(document.pages, document.pages.len() as int);
            &&& rows.len() == positions.len()
            &&& forall|i: int| 0 <= i < rows.len() ==> stands_for(#[trigger] rows[i], positions[i])
        }),
{
    lemma_inventory_after(
        document.kind,
        contexts,
        max,
        document.pages,
        document.pages.len() as int,
    );
}

proof fn lemma_row_id_injective(a: u32, i: nat, b: u32, j: nat)
    requires
        row_id(a, i) == row_id(b, j),
    ensures
        a == b,
        i == j,
{
    reveal_strlit("p");
    reveal_strlit("_r");
    let s = row_id(a, i);
    let da = decimal(a as nat);
    let db = decimal(b as nat);
    let m: int = da.len() as int;
    let n: int = db.len() as int;
    lemma_decimal_is_digits(a as nat);
    lemma_decimal_is_digits(b as nat);
    assert forall|k: int| 1 <= k < 1 + m implies within(CharClass::Digit, #[trigger] s[k]) by {
        assert(s[k] == da[k - 1]);
        assert(is_digit(da[k - 1]));
    }
    assert(s[1 + m] == '_');
    lemma_run_end_is(s, CharClass::Digit, 1, 1 + m);
    assert forall|k: int| 1 <= k < 1 + n implies within(CharClass::Digit, #[trigger] s[k]) by {
        assert(s[k] == db[k - 1]);
        assert(is_digit(db[k - 1]));
    }
    assert(s[1 + n] == '_');
    lemma_run_end_is(s, CharClass::Digit, 1, 1 + n);
    assert(s.subrange(1, 1 + m) =~= da);
    assert(s.subrange(1, 1 + n) =~= db);
    lemma_decimal_injective(a as nat, b as nat);
    assert(s.skip(3 + m) =~= decimal(i + 1));
    assert(s.skip(3 + n) =~= decimal(j + 1));
    lemma_decimal_injective(i + 1, j + 1);
}

proof fn lemma_positions_distinct(pages: Seq<ExtractedPageView>, n: int, i: int, j: int)
    requires
        0 <= n <= pages.len(),
        forall|p: int, q: int|
            0 <= p < q < pages.len() ==> (#[trigger] pages[p]).physical_page != (
            #[trigger] pages[q]).physical_page,
        0 <= i < j < row_positions(pages, n).len(),
    ensures
        row_positions(pages, n)[i].0 != row_positions(pages, n)[j].0 || row_positions(pages, n)[i].1
            != row_positions(pages, n)[j].1,
    decreases n,
{
    if n > 0 {
        let before = row_positions(pages, n - 1);
        if j < before.len() {
            lemma_positions_distinct(pages, n - 1, i, j);
        } else if i < before.len() {
            lemma_positions_pages(pages, n - 1, i);
        }
    }
}

proof fn lemma_positions_pages(pages: Seq<ExtractedPageView>, n: int, i: int)
    requires
        0 <= n <= pages.len(),
        0 <= i < row_positions(pages, n).len(),
    ensures
        exists|p: int|
            0 <= p < n && (#[trigger] pages[p]).physical_page == row_positions(pages, n)[i].0,
        row_positions(pages, n)[i].1 >= 0,
    decreases n,
{
    if n > 0 {
        let before = row_positions(pages, n - 1);
        if i < before.len() {
            lemma_positions_pages(pages, n - 1, i);
        } else {
            assert(pages[n - 1].physical_page == row_positions(pages, n)[i].0);
        }
    }
}

/// In a document whose pages have different numbers, no two rows share an identifier.
pub proof fn law_row_ids_are_unique(
    document: ExtractedDocumentView,
    contexts: Seq<PageContextView>,
    max: u16,
)
    requires
        forall|p: int, q: int|
            0 <= p < q < document.pages.len() ==> (#[trigger] document.pages[p]).physical_page != (
            #[trigger] document.pages[q]).physical_page,
    ensures
        forall|i: int, j: int|
            0 <= i < j < source_rows(document, contexts, max).len() ==> (
            #[trigger] source_rows(document, contexts, max)[i]).id != (
            #[trigger] source_rows(document, contexts, max)[j]).id,
{
    let rows = source_rows(document, contexts, max);
    let n = document.pages.len() as int;
    let positions = row_positions(document.pages, n);
    law_inventory_is_complete(document, contexts, max);
    assert forall|i: int, j: int| 0 <= i < j < rows.len() implies (#[trigger] rows[i]).id != (
    #[trigger] rows[j]).id by {
        lemma_positions_distinct(document.pages, n, i, j);
        lemma_positions_pages(document.pages, n, i);
        lemma_positions_pages(document.pages, n, j);
        if rows[i].id == rows[j].id {
            lemma_row_id_injective(
                positions[i].0,
                positions[i].1 as nat,
                positions[j].0,
                positions[j].1 as nat,
            );
        }
    }
}

/// Repetition alone never removes testimony: a row changes only if it has no line number,
/// lies in the top margin, and its text was seen there on three pages.
pub proof fn law_repetition_alone_removes_nothing(
    row: CanonicalRowView,
    notes: Seq<(Seq<char>, Seq<u32>)>,
)
    ensures
        settled_row(row, notes) != row ==> row.line_number is None && top_margin(row.bbox)
            && sightings(notes, row.text) >= 3,
        settled_row(row, notes).text == row.text,
        settled_row(row, notes).id == row.id,
{
}

/// Whether no text counts a page twice.
pub open spec fn pages_counted_once(notes: Seq<(Seq<char>, Seq<u32>)>) -> bool {
    forall|i: int| 0 <= i < notes.len() ==> (#[trigger] notes[i]).1.no_duplicates()
}

proof fn lemma_noted_once(notes: Seq<(Seq<char>, Seq<u32>)>, text: Seq<char>, page: u32)
    requires
        pages_counted_once(notes),
    ensures
        pages_counted_once(noted(notes, text, page)),
{
    lemma_note_index(notes, text, 0);
    let i = note_index(notes, text, 0);
    let after = noted(notes, text, page);
    assert forall|k: int| 0 <= k < after.len() implies (#[trigger] after[k]).1.no_duplicates() by {
        if k < notes.len() {
            assert(notes[k].1.no_duplicates());
        }
    }
}

proof fn lemma_page_counted_once(
    inventory: Inventory,
    kind: DocumentKind,
    contexts: Seq<PageContextView>,
    max: u16,
    page: ExtractedPageView,
    k: int,
)
    requires
        pages_counted_once(inventory.notes),
    ensures
        pages_counted_once(page_inventory(inventory, kind, contexts, max, page, k).notes),
    decreases k,
{
    if k > 0 {
        lemma_page_counted_once(inventory, kind, contexts, max, page, k - 1);
        let before = page_inventory(inventory, kind, contexts, max, page, k - 1);
        let body = source_line(page, page_rows(page)[k - 1], max).1;
        lemma_noted_once(before.notes, trimmed(body), page.physical_page);
    }
}

/// A text that repeats within one page counts once for it.
pub proof fn law_sightings_count_pages(
    kind: DocumentKind,
    contexts: Seq<PageContextView>,
    max: u16,
    pages: Seq<ExtractedPageView>,
    n: int,
)
    requires
        0 <= n <= pages.len(),
    ensures
        pages_counted_once(inventory_after(kind, contexts, max, pages, n).notes),
    decreases n,
{
    if n > 0 {
        law_sightings_count_pages(kind, contexts, max, pages, n - 1);
        let page = pages[n - 1];
        let opened = page_opened(inventory_after(kind, contexts, max, pages, n - 1), page);
        lemma_page_counted_once(
            opened,
            kind,
            contexts,
            max,
            page,
            page_rows(page).len() as int,
        );
    }
}

// ---------------------------------------------------------------------------
// What becomes of a row
// ---------------------------------------------------------------------------

/// The rows of a page are those that the layout recovered, and where it recovered none, the lines
/// of the text that hold anything.
pub proof fn law_rows_of_a_page(page: ExtractedPageView, i: int)
    ensures
        page.layout.used_positioned_reconstruction ==> page_rows(page).len()
            == page.visual_rows.len(),
        page.layout.used_positioned_reconstruction && 0 <= i < page.visual_rows.len() ==> page_rows(
            page,
        )[i] == page.visual_rows[i].text,
        !page.layout.used_positioned_reconstruction ==> page_rows(page) == lines_of(
            page.text,
        ).filter(|line: Seq<char>| trimmed(line).len() > 0),
{
    law_text_rows_are_the_filled_lines(page.text);
}

/// A row of the inventory has the number and the text of its line, and stands where the line does.
/// On a page of testimony it is dialogue, unless it is a page label, holds nothing but a line
/// number, or stands among the appearances before anyone speaks; on a reference page it is
/// reference; on a cover, a caption or a page of appearances front matter; and on a page that is
/// none of these it is unclassified.
pub proof fn law_rows_are_disposed_of(
    kind: DocumentKind,
    contexts: Seq<PageContextView>,
    max: u16,
    page: ExtractedPageView,
    index: int,
    started: bool,
)
    requires
        0 <= index < page_rows(page).len(),
    ensures
        ({
            let row = inventory_row(kind, contexts, max, page, index, started);
            let raw = page_rows(page)[index];
            let (number, body) = source_line(page, raw, max);
            let label = row.transcript_page;
            let furniture = row.event_kind == RowEventKind::PageHeader;
            let section = page.section;
            let reference = section == PageSection::WordIndex || section
                == PageSection::ExhibitIndex || section == PageSection::Certificate || section
                == PageSection::Errata || section == PageSection::Appendix || section
                == PageSection::Attachment;
            let front = section == PageSection::Cover || section == PageSection::Caption || section
                == PageSection::Appearances;
            let filled = trimmed(body).len() > 0;
            let preamble = row.disposition == RowDisposition::FrontMatter && section
                == PageSection::Transcript;
            &&& row.line_number == number
            &&& row.text == trimmed(body)
            &&& row.raw_text == trimmed(raw)
            &&& row.physical_page == page.physical_page
            &&& row.section == section
            &&& row.row_index == index as usize
            &&& furniture <==> row.disposition == RowDisposition::PageFurniture
            &&& furniture && number is None ==> label is Some && (marked_page(body) is Some
                || numeric_page(body) is Some)
            &&& furniture && number is Some ==> index < 3 && numeric_page(body) is Some
            &&& number is None && label is Some && numeric_page(body) is Some && label == Some(
                decimal(numeric_page(body)->0 as nat),
            ) ==> furniture
            &&& number is None && label is Some && numeric_page(body) is None && marked_page(
                body,
            ) is Some && label == Some(decimal(marked_page(body)->0 as nat)) ==> furniture
            &&& !furniture && !filled && body.len() == 0 ==> row.disposition
                == RowDisposition::BlankNumberedLine
            &&& !furniture && filled && reference ==> row.disposition == RowDisposition::Reference
            &&& !furniture && filled && front ==> row.disposition == RowDisposition::FrontMatter
            &&& !furniture && filled && section == PageSection::Transcript && started
                ==> row.disposition == RowDisposition::Dialogue
            &&& !furniture && filled && section == PageSection::Transcript && opens_turn(body)
                ==> row.disposition == RowDisposition::Dialogue
            &&& !furniture && filled && section == PageSection::Transcript && !lists_appearances(
                page,
                max,
            ) ==> row.disposition == RowDisposition::Dialogue
            &&& !furniture && filled && section == PageSection::Unknown ==> row.disposition
                == RowDisposition::Unclassified
            &&& preamble ==> !started && !opens_turn(body) && lists_appearances(page, max)
        }),
{
}

/// A conversation starts with the first row of testimony that opens a turn, stays started on pages
/// of testimony, and ends with a page of anything else.
pub proof fn law_conversations_start_with_a_turn(
    inventory: Inventory,
    kind: DocumentKind,
    contexts: Seq<PageContextView>,
    max: u16,
    page: ExtractedPageView,
    index: int,
)
    requires
        0 <= index < page_rows(page).len(),
    ensures
        ({
            let after = inventory_step(inventory, kind, contexts, max, page, index);
            let body = source_line(page, page_rows(page)[index], max).1;
            &&& after.rows.len() == inventory.rows.len() + 1
            &&& after.rows.drop_last() == inventory.rows
            &&& after.rows.last() == inventory_row(
                kind,
                contexts,
                max,
                page,
                index,
                inventory.started,
            )
            &&& inventory.started ==> after.started
            &&& after.started && !inventory.started ==> page.section == PageSection::Transcript
                && opens_turn(body)
            &&& page.section == PageSection::Transcript && opens_turn(body) && body.len() > 0
                && after.rows.last().event_kind != RowEventKind::PageHeader ==> after.started
            &&& page.section != PageSection::Transcript ==> !page_opened(inventory, page).started
            &&& page.section == PageSection::Transcript ==> page_opened(inventory, page).started
                == inventory.started
        }),
{
    let after = inventory_step(inventory, kind, contexts, max, page, index);
    assert(after.rows.drop_last() =~= inventory.rows);
}

/// A turn opens with a label and a colon, with a title, a name and a full stop, with a marker, or
/// with "BY".
pub proof fn law_turns_open_so(body: Seq<char>)
    ensures
        opens_turn(body) <==> colon_turn(body) is Some || titled_turn(body) is Some
            || marker_candidate(body) is Some || has_prefix(uppercased(trimmed(body)), "BY "@),
{
}

/// A page lists appearances where one of its lines, its number aside, opens with "APPEARANCES", or
/// with "FOR" and ends in a colon, in any case.
pub proof fn law_appearances_are_listed(page: ExtractedPageView, max: u16, i: int)
    ensures
        ({
            let said = |k: int|
                uppercased(source_line(page, trimmed(lines_of(page.text)[k]), max).1);
            let lists = |k: int|
                has_prefix(said(k), "APPEARANCES"@) || (has_prefix(said(k), "FOR "@) && end_trimmed(
                    said(k),
                ).len() > 0 && end_trimmed(said(k)).last() == ':');
            &&& 0 <= i < lines_of(page.text).len() && lists(i) ==> lists_appearances(page, max)
            &&& (forall|k: int|
                0 <= k < lines_of(page.text).len() && #[trigger] lines_of(page.text)[k].len() >= 0
                    ==> !lists(k)) ==> !lists_appearances(page, max)
        }),
{
    let lines = lines_of(page.text);
    if 0 <= i < lines.len() && appearance_line(source_line(page, trimmed(lines[i]), max).1) {
        assert(lists_appearances(page, max));
    }
    if lists_appearances(page, max) {
        let k = choose|k: int|
            0 <= k < lines.len() && appearance_line(
                source_line(page, trimmed(#[trigger] lines[k]), max).1,
            );
        assert(lines_of(page.text)[k].len() >= 0);
    }
}

/// A row has a layout row behind it where the layout recovered the rows of its page; from it come
/// its panel, its box and how well it was read.
pub proof fn law_rows_have_their_layout(
    kind: DocumentKind,
    contexts: Seq<PageContextView>,
    max: u16,
    page: ExtractedPageView,
    index: int,
    started: bool,
)
    requires
        0 <= index < page_rows(page).len(),
    ensures
        ({
            let row = inventory_row(kind, contexts, max, page, index, started);
            let positioned = page.layout.used_positioned_reconstruction;
            let visual = page.visual_rows[index];
            &&& positioned ==> row.panel == visual.panel && row.bbox == visual.bbox
                && row.ocr_confidence == visual.ocr_confidence
            &&& !positioned ==> row.panel == 0 && row.bbox is None && row.ocr_confidence is None
            &&& positioned && visual.printed_page is Some ==> row.transcript_page
                == visual.printed_page
            &&& !(positioned && visual.printed_page is Some) ==> row.transcript_page == page_label(
                contexts,
                page.physical_page,
            )
            &&& positioned && visual.fragments.len() > 0 ==> row.source
                == visual.fragments[0].source
            &&& !(positioned && visual.fragments.len() > 0) && kind == DocumentKind::Text
                ==> row.source == TextSource::PlainText
            &&& !(positioned && visual.fragments.len() > 0) && kind != DocumentKind::Text
                ==> row.source == TextSource::FallbackText
            &&& row.id == "p"@ + decimal(page.physical_page as nat) + "_r"@ + decimal(
                (index + 1) as nat,
            )
            &&& row.speaker_anchor_label is None && row.speaker_participant_id is None
                && row.format_region_id is None && row.timestamp is None
        }),
{
}

/// A page label that was taken for a numbered line is one of the first three rows, with a second
/// word of three bytes or more that starts with a zero, and shows the number of its page.
pub proof fn law_labels_taken_for_lines(
    number: Option<u16>,
    raw: Seq<char>,
    body: Seq<char>,
    index: int,
    label: Option<Seq<char>>,
)
    ensures
        ({
            let list = words_of(trimmed(raw));
            let page = numeric_page(body);
            numbered_label_row(number, raw, body, index, label) <==> number is Some && index < 3
                && list.len() >= 2 && byte_len(list[1]) >= 3 && list[1].len() > 0 && list[1][0]
                == '0' && label is Some && page is Some && label == Some(decimal(page->0 as nat))
        }),
{
}

/// The top margin is what lies above 45, and a box that is not known lies nowhere.
pub proof fn law_the_top_margin(bbox: Option<[Measure; 4]>)
    ensures
        bbox is None ==> !top_margin(bbox),
        bbox matches Some(b) ==> (top_margin(bbox) <==> b[1] < 0x4046_8000_0000_0000),
{
}

/// A row without a number in the top margin whose text was seen there on three pages is furniture;
/// every other row stays.
pub proof fn law_repeated_margins_are_furniture(
    row: CanonicalRowView,
    notes: Seq<(Seq<char>, Seq<u32>)>,
)
    ensures
        ({
            let after = settled_row(row, notes);
            let repeats = row.line_number is None && top_margin(row.bbox) && sightings(
                notes,
                row.text,
            ) >= 3;
            &&& !repeats ==> after == row
            &&& repeats ==> after.disposition == RowDisposition::PageFurniture && after.event_kind
                == RowEventKind::PageHeader && after.text == row.text && after.id == row.id
        }),
{
}

/// What is seen in the margin is noted with its page, once for each page; the rest stays.
pub proof fn law_margins_are_noted(
    inventory: Inventory,
    kind: DocumentKind,
    contexts: Seq<PageContextView>,
    max: u16,
    page: ExtractedPageView,
    index: int,
)
    requires
        0 <= index < page_rows(page).len(),
    ensures
        ({
            let after = inventory_step(inventory, kind, contexts, max, page, index);
            let row = inventory_row(kind, contexts, max, page, index, inventory.started);
            let (number, body) = source_line(page, page_rows(page)[index], max);
            let marginal = number is None && top_margin(row.bbox) && !opens_turn(body) && trimmed(
                body,
            ).len() > 0;
            &&& after.rows == inventory.rows.push(row)
            &&& marginal ==> after.notes == noted(
                inventory.notes,
                trimmed(body),
                page.physical_page,
            )
            &&& !marginal ==> after.notes == inventory.notes
        }),
{
}

} // verus!
