//! The transcript as consumers read it. It is a projection of the parse, never a second one:
//! utterances mirror blocks, and rows mirror the inventory.
use vstd::prelude::*;

use crate::document::models::{
    ExtractedDocument, ExtractedDocumentView, ExtractedPage, ExtractedPageView,
};
use crate::lookup::{last_position, lemma_occurs, Lookup};
use crate::measure::{
    least, smaller, Measure, Ratio, MEASURE_0, MEASURE_0_65, MEASURE_0_70, MEASURE_0_90,
    MEASURE_0_95, MEASURE_1,
};
use crate::number::{decimal, next, push_decimal, succ, sum, total};
use crate::order::{insert_sorted, inserted};
use crate::scan::{strip_prefixes, without_prefixes};
use crate::text::{clone_option, push_item, same_option};
use crate::transcript::blocks::{has_label_evidence, label_evidence, owned_rows};
use crate::transcript::graph::{build_transcript_graph, transcript_graph};
use crate::transcript::models::{
    page_label, ClassificationConfidence, GraphEdgeKind, LineKind, Participant, ParticipantView,
    SpeakerView, TranscriptBlock, TranscriptBlockView, TranscriptContext, TranscriptContextView,
    TranscriptGraphEdge, TranscriptGraphEdgeView, TranscriptLine, TranscriptLineView,
    VerificationStatus,
};
use crate::transcript::omni_models::{
    CanonicalRow, CanonicalRowView, ConversationEdge, ConversationEdgeView, ConversationRelation,
    DiscourseRole, Entity, EntityKind, EntityMention, EntityView, FormatGrammarKind, FormatRegion,
    FormatRegionView, OmniDiagnostics, OmniDiagnosticsView, PageContinuity, PageContinuityView,
    PageFrame, PageFrameView, RowDisposition, RowEventKind, SourceSpan, SourceSpanView,
    TranscriptIr, TranscriptIrDocument, TranscriptIrView, Utterance, UtteranceConfidence,
    UtteranceView,
};

verus! {

// ---------------------------------------------------------------------------
// Rows
// ---------------------------------------------------------------------------

/// The source rows of lines.
pub open spec fn line_row_ids(lines: Seq<TranscriptLineView>) -> Seq<Seq<char>> {
    Seq::new(lines.len(), |i: int| lines[i].source_row_id)
}

fn row_ids_of_lines(lines: &Vec<TranscriptLine>) -> (r: Vec<String>)
    ensures
        r.deep_view() == line_row_ids(lines.deep_view()),
{
    let ghost all = line_row_ids(lines.deep_view());
    let mut r: Vec<String> = Vec::new();
    for i in 0..lines.len()
        invariant
            all == line_row_ids(lines.deep_view()),
            r.deep_view() == all.take(i as int),
    {
        push_item(&mut r, lines[i].source_row_id.clone());
        assert(all.take(i + 1) =~= all.take(i as int).push(lines@[i as int].source_row_id@));
    }
    assert(all.take(all.len() as int) =~= all);
    r
}

/// The identifiers of rows.
pub open spec fn row_ids(rows: Seq<CanonicalRowView>) -> Seq<Seq<char>> {
    Seq::new(rows.len(), |i: int| rows[i].id)
}

/// Computes [`row_ids`].
pub fn ids_of_rows(rows: &Vec<CanonicalRow>) -> (r: Vec<String>)
    ensures
        r.deep_view() == row_ids(rows.deep_view()),
{
    let ghost all = row_ids(rows.deep_view());
    let mut r: Vec<String> = Vec::new();
    for i in 0..rows.len()
        invariant
            all == row_ids(rows.deep_view()),
            r.deep_view() == all.take(i as int),
    {
        push_item(&mut r, rows[i].id.clone());
        assert(all.take(i + 1) =~= all.take(i as int).push(rows@[i as int].id@));
    }
    assert(all.take(all.len() as int) =~= all);
    r
}

/// The line that was read from a row.
pub open spec fn row_line(lines: Seq<TranscriptLineView>, id: Seq<char>) -> Option<int> {
    last_position(line_row_ids(lines), id, lines.len() as int)
}

/// What the line read from a row makes the row open.
pub open spec fn line_event(line: TranscriptLineView) -> RowEventKind {
    match line.kind {
        LineKind::Question => RowEventKind::QuestionMarker,
        LineKind::Answer => RowEventKind::AnswerMarker,
        LineKind::ExaminationHeading => RowEventKind::ExaminationHeading,
        LineKind::Parenthetical | LineKind::ExhibitMarker => RowEventKind::Parenthetical,
        LineKind::RedactionMarker => RowEventKind::Redaction,
        LineKind::Heading => RowEventKind::Procedural,
        LineKind::PageHeader => RowEventKind::PageHeader,
        _ => if line.starts_new_block && line.speaker is Some {
            RowEventKind::SpeakerAnchor
        } else {
            RowEventKind::Text
        },
    }
}

fn event_of_line(line: &TranscriptLine) -> (r: RowEventKind)
    ensures
        r == line_event(line.deep_view()),
{
    match line.kind {
        LineKind::Question => RowEventKind::QuestionMarker,
        LineKind::Answer => RowEventKind::AnswerMarker,
        LineKind::ExaminationHeading => RowEventKind::ExaminationHeading,
        LineKind::Parenthetical | LineKind::ExhibitMarker => RowEventKind::Parenthetical,
        LineKind::RedactionMarker => RowEventKind::Redaction,
        LineKind::Heading => RowEventKind::Procedural,
        LineKind::PageHeader => RowEventKind::PageHeader,
        _ => if line.starts_new_block && line.speaker.is_some() {
            RowEventKind::SpeakerAnchor
        } else {
            RowEventKind::Text
        },
    }
}

/// The label of a speaker.
pub open spec fn speaker_label(speaker: Option<SpeakerView>) -> Option<Seq<char>> {
    match speaker {
        Some(s) => Some(s.label),
        None => None,
    }
}

/// A row with what the line read from it says.
pub open spec fn annotated_row(row: CanonicalRowView, lines: Seq<TranscriptLineView>) ->
    CanonicalRowView {
    match row_line(lines, row.id) {
        Some(i) => CanonicalRowView {
            speaker_anchor_label: speaker_label(lines[i].speaker),
            speaker_participant_id: lines[i].participant_id,
            event_kind: line_event(lines[i]),
            ..row
        },
        None => row,
    }
}

fn annotate_row(row: &mut CanonicalRow, lines: &Vec<TranscriptLine>, lookup: &Lookup)
    requires
        lookup.wf(),
        lookup.ids() == line_row_ids(lines.deep_view()),
    ensures
        final(row).deep_view() == annotated_row(old(row).deep_view(), lines.deep_view()),
{
    match lookup.position(row.id.as_str()) {
        Some(i) => {
            assert(lines.deep_view()[i as int] == lines@[i as int].deep_view());
            let line = &lines[i];
            row.speaker_anchor_label = match &line.speaker {
                Some(s) => Some(s.label.clone()),
                None => None,
            };
            row.speaker_participant_id = clone_option(&line.participant_id);
            row.event_kind = event_of_line(line);
        },
        None => {},
    }
}

/// Rows with what the lines read from them say.
pub open spec fn annotated_rows(rows: Seq<CanonicalRowView>, lines: Seq<TranscriptLineView>) -> Seq<
    CanonicalRowView,
> {
    Seq::new(rows.len(), |i: int| annotated_row(rows[i], lines))
}

fn annotate_rows(rows: &mut Vec<CanonicalRow>, lines: &Vec<TranscriptLine>, lookup: &Lookup)
    requires
        lookup.wf(),
        lookup.ids() == line_row_ids(lines.deep_view()),
    ensures
        final(rows).deep_view() == annotated_rows(old(rows).deep_view(), lines.deep_view()),
{
    let ghost before = rows.deep_view();
    let ghost view = lines.deep_view();
    let count = rows.len();
    for i in 0..count
        invariant
            count == rows@.len(),
            count == before.len(),
            view == lines.deep_view(),
            lookup.wf(),
            lookup.ids() == line_row_ids(view),
            forall|j: int|
                0 <= j < count ==> (#[trigger] rows.deep_view()[j]) == if j < i {
                    annotated_row(before[j], view)
                } else {
                    before[j]
                },
    {
        let ghost now = rows.deep_view();
        assert(now[i as int] == rows@[i as int].deep_view());
        annotate_row(&mut rows[i], lines, lookup);
        assert(rows.deep_view() =~= now.update(i as int, annotated_row(before[i as int], view)));
    }
    assert(rows.deep_view() =~= annotated_rows(before, view));
}

// ---------------------------------------------------------------------------
// Format regions
// ---------------------------------------------------------------------------

/// How a page marks its turns, in numbers.
#[derive(Clone, Copy)]
pub struct PageSignal {
    pub page: u32,
    pub speakers: usize,
    pub questions: usize,
    pub answers: usize,
    pub headings: usize,
}

impl DeepView for PageSignal {
    type V = PageSignal;

    open spec fn deep_view(&self) -> PageSignal {
        *self
    }
}

/// One more where a condition holds.
pub open spec fn counted(n: usize, condition: bool) -> usize {
    if condition {
        succ(n)
    } else {
        n
    }
}

fn count_if(n: usize, condition: bool) -> (r: usize)
    ensures
        r == counted(n, condition),
{
    if condition {
        next(n)
    } else {
        n
    }
}

/// The signals of a page after one more line.
pub open spec fn signal_with(signal: PageSignal, line: Option<TranscriptLineView>) -> PageSignal {
    match line {
        Some(l) if l.starts_new_block => {
            let explicit = l.confidence == ClassificationConfidence::Explicit;
            PageSignal {
                page: signal.page,
                speakers: counted(signal.speakers, label_evidence(l.evidence.items)),
                questions: counted(signal.questions, explicit && l.kind == LineKind::Question),
                answers: counted(signal.answers, explicit && l.kind == LineKind::Answer),
                headings: counted(signal.headings, l.kind == LineKind::ExaminationHeading),
            }
        },
        _ => signal,
    }
}

fn signal_after(signal: PageSignal, line: Option<&TranscriptLine>) -> (r: PageSignal)
    ensures
        r == signal_with(signal, line.deep_view()),
{
    match line {
        Some(l) => {
            if l.starts_new_block {
                let explicit = l.confidence == ClassificationConfidence::Explicit;
                PageSignal {
                    page: signal.page,
                    speakers: count_if(signal.speakers, has_label_evidence(l)),
                    questions: count_if(
                        signal.questions,
                        explicit && l.kind == LineKind::Question,
                    ),
                    answers: count_if(signal.answers, explicit && l.kind == LineKind::Answer),
                    headings: count_if(signal.headings, l.kind == LineKind::ExaminationHeading),
                }
            } else {
                signal
            }
        },
        None => signal,
    }
}

/// Where the first page from `from` on stands whose number is not below `page`.
pub open spec fn signal_place(signals: Seq<PageSignal>, page: u32, from: int) -> int
    decreases signals.len() - from,
{
    if 0 <= from < signals.len() && signals[from].page < page {
        signal_place(signals, page, from + 1)
    } else {
        from
    }
}

/// The signals of pages, in the order of their numbers, after one more row.
pub open spec fn signals_with(
    signals: Seq<PageSignal>,
    page: u32,
    line: Option<TranscriptLineView>,
) -> Seq<PageSignal> {
    let i = signal_place(signals, page, 0);
    if i < signals.len() && signals[i].page == page {
        signals.update(i, signal_with(signals[i], line))
    } else {
        signals.insert(
            i,
            signal_with(
                PageSignal { page, speakers: 0, questions: 0, answers: 0, headings: 0 },
                line,
            ),
        )
    }
}

fn add_signal(signals: &mut Vec<PageSignal>, page: u32, line: Option<&TranscriptLine>)
    ensures
        final(signals)@ == signals_with(old(signals)@, page, line.deep_view()),
{
    let mut i: usize = 0;
    while i < signals.len() && signals[i].page < page
        invariant
            i <= signals@.len(),
            signal_place(signals@, page, i as int) == signal_place(signals@, page, 0),
        decreases signals@.len() - i,
    {
        i += 1;
    }
    if i < signals.len() && signals[i].page == page {
        let signal = signal_after(signals[i], line);
        signals.set(i, signal);
    } else {
        let signal = signal_after(
            PageSignal { page, speakers: 0, questions: 0, answers: 0, headings: 0 },
            line,
        );
        signals.insert(i, signal);
    }
}

/// The line read from a row, if there is one.
pub open spec fn line_of_row(lines: Seq<TranscriptLineView>, row: CanonicalRowView) -> Option<
    TranscriptLineView,
> {
    match row_line(lines, row.id) {
        Some(i) => Some(lines[i]),
        None => None,
    }
}

/// The signals of the pages that the first `n` rows stand on. Only dialogue counts.
pub open spec fn page_signals(
    rows: Seq<CanonicalRowView>,
    lines: Seq<TranscriptLineView>,
    n: int,
) -> Seq<PageSignal>
    decreases n,
{
    if n <= 0 {
        seq![]
    } else {
        let row = rows[n - 1];
        if row.disposition == RowDisposition::Dialogue {
            signals_with(
                page_signals(rows, lines, n - 1),
                row.physical_page,
                line_of_row(lines, row),
            )
        } else {
            page_signals(rows, lines, n - 1)
        }
    }
}

fn collect_signals(rows: &Vec<CanonicalRow>, lines: &Vec<TranscriptLine>, lookup: &Lookup) -> (r:
    Vec<PageSignal>)
    requires
        lookup.wf(),
        lookup.ids() == line_row_ids(lines.deep_view()),
    ensures
        r@ == page_signals(rows.deep_view(), lines.deep_view(), rows.deep_view().len() as int),
{
    let mut signals: Vec<PageSignal> = Vec::new();
    for n in 0..rows.len()
        invariant
            lookup.wf(),
            lookup.ids() == line_row_ids(lines.deep_view()),
            signals@ == page_signals(rows.deep_view(), lines.deep_view(), n as int),
    {
        assert(rows.deep_view()[n as int] == rows@[n as int].deep_view());
        if rows[n].disposition == RowDisposition::Dialogue {
            let line = match lookup.position(rows[n].id.as_str()) {
                Some(i) => {
                    assert(lines.deep_view()[i as int] == lines@[i as int].deep_view());
                    Some(&lines[i])
                },
                None => None,
            };
            add_signal(&mut signals, rows[n].physical_page, line);
        }
    }
    signals
}

/// The convention that the signals of a page speak for.
pub open spec fn signal_grammar(signal: PageSignal) -> FormatGrammarKind {
    let marked = signal.questions > 0 || signal.answers > 0;
    if signal.speakers > 0 && marked {
        FormatGrammarKind::Hybrid
    } else if signal.speakers > 0 {
        FormatGrammarKind::SpeakerPrefixed
    } else if marked {
        FormatGrammarKind::QaMarkers
    } else {
        FormatGrammarKind::Unknown
    }
}

fn grammar_of_signal(signal: &PageSignal) -> (r: FormatGrammarKind)
    ensures
        r == signal_grammar(*signal),
{
    let marked = signal.questions > 0 || signal.answers > 0;
    if signal.speakers > 0 && marked {
        FormatGrammarKind::Hybrid
    } else if signal.speakers > 0 {
        FormatGrammarKind::SpeakerPrefixed
    } else if marked {
        FormatGrammarKind::QaMarkers
    } else {
        FormatGrammarKind::Unknown
    }
}

/// The `n`th region, opened by a page.
pub open spec fn new_region(signal: PageSignal, n: nat) -> FormatRegionView {
    FormatRegionView {
        id: "format_region_"@ + decimal(n),
        grammar: signal_grammar(signal),
        physical_page_start: signal.page,
        physical_page_end: signal.page,
        speaker_anchor_observations: signal.speakers,
        question_marker_observations: signal.questions,
        answer_marker_observations: signal.answers,
        examination_heading_observations: signal.headings,
        confidence: if signal_grammar(signal) == FormatGrammarKind::Unknown {
            30
        } else {
            90
        },
    }
}

/// Whether a page continues a region: it follows it and keeps its convention.
pub open spec fn continues_region(region: FormatRegionView, signal: PageSignal) -> bool {
    region.grammar == signal_grammar(signal) && region.physical_page_end + 1 == signal.page
}

/// A region with one more page.
pub open spec fn extended_region(region: FormatRegionView, signal: PageSignal) ->
    FormatRegionView {
    FormatRegionView {
        physical_page_end: signal.page,
        speaker_anchor_observations: total(region.speaker_anchor_observations, signal.speakers),
        question_marker_observations: total(region.question_marker_observations, signal.questions),
        answer_marker_observations: total(region.answer_marker_observations, signal.answers),
        examination_heading_observations: total(
            region.examination_heading_observations,
            signal.headings,
        ),
        ..region
    }
}

/// The regions that the first `n` pages make.
pub open spec fn format_regions(signals: Seq<PageSignal>, n: int) -> Seq<FormatRegionView>
    decreases n,
{
    if n <= 0 {
        seq![]
    } else {
        let regions = format_regions(signals, n - 1);
        let signal = signals[n - 1];
        if regions.len() > 0 && continues_region(regions.last(), signal) {
            regions.update(regions.len() - 1, extended_region(regions.last(), signal))
        } else {
            regions.push(new_region(signal, regions.len() + 1))
        }
    }
}

fn open_region(signal: &PageSignal, n: usize) -> (r: FormatRegion)
    ensures
        r.deep_view() == new_region(*signal, n as nat),
{
    let mut id = "format_region_".to_owned();
    push_decimal(&mut id, n as u64);
    let grammar = grammar_of_signal(signal);
    FormatRegion {
        id,
        grammar,
        physical_page_start: signal.page,
        physical_page_end: signal.page,
        speaker_anchor_observations: signal.speakers,
        question_marker_observations: signal.questions,
        answer_marker_observations: signal.answers,
        examination_heading_observations: signal.headings,
        confidence: if grammar == FormatGrammarKind::Unknown {
            30
        } else {
            90
        },
    }
}

fn extend_region(region: &mut FormatRegion, signal: &PageSignal)
    ensures
        final(region).deep_view() == extended_region(old(region).deep_view(), *signal),
{
    region.physical_page_end = signal.page;
    region.speaker_anchor_observations = sum(region.speaker_anchor_observations, signal.speakers);
    region.question_marker_observations = sum(
        region.question_marker_observations,
        signal.questions,
    );
    region.answer_marker_observations = sum(region.answer_marker_observations, signal.answers);
    region.examination_heading_observations = sum(
        region.examination_heading_observations,
        signal.headings,
    );
}

fn build_regions(signals: &Vec<PageSignal>) -> (r: Vec<FormatRegion>)
    ensures
        r.deep_view() == format_regions(signals@, signals@.len() as int),
{
    let mut regions: Vec<FormatRegion> = Vec::new();
    assert(regions.deep_view() =~= seq![]);
    for n in 0..signals.len()
        invariant
            regions@.len() <= n,
            regions.deep_view() == format_regions(signals@, n as int),
    {
        let count = regions.len();
        let ghost view = regions.deep_view();
        assert(count > 0 ==> view[count - 1] == regions@[count - 1].deep_view());
        if count > 0 && regions[count - 1].grammar == grammar_of_signal(&signals[n])
            && regions[count - 1].physical_page_end as u64 + 1 == signals[n].page as u64 {
            extend_region(&mut regions[count - 1], &signals[n]);
            assert(regions.deep_view() =~= view.update(
                count - 1,
                extended_region(view[count - 1], signals@[n as int]),
            ));
        } else {
            push_item(&mut regions, open_region(&signals[n], count + 1));
        }
    }
    regions
}

/// The first region from `from` on that a page belongs to.
pub open spec fn region_of_page(regions: Seq<FormatRegionView>, page: u32, from: int) -> Option<
    Seq<char>,
>
    decreases regions.len() - from,
{
    if from < 0 || from >= regions.len() {
        None
    } else if regions[from].physical_page_start <= page <= regions[from].physical_page_end {
        Some(regions[from].id)
    } else {
        region_of_page(regions, page, from + 1)
    }
}

fn find_region(regions: &Vec<FormatRegion>, page: u32) -> (r: Option<String>)
    ensures
        r.deep_view() == region_of_page(regions.deep_view(), page, 0),
{
    for i in 0..regions.len()
        invariant
            region_of_page(regions.deep_view(), page, i as int) == region_of_page(
                regions.deep_view(),
                page,
                0,
            ),
    {
        assert(regions.deep_view()[i as int] == regions@[i as int].deep_view());
        if regions[i].physical_page_start <= page && page <= regions[i].physical_page_end {
            return Some(regions[i].id.clone());
        }
    }
    None
}

/// A row with the region that it belongs to.
pub open spec fn placed_row(row: CanonicalRowView, regions: Seq<FormatRegionView>) ->
    CanonicalRowView {
    if row.disposition == RowDisposition::Dialogue {
        CanonicalRowView {
            format_region_id: region_of_page(regions, row.physical_page, 0),
            ..row
        }
    } else {
        row
    }
}

/// Rows with the regions that they belong to.
pub open spec fn placed_rows(rows: Seq<CanonicalRowView>, regions: Seq<FormatRegionView>) -> Seq<
    CanonicalRowView,
> {
    Seq::new(rows.len(), |i: int| placed_row(rows[i], regions))
}

fn place_rows(rows: &mut Vec<CanonicalRow>, regions: &Vec<FormatRegion>)
    ensures
        final(rows).deep_view() == placed_rows(old(rows).deep_view(), regions.deep_view()),
{
    let ghost before = rows.deep_view();
    let ghost view = regions.deep_view();
    let count = rows.len();
    for i in 0..count
        invariant
            count == rows@.len(),
            count == before.len(),
            view == regions.deep_view(),
            forall|j: int|
                0 <= j < count ==> (#[trigger] rows.deep_view()[j]) == if j < i {
                    placed_row(before[j], view)
                } else {
                    before[j]
                },
    {
        let ghost now = rows.deep_view();
        assert(now[i as int] == rows@[i as int].deep_view());
        if rows[i].disposition == RowDisposition::Dialogue {
            let region = find_region(regions, rows[i].physical_page);
            rows[i].format_region_id = region;
        }
        assert(rows.deep_view() =~= now.update(i as int, placed_row(before[i as int], view)));
    }
    assert(rows.deep_view() =~= placed_rows(before, view));
}

/// The rows of a transcript as consumers read them.
pub open spec fn final_rows(rows: Seq<CanonicalRowView>, lines: Seq<TranscriptLineView>) -> Seq<
    CanonicalRowView,
> {
    placed_rows(annotated_rows(rows, lines), regions_of(rows, lines))
}

/// The regions of a transcript.
pub open spec fn regions_of(rows: Seq<CanonicalRowView>, lines: Seq<TranscriptLineView>) -> Seq<
    FormatRegionView,
> {
    let annotated = annotated_rows(rows, lines);
    let signals = page_signals(annotated, lines, annotated.len() as int);
    format_regions(signals, signals.len() as int)
}

// ---------------------------------------------------------------------------
// Utterances
// ---------------------------------------------------------------------------

/// The rows among the first `n` identifiers that the inventory knows.
pub open spec fn known_rows(rows: Seq<CanonicalRowView>, ids: Seq<Seq<char>>, n: int) -> Seq<
    CanonicalRowView,
>
    decreases n,
{
    if n <= 0 {
        seq![]
    } else {
        match last_position(row_ids(rows), ids[n - 1], rows.len() as int) {
            Some(i) => known_rows(rows, ids, n - 1).push(rows[i]),
            None => known_rows(rows, ids, n - 1),
        }
    }
}

fn find_known_rows<'a>(rows: &'a Vec<CanonicalRow>, ids: &Vec<String>, lookup: &Lookup) -> (r: Vec<
    &'a CanonicalRow,
>)
    requires
        lookup.wf(),
        lookup.ids() == row_ids(rows.deep_view()),
    ensures
        r.deep_view() == known_rows(
            rows.deep_view(),
            ids.deep_view(),
            ids.deep_view().len() as int,
        ),
{
    let mut r: Vec<&CanonicalRow> = Vec::new();
    assert(r.deep_view() =~= seq![]);
    for n in 0..ids.len()
        invariant
            lookup.wf(),
            lookup.ids() == row_ids(rows.deep_view()),
            r.deep_view() == known_rows(rows.deep_view(), ids.deep_view(), n as int),
    {
        assert(ids.deep_view()[n as int] == ids@[n as int]@);
        match lookup.position(ids[n].as_str()) {
            Some(i) => {
                assert(rows.deep_view()[i as int] == rows@[i as int].deep_view());
                push_item(&mut r, &rows[i]);
            },
            None => {},
        }
    }
    r
}

/// How well the first page with a number from `from` on was reconstructed.
pub open spec fn page_confidence(pages: Seq<ExtractedPageView>, page: u32, from: int) -> Measure
    decreases pages.len() - from,
{
    if from < 0 || from >= pages.len() {
        MEASURE_0
    } else if pages[from].physical_page == page {
        pages[from].layout.reconstruction_confidence
    } else {
        page_confidence(pages, page, from + 1)
    }
}

fn confidence_of_page(pages: &Vec<ExtractedPage>, page: u32) -> (r: Measure)
    ensures
        r == page_confidence(pages.deep_view(), page, 0),
{
    for i in 0..pages.len()
        invariant
            page_confidence(pages.deep_view(), page, i as int) == page_confidence(
                pages.deep_view(),
                page,
                0,
            ),
    {
        assert(pages.deep_view()[i as int] == pages@[i as int].deep_view());
        if pages[i].physical_page == page {
            return pages[i].layout.reconstruction_confidence;
        }
    }
    MEASURE_0
}

/// How well the worst page of the first `n` rows was reconstructed.
pub open spec fn source_confidence(
    pages: Seq<ExtractedPageView>,
    rows: Seq<CanonicalRowView>,
    n: int,
) -> Measure
    decreases n,
{
    if n <= 0 {
        MEASURE_1
    } else {
        smaller(
            source_confidence(pages, rows, n - 1),
            page_confidence(pages, rows[n - 1].physical_page, 0),
        )
    }
}

fn confidence_of_source(pages: &Vec<ExtractedPage>, rows: &Vec<&CanonicalRow>) -> (r: Measure)
    ensures
        r == source_confidence(
            pages.deep_view(),
            rows.deep_view(),
            rows.deep_view().len() as int,
        ),
{
    let mut r: Measure = MEASURE_1;
    for n in 0..rows.len()
        invariant
            r == source_confidence(pages.deep_view(), rows.deep_view(), n as int),
    {
        assert(rows.deep_view()[n as int] == rows@[n as int].deep_view());
        r = least(r, confidence_of_page(pages, rows[n].physical_page));
    }
    r
}

/// Whether a row continues a span: it stands on the same physical and transcript page.
pub open spec fn continues_span(span: SourceSpanView, row: CanonicalRowView) -> bool {
    span.physical_page_end == row.physical_page && span.transcript_page_end == row.transcript_page
}

/// A span opened by a row.
pub open spec fn new_span(row: CanonicalRowView) -> SourceSpanView {
    SourceSpanView {
        physical_page_start: row.physical_page,
        physical_page_end: row.physical_page,
        transcript_page_start: row.transcript_page,
        transcript_page_end: row.transcript_page,
        line_start: row.line_number,
        line_end: row.line_number,
        row_ids: seq![row.id],
    }
}

/// The spans that the first `n` rows make.
pub open spec fn spans_of(rows: Seq<CanonicalRowView>, n: int) -> Seq<SourceSpanView>
    decreases n,
{
    if n <= 0 {
        seq![]
    } else {
        let spans = spans_of(rows, n - 1);
        let row = rows[n - 1];
        if spans.len() > 0 && continues_span(spans.last(), row) {
            spans.update(
                spans.len() - 1,
                SourceSpanView {
                    line_end: row.line_number,
                    row_ids: spans.last().row_ids.push(row.id),
                    ..spans.last()
                },
            )
        } else {
            spans.push(new_span(row))
        }
    }
}

fn extend_span(span: &mut SourceSpan, row: &CanonicalRow)
    ensures
        final(span).deep_view() == (SourceSpanView {
            line_end: row.deep_view().line_number,
            row_ids: old(span).deep_view().row_ids.push(row.deep_view().id),
            ..old(span).deep_view()
        }),
{
    span.line_end = row.line_number;
    push_item(&mut span.row_ids, row.id.clone());
}

fn open_span(row: &CanonicalRow) -> (r: SourceSpan)
    ensures
        r.deep_view() == new_span(row.deep_view()),
{
    let mut row_ids: Vec<String> = Vec::new();
    push_item(&mut row_ids, row.id.clone());
    assert(row_ids.deep_view() =~= seq![row.id@]);
    SourceSpan {
        physical_page_start: row.physical_page,
        physical_page_end: row.physical_page,
        transcript_page_start: clone_option(&row.transcript_page),
        transcript_page_end: clone_option(&row.transcript_page),
        line_start: row.line_number,
        line_end: row.line_number,
        row_ids,
    }
}

fn source_spans(rows: &Vec<&CanonicalRow>) -> (r: Vec<SourceSpan>)
    ensures
        r.deep_view() == spans_of(rows.deep_view(), rows.deep_view().len() as int),
{
    let mut spans: Vec<SourceSpan> = Vec::new();
    assert(spans.deep_view() =~= seq![]);
    for n in 0..rows.len()
        invariant
            spans.deep_view() == spans_of(rows.deep_view(), n as int),
    {
        assert(rows.deep_view()[n as int] == rows@[n as int].deep_view());
        let row = rows[n];
        let count = spans.len();
        let ghost view = spans.deep_view();
        assert(count > 0 ==> view[count - 1] == spans@[count - 1].deep_view());
        if count > 0 && spans[count - 1].physical_page_end == row.physical_page && same_option(
            &spans[count - 1].transcript_page_end,
            &row.transcript_page,
        ) {
            extend_span(&mut spans[count - 1], row);
            assert(spans.deep_view() =~= spans_of(rows.deep_view(), n + 1));
        } else {
            push_item(&mut spans, open_span(row));
        }
    }
    spans
}

/// Whether a kind of block is no one's utterance.
pub open spec fn procedural(kind: LineKind) -> bool {
    kind == LineKind::Parenthetical || kind == LineKind::ExaminationHeading || kind
        == LineKind::Heading || kind == LineKind::ExhibitMarker || kind == LineKind::RedactionMarker
}

/// Decides [`procedural`].
pub fn is_procedural(kind: LineKind) -> (r: bool)
    ensures
        r == procedural(kind),
{
    kind == LineKind::Parenthetical || kind == LineKind::ExaminationHeading || kind
        == LineKind::Heading || kind == LineKind::ExhibitMarker || kind == LineKind::RedactionMarker
}

/// What a kind of block does in the conversation.
pub open spec fn discourse_role(kind: LineKind) -> DiscourseRole {
    match kind {
        LineKind::Question => DiscourseRole::Question,
        LineKind::Answer => DiscourseRole::Response,
        LineKind::Objection => DiscourseRole::Objection,
        LineKind::InterpreterStatement => DiscourseRole::Interpretation,
        LineKind::Unknown => DiscourseRole::Unknown,
        _ => if procedural(kind) {
            DiscourseRole::Procedural
        } else {
            DiscourseRole::Statement
        },
    }
}

fn role_in_discourse(kind: LineKind) -> (r: DiscourseRole)
    ensures
        r == discourse_role(kind),
{
    match kind {
        LineKind::Question => DiscourseRole::Question,
        LineKind::Answer => DiscourseRole::Response,
        LineKind::Objection => DiscourseRole::Objection,
        LineKind::InterpreterStatement => DiscourseRole::Interpretation,
        LineKind::Unknown => DiscourseRole::Unknown,
        _ => if is_procedural(kind) {
            DiscourseRole::Procedural
        } else {
            DiscourseRole::Statement
        },
    }
}

/// How sure an utterance is.
pub open spec fn utterance_confidence(block: TranscriptBlockView, source: Measure) ->
    UtteranceConfidence {
    let explicit = block.confidence == ClassificationConfidence::Explicit;
    UtteranceConfidence {
        speaker: if block.participant_id is Some {
            MEASURE_0_90
        } else {
            MEASURE_0
        },
        boundary: if explicit {
            MEASURE_0_95
        } else {
            MEASURE_0_70
        },
        discourse_role: if explicit {
            MEASURE_0_95
        } else {
            MEASURE_0_65
        },
        source,
    }
}

/// A block as an utterance. A redacted speaker leaves it uncertain.
pub open spec fn utterance_of(
    pages: Seq<ExtractedPageView>,
    rows: Seq<CanonicalRowView>,
    block: TranscriptBlockView,
) -> UtteranceView {
    let source = known_rows(rows, block.source_row_ids, block.source_row_ids.len() as int);
    UtteranceView {
        id: "utterance_"@ + block.id,
        participant_id: block.participant_id,
        speaker_label: speaker_label(block.speaker),
        discourse_role: discourse_role(block.kind),
        text: block.text,
        source_spans: spans_of(source, source.len() as int),
        confidence: utterance_confidence(
            block,
            source_confidence(pages, source, source.len() as int),
        ),
        verification: if block.speaker matches Some(s) && s.redacted {
            VerificationStatus::Uncertain
        } else {
            block.verification
        },
    }
}

/// Blocks as utterances.
pub open spec fn utterances_of(
    pages: Seq<ExtractedPageView>,
    rows: Seq<CanonicalRowView>,
    blocks: Seq<TranscriptBlockView>,
) -> Seq<UtteranceView> {
    Seq::new(blocks.len(), |i: int| utterance_of(pages, rows, blocks[i]))
}

fn make_utterance(
    pages: &Vec<ExtractedPage>,
    rows: &Vec<CanonicalRow>,
    block: &TranscriptBlock,
    lookup: &Lookup,
) -> (r: Utterance)
    requires
        lookup.wf(),
        lookup.ids() == row_ids(rows.deep_view()),
    ensures
        r.deep_view() == utterance_of(pages.deep_view(), rows.deep_view(), block.deep_view()),
{
    let source = find_known_rows(rows, &block.source_row_ids, lookup);
    let explicit = block.confidence == ClassificationConfidence::Explicit;
    let redacted = match &block.speaker {
        Some(s) => s.redacted,
        None => false,
    };
    Utterance {
        id: "utterance_".to_owned().concat(block.id.as_str()),
        participant_id: clone_option(&block.participant_id),
        speaker_label: match &block.speaker {
            Some(s) => Some(s.label.clone()),
            None => None,
        },
        discourse_role: role_in_discourse(block.kind),
        text: block.text.clone(),
        source_spans: source_spans(&source),
        confidence: UtteranceConfidence {
            speaker: if block.participant_id.is_some() {
                MEASURE_0_90
            } else {
                MEASURE_0
            },
            boundary: if explicit {
                MEASURE_0_95
            } else {
                MEASURE_0_70
            },
            discourse_role: if explicit {
                MEASURE_0_95
            } else {
                MEASURE_0_65
            },
            source: confidence_of_source(pages, &source),
        },
        verification: if redacted {
            VerificationStatus::Uncertain
        } else {
            block.verification
        },
    }
}

fn build_utterances(
    pages: &Vec<ExtractedPage>,
    rows: &Vec<CanonicalRow>,
    blocks: &Vec<TranscriptBlock>,
) -> (r: Vec<Utterance>)
    ensures
        r.deep_view() == utterances_of(pages.deep_view(), rows.deep_view(), blocks.deep_view()),
{
    let ghost all = utterances_of(pages.deep_view(), rows.deep_view(), blocks.deep_view());
    let lookup = Lookup::new(&ids_of_rows(rows));
    let mut r: Vec<Utterance> = Vec::new();
    for i in 0..blocks.len()
        invariant
            lookup.wf(),
            lookup.ids() == row_ids(rows.deep_view()),
            all == utterances_of(pages.deep_view(), rows.deep_view(), blocks.deep_view()),
            r.deep_view() == all.take(i as int),
    {
        assert(blocks.deep_view()[i as int] == blocks@[i as int].deep_view());
        push_item(&mut r, make_utterance(pages, rows, &blocks[i], &lookup));
        assert(all.take(i + 1) =~= all.take(i as int).push(all[i as int]));
    }
    assert(all.take(all.len() as int) =~= all);
    r
}

/// Utterances mirror blocks: there is one for each, in order, with its text and participant.
pub proof fn law_utterances_mirror_blocks(
    pages: Seq<ExtractedPageView>,
    rows: Seq<CanonicalRowView>,
    blocks: Seq<TranscriptBlockView>,
)
    ensures
        utterances_of(pages, rows, blocks).len() == blocks.len(),
        forall|i: int|
            0 <= i < blocks.len() ==> {
                let u = #[trigger] utterances_of(pages, rows, blocks)[i];
                u.text == blocks[i].text && u.participant_id == blocks[i].participant_id && u.id
                    == "utterance_"@ + blocks[i].id
            },
{
}

/// The rows that the first `n` spans list, in order.
pub open spec fn span_rows(spans: Seq<SourceSpanView>, n: int) -> Seq<Seq<char>>
    decreases n,
{
    if n <= 0 {
        seq![]
    } else {
        span_rows(spans, n - 1) + spans[n - 1].row_ids
    }
}

proof fn lemma_span_rows_prefix(a: Seq<SourceSpanView>, b: Seq<SourceSpanView>, n: int)
    requires
        0 <= n <= a.len(),
        n <= b.len(),
        forall|i: int| 0 <= i < n ==> a[i] == b[i],
    ensures
        span_rows(a, n) == span_rows(b, n),
    decreases n,
{
    if n > 0 {
        lemma_span_rows_prefix(a, b, n - 1);
    }
}

/// Spans list every row that they were made of, once and in order.
pub proof fn law_spans_list_their_rows(rows: Seq<CanonicalRowView>, n: int)
    requires
        0 <= n <= rows.len(),
    ensures
        span_rows(spans_of(rows, n), spans_of(rows, n).len() as int) == row_ids(rows).take(n),
    decreases n,
{
    if n > 0 {
        law_spans_list_their_rows(rows, n - 1);
        let before = spans_of(rows, n - 1);
        let after = spans_of(rows, n);
        let k = after.len() - 1;
        lemma_span_rows_prefix(before, after, k);
        if before.len() > 0 && continues_span(before.last(), rows[n - 1]) {
            assert(span_rows(after, k + 1) =~= span_rows(before, k + 1).push(rows[n - 1].id));
        } else {
            assert(span_rows(after, k + 1) =~= span_rows(before, k).push(rows[n - 1].id));
        }
        assert(row_ids(rows).take(n) =~= row_ids(rows).take(n - 1).push(rows[n - 1].id));
    } else {
        assert(row_ids(rows).take(0) =~= seq![]);
    }
}

/// Where every identifier is known, the rows found for identifiers have them.
pub proof fn lemma_known_rows(rows: Seq<CanonicalRowView>, ids: Seq<Seq<char>>, n: int)
    requires
        0 <= n <= ids.len(),
        forall|i: int| 0 <= i < ids.len() ==> row_ids(rows).contains(#[trigger] ids[i]),
    ensures
        row_ids(known_rows(rows, ids, n)) == ids.take(n),
    decreases n,
{
    if n > 0 {
        lemma_known_rows(rows, ids, n - 1);
        let all = row_ids(rows);
        lemma_occurs(all, ids[n - 1], rows.len() as int);
        assert(all.take(rows.len() as int) =~= all);
        assert(row_ids(known_rows(rows, ids, n)) =~= row_ids(known_rows(rows, ids, n - 1)).push(
            ids[n - 1],
        ));
        assert(ids.take(n) =~= ids.take(n - 1).push(ids[n - 1]));
    } else {
        assert(row_ids(known_rows(rows, ids, 0)) =~= ids.take(0));
    }
}

// ---------------------------------------------------------------------------
// Entities and relations
// ---------------------------------------------------------------------------

/// A participant as an entity.
pub open spec fn participant_entity(p: ParticipantView) -> EntityView {
    EntityView {
        id: "entity_"@ + p.id,
        canonical_label: match p.canonical_name {
            Some(name) => name,
            None => p.display_label,
        },
        kind: EntityKind::Person,
        participant_id: Some(p.id),
        observed_mentions: 0,
    }
}

/// The entities of the first `n` participants. Redacted participants are none.
pub open spec fn entities_of(list: Seq<ParticipantView>, n: int) -> Seq<EntityView>
    decreases n,
{
    if n <= 0 {
        seq![]
    } else if list[n - 1].redacted {
        entities_of(list, n - 1)
    } else {
        entities_of(list, n - 1).push(participant_entity(list[n - 1]))
    }
}

fn build_entities(list: &Vec<Participant>) -> (r: Vec<Entity>)
    ensures
        r.deep_view() == entities_of(list.deep_view(), list.deep_view().len() as int),
{
    let mut r: Vec<Entity> = Vec::new();
    assert(r.deep_view() =~= seq![]);
    for n in 0..list.len()
        invariant
            r.deep_view() == entities_of(list.deep_view(), n as int),
    {
        assert(list.deep_view()[n as int] == list@[n as int].deep_view());
        let p = &list[n];
        if !p.redacted {
            push_item(
                &mut r,
                Entity {
                    id: "entity_".to_owned().concat(p.id.as_str()),
                    canonical_label: match &p.canonical_name {
                        Some(name) => name.clone(),
                        None => p.display_label.clone(),
                    },
                    kind: EntityKind::Person,
                    participant_id: Some(p.id.clone()),
                    observed_mentions: 0,
                },
            );
        }
    }
    r
}

/// A relation between blocks as one between utterances.
pub open spec fn conversation_relation(kind: GraphEdgeKind) -> ConversationRelation {
    match kind {
        GraphEdgeKind::Follows => ConversationRelation::Follows,
        GraphEdgeKind::RespondsTo => ConversationRelation::RespondsTo,
        GraphEdgeKind::Interrupts => ConversationRelation::Interrupts,
        GraphEdgeKind::ResumesAfter => ConversationRelation::Resumes,
        GraphEdgeKind::Interprets => ConversationRelation::Clarifies,
    }
}

/// The utterance that the node of a block stands for.
pub open spec fn node_utterance(node: Seq<char>) -> Seq<char> {
    "utterance_"@ + without_prefixes(node, "node_"@)
}

/// An edge between nodes as one between utterances.
pub open spec fn conversation_edge(edge: TranscriptGraphEdgeView) -> ConversationEdgeView {
    ConversationEdgeView {
        from_utterance_id: node_utterance(edge.from),
        to_utterance_id: node_utterance(edge.to),
        relation: conversation_relation(edge.kind),
        confidence: if edge.kind == GraphEdgeKind::Follows {
            100
        } else {
            70
        },
    }
}

/// Edges between nodes as edges between utterances.
pub open spec fn conversation_edges_of(edges: Seq<TranscriptGraphEdgeView>) -> Seq<
    ConversationEdgeView,
> {
    Seq::new(edges.len(), |i: int| conversation_edge(edges[i]))
}

fn make_conversation_edge(edge: &TranscriptGraphEdge) -> (r: ConversationEdge)
    ensures
        r.deep_view() == conversation_edge(edge.deep_view()),
{
    ConversationEdge {
        from_utterance_id: "utterance_".to_owned().concat(
            strip_prefixes(edge.from.as_str(), "node_"),
        ),
        to_utterance_id: "utterance_".to_owned().concat(strip_prefixes(edge.to.as_str(), "node_")),
        relation: match edge.kind {
            GraphEdgeKind::Follows => ConversationRelation::Follows,
            GraphEdgeKind::RespondsTo => ConversationRelation::RespondsTo,
            GraphEdgeKind::Interrupts => ConversationRelation::Interrupts,
            GraphEdgeKind::ResumesAfter => ConversationRelation::Resumes,
            GraphEdgeKind::Interprets => ConversationRelation::Clarifies,
        },
        confidence: if edge.kind == GraphEdgeKind::Follows {
            100
        } else {
            70
        },
    }
}

fn build_conversation_edges(blocks: &Vec<TranscriptBlock>) -> (r: Vec<ConversationEdge>)
    ensures
        r.deep_view() == conversation_edges_of(transcript_graph(blocks.deep_view()).edges),
{
    let graph = build_transcript_graph(blocks);
    let ghost edges = graph.deep_view().edges;
    let ghost all = conversation_edges_of(edges);
    let mut r: Vec<ConversationEdge> = Vec::new();
    for i in 0..graph.edges.len()
        invariant
            edges == graph.edges.deep_view(),
            all == conversation_edges_of(edges),
            r.deep_view() == all.take(i as int),
    {
        assert(edges[i as int] == graph.edges@[i as int].deep_view());
        push_item(&mut r, make_conversation_edge(&graph.edges[i]));
        assert(all.take(i + 1) =~= all.take(i as int).push(all[i as int]));
    }
    assert(all.take(all.len() as int) =~= all);
    r
}

// ---------------------------------------------------------------------------
// Pages
// ---------------------------------------------------------------------------

/// The identifiers of the rows of a page among the first `n`.
pub open spec fn frame_row_ids(rows: Seq<CanonicalRowView>, page: u32, n: int) -> Seq<Seq<char>>
    decreases n,
{
    if n <= 0 {
        seq![]
    } else if rows[n - 1].physical_page == page {
        frame_row_ids(rows, page, n - 1).push(rows[n - 1].id)
    } else {
        frame_row_ids(rows, page, n - 1)
    }
}

/// The regions of the rows of a page among the first `n`, sorted.
pub open spec fn frame_regions(rows: Seq<CanonicalRowView>, page: u32, n: int) -> Seq<Seq<char>>
    decreases n,
{
    if n <= 0 {
        seq![]
    } else {
        match rows[n - 1].format_region_id {
            Some(id) if rows[n - 1].physical_page == page => inserted(
                frame_regions(rows, page, n - 1),
                id,
            ),
            _ => frame_regions(rows, page, n - 1),
        }
    }
}

/// Whether an utterance has a span on a page, before it or after it.
pub open spec fn has_span(spans: Seq<SourceSpanView>, page: u32, side: int) -> bool {
    exists|i: int|
        0 <= i < spans.len() && {
            let start = (#[trigger] spans[i]).physical_page_start;
            if side < 0 {
                start < page
            } else if side > 0 {
                start > page
            } else {
                start == page
            }
        }
}

fn spans_reach(spans: &Vec<SourceSpan>, page: u32, side: i8) -> (r: bool)
    ensures
        r == has_span(spans.deep_view(), page, side as int),
{
    let ghost view = spans.deep_view();
    for i in 0..spans.len()
        invariant
            view == spans.deep_view(),
            forall|j: int|
                0 <= j < i ==> !({
                    let start = (#[trigger] view[j]).physical_page_start;
                    if side < 0 {
                        start < page
                    } else if side > 0 {
                        start > page
                    } else {
                        start == page
                    }
                }),
    {
        assert(view[i as int] == spans@[i as int].deep_view());
        let start = spans[i].physical_page_start;
        let reached = if side < 0 {
            start < page
        } else if side > 0 {
            start > page
        } else {
            start == page
        };
        if reached {
            return true;
        }
    }
    false
}

/// The first utterance from `from` on that crosses the edge of a page: its upper edge where
/// `side` is negative, else its lower one.
pub open spec fn crossing(utterances: Seq<UtteranceView>, page: u32, side: int, from: int) -> Option<
    PageContinuityView,
>
    decreases utterances.len() - from,
{
    if from < 0 || from >= utterances.len() {
        None
    } else if has_span(utterances[from].source_spans, page, 0) && has_span(
        utterances[from].source_spans,
        page,
        side,
    ) {
        Some(
            PageContinuityView {
                utterance_id: utterances[from].id,
                participant_id: utterances[from].participant_id,
            },
        )
    } else {
        crossing(utterances, page, side, from + 1)
    }
}

fn find_crossing(utterances: &Vec<Utterance>, page: u32, side: i8) -> (r: Option<PageContinuity>)
    ensures
        r.deep_view() == crossing(utterances.deep_view(), page, side as int, 0),
{
    for i in 0..utterances.len()
        invariant
            crossing(utterances.deep_view(), page, side as int, i as int) == crossing(
                utterances.deep_view(),
                page,
                side as int,
                0,
            ),
    {
        let u = &utterances[i];
        assert(utterances.deep_view()[i as int] == u.deep_view());
        if spans_reach(&u.source_spans, page, 0) && spans_reach(&u.source_spans, page, side) {
            return Some(
                PageContinuity {
                    utterance_id: u.id.clone(),
                    participant_id: clone_option(&u.participant_id),
                },
            );
        }
    }
    None
}

/// A page and what stands on it.
pub open spec fn page_frame(
    page: ExtractedPageView,
    context: TranscriptContextView,
    rows: Seq<CanonicalRowView>,
    utterances: Seq<UtteranceView>,
) -> PageFrameView {
    PageFrameView {
        physical_page: page.physical_page,
        transcript_page: page_label(context.page_contexts, page.physical_page),
        section: page.section,
        row_ids: frame_row_ids(rows, page.physical_page, rows.len() as int),
        format_region_ids: frame_regions(rows, page.physical_page, rows.len() as int),
        continuity_in: crossing(utterances, page.physical_page, -1, 0),
        continuity_out: crossing(utterances, page.physical_page, 1, 0),
    }
}

/// The pages of a document and what stands on them.
pub open spec fn page_frames_of(
    pages: Seq<ExtractedPageView>,
    context: TranscriptContextView,
    rows: Seq<CanonicalRowView>,
    utterances: Seq<UtteranceView>,
) -> Seq<PageFrameView> {
    Seq::new(pages.len(), |i: int| page_frame(pages[i], context, rows, utterances))
}

fn make_page_frame(
    page: &ExtractedPage,
    context: &TranscriptContext,
    rows: &Vec<CanonicalRow>,
    utterances: &Vec<Utterance>,
) -> (r: PageFrame)
    ensures
        r.deep_view() == page_frame(
            page.deep_view(),
            context.deep_view(),
            rows.deep_view(),
            utterances.deep_view(),
        ),
{
    let number = page.physical_page;
    let mut ids: Vec<String> = Vec::new();
    let mut regions: Vec<String> = Vec::new();
    assert(ids.deep_view() =~= seq![]);
    assert(regions.deep_view() =~= seq![]);
    for n in 0..rows.len()
        invariant
            ids.deep_view() == frame_row_ids(rows.deep_view(), number, n as int),
            regions.deep_view() == frame_regions(rows.deep_view(), number, n as int),
    {
        assert(rows.deep_view()[n as int] == rows@[n as int].deep_view());
        if rows[n].physical_page == number {
            push_item(&mut ids, rows[n].id.clone());
            match &rows[n].format_region_id {
                Some(id) => {
                    insert_sorted(&mut regions, id.clone());
                },
                None => {},
            }
        }
    }
    PageFrame {
        physical_page: number,
        transcript_page: context.transcript_page_for(number),
        section: page.section,
        row_ids: ids,
        format_region_ids: regions,
        continuity_in: find_crossing(utterances, number, -1),
        continuity_out: find_crossing(utterances, number, 1),
    }
}

fn build_page_frames(
    pages: &Vec<ExtractedPage>,
    context: &TranscriptContext,
    rows: &Vec<CanonicalRow>,
    utterances: &Vec<Utterance>,
) -> (r: Vec<PageFrame>)
    ensures
        r.deep_view() == page_frames_of(
            pages.deep_view(),
            context.deep_view(),
            rows.deep_view(),
            utterances.deep_view(),
        ),
{
    let ghost all = page_frames_of(
        pages.deep_view(),
        context.deep_view(),
        rows.deep_view(),
        utterances.deep_view(),
    );
    let mut r: Vec<PageFrame> = Vec::new();
    for i in 0..pages.len()
        invariant
            all == page_frames_of(
                pages.deep_view(),
                context.deep_view(),
                rows.deep_view(),
                utterances.deep_view(),
            ),
            r.deep_view() == all.take(i as int),
    {
        assert(pages.deep_view()[i as int] == pages@[i as int].deep_view());
        push_item(&mut r, make_page_frame(&pages[i], context, rows, utterances));
        assert(all.take(i + 1) =~= all.take(i as int).push(all[i as int]));
    }
    assert(all.take(all.len() as int) =~= all);
    r
}

// ---------------------------------------------------------------------------
// Numbers
// ---------------------------------------------------------------------------

/// How many of the first `n` rows are dialogue.
pub open spec fn dialogue_count(rows: Seq<CanonicalRowView>, n: int) -> nat
    decreases n,
{
    if n <= 0 {
        0
    } else {
        dialogue_count(rows, n - 1) + if rows[n - 1].disposition == RowDisposition::Dialogue {
            1nat
        } else {
            0nat
        }
    }
}

/// How many of the first `n` rows are dialogue that some block owns.
pub open spec fn assigned_count(rows: Seq<CanonicalRowView>, owned: Seq<Seq<char>>, n: int) -> nat
    decreases n,
{
    if n <= 0 {
        0
    } else {
        assigned_count(rows, owned, n - 1) + if rows[n - 1].disposition == RowDisposition::Dialogue
            && last_position(owned, rows[n - 1].id, owned.len() as int) is Some {
            1nat
        } else {
            0nat
        }
    }
}

/// The transcript pages that the first `n` rows of dialogue stand on, each by its physical
/// page and panel.
pub open spec fn dialogue_panels(rows: Seq<CanonicalRowView>, n: int) -> Seq<(u32, u16)>
    decreases n,
{
    if n <= 0 {
        seq![]
    } else {
        let before = dialogue_panels(rows, n - 1);
        let panel = (rows[n - 1].physical_page, rows[n - 1].panel);
        if rows[n - 1].disposition == RowDisposition::Dialogue && !before.contains(panel) {
            before.push(panel)
        } else {
            before
        }
    }
}

/// Computes [`dialogue_panels`].
pub fn panels_of_dialogue(rows: &Vec<CanonicalRow>) -> (r: Vec<(u32, u16)>)
    ensures
        r@ == dialogue_panels(rows.deep_view(), rows.deep_view().len() as int),
{
    let mut r: Vec<(u32, u16)> = Vec::new();
    for n in 0..rows.len()
        invariant
            r@ == dialogue_panels(rows.deep_view(), n as int),
    {
        assert(rows.deep_view()[n as int] == rows@[n as int].deep_view());
        if rows[n].disposition == RowDisposition::Dialogue {
            let page = rows[n].physical_page;
            let panel = rows[n].panel;
            let mut found = false;
            let mut i: usize = r.len();
            while i > 0 && !found
                invariant
                    i <= r@.len(),
                    found ==> r@.contains((page, panel)),
                    !found ==> forall|j: int| i <= j < r@.len() ==> r@[j] != (page, panel),
                decreases i,
            {
                i -= 1;
                if r[i].0 == page && r[i].1 == panel {
                    found = true;
                }
            }
            if !found {
                r.push((page, panel));
            }
        }
    }
    r
}

/// How many of the first `n` lines are no one's, though someone said them.
pub open spec fn unresolved_count(lines: Seq<TranscriptLineView>, n: int) -> nat
    decreases n,
{
    if n <= 0 {
        0
    } else {
        unresolved_count(lines, n - 1) + if lines[n - 1].speaker is None && !procedural(
            lines[n - 1].kind,
        ) {
            1nat
        } else {
            0nat
        }
    }
}

fn count_unresolved(lines: &Vec<TranscriptLine>) -> (r: usize)
    ensures
        r == unresolved_count(lines.deep_view(), lines.deep_view().len() as int),
{
    let mut r: usize = 0;
    for n in 0..lines.len()
        invariant
            r <= n,
            r == unresolved_count(lines.deep_view(), n as int),
    {
        assert(lines.deep_view()[n as int] == lines@[n as int].deep_view());
        if lines[n].speaker.is_none() && !is_procedural(lines[n].kind) {
            r += 1;
        }
    }
    r
}

/// Whether spans stand on more than one page.
pub open spec fn crosses_pages(spans: Seq<SourceSpanView>) -> bool {
    exists|i: int|
        0 <= i < spans.len() && (#[trigger] spans[i]).physical_page_start
            != spans[0].physical_page_start
}

fn is_cross_page(spans: &Vec<SourceSpan>) -> (r: bool)
    ensures
        r == crosses_pages(spans.deep_view()),
{
    let ghost view = spans.deep_view();
    for i in 0..spans.len()
        invariant
            view == spans.deep_view(),
            forall|j: int|
                0 <= j < i ==> (#[trigger] view[j]).physical_page_start
                    == view[0].physical_page_start,
    {
        assert(view[i as int] == spans@[i as int].deep_view());
        assert(view[0] == spans@[0].deep_view());
        if spans[i].physical_page_start != spans[0].physical_page_start {
            return true;
        }
    }
    false
}

/// How many of the first `n` utterances stand on more than one page.
pub open spec fn cross_page_count(utterances: Seq<UtteranceView>, n: int) -> nat
    decreases n,
{
    if n <= 0 {
        0
    } else {
        cross_page_count(utterances, n - 1) + if crosses_pages(utterances[n - 1].source_spans) {
            1nat
        } else {
            0nat
        }
    }
}

/// How sure an utterance is in the aspect in which it is least so. Procedural text needs no
/// speaker.
pub open spec fn utterance_score(u: UtteranceView) -> Measure {
    smaller(
        smaller(u.confidence.source, u.confidence.discourse_role),
        if u.discourse_role == DiscourseRole::Procedural {
            MEASURE_1
        } else {
            u.confidence.speaker
        },
    )
}

/// How sure each utterance is.
pub open spec fn utterance_scores(utterances: Seq<UtteranceView>) -> Seq<Measure> {
    Seq::new(utterances.len(), |i: int| utterance_score(utterances[i]))
}

fn score_utterances(utterances: &Vec<Utterance>) -> (r: (usize, Vec<Measure>))
    ensures
        r.0 == cross_page_count(utterances.deep_view(), utterances.deep_view().len() as int),
        r.1.deep_view() == utterance_scores(utterances.deep_view()),
{
    let ghost all = utterance_scores(utterances.deep_view());
    let mut crossing: usize = 0;
    let mut scores: Vec<Measure> = Vec::new();
    for n in 0..utterances.len()
        invariant
            all == utterance_scores(utterances.deep_view()),
            crossing <= n,
            crossing == cross_page_count(utterances.deep_view(), n as int),
            scores.deep_view() == all.take(n as int),
    {
        let u = &utterances[n];
        assert(utterances.deep_view()[n as int] == u.deep_view());
        if is_cross_page(&u.source_spans) {
            crossing += 1;
        }
        let speaker = if u.discourse_role == DiscourseRole::Procedural {
            MEASURE_1
        } else {
            u.confidence.speaker
        };
        push_item(
            &mut scores,
            least(least(u.confidence.source, u.confidence.discourse_role), speaker),
        );
        assert(all.take(n + 1) =~= all.take(n as int).push(all[n as int]));
    }
    assert(all.take(all.len() as int) =~= all);
    (crossing, scores)
}

fn collect_owned(blocks: &Vec<TranscriptBlock>) -> (r: Vec<String>)
    ensures
        r.deep_view() == owned_rows(blocks.deep_view(), blocks.deep_view().len() as int),
{
    let mut r: Vec<String> = Vec::new();
    assert(r.deep_view() =~= seq![]);
    for n in 0..blocks.len()
        invariant
            r.deep_view() == owned_rows(blocks.deep_view(), n as int),
    {
        let ghost before = r.deep_view();
        let ids = &blocks[n].source_row_ids;
        let ghost view = ids.deep_view();
        assert(blocks.deep_view()[n as int].source_row_ids == view);
        assert(before + view.take(0) =~= before);
        for k in 0..ids.len()
            invariant
                view == ids.deep_view(),
                r.deep_view() == before + view.take(k as int),
        {
            push_item(&mut r, ids[k].clone());
            assert(before + view.take(k + 1) =~= (before + view.take(k as int)).push(
                ids@[k as int]@,
            ));
        }
        assert(view.take(view.len() as int) =~= view);
    }
    r
}

/// Looks up the rows that blocks own.
pub fn lookup_owned(blocks: &Vec<TranscriptBlock>) -> (r: Lookup)
    ensures
        r.wf(),
        r.ids() == owned_rows(blocks.deep_view(), blocks.deep_view().len() as int),
{
    Lookup::new(&collect_owned(blocks))
}

fn count_rows(rows: &Vec<CanonicalRow>, owned: &Lookup) -> (r: (usize, usize))
    requires
        owned.wf(),
    ensures
        r.0 == dialogue_count(rows.deep_view(), rows.deep_view().len() as int),
        r.1 == assigned_count(rows.deep_view(), owned.ids(), rows.deep_view().len() as int),
{
    let mut dialogue: usize = 0;
    let mut assigned: usize = 0;
    for n in 0..rows.len()
        invariant
            owned.wf(),
            dialogue <= n,
            assigned <= n,
            dialogue == dialogue_count(rows.deep_view(), n as int),
            assigned == assigned_count(rows.deep_view(), owned.ids(), n as int),
    {
        assert(rows.deep_view()[n as int] == rows@[n as int].deep_view());
        if rows[n].disposition == RowDisposition::Dialogue {
            dialogue += 1;
            if owned.position(rows[n].id.as_str()).is_some() {
                assigned += 1;
            }
        }
    }
    (dialogue, assigned)
}

// ---------------------------------------------------------------------------
// The whole
// ---------------------------------------------------------------------------

/// How much of the dialogue blocks own.
pub open spec fn coverage(dialogue: nat, assigned: nat) -> Ratio {
    if dialogue == 0 {
        Ratio { part: 0, whole: 1 }
    } else {
        Ratio { part: assigned as usize, whole: dialogue as usize }
    }
}

/// How the projection went, in numbers.
pub open spec fn omni_diagnostics(
    rows: Seq<CanonicalRowView>,
    lines: Seq<TranscriptLineView>,
    blocks: Seq<TranscriptBlockView>,
    regions: Seq<FormatRegionView>,
    utterances: Seq<UtteranceView>,
) -> OmniDiagnosticsView {
    let dialogue = dialogue_count(rows, rows.len() as int);
    let owned = owned_rows(blocks, blocks.len() as int);
    let assigned = assigned_count(rows, owned, rows.len() as int);
    OmniDiagnosticsView {
        canonical_rows: rows.len() as usize,
        transcript_rows: dialogue as usize,
        rows_assigned_to_utterances: assigned as usize,
        unresolved_speaker_rows: unresolved_count(lines, lines.len() as int) as usize,
        format_regions: regions.len() as usize,
        cross_page_utterances: cross_page_count(utterances, utterances.len() as int) as usize,
        utterances: utterances.len() as usize,
        entity_mentions: 0,
        source_row_coverage: coverage(dialogue, assigned),
        conversation_scores: utterance_scores(utterances),
    }
}

/// A parsed transcript as consumers read it.
pub open spec fn transcript_ir(
    document: ExtractedDocumentView,
    context: TranscriptContextView,
    rows: Seq<CanonicalRowView>,
    lines: Seq<TranscriptLineView>,
    blocks: Seq<TranscriptBlockView>,
) -> TranscriptIrView {
    let canonical = final_rows(rows, lines);
    let regions = regions_of(rows, lines);
    let utterances = utterances_of(document.pages, canonical, blocks);
    TranscriptIrView {
        document: TranscriptIrDocument {
            document_type: context.document_type,
            physical_page_count: document.pages.len() as usize,
            transcript_page_count: dialogue_panels(canonical, canonical.len() as int).len() as usize,
            positioned_text_pages: context.layout_summary.positioned_text_pages,
            ocr_required_pages: context.layout_summary.ocr_required_pages,
        },
        format_regions: regions,
        participants: context.participants,
        entities: entities_of(context.participants, context.participants.len() as int),
        entity_mentions: seq![],
        page_frames: page_frames_of(document.pages, context, canonical, utterances),
        canonical_rows: canonical,
        utterances,
        conversation_edges: conversation_edges_of(transcript_graph(blocks).edges),
        diagnostics: omni_diagnostics(canonical, lines, blocks, regions, utterances),
    }
}

fn clone_participants(list: &Vec<Participant>) -> (r: Vec<Participant>)
    ensures
        r.deep_view() == list.deep_view(),
{
    let r = list.clone();
    assert(r.deep_view() =~= list.deep_view());
    r
}

fn clone_rows(list: &Vec<CanonicalRow>) -> (r: Vec<CanonicalRow>)
    ensures
        r.deep_view() == list.deep_view(),
{
    let r = list.clone();
    assert(r.deep_view() =~= list.deep_view());
    r
}

pub fn build_transcript_ir(
    document: &ExtractedDocument,
    context: &TranscriptContext,
    rows: &mut Vec<CanonicalRow>,
    lines: &Vec<TranscriptLine>,
    blocks: &Vec<TranscriptBlock>,
) -> (r: TranscriptIr)
    ensures
        r.deep_view() == transcript_ir(
            document.deep_view(),
            context.deep_view(),
            old(rows).deep_view(),
            lines.deep_view(),
            blocks.deep_view(),
        ),
        final(rows).deep_view() == final_rows(old(rows).deep_view(), lines.deep_view()),
{
    let lookup = Lookup::new(&row_ids_of_lines(lines));
    annotate_rows(rows, lines, &lookup);
    let signals = collect_signals(rows, lines, &lookup);
    let regions = build_regions(&signals);
    place_rows(rows, &regions);
    let rows: &Vec<CanonicalRow> = rows;
    let utterances = build_utterances(&document.pages, rows, blocks);
    let entities = build_entities(&context.participants);
    let conversation_edges = build_conversation_edges(blocks);
    let page_frames = build_page_frames(&document.pages, context, rows, &utterances);
    let owned = lookup_owned(blocks);
    let (dialogue, assigned) = count_rows(rows, &owned);
    let (crossing, scores) = score_utterances(&utterances);
    let entity_mentions: Vec<EntityMention> = Vec::new();
    assert(entity_mentions.deep_view() =~= seq![]);
    TranscriptIr {
        document: TranscriptIrDocument {
            document_type: context.document_type,
            physical_page_count: document.pages.len(),
            transcript_page_count: panels_of_dialogue(rows).len(),
            positioned_text_pages: context.layout_summary.positioned_text_pages,
            ocr_required_pages: context.layout_summary.ocr_required_pages,
        },
        diagnostics: OmniDiagnostics {
            canonical_rows: rows.len(),
            transcript_rows: dialogue,
            rows_assigned_to_utterances: assigned,
            unresolved_speaker_rows: count_unresolved(lines),
            format_regions: regions.len(),
            cross_page_utterances: crossing,
            utterances: utterances.len(),
            entity_mentions: 0,
            source_row_coverage: if dialogue == 0 {
                Ratio { part: 0, whole: 1 }
            } else {
                Ratio { part: assigned, whole: dialogue }
            },
            conversation_scores: scores,
        },
        format_regions: regions,
        participants: clone_participants(&context.participants),
        entities,
        entity_mentions,
        page_frames,
        canonical_rows: clone_rows(rows),
        utterances,
        conversation_edges,
    }
}

// ---------------------------------------------------------------------------
// Laws of the projection
// ---------------------------------------------------------------------------

/// What a row opens: a question, an answer, an examination, a remark, a redaction, a heading or the
/// page header, as the line read from it; else a turn, where one with a speaker starts on it.
pub proof fn law_rows_open_what_their_lines_are(line: TranscriptLineView)
    ensures
        line.kind == LineKind::Question ==> line_event(line) == RowEventKind::QuestionMarker,
        line.kind == LineKind::Answer ==> line_event(line) == RowEventKind::AnswerMarker,
        line.kind == LineKind::ExaminationHeading ==> line_event(line)
            == RowEventKind::ExaminationHeading,
        line.kind == LineKind::Parenthetical || line.kind == LineKind::ExhibitMarker ==> line_event(
            line,
        ) == RowEventKind::Parenthetical,
        line.kind == LineKind::RedactionMarker ==> line_event(line) == RowEventKind::Redaction,
        line.kind == LineKind::Heading ==> line_event(line) == RowEventKind::Procedural,
        line.kind == LineKind::PageHeader ==> line_event(line) == RowEventKind::PageHeader,
        line.kind == LineKind::Objection || line.kind == LineKind::InterpreterStatement || line.kind
            == LineKind::Unknown ==> line_event(line) == if line.starts_new_block
            && line.speaker is Some {
            RowEventKind::SpeakerAnchor
        } else {
            RowEventKind::Text
        },
{
}

/// A row that a line was read from carries who speaks on it and what it opens; all else of it, and
/// every row that no line was read from, stays as it is.
pub proof fn law_rows_are_annotated(
    rows: Seq<CanonicalRowView>,
    lines: Seq<TranscriptLineView>,
    i: int,
    k: int,
)
    requires
        0 <= i < rows.len(),
        0 <= k < lines.len(),
        lines[k].source_row_id == rows[i].id,
        forall|j: int|
            k < j < lines.len() ==> (#[trigger] lines[j]).source_row_id != rows[i].id,
    ensures
        ({
            let after = annotated_rows(rows, lines)[i];
            &&& annotated_rows(rows, lines).len() == rows.len()
            &&& lines[k].speaker is Some ==> after.speaker_anchor_label == Some(
                lines[k].speaker->0.label,
            )
            &&& lines[k].speaker is None ==> after.speaker_anchor_label is None
            &&& after.speaker_participant_id == lines[k].participant_id
            &&& after.event_kind == line_event(lines[k])
            &&& after.id == rows[i].id && after.text == rows[i].text
            &&& after.physical_page == rows[i].physical_page
            &&& after.disposition == rows[i].disposition
        }),
{
    let ids = line_row_ids(lines);
    assert(ids[k] == rows[i].id);
    assert forall|j: int| k < j < ids.len() implies #[trigger] ids[j] != rows[i].id by {
        assert(lines[j].source_row_id != rows[i].id);
    }
    lemma_last_position_found(ids, rows[i].id, k, lines.len() as int);
}

proof fn lemma_last_position_found(ids: Seq<Seq<char>>, id: Seq<char>, k: int, n: int)
    requires
        0 <= k < n <= ids.len(),
        ids[k] == id,
        forall|j: int| k < j < n ==> #[trigger] ids[j] != id,
    ensures
        last_position(ids, id, n) == Some(k),
    decreases n,
{
    if n - 1 > k {
        assert(ids[n - 1] != id);
        lemma_last_position_found(ids, id, k, n - 1);
    }
}

/// A line counts for its page where it opens a block: as a label where a label says who speaks, as
/// a question or an answer where it is explicitly one, and as a heading of an examination.
pub proof fn law_page_signals_are_counted(signal: PageSignal, l: TranscriptLineView)
    requires
        signal.speakers < usize::MAX,
        signal.questions < usize::MAX,
        signal.answers < usize::MAX,
        signal.headings < usize::MAX,
    ensures
        ({
            let after = signal_with(signal, Some(l));
            let one = |b: bool|
                if b && l.starts_new_block {
                    1int
                } else {
                    0int
                };
            let explicit = l.confidence == ClassificationConfidence::Explicit;
            &&& signal_with(signal, None) == signal
            &&& after.page == signal.page
            &&& after.speakers == signal.speakers + one(label_evidence(l.evidence.items))
            &&& after.questions == signal.questions + one(explicit && l.kind == LineKind::Question)
            &&& after.answers == signal.answers + one(explicit && l.kind == LineKind::Answer)
            &&& after.headings == signal.headings + one(l.kind == LineKind::ExaminationHeading)
        }),
{
}

/// Only rows of dialogue count for the signals of pages.
pub proof fn law_dialogue_rows_signal(
    rows: Seq<CanonicalRowView>,
    lines: Seq<TranscriptLineView>,
    n: int,
)
    requires
        0 <= n < rows.len(),
    ensures
        page_signals(rows, lines, 0).len() == 0,
        rows[n].disposition != RowDisposition::Dialogue ==> page_signals(rows, lines, n + 1)
            == page_signals(rows, lines, n),
        rows[n].disposition == RowDisposition::Dialogue ==> page_signals(rows, lines, n + 1)
            == signals_with(
            page_signals(rows, lines, n),
            rows[n].physical_page,
            line_of_row(lines, rows[n]),
        ),
{
}

proof fn lemma_signal_place(signals: Seq<PageSignal>, page: u32, from: int)
    requires
        0 <= from <= signals.len(),
    ensures
        from <= signal_place(signals, page, from) <= signals.len(),
        forall|i: int|
            from <= i < signal_place(signals, page, from) ==> (#[trigger] signals[i]).page < page,
        signal_place(signals, page, from) < signals.len() ==> signals[signal_place(
            signals,
            page,
            from,
        )].page >= page,
    decreases signals.len() - from,
{
    if from < signals.len() && signals[from].page < page {
        lemma_signal_place(signals, page, from + 1);
    }
}

/// Whether pages stand in the order of their numbers, each once.
pub open spec fn pages_in_order(signals: Seq<PageSignal>) -> bool {
    forall|i: int, j: int|
        0 <= i < j < signals.len() ==> (#[trigger] signals[i]).page < (#[trigger] signals[j]).page
}

/// The pages with dialogue come in the order of their numbers, each once, and exactly those that
/// some row of dialogue stands on.
pub proof fn law_pages_signal_in_order(
    rows: Seq<CanonicalRowView>,
    lines: Seq<TranscriptLineView>,
    n: int,
    page: u32,
)
    requires
        0 <= n <= rows.len(),
    ensures
        pages_in_order(page_signals(rows, lines, n)),
        (exists|k: int|
            0 <= k < page_signals(rows, lines, n).len() && (#[trigger] page_signals(
                rows,
                lines,
                n,
            )[k]).page == page) <==> (exists|i: int|
            0 <= i < n && (#[trigger] rows[i]).disposition == RowDisposition::Dialogue
                && rows[i].physical_page == page),
    decreases n,
{
    if n > 0 {
        law_pages_signal_in_order(rows, lines, n - 1, page);
        let before = page_signals(rows, lines, n - 1);
        let after = page_signals(rows, lines, n);
        let row = rows[n - 1];
        if row.disposition == RowDisposition::Dialogue {
            let p = row.physical_page;
            lemma_signal_place(before, p, 0);
            let at = signal_place(before, p, 0);
            assert(after[at].page == p);
            if at < before.len() && before[at].page == p {
                assert(after.len() == before.len());
                assert forall|k: int| 0 <= k < after.len() implies (#[trigger] after[k]).page
                    == before[k].page by {}
                if exists|k: int| 0 <= k < before.len() && (#[trigger] before[k]).page == page {
                    let k = choose|k: int|
                        0 <= k < before.len() && (#[trigger] before[k]).page == page;
                    assert(after[k].page == page);
                }
            } else {
                assert(after.len() == before.len() + 1);
                assert forall|k: int| 0 <= k < at implies (#[trigger] after[k]).page
                    == before[k].page by {}
                assert forall|k: int| at < k < after.len() implies (#[trigger] after[k]).page
                    == before[k - 1].page && after[k].page > p by {
                    if k - 1 > at {
                        assert(before[at].page < before[k - 1].page);
                    }
                }
                if exists|k: int| 0 <= k < before.len() && (#[trigger] before[k]).page == page {
                    let k = choose|k: int|
                        0 <= k < before.len() && (#[trigger] before[k]).page == page;
                    if k < at {
                        assert(after[k].page == page);
                    } else {
                        assert(after[k + 1].page == page);
                    }
                }
                assert forall|i: int, j: int| 0 <= i < j < after.len() implies (
                #[trigger] after[i]).page < (#[trigger] after[j]).page by {
                    if i < at && j < at {
                        assert(before[i].page < before[j].page);
                    } else if i > at && j > at {
                        assert(before[i - 1].page < before[j - 1].page);
                    }
                }
                if exists|k: int| 0 <= k < after.len() && (#[trigger] after[k]).page == page {
                    let k = choose|k: int| 0 <= k < after.len() && (#[trigger] after[k]).page
                        == page;
                    if k < at {
                        assert(before[k].page == page);
                    } else if k > at {
                        assert(before[k - 1].page == page);
                    } else {
                        assert(rows[n - 1].physical_page == page);
                    }
                }
            }
            if exists|i: int|
                0 <= i < n && (#[trigger] rows[i]).disposition == RowDisposition::Dialogue
                    && rows[i].physical_page == page {
                let i = choose|i: int|
                    0 <= i < n && (#[trigger] rows[i]).disposition == RowDisposition::Dialogue
                        && rows[i].physical_page == page;
                if i == n - 1 {
                    assert(after[at].page == page);
                } else {
                    assert(0 <= i < n - 1);
                }
            }
        }
    }
}

/// A page labels its turns, marks them, does both or neither.
pub proof fn law_pages_follow_conventions(signal: PageSignal, n: nat)
    ensures
        ({
            let marks = signal.questions > 0 || signal.answers > 0;
            let region = new_region(signal, n);
            &&& region.grammar == if signal.speakers > 0 && marks {
                FormatGrammarKind::Hybrid
            } else if signal.speakers > 0 {
                FormatGrammarKind::SpeakerPrefixed
            } else if marks {
                FormatGrammarKind::QaMarkers
            } else {
                FormatGrammarKind::Unknown
            }
            &&& region.id == "format_region_"@ + decimal(n)
            &&& region.physical_page_start == signal.page && region.physical_page_end == signal.page
            &&& region.speaker_anchor_observations == signal.speakers
            &&& region.question_marker_observations == signal.questions
            &&& region.answer_marker_observations == signal.answers
            &&& region.examination_heading_observations == signal.headings
            &&& region.confidence == if signal.speakers == 0 && !marks {
                30u8
            } else {
                90u8
            }
        }),
{
}

/// A page that follows the last region by number and keeps its convention joins it, with what it
/// counts; any other opens a region, and what stood before stays.
pub proof fn law_pages_join_or_open_regions(signals: Seq<PageSignal>, n: int)
    requires
        0 <= n < signals.len(),
    ensures
        ({
            let before = format_regions(signals, n);
            let after = format_regions(signals, n + 1);
            let s = signals[n];
            let last = before.last();
            let joins = before.len() > 0 && last.grammar == new_region(s, 1).grammar
                && last.physical_page_end + 1 == s.page;
            &&& format_regions(signals, 0).len() == 0
            &&& !joins ==> after == before.push(new_region(s, before.len() + 1))
            &&& joins ==> after.len() == before.len() && after.drop_last() == before.drop_last()
                && after.last().physical_page_end == s.page && after.last().physical_page_start
                == last.physical_page_start && after.last().id == last.id && after.last().grammar
                == last.grammar
            &&& joins && last.speaker_anchor_observations + s.speakers <= usize::MAX
                ==> after.last().speaker_anchor_observations == last.speaker_anchor_observations
                + s.speakers
            &&& joins && last.question_marker_observations + s.questions <= usize::MAX
                ==> after.last().question_marker_observations == last.question_marker_observations
                + s.questions
            &&& joins && last.answer_marker_observations + s.answers <= usize::MAX
                ==> after.last().answer_marker_observations == last.answer_marker_observations
                + s.answers
            &&& joins && last.examination_heading_observations + s.headings <= usize::MAX
                ==> after.last().examination_heading_observations
                == last.examination_heading_observations + s.headings
        }),
{
    let before = format_regions(signals, n);
    let after = format_regions(signals, n + 1);
    if after.len() == before.len() {
        assert(after.drop_last() =~= before.drop_last());
    }
}

proof fn lemma_region_of_page(regions: Seq<FormatRegionView>, page: u32, from: int)
    requires
        0 <= from <= regions.len(),
    ensures
        match region_of_page(regions, page, from) {
            Some(id) => exists|i: int|
                from <= i < regions.len() && (#[trigger] regions[i]).id == id
                    && regions[i].physical_page_start <= page && page
                    <= regions[i].physical_page_end,
            None => forall|i: int|
                from <= i < regions.len() ==> !((#[trigger] regions[i]).physical_page_start <= page
                    && page <= regions[i].physical_page_end),
        },
    decreases regions.len() - from,
{
    if from < regions.len() {
        if regions[from].physical_page_start <= page && page <= regions[from].physical_page_end {
            assert(regions[from].id == region_of_page(regions, page, from)->0);
        } else {
            lemma_region_of_page(regions, page, from + 1);
        }
    }
}

/// A row of dialogue belongs to a region that holds its page, where there is one. No other row is
/// placed in a region.
pub proof fn law_dialogue_rows_have_regions(
    rows: Seq<CanonicalRowView>,
    regions: Seq<FormatRegionView>,
    i: int,
)
    requires
        0 <= i < rows.len(),
    ensures
        ({
            let after = placed_rows(rows, regions)[i];
            let page = rows[i].physical_page;
            &&& placed_rows(rows, regions).len() == rows.len()
            &&& rows[i].disposition != RowDisposition::Dialogue ==> after == rows[i]
            &&& rows[i].disposition == RowDisposition::Dialogue ==> match after.format_region_id {
                Some(id) => exists|k: int|
                    0 <= k < regions.len() && (#[trigger] regions[k]).id == id
                        && regions[k].physical_page_start <= page && page
                        <= regions[k].physical_page_end,
                None => forall|k: int|
                    0 <= k < regions.len() ==> !((#[trigger] regions[k]).physical_page_start <= page
                        && page <= regions[k].physical_page_end),
            }
            &&& after.id == rows[i].id && after.text == rows[i].text
        }),
{
    lemma_region_of_page(regions, rows[i].physical_page, 0);
}

proof fn lemma_page_confidence(pages: Seq<ExtractedPageView>, page: u32, from: int, at: int)
    requires
        0 <= from <= at < pages.len(),
        pages[at].physical_page == page,
        forall|i: int| from <= i < at ==> (#[trigger] pages[i]).physical_page != page,
    ensures
        page_confidence(pages, page, from) == pages[at].layout.reconstruction_confidence,
    decreases at - from,
{
    if from < at {
        assert(pages[from].physical_page != page);
        lemma_page_confidence(pages, page, from + 1, at);
    }
}

/// An utterance is no surer of its source than any page it stands on, and as sure as the worst of
/// them, or sure altogether where it stands on none.
pub proof fn law_the_worst_page_counts(
    pages: Seq<ExtractedPageView>,
    rows: Seq<CanonicalRowView>,
    n: int,
)
    requires
        0 <= n <= rows.len(),
    ensures
        source_confidence(pages, rows, 0) == 0x3ff0_0000_0000_0000,
        source_confidence(pages, rows, n) <= 0x3ff0_0000_0000_0000,
        forall|i: int|
            0 <= i < n ==> source_confidence(pages, rows, n) <= page_confidence(
                pages,
                (#[trigger] rows[i]).physical_page,
                0,
            ),
        source_confidence(pages, rows, n) == 0x3ff0_0000_0000_0000 || exists|i: int|
            0 <= i < n && source_confidence(pages, rows, n) == page_confidence(
                pages,
                (#[trigger] rows[i]).physical_page,
                0,
            ),
    decreases n,
{
    if n > 0 {
        law_the_worst_page_counts(pages, rows, n - 1);
        let earlier = source_confidence(pages, rows, n - 1);
        let own = page_confidence(pages, rows[n - 1].physical_page, 0);
        if own >= earlier && earlier != 0x3ff0_0000_0000_0000 {
            let i = choose|i: int|
                0 <= i < n - 1 && earlier == page_confidence(
                    pages,
                    (#[trigger] rows[i]).physical_page,
                    0,
                );
            assert(source_confidence(pages, rows, n) == page_confidence(
                pages,
                rows[i].physical_page,
                0,
            ));
        }
    }
}

/// The confidence of a page is that of the first page of its number, and nothing for a page that
/// the document does not have.
pub proof fn law_pages_have_their_confidence(pages: Seq<ExtractedPageView>, page: u32, at: int)
    requires
        0 <= at < pages.len(),
        pages[at].physical_page == page,
        forall|i: int| 0 <= i < at ==> (#[trigger] pages[i]).physical_page != page,
    ensures
        page_confidence(pages, page, 0) == pages[at].layout.reconstruction_confidence,
{
    lemma_page_confidence(pages, page, 0, at);
}

/// A row on the page of the last span, physical and printed, joins it; any other opens a span.
pub proof fn law_rows_join_or_open_spans(rows: Seq<CanonicalRowView>, n: int)
    requires
        0 <= n < rows.len(),
    ensures
        ({
            let before = spans_of(rows, n);
            let after = spans_of(rows, n + 1);
            let row = rows[n];
            let last = before.last();
            let joins = before.len() > 0 && last.physical_page_end == row.physical_page
                && last.transcript_page_end == row.transcript_page;
            &&& spans_of(rows, 0).len() == 0
            &&& joins ==> after.len() == before.len() && after.drop_last() == before.drop_last()
                && after.last().row_ids == last.row_ids.push(row.id) && after.last().line_end
                == row.line_number && after.last().line_start == last.line_start
                && after.last().physical_page_start == last.physical_page_start
                && after.last().physical_page_end == last.physical_page_end
                && after.last().transcript_page_start == last.transcript_page_start
                && after.last().transcript_page_end == last.transcript_page_end
            &&& !joins ==> after.len() == before.len() + 1 && after.drop_last() == before
                && after.last().row_ids == seq![row.id] && after.last().line_start
                == row.line_number && after.last().line_end == row.line_number
                && after.last().physical_page_start == row.physical_page
                && after.last().physical_page_end == row.physical_page
                && after.last().transcript_page_start == row.transcript_page
                && after.last().transcript_page_end == row.transcript_page
        }),
{
    let before = spans_of(rows, n);
    let after = spans_of(rows, n + 1);
    if after.len() == before.len() {
        assert(after.drop_last() =~= before.drop_last());
    } else {
        assert(after.drop_last() =~= before);
    }
}

/// What blocks do in the conversation, by their kind.
pub proof fn law_blocks_play_roles(kind: LineKind)
    ensures
        discourse_role(LineKind::Question) == DiscourseRole::Question,
        discourse_role(LineKind::Answer) == DiscourseRole::Response,
        discourse_role(LineKind::Objection) == DiscourseRole::Objection,
        discourse_role(LineKind::InterpreterStatement) == DiscourseRole::Interpretation,
        discourse_role(LineKind::Unknown) == DiscourseRole::Unknown,
        discourse_role(LineKind::Parenthetical) == DiscourseRole::Procedural,
        discourse_role(LineKind::ExaminationHeading) == DiscourseRole::Procedural,
        discourse_role(LineKind::Heading) == DiscourseRole::Procedural,
        discourse_role(LineKind::ExhibitMarker) == DiscourseRole::Procedural,
        discourse_role(LineKind::RedactionMarker) == DiscourseRole::Procedural,
        kind != LineKind::Question && kind != LineKind::Answer && kind != LineKind::Objection && kind
            != LineKind::InterpreterStatement && kind != LineKind::Unknown && kind
            != LineKind::Parenthetical && kind != LineKind::ExaminationHeading && kind
            != LineKind::Heading && kind != LineKind::ExhibitMarker && kind
            != LineKind::RedactionMarker ==> discourse_role(kind) == DiscourseRole::Statement,
{
}

/// An utterance is sure of its speaker where it has one, of its bounds and role where these are
/// explicit; a redacted speaker leaves it uncertain, and nothing else changes its verification.
pub proof fn law_utterances_are_sure_of(
    pages: Seq<ExtractedPageView>,
    rows: Seq<CanonicalRowView>,
    block: TranscriptBlockView,
)
    ensures
        ({
            let u = utterance_of(pages, rows, block);
            let source = known_rows(rows, block.source_row_ids, block.source_row_ids.len() as int);
            let explicit = block.confidence == ClassificationConfidence::Explicit;
            let hidden = block.speaker is Some && block.speaker->0.redacted;
            &&& u.id == "utterance_"@ + block.id && u.text == block.text
            &&& u.participant_id == block.participant_id
            &&& block.speaker is Some ==> u.speaker_label == Some(block.speaker->0.label)
            &&& block.speaker is None ==> u.speaker_label is None
            &&& u.confidence.speaker == if block.participant_id is Some {
                0x3fec_cccc_c000_0000i64
            } else {
                0i64
            }
            &&& explicit ==> u.confidence.boundary == 0x3fee_6666_6000_0000
                && u.confidence.discourse_role == 0x3fee_6666_6000_0000
            &&& !explicit ==> u.confidence.boundary == 0x3fe6_6666_6000_0000
                && u.confidence.discourse_role == 0x3fe4_cccc_c000_0000
            &&& u.confidence.source == source_confidence(pages, source, source.len() as int)
            &&& u.source_spans == spans_of(source, source.len() as int)
            &&& hidden ==> u.verification == VerificationStatus::Uncertain
            &&& !hidden ==> u.verification == block.verification
        }),
{
}

/// Every participant that is not redacted is an entity, under its name or else its label.
pub proof fn law_participants_are_entities(list: Seq<ParticipantView>, n: int)
    requires
        0 <= n < list.len(),
    ensures
        ({
            let before = entities_of(list, n);
            let after = entities_of(list, n + 1);
            let p = list[n];
            &&& entities_of(list, 0).len() == 0
            &&& p.redacted ==> after == before
            &&& !p.redacted ==> after.len() == before.len() + 1 && after.drop_last() == before
                && after.last().id == "entity_"@ + p.id && after.last().participant_id == Some(p.id)
                && after.last().kind == EntityKind::Person && after.last().observed_mentions == 0
                && after.last().canonical_label == if p.canonical_name is Some {
                p.canonical_name->0
            } else {
                p.display_label
            }
        }),
{
    if !list[n].redacted {
        assert(entities_of(list, n + 1).drop_last() =~= entities_of(list, n));
    }
}

/// An edge of the graph is one of the conversation, between the utterances of its blocks.
pub proof fn law_edges_join_utterances(edges: Seq<TranscriptGraphEdgeView>, i: int)
    requires
        0 <= i < edges.len(),
    ensures
        ({
            let after = conversation_edges_of(edges);
            let e = edges[i];
            &&& after.len() == edges.len()
            &&& after[i].from_utterance_id == "utterance_"@ + without_prefixes(e.from, "node_"@)
            &&& after[i].to_utterance_id == "utterance_"@ + without_prefixes(e.to, "node_"@)
            &&& e.kind == GraphEdgeKind::Follows ==> after[i].relation
                == ConversationRelation::Follows && after[i].confidence == 100
            &&& e.kind != GraphEdgeKind::Follows ==> after[i].confidence == 70
            &&& e.kind == GraphEdgeKind::RespondsTo ==> after[i].relation
                == ConversationRelation::RespondsTo
            &&& e.kind == GraphEdgeKind::Interrupts ==> after[i].relation
                == ConversationRelation::Interrupts
            &&& e.kind == GraphEdgeKind::ResumesAfter ==> after[i].relation
                == ConversationRelation::Resumes
            &&& e.kind == GraphEdgeKind::Interprets ==> after[i].relation
                == ConversationRelation::Clarifies
        }),
{
}

/// A page frame lists the rows of its page, all of them in order and no other, and the regions that
/// they belong to.
pub proof fn law_frames_list_their_rows(rows: Seq<CanonicalRowView>, page: u32, n: int)
    requires
        0 <= n < rows.len(),
    ensures
        frame_row_ids(rows, page, 0).len() == 0,
        frame_regions(rows, page, 0).len() == 0,
        rows[n].physical_page == page ==> frame_row_ids(rows, page, n + 1) == frame_row_ids(
            rows,
            page,
            n,
        ).push(rows[n].id),
        rows[n].physical_page != page ==> frame_row_ids(rows, page, n + 1) == frame_row_ids(
            rows,
            page,
            n,
        ) && frame_regions(rows, page, n + 1) == frame_regions(rows, page, n),
        rows[n].physical_page == page && rows[n].format_region_id is Some ==> frame_regions(
            rows,
            page,
            n + 1,
        ) == inserted(frame_regions(rows, page, n), rows[n].format_region_id->0),
        rows[n].format_region_id is None ==> frame_regions(rows, page, n + 1) == frame_regions(
            rows,
            page,
            n,
        ),
{
}

/// Whether an utterance stands on a page and on one before it, or behind it.
pub open spec fn runs_over(u: UtteranceView, page: u32, before: bool) -> bool {
    &&& exists|i: int|
        0 <= i < u.source_spans.len() && (#[trigger] u.source_spans[i]).physical_page_start == page
    &&& exists|i: int|
        0 <= i < u.source_spans.len() && if before {
            (#[trigger] u.source_spans[i]).physical_page_start < page
        } else {
            u.source_spans[i].physical_page_start > page
        }
}

proof fn lemma_runs_over(u: UtteranceView, page: u32, before: bool)
    ensures
        runs_over(u, page, before) <==> has_span(u.source_spans, page, 0) && has_span(
            u.source_spans,
            page,
            if before {
                -1
            } else {
                1
            },
        ),
{
    let side: int = if before {
        -1
    } else {
        1
    };
    let spans = u.source_spans;
    if has_span(spans, page, side) {
        let i = choose|i: int|
            0 <= i < spans.len() && {
                let start = (#[trigger] spans[i]).physical_page_start;
                if side < 0 {
                    start < page
                } else if side > 0 {
                    start > page
                } else {
                    start == page
                }
            };
        assert(spans[i].physical_page_start != page);
    }
    if has_span(spans, page, 0) {
        let i = choose|i: int|
            0 <= i < spans.len() && {
                let start = (#[trigger] spans[i]).physical_page_start;
                if 0int < 0 {
                    start < page
                } else if 0int > 0 {
                    start > page
                } else {
                    start == page
                }
            };
        assert(spans[i].physical_page_start == page);
    }
}

/// What runs over the edge of a page is the first utterance that stands on both sides of it.
pub proof fn law_utterances_run_over_pages(
    utterances: Seq<UtteranceView>,
    page: u32,
    before: bool,
    from: int,
)
    requires
        0 <= from <= utterances.len(),
    ensures
        match crossing(
            utterances,
            page,
            if before {
                -1
            } else {
                1
            },
            from,
        ) {
            Some(found) => exists|i: int|
                from <= i < utterances.len() && runs_over(#[trigger] utterances[i], page, before)
                    && found.utterance_id == utterances[i].id && found.participant_id
                    == utterances[i].participant_id && forall|j: int|
                    from <= j < i ==> !runs_over(#[trigger] utterances[j], page, before),
            None => forall|i: int|
                from <= i < utterances.len() ==> !runs_over(
                    #[trigger] utterances[i],
                    page,
                    before,
                ),
        },
    decreases utterances.len() - from,
{
    if from < utterances.len() {
        lemma_runs_over(utterances[from], page, before);
        if runs_over(utterances[from], page, before) {
            assert(runs_over(utterances[from], page, before));
        } else {
            law_utterances_run_over_pages(utterances, page, before, from + 1);
        }
    }
}

/// Rows of dialogue are counted, those that blocks own among them, and lines that nobody is known
/// to have said.
pub proof fn law_rows_and_lines_are_counted(
    rows: Seq<CanonicalRowView>,
    owned: Seq<Seq<char>>,
    lines: Seq<TranscriptLineView>,
    n: int,
)
    requires
        0 <= n,
    ensures
        dialogue_count(rows, 0) == 0 && assigned_count(rows, owned, 0) == 0 && unresolved_count(
            lines,
            0,
        ) == 0,
        n < rows.len() ==> dialogue_count(rows, n + 1) == dialogue_count(rows, n) + (if rows[n].disposition
            == RowDisposition::Dialogue {
            1nat
        } else {
            0nat
        }),
        n < rows.len() ==> assigned_count(rows, owned, n + 1) == assigned_count(rows, owned, n) + (
        if rows[n].disposition == RowDisposition::Dialogue && last_position(
            owned,
            rows[n].id,
            owned.len() as int,
        ) is Some {
            1nat
        } else {
            0nat
        }),
        n < lines.len() ==> ({
            let kind = lines[n].kind;
            let said = kind != LineKind::Parenthetical && kind != LineKind::ExaminationHeading
                && kind != LineKind::Heading && kind != LineKind::ExhibitMarker && kind
                != LineKind::RedactionMarker;
            unresolved_count(lines, n + 1) == unresolved_count(lines, n) + if said
                && lines[n].speaker is None {
                1nat
            } else {
                0nat
            }
        }),
{
}

/// The transcript pages are counted by physical page and panel, each once, where dialogue stands.
pub proof fn law_dialogue_panels_are_counted_once(rows: Seq<CanonicalRowView>, n: int)
    requires
        0 <= n <= rows.len(),
    ensures
        dialogue_panels(rows, n).no_duplicates(),
        forall|i: int|
            0 <= i < n && (#[trigger] rows[i]).disposition == RowDisposition::Dialogue
                ==> dialogue_panels(rows, n).contains((rows[i].physical_page, rows[i].panel)),
        forall|k: int|
            0 <= k < dialogue_panels(rows, n).len() ==> exists|i: int|
                0 <= i < n && (#[trigger] rows[i]).disposition == RowDisposition::Dialogue && (
                rows[i].physical_page,
                rows[i].panel,
                ) == #[trigger] dialogue_panels(rows, n)[k],
    decreases n,
{
    if n > 0 {
        law_dialogue_panels_are_counted_once(rows, n - 1);
        let before = dialogue_panels(rows, n - 1);
        let after = dialogue_panels(rows, n);
        let panel = (rows[n - 1].physical_page, rows[n - 1].panel);
        if after != before {
            assert(after[before.len() as int] == panel);
            assert forall|i: int|
                0 <= i < n && (#[trigger] rows[i]).disposition
                    == RowDisposition::Dialogue implies after.contains(
                (rows[i].physical_page, rows[i].panel),
            ) by {
                if i < n - 1 {
                    let k = choose|k: int|
                        0 <= k < before.len() && before[k] == (
                        rows[i].physical_page,
                        rows[i].panel,
                        );
                    assert(after[k] == before[k]);
                }
            }
            assert forall|k: int| 0 <= k < after.len() implies exists|i: int|
                0 <= i < n && (#[trigger] rows[i]).disposition == RowDisposition::Dialogue && (
                rows[i].physical_page,
                rows[i].panel,
                ) == #[trigger] after[k] by {
                if k < before.len() {
                    assert(after[k] == before[k]);
                } else {
                    assert(rows[n - 1].disposition == RowDisposition::Dialogue);
                }
            }
        }
    }
}

/// An utterance is as sure as it is in the aspect in which it is least so; who speaks does not
/// matter where nobody does.
pub proof fn law_utterances_score_their_least(u: UtteranceView)
    ensures
        utterance_score(u) <= u.confidence.source,
        utterance_score(u) <= u.confidence.discourse_role,
        u.discourse_role != DiscourseRole::Procedural ==> utterance_score(u)
            <= u.confidence.speaker,
        utterance_score(u) == u.confidence.source || utterance_score(u)
            == u.confidence.discourse_role || (u.discourse_role != DiscourseRole::Procedural
            && utterance_score(u) == u.confidence.speaker) || (u.discourse_role
            == DiscourseRole::Procedural && utterance_score(u) == 0x3ff0_0000_0000_0000),
{
}

/// The parts of a projection are those of the transcript that it is of.
pub proof fn law_projections_hold_together(
    document: ExtractedDocumentView,
    context: TranscriptContextView,
    rows: Seq<CanonicalRowView>,
    lines: Seq<TranscriptLineView>,
    blocks: Seq<TranscriptBlockView>,
)
    requires
        document.pages.len() <= usize::MAX,
        rows.len() <= usize::MAX,
        blocks.len() <= usize::MAX,
    ensures
        ({
            let ir = transcript_ir(document, context, rows, lines, blocks);
            &&& ir.document.document_type == context.document_type
            &&& ir.document.physical_page_count == document.pages.len()
            &&& ir.participants == context.participants
            &&& ir.utterances.len() == blocks.len()
            &&& ir.page_frames.len() == document.pages.len()
            &&& ir.canonical_rows.len() == rows.len()
            &&& ir.entity_mentions.len() == 0
            &&& ir.conversation_edges.len() == transcript_graph(blocks).edges.len()
            &&& ir.diagnostics.canonical_rows == rows.len()
            &&& ir.diagnostics.utterances == blocks.len()
            &&& forall|i: int|
                0 <= i < document.pages.len() ==> (#[trigger] ir.page_frames[i]).physical_page
                    == document.pages[i].physical_page && ir.page_frames[i].section
                    == document.pages[i].section
        }),
{
}

} // verus!
