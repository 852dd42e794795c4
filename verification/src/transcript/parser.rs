//! A document parsed: rows become lines, lines become blocks, and everything is held against
//! the source it came from.
use vstd::prelude::*;

use crate::document::models::{
    dialogue_section, ExtractedDocument, ExtractedDocumentView, ExtractedPage, ExtractedPageView,
    PageSection, VisualRow, VisualRowView,
};
use crate::number::{parse_u32_option, parsed_u32, sum, total};
use crate::scan::{trim, trimmed};
use crate::text::{clone_option, lemma_filter_first, push_item, same};
use crate::transcript::blocks::{
    blocks_of, build_blocks, build_exchanges, complete_speaker_turns, exchanges_of,
    turns_completed,
};
use crate::transcript::classify::{
    broken_off, classify_line, fresh_state, line_class, ClassifiedLineView, ParserState,
    ParserStateView,
};
use crate::transcript::error::TranscriptParseError;
use crate::transcript::graph::{build_transcript_graph, transcript_graph};
use crate::transcript::models::{
    ClassificationConfidence, LineKind, ParseDiagnostics, ParsedTranscript, ParsedTranscriptView,
    Participant, ParticipantView, SourceContinuity, SpeakerRole, SpeakerView, TestimonyExchange,
    TestimonyExchangeView, TranscriptContext, TranscriptContextView, TranscriptLine,
    TranscriptLineView, VerificationStatus,
};
use crate::transcript::omni::{
    build_transcript_ir, dialogue_panels, panels_of_dialogue, transcript_ir,
};
use crate::transcript::omni_models::{CanonicalRow, CanonicalRowView, RowDisposition};
use crate::transcript::profile::TranscriptProfile;
use crate::transcript::quality::{assess, quality_report};
use crate::transcript::registry::{reconcile_dynamic_participants, reconciled};
use crate::transcript::source::{collect_rows, source_rows};
use crate::transcript::verification::{issues_of, verified_lines, verify_transcript_lines};

verus! {

// ---------------------------------------------------------------------------
// Position
// ---------------------------------------------------------------------------

/// The number of a transcript page, where its label is one.
pub open spec fn page_number(label: Option<Seq<char>>) -> Option<u32> {
    match label {
        Some(text) => parsed_u32(text),
        None => None,
    }
}

/// The line number that follows another.
pub open spec fn next_line(n: u16) -> u16 {
    if n < u16::MAX {
        (n + 1) as u16
    } else {
        n
    }
}

fn line_after(n: u16) -> (r: u16)
    ensures
        r == next_line(n),
{
    if n < u16::MAX {
        n + 1
    } else {
        n
    }
}

/// Whether a line on another page is the first of the transcript page that follows.
pub open spec fn opens_next_page(previous: u32, current: u32, line: u16) -> bool {
    current == previous + 1 && line == 1
}

fn is_next_page_start(previous: u32, current: u32, line: u16) -> (r: bool)
    ensures
        r == opens_next_page(previous, current, line),
{
    current as u64 == previous as u64 + 1 && line == 1
}

/// Whether pages were passed over since the last line.
pub open spec fn skips_pages(state: ParserStateView, physical_page: u32) -> bool {
    match state.last_physical_page {
        Some(previous) => physical_page > previous + 1,
        None => false,
    }
}

fn has_skipped_pages(state: &ParserState, physical_page: u32) -> (r: bool)
    ensures
        r == skips_pages(state.deep_view(), physical_page),
{
    match state.last_physical_page {
        Some(previous) => physical_page as u64 > previous as u64 + 1,
        None => false,
    }
}

/// Whether the active turn cannot be taken to continue on a line.
pub open spec fn breaks_continuation(
    state: ParserStateView,
    physical_page: u32,
    label: Option<Seq<char>>,
    line_number: Option<u16>,
) -> bool {
    state.continuation is Some && (skips_pages(state, physical_page) || match (
        line_number,
        state.last_physical_page,
    ) {
        (Some(line), Some(previous)) => if previous == physical_page {
            match state.last_line_number {
                Some(last) => line != next_line(last),
                None => false,
            }
        } else {
            match (state.last_transcript_page, page_number(label)) {
                (Some(last), Some(current)) => !opens_next_page(last, current, line),
                _ => false,
            }
        },
        _ => false,
    })
}

/// Tells whether the active turn has to be broken off before a line.
pub fn continuation_boundary_is_suspicious(
    state: &ParserState,
    physical_page: u32,
    transcript_page: &Option<String>,
    line_number: Option<u16>,
) -> (r: bool)
    ensures
        r == breaks_continuation(
            state.deep_view(),
            physical_page,
            transcript_page.deep_view(),
            line_number,
        ),
{
    if state.continuation.is_none() {
        return false;
    }
    if has_skipped_pages(state, physical_page) {
        return true;
    }
    match (line_number, state.last_physical_page) {
        (Some(line), Some(previous)) => if previous == physical_page {
            match state.last_line_number {
                Some(last) => line != line_after(last),
                None => false,
            }
        } else {
            match (state.last_transcript_page, parse_u32_option(transcript_page)) {
                (Some(last), Some(current)) => !is_next_page_start(last, current, line),
                _ => false,
            }
        },
        _ => false,
    }
}

/// How a line follows the line before it.
pub open spec fn line_continuity(
    state: ParserStateView,
    physical_page: u32,
    label: Option<Seq<char>>,
    line_number: Option<u16>,
) -> SourceContinuity {
    if skips_pages(state, physical_page) {
        SourceContinuity::GapBefore
    } else {
        match (state.last_physical_page, state.last_line_number, line_number) {
            (Some(previous), None, None) => if previous == physical_page {
                SourceContinuity::Continuous
            } else {
                SourceContinuity::CrossPageContinuous
            },
            (Some(previous), Some(last), Some(line)) => if previous == physical_page {
                if line == next_line(last) {
                    SourceContinuity::Continuous
                } else {
                    SourceContinuity::GapBefore
                }
            } else {
                match (state.last_transcript_page, page_number(label)) {
                    (Some(before), Some(current)) => if opens_next_page(before, current, line) {
                        SourceContinuity::CrossPageContinuous
                    } else {
                        SourceContinuity::GapBefore
                    },
                    _ => SourceContinuity::Unknown,
                }
            },
            _ => SourceContinuity::FirstObserved,
        }
    }
}

/// Tells how a line follows the line before it.
pub fn determine_source_continuity(
    state: &ParserState,
    physical_page: u32,
    transcript_page: &Option<String>,
    line_number: Option<u16>,
) -> (r: SourceContinuity)
    ensures
        r == line_continuity(
            state.deep_view(),
            physical_page,
            transcript_page.deep_view(),
            line_number,
        ),
{
    if has_skipped_pages(state, physical_page) {
        return SourceContinuity::GapBefore;
    }
    match (state.last_physical_page, state.last_line_number, line_number) {
        (Some(previous), None, None) => if previous == physical_page {
            SourceContinuity::Continuous
        } else {
            SourceContinuity::CrossPageContinuous
        },
        (Some(previous), Some(last), Some(line)) => if previous == physical_page {
            if line == line_after(last) {
                SourceContinuity::Continuous
            } else {
                SourceContinuity::GapBefore
            }
        } else {
            match (state.last_transcript_page, parse_u32_option(transcript_page)) {
                (Some(before), Some(current)) => if is_next_page_start(before, current, line) {
                    SourceContinuity::CrossPageContinuous
                } else {
                    SourceContinuity::GapBefore
                },
                _ => SourceContinuity::Unknown,
            }
        },
        _ => SourceContinuity::FirstObserved,
    }
}

/// The memory of a parse with its position moved to a line.
pub open spec fn positioned(
    state: ParserStateView,
    physical_page: u32,
    label: Option<Seq<char>>,
    line_number: Option<u16>,
) -> ParserStateView {
    ParserStateView {
        last_physical_page: Some(physical_page),
        last_transcript_page: page_number(label),
        last_line_number: line_number,
        ..state
    }
}

fn update_parser_position(
    state: &mut ParserState,
    physical_page: u32,
    transcript_page: &Option<String>,
    line_number: Option<u16>,
)
    ensures
        final(state).deep_view() == positioned(
            old(state).deep_view(),
            physical_page,
            transcript_page.deep_view(),
            line_number,
        ),
{
    state.last_physical_page = Some(physical_page);
    state.last_transcript_page = parse_u32_option(transcript_page);
    state.last_line_number = line_number;
}

// ---------------------------------------------------------------------------
// Bare letters
// ---------------------------------------------------------------------------

/// Whether the layout lets a bare letter at the start of a row be a marker: a letter that is
/// set as a fragment of its own must stand clear of the text behind it.
pub open spec fn layout_allows_marker(row: VisualRowView) -> bool {
    row.fragments.len() < 2 || !(trimmed(row.fragments[0].text) == "Q"@ || trimmed(
        row.fragments[0].text,
    ) == "A"@) || row.marker_stands_clear
}

fn allows_marker(row: &VisualRow) -> (r: bool)
    ensures
        r == layout_allows_marker(row.deep_view()),
{
    if row.fragments.len() < 2 {
        return true;
    }
    assert(row.fragments@[0].deep_view() == row.deep_view().fragments[0]);
    let first = trim(row.fragments[0].text.as_str());
    !(same(first, "Q") || same(first, "A")) || row.marker_stands_clear
}

/// Whether a bare letter at the start of a row may be a marker, by the first page from
/// `from` on that has the row's page number.
pub open spec fn bare_marker_allowed(
    pages: Seq<ExtractedPageView>,
    row: CanonicalRowView,
    from: int,
) -> bool
    decreases pages.len() - from,
{
    if from < 0 || from >= pages.len() {
        true
    } else if pages[from].physical_page == row.physical_page {
        row.row_index < pages[from].visual_rows.len() ==> layout_allows_marker(
            pages[from].visual_rows[row.row_index as int],
        )
    } else {
        bare_marker_allowed(pages, row, from + 1)
    }
}

fn allow_bare_marker(pages: &Vec<ExtractedPage>, row: &CanonicalRow) -> (r: bool)
    ensures
        r == bare_marker_allowed(pages.deep_view(), row.deep_view(), 0),
{
    for i in 0..pages.len()
        invariant
            bare_marker_allowed(pages.deep_view(), row.deep_view(), i as int)
                == bare_marker_allowed(pages.deep_view(), row.deep_view(), 0),
    {
        assert(pages.deep_view()[i as int] == pages@[i as int].deep_view());
        if pages[i].physical_page == row.physical_page {
            if row.row_index < pages[i].visual_rows.len() {
                assert(pages@[i as int].visual_rows@[row.row_index as int].deep_view()
                    == pages.deep_view()[i as int].visual_rows[row.row_index as int]);
                return allows_marker(&pages[i].visual_rows[row.row_index]);
            }
            return true;
        }
    }
    true
}

// ---------------------------------------------------------------------------
// Lines
// ---------------------------------------------------------------------------

/// A parse while it goes through the rows.
#[verifier::ext_equal]
pub struct Progress {
    pub state: ParserStateView,
    pub lines: Seq<TranscriptLineView>,
}

/// The line that a row of dialogue is read as.
pub open spec fn read_line(
    row: CanonicalRowView,
    classified: ClassifiedLineView,
    continuity: SourceContinuity,
) -> TranscriptLineView {
    TranscriptLineView {
        source_row_id: row.id,
        physical_page: row.physical_page,
        transcript_page: row.transcript_page,
        line_number: row.line_number,
        kind: classified.kind,
        speaker: classified.speaker,
        participant_id: match classified.speaker {
            Some(speaker) => speaker.participant_id,
            None => None,
        },
        confidence: classified.confidence,
        verification: VerificationStatus::Uncertain,
        source_continuity: continuity,
        evidence: classified.evidence,
        starts_new_block: classified.starts_new_block,
        text: classified.text,
        raw_text: row.raw_text,
    }
}

/// A parse after one more row. A blank numbered line moves the position, page furniture
/// changes nothing, and any other row outside the dialogue breaks the turn off.
pub open spec fn progress_step(
    progress: Progress,
    row: CanonicalRowView,
    pages: Seq<ExtractedPageView>,
    context: TranscriptContextView,
) -> Progress {
    let state = progress.state;
    if row.disposition == RowDisposition::BlankNumberedLine && dialogue_section(row.section) {
        Progress {
            state: positioned(state, row.physical_page, row.transcript_page, row.line_number),
            ..progress
        }
    } else if row.disposition == RowDisposition::PageFurniture {
        progress
    } else if row.disposition != RowDisposition::Dialogue {
        Progress { state: broken_off(state), ..progress }
    } else {
        let continuity = line_continuity(
            state,
            row.physical_page,
            row.transcript_page,
            row.line_number,
        );
        let entered = if breaks_continuation(
            state,
            row.physical_page,
            row.transcript_page,
            row.line_number,
        ) {
            broken_off(state)
        } else {
            state
        };
        let (after, classified) = line_class(
            row.text,
            entered,
            context,
            bare_marker_allowed(pages, row, 0),
        );
        Progress {
            state: positioned(after, row.physical_page, row.transcript_page, row.line_number),
            lines: progress.lines.push(read_line(row, classified, continuity)),
        }
    }
}

/// The witness that a parse starts with: the primary one, where there is no other.
pub open spec fn opening_witness(context: TranscriptContextView) -> Option<SpeakerView> {
    if role_count(context.participants, SpeakerRole::Witness, context.participants.len() as int)
        <= 1 {
        context.primary_witness
    } else {
        None
    }
}

/// How many of the first `n` participants have a role.
pub open spec fn role_count(list: Seq<ParticipantView>, role: SpeakerRole, n: int) -> nat
    decreases n,
{
    if n <= 0 {
        0
    } else {
        role_count(list, role, n - 1) + if list[n - 1].role == role {
            1nat
        } else {
            0nat
        }
    }
}

fn count_role(list: &Vec<Participant>, role: SpeakerRole) -> (r: usize)
    ensures
        r == role_count(list.deep_view(), role, list.deep_view().len() as int),
{
    let mut r: usize = 0;
    for n in 0..list.len()
        invariant
            r <= n,
            r == role_count(list.deep_view(), role, n as int),
    {
        assert(list.deep_view()[n as int] == list@[n as int].deep_view());
        if list[n].role == role {
            r += 1;
        }
    }
    r
}

/// A parse after the first `n` rows.
pub open spec fn progress_after(
    rows: Seq<CanonicalRowView>,
    pages: Seq<ExtractedPageView>,
    context: TranscriptContextView,
    n: int,
) -> Progress
    decreases n,
{
    if n <= 0 {
        Progress { state: fresh_state(opening_witness(context)), lines: seq![] }
    } else {
        progress_step(progress_after(rows, pages, context, n - 1), rows[n - 1], pages, context)
    }
}

fn read_row(
    row: &CanonicalRow,
    pages: &Vec<ExtractedPage>,
    context: &TranscriptContext,
    state: &mut ParserState,
) -> (r: Option<TranscriptLine>)
    ensures
        forall|before: Seq<TranscriptLineView>|
            #![auto]
            (Progress {
                state: final(state).deep_view(),
                lines: match r {
                    Some(line) => before.push(line.deep_view()),
                    None => before,
                },
            }) == progress_step(
                Progress { state: old(state).deep_view(), lines: before },
                row.deep_view(),
                pages.deep_view(),
                context.deep_view(),
            ),
{
    if row.disposition == RowDisposition::BlankNumberedLine && row.section.is_dialogue() {
        update_parser_position(state, row.physical_page, &row.transcript_page, row.line_number);
        return None;
    }
    if row.disposition != RowDisposition::Dialogue {
        if row.disposition != RowDisposition::PageFurniture {
            state.continuation = None;
        }
        return None;
    }
    let source_continuity = determine_source_continuity(
        state,
        row.physical_page,
        &row.transcript_page,
        row.line_number,
    );
    if continuation_boundary_is_suspicious(
        state,
        row.physical_page,
        &row.transcript_page,
        row.line_number,
    ) {
        state.continuation = None;
    }
    let allowed = allow_bare_marker(pages, row);
    let classified = classify_line(row.text.as_str(), state, context, allowed);
    let participant_id = match &classified.speaker {
        Some(speaker) => clone_option(&speaker.participant_id),
        None => None,
    };
    update_parser_position(state, row.physical_page, &row.transcript_page, row.line_number);
    Some(
        TranscriptLine {
            source_row_id: row.id.clone(),
            physical_page: row.physical_page,
            transcript_page: clone_option(&row.transcript_page),
            line_number: row.line_number,
            kind: classified.kind,
            speaker: classified.speaker,
            participant_id,
            confidence: classified.confidence,
            verification: VerificationStatus::Uncertain,
            source_continuity,
            evidence: classified.evidence,
            starts_new_block: classified.starts_new_block,
            text: classified.text,
            raw_text: row.raw_text.clone(),
        },
    )
}

fn read_rows(rows: &Vec<CanonicalRow>, pages: &Vec<ExtractedPage>, context: &TranscriptContext) -> (r:
    Vec<TranscriptLine>)
    ensures
        r.deep_view() == progress_after(
            rows.deep_view(),
            pages.deep_view(),
            context.deep_view(),
            rows.deep_view().len() as int,
        ).lines,
{
    let witness = if count_role(&context.participants, SpeakerRole::Witness) <= 1 {
        context.primary_witness.clone()
    } else {
        None
    };
    let mut state = ParserState::new(witness);
    let mut lines: Vec<TranscriptLine> = Vec::new();
    assert(lines.deep_view() =~= seq![]);
    for n in 0..rows.len()
        invariant
            (Progress { state: state.deep_view(), lines: lines.deep_view() }) == progress_after(
                rows.deep_view(),
                pages.deep_view(),
                context.deep_view(),
                n as int,
            ),
    {
        assert(rows.deep_view()[n as int] == rows@[n as int].deep_view());
        let ghost before = lines.deep_view();
        match read_row(&rows[n], pages, context, &mut state) {
            Some(line) => {
                push_item(&mut lines, line);
            },
            None => {},
        }
        assert((Progress { state: state.deep_view(), lines: lines.deep_view() })
            == progress_after(
            rows.deep_view(),
            pages.deep_view(),
            context.deep_view(),
            n + 1,
        ));
    }
    lines
}

// ---------------------------------------------------------------------------
// Numbers
// ---------------------------------------------------------------------------

/// The physical pages of the dialogue among the first `n` rows that have no label.
pub open spec fn unlabelled_pages(rows: Seq<CanonicalRowView>, n: int) -> Seq<u32>
    decreases n,
{
    if n <= 0 {
        seq![]
    } else {
        let before = unlabelled_pages(rows, n - 1);
        let row = rows[n - 1];
        if row.disposition == RowDisposition::Dialogue && row.transcript_page is None
            && !before.contains(row.physical_page) {
            before.push(row.physical_page)
        } else {
            before
        }
    }
}

fn collect_unlabelled(rows: &Vec<CanonicalRow>) -> (r: Vec<u32>)
    ensures
        r@ == unlabelled_pages(rows.deep_view(), rows.deep_view().len() as int),
{
    let mut r: Vec<u32> = Vec::new();
    for n in 0..rows.len()
        invariant
            r@ == unlabelled_pages(rows.deep_view(), n as int),
    {
        assert(rows.deep_view()[n as int] == rows@[n as int].deep_view());
        if rows[n].disposition == RowDisposition::Dialogue && rows[n].transcript_page.is_none() {
            let page = rows[n].physical_page;
            let mut found = false;
            let mut i: usize = r.len();
            while i > 0 && !found
                invariant
                    i <= r@.len(),
                    found ==> r@.contains(page),
                    !found ==> forall|j: int| i <= j < r@.len() ==> r@[j] != page,
                decreases i,
            {
                i -= 1;
                if r[i] == page {
                    found = true;
                }
            }
            if !found {
                r.push(page);
            }
        }
    }
    r
}

/// How many of the first `n` lines were classified in a way.
pub open spec fn confidence_count(
    lines: Seq<TranscriptLineView>,
    confidence: ClassificationConfidence,
    n: int,
) -> nat
    decreases n,
{
    if n <= 0 {
        0
    } else {
        confidence_count(lines, confidence, n - 1) + if lines[n - 1].confidence == confidence {
            1nat
        } else {
            0nat
        }
    }
}

/// How many of the first `n` lines are of a kind.
pub open spec fn kind_count(lines: Seq<TranscriptLineView>, kind: LineKind, n: int) -> nat
    decreases n,
{
    if n <= 0 {
        0
    } else {
        kind_count(lines, kind, n - 1) + if lines[n - 1].kind == kind {
            1nat
        } else {
            0nat
        }
    }
}

/// How many of the first `n` lines were verified with a result.
pub open spec fn verification_count(
    lines: Seq<TranscriptLineView>,
    status: VerificationStatus,
    n: int,
) -> nat
    decreases n,
{
    if n <= 0 {
        0
    } else {
        verification_count(lines, status, n - 1) + if lines[n - 1].verification == status {
            1nat
        } else {
            0nat
        }
    }
}

fn count_confidence(lines: &Vec<TranscriptLine>, confidence: ClassificationConfidence) -> (r: usize)
    ensures
        r == confidence_count(lines.deep_view(), confidence, lines.deep_view().len() as int),
{
    let mut r: usize = 0;
    for n in 0..lines.len()
        invariant
            r <= n,
            r == confidence_count(lines.deep_view(), confidence, n as int),
    {
        assert(lines.deep_view()[n as int] == lines@[n as int].deep_view());
        if lines[n].confidence == confidence {
            r += 1;
        }
    }
    r
}

fn count_kind(lines: &Vec<TranscriptLine>, kind: LineKind) -> (r: usize)
    ensures
        r == kind_count(lines.deep_view(), kind, lines.deep_view().len() as int),
        r <= lines@.len(),
{
    let mut r: usize = 0;
    for n in 0..lines.len()
        invariant
            r <= n,
            r == kind_count(lines.deep_view(), kind, n as int),
    {
        assert(lines.deep_view()[n as int] == lines@[n as int].deep_view());
        if lines[n].kind == kind {
            r += 1;
        }
    }
    r
}

fn count_verification(lines: &Vec<TranscriptLine>, status: VerificationStatus) -> (r: usize)
    ensures
        r == verification_count(lines.deep_view(), status, lines.deep_view().len() as int),
{
    let mut r: usize = 0;
    for n in 0..lines.len()
        invariant
            r <= n,
            r == verification_count(lines.deep_view(), status, n as int),
    {
        assert(lines.deep_view()[n as int] == lines@[n as int].deep_view());
        if lines[n].verification == status {
            r += 1;
        }
    }
    r
}

/// Whether an exchange holds an answer.
pub open spec fn answered(e: TestimonyExchangeView) -> bool {
    exists|i: int|
        0 <= i < e.response_sequence.len() && (#[trigger] e.response_sequence[i]).kind
            == LineKind::Answer
}

fn is_answered(e: &TestimonyExchange) -> (r: bool)
    ensures
        r == answered(e.deep_view()),
{
    let ghost view = e.deep_view().response_sequence;
    for i in 0..e.response_sequence.len()
        invariant
            view == e.response_sequence.deep_view(),
            forall|j: int| 0 <= j < i ==> (#[trigger] view[j]).kind != LineKind::Answer,
    {
        assert(view[i as int] == e.response_sequence@[i as int].deep_view());
        if e.response_sequence[i].kind == LineKind::Answer {
            return true;
        }
    }
    false
}

/// How many of the first `n` exchanges hold no answer.
pub open spec fn unanswered_count(exchanges: Seq<TestimonyExchangeView>, n: int) -> nat
    decreases n,
{
    if n <= 0 {
        0
    } else {
        unanswered_count(exchanges, n - 1) + if answered(exchanges[n - 1]) {
            0nat
        } else {
            1nat
        }
    }
}

fn count_unanswered(exchanges: &Vec<TestimonyExchange>) -> (r: usize)
    ensures
        r == unanswered_count(exchanges.deep_view(), exchanges.deep_view().len() as int),
{
    let mut r: usize = 0;
    for n in 0..exchanges.len()
        invariant
            r <= n,
            r == unanswered_count(exchanges.deep_view(), n as int),
    {
        assert(exchanges.deep_view()[n as int] == exchanges@[n as int].deep_view());
        if !is_answered(&exchanges[n]) {
            r += 1;
        }
    }
    r
}

/// How many of the first `n` participants are redacted or have no name.
pub open spec fn anonymous_count(list: Seq<ParticipantView>, n: int) -> nat
    decreases n,
{
    if n <= 0 {
        0
    } else {
        anonymous_count(list, n - 1) + if list[n - 1].redacted || list[n - 1].canonical_name is None {
            1nat
        } else {
            0nat
        }
    }
}

fn count_anonymous(list: &Vec<Participant>) -> (r: usize)
    ensures
        r == anonymous_count(list.deep_view(), list.deep_view().len() as int),
{
    let mut r: usize = 0;
    for n in 0..list.len()
        invariant
            r <= n,
            r == anonymous_count(list.deep_view(), n as int),
    {
        assert(list.deep_view()[n as int] == list@[n as int].deep_view());
        if list[n].redacted || list[n].canonical_name.is_none() {
            r += 1;
        }
    }
    r
}

/// How much a line counts for the confidence in a parse, in hundredths.
pub open spec fn status_weight(status: VerificationStatus) -> u8 {
    match status {
        VerificationStatus::Verified => 100,
        VerificationStatus::VerifiedWithInference => 88,
        VerificationStatus::Redacted => 80,
        VerificationStatus::SourceMissing => 45,
        VerificationStatus::Uncertain => 25,
        VerificationStatus::Conflict => 0,
    }
}

/// Computes [`status_weight`].
pub fn verification_weight(status: VerificationStatus) -> (r: u8)
    ensures
        r == status_weight(status),
{
    match status {
        VerificationStatus::Verified => 100,
        VerificationStatus::VerifiedWithInference => 88,
        VerificationStatus::Redacted => 80,
        VerificationStatus::SourceMissing => 45,
        VerificationStatus::Uncertain => 25,
        VerificationStatus::Conflict => 0,
    }
}

// ---------------------------------------------------------------------------
// The whole
// ---------------------------------------------------------------------------

/// The lines of a document as they are first read, with turns seen whole.
pub open spec fn read_lines(
    document: ExtractedDocumentView,
    context: TranscriptContextView,
    max: u16,
) -> Seq<TranscriptLineView> {
    let rows = source_rows(document, context.page_contexts, max);
    turns_completed(
        progress_after(rows, document.pages, context, rows.len() as int).lines,
        0,
        None,
    )
}

/// How a parse went, in numbers.
pub open spec fn parse_diagnostics(
    rows: Seq<CanonicalRowView>,
    lines: Seq<TranscriptLineView>,
    exchanges: Seq<TestimonyExchangeView>,
    unpaired: nat,
    context: TranscriptContextView,
) -> ParseDiagnostics {
    let n = lines.len() as int;
    ParseDiagnostics {
        inferred_lines: confidence_count(lines, ClassificationConfidence::Inferred, n) as usize,
        unknown_lines: kind_count(lines, LineKind::Unknown, n) as usize,
        verified_lines: verification_count(lines, VerificationStatus::Verified, n) as usize,
        verified_with_inference_lines: verification_count(
            lines,
            VerificationStatus::VerifiedWithInference,
            n,
        ) as usize,
        conflict_lines: verification_count(lines, VerificationStatus::Conflict, n) as usize,
        uncertain_lines: verification_count(lines, VerificationStatus::Uncertain, n) as usize,
        detected_transcript_pages: dialogue_panels(rows, rows.len() as int).len() as usize,
        physical_pages_without_transcript_page: unlabelled_pages(
            rows,
            rows.len() as int,
        ).len() as usize,
        unanswered_questions: unanswered_count(exchanges, exchanges.len() as int) as usize,
        unpaired_answers: unpaired as usize,
        detected_gaps: context.gaps.len() as usize,
        anonymous_participants: anonymous_count(
            context.participants,
            context.participants.len() as int,
        ) as usize,
        explicit_redaction_annotations: context.redaction_summary.explicit_redaction_annotations,
        dark_redaction_candidates: total(
            context.redaction_summary.dark_annotation_candidates,
            context.redaction_summary.dark_filled_rectangle_candidates,
        ),
        textual_redaction_markers: context.redaction_summary.textual_redaction_markers,
    }
}

/// What a document is parsed into.
pub open spec fn parsed_transcript(
    filename: Seq<char>,
    document: ExtractedDocumentView,
    context: TranscriptContextView,
    max: u16,
) -> ParsedTranscriptView {
    let rows = source_rows(document, context.page_contexts, max);
    let read = read_lines(document, context, max);
    let resolved = reconciled(context, read);
    let lines = verified_lines(read, resolved, max);
    let issues = issues_of(read, resolved, max, read.len() as int);
    let blocks = blocks_of(lines, lines.len() as int);
    let exchanges = exchanges_of(blocks);
    let omni = transcript_ir(document, resolved, rows, lines, blocks);
    ParsedTranscriptView {
        schema_version: "2.0"@,
        source_sha256: None,
        quality: quality_report(document, resolved, omni, lines, blocks, issues),
        source_pages: document.pages,
        filename,
        profile: resolved.profile_name,
        physical_page_count: document.pages.len() as usize,
        transcript_page_count: dialogue_panels(rows, rows.len() as int).len() as usize,
        line_count: (lines.len() - kind_count(lines, LineKind::PageHeader, lines.len() as int))
            as usize,
        context: resolved,
        lines,
        blocks,
        exchanges: exchanges.finished,
        graph: transcript_graph(blocks),
        omni,
        unpaired_answers: exchanges.unpaired,
        verification_issues: issues,
        diagnostics: parse_diagnostics(
            rows,
            lines,
            exchanges.finished,
            exchanges.unpaired.len(),
            resolved,
        ),
    }
}

/// Parses a document. Text that nothing identifies stays unknown, so every document parses.
pub fn parse_transcript(
    filename: String,
    document: &ExtractedDocument,
    context: &TranscriptContext,
    profile: &TranscriptProfile,
) -> (r: Result<ParsedTranscript, TranscriptParseError>)
    ensures
        r matches Ok(t) && t.deep_view() == parsed_transcript(
            filename@,
            document.deep_view(),
            context.deep_view(),
            profile.deep_view().max_line_number,
        ),
{
    let mut rows = collect_rows(document, context, profile);
    let transcript_page_count = panels_of_dialogue(&rows).len();
    let pages_without_label = collect_unlabelled(&rows).len();
    let mut lines = read_rows(&rows, &document.pages, context);
    complete_speaker_turns(&mut lines);
    let mut resolved = context.clone();
    reconcile_dynamic_participants(&mut resolved, &lines);
    let verification_issues = verify_transcript_lines(&mut lines, &resolved, profile);
    let blocks = build_blocks(&lines);
    let (exchanges, unpaired_answers) = build_exchanges(&blocks);
    let graph = build_transcript_graph(&blocks);
    let omni = build_transcript_ir(document, &resolved, &mut rows, &lines, &blocks);
    let quality = assess(document, &resolved, &omni, &lines, &blocks, &verification_issues);
    let diagnostics = ParseDiagnostics {
        inferred_lines: count_confidence(&lines, ClassificationConfidence::Inferred),
        unknown_lines: count_kind(&lines, LineKind::Unknown),
        verified_lines: count_verification(&lines, VerificationStatus::Verified),
        verified_with_inference_lines: count_verification(
            &lines,
            VerificationStatus::VerifiedWithInference,
        ),
        conflict_lines: count_verification(&lines, VerificationStatus::Conflict),
        uncertain_lines: count_verification(&lines, VerificationStatus::Uncertain),
        detected_transcript_pages: transcript_page_count,
        physical_pages_without_transcript_page: pages_without_label,
        unanswered_questions: count_unanswered(&exchanges),
        unpaired_answers: unpaired_answers.len(),
        detected_gaps: resolved.gaps.len(),
        anonymous_participants: count_anonymous(&resolved.participants),
        explicit_redaction_annotations: resolved.redaction_summary.explicit_redaction_annotations,
        dark_redaction_candidates: sum(
            resolved.redaction_summary.dark_annotation_candidates,
            resolved.redaction_summary.dark_filled_rectangle_candidates,
        ),
        textual_redaction_markers: resolved.redaction_summary.textual_redaction_markers,
    };
    let headers = count_kind(&lines, LineKind::PageHeader);
    let source_pages = document.pages.clone();
    assert(source_pages.deep_view() =~= document.pages.deep_view());
    Ok(
        ParsedTranscript {
            schema_version: "2.0".to_owned(),
            source_sha256: None,
            quality,
            source_pages,
            filename,
            profile: resolved.profile_name.clone(),
            physical_page_count: document.source_page_count(),
            transcript_page_count,
            line_count: lines.len() - headers,
            context: resolved,
            lines,
            blocks,
            exchanges,
            graph,
            omni,
            unpaired_answers,
            verification_issues,
            diagnostics,
        },
    )
}

// ---------------------------------------------------------------------------
// Laws
// ---------------------------------------------------------------------------

/// How a line follows the one before it. On the same page it is continuous where its number is the
/// next, and behind a gap otherwise; on another page it is continuous where it is line 1 of the
/// next transcript page, and behind a gap where it is not; where a page was passed over it is
/// behind a gap; and the first line that is observed follows nothing.
pub proof fn law_lines_follow_by_number(
    state: ParserStateView,
    physical_page: u32,
    label: Option<Seq<char>>,
    line: u16,
    last: u16,
    previous: u32,
)
    requires
        last < u16::MAX,
    ensures
        ({
            let continuity = line_continuity(state, physical_page, label, Some(line));
            let placed = state.last_physical_page == Some(previous) && state.last_line_number
                == Some(last);
            &&& state.last_physical_page is None ==> continuity == SourceContinuity::FirstObserved
            &&& state.last_physical_page == Some(previous) && physical_page > previous + 1
                ==> continuity == SourceContinuity::GapBefore
            &&& placed && physical_page == previous && line == last + 1 ==> continuity
                == SourceContinuity::Continuous
            &&& placed && physical_page == previous && line != last + 1 ==> continuity
                == SourceContinuity::GapBefore
            &&& placed && physical_page != previous && physical_page <= previous + 1
                && state.last_transcript_page is Some && label is Some && parsed_u32(
                label->0,
            ) is Some ==> {
                let current = parsed_u32(label->0)->0;
                &&& current == state.last_transcript_page->0 + 1 && line == 1 ==> continuity
                    == SourceContinuity::CrossPageContinuous
                &&& current != state.last_transcript_page->0 + 1 || line != 1 ==> continuity
                    == SourceContinuity::GapBefore
            }
            &&& placed && physical_page != previous && physical_page <= previous + 1 && (
            state.last_transcript_page is None || label is None) ==> continuity
                == SourceContinuity::Unknown
        }),
{
}

/// What a parse makes of a row. A row of dialogue becomes one line, with the place, the number and
/// the identifier of the row, what the row is read as, and whoever says it; page furniture is
/// passed over; a line number without text moves the position; and any other row breaks off the
/// turn. Lines that were read stay.
pub proof fn law_rows_are_read_one_by_one(
    rows: Seq<CanonicalRowView>,
    pages: Seq<ExtractedPageView>,
    context: TranscriptContextView,
    n: int,
)
    requires
        0 <= n < rows.len(),
    ensures
        ({
            let before = progress_after(rows, pages, context, n);
            let after = progress_after(rows, pages, context, n + 1);
            let row = rows[n];
            let state = before.state;
            let placed = after.state.last_physical_page == Some(row.physical_page)
                && after.state.last_line_number == row.line_number
                && after.state.last_transcript_page == match row.transcript_page {
                Some(label) => parsed_u32(label),
                None => None,
            };
            let blank_line = row.disposition == RowDisposition::BlankNumberedLine && row.section
                == PageSection::Transcript;
            let dialogue = row.disposition == RowDisposition::Dialogue;
            let furniture = row.disposition == RowDisposition::PageFurniture;
            &&& furniture ==> after == before
            &&& blank_line ==> after.lines == before.lines && placed && after.state.continuation
                == state.continuation && after.state.current_questioner == state.current_questioner
                && after.state.current_witness == state.current_witness
            &&& !dialogue && !furniture && !blank_line ==> after.lines == before.lines
                && after.state.continuation is None && after.state.last_line_number
                == state.last_line_number && after.state.current_witness == state.current_witness
                && after.state.current_questioner == state.current_questioner
            &&& dialogue ==> {
                let line = after.lines.last();
                let gap = line_continuity(
                    state,
                    row.physical_page,
                    row.transcript_page,
                    row.line_number,
                ) == SourceContinuity::GapBefore;
                let entered = if gap {
                    ParserStateView { continuation: None, ..state }
                } else {
                    state
                };
                let breaks = breaks_continuation(
                    state,
                    row.physical_page,
                    row.transcript_page,
                    row.line_number,
                );
                let read = line_class(row.text, entered, context, bare_marker_allowed(pages, row, 0));
                &&& after.lines.len() == before.lines.len() + 1
                &&& after.lines.drop_last() == before.lines
                &&& placed
                &&& line.source_row_id == row.id
                &&& line.physical_page == row.physical_page
                &&& line.transcript_page == row.transcript_page
                &&& line.line_number == row.line_number
                &&& line.raw_text == row.raw_text
                &&& line.source_continuity == line_continuity(
                    state,
                    row.physical_page,
                    row.transcript_page,
                    row.line_number,
                )
                &&& line.verification == VerificationStatus::Uncertain
                &&& line.speaker is None ==> line.participant_id is None
                &&& line.speaker matches Some(s) ==> line.participant_id == s.participant_id
                &&& gap || !breaks ==> {
                    &&& line.kind == read.1.kind
                    &&& line.speaker == read.1.speaker
                    &&& line.text == read.1.text
                    &&& line.confidence == read.1.confidence
                    &&& line.starts_new_block == read.1.starts_new_block
                    &&& after.state.continuation == read.0.continuation
                    &&& after.state.current_questioner == read.0.current_questioner
                    &&& after.state.current_witness == read.0.current_witness
                }
            }
        }),
{
    let before = progress_after(rows, pages, context, n);
    let after = progress_after(rows, pages, context, n + 1);
    assert(after == progress_step(before, rows[n], pages, context));
    if rows[n].disposition == RowDisposition::Dialogue {
        assert(after.lines.drop_last() =~= before.lines);
    }
}

/// A parse starts with nothing read and nobody asking. It starts with the primary witness where
/// there is at most one witness, and with none where there are several.
pub proof fn law_parses_start_fresh(
    rows: Seq<CanonicalRowView>,
    pages: Seq<ExtractedPageView>,
    context: TranscriptContextView,
)
    ensures
        ({
            let start = progress_after(rows, pages, context, 0);
            let witnesses = context.participants.filter(
                |p: ParticipantView| p.role == SpeakerRole::Witness,
            ).len();
            &&& start.lines.len() == 0
            &&& start.state.current_questioner is None
            &&& start.state.continuation is None
            &&& start.state.last_physical_page is None
            &&& witnesses <= 1 ==> start.state.current_witness == context.primary_witness
            &&& witnesses > 1 ==> start.state.current_witness is None
        }),
{
    let list = context.participants;
    lemma_role_count(list, SpeakerRole::Witness, list.len() as int);
    assert(list.take(list.len() as int) =~= list);
}

proof fn lemma_role_count(list: Seq<ParticipantView>, role: SpeakerRole, n: int)
    requires
        0 <= n <= list.len(),
    ensures
        role_count(list, role, n) == list.take(n).filter(|p: ParticipantView| p.role == role).len(),
    decreases n,
{
    lemma_filter_first(list, |p: ParticipantView| p.role == role, n);
    if n > 0 {
        lemma_role_count(list, role, n - 1);
    }
}

proof fn lemma_line_counts(
    lines: Seq<TranscriptLineView>,
    confidence: ClassificationConfidence,
    kind: LineKind,
    status: VerificationStatus,
    n: int,
)
    requires
        0 <= n <= lines.len(),
    ensures
        confidence_count(lines, confidence, n) == lines.take(n).filter(
            |line: TranscriptLineView| line.confidence == confidence,
        ).len(),
        kind_count(lines, kind, n) == lines.take(n).filter(
            |line: TranscriptLineView| line.kind == kind,
        ).len(),
        verification_count(lines, status, n) == lines.take(n).filter(
            |line: TranscriptLineView| line.verification == status,
        ).len(),
    decreases n,
{
    lemma_filter_first(lines, |line: TranscriptLineView| line.confidence == confidence, n);
    lemma_filter_first(lines, |line: TranscriptLineView| line.kind == kind, n);
    lemma_filter_first(lines, |line: TranscriptLineView| line.verification == status, n);
    if n > 0 {
        lemma_line_counts(lines, confidence, kind, status, n - 1);
    }
}

/// Lines are counted by how they were classified, by what they are and by how far they agree with
/// their source, each line that is so and no other.
pub proof fn law_lines_are_counted(
    lines: Seq<TranscriptLineView>,
    confidence: ClassificationConfidence,
    kind: LineKind,
    status: VerificationStatus,
)
    ensures
        confidence_count(lines, confidence, lines.len() as int) == lines.filter(
            |line: TranscriptLineView| line.confidence == confidence,
        ).len(),
        kind_count(lines, kind, lines.len() as int) == lines.filter(
            |line: TranscriptLineView| line.kind == kind,
        ).len(),
        verification_count(lines, status, lines.len() as int) == lines.filter(
            |line: TranscriptLineView| line.verification == status,
        ).len(),
{
    lemma_line_counts(lines, confidence, kind, status, lines.len() as int);
    assert(lines.take(lines.len() as int) =~= lines);
}

proof fn lemma_unanswered(exchanges: Seq<TestimonyExchangeView>, n: int)
    requires
        0 <= n <= exchanges.len(),
    ensures
        unanswered_count(exchanges, n) == exchanges.take(n).filter(
            |e: TestimonyExchangeView| !answered(e),
        ).len(),
    decreases n,
{
    lemma_filter_first(exchanges, |e: TestimonyExchangeView| !answered(e), n);
    if n > 0 {
        lemma_unanswered(exchanges, n - 1);
    }
}

proof fn lemma_counts_are_bounded(lines: Seq<TranscriptLineView>, n: int)
    requires
        0 <= n <= lines.len(),
    ensures
        forall|kind: LineKind| #[trigger] kind_count(lines, kind, n) <= n,
        forall|c: ClassificationConfidence| #[trigger] confidence_count(lines, c, n) <= n,
        forall|s: VerificationStatus| #[trigger] verification_count(lines, s, n) <= n,
    decreases n,
{
    if n > 0 {
        lemma_counts_are_bounded(lines, n - 1);
        assert forall|kind: LineKind| #[trigger] kind_count(lines, kind, n) <= n by {
            assert(kind_count(lines, kind, n - 1) <= n - 1);
        }
        assert forall|c: ClassificationConfidence| #[trigger] confidence_count(lines, c, n) <= n by {
            assert(confidence_count(lines, c, n - 1) <= n - 1);
        }
        assert forall|s: VerificationStatus| #[trigger] verification_count(lines, s, n) <= n by {
            assert(verification_count(lines, s, n - 1) <= n - 1);
        }
    }
}

proof fn lemma_unanswered_is_bounded(exchanges: Seq<TestimonyExchangeView>, n: int)
    requires
        0 <= n <= exchanges.len(),
    ensures
        unanswered_count(exchanges, n) <= n,
    decreases n,
{
    if n > 0 {
        lemma_unanswered_is_bounded(exchanges, n - 1);
    }
}

/// What a parse holds fits together: its blocks are made of its lines, its exchanges and its graph
/// of its blocks, the answers without a question are those of the blocks, the pages are those of
/// the document, and what it counts is what it holds.
pub proof fn law_parses_fit_together(
    filename: Seq<char>,
    document: ExtractedDocumentView,
    context: TranscriptContextView,
    max: u16,
)
    ensures
        ({
            let parsed = parsed_transcript(filename, document, context, max);
            let d = parsed.diagnostics;
            let count = parsed.lines.len() as int;
            &&& parsed.schema_version == "2.0"@
            &&& parsed.source_sha256 is None
            &&& parsed.filename == filename
            &&& parsed.source_pages == document.pages
            &&& parsed.blocks == blocks_of(parsed.lines, count)
            &&& parsed.exchanges == exchanges_of(parsed.blocks).finished
            &&& parsed.unpaired_answers == exchanges_of(parsed.blocks).unpaired
            &&& parsed.graph == transcript_graph(parsed.blocks)
            &&& document.pages.len() <= usize::MAX ==> parsed.physical_page_count
                == document.pages.len()
            &&& count <= usize::MAX ==> parsed.line_count == count - parsed.lines.filter(
                |line: TranscriptLineView| line.kind == LineKind::PageHeader,
            ).len()
            &&& count <= usize::MAX ==> {
                &&& d.unknown_lines == parsed.lines.filter(
                    |line: TranscriptLineView| line.kind == LineKind::Unknown,
                ).len()
                &&& d.inferred_lines == parsed.lines.filter(
                    |line: TranscriptLineView| line.confidence == ClassificationConfidence::Inferred,
                ).len()
                &&& d.verified_lines == parsed.lines.filter(
                    |line: TranscriptLineView| line.verification == VerificationStatus::Verified,
                ).len()
                &&& d.verified_with_inference_lines == parsed.lines.filter(
                    |line: TranscriptLineView|
                        line.verification == VerificationStatus::VerifiedWithInference,
                ).len()
                &&& d.conflict_lines == parsed.lines.filter(
                    |line: TranscriptLineView| line.verification == VerificationStatus::Conflict,
                ).len()
                &&& d.uncertain_lines == parsed.lines.filter(
                    |line: TranscriptLineView| line.verification == VerificationStatus::Uncertain,
                ).len()
            }
            &&& parsed.unpaired_answers.len() <= usize::MAX ==> d.unpaired_answers
                == parsed.unpaired_answers.len()
            &&& parsed.exchanges.len() <= usize::MAX ==> d.unanswered_questions
                == parsed.exchanges.filter(|e: TestimonyExchangeView| !answered(e)).len()
            &&& parsed.context.gaps.len() <= usize::MAX ==> d.detected_gaps
                == parsed.context.gaps.len()
            &&& d.explicit_redaction_annotations
                == parsed.context.redaction_summary.explicit_redaction_annotations
            &&& d.textual_redaction_markers
                == parsed.context.redaction_summary.textual_redaction_markers
        }),
{
    let parsed = parsed_transcript(filename, document, context, max);
    let lines = parsed.lines;
    let all = lines.len() as int;
    law_lines_are_counted(
        lines,
        ClassificationConfidence::Inferred,
        LineKind::Unknown,
        VerificationStatus::Verified,
    );
    law_lines_are_counted(
        lines,
        ClassificationConfidence::Inferred,
        LineKind::PageHeader,
        VerificationStatus::VerifiedWithInference,
    );
    law_lines_are_counted(
        lines,
        ClassificationConfidence::Inferred,
        LineKind::PageHeader,
        VerificationStatus::Conflict,
    );
    law_lines_are_counted(
        lines,
        ClassificationConfidence::Inferred,
        LineKind::PageHeader,
        VerificationStatus::Uncertain,
    );
    lemma_unanswered(parsed.exchanges, parsed.exchanges.len() as int);
    assert(parsed.exchanges.take(parsed.exchanges.len() as int) =~= parsed.exchanges);
    lemma_counts_are_bounded(lines, all);
    lemma_unanswered_is_bounded(parsed.exchanges, parsed.exchanges.len() as int);
}

} // verus!
