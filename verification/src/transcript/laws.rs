//! What holds of every parsed transcript.
use vstd::prelude::*;

use crate::document::models::{ExtractedDocumentView, ExtractedPageView};
use crate::lookup::{last_position, lemma_occurs, occurrences};
use crate::transcript::blocks::{
    dialogue_rows, law_blocks_own_every_line, law_turns_keep_lines, lemma_turn_end, owned_rows,
    turn_end, turn_kind, turn_retold, turns_completed,
};
use crate::transcript::classify::{
    broken_off, labelled_line, line_class, marked_line, prefixed_speaker, unmarked_line,
    ParserStateView,
};
use crate::transcript::markers::MarkerMatchView;
use crate::transcript::models::{
    participant_with_id, LineKind, SourceContinuity, SpeakerView, TranscriptBlockView, TranscriptContextView,
    TranscriptLineView,
};
use crate::transcript::omni::{
    annotated_rows, assigned_count, dialogue_count, dialogue_panels, final_rows, known_rows,
    law_spans_list_their_rows, lemma_known_rows, row_ids, span_rows,
};
use crate::transcript::omni_models::{CanonicalRowView, RowDisposition};
use crate::transcript::parser::{
    breaks_continuation, line_continuity, parsed_transcript, progress_after, read_lines,
};
use crate::transcript::registry::{law_every_speaker_is_registered, line_speaker_id};
use crate::transcript::source::{law_row_ids_are_unique, source_rows};

verus! {

// ---------------------------------------------------------------------------
// Every row of dialogue becomes one line
// ---------------------------------------------------------------------------

/// The identifiers of the rows of dialogue among the first `n`.
pub open spec fn dialogue_ids(rows: Seq<CanonicalRowView>, n: int) -> Seq<Seq<char>>
    decreases n,
{
    if n <= 0 {
        seq![]
    } else if rows[n - 1].disposition == RowDisposition::Dialogue {
        dialogue_ids(rows, n - 1).push(rows[n - 1].id)
    } else {
        dialogue_ids(rows, n - 1)
    }
}

/// The source rows of the first `n` lines.
pub open spec fn line_ids(lines: Seq<TranscriptLineView>, n: int) -> Seq<Seq<char>> {
    Seq::new(n as nat, |i: int| lines[i].source_row_id)
}

proof fn lemma_rows_become_lines(
    rows: Seq<CanonicalRowView>,
    pages: Seq<ExtractedPageView>,
    context: TranscriptContextView,
    n: int,
)
    requires
        0 <= n <= rows.len(),
    ensures
        ({
            let lines = progress_after(rows, pages, context, n).lines;
            line_ids(lines, lines.len() as int) == dialogue_ids(rows, n)
        }),
    decreases n,
{
    if n > 0 {
        lemma_rows_become_lines(rows, pages, context, n - 1);
        let before = progress_after(rows, pages, context, n - 1).lines;
        let after = progress_after(rows, pages, context, n).lines;
        if rows[n - 1].disposition == RowDisposition::Dialogue {
            assert(after.len() == before.len() + 1);
            assert(line_ids(after, after.len() as int) =~= line_ids(
                before,
                before.len() as int,
            ).push(rows[n - 1].id));
        } else {
            assert(after == before);
        }
    } else {
        assert(line_ids(progress_after(rows, pages, context, 0).lines, 0) =~= seq![]);
    }
}

/// Every row of dialogue is read as one line, in order, and nothing else is: whatever a line
/// says, it says under the identifier of the row that it was read from.
pub proof fn law_rows_become_lines(
    filename: Seq<char>,
    document: ExtractedDocumentView,
    context: TranscriptContextView,
    max: u16,
)
    ensures
        ({
            let rows = source_rows(document, context.page_contexts, max);
            let lines = parsed_transcript(filename, document, context, max).lines;
            line_ids(lines, lines.len() as int) == dialogue_ids(rows, rows.len() as int)
        }),
{
    let rows = source_rows(document, context.page_contexts, max);
    let first = progress_after(rows, document.pages, context, rows.len() as int).lines;
    lemma_rows_become_lines(rows, document.pages, context, rows.len() as int);
    law_turns_keep_lines(first, 0, None);
    let lines = parsed_transcript(filename, document, context, max).lines;
    let read = read_lines(document, context, max);
    assert(lines.len() == first.len());
    assert forall|i: int| 0 <= i < first.len() implies (#[trigger] lines[i]).source_row_id
        == first[i].source_row_id by {
        assert(crate::transcript::blocks::same_source(read[i], first[i]));
    }
    assert(line_ids(lines, lines.len() as int) =~= line_ids(first, first.len() as int));
}

// ---------------------------------------------------------------------------
// No turn crosses a gap
// ---------------------------------------------------------------------------

/// Where no turn is active there is none to break off, and an active turn is broken off at every
/// gap in the source: a line behind a gap is read with no turn active.
pub proof fn law_no_turn_crosses_a_gap(
    state: ParserStateView,
    physical_page: u32,
    label: Option<Seq<char>>,
    line_number: Option<u16>,
)
    ensures
        ({
            let breaks = breaks_continuation(state, physical_page, label, line_number);
            let gap = line_continuity(state, physical_page, label, line_number)
                == SourceContinuity::GapBefore;
            &&& state.continuation is None ==> !breaks
            &&& state.continuation is Some && gap ==> breaks
            &&& gap ==> (if breaks {
                broken_off(state)
            } else {
                state
            }).continuation is None
        }),
{
}

// ---------------------------------------------------------------------------
// Every line belongs to one block
// ---------------------------------------------------------------------------

/// Whether a state continues no page header.
spec fn no_header_continues(state: ParserStateView) -> bool {
    state.continuation matches Some(active) ==> active.kind != LineKind::PageHeader
}

proof fn lemma_prefix_keeps_continuation(
    label: Seq<char>,
    remainder: Seq<char>,
    state: ParserStateView,
    context: TranscriptContextView,
)
    ensures
        prefixed_speaker(label, remainder, state, context).0.continuation == state.continuation,
{
}

proof fn lemma_labelled_line_kind(
    speaker: SpeakerView,
    text: Seq<char>,
    state: ParserStateView,
    context: TranscriptContextView,
)
    requires
        no_header_continues(state),
    ensures
        no_header_continues(labelled_line(speaker, text, state, context).0),
        labelled_line(speaker, text, state, context).1.kind != LineKind::PageHeader,
{
}

proof fn lemma_marked_line_kind(
    marker: MarkerMatchView,
    state: ParserStateView,
    context: TranscriptContextView,
)
    requires
        no_header_continues(state),
    ensures
        no_header_continues(marked_line(marker, state, context).0),
        marked_line(marker, state, context).1.kind != LineKind::PageHeader,
{
}

proof fn lemma_unmarked_line_kind(content: Seq<char>, state: ParserStateView)
    requires
        no_header_continues(state),
    ensures
        no_header_continues(unmarked_line(content, state).0),
        unmarked_line(content, state).1.kind != LineKind::PageHeader,
{
}

proof fn lemma_line_kind(
    text: Seq<char>,
    state: ParserStateView,
    context: TranscriptContextView,
    allow: bool,
)
    requires
        no_header_continues(state),
    ensures
        no_header_continues(line_class(text, state, context, allow).0),
        line_class(text, state, context, allow).1.kind != LineKind::PageHeader,
{
    let content = crate::scan::trimmed(text);
    match crate::transcript::speaker::labelled_turn(content) {
        Some((label, remainder)) => {
            lemma_prefix_keeps_continuation(label, remainder, state, context);
            let (after, speaker) = prefixed_speaker(label, remainder, state, context);
            lemma_labelled_line_kind(speaker, remainder, after, context);
        },
        None => {},
    }
    match crate::transcript::markers::matched_marker(content, context.marker_rules) {
        Some(marker) => {
            lemma_marked_line_kind(marker, state, context);
        },
        None => {},
    }
    lemma_unmarked_line_kind(content, state);
}

proof fn lemma_progress_kinds(
    rows: Seq<CanonicalRowView>,
    pages: Seq<ExtractedPageView>,
    context: TranscriptContextView,
    n: int,
)
    requires
        0 <= n <= rows.len(),
    ensures
        no_header_continues(progress_after(rows, pages, context, n).state),
        forall|i: int|
            0 <= i < progress_after(rows, pages, context, n).lines.len() ==> (
            #[trigger] progress_after(rows, pages, context, n).lines[i]).kind
                != LineKind::PageHeader,
    decreases n,
{
    if n > 0 {
        lemma_progress_kinds(rows, pages, context, n - 1);
        let before = progress_after(rows, pages, context, n - 1);
        let row = rows[n - 1];
        let allow = crate::transcript::parser::bare_marker_allowed(pages, row, 0);
        lemma_line_kind(row.text, before.state, context, allow);
        lemma_line_kind(
            row.text,
            crate::transcript::classify::broken_off(before.state),
            context,
            allow,
        );
    }
}

proof fn lemma_turns_kinds(
    lines: Seq<TranscriptLineView>,
    start: int,
    asked_by: Option<Seq<char>>,
)
    requires
        forall|i: int| 0 <= i < lines.len() ==> (#[trigger] lines[i]).kind != LineKind::PageHeader,
    ensures
        turns_completed(lines, start, asked_by).len() == lines.len(),
        forall|i: int|
            0 <= i < lines.len() ==> (#[trigger] turns_completed(lines, start, asked_by)[i]).kind
                != LineKind::PageHeader,
    decreases lines.len() - start,
{
    if 0 <= start < lines.len() {
        let end = turn_end(lines, start, start + 1);
        lemma_turn_end(lines, start, start + 1);
        let after = match turn_kind(lines, start, end, asked_by) {
            Some(kind) => turn_retold(lines, start, end, kind),
            None => lines,
        };
        assert forall|i: int| 0 <= i < after.len() implies (#[trigger] after[i]).kind
            != LineKind::PageHeader by {
            assert(lines[i].kind != LineKind::PageHeader);
        }
        lemma_turns_kinds(
            after,
            end,
            crate::transcript::blocks::asker_after(after[start], asked_by),
        );
    }
}

proof fn lemma_no_headers(lines: Seq<TranscriptLineView>, n: int)
    requires
        0 <= n <= lines.len(),
        forall|i: int| 0 <= i < lines.len() ==> (#[trigger] lines[i]).kind != LineKind::PageHeader,
    ensures
        dialogue_rows(lines, n) == line_ids(lines, n),
    decreases n,
{
    if n > 0 {
        lemma_no_headers(lines, n - 1);
        assert(line_ids(lines, n) =~= line_ids(lines, n - 1).push(lines[n - 1].source_row_id));
    } else {
        assert(line_ids(lines, 0) =~= seq![]);
    }
}

/// The blocks of a transcript, end to end, own exactly the rows of its dialogue, in order:
/// nothing of the dialogue is lost, added or moved.
pub proof fn law_blocks_own_the_dialogue(
    filename: Seq<char>,
    document: ExtractedDocumentView,
    context: TranscriptContextView,
    max: u16,
)
    ensures
        ({
            let rows = source_rows(document, context.page_contexts, max);
            let blocks = parsed_transcript(filename, document, context, max).blocks;
            owned_rows(blocks, blocks.len() as int) == dialogue_ids(rows, rows.len() as int)
        }),
{
    let rows = source_rows(document, context.page_contexts, max);
    let first = progress_after(rows, document.pages, context, rows.len() as int).lines;
    let lines = parsed_transcript(filename, document, context, max).lines;
    lemma_progress_kinds(rows, document.pages, context, rows.len() as int);
    lemma_turns_kinds(first, 0, None);
    let read = read_lines(document, context, max);
    assert forall|i: int| 0 <= i < lines.len() implies (#[trigger] lines[i]).kind
        != LineKind::PageHeader by {
        assert(lines[i].kind == read[i].kind);
    }
    lemma_no_headers(lines, lines.len() as int);
    law_rows_become_lines(filename, document, context, max);
    law_blocks_own_every_line(lines, lines.len() as int);
}

// ---------------------------------------------------------------------------
// Ownership
// ---------------------------------------------------------------------------

proof fn lemma_dialogue_occurrences(rows: Seq<CanonicalRowView>, n: int, i: int)
    requires
        0 <= n <= rows.len(),
        0 <= i < rows.len(),
        forall|p: int, q: int|
            0 <= p < q < rows.len() ==> (#[trigger] rows[p]).id != (#[trigger] rows[q]).id,
    ensures
        ({
            let ids = dialogue_ids(rows, n);
            occurrences(ids, rows[i].id, ids.len() as int) == if i < n && rows[i].disposition
                == RowDisposition::Dialogue {
                1nat
            } else {
                0nat
            }
        }),
    decreases n,
{
    if n > 0 {
        lemma_dialogue_occurrences(rows, n - 1, i);
        let before = dialogue_ids(rows, n - 1);
        if rows[n - 1].disposition == RowDisposition::Dialogue {
            let after = before.push(rows[n - 1].id);
            lemma_occurrences_prefix(before, after, rows[i].id, before.len() as int);
            if i != n - 1 {
                if i < n - 1 {
                    assert(rows[i].id != rows[n - 1].id);
                } else {
                    assert(rows[n - 1].id != rows[i].id);
                }
            }
        }
    }
}

proof fn lemma_occurrences_prefix(a: Seq<Seq<char>>, b: Seq<Seq<char>>, id: Seq<char>, n: int)
    requires
        0 <= n <= a.len(),
        n <= b.len(),
        forall|i: int| 0 <= i < n ==> a[i] == b[i],
    ensures
        occurrences(a, id, n) == occurrences(b, id, n),
    decreases n,
{
    if n > 0 {
        lemma_occurrences_prefix(a, b, id, n - 1);
    }
}

/// In a document whose pages have different numbers, every row of dialogue belongs to
/// exactly one block, and no other row belongs to any.
pub proof fn law_dialogue_rows_are_owned_once(
    filename: Seq<char>,
    document: ExtractedDocumentView,
    context: TranscriptContextView,
    max: u16,
    i: int,
)
    requires
        forall|p: int, q: int|
            0 <= p < q < document.pages.len() ==> (#[trigger] document.pages[p]).physical_page != (
            #[trigger] document.pages[q]).physical_page,
        0 <= i < source_rows(document, context.page_contexts, max).len(),
    ensures
        ({
            let row = source_rows(document, context.page_contexts, max)[i];
            let blocks = parsed_transcript(filename, document, context, max).blocks;
            let owned = owned_rows(blocks, blocks.len() as int);
            occurrences(owned, row.id, owned.len() as int) == if row.disposition
                == RowDisposition::Dialogue {
                1nat
            } else {
                0nat
            }
        }),
{
    let rows = source_rows(document, context.page_contexts, max);
    law_row_ids_are_unique(document, context.page_contexts, max);
    law_blocks_own_the_dialogue(filename, document, context, max);
    lemma_dialogue_occurrences(rows, rows.len() as int, i);
}

// ---------------------------------------------------------------------------
// Agreement between the parse and its projection
// ---------------------------------------------------------------------------

/// Whether two rows are the same but for what lines and regions say of them.
spec fn same_row(a: CanonicalRowView, b: CanonicalRowView) -> bool {
    a == (CanonicalRowView {
        speaker_anchor_label: a.speaker_anchor_label,
        speaker_participant_id: a.speaker_participant_id,
        event_kind: a.event_kind,
        format_region_id: a.format_region_id,
        ..b
    })
}

proof fn lemma_panels_agree(a: Seq<CanonicalRowView>, b: Seq<CanonicalRowView>, n: int)
    requires
        a.len() == b.len(),
        0 <= n <= a.len(),
        forall|i: int| 0 <= i < a.len() ==> same_row(#[trigger] a[i], b[i]),
    ensures
        dialogue_panels(a, n) == dialogue_panels(b, n),
        dialogue_count(a, n) == dialogue_count(b, n),
    decreases n,
{
    if n > 0 {
        lemma_panels_agree(a, b, n - 1);
        assert(same_row(a[n - 1], b[n - 1]));
    }
}

/// The projection keeps every row: its identifier, its text and what became of it. The parse
/// and its projection agree on how many transcript pages there are.
pub proof fn law_projection_keeps_rows(
    filename: Seq<char>,
    document: ExtractedDocumentView,
    context: TranscriptContextView,
    max: u16,
)
    ensures
        ({
            let rows = source_rows(document, context.page_contexts, max);
            let t = parsed_transcript(filename, document, context, max);
            &&& t.omni.canonical_rows.len() == rows.len()
            &&& forall|i: int|
                0 <= i < rows.len() ==> {
                    let row = #[trigger] t.omni.canonical_rows[i];
                    row.id == rows[i].id && row.text == rows[i].text && row.raw_text
                        == rows[i].raw_text && row.disposition == rows[i].disposition
                }
            &&& t.transcript_page_count == t.omni.document.transcript_page_count
        }),
{
    let rows = source_rows(document, context.page_contexts, max);
    let t = parsed_transcript(filename, document, context, max);
    let after = final_rows(rows, t.lines);
    assert forall|i: int| 0 <= i < after.len() implies same_row(#[trigger] after[i], rows[i]) by {
        assert(same_row(annotated_rows(rows, t.lines)[i], rows[i]));
    }
    lemma_panels_agree(after, rows, rows.len() as int);
}

proof fn lemma_all_assigned(rows: Seq<CanonicalRowView>, owned: Seq<Seq<char>>, n: int)
    requires
        0 <= n <= rows.len(),
        forall|i: int|
            0 <= i < rows.len() && (#[trigger] rows[i]).disposition == RowDisposition::Dialogue
                ==> last_position(owned, rows[i].id, owned.len() as int) is Some,
    ensures
        assigned_count(rows, owned, n) == dialogue_count(rows, n),
    decreases n,
{
    if n > 0 {
        lemma_all_assigned(rows, owned, n - 1);
    }
}

/// All of the dialogue is covered: every row of it is assigned to some utterance.
pub proof fn law_dialogue_is_covered(
    filename: Seq<char>,
    document: ExtractedDocumentView,
    context: TranscriptContextView,
    max: u16,
)
    requires
        forall|p: int, q: int|
            0 <= p < q < document.pages.len() ==> (#[trigger] document.pages[p]).physical_page != (
            #[trigger] document.pages[q]).physical_page,
    ensures
        ({
            let t = parsed_transcript(filename, document, context, max);
            t.omni.diagnostics.rows_assigned_to_utterances == t.omni.diagnostics.transcript_rows
        }),
{
    let rows = source_rows(document, context.page_contexts, max);
    let t = parsed_transcript(filename, document, context, max);
    let after = final_rows(rows, t.lines);
    let owned = owned_rows(t.blocks, t.blocks.len() as int);
    assert forall|i: int|
        0 <= i < after.len() && (#[trigger] after[i]).disposition
            == RowDisposition::Dialogue implies last_position(
        owned,
        after[i].id,
        owned.len() as int,
    ) is Some by {
        assert(annotated_rows(rows, t.lines)[i].id == rows[i].id);
        law_dialogue_rows_are_owned_once(filename, document, context, max, i);
        lemma_occurs(owned, rows[i].id, owned.len() as int);
    }
    lemma_all_assigned(after, owned, after.len() as int);
}

proof fn lemma_dialogue_ids_are_rows(rows: Seq<CanonicalRowView>, n: int)
    requires
        0 <= n <= rows.len(),
    ensures
        forall|i: int|
            0 <= i < dialogue_ids(rows, n).len() ==> row_ids(rows).contains(
                #[trigger] dialogue_ids(rows, n)[i],
            ),
    decreases n,
{
    if n > 0 {
        lemma_dialogue_ids_are_rows(rows, n - 1);
        assert(row_ids(rows)[n - 1] == rows[n - 1].id);
        let before = dialogue_ids(rows, n - 1);
        let after = dialogue_ids(rows, n);
        assert forall|i: int| 0 <= i < after.len() implies row_ids(rows).contains(
            #[trigger] after[i],
        ) by {
            if i < before.len() {
                assert(after[i] == before[i]);
            }
        }
    }
}

proof fn lemma_block_owns(blocks: Seq<TranscriptBlockView>, n: int, b: int, i: int)
    requires
        0 <= b < n <= blocks.len(),
        0 <= i < blocks[b].source_row_ids.len(),
    ensures
        owned_rows(blocks, n).contains(blocks[b].source_row_ids[i]),
    decreases n,
{
    let before = owned_rows(blocks, n - 1);
    let all = owned_rows(blocks, n);
    if b == n - 1 {
        assert(all[before.len() + i] == blocks[b].source_row_ids[i]);
    } else {
        lemma_block_owns(blocks, n - 1, b, i);
        let k = choose|k: int| 0 <= k < before.len() && before[k] == blocks[b].source_row_ids[i];
        assert(all[k] == before[k]);
    }
}

/// Every utterance links back to its source: its spans, end to end, list the rows of its
/// block.
pub proof fn law_utterances_link_to_rows(
    filename: Seq<char>,
    document: ExtractedDocumentView,
    context: TranscriptContextView,
    max: u16,
    b: int,
)
    requires
        0 <= b < parsed_transcript(filename, document, context, max).blocks.len(),
    ensures
        ({
            let t = parsed_transcript(filename, document, context, max);
            let spans = t.omni.utterances[b].source_spans;
            span_rows(spans, spans.len() as int) == t.blocks[b].source_row_ids
        }),
{
    let rows = source_rows(document, context.page_contexts, max);
    let t = parsed_transcript(filename, document, context, max);
    let after = final_rows(rows, t.lines);
    let ids = t.blocks[b].source_row_ids;
    let count = t.blocks.len() as int;
    law_blocks_own_the_dialogue(filename, document, context, max);
    lemma_dialogue_ids_are_rows(rows, rows.len() as int);
    assert forall|i: int| 0 <= i < after.len() implies (#[trigger] after[i]).id == rows[i].id by {
        assert(annotated_rows(rows, t.lines)[i].id == rows[i].id);
    }
    assert(row_ids(after) =~= row_ids(rows));
    assert forall|i: int| 0 <= i < ids.len() implies row_ids(after).contains(#[trigger] ids[i]) by {
        lemma_block_owns(t.blocks, count, b, i);
    }
    lemma_known_rows(after, ids, ids.len() as int);
    let source = known_rows(after, ids, ids.len() as int);
    law_spans_list_their_rows(source, source.len() as int);
    assert(ids.take(ids.len() as int) =~= ids);
    assert(row_ids(source).take(source.len() as int) =~= row_ids(source));
}

/// Every line that names a participant names one who is registered.
pub proof fn law_participants_are_registered(
    filename: Seq<char>,
    document: ExtractedDocumentView,
    context: TranscriptContextView,
    max: u16,
    i: int,
    id: Seq<char>,
)
    requires
        0 <= i < parsed_transcript(filename, document, context, max).lines.len(),
        parsed_transcript(filename, document, context, max).lines[i].participant_id == Some(id),
    ensures
        participant_with_id(
            parsed_transcript(filename, document, context, max).context.participants,
            id,
        ) is Some,
{
    let rows = source_rows(document, context.page_contexts, max);
    let first = progress_after(rows, document.pages, context, rows.len() as int).lines;
    let read = read_lines(document, context, max);
    law_turns_keep_lines(first, 0, None);
    lemma_participants_are_speakers(rows, document.pages, context, rows.len() as int);
    assert(crate::transcript::blocks::same_source(read[i], first[i]));
    assert(line_speaker_id(read[i]) == Some(id));
    law_every_speaker_is_registered(context, read, i, id);
}

proof fn lemma_participants_are_speakers(
    rows: Seq<CanonicalRowView>,
    pages: Seq<ExtractedPageView>,
    context: TranscriptContextView,
    n: int,
)
    requires
        0 <= n <= rows.len(),
    ensures
        forall|i: int|
            0 <= i < progress_after(rows, pages, context, n).lines.len() ==> (
            #[trigger] progress_after(rows, pages, context, n).lines[i]).participant_id
                == line_speaker_id(progress_after(rows, pages, context, n).lines[i]),
    decreases n,
{
    if n > 0 {
        lemma_participants_are_speakers(rows, pages, context, n - 1);
    }
}

} // verus!
