//! No line of a transcript says what its source does not.
use vstd::prelude::*;

use crate::document::models::{ExtractedDocumentView, ExtractedPageView};
use crate::pieces::{index_from, split_at_first};
use crate::scan::{
    after_prefix_ignoring_case, has_infix, lemma_infix_of_infix, lemma_run_end,
    lemma_stripped_stands, lemma_subrange_stands, start_trimmed, trimmed, uppercased,
};
use crate::text::CharClass;
use crate::transcript::blocks::{law_turns_keep_lines, same_source};
use crate::transcript::classify::{
    broken_off, labelled_line, line_class, marked_line, prefixed_speaker, punctuated_marker,
    question_speaker, unmarked_line, without_witness_label, ParserStateView,
};
use crate::transcript::markers::{
    after_rule, chosen_rule, law_chosen_rule_is_first, matched_marker, MarkerMatchView,
};
use crate::transcript::models::{
    MarkerRuleView, MarkerStyle, SpeakerView, TranscriptContextView, TranscriptLineView,
};
use crate::transcript::omni_models::{CanonicalRowView, RowDisposition};
use crate::transcript::parser::{
    bare_marker_allowed, parsed_transcript, progress_after, read_lines,
};
use crate::transcript::source::{law_inventory_is_complete, source_rows};
use crate::transcript::speaker::{
    colon_turn, labelled_turn, title_len, titled_label_end, titled_turn,
};

verus! {

// ---------------------------------------------------------------------------
// Parts of a line
// ---------------------------------------------------------------------------

proof fn lemma_whole_stands(s: Seq<char>)
    ensures
        has_infix(s, s),
{
    lemma_subrange_stands(s, 0, s.len() as int);
    assert(s.subrange(0, s.len() as int) =~= s);
}

proof fn lemma_trimmed_part_stands(s: Seq<char>, from: int, to: int)
    requires
        0 <= from <= to <= s.len(),
    ensures
        has_infix(s, trimmed(s.subrange(from, to))),
        has_infix(s, start_trimmed(s.subrange(from, to))),
{
    let part = s.subrange(from, to);
    lemma_subrange_stands(s, from, to);
    lemma_stripped_stands(part, CharClass::Space);
    lemma_infix_of_infix(s, part, trimmed(part));
    lemma_infix_of_infix(s, part, start_trimmed(part));
}

proof fn lemma_label_end(s: Seq<char>, from: int, at: int)
    requires
        0 <= at,
    ensures
        titled_label_end(s, from, at) matches Some(end) ==> at <= end < s.len(),
    decreases s.len() - at,
{
    if at < s.len() {
        lemma_label_end(s, from, at + 1);
    }
}

proof fn lemma_turn_stands(text: Seq<char>)
    ensures
        labelled_turn(text) matches Some((label, body)) ==> has_infix(text, body),
{
    let t = trimmed(text);
    lemma_stripped_stands(text, CharClass::Space);
    let i = index_from(t, ':', 0);
    lemma_run_end(t, CharClass::IsNot(':'), 0);
    if colon_turn(text) is Some {
        lemma_trimmed_part_stands(t, i + 1, t.len() as int);
        lemma_infix_of_infix(text, t, (colon_turn(text)->0).1);
    } else if titled_turn(text) is Some {
        let from = title_len(uppercased(t))->0 as int;
        lemma_label_end(t, from, from);
        let end = titled_label_end(t, from, from)->0;
        lemma_trimmed_part_stands(t, end + 1, t.len() as int);
        lemma_infix_of_infix(text, t, (titled_turn(text)->0).1);
    }
}

proof fn lemma_rule_stands(text: Seq<char>, rule: MarkerRuleView)
    ensures
        after_rule(text, rule) matches Some(rest) ==> has_infix(text, rest),
{
    let t = start_trimmed(text);
    lemma_stripped_stands(text, CharClass::Space);
    if after_rule(text, rule) is Some {
        let rest = after_rule(text, rule)->0;
        let skipped: int = match rule.style {
            MarkerStyle::Word => rule.pattern.len() as int,
            MarkerStyle::BareUppercase => 1,
            _ => 2,
        };
        lemma_trimmed_part_stands(t, skipped, t.len() as int);
        lemma_infix_of_infix(text, t, rest);
    }
}

proof fn lemma_marker_stands(text: Seq<char>, rules: Seq<MarkerRuleView>)
    ensures
        matched_marker(text, rules) matches Some(marker) ==> has_infix(text, marker.remainder),
{
    law_chosen_rule_is_first(text, rules, rules.len() as int);
    match chosen_rule(text, rules, rules.len() as int) {
        Some(i) => {
            lemma_rule_stands(text, rules[i]);
        },
        None => {},
    }
}

proof fn lemma_question_stands(
    question: Seq<char>,
    state: ParserStateView,
    context: TranscriptContextView,
)
    ensures
        has_infix(question, question_speaker(question, state, context).2),
{
    let t = trimmed(question);
    lemma_stripped_stands(question, CharClass::Space);
    match after_prefix_ignoring_case(t, "BY "@) {
        Some(rest) => {
            lemma_subrange_stands(t, "BY "@.len() as int, t.len() as int);
            let i = index_from(rest, ':', 0);
            lemma_run_end(rest, CharClass::IsNot(':'), 0);
            if split_at_first(rest, ':') is Some {
                lemma_trimmed_part_stands(rest, i + 1, rest.len() as int);
                let text = trimmed(rest.subrange(i + 1, rest.len() as int));
                lemma_infix_of_infix(t, rest, text);
                lemma_infix_of_infix(question, t, text);
            }
        },
        None => {},
    }
}

proof fn lemma_answer_stands(text: Seq<char>)
    ensures
        has_infix(text, without_witness_label(text)),
{
    let t = trimmed(text);
    lemma_stripped_stands(text, CharClass::Space);
    if after_prefix_ignoring_case(t, "THE WITNESS:"@) is Some {
        lemma_trimmed_part_stands(t, "THE WITNESS:"@.len() as int, t.len() as int);
        lemma_infix_of_infix(text, t, without_witness_label(text));
    } else if after_prefix_ignoring_case(t, "BY THE WITNESS:"@) is Some {
        lemma_trimmed_part_stands(t, "BY THE WITNESS:"@.len() as int, t.len() as int);
        lemma_infix_of_infix(text, t, without_witness_label(text));
    }
}

// ---------------------------------------------------------------------------
// Lines
// ---------------------------------------------------------------------------

proof fn lemma_marked_line_text(
    marker: MarkerMatchView,
    state: ParserStateView,
    context: TranscriptContextView,
)
    ensures
        has_infix(marker.remainder, marked_line(marker, state, context).1.text),
{
    lemma_question_stands(marker.remainder, state, context);
    lemma_answer_stands(marker.remainder);
}

proof fn lemma_labelled_line_says(
    speaker: SpeakerView,
    text: Seq<char>,
    state: ParserStateView,
    context: TranscriptContextView,
)
    ensures
        labelled_line(speaker, text, state, context).1.text == match punctuated_marker(
            text,
            context.marker_rules,
        ) {
            Some(marker) => marker.remainder,
            None => text,
        },
{
}

proof fn lemma_labelled_line_text(
    speaker: SpeakerView,
    text: Seq<char>,
    state: ParserStateView,
    context: TranscriptContextView,
)
    ensures
        has_infix(text, labelled_line(speaker, text, state, context).1.text),
{
    lemma_labelled_line_says(speaker, text, state, context);
    lemma_whole_stands(text);
    lemma_marker_stands(text, context.marker_rules);
}

proof fn lemma_unmarked_line_says(content: Seq<char>, state: ParserStateView)
    ensures
        unmarked_line(content, state).1.text == content,
{
}

/// What the parts of a line that hold its text come down to.
proof fn lemma_line_says(
    text: Seq<char>,
    state: ParserStateView,
    context: TranscriptContextView,
    allow_bare_marker: bool,
)
    ensures
        ({
            let content = trimmed(text);
            let said = line_class(text, state, context, allow_bare_marker).1.text;
            ||| said == content
            ||| labelled_turn(content) matches Some((label, remainder)) && {
                let (after, speaker) = prefixed_speaker(label, remainder, state, context);
                said == labelled_line(speaker, remainder, after, context).1.text
            }
            ||| matched_marker(content, context.marker_rules) matches Some(marker) && said
                == marked_line(marker, state, context).1.text
        }),
{
    lemma_unmarked_line_says(trimmed(text), state);
}

proof fn lemma_line_stands(
    content: Seq<char>,
    said: Seq<char>,
    state: ParserStateView,
    context: TranscriptContextView,
)
    requires
        ({
            ||| said == content
            ||| labelled_turn(content) matches Some((label, remainder)) && {
                let (after, speaker) = prefixed_speaker(label, remainder, state, context);
                said == labelled_line(speaker, remainder, after, context).1.text
            }
            ||| matched_marker(content, context.marker_rules) matches Some(marker) && said
                == marked_line(marker, state, context).1.text
        }),
    ensures
        has_infix(content, said),
{
    lemma_whole_stands(content);
    lemma_turn_stands(content);
    lemma_marker_stands(content, context.marker_rules);
    if said != content {
        match labelled_turn(content) {
            Some((label, remainder)) => {
                let (after, speaker) = prefixed_speaker(label, remainder, state, context);
                let line = labelled_line(speaker, remainder, after, context).1.text;
                lemma_labelled_line_text(speaker, remainder, after, context);
                lemma_infix_of_infix(content, remainder, line);
            },
            None => {},
        }
        match matched_marker(content, context.marker_rules) {
            Some(marker) => {
                let line = marked_line(marker, state, context).1.text;
                lemma_marked_line_text(marker, state, context);
                lemma_infix_of_infix(content, marker.remainder, line);
            },
            None => {},
        }
    }
}

/// Whatever a line is taken for, it says nothing but what stands in its source.
pub proof fn law_classified_text_stands_in_the_line(
    text: Seq<char>,
    state: ParserStateView,
    context: TranscriptContextView,
    allow_bare_marker: bool,
)
    ensures
        has_infix(text, line_class(text, state, context, allow_bare_marker).1.text),
{
    let content = trimmed(text);
    let said = line_class(text, state, context, allow_bare_marker).1.text;
    lemma_line_says(text, state, context, allow_bare_marker);
    lemma_line_stands(content, said, state, context);
    lemma_stripped_stands(text, CharClass::Space);
    lemma_infix_of_infix(text, content, said);
}

// ---------------------------------------------------------------------------
// Transcripts
// ---------------------------------------------------------------------------

/// The rows of dialogue among the first `n`.
pub open spec fn dialogue_of(rows: Seq<CanonicalRowView>, n: int) -> Seq<CanonicalRowView>
    decreases n,
{
    if n <= 0 {
        seq![]
    } else if rows[n - 1].disposition == RowDisposition::Dialogue {
        dialogue_of(rows, n - 1).push(rows[n - 1])
    } else {
        dialogue_of(rows, n - 1)
    }
}

/// Whether a line quotes a row: it names the row, repeats where the row stands and what is
/// written there, and says nothing that is not written there.
pub open spec fn quotes(line: TranscriptLineView, row: CanonicalRowView) -> bool {
    &&& line.source_row_id == row.id
    &&& line.physical_page == row.physical_page
    &&& line.transcript_page == row.transcript_page
    &&& line.line_number == row.line_number
    &&& line.raw_text == row.raw_text
    &&& has_infix(row.text, line.text)
}

proof fn lemma_lines_quote_rows(
    rows: Seq<CanonicalRowView>,
    pages: Seq<ExtractedPageView>,
    context: TranscriptContextView,
    n: int,
)
    requires
        0 <= n <= rows.len(),
    ensures
        ({
            let lines = progress_after(rows, pages, context, n).lines;
            let quoted = dialogue_of(rows, n);
            &&& lines.len() == quoted.len()
            &&& forall|i: int| 0 <= i < lines.len() ==> quotes(#[trigger] lines[i], quoted[i])
        }),
    decreases n,
{
    if n > 0 {
        lemma_lines_quote_rows(rows, pages, context, n - 1);
        let state = progress_after(rows, pages, context, n - 1).state;
        let row = rows[n - 1];
        let allowed = bare_marker_allowed(pages, row, 0);
        law_classified_text_stands_in_the_line(row.text, state, context, allowed);
        law_classified_text_stands_in_the_line(row.text, broken_off(state), context, allowed);
    }
}

proof fn lemma_dialogue_stands(rows: Seq<CanonicalRowView>, n: int)
    requires
        0 <= n <= rows.len(),
        forall|i: int|
            0 <= i < rows.len() ==> has_infix((#[trigger] rows[i]).raw_text, rows[i].text),
    ensures
        forall|i: int|
            0 <= i < dialogue_of(rows, n).len() ==> has_infix(
                (#[trigger] dialogue_of(rows, n)[i]).raw_text,
                dialogue_of(rows, n)[i].text,
            ),
    decreases n,
{
    if n > 0 {
        lemma_dialogue_stands(rows, n - 1);
    }
}

/// Nothing is made up: the lines of a transcript are its rows of dialogue, in order, and each
/// says only what is written in its row of the source.
pub proof fn law_lines_quote_their_source(
    filename: Seq<char>,
    document: ExtractedDocumentView,
    context: TranscriptContextView,
    max: u16,
)
    ensures
        ({
            let rows = source_rows(document, context.page_contexts, max);
            let lines = parsed_transcript(filename, document, context, max).lines;
            let quoted = dialogue_of(rows, rows.len() as int);
            &&& lines.len() == quoted.len()
            &&& forall|i: int|
                0 <= i < lines.len() ==> quotes(#[trigger] lines[i], quoted[i]) && has_infix(
                    lines[i].raw_text,
                    lines[i].text,
                )
        }),
{
    let rows = source_rows(document, context.page_contexts, max);
    let n = rows.len() as int;
    let first = progress_after(rows, document.pages, context, n).lines;
    let quoted = dialogue_of(rows, n);
    let read = read_lines(document, context, max);
    let lines = parsed_transcript(filename, document, context, max).lines;
    lemma_lines_quote_rows(rows, document.pages, context, n);
    law_turns_keep_lines(first, 0, None);
    law_inventory_is_complete(document, context.page_contexts, max);
    lemma_dialogue_stands(rows, n);
    assert forall|i: int| 0 <= i < lines.len() implies quotes(#[trigger] lines[i], quoted[i])
        && has_infix(lines[i].raw_text, lines[i].text) by {
        assert(same_source(read[i], first[i]));
        assert(quotes(first[i], quoted[i]));
        assert(has_infix(quoted[i].raw_text, quoted[i].text));
        lemma_infix_of_infix(quoted[i].raw_text, quoted[i].text, lines[i].text);
    }
}

} // verus!
