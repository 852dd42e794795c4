//! What each line of a transcript is read as.
//!
//! A line opens with the label of a speaker, with a marker, or with neither. What it is read as
//! follows from what it shows: a label tells who speaks, and by that what is said; a marker tells
//! a question from an answer; and a line that shows neither goes on with the turn before it.
use vstd::prelude::*;

use crate::pieces::split_at_first;
use crate::scan::{
    after_prefix_ignoring_case, end_trimmed, has_infix, has_prefix, lemma_run_end_is,
    lemma_run_start_is, lowercased, same_ignoring_case, stripped_end, trimmed, uppercased,
};
use crate::text::CharClass;
use crate::transcript::classify::{
    fresh_attorney, fresh_state, heading_examiner, hidden_objector, hidden_stranger,
    hidden_witness, labelled_line, line_class, marked_line, prefixed_speaker, question_speaker,
    redacted_speaker, unmarked_line, without_witness_label, ContinuationContextView,
    ParserStateView,
};
use crate::transcript::markers::{matched_marker, MarkerMatchView};
use crate::transcript::models::{
    ClassificationConfidence, EvidenceSource, LineKind, MarkerKind, MarkerStyle,
    ParticipantFunction, ParticipantView, SpeakerRole, SpeakerView, TranscriptContextView,
};
use crate::transcript::speaker::{
    answering_index, answers_to, bare_heading, id_of_label, introduced_witness, known_speaker,
    label_role, label_speaker, labelled_turn, mostly_capitals, nameless_speaker,
    participant_speaker, pure_redaction, redacted_label,
};

verus! {

// ---------------------------------------------------------------------------
// What a text shows
// ---------------------------------------------------------------------------

/// Whether a text ends in a question mark, white space aside.
pub open spec fn ends_asking(text: Seq<char>) -> bool {
    end_trimmed(text).len() > 0 && end_trimmed(text).last() == '?'
}

/// Whether a text speaks of objecting.
pub open spec fn speaks_of_objecting(text: Seq<char>) -> bool {
    let said = lowercased(trimmed(text));
    ||| has_prefix(said, "objection"@)
    ||| has_prefix(said, "object "@)
    ||| has_prefix(said, "i object"@)
    ||| has_infix(said, " object to "@)
}

/// Whether a text heads an examination.
pub open spec fn heads_examination(text: Seq<char>) -> bool {
    let u = uppercased(trimmed(text));
    ||| u == "EXAMINATION"@
    ||| u == "DIRECT EXAMINATION"@
    ||| u == "CROSS-EXAMINATION"@
    ||| u == "CROSS EXAMINATION"@
    ||| u == "REDIRECT EXAMINATION"@
    ||| u == "RE-DIRECT EXAMINATION"@
    ||| u == "RECROSS EXAMINATION"@
    ||| u == "RE-CROSS EXAMINATION"@
    ||| u == "FURTHER EXAMINATION"@
}

/// Whether a text heads a part of a transcript.
pub open spec fn heads_part(text: Seq<char>) -> bool {
    let u = uppercased(trimmed(text));
    ||| u == "APPEARANCES"@
    ||| u == "INDEX"@
    ||| u == "PROCEEDINGS"@
    ||| u == "CERTIFICATE"@
    ||| u == "CERTIFICATION"@
    ||| u == "ERRATA"@
    ||| u == "SIGNATURE"@
    ||| u == "STIPULATIONS"@
    ||| u == "CONTENTS"@
}

/// Whether a text opens a remark of the reporter.
pub open spec fn opens_remark(text: Seq<char>) -> bool {
    let t = trimmed(text);
    ||| t.len() > 0 && t[0] == '('
    ||| t.len() > 0 && t[0] == '[' && !pure_redaction(t)
    ||| has_prefix(t, "---"@)
}

/// Whether a text closes a remark of the reporter.
pub open spec fn closes_remark(text: Seq<char>) -> bool {
    let t = trimmed(text);
    ||| t.len() > 0 && (t.last() == ')' || t.last() == ']')
    ||| has_prefix(t, "---"@)
}

/// Whether no heading, introduction of a witness or examination opens with a line.
pub open spec fn is_speech(
    text: Seq<char>,
    state: ParserStateView,
    context: TranscriptContextView,
) -> bool {
    &&& introduced_witness(trimmed(text)) is None
    &&& heading_examiner(trimmed(text), state, context) is None
    &&& !heads_examination(trimmed(text))
}

/// The marker that a line of speech opens with, where it counts: bare letters only where they
/// are allowed.
pub open spec fn marker_that_counts(
    text: Seq<char>,
    context: TranscriptContextView,
    allow_bare_marker: bool,
) -> Option<MarkerMatchView> {
    match matched_marker(text, context.marker_rules) {
        Some(marker) => if marker.style == MarkerStyle::BareUppercase && !allow_bare_marker {
            None
        } else {
            Some(marker)
        },
        None => None,
    }
}

// ---------------------------------------------------------------------------
// Labels
// ---------------------------------------------------------------------------

/// What is said under a label without a marker is read by the role of the speaker. An attorney or
/// a speaker of unknown role who ends in a question mark asks, and is the examiner from then on.
/// An attorney else objects or states, a witness answers where a question is open and else states,
/// and each of the others states what it states. All of it is said by that speaker, word for word,
/// opens a block, and is what unmarked lines go on with.
pub proof fn law_labels_are_read_by_role(
    speaker: SpeakerView,
    text: Seq<char>,
    state: ParserStateView,
    context: TranscriptContextView,
)
    requires
        marker_that_counts(text, context, false) is None,
    ensures
        ({
            let (after, line) = labelled_line(speaker, text, state, context);
            let questioned = state.continuation matches Some(active) && active.kind
                == LineKind::Question;
            let counsel = speaker.role == SpeakerRole::Attorney;
            let unknown = speaker.role == SpeakerRole::Unknown;
            &&& line.speaker == Some(speaker)
            &&& line.text == text
            &&& line.starts_new_block
            &&& after.continuation == Some(
                ContinuationContextView { kind: line.kind, speaker: Some(speaker) },
            )
            &&& (counsel || unknown) && ends_asking(text) <==> line.kind == LineKind::Question
            &&& line.kind == LineKind::Question ==> after.current_questioner == Some(speaker)
                && line.confidence == ClassificationConfidence::Inferred
            &&& line.kind != LineKind::Question ==> after.current_questioner
                == state.current_questioner
            &&& counsel && !ends_asking(text) && speaks_of_objecting(text) <==> line.kind
                == LineKind::Objection
            &&& counsel && !ends_asking(text) && !speaks_of_objecting(text) <==> line.kind
                == LineKind::AttorneyStatement
            &&& speaker.role == SpeakerRole::Witness && questioned <==> line.kind
                == LineKind::Answer
            &&& speaker.role == SpeakerRole::Witness && !questioned <==> line.kind
                == LineKind::WitnessStatement
            &&& speaker.role == SpeakerRole::Witness ==> after.current_witness == Some(speaker)
            &&& speaker.role != SpeakerRole::Witness ==> after.current_witness
                == state.current_witness
            &&& speaker.role == SpeakerRole::Interpreter <==> line.kind
                == LineKind::InterpreterStatement
            &&& speaker.role == SpeakerRole::CourtReporter <==> line.kind
                == LineKind::ReporterStatement
            &&& speaker.role == SpeakerRole::Judge <==> line.kind == LineKind::JudgeStatement
            &&& speaker.role == SpeakerRole::Videographer <==> line.kind
                == LineKind::VideographerStatement
            &&& unknown && !ends_asking(text) <==> line.kind == LineKind::SpeakerStatement
            &&& line.kind == LineKind::Answer ==> line.confidence
                == ClassificationConfidence::Inferred
            &&& line.kind != LineKind::Question && line.kind != LineKind::Answer ==> line.confidence
                == ClassificationConfidence::Explicit
        }),
{
}

/// A punctuated marker behind a label makes what is said a question or an answer, whoever speaks:
/// the speaker asks, and is the examiner from then on, or answers, and is the witness.
pub proof fn law_marked_labels_ask_and_answer(
    speaker: SpeakerView,
    text: Seq<char>,
    state: ParserStateView,
    context: TranscriptContextView,
)
    requires
        marker_that_counts(text, context, false) is Some,
    ensures
        ({
            let (after, line) = labelled_line(speaker, text, state, context);
            let marker = marker_that_counts(text, context, false)->0;
            &&& line.speaker == Some(speaker)
            &&& line.text == marker.remainder
            &&& line.starts_new_block
            &&& line.confidence == ClassificationConfidence::Explicit
            &&& marker.kind == MarkerKind::Question ==> line.kind == LineKind::Question
                && after.current_questioner == Some(speaker) && after.current_witness
                == state.current_witness
            &&& marker.kind == MarkerKind::Answer ==> line.kind == LineKind::Answer
                && after.current_witness == Some(speaker) && after.current_questioner
                == state.current_questioner
            &&& after.continuation == Some(
                ContinuationContextView { kind: line.kind, speaker: Some(speaker) },
            )
        }),
{
}

/// A line of speech that opens with a label is said by the speaker that the label stands for.
pub proof fn law_labels_tell_who_speaks(
    text: Seq<char>,
    state: ParserStateView,
    context: TranscriptContextView,
    allow_bare_marker: bool,
    label: Seq<char>,
    said: Seq<char>,
)
    requires
        is_speech(text, state, context),
        labelled_turn(trimmed(text)) == Some((label, said)),
    ensures
        ({
            let (known, speaker) = prefixed_speaker(label, said, state, context);
            line_class(text, state, context, allow_bare_marker) == labelled_line(
                speaker,
                said,
                known,
                context,
            )
        }),
{
}

/// Whether a label names the witness by function.
pub open spec fn names_the_witness(label: Seq<char>) -> bool {
    let u = uppercased(trimmed(label));
    u == "THE WITNESS"@ || u == "WITNESS"@ || u == "THE DEPONENT"@ || u == "DEPONENT"@
}

/// The witness goes by function once a witness is known. A participant goes by any label that the
/// participant was observed under, in whatever case, as the first who answers to it; a label that
/// was taken out stands for a speaker whose name is taken out. Nothing but such a speaker is
/// made up, and who asks, who answers and what goes on stays as it was.
pub proof fn law_labels_name_speakers(
    label: Seq<char>,
    said: Seq<char>,
    state: ParserStateView,
    context: TranscriptContextView,
    i: int,
)
    ensures
        ({
            let (after, speaker) = prefixed_speaker(label, said, state, context);
            let list = context.participants;
            let answers = 0 <= i < list.len() && answers_to(list[i], trimmed(label)) && forall|j: int|
                0 <= j < i ==> !answers_to(#[trigger] list[j], trimmed(label));
            &&& names_the_witness(label) && state.current_witness is Some ==> Some(speaker)
                == state.current_witness && after == state
            &&& after.continuation == state.continuation
            &&& !(names_the_witness(label) && state.current_witness is Some) && !redacted_label(
                label,
            ) ==> after == state
            &&& !(names_the_witness(label) && state.current_witness is Some) && !redacted_label(
                label,
            ) && answers ==> {
                &&& speaker.participant_id == Some(list[i].id)
                &&& speaker.label == list[i].display_label
                &&& speaker.redacted == list[i].redacted
                &&& list[i].role != SpeakerRole::Unknown ==> speaker.role == list[i].role
            }
        }),
{
    let list = context.participants;
    if 0 <= i < list.len() && answers_to(list[i], trimmed(label)) && forall|j: int|
        0 <= j < i ==> !answers_to(#[trigger] list[j], trimmed(label)) {
        lemma_first_to_answer(list, trimmed(label), i, 0);
    }
}

proof fn lemma_first_to_answer(list: Seq<ParticipantView>, label: Seq<char>, i: int, from: int)
    requires
        0 <= from <= i < list.len(),
        answers_to(list[i], label),
        forall|j: int| 0 <= j < i ==> !answers_to(#[trigger] list[j], label),
    ensures
        answering_index(list, label, from) == i,
    decreases i - from,
{
    if from < i {
        lemma_first_to_answer(list, label, i, from + 1);
    }
}

/// A participant answers to the name that is shown and to every label that was observed, in
/// whatever case, and to no other.
pub proof fn law_participants_answer_to_their_labels(p: ParticipantView, label: Seq<char>, i: int)
    ensures
        uppercased(p.display_label) == uppercased(label) ==> answers_to(p, label),
        0 <= i < p.observed_labels.len() && uppercased(p.observed_labels[i]) == uppercased(label)
            ==> answers_to(p, label),
        answers_to(p, label) ==> uppercased(p.display_label) == uppercased(label) || exists|k: int|
            0 <= k < p.observed_labels.len() && uppercased(#[trigger] p.observed_labels[k])
                == uppercased(label),
{
    if 0 <= i < p.observed_labels.len() {
        assert(same_ignoring_case(p.observed_labels[i], label) == (uppercased(p.observed_labels[i])
            == uppercased(label)));
    }
    if answers_to(p, label) && uppercased(p.display_label) != uppercased(label) {
        let k = choose|k: int|
            0 <= k < p.observed_labels.len() && same_ignoring_case(
                #[trigger] p.observed_labels[k],
                label,
            );
        assert(uppercased(p.observed_labels[k]) == uppercased(label));
    }
}

/// A participant of unknown role has the role that goes with the function.
pub proof fn law_functions_give_roles(p: ParticipantView)
    requires
        p.role == SpeakerRole::Unknown,
    ensures
        ({
            let role = participant_speaker(p).role;
            &&& p.function == ParticipantFunction::Witness || p.function
                == ParticipantFunction::Interviewee <==> role == SpeakerRole::Witness
            &&& p.function == ParticipantFunction::Counsel || p.function
                == ParticipantFunction::GovernmentCounsel <==> role == SpeakerRole::Attorney
            &&& p.function == ParticipantFunction::Interpreter <==> role == SpeakerRole::Interpreter
            &&& p.function == ParticipantFunction::CourtReporter <==> role
                == SpeakerRole::CourtReporter
            &&& p.function == ParticipantFunction::Judge <==> role == SpeakerRole::Judge
            &&& p.function == ParticipantFunction::Videographer <==> role
                == SpeakerRole::Videographer
        }),
{
}

/// What a label in upper case says of who goes by it. Only a witness by function is a witness;
/// whoever goes by a form of address has no role by that alone.
pub proof fn law_labels_tell_roles(u: Seq<char>)
    ensures
        label_role(u) == Some(SpeakerRole::Witness) <==> u == "THE WITNESS"@ || u == "WITNESS"@ || u
            == "THE DEPONENT"@ || u == "DEPONENT"@,
        label_role(u) != Some(SpeakerRole::Witness) && has_infix(u, "INTERPRETER"@) <==> label_role(
            u,
        ) == Some(SpeakerRole::Interpreter),
        label_role(u) == Some(SpeakerRole::CourtReporter) ==> u == "THE REPORTER"@ || u
            == "REPORTER"@ || has_infix(u, "COURT REPORTER"@) || has_infix(u, "STENOGRAPHER"@) || u
            == "COURT REPORTER"@,
        (u == "THE REPORTER"@ || u == "REPORTER"@ || has_infix(u, "COURT REPORTER"@) || has_infix(
            u,
            "STENOGRAPHER"@,
        )) && label_role(u) != Some(SpeakerRole::Witness) && !has_infix(u, "INTERPRETER"@)
            ==> label_role(u) == Some(SpeakerRole::CourtReporter),
        (has_infix(u, "VIDEOGRAPHER"@) || u == "VIDEO OPERATOR"@) && label_role(u) != Some(
            SpeakerRole::Witness,
        ) && !has_infix(u, "INTERPRETER"@) && label_role(u) != Some(SpeakerRole::CourtReporter)
            <==> label_role(u) == Some(SpeakerRole::Videographer),
        label_role(u) == Some(SpeakerRole::Judge) ==> u == "THE COURT"@ || has_prefix(u, "JUDGE "@)
            || has_prefix(u, "HON. "@) || has_prefix(u, "HONORABLE "@),
        (u == "THE COURT"@ || has_prefix(u, "JUDGE "@) || has_prefix(u, "HON. "@) || has_prefix(
            u,
            "HONORABLE "@,
        )) ==> label_role(u) is Some && label_role(u) != Some(SpeakerRole::Attorney) && label_role(
            u,
        ) != Some(SpeakerRole::Unknown),
        (has_prefix(u, "MR. "@) || has_prefix(u, "MS. "@) || has_prefix(u, "MRS. "@) || has_prefix(
            u,
            "DR. "@,
        ) || has_prefix(u, "MR "@) || has_prefix(u, "MS "@) || has_prefix(u, "MRS "@) || has_prefix(
            u,
            "MISS "@,
        )) ==> label_role(u) is Some && label_role(u) != Some(SpeakerRole::Attorney),
        label_role(u) == Some(SpeakerRole::Attorney) ==> has_prefix(u, "ATTORNEY "@) || has_prefix(
            u,
            "ATTY. "@,
        ) || has_prefix(u, "ATTY "@) || has_prefix(u, "COUNSEL "@) || has_infix(
            u,
            "COUNSEL FOR "@,
        ) || has_prefix(u, "ESQ. "@),
        has_prefix(u, "ATTORNEY "@) || has_prefix(u, "ATTY. "@) || has_prefix(u, "ATTY "@)
            || has_prefix(u, "COUNSEL "@) || has_infix(u, "COUNSEL FOR "@) || has_prefix(
            u,
            "ESQ. "@,
        ) ==> label_role(u) is Some,
{
}

// ---------------------------------------------------------------------------
// Markers
// ---------------------------------------------------------------------------

/// A line of speech without a label that opens with a question marker is a question by whoever
/// asks, and one that opens with an answer marker an answer by the witness. Each is what unmarked
/// lines go on with.
pub proof fn law_markers_ask_and_answer(
    text: Seq<char>,
    state: ParserStateView,
    context: TranscriptContextView,
    allow_bare_marker: bool,
)
    requires
        is_speech(text, state, context),
        labelled_turn(trimmed(text)) is None,
        !opens_remark(trimmed(text)),
        marker_that_counts(trimmed(text), context, allow_bare_marker) is Some,
    ensures
        ({
            let (after, line) = line_class(text, state, context, allow_bare_marker);
            let marker = marker_that_counts(trimmed(text), context, allow_bare_marker)->0;
            &&& line.confidence == ClassificationConfidence::Explicit
            &&& line.starts_new_block
            &&& line.speaker is Some
            &&& after.continuation == Some(
                ContinuationContextView { kind: line.kind, speaker: line.speaker },
            )
            &&& marker.kind == MarkerKind::Question ==> {
                let by_name = has_prefix(uppercased(trimmed(marker.remainder)), uppercased("BY "@));
                &&& line.kind == LineKind::Question
                &&& after.current_questioner == line.speaker
                &&& after.current_witness == state.current_witness
                &&& !by_name ==> line.text == trimmed(marker.remainder)
                &&& !by_name && state.current_questioner is Some ==> line.speaker
                    == state.current_questioner
                &&& !by_name && state.current_questioner is None ==> {
                    &&& (line.speaker->0).label == "UNKNOWN ATTORNEY"@
                    &&& (line.speaker->0).role == SpeakerRole::Attorney
                    &&& (line.speaker->0).participant_id is None
                }
            }
            &&& marker.kind == MarkerKind::Answer ==> {
                let relabelled = has_prefix(
                    uppercased(trimmed(marker.remainder)),
                    uppercased("THE WITNESS:"@),
                ) || has_prefix(
                    uppercased(trimmed(marker.remainder)),
                    uppercased("BY THE WITNESS:"@),
                );
                &&& line.kind == LineKind::Answer
                &&& after.current_witness == line.speaker
                &&& after.current_questioner == state.current_questioner
                &&& !relabelled ==> line.text == trimmed(marker.remainder)
                &&& state.current_witness is Some ==> line.speaker == state.current_witness
                &&& state.current_witness is None ==> {
                    &&& (line.speaker->0).participant_id == Some("witness_unresolved"@)
                    &&& (line.speaker->0).role == SpeakerRole::Witness
                }
            }
        }),
{
    let content = trimmed(text);
    assert(crate::transcript::classify::opens_parenthetical(content) == opens_remark(content));
}

/// A line is an answer only behind an answer marker, from a witness, or as the continuation of an
/// answer; and a question only behind a question marker, from an attorney or a speaker of unknown
/// role who ends in a question mark, or as the continuation of a question.
pub proof fn law_answers_and_questions_have_grounds(
    text: Seq<char>,
    state: ParserStateView,
    context: TranscriptContextView,
    allow_bare_marker: bool,
)
    ensures
        ({
            let (after, line) = line_class(text, state, context, allow_bare_marker);
            let marked = |kind: MarkerKind, t: Seq<char>|
                matched_marker(t, context.marker_rules) matches Some(m) && m.kind == kind;
            let label = labelled_turn(trimmed(text));
            &&& line.kind == LineKind::Answer ==> {
                ||| marked(MarkerKind::Answer, trimmed(text))
                ||| label is Some && marked(MarkerKind::Answer, (label->0).1)
                ||| line.speaker is Some && (line.speaker->0).role == SpeakerRole::Witness
                ||| !line.starts_new_block && state.continuation is Some && (
                state.continuation->0).kind == LineKind::Answer
            }
            &&& line.kind == LineKind::Question ==> {
                ||| marked(MarkerKind::Question, trimmed(text))
                ||| label is Some && marked(MarkerKind::Question, (label->0).1)
                ||| line.speaker is Some && ((line.speaker->0).role == SpeakerRole::Attorney || (
                line.speaker->0).role == SpeakerRole::Unknown) && ends_asking(line.text)
                ||| !line.starts_new_block && state.continuation is Some && (
                state.continuation->0).kind == LineKind::Question
            }
        }),
{
}

// ---------------------------------------------------------------------------
// Other lines
// ---------------------------------------------------------------------------

/// A line with neither label nor marker is a redaction, an objection, a heading, or else goes on
/// with the active turn: of its kind, by its speaker, in its block. Where no turn is active the
/// line is unknown, and nothing is made of it. Its text stays.
pub proof fn law_unmarked_lines_go_on(
    text: Seq<char>,
    state: ParserStateView,
    context: TranscriptContextView,
    allow_bare_marker: bool,
)
    requires
        is_speech(text, state, context),
        labelled_turn(trimmed(text)) is None,
        !opens_remark(trimmed(text)),
        marker_that_counts(trimmed(text), context, allow_bare_marker) is None,
    ensures
        ({
            let (after, line) = line_class(text, state, context, allow_bare_marker);
            let content = trimmed(text);
            let redaction = pure_redaction(content);
            let objection = !redaction && speaks_of_objecting(content);
            let heading = !redaction && !objection && heads_part(content);
            let plain = !redaction && !objection && !heading;
            &&& line.text == content
            &&& after.current_questioner == state.current_questioner
            &&& after.current_witness == state.current_witness
            &&& redaction ==> line.kind == LineKind::RedactionMarker && line.speaker is None
                && line.starts_new_block && after.continuation is None
            &&& objection ==> line.kind == LineKind::Objection && line.speaker is None
                && line.starts_new_block && after.continuation == Some(
                ContinuationContextView { kind: LineKind::Objection, speaker: None },
            )
            &&& heading ==> line.kind == LineKind::Heading && line.speaker is None
                && line.starts_new_block && after.continuation is None
            &&& plain && state.continuation is None ==> line.kind == LineKind::Unknown
                && line.confidence == ClassificationConfidence::Unknown && line.speaker is None
                && line.starts_new_block && after == state
            &&& plain && state.continuation is Some ==> {
                let active = state.continuation->0;
                let remark = active.kind == LineKind::Parenthetical || active.kind
                    == LineKind::ExhibitMarker;
                &&& line.kind == active.kind
                &&& line.speaker == active.speaker
                &&& !line.starts_new_block
                &&& line.confidence == ClassificationConfidence::Inferred
                &&& remark && closes_remark(content) ==> after.continuation is None
                &&& !(remark && closes_remark(content)) ==> after == state
            }
        }),
{
    let content = trimmed(text);
    assert(crate::transcript::classify::opens_parenthetical(content) == opens_remark(content));
}

/// A line that opens a remark of the reporter is a remark, or marks an exhibit where it says so,
/// by nobody; a remark that is not closed on its line goes on.
pub proof fn law_remarks_stand_apart(
    text: Seq<char>,
    state: ParserStateView,
    context: TranscriptContextView,
    allow_bare_marker: bool,
)
    requires
        is_speech(text, state, context),
        labelled_turn(trimmed(text)) is None,
        opens_remark(trimmed(text)),
    ensures
        ({
            let (after, line) = line_class(text, state, context, allow_bare_marker);
            let said = lowercased(trimmed(text));
            let exhibit = has_infix(said, "exhibit"@) && (has_infix(said, "marked"@) || has_infix(
                said,
                "received"@,
            ) || has_infix(said, "identified"@) || has_infix(said, "admitted"@));
            &&& exhibit ==> line.kind == LineKind::ExhibitMarker
            &&& !exhibit ==> line.kind == LineKind::Parenthetical
            &&& line.speaker is None
            &&& line.text == trimmed(text)
            &&& line.starts_new_block
            &&& closes_remark(trimmed(text)) ==> after.continuation is None
            &&& !closes_remark(trimmed(text)) ==> after.continuation == Some(
                ContinuationContextView { kind: line.kind, speaker: None },
            )
            &&& after.current_questioner == state.current_questioner
            &&& after.current_witness == state.current_witness
        }),
{
    let content = trimmed(text);
    assert(crate::transcript::classify::opens_parenthetical(content) == opens_remark(content));
}

/// A heading ends the active turn. One that names the examiner makes the examiner who asks from
/// then on.
pub proof fn law_headings_end_turns(
    text: Seq<char>,
    state: ParserStateView,
    context: TranscriptContextView,
    allow_bare_marker: bool,
)
    requires
        introduced_witness(trimmed(text)) is None,
    ensures
        ({
            let (after, line) = line_class(text, state, context, allow_bare_marker);
            let examiner = heading_examiner(trimmed(text), state, context);
            &&& examiner is Some ==> {
                &&& line.kind == LineKind::ExaminationHeading
                &&& line.speaker == Some((examiner->0).1)
                &&& after.current_questioner == Some((examiner->0).1)
                &&& after.continuation is None
                &&& line.text == trimmed(text)
                &&& after.current_witness == (examiner->0).0.current_witness
            }
            &&& examiner is None && heads_examination(trimmed(text)) ==> {
                &&& line.kind == LineKind::ExaminationHeading
                &&& line.speaker is None
                &&& after.continuation is None
                &&& line.text == trimmed(text)
                &&& after.current_questioner == state.current_questioner
                &&& after.current_witness == state.current_witness
            }
        }),
{
    let content = trimmed(text);
    assert(trimmed(content) == content) by {
        lemma_trimmed_twice(text);
    }
    assert(crate::transcript::classify::examination_heading(content) == heads_examination(content));
}

/// Trimming a second time changes nothing.
pub proof fn lemma_trimmed_twice(s: Seq<char>)
    ensures
        trimmed(trimmed(s)) == trimmed(s),
{
    crate::scan::law_trimming_takes_white_space_alone(s);
    let t = trimmed(s);
    if t.len() > 0 {
        lemma_run_end_is(t, CharClass::Space, 0, 0);
        lemma_run_start_is(t, CharClass::Space, t.len() as int, t.len() as int);
        assert(t.subrange(0, t.len() as int) =~= t);
    }
}

// ---------------------------------------------------------------------------
// Speakers whose names were taken out
// ---------------------------------------------------------------------------

/// Before the first line nobody asks, nothing goes on and nobody was made up.
pub proof fn law_parses_remember_nothing_at_first(witness: Option<SpeakerView>)
    ensures
        ({
            let state = fresh_state(witness);
            &&& state.current_questioner is None && state.continuation is None
            &&& state.current_witness == witness
            &&& state.redacted_witness is None && state.redacted_objector is None
            &&& state.anonymous_attorney_sequence == 0 && state.anonymous_witness_sequence == 0
                && state.anonymous_unknown_sequence == 0
            &&& state.last_physical_page is None && state.last_transcript_page is None
                && state.last_line_number is None
        }),
{
}

/// A redacted label with a question is the redacted attorney who asks, or a new one; with an answer
/// the one witness whose name was taken out; with an objection the one attorney who objects so; and
/// else whoever goes on under a redaction, or a new stranger.
pub proof fn law_redacted_labels_stand_for_somebody(
    said: Seq<char>,
    state: ParserStateView,
    context: TranscriptContextView,
)
    ensures
        ({
            let (after, speaker) = redacted_speaker(said, state, context);
            let marker = matched_marker(said, context.marker_rules);
            let question = marker is Some && (marker->0).kind == MarkerKind::Question;
            let answer = marker is Some && (marker->0).kind == MarkerKind::Answer;
            let objection = marker is None && speaks_of_objecting(said);
            let asked = state.current_questioner is Some && (
            state.current_questioner->0).redacted && (state.current_questioner->0).role
                == SpeakerRole::Attorney;
            let on = state.continuation is Some && (state.continuation->0).speaker is Some && ((
            state.continuation->0).speaker->0).redacted;
            &&& question && asked ==> after == state && speaker == state.current_questioner->0
            &&& question && !asked ==> speaker == fresh_attorney(state).1 && speaker.role
                == SpeakerRole::Attorney && after.current_questioner == Some(speaker)
            &&& answer ==> after.current_witness == Some(speaker) && after.redacted_witness == Some(
                speaker,
            ) && (state.redacted_witness is Some ==> Some(speaker) == state.redacted_witness)
            &&& objection ==> after.redacted_objector == Some(speaker) && (
            state.redacted_objector is Some ==> Some(speaker) == state.redacted_objector && after
                == state)
            &&& marker is None && !objection && on ==> after == state && speaker == (
            state.continuation->0).speaker->0
            &&& marker is None && !objection && !on ==> speaker.redacted && speaker.role
                == SpeakerRole::Unknown && (state.anonymous_unknown_sequence < usize::MAX
                ==> after.anonymous_unknown_sequence == state.anonymous_unknown_sequence + 1)
        }),
{
}

/// Those made up are numbered one after the other: a new attorney and a new stranger each time, the
/// witness and the objector once.
pub proof fn law_hidden_speakers_are_numbered(state: ParserStateView)
    requires
        state.anonymous_attorney_sequence < usize::MAX,
        state.anonymous_witness_sequence < usize::MAX,
        state.anonymous_unknown_sequence < usize::MAX,
    ensures
        ({
            let (attorney_state, attorney) = fresh_attorney(state);
            let (witness_state, witness) = hidden_witness(state);
            let (objector_state, objector) = hidden_objector(state);
            let (stranger_state, stranger) = hidden_stranger(state);
            let a = state.anonymous_attorney_sequence as nat + 1;
            &&& attorney == nameless_speaker(SpeakerRole::Attorney, a, true)
            &&& attorney_state.anonymous_attorney_sequence == a
            &&& attorney_state.current_questioner == state.current_questioner
            &&& stranger == nameless_speaker(
                SpeakerRole::Unknown,
                state.anonymous_unknown_sequence as nat + 1,
                true,
            )
            &&& stranger_state.anonymous_unknown_sequence == state.anonymous_unknown_sequence + 1
            &&& state.redacted_witness is None ==> witness == nameless_speaker(
                SpeakerRole::Witness,
                state.anonymous_witness_sequence as nat + 1,
                true,
            ) && witness_state.redacted_witness == Some(witness)
                && witness_state.anonymous_witness_sequence == state.anonymous_witness_sequence + 1
            &&& state.redacted_witness is Some ==> Some(witness) == state.redacted_witness
                && witness_state == state
            &&& hidden_witness(witness_state) == (witness_state, witness)
            &&& state.redacted_objector is None ==> objector == attorney
            &&& hidden_objector(objector_state) == (objector_state, objector)
        }),
{
}

/// A label that nobody answers to and that tells no role stands for itself: a speaker who goes by
/// it, in the role of what is said under it, a question or an objection for an attorney and an
/// answer for a witness.
pub proof fn law_unknown_labels_stand_for_themselves(
    label: Seq<char>,
    said: Seq<char>,
    state: ParserStateView,
    context: TranscriptContextView,
)
    requires
        !(names_the_witness(label) && state.current_witness is Some),
        !redacted_label(label),
        known_speaker(label, context.participants) is None,
        label_speaker(label) is None,
    ensures
        ({
            let (after, speaker) = prefixed_speaker(label, said, state, context);
            let marker = matched_marker(said, context.marker_rules);
            &&& after == state
            &&& speaker.label == trimmed(label) && !speaker.redacted
            &&& speaker.participant_id == Some(id_of_label(label))
            &&& marker is Some && (marker->0).kind == MarkerKind::Question ==> speaker.role
                == SpeakerRole::Attorney
            &&& marker is Some && (marker->0).kind == MarkerKind::Answer ==> speaker.role
                == SpeakerRole::Witness
            &&& marker is None && speaks_of_objecting(said) ==> speaker.role
                == SpeakerRole::Attorney
            &&& marker is None && !speaks_of_objecting(said) ==> speaker.role
                == SpeakerRole::Unknown
        }),
{
}

/// A label of no participant that tells a role stands for a speaker of that role, who goes by it.
pub proof fn law_telling_labels_name_speakers(label: Seq<char>, list: Seq<ParticipantView>)
    requires
        forall|i: int| 0 <= i < list.len() ==> !answers_to(#[trigger] list[i], trimmed(label)),
        !redacted_label(trimmed(trimmed(label))),
    ensures
        ({
            let role = label_role(uppercased(trimmed(trimmed(label))));
            let speaker = known_speaker(label, list);
            &&& role is None ==> speaker is None
            &&& role is Some ==> speaker is Some && (speaker->0).role == role->0 && (
            speaker->0).label == trimmed(trimmed(label)) && !(speaker->0).redacted && (
            speaker->0).participant_id == Some(id_of_label(trimmed(label)))
        }),
{
    lemma_nobody_answers(list, trimmed(label), 0);
}

proof fn lemma_nobody_answers(list: Seq<ParticipantView>, label: Seq<char>, from: int)
    requires
        0 <= from <= list.len(),
        forall|i: int| 0 <= i < list.len() ==> !answers_to(#[trigger] list[i], label),
    ensures
        answering_index(list, label, from) == list.len(),
    decreases list.len() - from,
{
    if from < list.len() {
        assert(!answers_to(list[from], label));
        lemma_nobody_answers(list, label, from + 1);
    }
}

// ---------------------------------------------------------------------------
// Who examines and who is introduced
// ---------------------------------------------------------------------------

/// A heading names the examiner where "BY", a label and a colon make it up: a redacted one is a new
/// attorney, a known one who it is known as, and one in capitals whoever goes by it.
pub proof fn law_headings_name_examiners(
    text: Seq<char>,
    state: ParserStateView,
    context: TranscriptContextView,
)
    ensures
        ({
            let rest = after_prefix_ignoring_case(trimmed(text), "BY "@);
            let closed = rest is Some && (rest->0).len() > 0 && (rest->0).last() == ':';
            let label = trimmed(stripped_end(rest->0, CharClass::Is(':')));
            let examiner = heading_examiner(text, state, context);
            let known = known_speaker(label, context.participants);
            &&& !closed || label.len() == 0 ==> examiner is None
            &&& closed && label.len() > 0 && redacted_label(label) ==> examiner == Some(
                fresh_attorney(state),
            )
            &&& closed && label.len() > 0 && !redacted_label(label) && known is Some ==> examiner
                == Some((state, known->0))
            &&& closed && label.len() > 0 && !redacted_label(label) && known is None && (
            bare_heading(label) || mostly_capitals(label)) ==> examiner is Some && (examiner->0).0
                == state && ((examiner->0).1).label == label && ((examiner->0).1).role
                == SpeakerRole::Unknown && ((examiner->0).1).participant_id == Some(
                id_of_label(label),
            )
            &&& closed && label.len() > 0 && !redacted_label(label) && known is None
                && !bare_heading(label) && !mostly_capitals(label) ==> examiner is None
        }),
{
}

/// A question may name who asks it, between "BY" and a colon: what follows is the question, and
/// whoever is named asks from then on. Any other question is taken as it is.
pub proof fn law_questions_name_who_asks(
    question: Seq<char>,
    state: ParserStateView,
    context: TranscriptContextView,
)
    ensures
        ({
            let (after, speaker, text) = question_speaker(question, state, context);
            let t = trimmed(question);
            let rest = after_prefix_ignoring_case(t, "BY "@);
            let halves = split_at_first(rest->0, ':');
            let label = trimmed((halves->0).0);
            let named = rest is Some && halves is Some && label.len() > 0;
            let known = known_speaker(label, context.participants);
            &&& !named ==> after == state && speaker is None && text == t
            &&& named ==> speaker is Some && after.current_questioner == speaker && text == trimmed(
                (halves->0).1,
            )
            &&& named && redacted_label(label) ==> speaker == Some(fresh_attorney(state).1)
            &&& named && !redacted_label(label) && known is Some ==> speaker == known
            &&& named && !redacted_label(label) && known is None ==> (speaker->0).label == label && (
            speaker->0).role == SpeakerRole::Unknown && (speaker->0).participant_id == Some(
                id_of_label(label),
            )
        }),
{
}

/// A line that introduces a witness is a heading: the witness answers from then on, nobody asks,
/// and nothing goes on.
pub proof fn law_introductions_open_testimony(
    text: Seq<char>,
    state: ParserStateView,
    context: TranscriptContextView,
    allow_bare_marker: bool,
)
    requires
        introduced_witness(trimmed(text)) is Some,
    ensures
        ({
            let (after, line) = line_class(text, state, context, allow_bare_marker);
            let name = introduced_witness(trimmed(text))->0;
            let known = known_speaker(name, context.participants);
            &&& line.kind == LineKind::Heading && line.text == trimmed(text)
                && line.starts_new_block
            &&& line.speaker is Some && (line.speaker->0).role == SpeakerRole::Witness
            &&& after.current_witness == line.speaker
            &&& after.current_questioner is None && after.continuation is None
            &&& known is Some ==> (line.speaker->0).participant_id == (known->0).participant_id && (
            line.speaker->0).label == (known->0).label
            &&& known is None ==> (line.speaker->0).label == name && (
            line.speaker->0).participant_id == Some(id_of_label(name))
        }),
{
}

/// An answer is taken without a label that repeats who gives it.
pub proof fn law_answers_drop_their_label(text: Seq<char>)
    ensures
        ({
            let t = trimmed(text);
            let by_function = after_prefix_ignoring_case(t, "THE WITNESS:"@);
            let by_heading = after_prefix_ignoring_case(t, "BY THE WITNESS:"@);
            &&& by_function is Some ==> without_witness_label(text) == trimmed(by_function->0)
            &&& by_function is None && by_heading is Some ==> without_witness_label(text)
                == trimmed(by_heading->0)
            &&& by_function is None && by_heading is None ==> without_witness_label(text) == t
        }),
{
}

// ---------------------------------------------------------------------------
// Evidence
// ---------------------------------------------------------------------------

/// A marker weighs 100 where its rule comes first and 94 else, for what it marks and nothing else;
/// the marker itself is the first piece of evidence.
pub proof fn law_markers_weigh(
    marker: MarkerMatchView,
    state: ParserStateView,
    context: TranscriptContextView,
)
    ensures
        ({
            let line = marked_line(marker, state, context).1;
            let weight = if marker.priority == 1 {
                100u8
            } else {
                94u8
            };
            let question = marker.kind == MarkerKind::Question;
            &&& line.evidence.question_score == if question {
                weight
            } else {
                0
            }
            &&& line.evidence.answer_score == if question {
                0
            } else {
                weight
            }
            &&& line.evidence.objection_score == 0 && line.evidence.statement_score == 0
            &&& line.evidence.items.len() >= 2
            &&& line.evidence.items[0].source == EvidenceSource::ExplicitMarker
            &&& line.evidence.items[0].weight == weight
        }),
{
}

/// What labels speak for: a question of an attorney or a stranger, an answer, an objection, or a
/// statement, of which that of a stranger counts least.
pub proof fn law_labels_weigh(
    speaker: SpeakerView,
    text: Seq<char>,
    state: ParserStateView,
    context: TranscriptContextView,
)
    requires
        marker_that_counts(text, context, false) is None,
    ensures
        ({
            let line = labelled_line(speaker, text, state, context).1;
            let e = line.evidence;
            let counsel = speaker.role == SpeakerRole::Attorney;
            &&& line.kind == LineKind::Question ==> e.question_score == (if counsel {
                86u8
            } else {
                78u8
            }) && e.answer_score == 0 && e.objection_score == 0 && e.statement_score == 0
            &&& line.kind == LineKind::Answer ==> e.answer_score == 84 && e.question_score == 0
                && e.objection_score == 0 && e.statement_score == 0
            &&& line.kind == LineKind::Objection ==> e.objection_score == 92 && e.question_score
                == 0 && e.answer_score == 0 && e.statement_score == 0
            &&& line.kind != LineKind::Question && line.kind != LineKind::Answer && line.kind
                != LineKind::Objection ==> e.statement_score == (if speaker.role
                == SpeakerRole::Unknown {
                45u8
            } else {
                92u8
            }) && e.question_score == 0 && e.answer_score == 0 && e.objection_score == 0
            &&& e.items.len() > 0
        }),
{
}

/// What goes on speaks for what it goes on with, at 72; an objection without a label speaks for
/// itself at 100; and what nothing is known of has no evidence.
pub proof fn law_unmarked_lines_weigh(content: Seq<char>, state: ParserStateView)
    ensures
        ({
            let line = unmarked_line(content, state).1;
            let e = line.evidence;
            &&& line.kind == LineKind::Unknown && line.starts_new_block ==> e.items.len() == 0
            &&& line.kind == LineKind::Objection && line.starts_new_block ==> e.objection_score
                == 100
            &&& !line.starts_new_block && line.kind == LineKind::Question ==> e.question_score
                == 72 && e.answer_score == 0
            &&& !line.starts_new_block && line.kind == LineKind::Answer ==> e.answer_score == 72
                && e.question_score == 0
            &&& !line.starts_new_block ==> e.items.len() == 1 && e.items[0].source
                == EvidenceSource::PreviousLine && e.items[0].weight == 72
        }),
{
}

} // verus!
