//! What each line of dialogue is, and who says it.
//!
//! A line is classified by what it holds and by what a parse remembers of the lines before
//! it. Every step is a function of the two: it gives the classified line and the memory for
//! the next.
use vstd::prelude::*;

use crate::number::{decimal, next, push_decimal, succ};
use crate::pieces::{split_at_first, split_once};
use crate::scan::{
    after_prefix_ignoring_case, begins, contains, end_trimmed, ends, ends_with_char, has_infix,
    has_prefix, starts_with, starts_with_char, strip_end, strip_prefix_ascii_case, stripped_end,
    to_lower, to_upper, trim, trim_end, trimmed, lowercased, uppercased,
};
use crate::text::{push_item, same, CharClass};
use crate::transcript::markers::{match_marker, matched_marker, MarkerMatch, MarkerMatchView};
use crate::transcript::models::{
    no_evidence, ClassificationConfidence, ClassificationEvidence, ClassificationEvidenceView,
    EvidenceItem, EvidenceItemView, EvidenceSource, LineKind, MarkerKind, MarkerRuleView,
    MarkerStyle, Speaker, SpeakerRole, SpeakerView, TranscriptContext, TranscriptContextView,
};
use crate::transcript::speaker::{
    anonymous_speaker, bare_heading, id_of_label, introduced_witness, is_pure_redaction_marker,
    is_redacted_label, is_witness_label, known_speaker, label_id, label_speaker, labelled_turn,
    looks_like_bare_attorney_heading, looks_like_generic_speaker_label, mostly_capitals,
    nameless_speaker, pure_redaction, redacted_label, resolve_known_speaker, speaker_from_label,
    split_any_speaker_prefix, unknown_attorney, unnamed_attorney, witness_introduction,
    witness_label,
};

verus! {

/// The turn that an unmarked line continues.
#[derive(Debug)]
pub struct ContinuationContext {
    pub kind: LineKind,
    pub speaker: Option<Speaker>,
}

/// The contents of a [`ContinuationContext`].
#[verifier::ext_equal]
pub struct ContinuationContextView {
    pub kind: LineKind,
    pub speaker: Option<SpeakerView>,
}

impl DeepView for ContinuationContext {
    type V = ContinuationContextView;

    open spec fn deep_view(&self) -> ContinuationContextView {
        ContinuationContextView {
            kind: self.kind,
            speaker: self.speaker.deep_view(),
        }
    }
}

impl Clone for ContinuationContext {
    fn clone(&self) -> (r: Self)
        ensures
            r.deep_view() == self.deep_view(),
    {
        ContinuationContext {
            kind: self.kind,
            speaker: self.speaker.clone(),
        }
    }
}

/// What a parse remembers from line to line.
#[derive(Debug)]
pub struct ParserState {
    pub current_questioner: Option<Speaker>,
    pub current_witness: Option<Speaker>,
    pub continuation: Option<ContinuationContext>,
    pub last_physical_page: Option<u32>,
    pub last_transcript_page: Option<u32>,
    pub last_line_number: Option<u16>,
    pub anonymous_attorney_sequence: usize,
    pub anonymous_witness_sequence: usize,
    pub anonymous_unknown_sequence: usize,
    pub redacted_witness: Option<Speaker>,
    pub redacted_objector: Option<Speaker>,
}

/// The contents of a [`ParserState`].
#[verifier::ext_equal]
pub struct ParserStateView {
    pub current_questioner: Option<SpeakerView>,
    pub current_witness: Option<SpeakerView>,
    pub continuation: Option<ContinuationContextView>,
    pub last_physical_page: Option<u32>,
    pub last_transcript_page: Option<u32>,
    pub last_line_number: Option<u16>,
    pub anonymous_attorney_sequence: usize,
    pub anonymous_witness_sequence: usize,
    pub anonymous_unknown_sequence: usize,
    pub redacted_witness: Option<SpeakerView>,
    pub redacted_objector: Option<SpeakerView>,
}

impl DeepView for ParserState {
    type V = ParserStateView;

    open spec fn deep_view(&self) -> ParserStateView {
        ParserStateView {
            current_questioner: self.current_questioner.deep_view(),
            current_witness: self.current_witness.deep_view(),
            continuation: self.continuation.deep_view(),
            last_physical_page: self.last_physical_page,
            last_transcript_page: self.last_transcript_page,
            last_line_number: self.last_line_number,
            anonymous_attorney_sequence: self.anonymous_attorney_sequence,
            anonymous_witness_sequence: self.anonymous_witness_sequence,
            anonymous_unknown_sequence: self.anonymous_unknown_sequence,
            redacted_witness: self.redacted_witness.deep_view(),
            redacted_objector: self.redacted_objector.deep_view(),
        }
    }
}

/// What a line was found to be.
#[derive(Debug)]
pub struct ClassifiedLine {
    pub kind: LineKind,
    pub speaker: Option<Speaker>,
    pub confidence: ClassificationConfidence,
    pub starts_new_block: bool,
    pub text: String,
    pub evidence: ClassificationEvidence,
}

/// The contents of a [`ClassifiedLine`].
#[verifier::ext_equal]
pub struct ClassifiedLineView {
    pub kind: LineKind,
    pub speaker: Option<SpeakerView>,
    pub confidence: ClassificationConfidence,
    pub starts_new_block: bool,
    pub text: Seq<char>,
    pub evidence: ClassificationEvidenceView,
}

impl DeepView for ClassifiedLine {
    type V = ClassifiedLineView;

    open spec fn deep_view(&self) -> ClassifiedLineView {
        ClassifiedLineView {
            kind: self.kind,
            speaker: self.speaker.deep_view(),
            confidence: self.confidence,
            starts_new_block: self.starts_new_block,
            text: self.text@,
            evidence: self.evidence.deep_view(),
        }
    }
}

/// What a parse remembers before its first line.
pub open spec fn fresh_state(witness: Option<SpeakerView>) -> ParserStateView {
    ParserStateView {
        current_questioner: None,
        current_witness: witness,
        continuation: None,
        last_physical_page: None,
        last_transcript_page: None,
        last_line_number: None,
        anonymous_attorney_sequence: 0,
        anonymous_witness_sequence: 0,
        anonymous_unknown_sequence: 0,
        redacted_witness: None,
        redacted_objector: None,
    }
}

/// A new attorney whose name is redacted.
pub open spec fn fresh_attorney(state: ParserStateView) -> (ParserStateView, SpeakerView) {
    let sequence = succ(state.anonymous_attorney_sequence);
    (
        ParserStateView { anonymous_attorney_sequence: sequence, ..state },
        nameless_speaker(SpeakerRole::Attorney, sequence as nat, true),
    )
}

/// The witness whose name is redacted: one for the whole document.
pub open spec fn hidden_witness(state: ParserStateView) -> (ParserStateView, SpeakerView) {
    match state.redacted_witness {
        Some(speaker) => (state, speaker),
        None => {
            let sequence = succ(state.anonymous_witness_sequence);
            let speaker = nameless_speaker(SpeakerRole::Witness, sequence as nat, true);
            (
                ParserStateView {
                    anonymous_witness_sequence: sequence,
                    redacted_witness: Some(speaker),
                    ..state
                },
                speaker,
            )
        },
    }
}

/// The attorney whose name is redacted and who objects: one for the whole document.
pub open spec fn hidden_objector(state: ParserStateView) -> (ParserStateView, SpeakerView) {
    match state.redacted_objector {
        Some(speaker) => (state, speaker),
        None => {
            let (after, speaker) = fresh_attorney(state);
            (ParserStateView { redacted_objector: Some(speaker), ..after }, speaker)
        },
    }
}

/// A new speaker of whom neither name nor role is known.
pub open spec fn hidden_stranger(state: ParserStateView) -> (ParserStateView, SpeakerView) {
    let sequence = succ(state.anonymous_unknown_sequence);
    (
        ParserStateView { anonymous_unknown_sequence: sequence, ..state },
        nameless_speaker(SpeakerRole::Unknown, sequence as nat, true),
    )
}

/// Two redacted examiners that are introduced one after the other are told apart.
pub proof fn law_fresh_attorneys_distinct(state: ParserStateView)
    requires
        state.anonymous_attorney_sequence < usize::MAX - 1,
    ensures
        ({
            let (after, first) = fresh_attorney(state);
            fresh_attorney(after).1.participant_id != first.participant_id
        }),
{
    let first = succ(state.anonymous_attorney_sequence);
    let second = succ(first);
    crate::transcript::speaker::law_nameless_speakers_distinct(
        SpeakerRole::Attorney,
        first as nat,
        second as nat,
        true,
    );
}

/// The redacted witness and the redacted objector keep their identity once they have one.
pub proof fn law_hidden_speakers_are_stable(state: ParserStateView)
    ensures
        hidden_witness(hidden_witness(state).0) == hidden_witness(state),
        hidden_objector(hidden_objector(state).0) == hidden_objector(state),
{
}

impl ParserState {
    /// The memory of a parse before its first line.
    pub fn new(witness: Option<Speaker>) -> (r: Self)
        ensures
            r.deep_view() == fresh_state(witness.deep_view()),
    {
        ParserState {
            current_questioner: None,
            current_witness: witness,
            continuation: None,
            last_physical_page: None,
            last_transcript_page: None,
            last_line_number: None,
            anonymous_attorney_sequence: 0,
            anonymous_witness_sequence: 0,
            anonymous_unknown_sequence: 0,
            redacted_witness: None,
            redacted_objector: None,
        }
    }

    fn new_redacted_attorney(&mut self) -> (r: Speaker)
        ensures
            (final(self).deep_view(), r.deep_view()) == fresh_attorney(old(self).deep_view()),
    {
        self.anonymous_attorney_sequence = next(self.anonymous_attorney_sequence);
        anonymous_speaker(SpeakerRole::Attorney, self.anonymous_attorney_sequence, true)
    }

    fn redacted_witness(&mut self) -> (r: Speaker)
        ensures
            (final(self).deep_view(), r.deep_view()) == hidden_witness(old(self).deep_view()),
    {
        match &self.redacted_witness {
            Some(speaker) => {
                return speaker.clone();
            },
            None => {},
        }
        self.anonymous_witness_sequence = next(self.anonymous_witness_sequence);
        let speaker = anonymous_speaker(
            SpeakerRole::Witness,
            self.anonymous_witness_sequence,
            true,
        );
        self.redacted_witness = Some(speaker.clone());
        speaker
    }

    fn redacted_objector(&mut self) -> (r: Speaker)
        ensures
            (final(self).deep_view(), r.deep_view()) == hidden_objector(old(self).deep_view()),
    {
        match &self.redacted_objector {
            Some(speaker) => {
                return speaker.clone();
            },
            None => {},
        }
        let speaker = self.new_redacted_attorney();
        self.redacted_objector = Some(speaker.clone());
        speaker
    }

    fn redacted_unknown(&mut self) -> (r: Speaker)
        ensures
            (final(self).deep_view(), r.deep_view()) == hidden_stranger(old(self).deep_view()),
    {
        self.anonymous_unknown_sequence = next(self.anonymous_unknown_sequence);
        anonymous_speaker(SpeakerRole::Unknown, self.anonymous_unknown_sequence, true)
    }
}

// ---------------------------------------------------------------------------
// Evidence
// ---------------------------------------------------------------------------

/// A piece of evidence, with its weight in hundredths.
pub open spec fn item(source: EvidenceSource, weight: u8, note: Seq<char>) -> EvidenceItemView {
    EvidenceItemView { source, weight, note }
}

/// Evidence with one more piece.
pub open spec fn with_item(
    evidence: ClassificationEvidenceView,
    source: EvidenceSource,
    weight: u8,
    note: Seq<char>,
) -> ClassificationEvidenceView {
    ClassificationEvidenceView { items: evidence.items.push(item(source, weight, note)), ..evidence }
}

/// Computes [`with_item`] in place.
pub fn add_evidence(
    evidence: &mut ClassificationEvidence,
    source: EvidenceSource,
    weight: u8,
    note: &str,
)
    ensures
        final(evidence).deep_view() == with_item(old(evidence).deep_view(), source, weight, note@),
{
    push_item(&mut evidence.items, EvidenceItem { source, weight, note: note.to_owned() });
}

pub open spec fn greater(a: u8, b: u8) -> u8 {
    if a < b {
        b
    } else {
        a
    }
}

fn larger(a: u8, b: u8) -> (r: u8)
    ensures
        r == greater(a, b),
{
    if a < b {
        b
    } else {
        a
    }
}

/// Evidence with the score for a kind of line raised to at least `score`.
pub open spec fn with_score(evidence: ClassificationEvidenceView, kind: LineKind, score: u8) ->
    ClassificationEvidenceView {
    match kind {
        LineKind::Question => ClassificationEvidenceView {
            question_score: greater(evidence.question_score, score),
            ..evidence
        },
        LineKind::Answer => ClassificationEvidenceView {
            answer_score: greater(evidence.answer_score, score),
            ..evidence
        },
        LineKind::Objection => ClassificationEvidenceView {
            objection_score: greater(evidence.objection_score, score),
            ..evidence
        },
        _ => ClassificationEvidenceView {
            statement_score: greater(evidence.statement_score, score),
            ..evidence
        },
    }
}

fn score_kind(evidence: &mut ClassificationEvidence, kind: LineKind, score: u8)
    ensures
        final(evidence).deep_view() == with_score(old(evidence).deep_view(), kind, score),
{
    match kind {
        LineKind::Question => {
            evidence.question_score = larger(evidence.question_score, score);
        },
        LineKind::Answer => {
            evidence.answer_score = larger(evidence.answer_score, score);
        },
        LineKind::Objection => {
            evidence.objection_score = larger(evidence.objection_score, score);
        },
        _ => {
            evidence.statement_score = larger(evidence.statement_score, score);
        },
    }
}

/// Evidence that rests on the form of a line alone.
pub open spec fn structural_evidence(note: Seq<char>) -> ClassificationEvidenceView {
    with_item(
        ClassificationEvidenceView { statement_score: 100, ..no_evidence() },
        EvidenceSource::FormatFingerprint,
        100,
        note,
    )
}

fn explicit_structural_evidence(note: &str) -> (r: ClassificationEvidence)
    ensures
        r.deep_view() == structural_evidence(note@),
{
    let mut evidence = ClassificationEvidence::default();
    evidence.statement_score = 100;
    add_evidence(&mut evidence, EvidenceSource::FormatFingerprint, 100, note);
    evidence
}

/// How much a marker weighs, by its priority.
pub open spec fn marker_weight(priority: u8) -> u8 {
    if priority == 1 {
        100
    } else {
        94
    }
}

fn weight_of_marker(priority: u8) -> (r: u8)
    ensures
        r == marker_weight(priority),
{
    if priority == 1 {
        100
    } else {
        94
    }
}

/// The name of a marker style.
pub open spec fn style_name(style: MarkerStyle) -> Seq<char> {
    match style {
        MarkerStyle::Dot => "Dot"@,
        MarkerStyle::BareUppercase => "BareUppercase"@,
        MarkerStyle::Colon => "Colon"@,
        MarkerStyle::Word => "Word"@,
        MarkerStyle::SpeakerPrefixed => "SpeakerPrefixed"@,
    }
}

fn name_of_style(style: MarkerStyle) -> (r: &'static str)
    ensures
        r@ == style_name(style),
{
    match style {
        MarkerStyle::Dot => "Dot",
        MarkerStyle::BareUppercase => "BareUppercase",
        MarkerStyle::Colon => "Colon",
        MarkerStyle::Word => "Word",
        MarkerStyle::SpeakerPrefixed => "SpeakerPrefixed",
    }
}

/// The kind of line that a marker opens.
pub open spec fn marked_kind(kind: MarkerKind) -> LineKind {
    match kind {
        MarkerKind::Question => LineKind::Question,
        MarkerKind::Answer => LineKind::Answer,
    }
}

/// Computes [`marked_kind`].
pub fn kind_of_marker(kind: MarkerKind) -> (r: LineKind)
    ensures
        r == marked_kind(kind),
{
    match kind {
        MarkerKind::Question => LineKind::Question,
        MarkerKind::Answer => LineKind::Answer,
    }
}

/// Evidence that rests on a marker behind a speaker label.
pub open spec fn anchored_marker_evidence(marker: MarkerMatchView) -> ClassificationEvidenceView {
    let weight = marker_weight(marker.priority);
    with_item(
        with_score(no_evidence(), marked_kind(marker.kind), weight),
        EvidenceSource::ExplicitMarker,
        weight,
        "Explicit marker "@ + marker.pattern + " detected."@,
    )
}

fn marker_evidence(marker: &MarkerMatch<'_>) -> (r: ClassificationEvidence)
    ensures
        r.deep_view() == anchored_marker_evidence(marker.deep_view()),
{
    let mut evidence = ClassificationEvidence::default();
    let weight = weight_of_marker(marker.priority);
    score_kind(&mut evidence, kind_of_marker(marker.kind), weight);
    let note = "Explicit marker ".to_owned().concat(marker.pattern.as_str()).concat(" detected.");
    add_evidence(&mut evidence, EvidenceSource::ExplicitMarker, weight, note.as_str());
    evidence
}

// ---------------------------------------------------------------------------
// The form of a line
// ---------------------------------------------------------------------------

/// Whether a text ends in a question mark.
pub open spec fn asks(text: Seq<char>) -> bool {
    ends_with_char(end_trimmed(text), '?')
}

/// Decides [`asks`].
pub fn is_asking(text: &str) -> (r: bool)
    ensures
        r == asks(text@),
{
    ends(trim_end(text), '?')
}

/// Whether a text opens or carries an objection.
pub open spec fn objects(text: Seq<char>) -> bool {
    let lower = lowercased(trimmed(text));
    has_prefix(lower, "objection"@) || has_prefix(lower, "object "@) || has_prefix(
        lower,
        "i object"@,
    ) || has_infix(lower, " object to "@)
}

pub fn looks_like_objection(text: &str) -> (r: bool)
    ensures
        r == objects(text@),
{
    let lower = to_lower(trim(text));
    starts_with(lower.as_str(), "objection") || starts_with(lower.as_str(), "object ")
        || starts_with(lower.as_str(), "i object") || contains(lower.as_str(), " object to ")
}

/// Whether a line opens a parenthetical.
pub open spec fn opens_parenthetical(text: Seq<char>) -> bool {
    let t = trimmed(text);
    starts_with_char(t, '(') || (starts_with_char(t, '[') && !pure_redaction(t)) || has_prefix(
        t,
        "---"@,
    )
}

fn is_parenthetical_start(text: &str) -> (r: bool)
    ensures
        r == opens_parenthetical(text@),
{
    let t = trim(text);
    begins(t, '(') || (begins(t, '[') && !is_pure_redaction_marker(t)) || starts_with(t, "---")
}

/// Whether a line closes a parenthetical.
pub open spec fn closes_parenthetical(text: Seq<char>) -> bool {
    let t = trimmed(text);
    has_prefix(t, "---"@) || ends_with_char(t, ')') || ends_with_char(t, ']')
}

fn parenthetical_is_closed(text: &str) -> (r: bool)
    ensures
        r == closes_parenthetical(text@),
{
    let t = trim(text);
    starts_with(t, "---") || ends(t, ')') || ends(t, ']')
}

/// Whether a parenthetical marks an exhibit.
pub open spec fn marks_exhibit(text: Seq<char>) -> bool {
    let lower = lowercased(text);
    has_infix(lower, "exhibit"@) && (has_infix(lower, "marked"@) || has_infix(lower, "received"@)
        || has_infix(lower, "identified"@) || has_infix(lower, "admitted"@))
}

fn is_exhibit_marker(text: &str) -> (r: bool)
    ensures
        r == marks_exhibit(text@),
{
    let lower = to_lower(text);
    contains(lower.as_str(), "exhibit") && (contains(lower.as_str(), "marked") || contains(
        lower.as_str(),
        "received",
    ) || contains(lower.as_str(), "identified") || contains(lower.as_str(), "admitted"))
}

/// Whether a line heads an examination without naming the examiner.
pub open spec fn examination_heading(text: Seq<char>) -> bool {
    let u = uppercased(trimmed(text));
    ||| u == "EXAMINATION"@
    ||| u == "DIRECT EXAMINATION"@
    ||| u == "CROSS-EXAMINATION"@
    ||| u == "CROSS EXAMINATION"@
    ||| u == "REDIRECT EXAMINATION"@
    ||| u == "RE-DIRECT EXAMINATION"@
    ||| u == "RECROSS EXAMINATION"@
    ||| u == "RE-CROSS EXAMINATION"@
    ||| u == "FURTHER EXAMINATION"@
}

fn is_examination_heading(text: &str) -> (r: bool)
    ensures
        r == examination_heading(text@),
{
    let upper = to_upper(trim(text));
    let u = upper.as_str();
    same(u, "EXAMINATION")
        || same(u, "DIRECT EXAMINATION")
        || same(u, "CROSS-EXAMINATION")
        || same(u, "CROSS EXAMINATION")
        || same(u, "REDIRECT EXAMINATION")
        || same(u, "RE-DIRECT EXAMINATION")
        || same(u, "RECROSS EXAMINATION")
        || same(u, "RE-CROSS EXAMINATION")
        || same(u, "FURTHER EXAMINATION")
}

/// Whether a line heads a part of the transcript.
pub open spec fn general_heading(text: Seq<char>) -> bool {
    let u = uppercased(trimmed(text));
    ||| u == "APPEARANCES"@
    ||| u == "INDEX"@
    ||| u == "PROCEEDINGS"@
    ||| u == "CERTIFICATE"@
    ||| u == "CERTIFICATION"@
    ||| u == "ERRATA"@
    ||| u == "SIGNATURE"@
    ||| u == "STIPULATIONS"@
    ||| u == "CONTENTS"@
}

fn is_general_heading(text: &str) -> (r: bool)
    ensures
        r == general_heading(text@),
{
    let upper = to_upper(trim(text));
    let u = upper.as_str();
    same(u, "APPEARANCES")
        || same(u, "INDEX")
        || same(u, "PROCEEDINGS")
        || same(u, "CERTIFICATE")
        || same(u, "CERTIFICATION")
        || same(u, "ERRATA")
        || same(u, "SIGNATURE")
        || same(u, "STIPULATIONS")
        || same(u, "CONTENTS")
}

/// An answer without a label that repeats who gives it.
pub open spec fn without_witness_label(text: Seq<char>) -> Seq<char> {
    let t = trimmed(text);
    match after_prefix_ignoring_case(t, "THE WITNESS:"@) {
        Some(rest) => trimmed(rest),
        None => match after_prefix_ignoring_case(t, "BY THE WITNESS:"@) {
            Some(rest) => trimmed(rest),
            None => t,
        },
    }
}

fn strip_witness_prefix(text: &str) -> (r: &str)
    ensures
        r@ == without_witness_label(text@),
{
    let t = trim(text);
    match strip_prefix_ascii_case(t, "THE WITNESS:") {
        Some(rest) => trim(rest),
        None => match strip_prefix_ascii_case(t, "BY THE WITNESS:") {
            Some(rest) => trim(rest),
            None => t,
        },
    }
}

// ---------------------------------------------------------------------------
// Examiners
// ---------------------------------------------------------------------------

/// A speaker who goes by a label, with an identifier made from it.
pub open spec fn named_speaker(label: Seq<char>, role: SpeakerRole) -> SpeakerView {
    SpeakerView { participant_id: Some(id_of_label(label)), label, role, redacted: false }
}

fn speaker_named(label: &str, role: SpeakerRole) -> (r: Speaker)
    ensures
        r.deep_view() == named_speaker(label@, role),
{
    Speaker {
        participant_id: Some(label_id(label)),
        label: label.to_owned(),
        role,
        redacted: false,
    }
}

/// The label in a heading such as "BY MR. SMITH:".
pub open spec fn by_label(text: Seq<char>) -> Option<Seq<char>> {
    match after_prefix_ignoring_case(trimmed(text), "BY "@) {
        Some(rest) => if ends_with_char(rest, ':') {
            Some(trimmed(stripped_end(rest, CharClass::Is(':'))))
        } else {
            None
        },
        None => None,
    }
}

/// Computes [`by_label`].
pub fn label_after_by(text: &str) -> (r: Option<&str>)
    ensures
        r.deep_view() == by_label(text@),
{
    match strip_prefix_ascii_case(trim(text), "BY ") {
        Some(rest) => if ends(rest, ':') {
            Some(trim(strip_end(rest, CharClass::Is(':'))))
        } else {
            None
        },
        None => None,
    }
}

/// The examiner that a heading names.
pub open spec fn heading_examiner(
    text: Seq<char>,
    state: ParserStateView,
    context: TranscriptContextView,
) -> Option<(ParserStateView, SpeakerView)> {
    match by_label(text) {
        Some(label) => if label.len() == 0 {
            None
        } else if redacted_label(label) {
            Some(fresh_attorney(state))
        } else {
            match known_speaker(label, context.participants) {
                Some(speaker) => Some((state, speaker)),
                None => if bare_heading(label) || mostly_capitals(label) {
                    Some((state, named_speaker(label, SpeakerRole::Unknown)))
                } else {
                    None
                },
            }
        },
        None => None,
    }
}

fn parse_by_heading(text: &str, state: &mut ParserState, context: &TranscriptContext) -> (r: Option<
    Speaker,
>)
    ensures
        match r {
            Some(speaker) => heading_examiner(text@, old(state).deep_view(), context.deep_view())
                == Some((final(state).deep_view(), speaker.deep_view())),
            None => heading_examiner(text@, old(state).deep_view(), context.deep_view()) is None
                && final(state).deep_view() == old(state).deep_view(),
        },
{
    let label = match label_after_by(text) {
        Some(label) => label,
        None => {
            return None;
        },
    };
    if label.is_empty() {
        return None;
    }
    if is_redacted_label(label) {
        return Some(state.new_redacted_attorney());
    }
    match resolve_known_speaker(label, context) {
        Some(speaker) => {
            return Some(speaker);
        },
        None => {},
    }
    if looks_like_bare_attorney_heading(label) || looks_like_generic_speaker_label(label) {
        return Some(speaker_named(label, SpeakerRole::Unknown));
    }
    None
}

/// A question that names its examiner, as in "BY MR. SMITH: Where were you?": what is
/// remembered, the examiner, and the question itself.
pub open spec fn question_speaker(
    question: Seq<char>,
    state: ParserStateView,
    context: TranscriptContextView,
) -> (ParserStateView, Option<SpeakerView>, Seq<char>) {
    let t = trimmed(question);
    match after_prefix_ignoring_case(t, "BY "@) {
        Some(rest) => match split_at_first(rest, ':') {
            Some((before, after)) => {
                let label = trimmed(before);
                if label.len() == 0 {
                    (state, None, t)
                } else {
                    let (then_state, speaker) = if redacted_label(label) {
                        fresh_attorney(state)
                    } else {
                        (
                            state,
                            match known_speaker(label, context.participants) {
                                Some(speaker) => speaker,
                                None => named_speaker(label, SpeakerRole::Unknown),
                            },
                        )
                    };
                    (
                        ParserStateView { current_questioner: Some(speaker), ..then_state },
                        Some(speaker),
                        trimmed(after),
                    )
                }
            },
            None => (state, None, t),
        },
        None => (state, None, t),
    }
}

fn parse_question_speaker<'a>(
    question: &'a str,
    state: &mut ParserState,
    context: &TranscriptContext,
) -> (r: (Option<Speaker>, &'a str))
    ensures
        (final(state).deep_view(), r.0.deep_view(), r.1@) == question_speaker(
            question@,
            old(state).deep_view(),
            context.deep_view(),
        ),
{
    let t = trim(question);
    let rest = match strip_prefix_ascii_case(t, "BY ") {
        Some(rest) => rest,
        None => {
            return (None, t);
        },
    };
    let (before, after) = match split_once(rest, ':') {
        Some(sides) => sides,
        None => {
            return (None, t);
        },
    };
    let label = trim(before);
    if label.is_empty() {
        return (None, t);
    }
    let speaker = if is_redacted_label(label) {
        state.new_redacted_attorney()
    } else {
        match resolve_known_speaker(label, context) {
            Some(speaker) => speaker,
            None => speaker_named(label, SpeakerRole::Unknown),
        }
    };
    state.current_questioner = Some(speaker.clone());
    (Some(speaker), trim(after))
}

// ---------------------------------------------------------------------------
// Lines
// ---------------------------------------------------------------------------

/// A state in which unmarked lines continue a turn.
pub open spec fn continuing(
    state: ParserStateView,
    kind: LineKind,
    speaker: Option<SpeakerView>,
) -> ParserStateView {
    ParserStateView { continuation: Some(ContinuationContextView { kind, speaker }), ..state }
}

/// A state in which nothing is continued.
pub open spec fn broken_off(state: ParserStateView) -> ParserStateView {
    ParserStateView { continuation: None, ..state }
}

/// A line that opens a block and is classified by what it shows.
pub open spec fn explicit_line(
    kind: LineKind,
    speaker: Option<SpeakerView>,
    text: Seq<char>,
    evidence: ClassificationEvidenceView,
) -> ClassifiedLineView {
    ClassifiedLineView {
        kind,
        speaker,
        confidence: ClassificationConfidence::Explicit,
        starts_new_block: true,
        text,
        evidence,
    }
}

/// A line that opens a block and is classified by inference.
pub open spec fn inferred_line(
    kind: LineKind,
    speaker: Option<SpeakerView>,
    text: Seq<char>,
    evidence: ClassificationEvidenceView,
) -> ClassifiedLineView {
    ClassifiedLineView {
        confidence: ClassificationConfidence::Inferred,
        ..explicit_line(kind, speaker, text, evidence)
    }
}

fn classified(
    kind: LineKind,
    speaker: Option<Speaker>,
    confidence: ClassificationConfidence,
    starts_new_block: bool,
    text: &str,
    evidence: ClassificationEvidence,
) -> (r: ClassifiedLine)
    ensures
        r.deep_view() == (ClassifiedLineView {
            kind,
            speaker: speaker.deep_view(),
            confidence,
            starts_new_block,
            text: text@,
            evidence: evidence.deep_view(),
        }),
{
    ClassifiedLine { kind, speaker, confidence, starts_new_block, text: text.to_owned(), evidence }
}

/// The witness of a document in which none was introduced.
pub open spec fn unresolved_witness() -> SpeakerView {
    SpeakerView {
        participant_id: Some("witness_unresolved"@),
        label: "UNRESOLVED WITNESS"@,
        role: SpeakerRole::Witness,
        redacted: false,
    }
}

/// Evidence that rests on a marker at the start of a line.
pub open spec fn line_marker_evidence(marker: MarkerMatchView) -> ClassificationEvidenceView {
    with_item(
        with_item(
            no_evidence(),
            EvidenceSource::ExplicitMarker,
            marker_weight(marker.priority),
            "Matched transcript marker "@ + marker.pattern + " with priority "@ + decimal(
                marker.priority as nat,
            ) + " ("@ + style_name(marker.style) + ")."@,
        ),
        EvidenceSource::FormatFingerprint,
        40,
        "Marker is part of this document's learned format fingerprint."@,
    )
}

/// A line that opens with a marker.
pub open spec fn marked_line(
    marker: MarkerMatchView,
    state: ParserStateView,
    context: TranscriptContextView,
) -> (ParserStateView, ClassifiedLineView) {
    let weight = marker_weight(marker.priority);
    let evidence = line_marker_evidence(marker);
    match marker.kind {
        MarkerKind::Question => {
            let (asked, named, text) = question_speaker(marker.remainder, state, context);
            let speaker = match named {
                Some(speaker) => speaker,
                None => match asked.current_questioner {
                    Some(speaker) => speaker,
                    None => unnamed_attorney(),
                },
            };
            let scored = ClassificationEvidenceView { question_score: weight, ..evidence };
            let full = if asked.current_questioner is Some {
                with_item(
                    scored,
                    EvidenceSource::CurrentExaminer,
                    60,
                    "Question attributed using active examiner state."@,
                )
            } else {
                scored
            };
            (
                continuing(
                    ParserStateView { current_questioner: Some(speaker), ..asked },
                    LineKind::Question,
                    Some(speaker),
                ),
                explicit_line(LineKind::Question, Some(speaker), text, full),
            )
        },
        MarkerKind::Answer => {
            let witness = match state.current_witness {
                Some(speaker) => speaker,
                None => unresolved_witness(),
            };
            let full = with_item(
                ClassificationEvidenceView { answer_score: weight, ..evidence },
                EvidenceSource::KnownWitness,
                70,
                "Answer attributed to primary/known witness for this transcript."@,
            );
            (
                continuing(
                    ParserStateView { current_witness: Some(witness), ..state },
                    LineKind::Answer,
                    Some(witness),
                ),
                explicit_line(
                    LineKind::Answer,
                    Some(witness),
                    without_witness_label(marker.remainder),
                    full,
                ),
            )
        },
    }
}

fn classify_explicit_marker(
    marker: MarkerMatch<'_>,
    state: &mut ParserState,
    context: &TranscriptContext,
) -> (r: ClassifiedLine)
    ensures
        (final(state).deep_view(), r.deep_view()) == marked_line(
            marker.deep_view(),
            old(state).deep_view(),
            context.deep_view(),
        ),
{
    let mut evidence = ClassificationEvidence::default();
    let weight = weight_of_marker(marker.priority);
    let mut note = "Matched transcript marker ".to_owned().concat(marker.pattern.as_str()).concat(
        " with priority ",
    );
    push_decimal(&mut note, marker.priority as u64);
    let note = note.concat(" (").concat(name_of_style(marker.style)).concat(").");
    add_evidence(&mut evidence, EvidenceSource::ExplicitMarker, weight, note.as_str());
    add_evidence(
        &mut evidence,
        EvidenceSource::FormatFingerprint,
        40,
        "Marker is part of this document's learned format fingerprint.",
    );
    match marker.kind {
        MarkerKind::Question => {
            evidence.question_score = weight;
            let (named, text) = parse_question_speaker(marker.remainder, state, context);
            let speaker = match named {
                Some(speaker) => speaker,
                None => match &state.current_questioner {
                    Some(speaker) => speaker.clone(),
                    None => unknown_attorney(),
                },
            };
            if state.current_questioner.is_some() {
                add_evidence(
                    &mut evidence,
                    EvidenceSource::CurrentExaminer,
                    60,
                    "Question attributed using active examiner state.",
                );
            }
            state.current_questioner = Some(speaker.clone());
            state.continuation = Some(
                ContinuationContext { kind: LineKind::Question, speaker: Some(speaker.clone()) },
            );
            classified(
                LineKind::Question,
                Some(speaker),
                ClassificationConfidence::Explicit,
                true,
                text,
                evidence,
            )
        },
        MarkerKind::Answer => {
            evidence.answer_score = weight;
            let witness = match &state.current_witness {
                Some(speaker) => speaker.clone(),
                None => Speaker {
                    participant_id: Some("witness_unresolved".to_owned()),
                    label: "UNRESOLVED WITNESS".to_owned(),
                    role: SpeakerRole::Witness,
                    redacted: false,
                },
            };
            state.current_witness = Some(witness.clone());
            add_evidence(
                &mut evidence,
                EvidenceSource::KnownWitness,
                70,
                "Answer attributed to primary/known witness for this transcript.",
            );
            let answer = strip_witness_prefix(marker.remainder);
            state.continuation = Some(
                ContinuationContext { kind: LineKind::Answer, speaker: Some(witness.clone()) },
            );
            classified(
                LineKind::Answer,
                Some(witness),
                ClassificationConfidence::Explicit,
                true,
                answer,
                evidence,
            )
        },
    }
}

// ---------------------------------------------------------------------------
// Lines that open with a speaker label
// ---------------------------------------------------------------------------

/// The role that what a speaker says gives away.
pub open spec fn role_from_remainder(remainder: Seq<char>, rules: Seq<MarkerRuleView>) ->
    SpeakerRole {
    match matched_marker(remainder, rules) {
        Some(marker) => match marker.kind {
            MarkerKind::Question => SpeakerRole::Attorney,
            MarkerKind::Answer => SpeakerRole::Witness,
        },
        None => if objects(remainder) {
            SpeakerRole::Attorney
        } else {
            SpeakerRole::Unknown
        },
    }
}

fn infer_role_from_remainder(remainder: &str, context: &TranscriptContext) -> (r: SpeakerRole)
    ensures
        r == role_from_remainder(remainder@, context.deep_view().marker_rules),
{
    match match_marker(remainder, context) {
        Some(marker) => match marker.kind {
            MarkerKind::Question => SpeakerRole::Attorney,
            MarkerKind::Answer => SpeakerRole::Witness,
        },
        None => if looks_like_objection(remainder) {
            SpeakerRole::Attorney
        } else {
            SpeakerRole::Unknown
        },
    }
}

/// The speaker behind a redacted label, by what is said under it.
pub open spec fn redacted_speaker(
    remainder: Seq<char>,
    state: ParserStateView,
    context: TranscriptContextView,
) -> (ParserStateView, SpeakerView) {
    match matched_marker(remainder, context.marker_rules) {
        Some(marker) => match marker.kind {
            MarkerKind::Question => match state.current_questioner {
                Some(current) if current.redacted && current.role == SpeakerRole::Attorney => (
                    state,
                    current,
                ),
                _ => {
                    let (after, speaker) = fresh_attorney(state);
                    (ParserStateView { current_questioner: Some(speaker), ..after }, speaker)
                },
            },
            MarkerKind::Answer => {
                let (after, speaker) = hidden_witness(state);
                (ParserStateView { current_witness: Some(speaker), ..after }, speaker)
            },
        },
        None => if objects(remainder) {
            hidden_objector(state)
        } else {
            match state.continuation {
                Some(ContinuationContextView { kind: _, speaker: Some(speaker) })
                    if speaker.redacted => (state, speaker),
                _ => hidden_stranger(state),
            }
        },
    }
}

fn resolve_redacted_speaker(
    remainder: &str,
    state: &mut ParserState,
    context: &TranscriptContext,
) -> (r: Speaker)
    ensures
        (final(state).deep_view(), r.deep_view()) == redacted_speaker(
            remainder@,
            old(state).deep_view(),
            context.deep_view(),
        ),
{
    match match_marker(remainder, context) {
        Some(marker) => {
            return match marker.kind {
                MarkerKind::Question => {
                    match &state.current_questioner {
                        Some(current) => {
                            if current.redacted && current.role == SpeakerRole::Attorney {
                                return current.clone();
                            }
                        },
                        None => {},
                    }
                    let speaker = state.new_redacted_attorney();
                    state.current_questioner = Some(speaker.clone());
                    speaker
                },
                MarkerKind::Answer => {
                    let speaker = state.redacted_witness();
                    state.current_witness = Some(speaker.clone());
                    speaker
                },
            };
        },
        None => {},
    }
    if looks_like_objection(remainder) {
        return state.redacted_objector();
    }
    match &state.continuation {
        Some(active) => match &active.speaker {
            Some(speaker) => {
                if speaker.redacted {
                    return speaker.clone();
                }
            },
            None => {},
        },
        None => {},
    }
    state.redacted_unknown()
}

/// The speaker that the label of a line stands for.
pub open spec fn prefixed_speaker(
    label: Seq<char>,
    remainder: Seq<char>,
    state: ParserStateView,
    context: TranscriptContextView,
) -> (ParserStateView, SpeakerView) {
    if witness_label(uppercased(trimmed(label))) && state.current_witness is Some {
        (state, state.current_witness->0)
    } else if redacted_label(label) {
        redacted_speaker(remainder, state, context)
    } else {
        (
            state,
            match known_speaker(label, context.participants) {
                Some(speaker) => speaker,
                None => match label_speaker(label) {
                    Some(speaker) => speaker,
                    None => SpeakerView {
                        participant_id: Some(id_of_label(label)),
                        label: trimmed(label),
                        role: role_from_remainder(remainder, context.marker_rules),
                        redacted: false,
                    },
                },
            },
        )
    }
}

fn resolve_prefixed_speaker(
    label: &str,
    remainder: &str,
    state: &mut ParserState,
    context: &TranscriptContext,
) -> (r: Speaker)
    ensures
        (final(state).deep_view(), r.deep_view()) == prefixed_speaker(
            label@,
            remainder@,
            old(state).deep_view(),
            context.deep_view(),
        ),
{
    if is_witness_label(to_upper(trim(label)).as_str()) {
        match &state.current_witness {
            Some(speaker) => {
                return speaker.clone();
            },
            None => {},
        }
    }
    if is_redacted_label(label) {
        return resolve_redacted_speaker(remainder, state, context);
    }
    match resolve_known_speaker(label, context) {
        Some(speaker) => speaker,
        None => match speaker_from_label(label) {
            Some(speaker) => speaker,
            None => Speaker {
                participant_id: Some(label_id(label)),
                label: trim(label).to_owned(),
                role: infer_role_from_remainder(remainder, context),
                redacted: false,
            },
        },
    }
}

/// A statement under a label.
pub open spec fn labelled_statement(
    speaker: SpeakerView,
    text: Seq<char>,
    kind: LineKind,
    state: ParserStateView,
    note: Seq<char>,
) -> (ParserStateView, ClassifiedLineView) {
    (
        continuing(state, kind, Some(speaker)),
        explicit_line(
            kind,
            Some(speaker),
            text,
            with_item(
                ClassificationEvidenceView { statement_score: 92, ..no_evidence() },
                EvidenceSource::SpeakerLabel,
                92,
                note,
            ),
        ),
    )
}

fn set_explicit_statement(
    speaker: Speaker,
    text: &str,
    kind: LineKind,
    state: &mut ParserState,
    note: &str,
) -> (r: ClassifiedLine)
    ensures
        (final(state).deep_view(), r.deep_view()) == labelled_statement(
            speaker.deep_view(),
            text@,
            kind,
            old(state).deep_view(),
            note@,
        ),
{
    state.continuation = Some(ContinuationContext { kind, speaker: Some(speaker.clone()) });
    let mut evidence = ClassificationEvidence::default();
    evidence.statement_score = 92;
    add_evidence(&mut evidence, EvidenceSource::SpeakerLabel, 92, note);
    classified(kind, Some(speaker), ClassificationConfidence::Explicit, true, text, evidence)
}

/// A question, recognised by how it ends, under the label of an attorney.
pub open spec fn attorney_question(
    speaker: SpeakerView,
    text: Seq<char>,
    state: ParserStateView,
) -> (ParserStateView, ClassifiedLineView) {
    (
        continuing(
            ParserStateView { current_questioner: Some(speaker), ..state },
            LineKind::Question,
            Some(speaker),
        ),
        inferred_line(
            LineKind::Question,
            Some(speaker),
            text,
            with_item(
                with_item(
                    ClassificationEvidenceView { question_score: 86, ..no_evidence() },
                    EvidenceSource::SpeakerLabel,
                    80,
                    "Speaker-labelled transcript: known attorney label."@,
                ),
                EvidenceSource::QuestionPunctuation,
                75,
                "Speaker-labelled utterance ends with question punctuation."@,
            ),
        ),
    )
}

/// An objection or a statement under the label of an attorney.
pub open spec fn attorney_statement(
    speaker: SpeakerView,
    text: Seq<char>,
    state: ParserStateView,
) -> (ParserStateView, ClassifiedLineView) {
    let kind = if objects(text) {
        LineKind::Objection
    } else {
        LineKind::AttorneyStatement
    };
    let remembered = if objects(text) && speaker.redacted {
        ParserStateView { redacted_objector: Some(speaker), ..state }
    } else {
        state
    };
    let labelled = with_item(
        with_score(no_evidence(), kind, 92),
        EvidenceSource::SpeakerLabel,
        92,
        "Known/inferred attorney speaker label."@,
    );
    let evidence = if objects(text) {
        with_item(
            labelled,
            EvidenceSource::RoleBehavior,
            100,
            "Objection language strongly supports attorney role."@,
        )
    } else {
        labelled
    };
    (
        continuing(remembered, kind, Some(speaker)),
        explicit_line(kind, Some(speaker), text, evidence),
    )
}

fn classify_attorney(speaker: Speaker, text: &str, state: &mut ParserState) -> (r: ClassifiedLine)
    ensures
        (final(state).deep_view(), r.deep_view()) == if asks(text@) {
            attorney_question(speaker.deep_view(), text@, old(state).deep_view())
        } else {
            attorney_statement(speaker.deep_view(), text@, old(state).deep_view())
        },
{
    let mut evidence = ClassificationEvidence::default();
    if is_asking(text) {
        state.current_questioner = Some(speaker.clone());
        state.continuation = Some(
            ContinuationContext { kind: LineKind::Question, speaker: Some(speaker.clone()) },
        );
        evidence.question_score = 86;
        add_evidence(
            &mut evidence,
            EvidenceSource::SpeakerLabel,
            80,
            "Speaker-labelled transcript: known attorney label.",
        );
        add_evidence(
            &mut evidence,
            EvidenceSource::QuestionPunctuation,
            75,
            "Speaker-labelled utterance ends with question punctuation.",
        );
        return classified(
            LineKind::Question,
            Some(speaker),
            ClassificationConfidence::Inferred,
            true,
            text,
            evidence,
        );
    }
    let objection = looks_like_objection(text);
    let kind = if objection {
        LineKind::Objection
    } else {
        LineKind::AttorneyStatement
    };
    if objection && speaker.redacted {
        state.redacted_objector = Some(speaker.clone());
    }
    state.continuation = Some(ContinuationContext { kind, speaker: Some(speaker.clone()) });
    score_kind(&mut evidence, kind, 92);
    add_evidence(
        &mut evidence,
        EvidenceSource::SpeakerLabel,
        92,
        "Known/inferred attorney speaker label.",
    );
    if objection {
        add_evidence(
            &mut evidence,
            EvidenceSource::RoleBehavior,
            100,
            "Objection language strongly supports attorney role.",
        );
    }
    classified(kind, Some(speaker), ClassificationConfidence::Explicit, true, text, evidence)
}

/// What a witness says under a label: an answer where a question is open, else a statement.
pub open spec fn witness_line(speaker: SpeakerView, text: Seq<char>, state: ParserStateView) -> (
    ParserStateView,
    ClassifiedLineView,
) {
    let heard = ParserStateView { current_witness: Some(speaker), ..state };
    let questioned = match state.continuation {
        Some(active) => active.kind == LineKind::Question,
        None => false,
    };
    if questioned {
        (
            continuing(heard, LineKind::Answer, Some(speaker)),
            inferred_line(
                LineKind::Answer,
                Some(speaker),
                text,
                with_item(
                    with_item(
                        ClassificationEvidenceView { answer_score: 84, ..no_evidence() },
                        EvidenceSource::SpeakerLabel,
                        80,
                        "Speaker-labelled transcript: known witness label."@,
                    ),
                    EvidenceSource::PreviousLine,
                    70,
                    "Witness utterance immediately follows active question."@,
                ),
            ),
        )
    } else {
        labelled_statement(
            speaker,
            text,
            LineKind::WitnessStatement,
            heard,
            "Known/inferred witness speaker label."@,
        )
    }
}

fn classify_witness(speaker: Speaker, text: &str, state: &mut ParserState) -> (r: ClassifiedLine)
    ensures
        (final(state).deep_view(), r.deep_view()) == witness_line(
            speaker.deep_view(),
            text@,
            old(state).deep_view(),
        ),
{
    state.current_witness = Some(speaker.clone());
    let questioned = match &state.continuation {
        Some(active) => active.kind == LineKind::Question,
        None => false,
    };
    if questioned {
        state.continuation = Some(
            ContinuationContext { kind: LineKind::Answer, speaker: Some(speaker.clone()) },
        );
        let mut evidence = ClassificationEvidence::default();
        evidence.answer_score = 84;
        add_evidence(
            &mut evidence,
            EvidenceSource::SpeakerLabel,
            80,
            "Speaker-labelled transcript: known witness label.",
        );
        add_evidence(
            &mut evidence,
            EvidenceSource::PreviousLine,
            70,
            "Witness utterance immediately follows active question.",
        );
        return classified(
            LineKind::Answer,
            Some(speaker),
            ClassificationConfidence::Inferred,
            true,
            text,
            evidence,
        );
    }
    set_explicit_statement(
        speaker,
        text,
        LineKind::WitnessStatement,
        state,
        "Known/inferred witness speaker label.",
    )
}

/// What a speaker of unknown role says under a label.
pub open spec fn stranger_line(speaker: SpeakerView, text: Seq<char>, state: ParserStateView) -> (
    ParserStateView,
    ClassifiedLineView,
) {
    if asks(text) {
        (
            continuing(
                ParserStateView { current_questioner: Some(speaker), ..state },
                LineKind::Question,
                Some(speaker),
            ),
            inferred_line(
                LineKind::Question,
                Some(speaker),
                text,
                with_item(
                    with_item(
                        ClassificationEvidenceView { question_score: 78, ..no_evidence() },
                        EvidenceSource::QuestionPunctuation,
                        72,
                        "Unmarked speaker-labelled utterance ends in a question."@,
                    ),
                    EvidenceSource::RoleBehavior,
                    65,
                    "Question behavior supports examiner/attorney role."@,
                ),
            ),
        )
    } else {
        (
            continuing(state, LineKind::SpeakerStatement, Some(speaker)),
            explicit_line(
                LineKind::SpeakerStatement,
                Some(speaker),
                text,
                with_item(
                    ClassificationEvidenceView { statement_score: 45, ..no_evidence() },
                    EvidenceSource::SpeakerLabel,
                    45,
                    "Speaker label detected, but role is unresolved."@,
                ),
            ),
        )
    }
}

fn classify_stranger(speaker: Speaker, text: &str, state: &mut ParserState) -> (r: ClassifiedLine)
    ensures
        (final(state).deep_view(), r.deep_view()) == stranger_line(
            speaker.deep_view(),
            text@,
            old(state).deep_view(),
        ),
{
    let mut evidence = ClassificationEvidence::default();
    if is_asking(text) {
        state.current_questioner = Some(speaker.clone());
        state.continuation = Some(
            ContinuationContext { kind: LineKind::Question, speaker: Some(speaker.clone()) },
        );
        evidence.question_score = 78;
        add_evidence(
            &mut evidence,
            EvidenceSource::QuestionPunctuation,
            72,
            "Unmarked speaker-labelled utterance ends in a question.",
        );
        add_evidence(
            &mut evidence,
            EvidenceSource::RoleBehavior,
            65,
            "Question behavior supports examiner/attorney role.",
        );
        return classified(
            LineKind::Question,
            Some(speaker),
            ClassificationConfidence::Inferred,
            true,
            text,
            evidence,
        );
    }
    state.continuation = Some(
        ContinuationContext { kind: LineKind::SpeakerStatement, speaker: Some(speaker.clone()) },
    );
    evidence.statement_score = 45;
    add_evidence(
        &mut evidence,
        EvidenceSource::SpeakerLabel,
        45,
        "Speaker label detected, but role is unresolved.",
    );
    classified(
        LineKind::SpeakerStatement,
        Some(speaker),
        ClassificationConfidence::Explicit,
        true,
        text,
        evidence,
    )
}

/// The marker that a line opens with, bare letters left aside.
pub open spec fn punctuated_marker(text: Seq<char>, rules: Seq<MarkerRuleView>) -> Option<
    MarkerMatchView,
> {
    match matched_marker(text, rules) {
        Some(marker) if marker.style != MarkerStyle::BareUppercase => Some(marker),
        _ => None,
    }
}

/// A labelled line whose text opens with a marker.
pub open spec fn anchored_marker_line(
    speaker: SpeakerView,
    marker: MarkerMatchView,
    state: ParserStateView,
) -> (ParserStateView, ClassifiedLineView) {
    let kind = marked_kind(marker.kind);
    let evidence = with_item(
        anchored_marker_evidence(marker),
        EvidenceSource::SpeakerLabel,
        90,
        "Validated speaker anchor prefixes an established Q/A marker."@,
    );
    (
        continuing(
            match marker.kind {
                MarkerKind::Question => ParserStateView {
                    current_questioner: Some(speaker),
                    ..state
                },
                MarkerKind::Answer => ParserStateView { current_witness: Some(speaker), ..state },
            },
            kind,
            Some(speaker),
        ),
        explicit_line(kind, Some(speaker), marker.remainder, evidence),
    )
}

/// A line that opens with the label of a speaker. Labels and markers are separate channels:
/// a labelled "A what?" stays ordinary text, and only a punctuated marker behind a label
/// makes it a question or an answer.
pub open spec fn labelled_line(
    speaker: SpeakerView,
    text: Seq<char>,
    state: ParserStateView,
    context: TranscriptContextView,
) -> (ParserStateView, ClassifiedLineView) {
    match punctuated_marker(text, context.marker_rules) {
        Some(marker) => anchored_marker_line(speaker, marker, state),
        None => match speaker.role {
            SpeakerRole::Attorney => if asks(text) {
                attorney_question(speaker, text, state)
            } else {
                attorney_statement(speaker, text, state)
            },
            SpeakerRole::Witness => witness_line(speaker, text, state),
            SpeakerRole::Interpreter => labelled_statement(
                speaker,
                text,
                LineKind::InterpreterStatement,
                state,
                "Interpreter speaker label."@,
            ),
            SpeakerRole::CourtReporter => labelled_statement(
                speaker,
                text,
                LineKind::ReporterStatement,
                state,
                "Court reporter speaker label."@,
            ),
            SpeakerRole::Judge => labelled_statement(
                speaker,
                text,
                LineKind::JudgeStatement,
                state,
                "Judge/court speaker label."@,
            ),
            SpeakerRole::Videographer => labelled_statement(
                speaker,
                text,
                LineKind::VideographerStatement,
                state,
                "Videographer speaker label."@,
            ),
            SpeakerRole::Unknown => stranger_line(speaker, text, state),
        },
    }
}

fn classify_prefixed_speaker(
    speaker: Speaker,
    remainder: &str,
    state: &mut ParserState,
    context: &TranscriptContext,
) -> (r: ClassifiedLine)
    ensures
        (final(state).deep_view(), r.deep_view()) == labelled_line(
            speaker.deep_view(),
            remainder@,
            old(state).deep_view(),
            context.deep_view(),
        ),
{
    match match_marker(remainder, context) {
        Some(marker) => {
            if marker.style != MarkerStyle::BareUppercase {
                let kind = kind_of_marker(marker.kind);
                let mut evidence = marker_evidence(&marker);
                add_evidence(
                    &mut evidence,
                    EvidenceSource::SpeakerLabel,
                    90,
                    "Validated speaker anchor prefixes an established Q/A marker.",
                );
                match marker.kind {
                    MarkerKind::Question => {
                        state.current_questioner = Some(speaker.clone());
                    },
                    MarkerKind::Answer => {
                        state.current_witness = Some(speaker.clone());
                    },
                }
                state.continuation = Some(
                    ContinuationContext { kind, speaker: Some(speaker.clone()) },
                );
                return classified(
                    kind,
                    Some(speaker),
                    ClassificationConfidence::Explicit,
                    true,
                    marker.remainder,
                    evidence,
                );
            }
        },
        None => {},
    }
    match speaker.role {
        SpeakerRole::Attorney => classify_attorney(speaker, remainder, state),
        SpeakerRole::Witness => classify_witness(speaker, remainder, state),
        SpeakerRole::Interpreter => set_explicit_statement(
            speaker,
            remainder,
            LineKind::InterpreterStatement,
            state,
            "Interpreter speaker label.",
        ),
        SpeakerRole::CourtReporter => set_explicit_statement(
            speaker,
            remainder,
            LineKind::ReporterStatement,
            state,
            "Court reporter speaker label.",
        ),
        SpeakerRole::Judge => set_explicit_statement(
            speaker,
            remainder,
            LineKind::JudgeStatement,
            state,
            "Judge/court speaker label.",
        ),
        SpeakerRole::Videographer => set_explicit_statement(
            speaker,
            remainder,
            LineKind::VideographerStatement,
            state,
            "Videographer speaker label.",
        ),
        SpeakerRole::Unknown => classify_stranger(speaker, remainder, state),
    }
}

// ---------------------------------------------------------------------------
// Any line
// ---------------------------------------------------------------------------

/// A line that introduces a witness: it opens a new scope of testimony.
pub open spec fn introduction_line(
    label: Seq<char>,
    content: Seq<char>,
    state: ParserStateView,
    context: TranscriptContextView,
) -> (ParserStateView, ClassifiedLineView) {
    let speaker = SpeakerView {
        role: SpeakerRole::Witness,
        ..match known_speaker(label, context.participants) {
            Some(known) => known,
            None => named_speaker(label, SpeakerRole::Witness),
        }
    };
    (
        ParserStateView {
            current_witness: Some(speaker),
            current_questioner: None,
            continuation: None,
            ..state
        },
        explicit_line(
            LineKind::Heading,
            Some(speaker),
            content,
            structural_evidence("Explicit witness introduction starts a new testimony scope."@),
        ),
    )
}

fn classify_introduction(
    label: &str,
    content: &str,
    state: &mut ParserState,
    context: &TranscriptContext,
) -> (r: ClassifiedLine)
    ensures
        (final(state).deep_view(), r.deep_view()) == introduction_line(
            label@,
            content@,
            old(state).deep_view(),
            context.deep_view(),
        ),
{
    let mut speaker = match resolve_known_speaker(label, context) {
        Some(known) => known,
        None => speaker_named(label, SpeakerRole::Witness),
    };
    speaker.role = SpeakerRole::Witness;
    state.current_witness = Some(speaker.clone());
    state.current_questioner = None;
    state.continuation = None;
    classified(
        LineKind::Heading,
        Some(speaker),
        ClassificationConfidence::Explicit,
        true,
        content,
        explicit_structural_evidence("Explicit witness introduction starts a new testimony scope."),
    )
}

/// A heading that names the examiner.
pub open spec fn examiner_line(examiner: SpeakerView, content: Seq<char>, state: ParserStateView) ->
    (ParserStateView, ClassifiedLineView) {
    (
        ParserStateView { current_questioner: Some(examiner), continuation: None, ..state },
        explicit_line(
            LineKind::ExaminationHeading,
            Some(examiner),
            content,
            with_item(
                structural_evidence("Examination heading identifies examiner."@),
                EvidenceSource::CurrentExaminer,
                100,
                "Current examiner established by BY heading."@,
            ),
        ),
    )
}

fn classify_examiner(examiner: Speaker, content: &str, state: &mut ParserState) -> (r:
    ClassifiedLine)
    ensures
        (final(state).deep_view(), r.deep_view()) == examiner_line(
            examiner.deep_view(),
            content@,
            old(state).deep_view(),
        ),
{
    state.current_questioner = Some(examiner.clone());
    state.continuation = None;
    let mut evidence = explicit_structural_evidence("Examination heading identifies examiner.");
    add_evidence(
        &mut evidence,
        EvidenceSource::CurrentExaminer,
        100,
        "Current examiner established by BY heading.",
    );
    classified(
        LineKind::ExaminationHeading,
        Some(examiner),
        ClassificationConfidence::Explicit,
        true,
        content,
        evidence,
    )
}

/// A line that opens a parenthetical.
pub open spec fn parenthetical_line(content: Seq<char>, state: ParserStateView) -> (
    ParserStateView,
    ClassifiedLineView,
) {
    let kind = if marks_exhibit(content) {
        LineKind::ExhibitMarker
    } else {
        LineKind::Parenthetical
    };
    (
        if closes_parenthetical(content) {
            broken_off(state)
        } else {
            continuing(state, kind, None)
        },
        explicit_line(
            kind,
            None,
            content,
            structural_evidence("Recognized parenthetical/exhibit event."@),
        ),
    )
}

fn classify_parenthetical(content: &str, state: &mut ParserState) -> (r: ClassifiedLine)
    ensures
        (final(state).deep_view(), r.deep_view()) == parenthetical_line(
            content@,
            old(state).deep_view(),
        ),
{
    let kind = if is_exhibit_marker(content) {
        LineKind::ExhibitMarker
    } else {
        LineKind::Parenthetical
    };
    if parenthetical_is_closed(content) {
        state.continuation = None;
    } else {
        state.continuation = Some(ContinuationContext { kind, speaker: None });
    }
    classified(
        kind,
        None,
        ClassificationConfidence::Explicit,
        true,
        content,
        explicit_structural_evidence("Recognized parenthetical/exhibit event."),
    )
}

/// A line with neither label nor marker: a redaction, an objection, a heading, or else the
/// continuation of the active turn. What is none of these stays unknown.
pub open spec fn unmarked_line(content: Seq<char>, state: ParserStateView) -> (
    ParserStateView,
    ClassifiedLineView,
) {
    if pure_redaction(content) {
        (
            broken_off(state),
            explicit_line(
                LineKind::RedactionMarker,
                None,
                content,
                with_item(
                    no_evidence(),
                    EvidenceSource::Redaction,
                    100,
                    "Source line consists of a redaction/sealed marker."@,
                ),
            ),
        )
    } else if objects(content) {
        (
            continuing(state, LineKind::Objection, None),
            explicit_line(
                LineKind::Objection,
                None,
                content,
                with_item(
                    ClassificationEvidenceView { objection_score: 100, ..no_evidence() },
                    EvidenceSource::RoleBehavior,
                    100,
                    "Text explicitly contains objection language."@,
                ),
            ),
        )
    } else if general_heading(content) {
        (
            broken_off(state),
            explicit_line(
                LineKind::Heading,
                None,
                content,
                structural_evidence("Recognized transcript heading."@),
            ),
        )
    } else {
        match state.continuation {
            Some(active) => {
                let parenthetical = active.kind == LineKind::Parenthetical || active.kind
                    == LineKind::ExhibitMarker;
                (
                    if parenthetical && closes_parenthetical(content) {
                        broken_off(state)
                    } else {
                        state
                    },
                    ClassifiedLineView {
                        starts_new_block: false,
                        ..inferred_line(
                            active.kind,
                            active.speaker,
                            content,
                            with_item(
                                with_score(no_evidence(), active.kind, 72),
                                EvidenceSource::PreviousLine,
                                72,
                                "Unmarked row continues the active speaker turn; source boundaries are retained."@,
                            ),
                        )
                    },
                )
            },
            None => (
                state,
                ClassifiedLineView {
                    confidence: ClassificationConfidence::Unknown,
                    ..explicit_line(LineKind::Unknown, None, content, no_evidence())
                },
            ),
        }
    }
}

fn classify_unmarked(content: &str, state: &mut ParserState) -> (r: ClassifiedLine)
    ensures
        (final(state).deep_view(), r.deep_view()) == unmarked_line(
            content@,
            old(state).deep_view(),
        ),
{
    if is_pure_redaction_marker(content) {
        state.continuation = None;
        let mut evidence = ClassificationEvidence::default();
        add_evidence(
            &mut evidence,
            EvidenceSource::Redaction,
            100,
            "Source line consists of a redaction/sealed marker.",
        );
        return classified(
            LineKind::RedactionMarker,
            None,
            ClassificationConfidence::Explicit,
            true,
            content,
            evidence,
        );
    }
    if looks_like_objection(content) {
        state.continuation = Some(
            ContinuationContext { kind: LineKind::Objection, speaker: None },
        );
        let mut evidence = ClassificationEvidence::default();
        evidence.objection_score = 100;
        add_evidence(
            &mut evidence,
            EvidenceSource::RoleBehavior,
            100,
            "Text explicitly contains objection language.",
        );
        return classified(
            LineKind::Objection,
            None,
            ClassificationConfidence::Explicit,
            true,
            content,
            evidence,
        );
    }
    if is_general_heading(content) {
        state.continuation = None;
        return classified(
            LineKind::Heading,
            None,
            ClassificationConfidence::Explicit,
            true,
            content,
            explicit_structural_evidence("Recognized transcript heading."),
        );
    }
    match state.continuation.clone() {
        Some(active) => {
            if (active.kind == LineKind::Parenthetical || active.kind == LineKind::ExhibitMarker)
                && parenthetical_is_closed(content) {
                state.continuation = None;
            }
            let mut evidence = ClassificationEvidence::default();
            score_kind(&mut evidence, active.kind, 72);
            add_evidence(
                &mut evidence,
                EvidenceSource::PreviousLine,
                72,
                "Unmarked row continues the active speaker turn; source boundaries are retained.",
            );
            classified(
                active.kind,
                active.speaker,
                ClassificationConfidence::Inferred,
                false,
                content,
                evidence,
            )
        },
        None => classified(
            LineKind::Unknown,
            None,
            ClassificationConfidence::Unknown,
            true,
            content,
            ClassificationEvidence::default(),
        ),
    }
}

/// What a line is, and what is remembered after it.
pub open spec fn line_class(
    text: Seq<char>,
    state: ParserStateView,
    context: TranscriptContextView,
    allow_bare_marker: bool,
) -> (ParserStateView, ClassifiedLineView) {
    let content = trimmed(text);
    let examiner = heading_examiner(content, state, context);
    if introduced_witness(content) is Some {
        introduction_line(introduced_witness(content)->0, content, state, context)
    } else if examiner is Some {
        examiner_line((examiner->0).1, content, (examiner->0).0)
    } else if examination_heading(content) {
        (
            broken_off(state),
            explicit_line(
                LineKind::ExaminationHeading,
                None,
                content,
                structural_evidence("Recognized examination heading."@),
            ),
        )
    } else if labelled_turn(content) is Some {
        let (label, remainder) = labelled_turn(content)->0;
        let (after, speaker) = prefixed_speaker(label, remainder, state, context);
        labelled_line(speaker, remainder, after, context)
    } else if opens_parenthetical(content) {
        parenthetical_line(content, state)
    } else {
        match matched_marker(content, context.marker_rules) {
            Some(marker) if marker.style != MarkerStyle::BareUppercase
                || allow_bare_marker => marked_line(marker, state, context),
            _ => unmarked_line(content, state),
        }
    }
}

/// Classifies a line.
pub fn classify_line(
    text: &str,
    state: &mut ParserState,
    context: &TranscriptContext,
    allow_bare_marker: bool,
) -> (r: ClassifiedLine)
    ensures
        (final(state).deep_view(), r.deep_view()) == line_class(
            text@,
            old(state).deep_view(),
            context.deep_view(),
            allow_bare_marker,
        ),
{
    let content = trim(text);
    match witness_introduction(content) {
        Some(label) => {
            return classify_introduction(label, content, state, context);
        },
        None => {},
    }
    match parse_by_heading(content, state, context) {
        Some(examiner) => {
            return classify_examiner(examiner, content, state);
        },
        None => {},
    }
    if is_examination_heading(content) {
        state.continuation = None;
        return classified(
            LineKind::ExaminationHeading,
            None,
            ClassificationConfidence::Explicit,
            true,
            content,
            explicit_structural_evidence("Recognized examination heading."),
        );
    }
    match split_any_speaker_prefix(content) {
        Some((label, remainder)) => {
            let speaker = resolve_prefixed_speaker(label, remainder, state, context);
            return classify_prefixed_speaker(speaker, remainder, state, context);
        },
        None => {},
    }
    if is_parenthetical_start(content) {
        return classify_parenthetical(content, state);
    }
    match match_marker(content, context) {
        Some(marker) => {
            if marker.style != MarkerStyle::BareUppercase || allow_bare_marker {
                return classify_explicit_marker(marker, state, context);
            }
        },
        None => {},
    }
    classify_unmarked(content, state)
}

/// An introduction changes the witness: it ends the examination before it, and the answers
/// that are marked after it, whoever answered before, are those of the witness introduced.
pub proof fn law_introduction_changes_witness(
    text: Seq<char>,
    state: ParserStateView,
    context: TranscriptContextView,
    allow_bare_marker: bool,
    answer: MarkerMatchView,
)
    requires
        introduced_witness(trimmed(text)) is Some,
        answer.kind == MarkerKind::Answer,
    ensures
        ({
            let after = line_class(text, state, context, allow_bare_marker).0;
            let label = introduced_witness(trimmed(text))->0;
            &&& after.current_questioner is None
            &&& after.continuation is None
            &&& after.current_witness matches Some(w) && w.role == SpeakerRole::Witness
            &&& known_speaker(label, context.participants) is None ==> after.current_witness == Some(
                named_speaker(label, SpeakerRole::Witness),
            )
            &&& marked_line(answer, after, context).1.speaker == after.current_witness
        }),
{
}

} // verus!
