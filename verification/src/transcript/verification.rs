//! Lines held against their source.
use vstd::prelude::*;

use crate::measure::Ratio;
use crate::pieces::{split_at_first, split_once};
use crate::scan::{
    any_char, any_within, contains, count_chars, count_within, has_infix, has_prefix, starts_with,
    to_upper, trim, trimmed, uppercased,
};
use crate::text::{byte_len, clone_option, len_bytes, push_item, CharClass};
use crate::transcript::classify::{kind_of_marker, marked_kind};
use crate::transcript::format::{numbered_line, parse_numbered_line};
use crate::transcript::markers::{detect_marker_candidate, marker_candidate};
use crate::transcript::models::{
    participant_with_id, ClassificationConfidence, EvidenceItemView, EvidenceSource, LineKind,
    MarkerKind, MarkerStyle, SpeakerRole, TranscriptContext, TranscriptContextView, TranscriptLine,
    TranscriptLineView, VerificationIssue, VerificationIssueView, VerificationStatus,
};
use crate::transcript::profile::TranscriptProfile;
use crate::transcript::speaker::{
    contains_redaction_marker, is_pure_redaction_marker, labelled_turn, mentions_redaction,
    pure_redaction, split_any_speaker_prefix,
};

verus! {

/// The name of a kind of line.
pub open spec fn kind_name(kind: LineKind) -> Seq<char> {
    match kind {
        LineKind::Question => "Question"@,
        LineKind::Answer => "Answer"@,
        LineKind::Objection => "Objection"@,
        LineKind::AttorneyStatement => "AttorneyStatement"@,
        LineKind::SpeakerStatement => "SpeakerStatement"@,
        LineKind::WitnessStatement => "WitnessStatement"@,
        LineKind::InterpreterStatement => "InterpreterStatement"@,
        LineKind::ReporterStatement => "ReporterStatement"@,
        LineKind::JudgeStatement => "JudgeStatement"@,
        LineKind::VideographerStatement => "VideographerStatement"@,
        LineKind::ExhibitMarker => "ExhibitMarker"@,
        LineKind::Parenthetical => "Parenthetical"@,
        LineKind::ExaminationHeading => "ExaminationHeading"@,
        LineKind::Heading => "Heading"@,
        LineKind::RedactionMarker => "RedactionMarker"@,
        LineKind::PageHeader => "PageHeader"@,
        LineKind::Unknown => "Unknown"@,
    }
}

fn name_of_kind(kind: LineKind) -> (r: &'static str)
    ensures
        r@ == kind_name(kind),
{
    match kind {
        LineKind::Question => "Question",
        LineKind::Answer => "Answer",
        LineKind::Objection => "Objection",
        LineKind::AttorneyStatement => "AttorneyStatement",
        LineKind::SpeakerStatement => "SpeakerStatement",
        LineKind::WitnessStatement => "WitnessStatement",
        LineKind::InterpreterStatement => "InterpreterStatement",
        LineKind::ReporterStatement => "ReporterStatement",
        LineKind::JudgeStatement => "JudgeStatement",
        LineKind::VideographerStatement => "VideographerStatement",
        LineKind::ExhibitMarker => "ExhibitMarker",
        LineKind::Parenthetical => "Parenthetical",
        LineKind::ExaminationHeading => "ExaminationHeading",
        LineKind::Heading => "Heading",
        LineKind::RedactionMarker => "RedactionMarker",
        LineKind::PageHeader => "PageHeader",
        LineKind::Unknown => "Unknown",
    }
}

/// The name of a role.
pub open spec fn role_title(role: SpeakerRole) -> Seq<char> {
    match role {
        SpeakerRole::Witness => "Witness"@,
        SpeakerRole::Attorney => "Attorney"@,
        SpeakerRole::Interpreter => "Interpreter"@,
        SpeakerRole::CourtReporter => "CourtReporter"@,
        SpeakerRole::Judge => "Judge"@,
        SpeakerRole::Videographer => "Videographer"@,
        SpeakerRole::Unknown => "Unknown"@,
    }
}

fn title_of_role(role: SpeakerRole) -> (r: &'static str)
    ensures
        r@ == role_title(role),
{
    match role {
        SpeakerRole::Witness => "Witness",
        SpeakerRole::Attorney => "Attorney",
        SpeakerRole::Interpreter => "Interpreter",
        SpeakerRole::CourtReporter => "CourtReporter",
        SpeakerRole::Judge => "Judge",
        SpeakerRole::Videographer => "Videographer",
        SpeakerRole::Unknown => "Unknown",
    }
}

/// How far a line agrees with its source by how it was classified.
pub open spec fn first_verdict(line: TranscriptLineView) -> VerificationStatus {
    if pure_redaction(line.text) || mentions_redaction(line.raw_text) {
        if line.kind == LineKind::RedactionMarker {
            VerificationStatus::Redacted
        } else {
            VerificationStatus::VerifiedWithInference
        }
    } else {
        match line.confidence {
            ClassificationConfidence::Explicit => VerificationStatus::Verified,
            ClassificationConfidence::Inferred => VerificationStatus::VerifiedWithInference,
            ClassificationConfidence::Unknown => VerificationStatus::Uncertain,
        }
    }
}

fn judge_first(line: &TranscriptLine) -> (r: VerificationStatus)
    ensures
        r == first_verdict(line.deep_view()),
{
    if is_pure_redaction_marker(line.text.as_str()) || contains_redaction_marker(
        line.raw_text.as_str(),
    ) {
        if line.kind == LineKind::RedactionMarker {
            VerificationStatus::Redacted
        } else {
            VerificationStatus::VerifiedWithInference
        }
    } else {
        match line.confidence {
            ClassificationConfidence::Explicit => VerificationStatus::Verified,
            ClassificationConfidence::Inferred => VerificationStatus::VerifiedWithInference,
            ClassificationConfidence::Unknown => VerificationStatus::Uncertain,
        }
    }
}

/// What the source says on a line, without its number and speaker label.
pub open spec fn raw_content(line: TranscriptLineView, max: u16) -> Seq<char> {
    let raw = trimmed(line.raw_text);
    let body = if line.line_number is Some {
        numbered_line(raw, max).1
    } else {
        raw
    };
    match labelled_turn(body) {
        Some((_, text)) => text,
        None => body,
    }
}

fn content_of_raw(line: &TranscriptLine, max: u16) -> (r: &str)
    ensures
        r@ == raw_content(line.deep_view(), max),
{
    let raw = trim(line.raw_text.as_str());
    let body = if line.line_number.is_some() {
        parse_numbered_line(raw, max).1
    } else {
        raw
    };
    match split_any_speaker_prefix(body) {
        Some((_, text)) => text,
        None => body,
    }
}

/// Whether the evidence for a line rests on a marker.
pub open spec fn marker_evidenced(items: Seq<EvidenceItemView>) -> bool {
    exists|i: int|
        0 <= i < items.len() && (#[trigger] items[i]).source == EvidenceSource::ExplicitMarker
}

fn has_marker_evidence(line: &TranscriptLine) -> (r: bool)
    ensures
        r == marker_evidenced(line.deep_view().evidence.items),
{
    let ghost items = line.deep_view().evidence.items;
    for i in 0..line.evidence.items.len()
        invariant
            items == line.evidence.items.deep_view(),
            forall|j: int|
                0 <= j < i ==> (#[trigger] items[j]).source != EvidenceSource::ExplicitMarker,
    {
        assert(items[i as int] == line.evidence.items@[i as int].deep_view());
        if line.evidence.items[i].source == EvidenceSource::ExplicitMarker {
            return true;
        }
    }
    false
}

/// The marker that the source shows on a line and that the classification contradicts. A
/// bare letter counts only where it was taken for a marker.
pub open spec fn contradicted_marker(line: TranscriptLineView, max: u16) -> Option<Seq<char>> {
    match marker_candidate(raw_content(line, max)) {
        Some((kind, style, pattern)) => if (style != MarkerStyle::BareUppercase || marker_evidenced(
            line.evidence.items,
        )) && line.kind != marked_kind(kind) {
            Some(pattern)
        } else {
            None
        },
        None => None,
    }
}

fn find_contradicted_marker(line: &TranscriptLine, max: u16) -> (r: Option<&'static str>)
    ensures
        r.deep_view() == contradicted_marker(line.deep_view(), max),
{
    match detect_marker_candidate(content_of_raw(line, max)) {
        Some((kind, style, pattern)) => if (style != MarkerStyle::BareUppercase
            || has_marker_evidence(line)) && line.kind != kind_of_marker(kind) {
            Some(pattern)
        } else {
            None
        },
        None => None,
    }
}

/// The role that a participant is registered with and that a line contradicts.
pub open spec fn contradicted_role(line: TranscriptLineView, context: TranscriptContextView) ->
    Option<(SpeakerRole, SpeakerRole)> {
    match line.speaker {
        Some(speaker) => match speaker.participant_id {
            Some(id) => match participant_with_id(context.participants, id) {
                Some(participant) => if participant.role != SpeakerRole::Unknown && speaker.role
                    != SpeakerRole::Unknown && participant.role != speaker.role {
                    Some((speaker.role, participant.role))
                } else {
                    None
                },
                None => None,
            },
            None => None,
        },
        None => None,
    }
}

fn find_contradicted_role(line: &TranscriptLine, context: &TranscriptContext) -> (r: Option<
    (SpeakerRole, SpeakerRole),
>)
    ensures
        r.deep_view() == contradicted_role(line.deep_view(), context.deep_view()),
{
    match &line.speaker {
        Some(speaker) => match &speaker.participant_id {
            Some(id) => match context.participant_by_id(id.as_str()) {
                Some(participant) => if participant.role != SpeakerRole::Unknown && speaker.role
                    != SpeakerRole::Unknown && participant.role != speaker.role {
                    Some((speaker.role, participant.role))
                } else {
                    None
                },
                None => None,
            },
            None => None,
        },
        None => None,
    }
}

/// An issue with a line.
pub open spec fn line_issue(line: TranscriptLineView, code: Seq<char>, message: Seq<char>) ->
    VerificationIssueView {
    VerificationIssueView {
        physical_page: line.physical_page,
        transcript_page: line.transcript_page,
        line_number: line.line_number,
        code,
        message,
    }
}

fn issue(line: &TranscriptLine, code: &str, message: String) -> (r: VerificationIssue)
    ensures
        r.deep_view() == line_issue(line.deep_view(), code@, message@),
{
    VerificationIssue {
        physical_page: line.physical_page,
        transcript_page: clone_option(&line.transcript_page),
        line_number: line.line_number,
        code: code.to_owned(),
        message,
    }
}

/// The issues with a line.
pub open spec fn line_issues(line: TranscriptLineView, context: TranscriptContextView, max: u16) ->
    Seq<VerificationIssueView> {
    if line.kind == LineKind::PageHeader {
        seq![]
    } else {
        let none = Seq::<VerificationIssueView>::empty();
        let marker = match contradicted_marker(line, max) {
            Some(pattern) => none.push(
                line_issue(
                    line,
                    "explicit_marker_conflict"@,
                    "Source contains explicit marker "@ + pattern
                        + ", but parser classified the line as "@ + kind_name(line.kind) + "."@,
                ),
            ),
            None => none,
        };
        match contradicted_role(line, context) {
            Some((spoken, registered)) => marker.push(
                line_issue(
                    line,
                    "participant_role_conflict"@,
                    "Speaker role "@ + role_title(spoken)
                        + " disagrees with participant registry role "@ + role_title(registered)
                        + "."@,
                ),
            ),
            None => marker,
        }
    }
}

/// How far a line agrees with its source. A redacted speaker and an unknown line are never
/// more than uncertain.
pub open spec fn verdict(line: TranscriptLineView, context: TranscriptContextView, max: u16) ->
    VerificationStatus {
    let conflict = contradicted_marker(line, max) is Some || contradicted_role(line, context)
        is Some;
    if line.kind == LineKind::PageHeader {
        VerificationStatus::Verified
    } else if line.speaker matches Some(s) && s.redacted {
        VerificationStatus::Uncertain
    } else if conflict {
        VerificationStatus::Conflict
    } else if line.kind == LineKind::Unknown {
        VerificationStatus::Uncertain
    } else {
        first_verdict(line)
    }
}

/// A line with its verdict.
pub open spec fn verified_line(line: TranscriptLineView, context: TranscriptContextView, max: u16) ->
    TranscriptLineView {
    TranscriptLineView { verification: verdict(line, context, max), ..line }
}

fn verify_line(
    line: &mut TranscriptLine,
    context: &TranscriptContext,
    max: u16,
    issues: &mut Vec<VerificationIssue>,
)
    ensures
        final(line).deep_view() == verified_line(old(line).deep_view(), context.deep_view(), max),
        final(issues).deep_view() == old(issues).deep_view() + line_issues(
            old(line).deep_view(),
            context.deep_view(),
            max,
        ),
{
    let ghost before = issues.deep_view();
    if line.kind == LineKind::PageHeader {
        line.verification = VerificationStatus::Verified;
        assert(issues.deep_view() =~= before + line_issues(
            old(line).deep_view(),
            context.deep_view(),
            max,
        ));
        return;
    }
    let mut status = judge_first(line);
    match find_contradicted_marker(line, max) {
        Some(pattern) => {
            status = VerificationStatus::Conflict;
            let message = "Source contains explicit marker ".to_owned().concat(pattern).concat(
                ", but parser classified the line as ",
            ).concat(name_of_kind(line.kind)).concat(".");
            push_item(issues, issue(line, "explicit_marker_conflict", message));
        },
        None => {},
    }
    match find_contradicted_role(line, context) {
        Some((spoken, registered)) => {
            status = VerificationStatus::Conflict;
            let message = "Speaker role ".to_owned().concat(title_of_role(spoken)).concat(
                " disagrees with participant registry role ",
            ).concat(title_of_role(registered)).concat(".");
            push_item(issues, issue(line, "participant_role_conflict", message));
        },
        None => {},
    }
    let redacted = match &line.speaker {
        Some(speaker) => speaker.redacted,
        None => false,
    };
    if redacted || (line.kind == LineKind::Unknown && status != VerificationStatus::Conflict) {
        status = VerificationStatus::Uncertain;
    }
    assert(issues.deep_view() =~= before + line_issues(
        old(line).deep_view(),
        context.deep_view(),
        max,
    ));
    line.verification = status;
}

/// Lines with their verdicts.
pub open spec fn verified_lines(
    lines: Seq<TranscriptLineView>,
    context: TranscriptContextView,
    max: u16,
) -> Seq<TranscriptLineView> {
    Seq::new(lines.len(), |i: int| verified_line(lines[i], context, max))
}

/// The issues with the first `n` lines, in order.
pub open spec fn issues_of(
    lines: Seq<TranscriptLineView>,
    context: TranscriptContextView,
    max: u16,
    n: int,
) -> Seq<VerificationIssueView>
    decreases n,
{
    if n <= 0 {
        seq![]
    } else {
        issues_of(lines, context, max, n - 1) + line_issues(lines[n - 1], context, max)
    }
}

pub fn verify_transcript_lines(
    lines: &mut Vec<TranscriptLine>,
    context: &TranscriptContext,
    profile: &TranscriptProfile,
) -> (r: Vec<VerificationIssue>)
    ensures
        final(lines).deep_view() == verified_lines(
            old(lines).deep_view(),
            context.deep_view(),
            profile.deep_view().max_line_number,
        ),
        r.deep_view() == issues_of(
            old(lines).deep_view(),
            context.deep_view(),
            profile.deep_view().max_line_number,
            old(lines).deep_view().len() as int,
        ),
{
    let ghost before = lines.deep_view();
    let ghost view = context.deep_view();
    let max = profile.max_line_number;
    let mut issues: Vec<VerificationIssue> = Vec::new();
    assert(issues.deep_view() =~= seq![]);
    let count = lines.len();
    for i in 0..count
        invariant
            count == lines@.len(),
            count == before.len(),
            view == context.deep_view(),
            issues.deep_view() == issues_of(before, view, max, i as int),
            forall|j: int|
                0 <= j < count ==> (#[trigger] lines.deep_view()[j]) == if j < i {
                    verified_line(before[j], view, max)
                } else {
                    before[j]
                },
    {
        let ghost now = lines.deep_view();
        assert(now[i as int] == lines@[i as int].deep_view());
        verify_line(&mut lines[i], context, max, &mut issues);
        assert(lines.deep_view() =~= now.update(
            i as int,
            verified_line(before[i as int], view, max),
        ));
    }
    assert(lines.deep_view() =~= verified_lines(before, view, max));
    issues
}

/// A line that conflicts with its source is reported, and verification changes nothing of a
/// line but its verdict.
pub proof fn law_conflicts_are_reported(
    line: TranscriptLineView,
    context: TranscriptContextView,
    max: u16,
)
    ensures
        verdict(line, context, max) == VerificationStatus::Conflict ==> line_issues(
            line,
            context,
            max,
        ).len() > 0,
        verified_line(line, context, max) == (TranscriptLineView {
            verification: verdict(line, context, max),
            ..line
        }),
{
}

/// A line whose speaker is redacted and a line of unknown kind are never verified.
pub proof fn law_unknown_is_never_verified(
    line: TranscriptLineView,
    context: TranscriptContextView,
    max: u16,
)
    requires
        line.kind != LineKind::PageHeader,
        line.kind == LineKind::Unknown || (line.speaker matches Some(s) && s.redacted),
    ensures
        verdict(line, context, max) == VerificationStatus::Uncertain || verdict(line, context, max)
            == VerificationStatus::Conflict,
{
}

// ---------------------------------------------------------------------------
// Labels in raw text
// ---------------------------------------------------------------------------

/// Whether a text reads like the label of a speaker.
pub open spec fn speaker_prefix(prefix: Seq<char>) -> bool {
    let u = uppercased(prefix);
    let letters = count_within(prefix, CharClass::Alphabetic);
    ||| has_infix(u, "REDACTED"@)
    ||| has_prefix(u, "MR. "@)
    ||| has_prefix(u, "MR "@)
    ||| has_prefix(u, "MS. "@)
    ||| has_prefix(u, "MS "@)
    ||| has_prefix(u, "MRS. "@)
    ||| has_prefix(u, "THE "@)
    ||| has_prefix(u, "ATTORNEY "@)
    ||| has_prefix(u, "COUNSEL "@)
    ||| letters > 0 && count_within(prefix, CharClass::UppercaseLetter) * 100 >= 80 * letters
}

pub fn looks_like_speaker_prefix(prefix: &str) -> (r: bool)
    ensures
        r == speaker_prefix(prefix@),
{
    let upper = to_upper(prefix);
    let u = upper.as_str();
    if contains(u, "REDACTED")
        || starts_with(u, "MR. ")
        || starts_with(u, "MR ")
        || starts_with(u, "MS. ")
        || starts_with(u, "MS ")
        || starts_with(u, "MRS. ")
        || starts_with(u, "THE ")
        || starts_with(u, "ATTORNEY ")
        || starts_with(u, "COUNSEL ")
    {
        return true;
    }
    let letters = count_chars(prefix, CharClass::Alphabetic);
    let capitals = Ratio { part: count_chars(prefix, CharClass::UppercaseLetter), whole: letters };
    letters > 0 && capitals.at_least(80)
}

/// A text without the speaker label that it opens with.
pub open spec fn without_speaker(text: Seq<char>) -> Seq<char> {
    match split_at_first(text, ':') {
        Some((before, after)) => {
            let prefix = trimmed(before);
            if byte_len(prefix) > 80 || any_within(prefix, CharClass::Is('?')) || !speaker_prefix(
                prefix,
            ) {
                text
            } else {
                trimmed(after)
            }
        },
        None => text,
    }
}

pub fn strip_speaker_prefix(text: &str) -> (r: &str)
    ensures
        r@ == without_speaker(text@),
{
    match split_once(text, ':') {
        Some((before, after)) => {
            let prefix = trim(before);
            if len_bytes(prefix) > 80 || any_char(prefix, CharClass::Is('?'))
                || !looks_like_speaker_prefix(prefix) {
                text
            } else {
                trim(after)
            }
        },
        None => text,
    }
}

// ---------------------------------------------------------------------------
// What a verdict rests on
// ---------------------------------------------------------------------------

/// How far a line agrees with its source. A page header does. Any other line whose speaker is
/// redacted is uncertain; else one that contradicts a marker of its source or the registered role
/// of its speaker is in conflict; else an unknown line is uncertain; else a redaction is redacted;
/// else a line is verified where it was classified by what it shows, verified with inference where
/// it was inferred or its source mentions a redaction, and uncertain where neither.
pub proof fn law_verdicts_follow_the_line(
    line: TranscriptLineView,
    context: TranscriptContextView,
    max: u16,
)
    ensures
        ({
            let v = verdict(line, context, max);
            let header = line.kind == LineKind::PageHeader;
            let redacted = line.speaker is Some && (line.speaker->0).redacted;
            let conflict = contradicted_marker(line, max) is Some || contradicted_role(
                line,
                context,
            ) is Some;
            let settled = header || redacted || conflict || line.kind == LineKind::Unknown;
            let covered = pure_redaction(line.text) || mentions_redaction(line.raw_text);
            &&& header ==> v == VerificationStatus::Verified
            &&& !header && redacted ==> v == VerificationStatus::Uncertain
            &&& !header && !redacted && conflict ==> v == VerificationStatus::Conflict
            &&& !header && !redacted && !conflict && line.kind == LineKind::Unknown ==> v
                == VerificationStatus::Uncertain
            &&& !settled && covered && line.kind == LineKind::RedactionMarker ==> v
                == VerificationStatus::Redacted
            &&& !settled && covered && line.kind != LineKind::RedactionMarker ==> v
                == VerificationStatus::VerifiedWithInference
            &&& !settled && !covered && line.confidence == ClassificationConfidence::Explicit ==> v
                == VerificationStatus::Verified
            &&& !settled && !covered && line.confidence == ClassificationConfidence::Inferred ==> v
                == VerificationStatus::VerifiedWithInference
            &&& !settled && !covered && line.confidence == ClassificationConfidence::Unknown ==> v
                == VerificationStatus::Uncertain
            &&& v == VerificationStatus::Conflict ==> conflict
        }),
{
}

/// A line contradicts its source where the source opens with a question marker and the line is no
/// question, or with an answer marker and the line is no answer; bare letters count only where the
/// line was taken to open with a marker.
pub proof fn law_markers_in_the_source_count(line: TranscriptLineView, max: u16)
    ensures
        ({
            let found = marker_candidate(raw_content(line, max));
            let counts = found is Some && ((found->0).1 != MarkerStyle::BareUppercase || exists|
                i: int,
            |
                0 <= i < line.evidence.items.len() && (#[trigger] line.evidence.items[i]).source
                    == EvidenceSource::ExplicitMarker);
            &&& !counts ==> contradicted_marker(line, max) is None
            &&& counts && (found->0).0 == MarkerKind::Question ==> (contradicted_marker(
                line,
                max,
            ) is Some <==> line.kind != LineKind::Question)
            &&& counts && (found->0).0 == MarkerKind::Answer ==> (contradicted_marker(
                line,
                max,
            ) is Some <==> line.kind != LineKind::Answer)
        }),
{
    if marker_candidate(raw_content(line, max)) is Some {
        assert(marker_evidenced(line.evidence.items) == exists|i: int|
            0 <= i < line.evidence.items.len() && (#[trigger] line.evidence.items[i]).source
                == EvidenceSource::ExplicitMarker);
    }
}

/// A line contradicts the registry where its speaker is registered in another role, both known.
pub proof fn law_registered_roles_count(line: TranscriptLineView, context: TranscriptContextView)
    ensures
        contradicted_role(line, context) is Some <==> {
            &&& line.speaker is Some
            &&& (line.speaker->0).participant_id is Some
            &&& participant_with_id(
                context.participants,
                (line.speaker->0).participant_id->0,
            ) is Some
            &&& (participant_with_id(
                context.participants,
                (line.speaker->0).participant_id->0,
            )->0).role != SpeakerRole::Unknown
            &&& (line.speaker->0).role != SpeakerRole::Unknown
            &&& (participant_with_id(
                context.participants,
                (line.speaker->0).participant_id->0,
            )->0).role != (line.speaker->0).role
        },
{
}

/// What a line contradicts is reported once each, with where the line stands, and a line that
/// contradicts nothing is not reported.
pub proof fn law_contradictions_are_reported(
    line: TranscriptLineView,
    context: TranscriptContextView,
    max: u16,
)
    requires
        line.kind != LineKind::PageHeader,
    ensures
        ({
            let issues = line_issues(line, context, max);
            let marker = contradicted_marker(line, max) is Some;
            let role = contradicted_role(line, context) is Some;
            &&& issues.len() == (if marker {
                1int
            } else {
                0
            }) + (if role {
                1int
            } else {
                0
            })
            &&& marker ==> issues[0].code == "explicit_marker_conflict"@
            &&& role ==> issues.last().code == "participant_role_conflict"@
            &&& forall|i: int|
                0 <= i < issues.len() ==> (#[trigger] issues[i]).physical_page == line.physical_page
                    && issues[i].transcript_page == line.transcript_page && issues[i].line_number
                    == line.line_number
        }),
{
}

/// Each line gets its own verdict, and what is reported of the lines stands in their order.
pub proof fn law_lines_are_verified_one_by_one(
    lines: Seq<TranscriptLineView>,
    context: TranscriptContextView,
    max: u16,
    i: int,
)
    requires
        0 <= i < lines.len(),
    ensures
        verified_lines(lines, context, max).len() == lines.len(),
        verified_lines(lines, context, max)[i].verification == verdict(lines[i], context, max),
        verified_lines(lines, context, max)[i].text == lines[i].text,
        verified_lines(lines, context, max)[i].kind == lines[i].kind,
        verified_lines(lines, context, max)[i].speaker == lines[i].speaker,
        verified_lines(lines, context, max)[i].source_row_id == lines[i].source_row_id,
        issues_of(lines, context, max, i + 1) == issues_of(lines, context, max, i) + line_issues(
            lines[i],
            context,
            max,
        ),
        issues_of(lines, context, max, 0).len() == 0,
{
}

/// What the source says on a line is the line without its number, where it has one, and without a
/// label.
pub proof fn law_source_content_is_bare(line: TranscriptLineView, max: u16)
    ensures
        ({
            let body = if line.line_number is Some {
                numbered_line(trimmed(line.raw_text), max).1
            } else {
                trimmed(line.raw_text)
            };
            &&& labelled_turn(body) is None ==> raw_content(line, max) == body
            &&& labelled_turn(body) is Some ==> raw_content(line, max) == (labelled_turn(body)->0).1
        }),
{
}

/// What kinds of lines are called in reports.
pub proof fn law_kinds_have_names()
    ensures
        kind_name(LineKind::Question) == "Question"@,
        kind_name(LineKind::Answer) == "Answer"@,
        kind_name(LineKind::Objection) == "Objection"@,
        kind_name(LineKind::AttorneyStatement) == "AttorneyStatement"@,
        kind_name(LineKind::SpeakerStatement) == "SpeakerStatement"@,
        kind_name(LineKind::WitnessStatement) == "WitnessStatement"@,
        kind_name(LineKind::InterpreterStatement) == "InterpreterStatement"@,
        kind_name(LineKind::ReporterStatement) == "ReporterStatement"@,
        kind_name(LineKind::JudgeStatement) == "JudgeStatement"@,
        kind_name(LineKind::VideographerStatement) == "VideographerStatement"@,
        kind_name(LineKind::ExhibitMarker) == "ExhibitMarker"@,
        kind_name(LineKind::Parenthetical) == "Parenthetical"@,
        kind_name(LineKind::ExaminationHeading) == "ExaminationHeading"@,
        kind_name(LineKind::Heading) == "Heading"@,
        kind_name(LineKind::RedactionMarker) == "RedactionMarker"@,
        kind_name(LineKind::PageHeader) == "PageHeader"@,
        kind_name(LineKind::Unknown) == "Unknown"@,
{
}

} // verus!
