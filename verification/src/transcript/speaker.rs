//! Who is speaking: labels, titles, redactions and introductions.
use vstd::prelude::*;
use vstd::utf8::{encode_utf8, encode_utf8_decode_utf8};

use crate::measure::Ratio;
use crate::number::{decimal, hex, hex_char, hex_first, hex_string, push_decimal};
use crate::pieces::{last_word, split_at_first, split_once, words, words_of};
use crate::scan::{
    all_chars, all_within, any_char, any_within, contains, count_chars, count_within, first_char,
    has_infix, has_prefix, same_ignoring_case, same_letters, starts_with, strip, stripped, to_upper,
    trim, trimmed, uppercased,
};
use crate::text::{byte_len, char_within, chars_of, len_bytes, same, within, CharClass};
use crate::transcript::models::{
    Participant, ParticipantFunction, ParticipantView, Speaker, SpeakerRole, SpeakerView,
    TranscriptContext,
};

verus! {

// ---------------------------------------------------------------------------
// Redactions
// ---------------------------------------------------------------------------

/// Whether a label stands for a name that was taken out.
pub open spec fn redacted_label(label: Seq<char>) -> bool {
    let t = trimmed(label);
    let u = uppercased(t);
    t.len() > 0 && {
        ||| has_infix(u, "[REDACTED]"@)
        ||| has_infix(u, "NAME REDACTED"@)
        ||| has_infix(u, "REDACTED NAME"@)
        ||| has_infix(u, "NAME WITHHELD"@)
        ||| has_infix(u, "[SEALED]"@)
        ||| u == "REDACTED"@
        ||| u == "SEALED"@
        ||| count_within(t, CharClass::RedactionBlock) >= 3
        ||| byte_len(t) >= 4 && all_within(t, CharClass::CrossOut)
    }
}

pub fn is_redacted_label(label: &str) -> (r: bool)
    ensures
        r == redacted_label(label@),
{
    let t = trim(label);
    if t.is_empty() {
        return false;
    }
    let upper = to_upper(t);
    let u = upper.as_str();
    contains(u, "[REDACTED]")
        || contains(u, "NAME REDACTED")
        || contains(u, "REDACTED NAME")
        || contains(u, "NAME WITHHELD")
        || contains(u, "[SEALED]")
        || same(u, "REDACTED")
        || same(u, "SEALED")
        || count_chars(t, CharClass::RedactionBlock) >= 3
        || (len_bytes(t) >= 4 && all_chars(t, CharClass::CrossOut))
}

/// Whether a text mentions that something was taken out of it.
pub open spec fn mentions_redaction(text: Seq<char>) -> bool {
    let u = uppercased(text);
    ||| has_infix(u, "[REDACTED]"@)
    ||| has_infix(u, "[NAME REDACTED]"@)
    ||| has_infix(u, "[REDACTED NAME]"@)
    ||| has_infix(u, "NAME REDACTED"@)
    ||| has_infix(u, "NAME WITHHELD"@)
    ||| has_infix(u, "DOJ REDACTION"@)
    ||| has_infix(u, "[SEALED]"@)
    ||| count_within(text, CharClass::RedactionBlock) >= 3
}

pub fn contains_redaction_marker(text: &str) -> (r: bool)
    ensures
        r == mentions_redaction(text@),
{
    let upper = to_upper(text);
    let u = upper.as_str();
    contains(u, "[REDACTED]")
        || contains(u, "[NAME REDACTED]")
        || contains(u, "[REDACTED NAME]")
        || contains(u, "NAME REDACTED")
        || contains(u, "NAME WITHHELD")
        || contains(u, "DOJ REDACTION")
        || contains(u, "[SEALED]")
        || count_chars(text, CharClass::RedactionBlock) >= 3
}

/// Whether a text is nothing but a redaction marker.
pub open spec fn pure_redaction(text: Seq<char>) -> bool {
    let t = trimmed(stripped(trimmed(text), CharClass::Is(':')));
    let u = uppercased(t);
    ||| u == "[REDACTED]"@
    ||| u == "[NAME REDACTED]"@
    ||| u == "[REDACTED NAME]"@
    ||| u == "[NAME WITHHELD]"@
    ||| u == "[SEALED]"@
    ||| u == "REDACTED"@
    ||| u == "SEALED"@
    ||| u == "NAME WITHHELD"@
    ||| t.len() >= 3 && all_within(t, CharClass::RedactionFill)
}

pub fn is_pure_redaction_marker(text: &str) -> (r: bool)
    ensures
        r == pure_redaction(text@),
{
    let t = trim(strip(trim(text), CharClass::Is(':')));
    let upper = to_upper(t);
    let u = upper.as_str();
    same(u, "[REDACTED]")
        || same(u, "[NAME REDACTED]")
        || same(u, "[REDACTED NAME]")
        || same(u, "[NAME WITHHELD]")
        || same(u, "[SEALED]")
        || same(u, "REDACTED")
        || same(u, "SEALED")
        || same(u, "NAME WITHHELD")
        || (t.unicode_len() >= 3 && all_chars(t, CharClass::RedactionFill))
}

// ---------------------------------------------------------------------------
// Labels
// ---------------------------------------------------------------------------

/// Whether a label in upper case opens with a form of address or an office.
pub open spec fn honorific_label(u: Seq<char>) -> bool {
    ||| has_prefix(u, "MR. "@)
    ||| has_prefix(u, "MR "@)
    ||| has_prefix(u, "MS. "@)
    ||| has_prefix(u, "MS "@)
    ||| has_prefix(u, "MRS. "@)
    ||| has_prefix(u, "MRS "@)
    ||| has_prefix(u, "MISS "@)
    ||| has_prefix(u, "CHAIRMAN "@)
    ||| has_prefix(u, "CHAIRWOMAN "@)
    ||| has_prefix(u, "CONGRESSMAN "@)
    ||| has_prefix(u, "CONGRESSWOMAN "@)
    ||| has_prefix(u, "REPRESENTATIVE "@)
    ||| has_prefix(u, "SENATOR "@)
    ||| has_prefix(u, "GOVERNOR "@)
}

pub fn looks_like_honorific_label(upper: &str) -> (r: bool)
    ensures
        r == honorific_label(upper@),
{
    starts_with(upper, "MR. ")
        || starts_with(upper, "MR ")
        || starts_with(upper, "MS. ")
        || starts_with(upper, "MS ")
        || starts_with(upper, "MRS. ")
        || starts_with(upper, "MRS ")
        || starts_with(upper, "MISS ")
        || starts_with(upper, "CHAIRMAN ")
        || starts_with(upper, "CHAIRWOMAN ")
        || starts_with(upper, "CONGRESSMAN ")
        || starts_with(upper, "CONGRESSWOMAN ")
        || starts_with(upper, "REPRESENTATIVE ")
        || starts_with(upper, "SENATOR ")
        || starts_with(upper, "GOVERNOR ")
}

/// Whether a label in upper case reads like that of an attorney.
pub open spec fn attorney_label(u: Seq<char>) -> bool {
    ||| has_prefix(u, "MR. "@)
    ||| has_prefix(u, "MR "@)
    ||| has_prefix(u, "MS. "@)
    ||| has_prefix(u, "MS "@)
    ||| has_prefix(u, "MRS. "@)
    ||| has_prefix(u, "MRS "@)
    ||| has_prefix(u, "MISS "@)
    ||| has_prefix(u, "ATTORNEY "@)
    ||| has_prefix(u, "ATTY. "@)
    ||| has_prefix(u, "ATTY "@)
    ||| has_prefix(u, "COUNSEL "@)
    ||| has_infix(u, "COUNSEL FOR "@)
    ||| has_prefix(u, "ESQ. "@)
}

pub fn looks_like_attorney_label(upper: &str) -> (r: bool)
    ensures
        r == attorney_label(upper@),
{
    starts_with(upper, "MR. ")
        || starts_with(upper, "MR ")
        || starts_with(upper, "MS. ")
        || starts_with(upper, "MS ")
        || starts_with(upper, "MRS. ")
        || starts_with(upper, "MRS ")
        || starts_with(upper, "MISS ")
        || starts_with(upper, "ATTORNEY ")
        || starts_with(upper, "ATTY. ")
        || starts_with(upper, "ATTY ")
        || starts_with(upper, "COUNSEL ")
        || contains(upper, "COUNSEL FOR ")
        || starts_with(upper, "ESQ. ")
}

/// Whether a label names the witness by function.
pub open spec fn witness_label(u: Seq<char>) -> bool {
    ||| u == "THE WITNESS"@
    ||| u == "WITNESS"@
    ||| u == "THE DEPONENT"@
    ||| u == "DEPONENT"@
}

/// Decides [`witness_label`].
pub fn is_witness_label(upper: &str) -> (r: bool)
    ensures
        r == witness_label(upper@),
{
    same(upper, "THE WITNESS")
        || same(upper, "WITNESS")
        || same(upper, "THE DEPONENT")
        || same(upper, "DEPONENT")
}

/// The role that a label in upper case gives away.
pub open spec fn label_role(u: Seq<char>) -> Option<SpeakerRole> {
    if witness_label(u) {
        Some(SpeakerRole::Witness)
    } else if has_infix(u, "INTERPRETER"@) {
        Some(SpeakerRole::Interpreter)
    } else if u == "THE REPORTER"@ || u == "REPORTER"@ || u == "COURT REPORTER"@ || has_infix(
        u,
        "COURT REPORTER"@,
    ) || has_infix(u, "STENOGRAPHER"@) {
        Some(SpeakerRole::CourtReporter)
    } else if has_infix(u, "VIDEOGRAPHER"@) || u == "VIDEO OPERATOR"@ {
        Some(SpeakerRole::Videographer)
    } else if u == "THE COURT"@ || has_prefix(u, "JUDGE "@) || has_prefix(u, "HON. "@)
        || has_prefix(u, "HONORABLE "@) {
        Some(SpeakerRole::Judge)
    } else if honorific_label(u) || has_prefix(u, "DR. "@) || has_prefix(u, "DR "@) {
        Some(SpeakerRole::Unknown)
    } else if attorney_label(u) {
        Some(SpeakerRole::Attorney)
    } else {
        None
    }
}

fn role_of_label(u: &str) -> (r: Option<SpeakerRole>)
    ensures
        r == label_role(u@),
{
    if is_witness_label(u) {
        Some(SpeakerRole::Witness)
    } else if contains(u, "INTERPRETER") {
        Some(SpeakerRole::Interpreter)
    } else if same(u, "THE REPORTER") || same(u, "REPORTER") || same(u, "COURT REPORTER")
        || contains(u, "COURT REPORTER") || contains(u, "STENOGRAPHER") {
        Some(SpeakerRole::CourtReporter)
    } else if contains(u, "VIDEOGRAPHER") || same(u, "VIDEO OPERATOR") {
        Some(SpeakerRole::Videographer)
    } else if same(u, "THE COURT") || starts_with(u, "JUDGE ") || starts_with(u, "HON. ")
        || starts_with(u, "HONORABLE ") {
        Some(SpeakerRole::Judge)
    } else if looks_like_honorific_label(u) || starts_with(u, "DR. ") || starts_with(u, "DR ") {
        Some(SpeakerRole::Unknown)
    } else if looks_like_attorney_label(u) {
        Some(SpeakerRole::Attorney)
    } else {
        None
    }
}

/// The speaker that a label gives away by itself.
pub open spec fn label_speaker(label: Seq<char>) -> Option<SpeakerView> {
    let t = trimmed(label);
    if redacted_label(t) {
        Some(
            SpeakerView {
                participant_id: None,
                label: t,
                role: SpeakerRole::Unknown,
                redacted: true,
            },
        )
    } else {
        match label_role(uppercased(t)) {
            Some(role) => Some(
                SpeakerView { participant_id: None, label: t, role, redacted: false },
            ),
            None => None,
        }
    }
}

pub fn speaker_from_label(label: &str) -> (r: Option<Speaker>)
    ensures
        r.deep_view() == label_speaker(label@),
{
    let t = trim(label);
    if is_redacted_label(t) {
        return Some(
            Speaker {
                participant_id: None,
                label: t.to_owned(),
                role: SpeakerRole::Unknown,
                redacted: true,
            },
        );
    }
    match role_of_label(to_upper(t).as_str()) {
        Some(role) => Some(
            Speaker { participant_id: None, label: t.to_owned(), role, redacted: false },
        ),
        None => None,
    }
}

/// Whether a label is one that a participant was observed under.
pub open spec fn answers_to(p: ParticipantView, label: Seq<char>) -> bool {
    (exists|i: int|
        0 <= i < p.observed_labels.len() && same_ignoring_case(
            #[trigger] p.observed_labels[i],
            label,
        )) || same_ignoring_case(p.display_label, label)
}

fn goes_by(p: &Participant, label: &str) -> (r: bool)
    ensures
        r == answers_to(p.deep_view(), label@),
{
    for i in 0..p.observed_labels.len()
        invariant
            forall|j: int|
                0 <= j < i ==> !same_ignoring_case(
                    #[trigger] p.deep_view().observed_labels[j],
                    label@,
                ),
    {
        if same_letters(p.observed_labels[i].as_str(), label) {
            assert(same_ignoring_case(p.deep_view().observed_labels[i as int], label@));
            return true;
        }
    }
    same_letters(p.display_label.as_str(), label)
}

/// Where the first participant who answers to a label stands, or the length of the list.
pub open spec fn answering_index(list: Seq<ParticipantView>, label: Seq<char>, from: int) -> int
    decreases list.len() - from,
{
    if 0 <= from < list.len() && !answers_to(list[from], label) {
        answering_index(list, label, from + 1)
    } else {
        from
    }
}

/// The role of a participant: the observed one, or else the one that goes with the function.
pub open spec fn participant_role(p: ParticipantView) -> SpeakerRole {
    if p.role != SpeakerRole::Unknown {
        p.role
    } else {
        match p.function {
            ParticipantFunction::Witness | ParticipantFunction::Interviewee => SpeakerRole::Witness,
            ParticipantFunction::Counsel
            | ParticipantFunction::GovernmentCounsel => SpeakerRole::Attorney,
            ParticipantFunction::Interviewer
            | ParticipantFunction::LawEnforcement
            | ParticipantFunction::Other
            | ParticipantFunction::Unknown => SpeakerRole::Unknown,
            ParticipantFunction::Interpreter => SpeakerRole::Interpreter,
            ParticipantFunction::CourtReporter => SpeakerRole::CourtReporter,
            ParticipantFunction::Judge => SpeakerRole::Judge,
            ParticipantFunction::Videographer => SpeakerRole::Videographer,
        }
    }
}

/// A participant as a speaker.
pub open spec fn participant_speaker(p: ParticipantView) -> SpeakerView {
    SpeakerView {
        participant_id: Some(p.id),
        label: p.display_label,
        role: participant_role(p),
        redacted: p.redacted,
    }
}

pub fn speaker_from_participant(participant: &Participant) -> (r: Speaker)
    ensures
        r.deep_view() == participant_speaker(participant.deep_view()),
{
    let role = if participant.role != SpeakerRole::Unknown {
        participant.role
    } else {
        match participant.function {
            ParticipantFunction::Witness | ParticipantFunction::Interviewee => SpeakerRole::Witness,
            ParticipantFunction::Counsel
            | ParticipantFunction::GovernmentCounsel => SpeakerRole::Attorney,
            ParticipantFunction::Interviewer
            | ParticipantFunction::LawEnforcement
            | ParticipantFunction::Other
            | ParticipantFunction::Unknown => SpeakerRole::Unknown,
            ParticipantFunction::Interpreter => SpeakerRole::Interpreter,
            ParticipantFunction::CourtReporter => SpeakerRole::CourtReporter,
            ParticipantFunction::Judge => SpeakerRole::Judge,
            ParticipantFunction::Videographer => SpeakerRole::Videographer,
        }
    };
    Speaker {
        participant_id: Some(participant.id.clone()),
        label: participant.display_label.clone(),
        role,
        redacted: participant.redacted,
    }
}

/// The speaker that a label stands for among known participants: the first who answers to
/// it, or else the one that the label itself gives away, under an identifier of its own.
pub open spec fn known_speaker(label: Seq<char>, list: Seq<ParticipantView>) -> Option<
    SpeakerView,
> {
    let t = trimmed(label);
    let i = answering_index(list, t, 0);
    if i < list.len() {
        Some(participant_speaker(list[i]))
    } else {
        match label_speaker(t) {
            Some(s) => Some(
                if s.redacted {
                    s
                } else {
                    SpeakerView { participant_id: Some(id_of_label(t)), ..s }
                },
            ),
            None => None,
        }
    }
}

pub fn resolve_known_speaker(label: &str, context: &TranscriptContext) -> (r: Option<Speaker>)
    ensures
        r.deep_view() == known_speaker(label@, context.deep_view().participants),
{
    let t = trim(label);
    let ghost list = context.deep_view().participants;
    for i in 0..context.participants.len()
        invariant
            t@ == trimmed(label@),
            list == context.participants.deep_view(),
            answering_index(list, t@, i as int) == answering_index(list, t@, 0),
    {
        assert(list[i as int] == context.participants@[i as int].deep_view());
        if goes_by(&context.participants[i], t) {
            return Some(speaker_from_participant(&context.participants[i]));
        }
    }
    match speaker_from_label(t) {
        Some(mut s) => {
            if !s.redacted {
                s.participant_id = Some(label_id(t));
            }
            Some(s)
        },
        None => None,
    }
}

/// Whether a label can head an examination without a form of address.
pub open spec fn bare_heading(label: Seq<char>) -> bool {
    redacted_label(label) || {
        &&& 1 <= words_of(label).len() <= 5
        &&& any_within(label, CharClass::AsciiLetter)
        &&& !any_within(label, CharClass::AsciiLowercase)
        &&& all_within(label, CharClass::HeadingCharacter)
    }
}

pub fn looks_like_bare_attorney_heading(label: &str) -> (r: bool)
    ensures
        r == bare_heading(label@),
{
    if is_redacted_label(label) {
        return true;
    }
    let count = words(label).len();
    1 <= count && count <= 5 && any_char(label, CharClass::AsciiLetter) && !any_char(
        label,
        CharClass::AsciiLowercase,
    ) && all_chars(label, CharClass::HeadingCharacter)
}

/// Whether a text is written mostly in capitals, as speaker labels are.
pub open spec fn mostly_capitals(label: Seq<char>) -> bool {
    let t = trimmed(label);
    let letters = count_within(t, CharClass::Alphabetic);
    &&& 1 <= words_of(t).len() <= 7
    &&& !(t == "Q"@ || t == "A"@ || t == "QUESTION"@ || t == "ANSWER"@)
    &&& letters >= 2
    &&& count_within(t, CharClass::UppercaseLetter) * 100 >= 80 * letters
}

pub fn looks_like_generic_speaker_label(label: &str) -> (r: bool)
    ensures
        r == mostly_capitals(label@),
{
    let t = trim(label);
    let count = words(t).len();
    if count < 1 || count > 7 {
        return false;
    }
    if same(t, "Q") || same(t, "A") || same(t, "QUESTION") || same(t, "ANSWER") {
        return false;
    }
    let letters = count_chars(t, CharClass::Alphabetic);
    if letters < 2 {
        return false;
    }
    let capitals = Ratio { part: count_chars(t, CharClass::UppercaseLetter), whole: letters };
    capitals.at_least(80)
}

/// Whether a label is a heading or a marker rather than a name.
pub open spec fn structural_label(label: Seq<char>) -> bool {
    let u = uppercased(trimmed(label));
    ||| u == "Q"@
    ||| u == "A"@
    ||| u == "QUESTION"@
    ||| u == "ANSWER"@
    ||| u == "APPEARANCES"@
    ||| u == "PRESENT"@
    ||| u == "INTERVIEW OF"@
    ||| u == "DEPOSITION OF"@
    ||| u == "CASE NO"@
    ||| u == "CASE NO."@
    ||| u == "DATE"@
    ||| u == "TIME"@
    ||| u == "NOTE"@
    ||| u == "NOTES"@
    ||| u == "EXHIBITS"@
    ||| u == "INDEX"@
    ||| has_prefix(u, "FOR "@)
    ||| has_prefix(u, "BY "@)
    ||| has_prefix(u, "CERTIFICATE"@)
    ||| has_prefix(u, "EXAMINATION"@)
    ||| has_prefix(u, "IN THE "@)
}

pub fn is_structural_label(label: &str) -> (r: bool)
    ensures
        r == structural_label(label@),
{
    let upper = to_upper(trim(label));
    let u = upper.as_str();
    same(u, "Q")
        || same(u, "A")
        || same(u, "QUESTION")
        || same(u, "ANSWER")
        || same(u, "APPEARANCES")
        || same(u, "PRESENT")
        || same(u, "INTERVIEW OF")
        || same(u, "DEPOSITION OF")
        || same(u, "CASE NO")
        || same(u, "CASE NO.")
        || same(u, "DATE")
        || same(u, "TIME")
        || same(u, "NOTE")
        || same(u, "NOTES")
        || same(u, "EXHIBITS")
        || same(u, "INDEX")
        || starts_with(u, "FOR ")
        || starts_with(u, "BY ")
        || starts_with(u, "CERTIFICATE")
        || starts_with(u, "EXAMINATION")
        || starts_with(u, "IN THE ")
}

// ---------------------------------------------------------------------------
// Turns that open with a label
// ---------------------------------------------------------------------------

/// Whether a text reads like a name in capitals.
pub open spec fn capital_name(label: Seq<char>) -> bool {
    &&& 1 <= words_of(label).len() <= 6
    &&& any_within(label, CharClass::Alphabetic)
    &&& all_within(label, CharClass::NameCharacter)
    &&& !any_within(label, CharClass::OtherLetter)
}

/// The label and the body of a turn that opens with a label and a colon.
pub open spec fn colon_turn(text: Seq<char>) -> Option<(Seq<char>, Seq<char>)> {
    match split_at_first(trimmed(text), ':') {
        Some((before, after)) => {
            let label = trimmed(before);
            if structural_label(label) || label.len() == 0 || byte_len(label) > 80 {
                None
            } else if label_speaker(label) is Some || capital_name(label) || redacted_label(label) {
                Some((label, trimmed(after)))
            } else {
                None
            }
        },
        None => None,
    }
}

pub fn split_colon_label(text: &str) -> (r: Option<(&str, &str)>)
    ensures
        r.deep_view() == colon_turn(text@),
{
    let (before, after) = match split_once(trim(text), ':') {
        Some(sides) => sides,
        None => {
            return None;
        },
    };
    let label = trim(before);
    if is_structural_label(label) || label.is_empty() || len_bytes(label) > 80 {
        return None;
    }
    let count = words(label).len();
    let known = speaker_from_label(label).is_some();
    let generic = 1 <= count && count <= 6 && any_char(label, CharClass::Alphabetic) && all_chars(
        label,
        CharClass::NameCharacter,
    ) && !any_char(label, CharClass::OtherLetter);
    if known || generic || is_redacted_label(label) {
        Some((label, trim(after)))
    } else {
        None
    }
}

/// The length of the title that a text in upper case opens with.
pub open spec fn title_len(u: Seq<char>) -> Option<nat> {
    if has_prefix(u, "MR. "@) {
        Some("MR. "@.len())
    } else if has_prefix(u, "MR "@) {
        Some("MR "@.len())
    } else if has_prefix(u, "MS. "@) {
        Some("MS. "@.len())
    } else if has_prefix(u, "MS "@) {
        Some("MS "@.len())
    } else if has_prefix(u, "MRS. "@) {
        Some("MRS. "@.len())
    } else if has_prefix(u, "MRS "@) {
        Some("MRS "@.len())
    } else if has_prefix(u, "MISS "@) {
        Some("MISS "@.len())
    } else if has_prefix(u, "CHAIRMAN "@) {
        Some("CHAIRMAN "@.len())
    } else if has_prefix(u, "CHAIRWOMAN "@) {
        Some("CHAIRWOMAN "@.len())
    } else if has_prefix(u, "CONGRESSMAN "@) {
        Some("CONGRESSMAN "@.len())
    } else if has_prefix(u, "CONGRESSWOMAN "@) {
        Some("CONGRESSWOMAN "@.len())
    } else if has_prefix(u, "REPRESENTATIVE "@) {
        Some("REPRESENTATIVE "@.len())
    } else if has_prefix(u, "SENATOR "@) {
        Some("SENATOR "@.len())
    } else if has_prefix(u, "GOVERNOR "@) {
        Some("GOVERNOR "@.len())
    } else if has_prefix(u, "DR. "@) {
        Some("DR. "@.len())
    } else if has_prefix(u, "DR "@) {
        Some("DR "@.len())
    } else if has_prefix(u, "JUDGE "@) {
        Some("JUDGE "@.len())
    } else if has_prefix(u, "JUSTICE "@) {
        Some("JUSTICE "@.len())
    } else if has_prefix(u, "THE WITNESS "@) {
        Some("THE WITNESS "@.len())
    } else {
        None
    }
}

fn title_length(u: &str) -> (r: Option<usize>)
    ensures
        match r {
            Some(n) => title_len(u@) == Some(n as nat) && n <= u@.len(),
            None => title_len(u@) is None,
        },
{
    if starts_with(u, "MR. ") {
        Some("MR. ".unicode_len())
    } else if starts_with(u, "MR ") {
        Some("MR ".unicode_len())
    } else if starts_with(u, "MS. ") {
        Some("MS. ".unicode_len())
    } else if starts_with(u, "MS ") {
        Some("MS ".unicode_len())
    } else if starts_with(u, "MRS. ") {
        Some("MRS. ".unicode_len())
    } else if starts_with(u, "MRS ") {
        Some("MRS ".unicode_len())
    } else if starts_with(u, "MISS ") {
        Some("MISS ".unicode_len())
    } else if starts_with(u, "CHAIRMAN ") {
        Some("CHAIRMAN ".unicode_len())
    } else if starts_with(u, "CHAIRWOMAN ") {
        Some("CHAIRWOMAN ".unicode_len())
    } else if starts_with(u, "CONGRESSMAN ") {
        Some("CONGRESSMAN ".unicode_len())
    } else if starts_with(u, "CONGRESSWOMAN ") {
        Some("CONGRESSWOMAN ".unicode_len())
    } else if starts_with(u, "REPRESENTATIVE ") {
        Some("REPRESENTATIVE ".unicode_len())
    } else if starts_with(u, "SENATOR ") {
        Some("SENATOR ".unicode_len())
    } else if starts_with(u, "GOVERNOR ") {
        Some("GOVERNOR ".unicode_len())
    } else if starts_with(u, "DR. ") {
        Some("DR. ".unicode_len())
    } else if starts_with(u, "DR ") {
        Some("DR ".unicode_len())
    } else if starts_with(u, "JUDGE ") {
        Some("JUDGE ".unicode_len())
    } else if starts_with(u, "JUSTICE ") {
        Some("JUSTICE ".unicode_len())
    } else if starts_with(u, "THE WITNESS ") {
        Some("THE WITNESS ".unicode_len())
    } else {
        None
    }
}

/// How long the last word of a text is.
pub open spec fn last_word_len(s: Seq<char>) -> nat {
    match last_word(s) {
        Some(word) => word.len(),
        None => 0,
    }
}

/// Where the label that starts before `from` ends: at the first full stop from `at` on that
/// follows a word of more than one letter.
pub open spec fn titled_label_end(s: Seq<char>, from: int, at: int) -> Option<int>
    decreases s.len() - at,
{
    if at < 0 || at >= s.len() {
        None
    } else if s[at] == '.' && last_word_len(s.subrange(from, at)) > 1 {
        Some(at)
    } else {
        titled_label_end(s, from, at + 1)
    }
}

fn find_titled_label_end(t: &str, from: usize) -> (r: Option<usize>)
    requires
        from <= t@.len(),
    ensures
        match r {
            Some(end) => titled_label_end(t@, from as int, from as int) == Some(end as int) && end
                < t@.len(),
            None => titled_label_end(t@, from as int, from as int) is None,
        },
{
    let v = chars_of(t);
    for at in from..v.len()
        invariant
            v@ == t@,
            from <= t@.len(),
            titled_label_end(t@, from as int, at as int) == titled_label_end(
                t@,
                from as int,
                from as int,
            ),
    {
        if v[at] == '.' {
            let tokens = words(t.substring_char(from, at));
            let count = tokens.len();
            if count > 0 && tokens[count - 1].as_str().unicode_len() > 1 {
                assert(tokens@[count - 1]@ == tokens.deep_view()[count - 1]);
                return Some(at);
            }
            assert(count > 0 ==> tokens@[count - 1]@ == tokens.deep_view()[count - 1]);
        }
    }
    None
}

/// Whether a word can stand in a name after the title: it is capitalised or a particle.
pub open spec fn name_word(w: Seq<char>) -> bool {
    ||| w.len() > 0 && within(CharClass::Uppercase, w[0])
    ||| w == "de"@
    ||| w == "van"@
    ||| w == "von"@
    ||| w == "der"@
    ||| w == "den"@
    ||| w == "la"@
    ||| w == "del"@
}

fn is_name_word(w: &str) -> (r: bool)
    ensures
        r == name_word(w@),
{
    let capital = match first_char(w) {
        Some(c) => char_within(CharClass::Uppercase, c),
        None => false,
    };
    capital
        || same(w, "de")
        || same(w, "van")
        || same(w, "von")
        || same(w, "der")
        || same(w, "den")
        || same(w, "la")
        || same(w, "del")
}

/// Whether a text reads like a title and a name.
pub open spec fn titled_name(label: Seq<char>) -> bool {
    &&& label.len() > 0
    &&& byte_len(label) <= 80
    &&& all_within(label, CharClass::NameCharacter)
    &&& forall|i: int| 1 <= i < words_of(label).len() ==> name_word(#[trigger] words_of(label)[i])
    &&& 2 <= words_of(label).len() <= 6
    &&& !any_within(label, CharClass::Digit)
}

fn is_titled_name(label: &str) -> (r: bool)
    ensures
        r == titled_name(label@),
{
    if label.is_empty() || len_bytes(label) > 80 || !all_chars(label, CharClass::NameCharacter) {
        return false;
    }
    let tokens = words(label);
    let count = tokens.len();
    if count < 2 || count > 6 || any_char(label, CharClass::Digit) {
        return false;
    }
    for i in 1..count
        invariant
            tokens.deep_view() == words_of(label@),
            count == tokens@.len(),
            forall|j: int| 1 <= j < i ==> name_word(#[trigger] words_of(label@)[j]),
    {
        assert(tokens@[i as int]@ == words_of(label@)[i as int]);
        if !is_name_word(tokens[i].as_str()) {
            return false;
        }
    }
    true
}

/// The label and the body of a turn that opens with a title, a name and a full stop.
pub open spec fn titled_turn(text: Seq<char>) -> Option<(Seq<char>, Seq<char>)> {
    let t = trimmed(text);
    match title_len(uppercased(t)) {
        Some(from) => match titled_label_end(t, from as int, from as int) {
            Some(end) => {
                let label = trimmed(t.subrange(0, end));
                if titled_name(label) {
                    Some((label, trimmed(t.subrange(end + 1, t.len() as int))))
                } else {
                    None
                }
            },
            None => None,
        },
        None => None,
    }
}

pub fn split_titled_speaker_prefix(text: &str) -> (r: Option<(&str, &str)>)
    ensures
        r.deep_view() == titled_turn(text@),
{
    let t = trim(text);
    let from = match title_length(to_upper(t).as_str()) {
        Some(n) => n,
        None => {
            return None;
        },
    };
    let end = match find_titled_label_end(t, from) {
        Some(at) => at,
        None => {
            return None;
        },
    };
    let len = t.unicode_len();
    let label = trim(t.substring_char(0, end));
    if is_titled_name(label) {
        Some((label, trim(t.substring_char(end + 1, len))))
    } else {
        None
    }
}

/// The label and the body of a turn that opens with a label of either form.
pub open spec fn labelled_turn(text: Seq<char>) -> Option<(Seq<char>, Seq<char>)> {
    match colon_turn(text) {
        Some(turn) => Some(turn),
        None => titled_turn(text),
    }
}

/// Computes [`labelled_turn`].
pub fn split_any_speaker_prefix(text: &str) -> (r: Option<(&str, &str)>)
    ensures
        r.deep_view() == labelled_turn(text@),
{
    match split_colon_label(text) {
        Some(turn) => Some(turn),
        None => split_titled_speaker_prefix(text),
    }
}

/// The name that an introduction puts forward, before it is looked at.
pub open spec fn introduction_candidate(t: Seq<char>) -> Option<Seq<char>> {
    let u = uppercased(t);
    if has_prefix(u, "WITNESS: "@) {
        Some(t.subrange("WITNESS: "@.len() as int, t.len() as int))
    } else if has_prefix(u, "DEPONENT: "@) {
        Some(t.subrange("DEPONENT: "@.len() as int, t.len() as int))
    } else {
        match split_at_first(t, ',') {
            Some((name, description)) => {
                let d = uppercased(trimmed(description));
                if has_prefix(d, "HAVING BEEN"@) || has_prefix(d, "BEING FIRST"@) || has_prefix(
                    d,
                    "CALLED AS A WITNESS"@,
                ) {
                    Some(name)
                } else {
                    None
                }
            },
            None => None,
        }
    }
}

/// The witness that a line introduces.
pub open spec fn introduced_witness(text: Seq<char>) -> Option<Seq<char>> {
    match introduction_candidate(trimmed(text)) {
        Some(candidate) => {
            let name = trimmed(candidate);
            if 2 <= words_of(name).len() <= 6 && all_within(name, CharClass::NameCharacter) {
                Some(name)
            } else {
                None
            }
        },
        None => None,
    }
}

fn find_introduction_candidate(t: &str) -> (r: Option<&str>)
    ensures
        r.deep_view() == introduction_candidate(t@),
{
    let upper = to_upper(t);
    if starts_with(upper.as_str(), "WITNESS: ") {
        return Some(t.substring_char("WITNESS: ".unicode_len(), t.unicode_len()));
    }
    if starts_with(upper.as_str(), "DEPONENT: ") {
        return Some(t.substring_char("DEPONENT: ".unicode_len(), t.unicode_len()));
    }
    match split_once(t, ',') {
        Some((name, description)) => {
            let d = to_upper(trim(description));
            if starts_with(d.as_str(), "HAVING BEEN") || starts_with(d.as_str(), "BEING FIRST")
                || starts_with(d.as_str(), "CALLED AS A WITNESS") {
                Some(name)
            } else {
                None
            }
        },
        None => None,
    }
}

/// Explicit introductions establish a witness; a name mentioned in testimony does not.
pub fn witness_introduction(text: &str) -> (r: Option<&str>)
    ensures
        r.deep_view() == introduced_witness(text@),
{
    match find_introduction_candidate(trim(text)) {
        Some(candidate) => {
            let name = trim(candidate);
            let count = words(name).len();
            if 2 <= count && count <= 6 && all_chars(name, CharClass::NameCharacter) {
                Some(name)
            } else {
                None
            }
        },
        None => None,
    }
}

// ---------------------------------------------------------------------------
// Speakers that the document does not name
// ---------------------------------------------------------------------------

/// The witness of a document that names none.
pub open spec fn default_witness() -> SpeakerView {
    SpeakerView {
        participant_id: Some("witness_1"@),
        label: "THE WITNESS"@,
        role: SpeakerRole::Witness,
        redacted: false,
    }
}

pub fn witness_speaker(context: &TranscriptContext) -> (r: Speaker)
    ensures
        r.deep_view() == match context.deep_view().primary_witness {
            Some(s) => s,
            None => default_witness(),
        },
{
    match &context.primary_witness {
        Some(s) => s.clone(),
        None => Speaker {
            participant_id: Some("witness_1".to_owned()),
            label: "THE WITNESS".to_owned(),
            role: SpeakerRole::Witness,
            redacted: false,
        },
    }
}

/// An examiner of whom nothing is known.
pub open spec fn unnamed_attorney() -> SpeakerView {
    SpeakerView {
        participant_id: None,
        label: "UNKNOWN ATTORNEY"@,
        role: SpeakerRole::Attorney,
        redacted: false,
    }
}

pub fn unknown_attorney() -> (r: Speaker)
    ensures
        r.deep_view() == unnamed_attorney(),
{
    Speaker {
        participant_id: None,
        label: "UNKNOWN ATTORNEY".to_owned(),
        role: SpeakerRole::Attorney,
        redacted: false,
    }
}

/// The word for a role in identifiers.
pub open spec fn role_word(role: SpeakerRole) -> Seq<char> {
    match role {
        SpeakerRole::Witness => "witness"@,
        SpeakerRole::Attorney => "attorney"@,
        SpeakerRole::Interpreter => "interpreter"@,
        SpeakerRole::CourtReporter => "reporter"@,
        SpeakerRole::Judge => "judge"@,
        SpeakerRole::Videographer => "videographer"@,
        SpeakerRole::Unknown => "speaker"@,
    }
}

/// Computes [`role_word`].
pub fn role_name(role: SpeakerRole) -> (r: &'static str)
    ensures
        r@ == role_word(role),
{
    match role {
        SpeakerRole::Witness => "witness",
        SpeakerRole::Attorney => "attorney",
        SpeakerRole::Interpreter => "interpreter",
        SpeakerRole::CourtReporter => "reporter",
        SpeakerRole::Judge => "judge",
        SpeakerRole::Videographer => "videographer",
        SpeakerRole::Unknown => "speaker",
    }
}

/// A speaker without a name: identified by role and sequence number.
pub open spec fn nameless_speaker(role: SpeakerRole, sequence: nat, redacted: bool) -> SpeakerView {
    SpeakerView {
        participant_id: Some(
            role_word(role) + if redacted {
                "_redacted_"@
            } else {
                "_anonymous_"@
            } + decimal(sequence),
        ),
        label: if redacted {
            "[REDACTED]"@
        } else {
            "ANONYMOUS "@ + uppercased(role_word(role)) + " "@ + decimal(sequence)
        },
        role,
        redacted,
    }
}

pub fn anonymous_speaker(role: SpeakerRole, sequence: usize, redacted: bool) -> (r: Speaker)
    ensures
        r.deep_view() == nameless_speaker(role, sequence as nat, redacted),
{
    let name = role_name(role);
    let mut id = name.to_owned().concat(
        if redacted {
            "_redacted_"
        } else {
            "_anonymous_"
        },
    );
    push_decimal(&mut id, sequence as u64);
    let label = if redacted {
        "[REDACTED]".to_owned()
    } else {
        let mut label = "ANONYMOUS ".to_owned().concat(to_upper(name).as_str()).concat(" ");
        push_decimal(&mut label, sequence as u64);
        label
    };
    Speaker { participant_id: Some(id), label, role, redacted }
}

// ---------------------------------------------------------------------------
// Identifiers
// ---------------------------------------------------------------------------

/// The identifier of a label: its bytes in upper case, in hexadecimal.
pub open spec fn id_of_label(label: Seq<char>) -> Seq<char> {
    "label_"@ + hex(encode_utf8(uppercased(trimmed(label))))
}

pub fn label_id(label: &str) -> (r: String)
    ensures
        r@ == id_of_label(label@),
{
    let upper = to_upper(trim(label));
    "label_".to_owned().concat(hex_string(upper.as_str().as_bytes()).as_str())
}

proof fn lemma_hex_injective(a: Seq<u8>, b: Seq<u8>, m: int, n: int)
    requires
        0 <= m <= a.len(),
        0 <= n <= b.len(),
        hex_first(a, m) == hex_first(b, n),
    ensures
        a.take(m) == b.take(n),
    decreases m,
{
    lemma_hex_len(a, m);
    lemma_hex_len(b, n);
    assert(m == n);
    if m > 0 {
        let x = hex_first(a, m);
        let y = hex_first(b, n);
        assert(x[2 * m - 1] == hex_char(a[m - 1] as int % 16));
        assert(y[2 * m - 1] == hex_char(b[m - 1] as int % 16));
        assert(x[2 * m - 2] == hex_char(a[m - 1] as int / 16));
        assert(y[2 * m - 2] == hex_char(b[m - 1] as int / 16));
        assert(x.take(2 * m - 2) =~= hex_first(a, m - 1));
        assert(y.take(2 * m - 2) =~= hex_first(b, n - 1));
        lemma_hex_injective(a, b, m - 1, n - 1);
        assert(a.take(m) =~= a.take(m - 1).push(a[m - 1]));
        assert(b.take(n) =~= b.take(n - 1).push(b[n - 1]));
    }
}

proof fn lemma_hex_len(a: Seq<u8>, m: int)
    requires
        0 <= m <= a.len(),
    ensures
        hex_first(a, m).len() == 2 * m,
    decreases m,
{
    if m > 0 {
        lemma_hex_len(a, m - 1);
    }
}

/// Two labels share an identifier exactly when they differ at most in surrounding white
/// space and in the case of ASCII letters.
pub proof fn law_label_identity(a: Seq<char>, b: Seq<char>)
    ensures
        id_of_label(a) == id_of_label(b) <==> same_ignoring_case(trimmed(a), trimmed(b)),
{
    let x = uppercased(trimmed(a));
    let y = uppercased(trimmed(b));
    if id_of_label(a) == id_of_label(b) {
        let k = "label_"@.len() as int;
        assert(id_of_label(a).skip(k) =~= hex(encode_utf8(x)));
        assert(id_of_label(b).skip(k) =~= hex(encode_utf8(y)));
        let p = encode_utf8(x);
        let q = encode_utf8(y);
        lemma_hex_injective(p, q, p.len() as int, q.len() as int);
        assert(p.take(p.len() as int) =~= p);
        assert(q.take(q.len() as int) =~= q);
        encode_utf8_decode_utf8(x);
        encode_utf8_decode_utf8(y);
    }
}

/// Redacted speakers of one role with different numbers are told apart.
pub proof fn law_nameless_speakers_distinct(role: SpeakerRole, m: nat, n: nat, redacted: bool)
    requires
        m != n,
    ensures
        nameless_speaker(role, m, redacted).participant_id != nameless_speaker(
            role,
            n,
            redacted,
        ).participant_id,
{
    let a = nameless_speaker(role, m, redacted).participant_id->0;
    let b = nameless_speaker(role, n, redacted).participant_id->0;
    if a == b {
        let prefix = role_word(role) + if redacted {
            "_redacted_"@
        } else {
            "_anonymous_"@
        };
        assert(a.skip(prefix.len() as int) =~= decimal(m));
        assert(b.skip(prefix.len() as int) =~= decimal(n));
        crate::number::lemma_decimal_injective(m, n);
    }
}

// ---------------------------------------------------------------------------
// Laws of labels
// ---------------------------------------------------------------------------

/// A label stands for a name that was taken out where it says so, is blacked out in three places or
/// more, or is crossed out over at least four bytes. A blank one does not.
pub proof fn law_labels_are_redacted_so(label: Seq<char>)
    ensures
        ({
            let t = trimmed(label);
            let u = uppercased(t);
            let says = has_infix(u, "[REDACTED]"@) || has_infix(u, "NAME REDACTED"@) || has_infix(
                u,
                "REDACTED NAME"@,
            ) || has_infix(u, "NAME WITHHELD"@) || has_infix(u, "[SEALED]"@) || u == "REDACTED"@
                || u == "SEALED"@;
            let crossed = byte_len(t) >= 4 && forall|i: int|
                0 <= i < t.len() ==> within(CharClass::CrossOut, #[trigger] t[i]);
            redacted_label(label) <==> t.len() > 0 && (says || count_within(
                t,
                CharClass::RedactionBlock,
            ) >= 3 || crossed)
        }),
{
}

/// A text mentions a redaction where it holds one of these phrases, in any case, or three blocks.
pub proof fn law_redactions_are_mentioned_so(text: Seq<char>)
    ensures
        ({
            let u = uppercased(text);
            mentions_redaction(text) <==> has_infix(u, "[REDACTED]"@) || has_infix(
                u,
                "[NAME REDACTED]"@,
            ) || has_infix(u, "[REDACTED NAME]"@) || has_infix(u, "NAME REDACTED"@) || has_infix(
                u,
                "NAME WITHHELD"@,
            ) || has_infix(u, "DOJ REDACTION"@) || has_infix(u, "[SEALED]"@) || count_within(
                text,
                CharClass::RedactionBlock,
            ) >= 3
        }),
{
}

/// A text is nothing but a redaction where it is one of these markers, colons around it aside, or
/// at least three characters of filling.
pub proof fn law_bare_redactions(text: Seq<char>)
    ensures
        ({
            let t = trimmed(stripped(trimmed(text), CharClass::Is(':')));
            let u = uppercased(t);
            let filled = t.len() >= 3 && forall|i: int|
                0 <= i < t.len() ==> within(CharClass::RedactionFill, #[trigger] t[i]);
            pure_redaction(text) <==> u == "[REDACTED]"@ || u == "[NAME REDACTED]"@ || u
                == "[REDACTED NAME]"@ || u == "[NAME WITHHELD]"@ || u == "[SEALED]"@ || u
                == "REDACTED"@ || u == "SEALED"@ || u == "NAME WITHHELD"@ || filled
        }),
{
}

/// A turn with a colon is split there: the label is what stands before the first colon and the body
/// what stands behind it, both without white space around them. The label is not blank, not longer
/// than 80 bytes, no heading, and one that tells a speaker, a name in capitals or a redaction.
pub proof fn law_turns_with_a_colon(text: Seq<char>)
    ensures
        ({
            let halves = split_at_first(trimmed(text), ':');
            let label = trimmed((halves->0).0);
            let names = label_speaker(label) is Some || capital_name(label) || redacted_label(
                label,
            );
            let turn = halves is Some && !structural_label(label) && 0 < label.len() && byte_len(
                label,
            ) <= 80 && names;
            &&& turn ==> colon_turn(text) == Some((label, trimmed((halves->0).1)))
            &&& !turn ==> colon_turn(text) is None
        }),
{
}

/// What is a heading or a marker and so no name: the words that stand alone, and those that a label
/// opens with.
pub proof fn law_headings_are_no_names(label: Seq<char>)
    ensures
        ({
            let u = uppercased(trimmed(label));
            let word = u == "Q"@ || u == "A"@ || u == "QUESTION"@ || u == "ANSWER"@ || u
                == "APPEARANCES"@ || u == "PRESENT"@ || u == "INTERVIEW OF"@ || u
                == "DEPOSITION OF"@ || u == "CASE NO"@ || u == "CASE NO."@ || u == "DATE"@ || u
                == "TIME"@ || u == "NOTE"@ || u == "NOTES"@ || u == "EXHIBITS"@ || u == "INDEX"@;
            let opens = has_prefix(u, "FOR "@) || has_prefix(u, "BY "@) || has_prefix(
                u,
                "CERTIFICATE"@,
            ) || has_prefix(u, "EXAMINATION"@) || has_prefix(u, "IN THE "@);
            structural_label(label) <==> word || opens
        }),
{
}

/// A name in capitals has one to six words, at least one letter, no letter that is neither a
/// capital nor a mark of a name, and nothing but what names are made of.
pub proof fn law_names_in_capitals(label: Seq<char>)
    ensures
        capital_name(label) <==> 1 <= words_of(label).len() && words_of(label).len() <= 6 && (exists|
            i: int,
        |
            0 <= i < label.len() && within(CharClass::Alphabetic, #[trigger] label[i])) && (forall|
            i: int,
        |
            0 <= i < label.len() ==> within(CharClass::NameCharacter, #[trigger] label[i])
                && !within(CharClass::OtherLetter, label[i])),
{
    if capital_name(label) {
        assert forall|i: int| 0 <= i < label.len() implies within(
            CharClass::NameCharacter,
            #[trigger] label[i],
        ) && !within(CharClass::OtherLetter, label[i]) by {}
    }
}

/// A label in capitals has one to seven words and at least two letters, four in five of them
/// capitals, and is no marker of a question or an answer.
pub proof fn law_labels_in_capitals(label: Seq<char>)
    ensures
        ({
            let t = trimmed(label);
            let letters = count_within(t, CharClass::Alphabetic);
            let capitals = count_within(t, CharClass::UppercaseLetter);
            mostly_capitals(label) <==> 1 <= words_of(t).len() && words_of(t).len() <= 7 && t
                != "Q"@ && t != "A"@ && t != "QUESTION"@ && t != "ANSWER"@ && letters >= 2 && 5
                * capitals >= 4 * letters
        }),
{
}

proof fn lemma_titled_label_end(s: Seq<char>, from: int, at: int)
    requires
        0 <= at,
    ensures
        match titled_label_end(s, from, at) {
            Some(end) => at <= end < s.len() && s[end] == '.' && last_word_len(
                s.subrange(from, end),
            ) > 1 && forall|i: int|
                at <= i < end && #[trigger] s[i] == '.' ==> last_word_len(s.subrange(from, i)) <= 1,
            None => forall|i: int|
                at <= i < s.len() && #[trigger] s[i] == '.' ==> last_word_len(s.subrange(from, i))
                    <= 1,
        },
    decreases s.len() - at,
{
    if at < s.len() && !(s[at] == '.' && last_word_len(s.subrange(from, at)) > 1) {
        lemma_titled_label_end(s, from, at + 1);
    }
}

/// A turn with a title is split at the first full stop behind it that follows a word of more than
/// one letter, so not behind an initial. The label is a title and a name of at most six words, of
/// which each but the first is capitalised or a particle, without digits.
pub proof fn law_turns_with_a_title(text: Seq<char>)
    ensures
        ({
            let t = trimmed(text);
            let title = title_len(uppercased(t));
            &&& title is None ==> titled_turn(text) is None
            &&& title is Some ==> {
                let from = title->0 as int;
                let stops = |i: int|
                    from <= i && i < t.len() && t[i] == '.' && last_word_len(t.subrange(from, i))
                        > 1;
                &&& (forall|i: int| from <= i && i < t.len() && #[trigger] t[i] == '.' ==> !stops(i))
                    ==> titled_turn(text) is None
                &&& forall|end: int|
                    stops(end) && (forall|i: int|
                        from <= i && i < end && #[trigger] t[i] == '.' ==> !stops(i))
                        ==> #[trigger] titled_label_end(t, from, from) == Some(end)
                &&& titled_label_end(t, from, from) matches Some(end) ==> {
                    let label = trimmed(t.subrange(0, end));
                    &&& titled_name(label) ==> titled_turn(text) == Some(
                        (label, trimmed(t.subrange(end + 1, t.len() as int))),
                    )
                    &&& !titled_name(label) ==> titled_turn(text) is None
                }
            }
        }),
{
    let t = trimmed(text);
    if let Some(from) = title_len(uppercased(t)) {
        lemma_titled_label_end(t, from as int, from as int);
    }
}

/// What a title and a name is made of.
pub proof fn law_titled_names(label: Seq<char>)
    ensures
        ({
            let list = words_of(label);
            let named = |w: Seq<char>|
                (w.len() > 0 && within(CharClass::Uppercase, w[0])) || w == "de"@ || w == "van"@ || w
                    == "von"@ || w == "der"@ || w == "den"@ || w == "la"@ || w == "del"@;
            titled_name(label) <==> label.len() > 0 && byte_len(label) <= 80 && 2 <= list.len()
                && list.len() <= 6 && (forall|i: int|
                1 <= i < list.len() ==> named(#[trigger] list[i])) && (forall|i: int|
                0 <= i < label.len() ==> within(CharClass::NameCharacter, #[trigger] label[i])
                    && !within(CharClass::Digit, label[i]))
        }),
{
    if titled_name(label) {
        assert forall|i: int| 0 <= i < label.len() implies within(
            CharClass::NameCharacter,
            #[trigger] label[i],
        ) && !within(CharClass::Digit, label[i]) by {}
    }
}

/// A label with a colon comes before one with a title.
pub proof fn law_colons_come_first(text: Seq<char>)
    ensures
        colon_turn(text) is Some ==> labelled_turn(text) == colon_turn(text),
        colon_turn(text) is None ==> labelled_turn(text) == titled_turn(text),
{
}

/// A line introduces a witness where it says so in front, or where a comma and words of being sworn
/// or called follow a name; the name has two to six words.
pub proof fn law_witnesses_are_introduced(text: Seq<char>)
    ensures
        ({
            let t = trimmed(text);
            let u = uppercased(t);
            let halves = split_at_first(t, ',');
            let d = uppercased(trimmed((halves->0).1));
            let sworn = halves is Some && (has_prefix(d, "HAVING BEEN"@) || has_prefix(
                d,
                "BEING FIRST"@,
            ) || has_prefix(d, "CALLED AS A WITNESS"@));
            let witness = has_prefix(u, "WITNESS: "@);
            let deponent = !witness && has_prefix(u, "DEPONENT: "@);
            let fits = |name: Seq<char>|
                2 <= words_of(name).len() && words_of(name).len() <= 6 && all_within(
                    name,
                    CharClass::NameCharacter,
                );
            let taken = |name: Seq<char>|
                introduced_witness(text) == if fits(name) {
                    Some(name)
                } else {
                    None
                };
            &&& witness ==> taken(trimmed(t.skip(9)))
            &&& deponent ==> taken(trimmed(t.skip(10)))
            &&& !witness && !deponent && sworn ==> taken(trimmed((halves->0).0))
            &&& !witness && !deponent && !sworn ==> introduced_witness(text) is None
        }),
{
    let t = trimmed(text);
    reveal_strlit("WITNESS: ");
    reveal_strlit("DEPONENT: ");
    if has_prefix(uppercased(t), "WITNESS: "@) {
        assert(t.subrange(9, t.len() as int) =~= t.skip(9));
    } else if has_prefix(uppercased(t), "DEPONENT: "@) {
        assert(t.subrange(10, t.len() as int) =~= t.skip(10));
    }
}

/// A speaker without a name is known by role and number, and shown as redacted or anonymous.
pub proof fn law_nameless_speakers_are_numbered(role: SpeakerRole, n: nat)
    ensures
        ({
            let word = match role {
                SpeakerRole::Witness => "witness"@,
                SpeakerRole::Attorney => "attorney"@,
                SpeakerRole::Interpreter => "interpreter"@,
                SpeakerRole::CourtReporter => "reporter"@,
                SpeakerRole::Judge => "judge"@,
                SpeakerRole::Videographer => "videographer"@,
                SpeakerRole::Unknown => "speaker"@,
            };
            let hidden = nameless_speaker(role, n, true);
            let open = nameless_speaker(role, n, false);
            &&& hidden.redacted && !open.redacted
            &&& hidden.role == role && open.role == role
            &&& hidden.label == "[REDACTED]"@
            &&& open.label == "ANONYMOUS "@ + uppercased(word) + " "@ + decimal(n)
            &&& hidden.participant_id == Some(word + "_redacted_"@ + decimal(n))
            &&& open.participant_id == Some(word + "_anonymous_"@ + decimal(n))
        }),
{
}

/// The titles that a turn may open with. The label goes on behind the one that it opens with.
pub proof fn law_titles_open_turns(u: Seq<char>)
    ensures
        has_prefix(u, "MR. "@) ==> title_len(u) is Some,
        has_prefix(u, "MR "@) ==> title_len(u) is Some,
        has_prefix(u, "MS. "@) ==> title_len(u) is Some,
        has_prefix(u, "MS "@) ==> title_len(u) is Some,
        has_prefix(u, "MRS. "@) ==> title_len(u) is Some,
        has_prefix(u, "MRS "@) ==> title_len(u) is Some,
        has_prefix(u, "MISS "@) ==> title_len(u) is Some,
        has_prefix(u, "CHAIRMAN "@) ==> title_len(u) is Some,
        has_prefix(u, "CHAIRWOMAN "@) ==> title_len(u) is Some,
        has_prefix(u, "CONGRESSMAN "@) ==> title_len(u) is Some,
        has_prefix(u, "CONGRESSWOMAN "@) ==> title_len(u) is Some,
        has_prefix(u, "REPRESENTATIVE "@) ==> title_len(u) is Some,
        has_prefix(u, "SENATOR "@) ==> title_len(u) is Some,
        has_prefix(u, "GOVERNOR "@) ==> title_len(u) is Some,
        has_prefix(u, "DR. "@) ==> title_len(u) is Some,
        has_prefix(u, "DR "@) ==> title_len(u) is Some,
        has_prefix(u, "JUDGE "@) ==> title_len(u) is Some,
        has_prefix(u, "JUSTICE "@) ==> title_len(u) is Some,
        has_prefix(u, "THE WITNESS "@) ==> title_len(u) is Some,
        title_len(u) matches Some(k) ==> ((has_prefix(u, "MR. "@) && k == 4)
            || (has_prefix(u, "MR "@) && k == 3)
            || (has_prefix(u, "MS. "@) && k == 4)
            || (has_prefix(u, "MS "@) && k == 3)
            || (has_prefix(u, "MRS. "@) && k == 5)
            || (has_prefix(u, "MRS "@) && k == 4)
            || (has_prefix(u, "MISS "@) && k == 5)
            || (has_prefix(u, "CHAIRMAN "@) && k == 9)
            || (has_prefix(u, "CHAIRWOMAN "@) && k == 11)
            || (has_prefix(u, "CONGRESSMAN "@) && k == 12)
            || (has_prefix(u, "CONGRESSWOMAN "@) && k == 14)
            || (has_prefix(u, "REPRESENTATIVE "@) && k == 15)
            || (has_prefix(u, "SENATOR "@) && k == 8)
            || (has_prefix(u, "GOVERNOR "@) && k == 9)
            || (has_prefix(u, "DR. "@) && k == 4)
            || (has_prefix(u, "DR "@) && k == 3)
            || (has_prefix(u, "JUDGE "@) && k == 6)
            || (has_prefix(u, "JUSTICE "@) && k == 8)
            || (has_prefix(u, "THE WITNESS "@) && k == 12)),
{
    reveal_strlit("MR. ");
    reveal_strlit("MR ");
    reveal_strlit("MS. ");
    reveal_strlit("MS ");
    reveal_strlit("MRS. ");
    reveal_strlit("MRS ");
    reveal_strlit("MISS ");
    reveal_strlit("CHAIRMAN ");
    reveal_strlit("CHAIRWOMAN ");
    reveal_strlit("CONGRESSMAN ");
    reveal_strlit("CONGRESSWOMAN ");
    reveal_strlit("REPRESENTATIVE ");
    reveal_strlit("SENATOR ");
    reveal_strlit("GOVERNOR ");
    reveal_strlit("DR. ");
    reveal_strlit("DR ");
    reveal_strlit("JUDGE ");
    reveal_strlit("JUSTICE ");
    reveal_strlit("THE WITNESS ");
}

} // verus!
