//! Labels, markers and who is behind them.
use transcript_decoder::document::models::{
    DocumentKind, DocumentMetadata, ExtractedDocument, PageSection,
};
use transcript_decoder::document::plain::empty_signal_page;
use transcript_decoder::transcript::classify::{classify_line, looks_like_objection, ParserState};
use transcript_decoder::transcript::error::TranscriptParseError;
use transcript_decoder::transcript::format::{explicit_page_marker, pure_numeric_page};
use transcript_decoder::transcript::markers::{
    default_marker_rules, detect_marker_candidate, match_marker,
};
use transcript_decoder::transcript::models::{
    LineKind, MarkerKind, MarkerStyle, SpeakerRole, TranscriptContext,
};
use transcript_decoder::transcript::people::{by_heading_label, canonicalize_label};
use transcript_decoder::transcript::preflight::preflight_transcript;
use transcript_decoder::transcript::profile::TranscriptProfile;
use transcript_decoder::transcript::speaker::{
    anonymous_speaker, contains_redaction_marker, is_pure_redaction_marker, is_redacted_label,
    label_id, speaker_from_label, split_colon_label, split_titled_speaker_prefix,
    witness_introduction,
};

fn context(text: &str) -> TranscriptContext {
    let mut page = empty_signal_page(1, text.to_string());
    page.section = PageSection::Transcript;
    let document = ExtractedDocument {
        kind: DocumentKind::Text,
        metadata: DocumentMetadata::default(),
        pages: vec![page],
    };
    preflight_transcript(&document, &TranscriptProfile::us_english())
}

#[test]
fn labels_that_differ_in_case_share_an_identifier() {
    assert_eq!(label_id(" Mr. Smith "), label_id("MR. SMITH"));
    assert_ne!(label_id("MR. SMITH"), label_id("MR. SMYTH"));
    assert_ne!(label_id("MR.  SMITH"), label_id("MR. SMITH"));
    assert_eq!(canonicalize_label(" Mr.  Smith "), "MR. SMITH");
}

#[test]
fn nameless_speakers_are_told_apart() {
    let first = anonymous_speaker(SpeakerRole::Attorney, 1, true);
    let second = anonymous_speaker(SpeakerRole::Attorney, 2, true);
    assert!(first.redacted);
    assert_ne!(first.participant_id, second.participant_id);
}

#[test]
fn labels_tell_roles() {
    let role = |label: &str| speaker_from_label(label).map(|speaker| speaker.role);
    assert_eq!(role("THE WITNESS"), Some(SpeakerRole::Witness));
    assert_eq!(role("THE COURT"), Some(SpeakerRole::Judge));
    assert_eq!(role("THE INTERPRETER"), Some(SpeakerRole::Interpreter));
    assert_eq!(role("THE REPORTER"), Some(SpeakerRole::CourtReporter));
    assert_eq!(role("THE VIDEOGRAPHER"), Some(SpeakerRole::Videographer));
    assert_eq!(role("DAVID MARKUS"), None);
}

#[test]
fn labels_end_at_a_colon_or_follow_a_title() {
    assert_eq!(split_colon_label("MR. SMITH: Yes."), Some(("MR. SMITH", "Yes.")));
    assert_eq!(split_colon_label("at 10:30 we left"), None);
    assert_eq!(split_titled_speaker_prefix("nothing here"), None);
    assert_eq!(by_heading_label("BY MR. SMITH:"), Some("MR. SMITH"));
    assert_eq!(by_heading_label("by the way"), None);
}

#[test]
fn redactions_are_recognized() {
    assert!(is_redacted_label("[REDACTED]"));
    assert!(is_redacted_label("\u{2588}\u{2588}\u{2588}"));
    assert!(!is_redacted_label("MR. SMITH"));
    assert!(contains_redaction_marker("Did [REDACTED] come?"));
    assert!(is_pure_redaction_marker(" [REDACTED] "));
    assert!(!is_pure_redaction_marker("Did [REDACTED] come?"));
}

#[test]
fn letter_markers_keep_their_case() {
    assert_eq!(
        detect_marker_candidate("Q. Where?"),
        Some((MarkerKind::Question, MarkerStyle::Dot, "Q."))
    );
    assert_eq!(detect_marker_candidate("q. where?"), None);
    assert_eq!(
        detect_marker_candidate("question: where?"),
        Some((MarkerKind::Question, MarkerStyle::Word, "QUESTION:"))
    );
    assert_eq!(
        detect_marker_candidate("A  Yes"),
        Some((MarkerKind::Answer, MarkerStyle::BareUppercase, "A"))
    );
    assert_eq!(default_marker_rules().len(), 8);
}

#[test]
fn bare_letters_need_a_pair() {
    assert!(match_marker("A Yes.", &context("A Yes.")).is_none());
    let paired = context("Q Where?\nA Home.");
    let found = match_marker("A Yes.", &paired).unwrap();
    assert_eq!(found.style, MarkerStyle::BareUppercase);
    assert_eq!(found.remainder, "Yes.");
    assert_eq!(found.priority, 2);
}

#[test]
fn redacted_examiners_in_turn_are_told_apart() {
    let paired = context("Q. Where?\nA. Home.");
    let mut state = ParserState::new(None);
    let first = classify_line("BY [REDACTED]:", &mut state, &paired, true);
    let second = classify_line("BY [REDACTED]:", &mut state, &paired, true);
    assert_eq!(first.kind, LineKind::ExaminationHeading);
    assert_ne!(
        first.speaker.unwrap().participant_id,
        second.speaker.unwrap().participant_id
    );
    let one = classify_line("[REDACTED]: A. Yes.", &mut state, &paired, true);
    let two = classify_line("[REDACTED]: A. No.", &mut state, &paired, true);
    assert_eq!(one.kind, LineKind::Answer);
    assert_eq!(
        one.speaker.unwrap().participant_id,
        two.speaker.unwrap().participant_id
    );
}

#[test]
fn lines_are_classified_by_what_they_show() {
    let paired = context("Q. Where?\nA. Home.");
    let mut state = ParserState::new(None);
    let mut kind = |text: &str| classify_line(text, &mut state, &paired, true).kind;
    assert_eq!(kind("some words"), LineKind::Unknown);
    assert_eq!(kind("CROSS-EXAMINATION"), LineKind::ExaminationHeading);
    assert_eq!(kind("Q. Where?"), LineKind::Question);
    assert_eq!(kind("on that day"), LineKind::Question);
    assert_eq!(kind("A. Home."), LineKind::Answer);
    assert_eq!(kind("THE COURT: Go on."), LineKind::JudgeStatement);
    assert_eq!(kind("(Exhibit 4 was marked"), LineKind::ExhibitMarker);
    assert_eq!(kind("for identification.)"), LineKind::ExhibitMarker);
    assert_eq!(kind("Objection, form."), LineKind::Objection);
    assert_eq!(kind("[REDACTED]"), LineKind::RedactionMarker);
    assert_eq!(kind("STIPULATIONS"), LineKind::Heading);
    assert_eq!(kind("some words"), LineKind::Unknown);
    assert!(looks_like_objection("I object to that"));
    assert!(!looks_like_objection("the object"));
}

#[test]
fn an_introduced_witness_opens_a_new_scope() {
    let paired = context("Q. Where?\nA. Home.");
    let mut state = ParserState::new(None);
    assert_eq!(
        witness_introduction("JANE DOE, having been first duly sworn"),
        Some("JANE DOE")
    );
    assert_eq!(witness_introduction("Jane, having been there"), None);
    let heading = classify_line("WITNESS: JANE DOE", &mut state, &paired, true);
    assert_eq!(heading.kind, LineKind::Heading);
    assert_eq!(heading.speaker.unwrap().label, "JANE DOE");
    classify_line("Q. Where?", &mut state, &paired, true);
    let answer = classify_line("A. Home.", &mut state, &paired, true);
    let witness = answer.speaker.unwrap();
    assert_eq!(witness.role, SpeakerRole::Witness);
    assert_eq!(witness.label, "JANE DOE");
}

#[test]
fn page_labels_are_numbers() {
    assert_eq!(explicit_page_marker("Page 12"), Some(12));
    assert_eq!(explicit_page_marker("PAGE x"), None);
    assert_eq!(pure_numeric_page(" 00074 "), Some(74));
    assert_eq!(pure_numeric_page("12345678"), None);
    assert_eq!(pure_numeric_page("+7"), None);
}

#[test]
fn a_transcript_without_lines_has_a_message() {
    assert_eq!(
        TranscriptParseError::NoTranscriptLines.message(),
        "No transcript lines could be detected."
    );
}
