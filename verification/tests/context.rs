//! What is learned of a document before its lines are parsed.
use transcript_decoder::document::models::{
    AnnotationSignal, DocumentKind, DocumentMetadata, ExtractedDocument, ExtractedPage, PageSection,
};
use transcript_decoder::document::plain::empty_signal_page;
use transcript_decoder::measure::Ratio;
use transcript_decoder::transcript::conventions::{
    build_marker_rules, marker_confidence, participant_confidence, sort_rules,
    speaker_only_dialogue_mode,
};
use transcript_decoder::transcript::gaps::{find_extreme, sort_numbers};
use transcript_decoder::transcript::language::detect_language;
use transcript_decoder::transcript::models::{
    DocumentType, GapKind, MarkerKind, MarkerStyle, ParticipantFunction, RedactionSignalKind,
    SpeakerRole,
};
use transcript_decoder::transcript::preflight::{build_page_contexts, preflight_transcript};
use transcript_decoder::transcript::profile::TranscriptProfile;
use transcript_decoder::transcript::redactions::truncate;

fn page(number: u32, section: PageSection, text: &str) -> ExtractedPage {
    let mut p = empty_signal_page(number, text.to_string());
    p.section = section;
    p
}

fn document(pages: Vec<ExtractedPage>) -> ExtractedDocument {
    ExtractedDocument { kind: DocumentKind::Text, metadata: DocumentMetadata::default(), pages }
}

fn dialogue(texts: &[&str]) -> ExtractedDocument {
    document(
        texts
            .iter()
            .enumerate()
            .map(|(i, text)| page(i as u32 + 1, PageSection::Transcript, text))
            .collect(),
    )
}

#[test]
fn markers_are_learned_where_they_open_a_line() {
    let doc = dialogue(&["Q. One?\nA. Two.\nMR. SMITH: A what?\nQ. Three?\nQUESTION. Four?"]);
    let rules = build_marker_rules(&doc, &TranscriptProfile::us_english());
    let count = |pattern: &str| {
        rules
            .iter()
            .filter(|rule| rule.pattern == pattern)
            .map(|rule| rule.observations)
            .sum::<usize>()
    };
    assert_eq!(count("Q."), 2);
    assert_eq!(count("A."), 1);
    assert_eq!(count("A"), 0);
    assert_eq!(count("QUESTION."), 1);
    let sorted = sort_rules(rules);
    assert_eq!(sorted[0].pattern, "Q.");
    assert_eq!(sorted[0].kind, MarkerKind::Question);
    assert_eq!(sorted[1].pattern, "A.");
    for pair in sorted.windows(2) {
        assert!(pair[0].priority <= pair[1].priority);
        assert!(
            pair[0].priority < pair[1].priority || pair[0].observations >= pair[1].observations
        );
    }
    assert_eq!(sorted.last().unwrap().style, MarkerStyle::Word);
}

#[test]
fn a_context_follows_every_page() {
    let doc = document(vec![
        page(1, PageSection::Cover, "DEPOSITION OF JANE DOE"),
        page(2, PageSection::Transcript, "PAGE 5\n1 Q. Where?\n2 A. Home."),
        page(3, PageSection::WordIndex, "PAGE 6\nalpha 5:1"),
    ]);
    let contexts = build_page_contexts(&doc, &TranscriptProfile::us_english());
    assert_eq!(contexts.len(), 3);
    for (i, context) in contexts.iter().enumerate() {
        assert_eq!(context.physical_page, i as u32 + 1);
        assert_eq!(context.section, doc.pages[i].section);
    }
    assert_eq!(contexts[1].transcript_page.as_deref(), Some("5"));
    assert_eq!(contexts[2].transcript_page, None);
}

#[test]
fn missing_pages_are_gaps() {
    let doc = dialogue(&[
        "PAGE 5\n1 Q. Where?\n2 A. Home.\n3 Q. When?",
        "PAGE 9\n1 A. At noon.\n2 Q. Sure?\n3 A. Yes.",
    ]);
    let context = preflight_transcript(&doc, &TranscriptProfile::us_english());
    assert_eq!(context.gaps.len(), 1);
    assert_eq!(context.gaps[0].kind, GapKind::MissingTranscriptPages);
    assert_eq!(context.gaps[0].missing_transcript_page_start, Some(6));
    assert_eq!(context.gaps[0].missing_transcript_page_end, Some(8));
    assert_eq!(context.typical_line_min, Some(1));
    assert_eq!(context.typical_line_max, Some(3));
    assert_eq!(context.source_completeness, Ratio { part: 6, whole: 15 });
    assert_eq!(context.format_confidence.pages, Ratio { part: 2, whole: 2 });
}

#[test]
fn numbers_are_sorted_once_each() {
    assert_eq!(sort_numbers(&vec![7, 3, 7, 1, 3]), [1, 3, 7]);
    assert_eq!(find_extreme(&vec![7, 3, 9], true), Some(3));
    assert_eq!(find_extreme(&vec![7, 3, 9], false), Some(9));
    assert_eq!(find_extreme(&vec![], true), None);
}

#[test]
fn english_is_told_by_its_words() {
    let english = dialogue(&["Were you at the house and of the mind to say that you were?"]);
    let hint = detect_language(&english);
    assert_eq!((hint.code.as_str(), hint.confidence), ("en", 92));
    let hint = detect_language(&dialogue(&["Bonjour tout le monde"]));
    assert_eq!(
        (hint.code.as_str(), hint.confidence, hint.dominant_script.as_str()),
        ("und", 65, "latin")
    );
    let hint = detect_language(&dialogue(&["\u{4e2d}\u{6587}\u{5b57} a"]));
    assert_eq!(hint.dominant_script, "cjk");
    let hint = detect_language(&dialogue(&["123 ..."]));
    assert_eq!((hint.name.as_str(), hint.confidence), ("Unknown", 10));
}

#[test]
fn documents_are_told_apart_by_their_headings() {
    let kind = |text: &str| {
        preflight_transcript(&dialogue(&[text]), &TranscriptProfile::us_english()).document_type
    };
    assert_eq!(kind("Interview of Jane Doe\ndeposition"), DocumentType::Interview);
    assert_eq!(kind("the deponent"), DocumentType::Deposition);
    assert_eq!(kind("before the arbitrator"), DocumentType::Arbitration);
    assert_eq!(kind("a hearing"), DocumentType::Hearing);
    assert_eq!(kind("trial transcript"), DocumentType::TrialTranscript);
    assert_eq!(
        kind("EXAMINATION\nQ. a\nA. b\nQ. c\nA. d"),
        DocumentType::Examination
    );
    assert_eq!(
        kind("Q. a\nA. b\nQ. c\nA. d\nQ. e\nA. f\nQ. g\nA. h"),
        DocumentType::OtherTranscript
    );
    assert_eq!(kind("nothing"), DocumentType::Unknown);
}

#[test]
fn participants_are_numbered_by_role_and_named_by_front_matter() {
    let doc = document(vec![
        page(
            1,
            PageSection::Cover,
            "DEPOSITION OF: JANE DOE\nJOHN Q. SMITH, ESQ., Attorney for Acme",
        ),
        page(
            2,
            PageSection::Transcript,
            "MR. SMITH: Q. Where were you?\nMS. DOE: A. At home.\nMR. JONES: Objection.",
        ),
    ]);
    let context = preflight_transcript(&doc, &TranscriptProfile::us_english());
    assert_eq!(context.document_type, DocumentType::Deposition);
    let by_label = |label: &str| {
        context
            .participants
            .iter()
            .find(|participant| participant.display_label == label)
            .unwrap()
    };
    let smith = by_label("MR. SMITH");
    assert_eq!(smith.id, "attorney_1");
    assert_eq!(smith.canonical_name.as_deref(), Some("JOHN Q. SMITH"));
    assert_eq!(smith.function, ParticipantFunction::Counsel);
    let doe = by_label("MS. DOE");
    assert_eq!(doe.role, SpeakerRole::Witness);
    assert_eq!(doe.canonical_name.as_deref(), Some("JANE DOE"));
    assert_eq!(by_label("MR. JONES").id, "attorney_2");
    assert_eq!(
        context.primary_witness.as_ref().unwrap().participant_id.as_deref(),
        Some(doe.id.as_str())
    );
    assert_eq!(
        participant_confidence(&context.participants, &context.marker_rules),
        Ratio { part: 3, whole: 3 }
    );
}

#[test]
fn confidence_in_markers_grows_with_their_number() {
    let profile = TranscriptProfile::us_english();
    let confidence = |text: &str| {
        let context = preflight_transcript(&dialogue(&[text]), &profile);
        marker_confidence(&context.marker_rules, &context.format_fingerprint)
    };
    assert_eq!(confidence("nothing"), 35);
    assert_eq!(confidence("Q. One?"), 60);
    assert_eq!(confidence("Q. a\nA. b\n".repeat(4).as_str()), 82);
    assert_eq!(confidence("Q. a\nA. b\n".repeat(20).as_str()), 100);
    assert_eq!(confidence("MR. SMITH: One.\nMR. JONES: Two."), 82);
    let labelled =
        preflight_transcript(&dialogue(&["MR. SMITH: One.\nMR. JONES: Two."]), &profile);
    assert!(speaker_only_dialogue_mode(&labelled));
}

#[test]
fn redactions_are_collected() {
    let mut first = page(1, PageSection::Transcript, "Q. Did [REDACTED] come?\nA. Yes.");
    first.annotations.push(AnnotationSignal {
        physical_page: 1,
        subtype: "Redact".to_string(),
        rect: None,
        color_components: Vec::new(),
        is_explicit_redaction: true,
        is_dark_overlay_candidate: false,
    });
    let context = preflight_transcript(&document(vec![first]), &TranscriptProfile::us_english());
    let kinds: Vec<RedactionSignalKind> = context
        .redaction_candidates
        .iter()
        .map(|candidate| candidate.kind)
        .collect();
    assert_eq!(
        kinds,
        [
            RedactionSignalKind::PdfRedactAnnotation,
            RedactionSignalKind::TextualRedactionMarker,
        ]
    );
    assert_eq!(
        context.redaction_candidates[1].note,
        "Text layer contains a redaction/sealed marker: Q. Did [REDACTED] come?"
    );
    assert_eq!(truncate("abcdef", 3), "abc...");
    assert_eq!(truncate("abc", 3), "abc");
}
