//! What is learned of a document before it is parsed.
use transcript_decoder::document::models::{
    DocumentKind, DocumentMetadata, ExtractedDocument, ExtractedPage, PageLayoutDiagnostics,
    PageSection, SectionReason,
};
use transcript_decoder::measure::MEASURE_1;
use transcript_decoder::transcript::models::{GapKind, SpeakerRole};
use transcript_decoder::transcript::preflight::preflight_transcript;
use transcript_decoder::transcript::profile::TranscriptProfile;

fn doc(pages: Vec<&str>) -> ExtractedDocument {
    ExtractedDocument {
        kind: DocumentKind::Pdf,
        metadata: DocumentMetadata::default(),
        pages: pages
            .into_iter()
            .enumerate()
            .map(|(index, text)| ExtractedPage {
                physical_page: (index + 1) as u32,
                text: text.to_string(),
                raw_text: text.to_string(),
                section: PageSection::Transcript,
                section_confidence: 100,
                section_reasons: vec![SectionReason::Plain("Test fixture".to_string())],
                visual_rows: Vec::new(),
                layout: PageLayoutDiagnostics {
                    reconstruction_confidence: MEASURE_1,
                    ..PageLayoutDiagnostics::default()
                },
                annotations: Vec::new(),
                filled_rectangles: Vec::new(),
                image_count: 0,
            })
            .collect(),
    }
}

#[test]
fn learns_participants_markers_and_gap() {
    let document = doc(vec![
        "1 00048\n1 BY MR. SCOTT:\n2 Q. What happened?\n3 A. Nothing.\n4 A     Still nothing.\n6 Q. Why?",
    ]);
    let context = preflight_transcript(&document, &TranscriptProfile::us_english());

    assert!(
        context
            .participants
            .iter()
            .any(|person| person.display_label.eq_ignore_ascii_case("MR. SCOTT"))
    );
    assert!(
        context
            .marker_rules
            .iter()
            .any(|rule| rule.pattern == "Q." && rule.observations > 0)
    );
    assert!(
        context
            .marker_rules
            .iter()
            .any(|rule| rule.pattern == "A" && rule.observations > 0)
    );
    assert!(
        context.gaps.iter().any(|gap| {
            gap.kind == GapKind::MissingLines && gap.missing_line_start == Some(5)
        })
    );
}

#[test]
fn generic_speaker_labels_are_learned_from_behavior() {
    let document = doc(vec![
        "1 PAGE 1\n1 JOHN DOE: Q. Where were you?\n2 JANE DOE: A. At home.",
    ]);
    let context = preflight_transcript(&document, &TranscriptProfile::us_english());
    assert!(context.participants.iter().any(|participant| {
        participant.display_label == "JOHN DOE" && participant.role == SpeakerRole::Attorney
    }));
    assert!(context.participants.iter().any(|participant| {
        participant.display_label == "JANE DOE" && participant.role == SpeakerRole::Witness
    }));
}
