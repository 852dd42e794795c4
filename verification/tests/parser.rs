//! Transcripts, parsed from the text of their pages.
use transcript_decoder::document::models::{
    DocumentKind, DocumentMetadata, ExtractedDocument, ExtractedPage, PageLayoutDiagnostics,
    PageSection, SectionReason,
};
use transcript_decoder::measure::MEASURE_1;
use transcript_decoder::transcript::classify::{ContinuationContext, ParserState};
use transcript_decoder::transcript::models::{
    GapKind, LineKind, ParsedTranscript, SourceContinuity, TranscriptBlock,
};
use transcript_decoder::transcript::omni_models::RowDisposition;
use transcript_decoder::transcript::parser::{
    continuation_boundary_is_suspicious, determine_source_continuity, parse_transcript,
};
use transcript_decoder::transcript::preflight::preflight_transcript;
use transcript_decoder::transcript::profile::TranscriptProfile;

fn document(pages: Vec<&str>) -> ExtractedDocument {
    ExtractedDocument {
        kind: DocumentKind::Pdf,
        metadata: DocumentMetadata::default(),
        pages: pages
            .into_iter()
            .enumerate()
            .map(|(index, text)| ExtractedPage {
                physical_page: (index + 1) as u32,
                text: text.to_string(),
                raw_text: text.to_string(),
                section: PageSection::Transcript,
                section_confidence: 100,
                section_reasons: vec![SectionReason::Plain("Test fixture".to_string())],
                visual_rows: Vec::new(),
                layout: PageLayoutDiagnostics {
                    reconstruction_confidence: MEASURE_1,
                    ..PageLayoutDiagnostics::default()
                },
                annotations: Vec::new(),
                filled_rectangles: Vec::new(),
                image_count: 0,
            })
            .collect(),
    }
}

fn parse(doc: &ExtractedDocument) -> ParsedTranscript {
    let profile = TranscriptProfile::us_english();
    let context = preflight_transcript(doc, &profile);
    parse_transcript("sample.pdf".to_string(), doc, &context, &profile).unwrap()
}

#[test]
fn preserves_cross_page_question() {
    let doc = document(vec![
        "1 00012\n21 A. Yes.\n22 Q. What is the purpose of the",
        "2 00013\n1 executive committee?\n2 A. Strategy.",
    ]);
    let result = parse(&doc);
    let question = result
        .blocks
        .iter()
        .find(|block| block.kind == LineKind::Question && block.text.contains("purpose"))
        .unwrap();
    assert_eq!(
        question.text,
        "What is the purpose of the executive committee?"
    );
}

#[test]
fn bare_a_is_uppercase_only() {
    let doc = document(vec![
        "1 00048\n10 Q. Does the competitor have\n11 a product that works?\n12 A     Yes.",
    ]);
    let result = parse(&doc);
    assert_eq!(
        result.exchanges[0].question.text,
        "Does the competitor have a product that works?"
    );
}

#[test]
fn retains_unknown_text_after_source_gap() {
    let doc = document(vec![
        "1 00048\n5 A. Prior answer.\n6 Still answer.\n8 But in these circumstances, does the competitor\n9 have a product that can meet the customer's needs?\n10 A. That's one factor.",
    ]);
    let result = parse(&doc);
    assert!(
        result
            .lines
            .iter()
            .any(|l| l.kind == LineKind::Unknown && l.text.starts_with("But in"))
    );
    assert!(!result.quality.ready_for_ai);
}

#[test]
fn recovers_cross_page_question_tail_without_marker() {
    let doc = document(vec![
        "1 00103\n21 Q. If somebody called and\n22 wanted to buy it,",
        "2 00104\n1 you're not going to turn away money.\n2 A. Absolutely not.",
    ]);
    let result = parse(&doc);
    assert!(result.blocks.iter().any(|block| {
        block.kind == LineKind::Question && block.text.contains("turn away money")
    }));
}

#[test]
fn redacted_examiner_gets_stable_anonymous_id() {
    let doc = document(vec![
        "1 00010\n1 BY [REDACTED]:\n2 Q. Where were you?\n3 A. At home.\n4 [REDACTED]: Q. Who was there?\n5 A. Nobody.",
    ]);
    let result = parse(&doc);
    let questions: Vec<&TranscriptBlock> = result
        .blocks
        .iter()
        .filter(|block| block.kind == LineKind::Question)
        .collect();
    assert_eq!(questions.len(), 2);
    assert_eq!(questions[0].participant_id, questions[1].participant_id);
}
#[test]
fn mixed_period_labels_and_qa_share_participant_identity() {
    let result = parse(&document(vec![
        "PAGE 1\n1 Mr. Smith. Opening statement.\n2 Ms. Jones. I understand.\n3 EXAMINATION\n4 BY MR. SMITH:\n5 Q. Did it happen?\n6 A. Yes.\n7 Mr. Smith. Thank you.",
    ]));
    assert!(
        result
            .context
            .format_fingerprint
            .titled_speaker_prefixed_dialogue
    );
    let statement = result
        .blocks
        .iter()
        .find(|b| b.text == "Opening statement.")
        .unwrap();
    let question = result
        .blocks
        .iter()
        .find(|b| b.kind == LineKind::Question)
        .unwrap();
    assert_eq!(statement.participant_id, question.participant_id);
    assert_eq!(result.omni.utterances.len(), result.blocks.len());
    for (u, b) in result.omni.utterances.iter().zip(&result.blocks) {
        assert_eq!(u.text, b.text);
        assert_eq!(u.participant_id, b.participant_id);
    }
}

#[test]
fn retains_unnumbered_wrapped_text_and_body_numbers() {
    let result = parse(&document(vec![
        "ALICE SMITH: I counted\n12 jurors in the room.\nBOB JONES: I saw\nall of them.",
    ]));
    assert_eq!(result.blocks.len(), 2);
    assert_eq!(result.blocks[0].text, "I counted 12 jurors in the room.");
    assert_eq!(result.blocks[1].text, "I saw all of them.");
    assert_eq!(
        result.quality.source_rows,
        result.quality.accounted_source_rows
    );
}

#[test]
fn blank_printed_lines_are_not_missing_testimony() {
    let result = parse(&document(vec![
        "PAGE 3\n1 BY MR. SMITH:\n2 Q. Are you sure?\n3\n4 A. Yes.",
    ]));
    assert!(
        !result
            .context
            .gaps
            .iter()
            .any(|g| g.kind == GapKind::MissingLines)
    );
    assert!(
        result
            .omni
            .canonical_rows
            .iter()
            .any(|r| r.disposition
                == RowDisposition::BlankNumberedLine)
    );
    assert_eq!(result.line_count, 3);
}

#[test]
fn source_gap_breaks_question_answer_link() {
    let result = parse(&document(vec![
        "PAGE 1\n1 BY MR. SMITH:\n2 Q. Where?\n4 A. At home.",
    ]));
    assert_eq!(result.unpaired_answers.len(), 1);
    assert!(result.exchanges[0].response_sequence.is_empty());
    assert!(!result.quality.ready_for_ai);
}

#[test]
fn repeated_testimony_is_never_deleted_as_boilerplate() {
    let pages = vec![
        "PAGE 1\n1 Q. What?\n2 A. I don't recall.",
        "PAGE 2\n1 Q. What?\n2 A. I don't recall.",
        "PAGE 3\n1 Q. What?\n2 A. I don't recall.",
        "PAGE 4\n1 Q. What?\n2 A. I don't recall.",
        "PAGE 5\n1 Q. What?\n2 A. I don't recall.",
    ];
    let result = parse(&document(pages));
    assert_eq!(
        result
            .blocks
            .iter()
            .filter(|b| b.text == "I don't recall.")
            .count(),
        5
    );
    assert_eq!(
        result
            .omni
            .utterances
            .iter()
            .filter(|u| u.text == "I don't recall.")
            .count(),
        5
    );
}

#[test]
fn explicit_witness_changes_do_not_reuse_previous_witness() {
    let result = parse(&document(vec![
        "PAGE 1\n1 WITNESS: JANE DOE\n2 BY MR. SMITH:\n3 Q. Name?\n4 A. Jane.\n5 WITNESS: SAM RAY\n6 BY MR. SMITH:\n7 Q. Name?\n8 A. Sam.",
    ]));
    let answers: Vec<_> = result
        .blocks
        .iter()
        .filter(|b| b.kind == LineKind::Answer)
        .collect();
    assert_eq!(answers.len(), 2);
    assert_ne!(answers[0].participant_id, answers[1].participant_id);
    assert_eq!(answers[0].speaker.as_ref().unwrap().label, "JANE DOE");
    assert_eq!(answers[1].speaker.as_ref().unwrap().label, "SAM RAY");
}

#[test]
fn number_is_stripped_only_once() {
    let result = parse(&document(vec![
        "PAGE 1\n1 Q. How many?\n2 A. I saw\n3 12 jurors and 25 witnesses.",
    ]));
    let answer = result
        .blocks
        .iter()
        .find(|b| b.kind == LineKind::Answer)
        .unwrap();
    assert_eq!(answer.text, "I saw 12 jurors and 25 witnesses.");
    assert!(
        result
            .omni
            .canonical_rows
            .iter()
            .any(|r| r.text == "12 jurors and 25 witnesses.")
    );
}

#[test]
fn redacted_words_inside_testimony_do_not_erase_the_turn() {
    let result = parse(&document(vec![
        "PAGE 1\n1 Q. Who?\n2 A. I met [REDACTED] in June.\n3 We spoke for an hour.",
    ]));
    let answer = result
        .blocks
        .iter()
        .find(|b| b.kind == LineKind::Answer)
        .unwrap();
    assert!(answer.text.contains("[REDACTED] in June. We spoke"));
}

#[test]
fn reference_pages_remain_in_canonical_inventory() {
    let mut doc = document(vec![
        "PAGE 1\n1 Q. Which exhibit?\n2 A. Seven.",
        "INDEX OF EXHIBITS\nExhibit 7 1:2",
    ]);
    doc.pages[1].section = PageSection::ExhibitIndex;
    let result = parse(&doc);
    assert_eq!(result.source_pages.len(), 2);
    assert!(
        result
            .omni
            .canonical_rows
            .iter()
            .any(|r| r.physical_page == 2
                && r.disposition == RowDisposition::Reference)
    );
    assert!(!result.lines.iter().any(|r| r.physical_page == 2));
}

#[test]
fn no_turn_is_taken_to_continue_behind_a_gap() {
    let run_on = parse(&document(vec!["1 00048\n5 A. Prior answer\n6 that goes on."]));
    let line = run_on.lines.iter().find(|line| line.text.starts_with("that goes")).unwrap();
    assert_eq!(line.source_continuity, SourceContinuity::Continuous);
    assert_eq!(line.kind, LineKind::Answer);

    let broken = parse(&document(vec!["1 00048\n5 A. Prior answer\n8 that goes on."]));
    let line = broken.lines.iter().find(|line| line.text.starts_with("that goes")).unwrap();
    assert_eq!(line.source_continuity, SourceContinuity::GapBefore);
    assert_eq!(line.kind, LineKind::Unknown);
}

#[test]
fn an_active_turn_breaks_at_every_gap() {
    let mut state = ParserState::new(None);
    state.last_physical_page = Some(3);
    state.last_transcript_page = Some(48);
    state.last_line_number = Some(6);
    let same_page = Some("48".to_string());
    let next_page = Some("49".to_string());
    let later_page = Some("51".to_string());
    let lines = [
        (3, &same_page, Some(7), SourceContinuity::Continuous),
        (3, &same_page, Some(9), SourceContinuity::GapBefore),
        (4, &next_page, Some(1), SourceContinuity::CrossPageContinuous),
        (4, &later_page, Some(1), SourceContinuity::GapBefore),
        (5, &next_page, Some(1), SourceContinuity::GapBefore),
    ];
    for (page, label, line, continuity) in lines {
        assert_eq!(determine_source_continuity(&state, page, label, line), continuity);
        assert!(!continuation_boundary_is_suspicious(&state, page, label, line));
    }
    state.continuation = Some(ContinuationContext { kind: LineKind::Answer, speaker: None });
    for (page, label, line, continuity) in lines {
        let gap = continuity == SourceContinuity::GapBefore;
        assert_eq!(continuation_boundary_is_suspicious(&state, page, label, line), gap);
    }
}
