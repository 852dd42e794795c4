//! Parsed transcripts as a whole: what is kept, who speaks, and what stays in doubt.
use transcript_decoder::document::models::{
    DocumentKind, DocumentMetadata, ExtractedDocument, ExtractedPage, PageLayoutDiagnostics,
    PageSection, SectionReason, VisualRow,
};
use transcript_decoder::measure::MEASURE_1;
use transcript_decoder::transcript::blocks::{combine_confidence, combine_verification};
use transcript_decoder::transcript::graph::build_transcript_graph;
use transcript_decoder::transcript::models::{
    ClassificationConfidence, GraphEdgeKind, LineKind, ParsedTranscript, SourceContinuity,
    SpeakerRole, VerificationStatus,
};
use transcript_decoder::transcript::omni_models::RowDisposition;
use transcript_decoder::transcript::parser::{parse_transcript, verification_weight};
use transcript_decoder::transcript::preflight::preflight_transcript;
use transcript_decoder::transcript::profile::TranscriptProfile;
use transcript_decoder::transcript::verification::verify_transcript_lines;

fn page(number: u32, section: PageSection, text: &str) -> ExtractedPage {
    ExtractedPage {
        physical_page: number,
        text: text.to_string(),
        raw_text: text.to_string(),
        section,
        section_confidence: 100,
        section_reasons: vec![SectionReason::Plain("Sample".to_string())],
        visual_rows: Vec::new(),
        layout: PageLayoutDiagnostics {
            reconstruction_confidence: MEASURE_1,
            ..PageLayoutDiagnostics::default()
        },
        annotations: Vec::new(),
        filled_rectangles: Vec::new(),
        image_count: 0,
    }
}

fn document(pages: Vec<ExtractedPage>) -> ExtractedDocument {
    ExtractedDocument {
        kind: DocumentKind::Pdf,
        metadata: DocumentMetadata::default(),
        pages,
    }
}

fn dialogue(texts: &[&str]) -> ExtractedDocument {
    document(
        texts
            .iter()
            .enumerate()
            .map(|(i, text)| page(i as u32 + 1, PageSection::Transcript, text))
            .collect(),
    )
}

fn parse(doc: &ExtractedDocument) -> ParsedTranscript {
    let profile = TranscriptProfile::us_english();
    let context = preflight_transcript(doc, &profile);
    parse_transcript("sample.pdf".to_string(), doc, &context, &profile).unwrap()
}

const EXAMINATION: &str = "1 DIRECT EXAMINATION\n2 BY MR. SMITH:\n3 Q. Where were you on the\n4 night of May 3?\n5 A. At home.\n6 MS. JONES: Objection.\n7 Q. Alone?\n8 A. Yes.\n9 (Recess taken.)\n10 A. I was.";

#[test]
fn every_dialogue_row_is_owned_by_one_block() {
    let doc = dialogue(&[EXAMINATION, "1 Q. And then?\n2 A. I slept."]);
    let result = parse(&doc);
    let owned: Vec<&String> = result
        .blocks
        .iter()
        .flat_map(|block| block.source_row_ids.iter())
        .collect();
    let rows: Vec<&String> = result
        .omni
        .canonical_rows
        .iter()
        .filter(|row| row.disposition == RowDisposition::Dialogue)
        .map(|row| &row.id)
        .collect();
    assert_eq!(owned, rows);
    assert_eq!(owned.len(), 12);
    assert_eq!(result.omni.canonical_rows[0].id, "p1_r1");
    assert_eq!(
        result.omni.diagnostics.rows_assigned_to_utterances,
        result.omni.diagnostics.transcript_rows
    );
}

#[test]
fn blocks_are_numbered_and_mirrored_by_utterances() {
    let result = parse(&dialogue(&[EXAMINATION]));
    for (i, block) in result.blocks.iter().enumerate() {
        assert_eq!(block.id, format!("block_{:06}", i + 1));
        assert_eq!(result.omni.utterances[i].id, format!("utterance_{}", block.id));
        assert_eq!(result.omni.utterances[i].text, block.text);
        assert_eq!(result.omni.utterances[i].participant_id, block.participant_id);
    }
    assert_eq!(result.blocks.len(), result.omni.utterances.len());
}

#[test]
fn a_question_goes_on_over_lines() {
    let result = parse(&dialogue(&[EXAMINATION]));
    let question = &result.blocks[2];
    assert_eq!(question.kind, LineKind::Question);
    assert_eq!(question.text, "Where were you on the night of May 3?");
    assert_eq!(question.source_row_ids, ["p1_r3", "p1_r4"]);
    assert_eq!(question.confidence, ClassificationConfidence::Inferred);
    assert_eq!(question.speaker.as_ref().unwrap().label, "MR. SMITH");
    assert_eq!(question.start.line_number, Some(3));
    assert_eq!(question.end.line_number, Some(4));
}

#[test]
fn there_is_one_exchange_per_question_and_pauses_end_it() {
    let result = parse(&dialogue(&[EXAMINATION]));
    let questions = result
        .blocks
        .iter()
        .filter(|block| block.kind == LineKind::Question)
        .count();
    assert_eq!(result.exchanges.len(), questions);
    assert_eq!(questions, 2);
    assert_eq!(result.exchanges[0].response_sequence.len(), 2);
    assert_eq!(result.exchanges[1].response_sequence.len(), 1);
    assert_eq!(result.unpaired_answers.len(), 1);
    assert_eq!(result.unpaired_answers[0].text, "I was.");
}

#[test]
fn relations_stop_at_headings_and_pauses() {
    let result = parse(&dialogue(&[EXAMINATION]));
    let graph = build_transcript_graph(&result.blocks);
    let edge = |kind: GraphEdgeKind| {
        graph
            .edges
            .iter()
            .filter(|edge| edge.kind == kind)
            .map(|edge| (edge.from.as_str(), edge.to.as_str()))
            .collect::<Vec<_>>()
    };
    assert_eq!(
        edge(GraphEdgeKind::RespondsTo),
        [
            ("node_block_000004", "node_block_000003"),
            ("node_block_000007", "node_block_000006"),
        ]
    );
    assert_eq!(
        edge(GraphEdgeKind::Interrupts),
        [("node_block_000005", "node_block_000003")]
    );
    assert_eq!(
        edge(GraphEdgeKind::ResumesAfter),
        [("node_block_000006", "node_block_000005")]
    );
    assert_eq!(edge(GraphEdgeKind::Follows).len(), result.blocks.len() - 1);
}

#[test]
fn every_speaker_is_registered() {
    let result = parse(&dialogue(&[
        "1 Q. Who came?\n2 A. Two men.\n3 THE COURT: One moment.\n4 [REDACTED]: I object to that.",
    ]));
    let ids: Vec<&str> = result
        .context
        .participants
        .iter()
        .map(|participant| participant.id.as_str())
        .collect();
    for line in &result.lines {
        if let Some(id) = &line.participant_id {
            assert!(ids.contains(&id.as_str()), "{id}");
        }
    }
    for id in &ids {
        assert_eq!(ids.iter().filter(|other| *other == id).count(), 1, "{id}");
    }
    assert!(result
        .context
        .participants
        .iter()
        .any(|participant| participant.role == SpeakerRole::Judge));
}

#[test]
fn redacted_speakers_stay_uncertain() {
    let result = parse(&dialogue(&[
        "1 Q. Who came?\n2 A. Two men.\n3 [REDACTED]: I object to that.",
    ]));
    let line = result
        .lines
        .iter()
        .find(|line| line.text.contains("object"))
        .unwrap();
    assert!(line.speaker.as_ref().unwrap().redacted);
    assert_eq!(line.verification, VerificationStatus::Uncertain);
    assert!(!result.quality.ready_for_ai);
    assert!(result
        .quality
        .issues
        .iter()
        .any(|issue| issue.code == "redacted_identity"));
}

#[test]
fn a_gap_in_the_lines_is_reported_and_bars_readiness() {
    let result = parse(&dialogue(&[
        "1 Q. Where?\n2 A. Home.\n3 Q. When?\n7 A. At noon.\n8 Q. Sure?\n9 A. Yes.",
    ]));
    assert_eq!(result.context.gaps.len(), 1);
    assert_eq!(result.context.gaps[0].missing_line_start, Some(4));
    assert_eq!(result.context.gaps[0].missing_line_end, Some(6));
    assert!(result
        .lines
        .iter()
        .any(|line| line.source_continuity == SourceContinuity::GapBefore));
    assert!(!result.quality.ready_for_ai);
    assert_eq!(result.quality.status, "needs_review");
}

#[test]
fn a_transcript_without_issues_is_ready() {
    let result = parse(&dialogue(&[
        "THE COURT: Are you of the view that we go on to the next and last matter?\nTHE WITNESS: Yes, I am.",
    ]));
    let codes: Vec<&str> = result
        .quality
        .issues
        .iter()
        .map(|issue| issue.code.as_str())
        .collect();
    assert!(codes.is_empty(), "{codes:?}");
    assert!(result.quality.ready_for_ai);
    assert_eq!(result.quality.confidence_ceiling, 95);
    assert_eq!(result.quality.status, "passed_structural_checks");
    assert_eq!(result.quality.source_rows, 2);
    assert_eq!(result.quality.accounted_source_rows, 2);
}

#[test]
fn a_document_without_dialogue_is_blocked() {
    let doc = document(vec![page(1, PageSection::WordIndex, "alpha 1:2, 3:4")]);
    let result = parse(&doc);
    assert!(result.lines.is_empty());
    assert_eq!(result.quality.status, "blocked");
    assert_eq!(result.quality.confidence_ceiling, 35);
    assert!(!result.quality.ready_for_ai);
    assert_eq!(result.omni.canonical_rows.len(), 1);
    assert_eq!(result.omni.canonical_rows[0].disposition, RowDisposition::Reference);
}

#[test]
fn repeated_top_margin_rows_are_page_furniture() {
    let row = |y: f64, text: &str| VisualRow {
        panel: 0,
        printed_page: None,
        bbox: Some([
            (72.0f64).to_bits() as i64,
            y.to_bits() as i64,
            (300.0f64).to_bits() as i64,
            (y + 10.0).to_bits() as i64,
        ]),
        ocr_confidence: None,
        y: 0,
        left_x: None,
        line_number_x: None,
        line_number: None,
        text: text.to_string(),
        fragments: Vec::new(),
        marker_stands_clear: false,
    };
    let positioned = |number: u32| {
        let mut p = page(number, PageSection::Transcript, "");
        p.visual_rows = vec![
            row(20.0, "In re: the matter"),
            row(100.0, "Q. Where?"),
            row(120.0, "In re: the matter"),
        ];
        p.text = "In re: the matter\nQ. Where?\nIn re: the matter".to_string();
        p.layout.used_positioned_reconstruction = true;
        p
    };
    let furniture = |pages: u32| {
        let doc = document((1..=pages).map(|n| positioned(n)).collect());
        parse(&doc)
            .omni
            .canonical_rows
            .iter()
            .filter(|row| row.disposition == RowDisposition::PageFurniture)
            .count()
    };
    assert_eq!(furniture(3), 3);
    assert_eq!(furniture(2), 0);
}

#[test]
fn the_weaker_of_two_confidences_counts() {
    assert_eq!(
        combine_confidence(ClassificationConfidence::Explicit, ClassificationConfidence::Inferred),
        ClassificationConfidence::Inferred
    );
    assert_eq!(
        combine_confidence(ClassificationConfidence::Unknown, ClassificationConfidence::Inferred),
        ClassificationConfidence::Unknown
    );
    assert_eq!(
        combine_verification(VerificationStatus::Redacted, VerificationStatus::SourceMissing),
        VerificationStatus::SourceMissing
    );
    assert_eq!(
        combine_verification(VerificationStatus::Conflict, VerificationStatus::Verified),
        VerificationStatus::Conflict
    );
    assert_eq!(verification_weight(VerificationStatus::Verified), 100);
}

#[test]
fn contradictions_are_conflicts_and_are_reported() {
    let profile = TranscriptProfile::us_english();
    let mut result = parse(&dialogue(&["1 Q. Where were you?\n2 A. At home.\n3 Q. Alone?"]));
    assert!(result.verification_issues.is_empty());
    result.lines[0].kind = LineKind::Answer;
    let text = result.lines[0].text.clone();
    let issues = verify_transcript_lines(&mut result.lines, &result.context, &profile);
    assert_eq!(issues.len(), 1);
    assert_eq!(issues[0].code, "explicit_marker_conflict");
    assert_eq!(issues[0].line_number, Some(1));
    assert_eq!(
        issues[0].message,
        "Source contains explicit marker Q., but parser classified the line as Answer."
    );
    assert_eq!(result.lines[0].verification, VerificationStatus::Conflict);
    assert_eq!(result.lines[0].text, text);
    assert_eq!(result.lines[1].verification, VerificationStatus::Verified);
    result.lines[0].kind = LineKind::Question;
    let witness = result.lines[1].speaker.as_mut().unwrap();
    witness.role = SpeakerRole::Attorney;
    let issues = verify_transcript_lines(&mut result.lines, &result.context, &profile);
    assert_eq!(issues.len(), 1);
    assert_eq!(issues[0].code, "participant_role_conflict");
    assert_eq!(
        issues[0].message,
        "Speaker role Attorney disagrees with participant registry role Witness."
    );
}

#[test]
fn lines_say_only_what_their_rows_say() {
    let result = parse(&dialogue(&[
        EXAMINATION,
        "1 Q. BY MS. JONES: And then?\n2 A. THE WITNESS: I slept.\n3 MR. SMITH. Thank you.",
    ]));
    let rows: Vec<_> = result
        .omni
        .canonical_rows
        .iter()
        .filter(|row| row.disposition == RowDisposition::Dialogue)
        .collect();
    assert_eq!(rows.len(), result.lines.len());
    for (line, row) in result.lines.iter().zip(rows) {
        assert_eq!(line.source_row_id, row.id);
        assert_eq!(line.raw_text, row.raw_text);
        assert_eq!(line.line_number, row.line_number);
        assert!(row.text.contains(&line.text), "{:?}", line.text);
        assert!(line.raw_text.contains(&line.text), "{:?}", line.text);
    }
    let texts: Vec<&str> = result.lines.iter().map(|line| line.text.as_str()).collect();
    assert!(texts.contains(&"And then?"));
    assert!(texts.contains(&"I slept."));
    assert!(texts.contains(&"Thank you."));
}

#[test]
fn utterances_link_back_to_their_rows() {
    let result = parse(&dialogue(&[
        "1 Q. Where were you on the\n2 night of May 3,",
        "1 if you recall?\n2 A. At home.",
    ]));
    for (block, utterance) in result.blocks.iter().zip(&result.omni.utterances) {
        let rows: Vec<&String> = utterance
            .source_spans
            .iter()
            .flat_map(|span| span.row_ids.iter())
            .collect();
        assert_eq!(rows, block.source_row_ids.iter().collect::<Vec<_>>());
    }
}

#[test]
fn unproven_numbers_stay_in_the_text() {
    let result = parse(&dialogue(&["MR. SMITH: How many?\n12 of them were there."]));
    assert_eq!(result.lines[1].line_number, None);
    assert_eq!(result.lines[1].text, "12 of them were there.");
}
