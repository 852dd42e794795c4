//! Files, extracted into pages.
use transcript_decoder::document::error::DocumentError;
use transcript_decoder::document::extractor::{extract_document, Extraction};
use transcript_decoder::document::layout::{
    looks_like_page_line_citation, sequential_line_score,
};
use transcript_decoder::document::models::DocumentKind;
use transcript_decoder::document::plain::{normalize_page_lines, split_text_pages};

#[test]
fn extracts_plain_text_document() {
    let input = b"\nPAGE 74\n12 Q. When did you see the leak?\n13 A. March 2022.\n\nPAGE 75\n1 Q. Did you report it?\n2 A. Yes.\n";
    let result = match extract_document("test.txt", input).expect("TXT should extract") {
        Extraction::Text(document) => document,
        Extraction::Pdf(_) => panic!("a text is no PDF"),
    };
    assert_eq!(result.kind, DocumentKind::Text);
    assert_eq!(result.source_page_count(), 2);
}

#[test]
fn combines_separate_pdf_line_numbers() {
    let result = normalize_page_lines("12\nQ. When?\n13\nA. March 2022.");
    assert_eq!(result[0], "12 Q. When?");
    assert_eq!(result[1], "13 A. March 2022.");
}

#[test]
fn fixes_attached_line_numbers() {
    let result = normalize_page_lines("12Q. When?\n13A. March 2022.");
    assert_eq!(result[0], "12 Q. When?");
    assert_eq!(result[1], "13 A. March 2022.");
}

#[test]
fn rejects_fake_pdf() {
    assert!(matches!(
        extract_document("fake.pdf", b"This is not a PDF"),
        Err(DocumentError::InvalidPdfHeader)
    ));
}

#[test]
fn ignores_leading_blank_lines_in_txt() {
    let pages = split_text_pages("\n\nPAGE 74\n12 Q. First?\n\nPAGE 75\n1 A. Yes.");
    assert_eq!(pages.len(), 2);
}

#[test]
fn text_without_markers_is_one_page() {
    let pages = split_text_pages("12 Q. Hello?\n13 A. Yes.");
    assert_eq!(pages.len(), 1);
}

#[test]
fn citation_detector_does_not_treat_line_number_as_citation() {
    assert!(looks_like_page_line_citation("128:15"));
    assert!(!looks_like_page_line_citation("15"));
}

#[test]
fn sequence_score_prefers_transcript_columns() {
    let run = sequential_line_score(&vec![1, 2, 3, 4, 5, 6]);
    assert!(run.part as f32 / run.whole as f32 > 0.95);
    let scattered = sequential_line_score(&vec![1, 8, 14, 22, 31]);
    assert!((scattered.part as f32 / scattered.whole as f32) < 0.10);
}
