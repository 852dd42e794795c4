//! Text files, page numbers and what can go wrong with a file.
use transcript_decoder::digest::source_sha256;
use transcript_decoder::document::decode::{decode, decode_utf16};
use transcript_decoder::document::error::DocumentError;
use transcript_decoder::document::extractor::{
    accept_adapter_pages, adapter_is_over_limits, check_adapter_result, extract_document,
    extract_text_document, sanitize_metadata_text, Extraction,
};
use transcript_decoder::document::models::{DocumentMetadata, PageSection};
use transcript_decoder::document::plain::{empty_signal_page, is_page_marker, split_text_pages};

#[test]
fn other_files_are_not_supported() {
    let error = match extract_document("notes.docx", b"anything") {
        Err(error) => error,
        Ok(_) => panic!("only texts and PDFs are read"),
    };
    assert!(matches!(error, DocumentError::UnsupportedFileType));
    assert_eq!(
        error.message(),
        "Unsupported file type. Please upload a .txt or .pdf transcript."
    );
}

#[test]
fn bytes_that_are_no_text_are_refused() {
    let error = match extract_document("a.txt", &[0x51, 0xff, 0x41]) {
        Err(error) => error,
        Ok(_) => panic!("0xff never occurs in UTF-8"),
    };
    assert!(matches!(error, DocumentError::InvalidUtf8));
}

#[test]
fn every_error_has_a_message() {
    let list = vec![
        DocumentError::UnsupportedFileType,
        DocumentError::InvalidUtf8,
        DocumentError::InvalidPdfHeader,
        DocumentError::NoExtractableText,
        DocumentError::PdfLoad("x".to_string()),
        DocumentError::PdfTextExtraction { page: 7, message: "y".to_string() },
    ];
    let messages: Vec<String> = list.iter().map(|error| error.message()).collect();
    for message in &messages {
        assert!(!message.is_empty());
        assert_eq!(messages.iter().filter(|other| *other == message).count(), 1);
    }
    assert!(messages[4].ends_with("x"));
    assert_eq!(messages[5], "Could not extract text from PDF page 7: y");
}

#[test]
fn byte_order_marks_tell_the_encoding() {
    assert_eq!(decode(b"\xef\xbb\xbfQ. Caf\xc3\xa9?").as_deref(), Some("Q. Caf\u{e9}?"));
    assert_eq!(decode(b"\xff\xfeQ\x00.\x00").as_deref(), Some("Q."));
    assert_eq!(decode(b"\xfe\xff\x00Q\x00.").as_deref(), Some("Q."));
    assert_eq!(decode(b"plain").as_deref(), Some("plain"));
    assert_eq!(decode(b"\xc3"), None);
}

#[test]
fn surrogates_go_in_pairs() {
    assert_eq!(decode_utf16(&vec![0xd83d, 0xde00]).as_deref(), Some("\u{1f600}"));
    assert_eq!(decode_utf16(&vec![0x51, 0xd83d]), None);
    assert_eq!(decode_utf16(&vec![0xde00]), None);
    assert_eq!(decode_utf16(&vec![0xd83d, 0x51]), None);
    assert_eq!(decode_utf16(&vec![]).as_deref(), Some(""));
}

#[test]
fn a_text_is_split_at_form_feeds() {
    let pages = split_text_pages("Q. One?\u{c}A. Two.");
    assert_eq!(pages.len(), 2);
    assert_eq!(pages[0].physical_page, 1);
    assert_eq!(pages[0].text, "Q. One?");
    assert_eq!(pages[1].physical_page, 2);
    assert_eq!(pages[1].text, "A. Two.");
}

#[test]
fn page_markers_are_recognized() {
    assert!(is_page_marker("PAGE 12"));
    assert!(is_page_marker("Page 7"));
    assert!(!is_page_marker("PAGE twelve"));
    assert!(!is_page_marker("12"));
}

#[test]
fn a_text_document_has_sections() {
    let text = b"PAGE 1\n1 Q. Where were you?\n2 A. At home.\n3 Q. When?\n4 A. In May.\n5 Q. Alone?\n6 A. Yes.\n";
    let document = extract_text_document(text).unwrap();
    assert_eq!(document.pages.len(), 1);
    assert_eq!(document.pages[0].section, PageSection::Transcript);
    assert!(document.pages[0].should_feed_dialogue_parser());
    assert_eq!(document.transcript_pages().len(), 1);
    assert!(matches!(
        extract_document("a.TXT", text),
        Ok(Extraction::Text(again)) if again.pages[0].text == document.pages[0].text
    ));
}

#[test]
fn metadata_are_trimmed() {
    assert_eq!(
        sanitize_metadata_text(&Some(" A\u{0}B \n".to_string())).as_deref(),
        Some("AB")
    );
    assert_eq!(sanitize_metadata_text(&Some(" \u{0} ".to_string())), None);
    assert_eq!(sanitize_metadata_text(&None), None);
}

#[test]
fn an_adapter_answers_in_one_protocol_with_contiguous_pages() {
    let page = |n: u32| empty_signal_page(n, "Q. One?".to_string());
    assert!(check_adapter_result(1, &vec![page(1), page(2)]).is_ok());
    assert!(check_adapter_result(2, &vec![page(1)]).is_err());
    assert!(check_adapter_result(1, &vec![page(1), page(3)]).is_err());
    assert!(check_adapter_result(1, &vec![]).is_err());
}

#[test]
fn an_adapter_may_take_ten_minutes_and_a_quarter_of_a_gigabyte() {
    assert!(!adapter_is_over_limits(600_000_000_000, 268_435_456));
    assert!(adapter_is_over_limits(600_000_000_001, 0));
    assert!(adapter_is_over_limits(0, 268_435_457));
}

#[test]
fn adapter_pages_must_be_as_many_as_declared() {
    let declared = |n: u32| DocumentMetadata {
        declared_page_count: Some(n),
        ..DocumentMetadata::default()
    };
    let pages = || vec![empty_signal_page(1, "Q. One?".to_string())];
    assert!(matches!(
        accept_adapter_pages(declared(2), pages()),
        Err(DocumentError::PdfLoad(_))
    ));
    assert_eq!(accept_adapter_pages(declared(1), pages()).unwrap().pages.len(), 1);
    assert_eq!(
        accept_adapter_pages(DocumentMetadata::default(), pages()).unwrap().pages.len(),
        1
    );
}

#[test]
fn a_source_is_identified_by_its_digest() {
    assert_eq!(
        source_sha256(b"abc"),
        "ba7816bf8f01cfea414140de5dae2223b00361a396177a9cb410ff61f20015ad"
    );
    assert_eq!(
        source_sha256(b""),
        "e3b0c44298fc1c149afbf4c8996fb92427ae41e4649b934ca495991b7852b855"
    );
}
