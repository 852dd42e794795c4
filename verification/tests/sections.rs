//! Which part of its document a page is.
use transcript_decoder::document::layout::{
    classify_page, count_dialogue_markers, count_page_line_citations, count_speaker_prefixes,
    leading_transcript_line_number, looks_index_like, strip_leading_line_number,
    tolerant_line_sequence_score,
};
use transcript_decoder::document::models::{ExtractedPage, PageSection, SectionReason};
use transcript_decoder::document::plain::empty_signal_page;
use transcript_decoder::document::sections::classify_page_sections;
use transcript_decoder::measure::Ratio;

fn page(number: u32, text: &str) -> ExtractedPage {
    empty_signal_page(number, text.to_string())
}

fn section(number: u32, text: &str) -> (PageSection, u8) {
    let (section, confidence, _) = classify_page(&page(number, text));
    (section, confidence)
}

fn numbered(from: u16, to: u16) -> String {
    (from..=to)
        .map(|n| format!("{n} some words of prose"))
        .collect::<Vec<_>>()
        .join("\n")
}

#[test]
fn headings_decide_first() {
    assert_eq!(
        section(9, "REPORTER'S CERTIFICATE\n1\n2\n3\n4\n5\n6\n7\n8\n9"),
        (PageSection::Certificate, 96)
    );
    assert_eq!(section(9, "ERRATA SHEET\npage line"), (PageSection::Errata, 96));
    assert_eq!(
        section(2, "A P P\nAPPEARANCES:\nFor the People"),
        (PageSection::Appearances, 97)
    );
    assert_eq!(section(1, "DEPOSITION OF JANE DOE"), (PageSection::Cover, 96));
    assert_eq!(
        section(5, "Q. Where?\nA. Home."),
        (PageSection::Transcript, 92)
    );
}

#[test]
fn reference_words_come_before_structure() {
    assert_eq!(section(9, "WORD INDEX"), (PageSection::WordIndex, 96));
    assert_eq!(section(9, "INDEX OF EXHIBITS"), (PageSection::ExhibitIndex, 94));
    assert_eq!(
        section(9, "Certificate\nI certify that\nNotary"),
        (PageSection::Certificate, 92)
    );
    assert_eq!(section(9, "ATTACHMENT 4"), (PageSection::Attachment, 84));
    assert_eq!(section(9, "APPENDIX B"), (PageSection::Appendix, 86));
}

#[test]
fn structure_decides_last() {
    assert_eq!(
        section(9, "CASE NO. 12-3\nDISTRICT of nowhere"),
        (PageSection::Caption, 82)
    );
    assert_eq!(section(9, numbered(1, 10).as_str()), (PageSection::Transcript, 97));
    assert_eq!(section(9, numbered(1, 5).as_str()), (PageSection::Transcript, 70));
    assert_eq!(section(9, "the transcript of it"), (PageSection::Cover, 90));
    assert_eq!(section(9, "nothing to see"), (PageSection::Unknown, 35));
}

#[test]
fn reasons_carry_their_numbers() {
    let (_, _, reason) = classify_page(&page(9, numbered(1, 10).as_str()));
    match reason {
        SectionReason::Scored { lead, score, tail } => {
            assert_eq!(
                lead,
                "Strong transcript line-number column: 10 rows, sequential score "
            );
            assert_eq!(score, Ratio { part: 9, whole: 9 });
            assert_eq!(tail, ".");
        }
        SectionReason::Plain(_) => panic!("a score stands in the reason"),
    }
    let (_, _, reason) = classify_page(&page(9, "nothing to see"));
    assert!(matches!(reason, SectionReason::Plain(text) if text
        == "No decisive section signature: 0 numbered rows, 0 citations, 0 speaker prefixes, 0 Q/A markers."));
}

#[test]
fn classification_keeps_pages_and_reference_material() {
    let texts = [
        "1 Q. Where?\n2 A. Home.\n3 Q. When?\n4 A. At noon.",
        "WORD INDEX\nalpha 1:2",
        "1 Q. Where?\n2 A. Home.\n3 Q. When?\n4 A. At noon.",
    ];
    let mut pages: Vec<ExtractedPage> = texts
        .iter()
        .enumerate()
        .map(|(i, text)| page(i as u32 + 1, text))
        .collect();
    classify_page_sections(&mut pages);
    assert_eq!(pages.len(), 3);
    for (i, text) in texts.iter().enumerate() {
        assert_eq!(pages[i].text, *text);
        assert_eq!(pages[i].physical_page, i as u32 + 1);
        assert_eq!(pages[i].section_reasons.is_empty(), false);
    }
    assert_eq!(pages[0].section, PageSection::Transcript);
    assert_eq!(pages[1].section, PageSection::WordIndex);
    assert_eq!(pages[2].section, PageSection::Transcript);
}

#[test]
fn sections_are_dialogue_family_or_reference() {
    let all = [
        PageSection::Cover,
        PageSection::Caption,
        PageSection::Appearances,
        PageSection::Transcript,
        PageSection::WordIndex,
        PageSection::ExhibitIndex,
        PageSection::Certificate,
        PageSection::Errata,
        PageSection::Appendix,
        PageSection::Attachment,
        PageSection::Unknown,
    ];
    for section in all {
        assert_eq!(section.is_dialogue(), section == PageSection::Transcript);
        assert!(!(section.is_transcript_family() && section.is_reference_only()));
    }
    assert!(PageSection::Cover.is_transcript_family());
    assert!(PageSection::WordIndex.is_reference_only());
    assert!(!PageSection::Unknown.is_reference_only());
}

#[test]
fn line_signals_are_counted() {
    assert_eq!(leading_transcript_line_number("12 Q. Yes"), Some(12));
    assert_eq!(leading_transcript_line_number("51 Q. Yes"), None);
    assert_eq!(leading_transcript_line_number("12Q. Yes"), None);
    assert_eq!(strip_leading_line_number("12Q. Yes"), "Q. Yes");
    assert_eq!(strip_leading_line_number("99 Yes"), "99 Yes");
    assert_eq!(count_page_line_citations("alpha 12:3, (14:20) 15:99 4:"), 2);
    assert!(looks_index_like("alpha 12:3\nbeta\ngamma\ndelta\nepsilon"));
    assert!(!looks_index_like("alpha 12:3\na\nb\nc\nd\ne"));
    assert_eq!(count_speaker_prefixes("MR. SMITH: Yes\nno one\n3 THE COURT: So"), 2);
    assert_eq!(count_dialogue_markers("1 Q. a\n2 A: b\nanswer: c\nnone"), 3);
    assert_eq!(
        tolerant_line_sequence_score(&vec![1, 3, 7, 12]),
        Ratio { part: 2, whole: 3 }
    );
}
