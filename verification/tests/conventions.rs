//! Line numbers and markers.
use transcript_decoder::transcript::format::parse_numbered_line;
use transcript_decoder::transcript::markers::strip_bare_uppercase;

#[test]
fn numbers_in_prose_are_not_attached_gutters() {
    assert_eq!(
        parse_numbered_line("12-year-old", 100),
        (None, "12-year-old")
    );
}

#[test]
fn blank_printed_number_is_preserved() {
    assert_eq!(parse_numbered_line("12", 100), (Some(12), ""));
}

#[test]
fn glued_explicit_marker_can_be_recovered() {
    assert_eq!(
        parse_numbered_line("12Q. When?", 100),
        (Some(12), "Q. When?")
    );
}

#[test]
fn bare_answer_is_uppercase_only() {
    assert!(strip_bare_uppercase("A     Yes.", 'A').is_some());
    assert!(strip_bare_uppercase("a product that works", 'A').is_none());
}
