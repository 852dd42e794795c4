//! Rows, put together from positioned fragments.
use transcript_decoder::document::extractor::{assemble_page, PdfPage};
use transcript_decoder::document::models::{
    AnnotationSignal, FilledRectangleSignal, PageLayoutDiagnostics, PositionedTextFragment,
    TextSource,
};
use transcript_decoder::document::reconstruct::{
    check_column, choose_column, column_place, count_filled, draft_rows, find_candidates,
    find_leading_column, join_row_fragments, join_rows, normalize_column, reconstruct_visual_rows,
    settle_column, Gap, RowSource,
};
use transcript_decoder::document::rows::{
    apply_visual_redaction_masks, find_covering_bars, find_covering_boxes, gather_row,
    normalize_corner_rect, sort_fragments, typical_type_size,
};
use transcript_decoder::document::shown::{drop_zeros, normalize_fragment_text};

fn key(x: f64) -> i64 {
    let bits = x.to_bits() as i64;
    if bits < 0 {
        bits ^ i64::MAX
    } else {
        bits
    }
}

fn fragment(text: &str, x: f64, y: f64, sequence: usize) -> PositionedTextFragment {
    PositionedTextFragment {
        text: text.to_string(),
        x: key(x),
        y: key(y),
        width: key(10.0),
        height: key(12.0),
        font_name: None,
        font_size: Some(key(12.0)),
        source: TextSource::NativePdf,
        sequence,
        geometry_estimated: true,
        redaction_masked: false,
    }
}

fn clear(n: usize) -> Vec<Vec<Gap>> {
    (0..n).map(|_| vec![Gap { wide: true, near: true }; n]).collect()
}

fn source(y: f64, texts: &[&str]) -> RowSource {
    RowSource {
        y: key(y),
        fragments: texts
            .iter()
            .enumerate()
            .map(|(i, text)| fragment(text, 50.0 + 100.0 * i as f64, y, i))
            .collect(),
        gaps: clear(texts.len()),
    }
}

#[test]
fn covered_fragments_say_nothing() {
    let mut first = vec![fragment("secret", 1.0, 1.0, 0), fragment("open", 2.0, 1.0, 1)];
    let mut second = vec![fragment("other", 1.0, 1.0, 0), fragment("open", 2.0, 1.0, 1)];
    let covered = vec![true, false];
    assert_eq!(apply_visual_redaction_masks(&mut first, &covered), 1);
    assert_eq!(apply_visual_redaction_masks(&mut second, &covered), 1);
    assert_eq!(format!("{first:?}"), format!("{second:?}"));
    assert_eq!(first[0].text, "[REDACTED]");
    assert!(first[0].redaction_masked);
    assert_eq!(first[1].text, "open");
    assert!(!first[1].redaction_masked);
}

#[test]
fn boxes_cover_what_is_redacted_or_dark() {
    let annotation = |explicit: bool, dark: bool| AnnotationSignal {
        physical_page: 1,
        subtype: "Square".to_string(),
        rect: Some([key(9.0), key(2.0), key(1.0), key(8.0)]),
        color_components: Vec::new(),
        is_explicit_redaction: explicit,
        is_dark_overlay_candidate: dark,
    };
    let list = vec![annotation(true, false), annotation(false, true), annotation(false, false)];
    let ordered = [key(1.0), key(2.0), key(9.0), key(8.0)];
    assert_eq!(find_covering_boxes(&list), vec![ordered, ordered]);
    assert_eq!(
        normalize_corner_rect([key(-0.0), key(5.0), key(0.0), key(-5.0)]),
        [key(-0.0), key(-5.0), key(0.0), key(5.0)]
    );
    let bar = |possible: bool| FilledRectangleSignal {
        physical_page: 1,
        rect: [key(1.0), key(2.0), key(30.0), key(10.0)],
        color_space: "gray".to_string(),
        color_components: vec![0],
        is_dark: true,
        possible_redaction: possible,
    };
    assert_eq!(find_covering_bars(&vec![bar(true), bar(false)]).len(), 1);
}

#[test]
fn fragments_are_sorted_from_the_top() {
    let list = vec![
        fragment("c", 50.0, 100.0, 0),
        fragment("b", 90.0, 200.0, 1),
        fragment("a", 10.0, 200.0, 2),
        fragment("d", 50.0, 100.0, 3),
    ];
    let texts = |list: Vec<PositionedTextFragment>| {
        list.into_iter().map(|f| f.text).collect::<Vec<_>>().join("")
    };
    assert_eq!(texts(sort_fragments(&list, true)), "abcd");
    assert_eq!(texts(sort_fragments(&list, false)), "acdb");
    assert_eq!(texts(gather_row(&list, &vec![0, 1, 1, 0], 1)), "ab");
    assert_eq!(typical_type_size(&list), Some(key(12.0)));
}

#[test]
fn fragments_are_joined_by_their_gaps() {
    let list = vec![fragment("Where", 0.0, 0.0, 0), fragment("were", 1.0, 0.0, 1), fragment("?", 2.0, 0.0, 2)];
    assert_eq!(join_row_fragments(&list, &clear(3), None), "Where were?");
    assert_eq!(join_row_fragments(&list, &Vec::new(), None), "Wherewere?");
    let near = vec![vec![Gap { wide: false, near: true }; 3]; 3];
    assert_eq!(join_row_fragments(&list, &near, None), "Where were?");
    assert_eq!(join_row_fragments(&list, &clear(3), Some(1)), "Where?");
}

#[test]
fn masked_fragments_in_sequence_are_written_once() {
    let mut list = vec![fragment("a", 0.0, 0.0, 0), fragment("b", 1.0, 0.0, 1), fragment("c", 2.0, 0.0, 2)];
    apply_visual_redaction_masks(&mut list, &vec![true, true]);
    assert_eq!(join_row_fragments(&list, &clear(3), None), "[REDACTED] c");
}

#[test]
fn rows_are_drafted_from_top_to_bottom() {
    let rows = draft_rows(vec![
        source(100.0, &["2", "A. Home."]),
        source(50.0, &[" "]),
        source(200.0, &["1", "Q. Where?"]),
    ]);
    assert_eq!(rows.len(), 2);
    assert_eq!(rows[0].row.text, "1 Q. Where?");
    assert_eq!(rows[0].row.line_number, Some(1));
    assert_eq!(rows[0].row.left_x, Some(key(50.0)));
    assert_eq!(rows[1].row.text, "2 A. Home.");
    assert_eq!(join_rows(&rows), "1 Q. Where?\n2 A. Home.");
    assert_eq!(find_leading_column(&rows), None);
}

#[test]
fn line_numbers_at_the_end_of_rows_make_a_column() {
    let mut rows = draft_rows(
        (1..=7)
            .map(|n| source(700.0 - 20.0 * f64::from(n), &["words", n.to_string().as_str()]))
            .collect(),
    );
    assert_eq!(find_leading_column(&rows), None);
    let candidates = find_candidates(&rows);
    assert_eq!(candidates.len(), 7);
    assert_eq!(candidates[2].number, 3);
    assert_eq!(candidates[2].row, 2);
    assert_eq!(candidates[2].fragment, 1);
    let column = check_column(&candidates, &vec![true; 7]).unwrap();
    assert_eq!(column_place(&column), Some(key(150.0)));
    normalize_column(&mut rows, &column);
    assert_eq!(rows[2].row.text, "3 words");
    assert_eq!(rows[2].row.line_number, Some(3));
    assert_eq!(rows[2].row.line_number_x, Some(key(150.0)));
    assert_eq!(rows[2].row.fragments.len(), 1);
    assert!(check_column(&candidates, &vec![true, true]).is_none());
}

#[test]
fn line_numbers_in_front_of_rows_make_a_column() {
    let rows = draft_rows(
        (1..=7)
            .map(|n| source(700.0 - 20.0 * f64::from(n), &[n.to_string().as_str(), "words"]))
            .collect(),
    );
    assert_eq!(find_leading_column(&rows), Some(key(50.0)));
}

#[test]
fn sparse_rows_fall_back_unless_anything_is_masked() {
    let sparse = || draft_rows(vec![source(100.0, &["few", "words"])]);
    let (rows, text, layout) =
        reconstruct_visual_rows(sparse(), 2, None, "the plain text", key(f64::from(0.41f32)));
    assert_eq!(text, "the plain text");
    assert_eq!(rows.len(), 1);
    assert!(!layout.used_positioned_reconstruction);
    assert!(layout.fallback_reason.is_some());
    let (_, text, layout) =
        reconstruct_visual_rows(sparse(), 2, None, "the plain text", key(f64::from(0.42f32)));
    assert_eq!(text, "few words");
    assert!(layout.used_positioned_reconstruction);
    assert_eq!(layout.fallback_reason, None);
    let mut covered = source(100.0, &["secret", "words"]);
    apply_visual_redaction_masks(&mut covered.fragments, &vec![true]);
    let (_, text, layout) =
        reconstruct_visual_rows(draft_rows(vec![covered]), 2, None, "the secret words", key(0.0));
    assert_eq!(text, "[REDACTED] words");
    assert_eq!(layout.masked_redaction_fragments, 1);
}

#[test]
fn masked_pages_withhold_their_raw_text() {
    let read = |text: &str| PdfPage {
        physical_page: 3,
        fallback_text: text.to_string(),
        text_error: None,
        annotations: Vec::new(),
        filled_rectangles: Vec::new(),
        image_count: 0,
        steps: Vec::new(),
        steps_error: Some("no fonts".to_string()),
    };
    let assemble = |text: &str, masked: usize| {
        assemble_page(
            read(text),
            Vec::new(),
            "[REDACTED]".to_string(),
            PageLayoutDiagnostics::default(),
            masked,
            "adapter missing",
        )
    };
    assert_eq!(
        format!("{:?}", assemble("the secret", 1)),
        format!("{:?}", assemble("something else", 1))
    );
    let open = assemble("the plain text", 0);
    assert_eq!(open.raw_text, "the plain text");
    assert_eq!(open.physical_page, 3);
    assert_eq!(open.layout.extraction_engine, "lopdf_fallback");
    assert_eq!(open.layout.warnings[0], "adapter missing");
    assert_eq!(
        open.layout.fallback_reason.as_deref(),
        Some("Positioned text extraction failed: no fonts")
    );
}

#[test]
fn fragment_texts_are_cleaned() {
    assert_eq!(drop_zeros("a\u{0}b"), "ab");
    assert_eq!(normalize_fragment_text(" a\u{0}  b "), "a b");
}

#[test]
fn the_first_column_of_the_best_score_is_chosen() {
    let scores = vec![Some(key(0.5)), None, Some(key(0.75)), Some(key(0.75)), Some(key(0.25))];
    assert_eq!(choose_column(&scores), Some(2));
    assert_eq!(choose_column(&vec![Some(key(0.0)), Some(key(-0.0))]), Some(0));
    assert_eq!(choose_column(&vec![None, None]), None);
}

#[test]
fn a_leading_column_settles_the_page() {
    let mut rows = draft_rows(vec![source(700.0, &["1", "said"]), source(680.0, &["no", "number"])]);
    let before = join_rows(&rows);
    let column = find_candidates(&rows);
    let settled = settle_column(Some(key(50.0)), Some((column, key(70.0))), &mut rows);
    assert_eq!(settled, Some(key(50.0)));
    assert_eq!(join_rows(&rows), before);
    assert_eq!(settle_column(None, None, &mut rows), None);
    assert_eq!(join_rows(&rows), before);
}

#[test]
fn a_scored_column_settles_the_page() {
    let mut rows = draft_rows(vec![source(700.0, &["He spoke", "7"])]);
    let column = find_candidates(&rows);
    assert_eq!(column.len(), 1);
    let settled = settle_column(None, Some((column, key(150.0))), &mut rows);
    assert_eq!(settled, Some(key(150.0)));
    assert_eq!(join_rows(&rows), "7 He spoke");
    assert_eq!(rows[0].row.line_number, Some(7));
}

#[test]
fn rows_with_text_are_counted() {
    let mut rows = draft_rows(vec![source(700.0, &["one"]), source(680.0, &["two"])]);
    assert_eq!(count_filled(&rows), 2);
    rows[0].row.text = " \t".to_string();
    assert_eq!(count_filled(&rows), 1);
    rows.clear();
    assert_eq!(count_filled(&rows), 0);
}
