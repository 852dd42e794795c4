//! PDF files, read page by page.
use lopdf::content::{Content, Operation};
use lopdf::{Dictionary, Document, Object, Stream};
use transcript_decoder::document::error::DocumentError;
use transcript_decoder::document::extractor::{
    extract_document, load_pdf_metadata, open_pdf, read_loaded, read_pages, show_metadata,
    Extraction,
};
use transcript_decoder::document::page_tree::check_page_counts;
use transcript_decoder::document::shown::{find_steps, TextStep};

fn key(x: f64) -> i64 {
    let bits = x.to_bits() as i64;
    if bits < 0 {
        bits ^ i64::MAX
    } else {
        bits
    }
}

fn name(text: &str) -> Object {
    Object::Name(text.as_bytes().to_vec())
}

fn dictionary(entries: Vec<(&str, Object)>) -> Dictionary {
    entries.into_iter().collect()
}

fn numbers(list: &[i64]) -> Object {
    Object::Array(list.iter().map(|n| Object::Integer(*n)).collect())
}

fn operation(operator: &str, operands: Vec<Object>) -> Operation {
    Operation::new(operator, operands)
}

fn sample_operations() -> Vec<Operation> {
    vec![
        operation("q", vec![]),
        operation(
            "cm",
            vec![1.into(), 0.into(), 0.into(), 1.into(), 10.into(), Object::Real(20.5)],
        ),
        operation("BT", vec![]),
        operation("Tf", vec![name("F1"), 12.into()]),
        operation("Td", vec![100.into(), 700.into()]),
        operation("Tj", vec![Object::string_literal("MR. SMITH: Where?")]),
        operation("TD", vec![0.into(), Object::Integer(-14)]),
        operation(
            "TJ",
            vec![Object::Array(vec![
                Object::string_literal("At"),
                Object::Integer(-200),
                Object::string_literal("ho"),
                Object::Integer(-50),
                Object::string_literal("me."),
            ])],
        ),
        operation("T*", vec![]),
        operation("ET", vec![]),
        operation("Q", vec![]),
        operation("g", vec![0.into()]),
        operation("re", vec![72.into(), 600.into(), 200.into(), 12.into()]),
        operation("f", vec![]),
        operation("rg", vec![1.into(), 1.into(), 1.into()]),
        operation("re", vec![72.into(), 500.into(), 200.into(), 12.into()]),
        operation("f", vec![]),
        operation("re", vec![72.into(), 400.into(), 200.into(), 1.into()]),
        operation("f", vec![]),
    ]
}

/// A document of one page that shows two lines and fills two rectangles, with an annotation
/// that redacts and one image.
fn sample() -> Document {
    let mut document = Document::with_version("1.5");
    let pages = document.new_object_id();
    let font = document.add_object(dictionary(vec![
        ("Type", name("Font")),
        ("Subtype", name("Type1")),
        ("BaseFont", name("Courier")),
        ("Encoding", name("WinAnsiEncoding")),
    ]));
    let image = document.add_object(Stream::new(
        dictionary(vec![
            ("Type", name("XObject")),
            ("Subtype", name("Image")),
            ("Width", 1.into()),
            ("Height", 1.into()),
            ("ColorSpace", name("DeviceGray")),
            ("BitsPerComponent", 8.into()),
        ]),
        vec![0],
    ));
    let resources = document.add_object(dictionary(vec![
        ("Font", Object::Dictionary(dictionary(vec![("F1", Object::Reference(font))]))),
        ("XObject", Object::Dictionary(dictionary(vec![("I1", Object::Reference(image))]))),
    ]));
    let content = Content { operations: sample_operations() };
    let stream = document.add_object(Stream::new(Dictionary::new(), content.encode().unwrap()));
    let annotation = document.add_object(dictionary(vec![
        ("Type", name("Annot")),
        ("Subtype", name("Redact")),
        ("Rect", numbers(&[300, 200, 100, 250])),
        ("IC", numbers(&[0, 0, 0])),
        ("C", numbers(&[1])),
    ]));
    let page = document.add_object(dictionary(vec![
        ("Type", name("Page")),
        ("Parent", Object::Reference(pages)),
        ("Contents", Object::Reference(stream)),
        ("Resources", Object::Reference(resources)),
        ("MediaBox", numbers(&[0, 0, 612, 792])),
        ("Annots", Object::Array(vec![Object::Reference(annotation)])),
    ]));
    document.objects.insert(
        pages,
        Object::Dictionary(dictionary(vec![
            ("Type", name("Pages")),
            ("Kids", Object::Array(vec![Object::Reference(page)])),
            ("Count", 1.into()),
        ])),
    );
    let catalog = document.add_object(dictionary(vec![
        ("Type", name("Catalog")),
        ("Pages", Object::Reference(pages)),
    ]));
    document.trailer.set("Root", Object::Reference(catalog));
    let info = document.add_object(dictionary(vec![
        ("Title", Object::string_literal("  Deposition of A\u{0} ")),
        ("Author", Object::string_literal("   ")),
    ]));
    document.trailer.set("Info", Object::Reference(info));
    document
}

fn sample_bytes() -> Vec<u8> {
    let mut bytes = Vec::new();
    sample().save_to(&mut bytes).unwrap();
    bytes
}

#[test]
fn a_page_is_read_with_its_text_and_drawing() {
    let pages = read_pages(&sample());
    assert_eq!(pages.len(), 1);
    let page = &pages[0];
    assert_eq!(page.physical_page, 1);
    assert!(page.text_error.is_none());
    assert!(page.steps_error.is_none());
    assert!(page.fallback_text.contains("MR. SMITH: Where?"));
    assert_eq!(page.image_count, 1);
}

#[test]
fn annotations_are_read_with_box_and_color() {
    let pages = read_pages(&sample());
    let annotations = &pages[0].annotations;
    assert_eq!(annotations.len(), 1);
    let found = &annotations[0];
    assert_eq!(found.physical_page, 1);
    assert_eq!(found.subtype, "Redact");
    assert_eq!(found.rect, Some([key(300.0), key(200.0), key(100.0), key(250.0)]));
    assert_eq!(found.color_components, vec![0, 0, 0]);
    assert!(found.is_explicit_redaction);
    assert!(found.is_dark_overlay_candidate);
}

#[test]
fn filled_rectangles_are_read_with_their_color() {
    let pages = read_pages(&sample());
    let rectangles = &pages[0].filled_rectangles;
    assert_eq!(rectangles.len(), 2);
    assert_eq!(rectangles[0].rect, [key(72.0), key(600.0), key(200.0), key(12.0)]);
    assert_eq!(rectangles[0].color_space, "gray");
    assert_eq!(rectangles[0].color_components, vec![key(0.0)]);
    assert!(rectangles[0].is_dark);
    assert!(rectangles[0].possible_redaction);
    assert_eq!(rectangles[1].rect, [key(72.0), key(500.0), key(200.0), key(12.0)]);
    assert_eq!(rectangles[1].color_space, "rgb");
    assert!(!rectangles[1].is_dark);
    assert!(!rectangles[1].possible_redaction);
}

#[test]
fn text_operations_become_steps() {
    let pages = read_pages(&sample());
    let steps = &pages[0].steps;
    assert_eq!(steps.len(), 10);
    assert!(matches!(steps[0], TextStep::Save));
    let moved = [key(1.0), key(0.0), key(0.0), key(1.0), key(10.0), key(20.5)];
    assert!(matches!(steps[1], TextStep::Transform(m) if m == moved));
    assert!(matches!(steps[2], TextStep::Begin));
    assert!(matches!(steps[3], TextStep::Size(s) if s == key(12.0)));
    assert!(matches!(steps[4], TextStep::Move(x, y) if x == key(100.0) && y == key(700.0)));
    assert!(matches!(&steps[5], TextStep::Show { font, text }
        if font == "F1" && text == "MR. SMITH: Where?"));
    assert!(matches!(steps[6], TextStep::MoveAndLead(x, y) if x == 0 && y == key(-14.0)));
    assert!(matches!(&steps[7], TextStep::Show { font, text } if font == "F1" && text == "At home."));
    assert!(matches!(steps[8], TextStep::NextLine));
    assert!(matches!(steps[9], TextStep::Restore));
}

#[test]
fn text_in_an_unknown_font_is_not_shown() {
    let mut document = sample();
    let page = *document.get_pages().get(&1).unwrap();
    let content = Content {
        operations: vec![
            operation("BT", vec![]),
            operation("Tj", vec![Object::string_literal("no font")]),
            operation("Tf", vec![name("F9"), 12.into()]),
            operation("Tj", vec![Object::string_literal("unknown font")]),
            operation("ET", vec![]),
        ],
    };
    let stream = document.add_object(Stream::new(Dictionary::new(), content.encode().unwrap()));
    match document.objects.get_mut(&page) {
        Some(Object::Dictionary(entries)) => entries.set("Contents", Object::Reference(stream)),
        _ => panic!("the page is a dictionary"),
    }
    let steps = find_steps(&document, page).unwrap();
    assert_eq!(steps.len(), 2);
    assert!(matches!(steps[0], TextStep::Begin));
    assert!(matches!(steps[1], TextStep::Size(_)));
}

#[test]
fn a_file_opens_as_its_pages() {
    let pages = open_pdf(&sample_bytes()).unwrap();
    assert_eq!(pages.len(), 1);
    assert_eq!(pages[0].annotations.len(), 1);
    assert_eq!(pages[0].steps.len(), 10);
}

#[test]
fn a_broken_file_does_not_open() {
    match open_pdf(b"%PDF-1.5 and nothing else") {
        Err(DocumentError::PdfLoad(message)) => {
            assert!(!message.is_empty());
            let shown = DocumentError::PdfLoad(message.clone()).message();
            assert_eq!(shown, format!("Could not load PDF: {message}"));
        }
        _ => panic!("there is nothing to load"),
    }
}

#[test]
fn a_document_without_pages_has_no_text() {
    assert!(matches!(
        read_loaded(Ok(Document::with_version("1.5"))),
        Err(DocumentError::NoExtractableText)
    ));
    assert!(matches!(
        read_loaded(Err("truncated".to_string())),
        Err(DocumentError::PdfLoad(message)) if message == "truncated"
    ));
    assert_eq!(read_loaded(Ok(sample())).unwrap().len(), 1);
}

#[test]
fn metadata_are_read_and_cleaned() {
    let metadata = load_pdf_metadata(&sample_bytes()).unwrap();
    assert_eq!(metadata.title.as_deref(), Some("Deposition of A"));
    assert_eq!(metadata.author, None);
    assert_eq!(metadata.subject, None);
    assert_eq!(metadata.pdf_version.as_deref(), Some("1.5"));
    assert_eq!(metadata.declared_page_count, Some(1));
    assert!(!metadata.encrypted);
}

#[test]
fn metadata_of_what_is_no_pdf_are_empty() {
    assert!(load_pdf_metadata(b"not a PDF").is_none());
    let metadata = show_metadata(&None);
    assert_eq!(metadata.title, None);
    assert_eq!(metadata.pdf_version, None);
    assert_eq!(metadata.declared_page_count, None);
}

#[test]
fn a_pdf_is_told_by_name_and_header() {
    match extract_document("Deposition.PDF", &sample_bytes()) {
        Ok(Extraction::Pdf(Some(metadata))) => assert_eq!(metadata.declared_page_count, Some(1)),
        _ => panic!("the file is a PDF"),
    }
}

/// A document whose page tree has the given root entries, beside its type, with one page and
/// nodes below it that declare the given counts and hold nothing.
fn declaring(root_count: Option<i64>, counts: &[i64]) -> Document {
    let mut document = sample();
    let page = *document.get_pages().get(&1).unwrap();
    let mut kids = vec![Object::Reference(page)];
    for count in counts {
        let node = document.add_object(dictionary(vec![
            ("Type", name("Pages")),
            ("Kids", Object::Array(vec![])),
            ("Count", Object::Integer(*count)),
        ]));
        kids.push(Object::Reference(node));
    }
    let pages = document.catalog().unwrap().get(b"Pages").unwrap().as_reference().unwrap();
    let mut entries = vec![("Type", name("Pages")), ("Kids", Object::Array(kids))];
    if let Some(count) = root_count {
        entries.push(("Count", Object::Integer(count)));
    }
    document.objects.insert(pages, Object::Dictionary(dictionary(entries)));
    document
}

fn saved(mut document: Document) -> Vec<u8> {
    let mut bytes = Vec::new();
    document.save_to(&mut bytes).unwrap();
    bytes
}

#[test]
fn pages_are_read_whatever_is_declared() {
    let text = read_pages(&sample())[0].fallback_text.clone();
    assert!(text.contains("MR. SMITH: Where?"));
    for counts in [vec![999_999], vec![1_000_000], vec![-5], vec![i64::MAX, i64::MAX, i64::MAX]] {
        let document = declaring(Some(1), &counts);
        let pages = read_pages(&document);
        assert_eq!(pages.len(), 1);
        assert_eq!(pages[0].physical_page, 1);
        assert_eq!(pages[0].fallback_text, text);
        assert!(pages[0].text_error.is_none());
        assert_eq!(pages[0].steps.len(), 10);
        assert_eq!(open_pdf(&saved(document)).unwrap()[0].fallback_text, text);
    }
}

#[test]
fn only_modest_counts_are_listed_by() {
    assert!(check_page_counts(&declaring(Some(1), &[999_999])));
    assert!(!check_page_counts(&declaring(Some(1), &[1_000_000])));
    assert!(!check_page_counts(&declaring(Some(1), &[i64::MAX])));
    assert!(check_page_counts(&declaring(Some(1), &[-5])));
}

#[test]
fn pages_below_many_nodes_are_read_in_order() {
    let mut document = declaring(Some(1), &[i64::MAX]);
    let first = document.page_iter().next().unwrap();
    let second = document.add_object(dictionary(vec![("Type", name("Page"))]));
    let node = document.add_object(dictionary(vec![
        ("Type", name("Pages")),
        ("Kids", Object::Array(vec![Object::Reference(second), Object::Reference(first)])),
        ("Count", Object::Integer(i64::MAX)),
    ]));
    let pages = document.catalog().unwrap().get(b"Pages").unwrap().as_reference().unwrap();
    document.objects.insert(
        pages,
        Object::Dictionary(dictionary(vec![
            ("Type", name("Pages")),
            ("Kids", Object::Array(vec![Object::Reference(first), Object::Reference(node)])),
        ])),
    );
    let read = read_pages(&document);
    let shown: Vec<bool> = read.iter().map(|page| page.fallback_text.contains("Where?")).collect();
    assert_eq!(shown, vec![true, false, true]);
    assert_eq!(read.iter().map(|page| page.image_count).collect::<Vec<usize>>(), vec![1, 0, 1]);
}

#[test]
fn kids_are_numbered_in_order() {
    let mut document = sample();
    let page = *document.get_pages().get(&1).unwrap();
    let pages = document.catalog().unwrap().get(b"Pages").unwrap().as_reference().unwrap();
    let kids = Object::Array(vec![Object::Reference(page), Object::Reference(page)]);
    document.objects.insert(
        pages,
        Object::Dictionary(dictionary(vec![("Type", name("Pages")), ("Kids", kids), ("Count", 2.into())])),
    );
    let read = read_pages(&document);
    assert_eq!(read.iter().map(|page| page.physical_page).collect::<Vec<u32>>(), vec![1, 2]);
}

#[test]
fn counts_that_do_not_add_up_are_left_alone() {
    let bytes = saved(declaring(None, &[4_294_967_295, 1]));
    assert!(load_pdf_metadata(&bytes).is_none());
    assert!(matches!(extract_document("a.pdf", &bytes), Ok(Extraction::Pdf(None))));
}

#[test]
fn counts_that_add_up_are_added_up() {
    let metadata = load_pdf_metadata(&saved(declaring(None, &[40, 1]))).unwrap();
    assert_eq!(metadata.declared_page_count, Some(42));
    assert_eq!(metadata.title.as_deref(), Some("Deposition of A"));
}

#[test]
fn a_root_that_counts_is_taken_at_its_word() {
    let metadata = load_pdf_metadata(&saved(declaring(Some(7), &[4_294_967_295, 1]))).unwrap();
    assert_eq!(metadata.declared_page_count, Some(7));
    assert_eq!(metadata.title.as_deref(), Some("Deposition of A"));
}

#[test]
fn kids_that_are_missing_are_not_counted() {
    let mut document = declaring(None, &[40]);
    let node = document.new_object_id();
    let pages = document.catalog().unwrap().get(b"Pages").unwrap().as_reference().unwrap();
    match document.objects.get_mut(&pages) {
        Some(Object::Dictionary(entries)) => {
            entries.set("Kids", Object::Array(vec![Object::Reference(node)]))
        }
        _ => panic!("the root is a dictionary"),
    }
    assert!(load_pdf_metadata(&saved(document)).is_none());
}

/// The bytes of a file whose objects are those of the given texts, in order, with a table that
/// gives the places of the given objects, and more entries for its trailer.
fn file_with_table(objects: &[&str], table: &[usize], trailer: &str) -> Vec<u8> {
    let mut text = String::from("%PDF-1.5\n");
    let mut places = Vec::new();
    for object in objects {
        places.push(text.len());
        text.push_str(object);
        text.push('\n');
    }
    let start = text.len();
    text.push_str(&format!("xref\n0 {}\n0000000000 65535 f \n", table.len() + 1));
    for entry in table {
        text.push_str(&format!("{:010} 00000 n \n", places[*entry]));
    }
    text.push_str(&format!(
        "trailer\n<< /Size {} /Root 1 0 R {} >>\nstartxref\n{}\n%%EOF",
        table.len() + 1,
        trailer,
        start
    ));
    text.into_bytes()
}

const CATALOG: &str = "1 0 obj << /Type /Catalog /Pages 2 0 R >> endobj";
const ROOT: &str = "2 0 obj << /Type /Pages /Kids [3 0 R] /Count 3 >> endobj";
const PAGE: &str = "3 0 obj << /Type /Page /Parent 2 0 R >> endobj";

#[test]
fn a_table_is_held_against_the_file() {
    let file = file_with_table(&[CATALOG, ROOT, PAGE], &[0, 1, 2], "");
    assert_eq!(load_pdf_metadata(&file).unwrap().declared_page_count, Some(3));
    let twice = file_with_table(&[CATALOG, ROOT, PAGE], &[0, 1, 2, 1], "");
    assert!(load_pdf_metadata(&twice).is_none());
}

#[test]
fn a_locked_file_says_that_it_is_encrypted() {
    let owner = "o".repeat(32);
    let user = "u".repeat(32);
    let encryption = format!(
        "4 0 obj << /Filter /Standard /V 1 /R 2 /P -4 /O ({owner}) /U ({user}) >> endobj"
    );
    let file = file_with_table(
        &[CATALOG, ROOT, PAGE, encryption.as_str()],
        &[0, 1, 2, 3],
        "/Encrypt 4 0 R /ID [(0123456789abcdef) (0123456789abcdef)]",
    );
    let metadata = load_pdf_metadata(&file).unwrap();
    assert!(metadata.encrypted);
    assert_eq!(metadata.pdf_version.as_deref(), Some("1.5"));
    assert_eq!(metadata.declared_page_count, Some(0));
}
