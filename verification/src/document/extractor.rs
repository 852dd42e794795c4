//! Uploaded files as documents.
//!
//! Plain text is extracted at once. The pages of a PDF come from an adapter that reads
//! coordinates and, where it is not available, from what [`open_pdf`] reads, once the steps
//! in which a page is shown were followed.
use vstd::prelude::*;

use lopdf::Document;

use crate::document::decode::{decode, text_of};
use crate::document::drawing::{
    inspect_annotations, inspect_filled_rectangles, rectangles_on, signals_on,
};
use crate::document::error::{DocumentError, DocumentErrorView};
use crate::document::lopdf_items::{
    flatten, flattened, images_on, load_metadata, load_pdf, loading, metadata_in, page_images,
    page_list, page_text, pages_in, text_on,
};
use crate::document::models::{
    no_metadata, AnnotationSignal, AnnotationSignalView, DocumentKind, DocumentMetadata,
    DocumentMetadataView, ExtractedDocument, ExtractedDocumentView, ExtractedPage,
    ExtractedPageView, FilledRectangleSignal, FilledRectangleSignalView, PageLayoutDiagnostics,
    PageLayoutDiagnosticsView, PageSection, VisualRow, VisualRowView,
};
use crate::document::page_tree::{
    check_counts, check_page_counts, counts_add_up, has_pdf_header, page_counts_fit, pdf_header,
    plain_tree,
};
use crate::document::plain::{
    gathered_lines, normalize_pdf_page, pages_of_text, split_text_pages,
};
use crate::document::sections::{classified, classify_page_sections};
use crate::document::shown::{
    drop_zeros, find_steps, steps_on, without_zeros, TextStep, TextStepView,
};
use crate::measure::{least, smaller, MEASURE_0_65};
use crate::pieces::joined;
use crate::scan::{blank, ends_with, has_suffix, is_blank, lowercased, to_lower, trim, trimmed};
use crate::text::push_item;

verus! {

/// The most that one stream of a PDF may decompress to.
pub const MAX_PDF_STREAM_SIZE: usize = 67_108_864;

/// The most that the content of a page may decompress to when its plain text is extracted.
pub const MAX_PAGE_TEXT_SIZE: usize = 16_777_216;

// ---------------------------------------------------------------------------
// Plain text
// ---------------------------------------------------------------------------

/// The document that a text is.
pub open spec fn text_document(text: Seq<char>) -> ExtractedDocumentView {
    ExtractedDocumentView {
        kind: DocumentKind::Text,
        metadata: no_metadata(),
        pages: classified(pages_of_text(text)),
    }
}

pub fn extract_text_document(bytes: &[u8]) -> (r: Result<ExtractedDocument, DocumentError>)
    ensures
        match (r, text_of(bytes@)) {
            (Ok(document), Some(text)) => document.deep_view() == text_document(text),
            (Err(error), None) => error is InvalidUtf8,
            _ => false,
        },
{
    match decode(bytes) {
        Some(text) => {
            let mut pages = split_text_pages(text.as_str());
            classify_page_sections(&mut pages);
            Ok(
                ExtractedDocument {
                    kind: DocumentKind::Text,
                    metadata: DocumentMetadata::default(),
                    pages,
                },
            )
        },
        None => Err(DocumentError::InvalidUtf8),
    }
}

// ---------------------------------------------------------------------------
// Metadata
// ---------------------------------------------------------------------------

/// An entry of the metadata as it is shown: without characters of code zero and white space
/// around it, and only if anything is left.
pub open spec fn sanitized(value: Option<Seq<char>>) -> Option<Seq<char>> {
    match value {
        Some(text) => {
            let cleaned = trimmed(without_zeros(text, text.len() as int));
            if cleaned.len() == 0 {
                None
            } else {
                Some(cleaned)
            }
        },
        None => None,
    }
}

pub fn sanitize_metadata_text(value: &Option<String>) -> (r: Option<String>)
    ensures
        r.deep_view() == sanitized(value.deep_view()),
{
    match value {
        Some(text) => {
            let kept = drop_zeros(text.as_str());
            let cleaned = trim(kept.as_str());
            if cleaned.is_empty() {
                None
            } else {
                Some(cleaned.to_owned())
            }
        },
        None => None,
    }
}

/// Metadata as they are shown.
pub open spec fn sanitized_metadata(m: DocumentMetadataView) -> DocumentMetadataView {
    DocumentMetadataView {
        title: sanitized(m.title),
        author: sanitized(m.author),
        subject: sanitized(m.subject),
        keywords: sanitized(m.keywords),
        creator: sanitized(m.creator),
        producer: sanitized(m.producer),
        creation_date: sanitized(m.creation_date),
        modification_date: sanitized(m.modification_date),
        pdf_version: sanitized(m.pdf_version),
        ..m
    }
}

pub fn sanitize_metadata(m: &DocumentMetadata) -> (r: DocumentMetadata)
    ensures
        r.deep_view() == sanitized_metadata(m.deep_view()),
{
    DocumentMetadata {
        title: sanitize_metadata_text(&m.title),
        author: sanitize_metadata_text(&m.author),
        subject: sanitize_metadata_text(&m.subject),
        keywords: sanitize_metadata_text(&m.keywords),
        creator: sanitize_metadata_text(&m.creator),
        producer: sanitize_metadata_text(&m.producer),
        creation_date: sanitize_metadata_text(&m.creation_date),
        modification_date: sanitize_metadata_text(&m.modification_date),
        pdf_version: sanitize_metadata_text(&m.pdf_version),
        encrypted: m.encrypted,
        declared_page_count: m.declared_page_count,
    }
}

/// What is shown of the metadata that were read of a PDF, if any.
pub open spec fn shown_metadata(read: Option<DocumentMetadataView>) -> DocumentMetadataView {
    match read {
        Some(m) => sanitized_metadata(m),
        None => no_metadata(),
    }
}

/// Cleans the metadata that were read of a PDF, if any.
pub fn show_metadata(read: &Option<DocumentMetadata>) -> (r: DocumentMetadata)
    ensures
        r.deep_view() == shown_metadata(read.deep_view()),
{
    match read {
        Some(m) => sanitize_metadata(m),
        None => DocumentMetadata::default(),
    }
}

/// Whether the metadata of a PDF are read, given how loading it came out: the pages that it
/// declares are counted on the way, and it has to be seen beforehand that they can be.
pub open spec fn metadata_readable(
    bytes: Seq<u8>,
    outcome: Result<Document, Seq<char>>,
) -> bool {
    outcome matches Ok(document) && counts_add_up(bytes, document)
}

/// Reads what a PDF says of itself, and gives nothing where it cannot be seen beforehand that
/// its pages can be counted. The whole of it is loaded for that, with no limit on what is
/// decompressed, as the metadata themselves are read.
pub fn load_pdf_metadata(bytes: &[u8]) -> (r: Option<DocumentMetadata>)
    ensures
        exists|outcome: Result<Document, Seq<char>>| #[trigger]
            loading(bytes@, None, outcome) && match r {
                Some(metadata) => metadata_readable(bytes@, outcome) && metadata.deep_view()
                    == shown_metadata(metadata_in(bytes@)),
                None => !metadata_readable(bytes@, outcome),
            },
{
    let loaded = load_pdf(bytes, None);
    let ghost outcome = outcome_view(loaded);
    assert(loading(bytes@, None, outcome));
    match loaded {
        Ok(document) => if check_counts(bytes, &document) {
            assert(loading(bytes@, None, Ok(document)) && counts_add_up(bytes@, document));
            Some(show_metadata(&load_metadata(bytes)))
        } else {
            None
        },
        Err(_) => None,
    }
}

// ---------------------------------------------------------------------------
// Files
// ---------------------------------------------------------------------------

/// What an uploaded file turns out to be.
#[derive(Debug)]
pub enum Extraction {
    /// A text, with its pages.
    Text(ExtractedDocument),
    /// A PDF, of which only the metadata were read, if it could be seen that they can be.
    Pdf(Option<DocumentMetadata>),
}

/// Tells by its name what a file is, and extracts it as far as that can be done at once.
pub fn extract_document(filename: &str, bytes: &[u8]) -> (r: Result<Extraction, DocumentError>)
    ensures
        ({
            let name = lowercased(filename@);
            if has_suffix(name, ".txt"@) {
                match (r, text_of(bytes@)) {
                    (Ok(Extraction::Text(document)), Some(text)) => {
                        document.deep_view() == text_document(text)
                    },
                    (Err(error), None) => error is InvalidUtf8,
                    _ => false,
                }
            } else if has_suffix(name, ".pdf"@) {
                match r {
                    Ok(Extraction::Pdf(metadata)) => {
                        pdf_header(bytes@) && exists|outcome: Result<Document, Seq<char>>| #[trigger]
                            loading(bytes@, None, outcome) && match metadata {
                                Some(metadata) => metadata_readable(bytes@, outcome)
                                    && metadata.deep_view() == shown_metadata(metadata_in(bytes@)),
                                None => !metadata_readable(bytes@, outcome),
                            }
                    },
                    Err(error) => !pdf_header(bytes@) && error is InvalidPdfHeader,
                    _ => false,
                }
            } else {
                r matches Err(error) && error is UnsupportedFileType
            }
        }),
{
    let name = to_lower(filename);
    if ends_with(name.as_str(), ".txt") {
        return match extract_text_document(bytes) {
            Ok(document) => Ok(Extraction::Text(document)),
            Err(error) => Err(error),
        };
    }
    if ends_with(name.as_str(), ".pdf") {
        if !has_pdf_header(bytes) {
            return Err(DocumentError::InvalidPdfHeader);
        }
        return Ok(Extraction::Pdf(load_pdf_metadata(bytes)));
    }
    Err(DocumentError::UnsupportedFileType)
}

// ---------------------------------------------------------------------------
// The coordinate adapter
// ---------------------------------------------------------------------------

/// Whether pages are numbered from one without a gap.
pub open spec fn contiguous(pages: Seq<ExtractedPageView>) -> bool {
    forall|i: int| 0 <= i < pages.len() ==> (#[trigger] pages[i]).physical_page == (i + 1) as u32
}

/// Decides whether what the adapter gave back can be used.
pub fn check_adapter_result(protocol_version: u32, pages: &Vec<ExtractedPage>) -> (r: Result<
    (),
    String,
>)
    ensures
        r is Ok <==> protocol_version == 1 && pages@.len() > 0 && contiguous(pages.deep_view()),
        r matches Err(message) ==> message@ == if protocol_version != 1 || pages@.len() == 0 {
            "Unsupported or empty coordinate adapter result"@
        } else {
            "Coordinate adapter returned a non-contiguous physical page inventory"@
        },
{
    if protocol_version != 1 || pages.len() == 0 {
        return Err("Unsupported or empty coordinate adapter result".to_owned());
    }
    let ghost views = pages.deep_view();
    for i in 0..pages.len()
        invariant
            views == pages.deep_view(),
            protocol_version == 1,
            pages@.len() > 0,
            forall|j: int|
                0 <= j < i ==> (#[trigger] views[j]).physical_page == (j + 1) as u32,
    {
        assert(views[i as int] == pages@[i as int].deep_view());
        if pages[i].physical_page != (i + 1) as u32 {
            return Err(
                "Coordinate adapter returned a non-contiguous physical page inventory".to_owned(),
            );
        }
    }
    Ok(())
}

/// Whether the adapter has run for more than ten minutes or written more than 256 MiB.
pub fn adapter_is_over_limits(elapsed_nanoseconds: u128, output_bytes: u64) -> (r: bool)
    ensures
        r == (elapsed_nanoseconds > 600_000_000_000 || output_bytes > 268_435_456),
{
    elapsed_nanoseconds > 600_000_000_000 || output_bytes > 268_435_456
}

/// A PDF document of given pages.
pub open spec fn pdf_document(
    metadata: DocumentMetadataView,
    pages: Seq<ExtractedPageView>,
) -> ExtractedDocumentView {
    ExtractedDocumentView { kind: DocumentKind::Pdf, metadata, pages: classified(pages) }
}

/// Whether a PDF says of itself that it has another number of pages.
pub open spec fn count_disagrees(metadata: DocumentMetadataView, pages: nat) -> bool {
    metadata.declared_page_count is Some && metadata.declared_page_count->0 != pages
}

/// Makes a document of the pages that the adapter gave back, unless the PDF itself says that
/// there are more or fewer.
pub fn accept_adapter_pages(metadata: DocumentMetadata, pages: Vec<ExtractedPage>) -> (r: Result<
    ExtractedDocument,
    DocumentError,
>)
    ensures
        match r {
            Ok(document) => {
                &&& !count_disagrees(metadata.deep_view(), pages@.len())
                &&& document.deep_view() == pdf_document(metadata.deep_view(), pages.deep_view())
            },
            Err(error) => {
                &&& count_disagrees(metadata.deep_view(), pages@.len())
                &&& error.deep_view() == DocumentErrorView::PdfLoad(
                    "Coordinate adapter page count disagrees with PDF page tree"@,
                )
            },
        },
{
    match metadata.declared_page_count {
        Some(count) => {
            if count as u64 != pages.len() as u64 {
                return Err(
                    DocumentError::PdfLoad(
                        "Coordinate adapter page count disagrees with PDF page tree".to_owned(),
                    ),
                );
            }
        },
        None => {},
    }
    Ok(finish_pdf(metadata, pages))
}

/// Makes a document of the pages of a PDF.
pub fn finish_pdf(metadata: DocumentMetadata, pages: Vec<ExtractedPage>) -> (r: ExtractedDocument)
    ensures
        r.deep_view() == pdf_document(metadata.deep_view(), pages.deep_view()),
{
    let mut list = pages;
    classify_page_sections(&mut list);
    ExtractedDocument { kind: DocumentKind::Pdf, metadata, pages: list }
}

// ---------------------------------------------------------------------------
// Reading a PDF without the adapter
// ---------------------------------------------------------------------------

/// What is read of a page: its plain text, what is drawn on it, and the steps in which its
/// text is shown.
#[derive(Debug)]
pub struct PdfPage {
    pub physical_page: u32,
    pub fallback_text: String,
    pub text_error: Option<String>,
    pub annotations: Vec<AnnotationSignal>,
    pub filled_rectangles: Vec<FilledRectangleSignal>,
    pub image_count: usize,
    pub steps: Vec<TextStep>,
    pub steps_error: Option<String>,
}

/// The contents of a [`PdfPage`].
#[verifier::ext_equal]
pub struct PdfPageView {
    pub physical_page: u32,
    pub fallback_text: Seq<char>,
    pub text_error: Option<Seq<char>>,
    pub annotations: Seq<AnnotationSignalView>,
    pub filled_rectangles: Seq<FilledRectangleSignalView>,
    pub image_count: usize,
    pub steps: Seq<TextStepView>,
    pub steps_error: Option<Seq<char>>,
}

impl DeepView for PdfPage {
    type V = PdfPageView;

    open spec fn deep_view(&self) -> PdfPageView {
        PdfPageView {
            physical_page: self.physical_page,
            fallback_text: self.fallback_text@,
            text_error: self.text_error.deep_view(),
            annotations: self.annotations.deep_view(),
            filled_rectangles: self.filled_rectangles.deep_view(),
            image_count: self.image_count,
            steps: self.steps.deep_view(),
            steps_error: self.steps_error.deep_view(),
        }
    }
}

/// The document that the plain text of the pages is extracted from: the one that was loaded or,
/// where that declares more pages than can be listed, the one with the same pages below its root.
pub open spec fn text_source(document: Document) -> Document {
    if page_counts_fit(document) {
        document
    } else {
        flattened(document)
    }
}

/// What is read of a page of a document.
pub open spec fn pdf_page(document: Document, number: u32, page: (u32, u16)) -> PdfPageView {
    let text = text_on(text_source(document), number, MAX_PAGE_TEXT_SIZE);
    let steps = steps_on(document, page);
    PdfPageView {
        physical_page: number,
        fallback_text: joined(
            gathered_lines(
                match text {
                    Ok(text) => text,
                    Err(_) => seq![],
                },
            ),
            "\n"@,
        ),
        text_error: match text {
            Ok(_) => None,
            Err(error) => Some(error),
        },
        annotations: signals_on(document, page, number),
        filled_rectangles: rectangles_on(document, page, number),
        image_count: match images_on(document, page) {
            Some(count) => count,
            None => 0,
        },
        steps: match steps {
            Ok(steps) => steps,
            Err(_) => seq![],
        },
        steps_error: match steps {
            Ok(_) => None,
            Err(error) => Some(error),
        },
    }
}

fn read_page(document: &Document, source: &Document, number: u32, page: (u32, u16)) -> (r: PdfPage)
    requires
        *source == text_source(*document),
        page_counts_fit(*source) || plain_tree(*source),
    ensures
        r.deep_view() == pdf_page(*document, number, page),
{
    let (text, text_error) = match page_text(source, number, MAX_PAGE_TEXT_SIZE) {
        Ok(text) => (text, None),
        Err(error) => (String::new(), Some(error)),
    };
    assert(text@ == match text_on(*source, number, MAX_PAGE_TEXT_SIZE) {
        Ok(text) => text,
        Err(_) => seq![],
    });
    let (steps, steps_error) = match find_steps(document, page) {
        Ok(steps) => (steps, None),
        Err(error) => (Vec::new(), Some(error)),
    };
    assert(steps.deep_view() =~= match steps_on(*document, page) {
        Ok(steps) => steps,
        Err(_) => seq![],
    });
    PdfPage {
        physical_page: number,
        fallback_text: normalize_pdf_page(text.as_str()),
        text_error,
        annotations: inspect_annotations(document, page, number),
        filled_rectangles: inspect_filled_rectangles(document, page, number),
        image_count: match page_images(document, page) {
            Some(count) => count,
            None => 0,
        },
        steps,
        steps_error,
    }
}

/// What is read of the pages of a document, numbered from one.
pub open spec fn pdf_pages(document: Document) -> Seq<PdfPageView> {
    let list = pages_in(document);
    Seq::new(list.len(), |i: int| pdf_page(document, (i + 1) as u32, list[i]))
}

/// Whether what is read is numbered from one without a gap.
pub open spec fn numbered_from_one(pages: Seq<PdfPageView>) -> bool {
    forall|i: int| 0 <= i < pages.len() ==> (#[trigger] pages[i]).physical_page == i + 1
}

fn read_listed(document: &Document, source: &Document, list: &Vec<(u32, u16)>) -> (r: Vec<PdfPage>)
    requires
        list@ == pages_in(*document),
        *source == text_source(*document),
        page_counts_fit(*source) || plain_tree(*source),
    ensures
        r.deep_view() == pdf_pages(*document),
{
    let ghost all = pdf_pages(*document);
    let mut r: Vec<PdfPage> = Vec::new();
    assert(r.deep_view() =~= all.take(0));
    for n in 0..list.len()
        invariant
            *source == text_source(*document),
            page_counts_fit(*source) || plain_tree(*source),
            list@ == pages_in(*document),
            all == pdf_pages(*document),
            r@.len() == n,
            r.deep_view() == all.take(n as int),
    {
        push_item(&mut r, read_page(document, source, (n + 1) as u32, list[n]));
        assert(all.take(n + 1) =~= all.take(n as int).push(all[n as int]));
    }
    assert(all.take(all.len() as int) =~= all);
    r
}

/// Reads the pages of a loaded document.
pub fn read_pages(document: &Document) -> (r: Vec<PdfPage>)
    ensures
        r.deep_view() == pdf_pages(*document),
        r@.len() <= u32::MAX ==> numbered_from_one(r.deep_view()),
{
    let list = page_list(document);
    if check_page_counts(document) {
        read_listed(document, document, &list)
    } else {
        read_listed(document, &flatten(document, &list), &list)
    }
}

/// What is read of a PDF, given how loading it came out.
pub open spec fn opened(outcome: Result<Document, Seq<char>>) -> Result<
    Seq<PdfPageView>,
    DocumentErrorView,
> {
    match outcome {
        Ok(document) => if pdf_pages(document).len() > 0 {
            Ok(pdf_pages(document))
        } else {
            Err(DocumentErrorView::NoExtractableText)
        },
        Err(error) => Err(DocumentErrorView::PdfLoad(error)),
    }
}

/// How loading a PDF came out.
pub open spec fn outcome_view(loaded: Result<Document, String>) -> Result<Document, Seq<char>> {
    match loaded {
        Ok(document) => Ok(document),
        Err(error) => Err(error@),
    }
}

/// Reads the pages of a PDF, given how loading it came out.
pub fn read_loaded(loaded: Result<Document, String>) -> (r: Result<Vec<PdfPage>, DocumentError>)
    ensures
        match (r, opened(outcome_view(loaded))) {
            (Ok(a), Ok(b)) => a.deep_view() == b,
            (Err(a), Err(b)) => a.deep_view() == b,
            _ => false,
        },
        r matches Ok(pages) ==> pages@.len() <= u32::MAX ==> numbered_from_one(pages.deep_view()),
{
    match loaded {
        Ok(document) => {
            let pages = read_pages(&document);
            assert(pages@.len() == pages.deep_view().len());
            if pages.len() == 0 {
                return Err(DocumentError::NoExtractableText);
            }
            Ok(pages)
        },
        Err(error) => Err(DocumentError::PdfLoad(error)),
    }
}

/// Loads a PDF and reads its pages.
pub fn open_pdf(bytes: &[u8]) -> (r: Result<Vec<PdfPage>, DocumentError>)
    ensures
        exists|outcome: Result<Document, Seq<char>>|
            #[trigger] loading(bytes@, Some(MAX_PDF_STREAM_SIZE), outcome) && match (r, opened(outcome)) {
                (Ok(a), Ok(b)) => a.deep_view() == b,
                (Err(a), Err(b)) => a.deep_view() == b,
                _ => false,
            },
        r matches Ok(pages) ==> pages@.len() <= u32::MAX ==> numbered_from_one(pages.deep_view()),
{
    let loaded = load_pdf(bytes, Some(MAX_PDF_STREAM_SIZE));
    let ghost outcome = outcome_view(loaded);
    let r = read_loaded(loaded);
    assert(loading(bytes@, Some(MAX_PDF_STREAM_SIZE), outcome));
    r
}

/// Why the extraction of a page is in doubt.
pub open spec fn extraction_warning(
    text_error: Option<Seq<char>>,
    steps_error: Option<Seq<char>>,
) -> Option<Seq<char>> {
    match (text_error, steps_error) {
        (Some(a), Some(b)) => Some(
            "Plain text extraction failed: "@ + a + " | "@ + "Positioned text extraction failed: "@
                + b,
        ),
        (Some(a), None) => Some("Plain text extraction failed: "@ + a),
        (None, Some(b)) => Some("Positioned text extraction failed: "@ + b),
        (None, None) => None,
    }
}

fn find_extraction_warning(text_error: &Option<String>, steps_error: &Option<String>) -> (r: Option<
    String,
>)
    ensures
        r.deep_view() == extraction_warning(text_error.deep_view(), steps_error.deep_view()),
{
    match (text_error, steps_error) {
        (Some(a), Some(b)) => Some(
            "Plain text extraction failed: ".to_owned().concat(a.as_str()).concat(" | ").concat(
                "Positioned text extraction failed: ",
            ).concat(b.as_str()),
        ),
        (Some(a), None) => Some("Plain text extraction failed: ".to_owned().concat(a.as_str())),
        (None, Some(b)) => Some(
            "Positioned text extraction failed: ".to_owned().concat(b.as_str()),
        ),
        (None, None) => None,
    }
}

/// A reason with another behind it.
pub open spec fn reason_with(reason: Option<Seq<char>>, warning: Option<Seq<char>>) -> Option<
    Seq<char>,
> {
    match (reason, warning) {
        (Some(a), Some(b)) => Some(a + " "@ + b),
        (None, Some(b)) => Some(b),
        (a, None) => a,
    }
}

/// The layout of a page that was read without the adapter.
pub open spec fn fallback_layout(
    layout: PageLayoutDiagnosticsView,
    page: PdfPageView,
    text: Seq<char>,
    masked: usize,
    adapter_error: Seq<char>,
) -> PageLayoutDiagnosticsView {
    let needs_ocr = blank(text) && page.image_count > 0;
    PageLayoutDiagnosticsView {
        masked_redaction_fragments: masked,
        extraction_engine: "lopdf_fallback"@,
        warnings: layout.warnings.push(adapter_error).push(
            "Fallback geometry is estimated and may omit nested Form XObjects, rotated text, or image-only content. Review required."@,
        ),
        reconstruction_confidence: smaller(layout.reconstruction_confidence, MEASURE_0_65),
        requires_ocr: layout.requires_ocr || needs_ocr,
        fallback_reason: if needs_ocr {
            Some(
                "Page contains images but no reliable native text. Install the local OCR dependencies or supply a reviewed text transcription."@,
            )
        } else {
            reason_with(
                layout.fallback_reason,
                extraction_warning(page.text_error, page.steps_error),
            )
        },
        ..layout
    }
}

/// A page that was read without the adapter, with the rows and the text that were made of it
/// and the number of fragments that were masked in it.
pub open spec fn fallback_page(
    page: PdfPageView,
    rows: Seq<VisualRowView>,
    text: Seq<char>,
    layout: PageLayoutDiagnosticsView,
    masked: usize,
    adapter_error: Seq<char>,
) -> ExtractedPageView {
    ExtractedPageView {
        physical_page: page.physical_page,
        text,
        raw_text: if masked > 0 {
            "[RAW TEXT WITHHELD: visual redaction masks present]"@
        } else {
            page.fallback_text
        },
        section: PageSection::Unknown,
        section_confidence: 0,
        section_reasons: seq![],
        visual_rows: rows,
        layout: fallback_layout(layout, page, text, masked, adapter_error),
        annotations: page.annotations,
        filled_rectangles: page.filled_rectangles,
        image_count: page.image_count,
    }
}

/// Puts together a page that was read without the adapter.
pub fn assemble_page(
    page: PdfPage,
    rows: Vec<VisualRow>,
    text: String,
    layout: PageLayoutDiagnostics,
    masked: usize,
    adapter_error: &str,
) -> (r: ExtractedPage)
    ensures
        r.deep_view() == fallback_page(
            page.deep_view(),
            rows.deep_view(),
            text@,
            layout.deep_view(),
            masked,
            adapter_error@,
        ),
{
    let warning = find_extraction_warning(&page.text_error, &page.steps_error);
    let needs_ocr = is_blank(text.as_str()) && page.image_count > 0;
    let mut layout = layout;
    let ghost before = layout.deep_view();
    push_item(&mut layout.warnings, adapter_error.to_owned());
    push_item(
        &mut layout.warnings,
        "Fallback geometry is estimated and may omit nested Form XObjects, rotated text, or image-only content. Review required.".to_owned(),
    );
    layout.masked_redaction_fragments = masked;
    layout.extraction_engine = "lopdf_fallback".to_owned();
    layout.reconstruction_confidence = least(layout.reconstruction_confidence, MEASURE_0_65);
    let reason = match (&layout.fallback_reason, &warning) {
        (Some(a), Some(b)) => Some(a.clone().concat(" ").concat(b.as_str())),
        (None, Some(b)) => Some(b.clone()),
        (Some(a), None) => Some(a.clone()),
        (None, None) => None,
    };
    layout.fallback_reason = if needs_ocr {
        Some(
            "Page contains images but no reliable native text. Install the local OCR dependencies or supply a reviewed text transcription.".to_owned(),
        )
    } else {
        reason
    };
    if needs_ocr {
        layout.requires_ocr = true;
    }
    let raw_text = if masked > 0 {
        "[RAW TEXT WITHHELD: visual redaction masks present]".to_owned()
    } else {
        page.fallback_text
    };
    let r = ExtractedPage {
        physical_page: page.physical_page,
        text,
        raw_text,
        section: PageSection::Unknown,
        section_confidence: 0,
        section_reasons: Vec::new(),
        visual_rows: rows,
        layout,
        annotations: page.annotations,
        filled_rectangles: page.filled_rectangles,
        image_count: page.image_count,
    };
    assert(r.section_reasons.deep_view() =~= seq![]);
    r
}

/// Where anything on a page is masked, nothing of its plain text is kept beside what is made
/// of its rows: pages that differ in it alone come out the same.
pub proof fn law_masked_pages_withhold_raw_text(
    page: PdfPageView,
    other: Seq<char>,
    rows: Seq<VisualRowView>,
    text: Seq<char>,
    layout: PageLayoutDiagnosticsView,
    masked: usize,
    adapter_error: Seq<char>,
)
    requires
        masked > 0,
    ensures
        fallback_page(page, rows, text, layout, masked, adapter_error) == fallback_page(
            PdfPageView { fallback_text: other, ..page },
            rows,
            text,
            layout,
            masked,
            adapter_error,
        ),
{
}

/// A page that was read without the adapter says so, and always comes with warnings.
pub proof fn law_fallback_pages_are_flagged(
    page: PdfPageView,
    rows: Seq<VisualRowView>,
    text: Seq<char>,
    layout: PageLayoutDiagnosticsView,
    masked: usize,
    adapter_error: Seq<char>,
)
    ensures
        ({
            let made = fallback_page(page, rows, text, layout, masked, adapter_error);
            &&& made.layout.extraction_engine == "lopdf_fallback"@
            &&& made.layout.warnings.len() >= 2
            &&& made.layout.warnings.contains(adapter_error)
            &&& made.layout.reconstruction_confidence <= MEASURE_0_65
        }),
{
    let made = fallback_page(page, rows, text, layout, masked, adapter_error);
    assert(made.layout.warnings[layout.warnings.len() as int] == adapter_error);
}

// ---------------------------------------------------------------------------
// What is shown of a document
// ---------------------------------------------------------------------------

/// Entries of the metadata are shown without zeros and without white space around them; where
/// nothing is left, no entry is. What is shown stays as it is if it is shown again.
pub proof fn law_entries_are_cleaned(value: Option<Seq<char>>)
    ensures
        value is None ==> sanitized(value) is None,
        value matches Some(text) ==> ({
            let cleaned = trimmed(without_zeros(text, text.len() as int));
            &&& cleaned.len() == 0 ==> sanitized(value) is None
            &&& cleaned.len() > 0 ==> sanitized(value) == Some(cleaned)
        }),
        sanitized(value) matches Some(shown) ==> shown.len() > 0,
{
}

/// Each entry of the metadata is shown under its own name, and what is no text stays as it is.
pub proof fn law_metadata_are_shown(m: DocumentMetadataView)
    ensures
        ({
            let shown = shown_metadata(Some(m));
            &&& shown.title == sanitized(m.title)
            &&& shown.author == sanitized(m.author)
            &&& shown.subject == sanitized(m.subject)
            &&& shown.keywords == sanitized(m.keywords)
            &&& shown.creator == sanitized(m.creator)
            &&& shown.producer == sanitized(m.producer)
            &&& shown.creation_date == sanitized(m.creation_date)
            &&& shown.modification_date == sanitized(m.modification_date)
            &&& shown.pdf_version == sanitized(m.pdf_version)
            &&& shown.declared_page_count == m.declared_page_count
            &&& shown_metadata(None) == no_metadata()
        }),
{
}

/// A PDF disagrees with its page count where it declares one and that is another.
pub proof fn law_page_counts_disagree(m: DocumentMetadataView, pages: nat)
    ensures
        m.declared_page_count is None ==> !count_disagrees(m, pages),
        m.declared_page_count matches Some(declared) ==> (count_disagrees(m, pages) <==> declared
            != pages),
{
}

/// What cannot be loaded is reported so, what has no pages too, and otherwise every page of the
/// document is read once, numbered from one in its order.
pub proof fn law_documents_open(outcome: Result<Document, Seq<char>>)
    ensures
        outcome matches Err(error) ==> opened(outcome) == Err::<Seq<PdfPageView>, DocumentErrorView>(
            DocumentErrorView::PdfLoad(error),
        ),
        outcome matches Ok(document) ==> ({
            let list = pages_in(document);
            &&& list.len() == 0 ==> opened(outcome) == Err::<Seq<PdfPageView>, DocumentErrorView>(
                DocumentErrorView::NoExtractableText,
            )
            &&& list.len() > 0 ==> opened(outcome) is Ok && opened(outcome)->Ok_0.len()
                == list.len() && forall|i: int|
                0 <= i < list.len() ==> #[trigger] opened(outcome)->Ok_0[i] == pdf_page(
                    document,
                    (i + 1) as u32,
                    list[i],
                )
        }),
{
}

/// A page that cannot be read as plain text has none, and says why; so it is with its steps.
/// Neither stands in the way of the other.
pub proof fn law_pages_say_what_failed(document: Document, number: u32, page: (u32, u16))
    ensures
        ({
            let read = pdf_page(document, number, page);
            let text = text_on(text_source(document), number, MAX_PAGE_TEXT_SIZE);
            let steps = steps_on(document, page);
            &&& read.physical_page == number
            &&& text matches Ok(found) ==> read.text_error is None && read.fallback_text == joined(
                gathered_lines(found),
                "\n"@,
            )
            &&& text matches Err(error) ==> read.text_error == Some(error)
            &&& steps matches Ok(found) ==> read.steps == found && read.steps_error is None
            &&& steps matches Err(error) ==> read.steps.len() == 0 && read.steps_error == Some(
                error,
            )
            &&& images_on(document, page) is None ==> read.image_count == 0
            &&& images_on(document, page) matches Some(count) ==> read.image_count == count
        }),
{
}

/// The doubts of an extraction name each part that failed, and nothing where none did.
pub proof fn law_doubts_name_what_failed(a: Seq<char>, b: Seq<char>)
    ensures
        extraction_warning(None, None) is None,
        extraction_warning(Some(a), None) == Some("Plain text extraction failed: "@ + a),
        extraction_warning(None, Some(b)) == Some("Positioned text extraction failed: "@ + b),
        extraction_warning(Some(a), Some(b)) == Some(
            "Plain text extraction failed: "@ + a + " | "@ + "Positioned text extraction failed: "@
                + b,
        ),
        reason_with(Some(a), Some(b)) == Some(a + " "@ + b),
        reason_with(Some(a), None) == Some(a),
        reason_with(None, Some(b)) == Some(b),
        reason_with(None, None) is None,
{
}

/// A page without the adapter says so: its confidence is at most 0.65, it warns of the adapter's
/// error, asks for OCR where it is blank and has images, and keeps what else was found of it.
pub proof fn law_fallback_pages_are_in_doubt(
    page: PdfPageView,
    rows: Seq<VisualRowView>,
    text: Seq<char>,
    layout: PageLayoutDiagnosticsView,
    masked: usize,
    adapter_error: Seq<char>,
)
    ensures
        ({
            let out = fallback_page(page, rows, text, layout, masked, adapter_error);
            let needs_ocr = blank(text) && page.image_count > 0;
            &&& out.layout.reconstruction_confidence <= 0x3fe4_cccc_c000_0000
            &&& out.layout.reconstruction_confidence <= layout.reconstruction_confidence
            &&& out.layout.reconstruction_confidence == layout.reconstruction_confidence
                || out.layout.reconstruction_confidence == 0x3fe4_cccc_c000_0000
            &&& out.layout.warnings.len() == layout.warnings.len() + 2
            &&& out.layout.warnings[layout.warnings.len() as int] == adapter_error
            &&& out.layout.extraction_engine == "lopdf_fallback"@
            &&& out.layout.masked_redaction_fragments == masked
            &&& out.layout.requires_ocr <==> layout.requires_ocr || needs_ocr
            &&& !needs_ocr && page.text_error is None && page.steps_error is None
                ==> out.layout.fallback_reason == layout.fallback_reason
            &&& !needs_ocr && (page.text_error is Some || page.steps_error is Some)
                ==> out.layout.fallback_reason is Some
            &&& needs_ocr ==> out.layout.fallback_reason is Some
            &&& out.layout.visual_row_count == layout.visual_row_count
            &&& out.layout.used_positioned_reconstruction == layout.used_positioned_reconstruction
            &&& out.physical_page == page.physical_page
            &&& out.text == text && out.visual_rows == rows
            &&& masked == 0 ==> out.raw_text == page.fallback_text
            &&& out.annotations == page.annotations
            &&& out.filled_rectangles == page.filled_rectangles
            &&& out.image_count == page.image_count
            &&& out.section == PageSection::Unknown && out.section_confidence == 0
            &&& out.section_reasons.len() == 0
        }),
{
}

/// A text becomes a text document of its pages, a PDF a PDF document of its pages, and the pages
/// are classified in both.
pub proof fn law_documents_hold_their_pages(
    text: Seq<char>,
    metadata: DocumentMetadataView,
    pages: Seq<ExtractedPageView>,
)
    ensures
        text_document(text).kind == DocumentKind::Text,
        text_document(text).metadata == no_metadata(),
        text_document(text).pages == classified(pages_of_text(text)),
        pdf_document(metadata, pages).kind == DocumentKind::Pdf,
        pdf_document(metadata, pages).metadata == metadata,
        pdf_document(metadata, pages).pages == classified(pages),
{
}

} // verus!
