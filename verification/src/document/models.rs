//! Documents and pages, as extraction hands them to the transcript modules.
use vstd::prelude::*;

use crate::measure::{Measure, Ratio};
use crate::text::push_item;

verus! {

/// The format a document was uploaded in.
#[derive(Debug, Clone, Copy, PartialEq, Eq, Structural)]
pub enum DocumentKind {
    Text,
    Pdf,
}

/// Where the text of a row came from.
#[derive(Debug, Clone, Copy, PartialEq, Eq, Structural)]
pub enum TextSource {
    NativePdf,
    PlainText,
    Ocr,
    FallbackText,
}

/// The part that a page plays in its document.
#[derive(Debug, Clone, Copy, PartialEq, Eq, Structural)]
pub enum PageSection {
    Cover,
    Caption,
    Appearances,
    Transcript,
    WordIndex,
    ExhibitIndex,
    Certificate,
    Errata,
    Appendix,
    Attachment,
    Unknown,
}

/// Whether a section holds testimony.
pub open spec fn dialogue_section(section: PageSection) -> bool {
    section == PageSection::Transcript
}

/// Whether a section belongs to the transcript proper, front matter included.
pub open spec fn transcript_family_section(section: PageSection) -> bool {
    section == PageSection::Cover || section == PageSection::Caption || section
        == PageSection::Appearances || section == PageSection::Transcript
}

/// Whether a section is reference material that holds no testimony.
pub open spec fn reference_section(section: PageSection) -> bool {
    section == PageSection::WordIndex || section == PageSection::ExhibitIndex || section
        == PageSection::Certificate || section == PageSection::Errata || section
        == PageSection::Appendix || section == PageSection::Attachment
}

impl PageSection {
    pub fn is_dialogue(&self) -> (r: bool)
        ensures
            r == dialogue_section(*self),
    {
        *self == PageSection::Transcript
    }

    pub fn is_transcript_family(&self) -> (r: bool)
        ensures
            r == transcript_family_section(*self),
    {
        match *self {
            PageSection::Cover | PageSection::Caption | PageSection::Appearances
            | PageSection::Transcript => true,
            _ => false,
        }
    }

    pub fn is_reference_only(&self) -> (r: bool)
        ensures
            r == reference_section(*self),
    {
        match *self {
            PageSection::WordIndex | PageSection::ExhibitIndex | PageSection::Certificate
            | PageSection::Errata | PageSection::Appendix | PageSection::Attachment => true,
            _ => false,
        }
    }
}

/// Testimony belongs to the transcript, reference material never does, and whatever is
/// neither front matter, testimony nor reference material is unknown.
pub proof fn law_sections_partition(section: PageSection)
    ensures
        dialogue_section(section) ==> transcript_family_section(section),
        !(transcript_family_section(section) && reference_section(section)),
        !transcript_family_section(section) && !reference_section(section) <==> section
            == PageSection::Unknown,
{
}

/// What a PDF says of itself.
#[derive(Debug)]
pub struct DocumentMetadata {
    pub title: Option<String>,
    pub author: Option<String>,
    pub subject: Option<String>,
    pub keywords: Option<String>,
    pub creator: Option<String>,
    pub producer: Option<String>,
    pub creation_date: Option<String>,
    pub modification_date: Option<String>,
    pub pdf_version: Option<String>,
    pub encrypted: bool,
    pub declared_page_count: Option<u32>,
}

/// The contents of a [`DocumentMetadata`].
#[verifier::ext_equal]
pub struct DocumentMetadataView {
    pub title: Option<Seq<char>>,
    pub author: Option<Seq<char>>,
    pub subject: Option<Seq<char>>,
    pub keywords: Option<Seq<char>>,
    pub creator: Option<Seq<char>>,
    pub producer: Option<Seq<char>>,
    pub creation_date: Option<Seq<char>>,
    pub modification_date: Option<Seq<char>>,
    pub pdf_version: Option<Seq<char>>,
    pub encrypted: bool,
    pub declared_page_count: Option<u32>,
}

impl DeepView for DocumentMetadata {
    type V = DocumentMetadataView;

    open spec fn deep_view(&self) -> DocumentMetadataView {
        DocumentMetadataView {
            title: self.title.deep_view(),
            author: self.author.deep_view(),
            subject: self.subject.deep_view(),
            keywords: self.keywords.deep_view(),
            creator: self.creator.deep_view(),
            producer: self.producer.deep_view(),
            creation_date: self.creation_date.deep_view(),
            modification_date: self.modification_date.deep_view(),
            pdf_version: self.pdf_version.deep_view(),
            encrypted: self.encrypted,
            declared_page_count: self.declared_page_count,
        }
    }
}

impl Clone for DocumentMetadata {
    fn clone(&self) -> (r: Self)
        ensures
            r.deep_view() == self.deep_view(),
    {
        DocumentMetadata {
            title: self.title.clone(),
            author: self.author.clone(),
            subject: self.subject.clone(),
            keywords: self.keywords.clone(),
            creator: self.creator.clone(),
            producer: self.producer.clone(),
            creation_date: self.creation_date.clone(),
            modification_date: self.modification_date.clone(),
            pdf_version: self.pdf_version.clone(),
            encrypted: self.encrypted,
            declared_page_count: self.declared_page_count,
        }
    }
}

/// The metadata of a document that has none.
pub open spec fn no_metadata() -> DocumentMetadataView {
    DocumentMetadataView {
        title: None,
        author: None,
        subject: None,
        keywords: None,
        creator: None,
        producer: None,
        creation_date: None,
        modification_date: None,
        pdf_version: None,
        encrypted: false,
        declared_page_count: None,
    }
}

impl Default for DocumentMetadata {
    fn default() -> (r: Self)
        ensures
            r.deep_view() == no_metadata(),
    {
        DocumentMetadata {
            title: None,
            author: None,
            subject: None,
            keywords: None,
            creator: None,
            producer: None,
            creation_date: None,
            modification_date: None,
            pdf_version: None,
            encrypted: false,
            declared_page_count: None,
        }
    }
}

/// An annotation on a PDF page.
#[derive(Debug)]
pub struct AnnotationSignal {
    pub physical_page: u32,
    pub subtype: String,
    /// Two opposite corners.
    pub rect: Option<[Measure; 4]>,
    pub color_components: Vec<Measure>,
    pub is_explicit_redaction: bool,
    pub is_dark_overlay_candidate: bool,
}

/// The contents of a [`AnnotationSignal`].
#[verifier::ext_equal]
pub struct AnnotationSignalView {
    pub physical_page: u32,
    pub subtype: Seq<char>,
    pub rect: Option<[Measure; 4]>,
    pub color_components: Seq<Measure>,
    pub is_explicit_redaction: bool,
    pub is_dark_overlay_candidate: bool,
}

impl DeepView for AnnotationSignal {
    type V = AnnotationSignalView;

    open spec fn deep_view(&self) -> AnnotationSignalView {
        AnnotationSignalView {
            physical_page: self.physical_page,
            subtype: self.subtype@,
            rect: self.rect,
            color_components: self.color_components.deep_view(),
            is_explicit_redaction: self.is_explicit_redaction,
            is_dark_overlay_candidate: self.is_dark_overlay_candidate,
        }
    }
}

impl Clone for AnnotationSignal {
    fn clone(&self) -> (r: Self)
        ensures
            r.deep_view() == self.deep_view(),
    {
        let r = AnnotationSignal {
            physical_page: self.physical_page,
            subtype: self.subtype.clone(),
            rect: self.rect,
            color_components: self.color_components.clone(),
            is_explicit_redaction: self.is_explicit_redaction,
            is_dark_overlay_candidate: self.is_dark_overlay_candidate,
        };
        assert(r.color_components.deep_view() =~= self.color_components.deep_view());
        r
    }
}

/// A filled rectangle drawn on a PDF page.
#[derive(Debug)]
pub struct FilledRectangleSignal {
    pub physical_page: u32,
    /// Corner, width and height.
    pub rect: [Measure; 4],
    pub color_space: String,
    pub color_components: Vec<Measure>,
    pub is_dark: bool,
    pub possible_redaction: bool,
}

/// The contents of a [`FilledRectangleSignal`].
#[verifier::ext_equal]
pub struct FilledRectangleSignalView {
    pub physical_page: u32,
    pub rect: [Measure; 4],
    pub color_space: Seq<char>,
    pub color_components: Seq<Measure>,
    pub is_dark: bool,
    pub possible_redaction: bool,
}

impl DeepView for FilledRectangleSignal {
    type V = FilledRectangleSignalView;

    open spec fn deep_view(&self) -> FilledRectangleSignalView {
        FilledRectangleSignalView {
            physical_page: self.physical_page,
            rect: self.rect,
            color_space: self.color_space@,
            color_components: self.color_components.deep_view(),
            is_dark: self.is_dark,
            possible_redaction: self.possible_redaction,
        }
    }
}

impl Clone for FilledRectangleSignal {
    fn clone(&self) -> (r: Self)
        ensures
            r.deep_view() == self.deep_view(),
    {
        let r = FilledRectangleSignal {
            physical_page: self.physical_page,
            rect: self.rect,
            color_space: self.color_space.clone(),
            color_components: self.color_components.clone(),
            is_dark: self.is_dark,
            possible_redaction: self.possible_redaction,
        };
        assert(r.color_components.deep_view() =~= self.color_components.deep_view());
        r
    }
}

/// A piece of text at a position of its page.
#[derive(Debug)]
pub struct PositionedTextFragment {
    pub text: String,
    pub x: Measure,
    pub y: Measure,
    pub width: Measure,
    pub height: Measure,
    pub font_name: Option<String>,
    pub font_size: Option<Measure>,
    pub source: TextSource,
    pub sequence: usize,
    pub geometry_estimated: bool,
    /// Whether the visible layer of the page covers this fragment with a redaction.
    pub redaction_masked: bool,
}

/// The contents of a [`PositionedTextFragment`].
#[verifier::ext_equal]
pub struct PositionedTextFragmentView {
    pub text: Seq<char>,
    pub x: Measure,
    pub y: Measure,
    pub width: Measure,
    pub height: Measure,
    pub font_name: Option<Seq<char>>,
    pub font_size: Option<Measure>,
    pub source: TextSource,
    pub sequence: usize,
    pub geometry_estimated: bool,
    pub redaction_masked: bool,
}

impl DeepView for PositionedTextFragment {
    type V = PositionedTextFragmentView;

    open spec fn deep_view(&self) -> PositionedTextFragmentView {
        PositionedTextFragmentView {
            text: self.text@,
            x: self.x,
            y: self.y,
            width: self.width,
            height: self.height,
            font_name: self.font_name.deep_view(),
            font_size: self.font_size,
            source: self.source,
            sequence: self.sequence,
            geometry_estimated: self.geometry_estimated,
            redaction_masked: self.redaction_masked,
        }
    }
}

impl Clone for PositionedTextFragment {
    fn clone(&self) -> (r: Self)
        ensures
            r.deep_view() == self.deep_view(),
    {
        PositionedTextFragment {
            text: self.text.clone(),
            x: self.x,
            y: self.y,
            width: self.width,
            height: self.height,
            font_name: self.font_name.clone(),
            font_size: self.font_size,
            source: self.source,
            sequence: self.sequence,
            geometry_estimated: self.geometry_estimated,
            redaction_masked: self.redaction_masked,
        }
    }
}

/// A row of text as the page shows it.
#[derive(Debug)]
pub struct VisualRow {
    pub panel: u16,
    pub printed_page: Option<String>,
    /// Left, top, right and bottom.
    pub bbox: Option<[Measure; 4]>,
    pub ocr_confidence: Option<Measure>,
    pub y: Measure,
    pub left_x: Option<Measure>,
    pub line_number_x: Option<Measure>,
    pub line_number: Option<u16>,
    pub text: String,
    pub fragments: Vec<PositionedTextFragment>,
    /// Whether the second fragment stands clear of the first by more than 0.65 of its type size.
    pub marker_stands_clear: bool,
}

/// The contents of a [`VisualRow`].
#[verifier::ext_equal]
pub struct VisualRowView {
    pub panel: u16,
    pub printed_page: Option<Seq<char>>,
    pub bbox: Option<[Measure; 4]>,
    pub ocr_confidence: Option<Measure>,
    pub y: Measure,
    pub left_x: Option<Measure>,
    pub line_number_x: Option<Measure>,
    pub line_number: Option<u16>,
    pub text: Seq<char>,
    pub fragments: Seq<PositionedTextFragmentView>,
    pub marker_stands_clear: bool,
}

impl DeepView for VisualRow {
    type V = VisualRowView;

    open spec fn deep_view(&self) -> VisualRowView {
        VisualRowView {
            panel: self.panel,
            printed_page: self.printed_page.deep_view(),
            bbox: self.bbox,
            ocr_confidence: self.ocr_confidence,
            y: self.y,
            left_x: self.left_x,
            line_number_x: self.line_number_x,
            line_number: self.line_number,
            text: self.text@,
            fragments: self.fragments.deep_view(),
            marker_stands_clear: self.marker_stands_clear,
        }
    }
}

impl Clone for VisualRow {
    fn clone(&self) -> (r: Self)
        ensures
            r.deep_view() == self.deep_view(),
    {
        let r = VisualRow {
            panel: self.panel,
            printed_page: self.printed_page.clone(),
            bbox: self.bbox,
            ocr_confidence: self.ocr_confidence,
            y: self.y,
            left_x: self.left_x,
            line_number_x: self.line_number_x,
            line_number: self.line_number,
            text: self.text.clone(),
            fragments: self.fragments.clone(),
            marker_stands_clear: self.marker_stands_clear,
        };
        assert(r.fragments.deep_view() =~= self.fragments.deep_view());
        r
    }
}

/// How the text of a page was recovered.
#[derive(Debug)]
pub struct PageLayoutDiagnostics {
    pub extraction_engine: String,
    pub warnings: Vec<String>,
    pub ocr_performed: bool,
    pub ocr_mean_confidence: Option<Measure>,
    pub column_count: usize,
    pub reading_order_uncertain: bool,
    pub positioned_text_available: bool,
    pub used_positioned_reconstruction: bool,
    pub fragment_count: usize,
    pub visual_row_count: usize,
    pub numbered_row_count: usize,
    pub masked_redaction_fragments: usize,
    pub likely_line_number_column_x: Option<Measure>,
    pub reconstruction_confidence: Measure,
    pub fallback_reason: Option<String>,
    pub requires_ocr: bool,
}

/// The contents of a [`PageLayoutDiagnostics`].
#[verifier::ext_equal]
pub struct PageLayoutDiagnosticsView {
    pub extraction_engine: Seq<char>,
    pub warnings: Seq<Seq<char>>,
    pub ocr_performed: bool,
    pub ocr_mean_confidence: Option<Measure>,
    pub column_count: usize,
    pub reading_order_uncertain: bool,
    pub positioned_text_available: bool,
    pub used_positioned_reconstruction: bool,
    pub fragment_count: usize,
    pub visual_row_count: usize,
    pub numbered_row_count: usize,
    pub masked_redaction_fragments: usize,
    pub likely_line_number_column_x: Option<Measure>,
    pub reconstruction_confidence: Measure,
    pub fallback_reason: Option<Seq<char>>,
    pub requires_ocr: bool,
}

impl DeepView for PageLayoutDiagnostics {
    type V = PageLayoutDiagnosticsView;

    open spec fn deep_view(&self) -> PageLayoutDiagnosticsView {
        PageLayoutDiagnosticsView {
            extraction_engine: self.extraction_engine@,
            warnings: self.warnings.deep_view(),
            ocr_performed: self.ocr_performed,
            ocr_mean_confidence: self.ocr_mean_confidence,
            column_count: self.column_count,
            reading_order_uncertain: self.reading_order_uncertain,
            positioned_text_available: self.positioned_text_available,
            used_positioned_reconstruction: self.used_positioned_reconstruction,
            fragment_count: self.fragment_count,
            visual_row_count: self.visual_row_count,
            numbered_row_count: self.numbered_row_count,
            masked_redaction_fragments: self.masked_redaction_fragments,
            likely_line_number_column_x: self.likely_line_number_column_x,
            reconstruction_confidence: self.reconstruction_confidence,
            fallback_reason: self.fallback_reason.deep_view(),
            requires_ocr: self.requires_ocr,
        }
    }
}

impl Clone for PageLayoutDiagnostics {
    fn clone(&self) -> (r: Self)
        ensures
            r.deep_view() == self.deep_view(),
    {
        let r = PageLayoutDiagnostics {
            extraction_engine: self.extraction_engine.clone(),
            warnings: self.warnings.clone(),
            ocr_performed: self.ocr_performed,
            ocr_mean_confidence: self.ocr_mean_confidence,
            column_count: self.column_count,
            reading_order_uncertain: self.reading_order_uncertain,
            positioned_text_available: self.positioned_text_available,
            used_positioned_reconstruction: self.used_positioned_reconstruction,
            fragment_count: self.fragment_count,
            visual_row_count: self.visual_row_count,
            numbered_row_count: self.numbered_row_count,
            masked_redaction_fragments: self.masked_redaction_fragments,
            likely_line_number_column_x: self.likely_line_number_column_x,
            reconstruction_confidence: self.reconstruction_confidence,
            fallback_reason: self.fallback_reason.clone(),
            requires_ocr: self.requires_ocr,
        };
        assert(r.warnings.deep_view() =~= self.warnings.deep_view());
        r
    }
}

/// The layout of a page of which nothing is known.
pub open spec fn no_layout() -> PageLayoutDiagnosticsView {
    PageLayoutDiagnosticsView {
        extraction_engine: seq![],
        warnings: seq![],
        ocr_performed: false,
        ocr_mean_confidence: None,
        column_count: 0,
        reading_order_uncertain: false,
        positioned_text_available: false,
        used_positioned_reconstruction: false,
        fragment_count: 0,
        visual_row_count: 0,
        numbered_row_count: 0,
        masked_redaction_fragments: 0,
        likely_line_number_column_x: None,
        reconstruction_confidence: 0,
        fallback_reason: None,
        requires_ocr: false,
    }
}

impl Default for PageLayoutDiagnostics {
    fn default() -> (r: Self)
        ensures
            r.deep_view() == no_layout(),
    {
        let r = PageLayoutDiagnostics {
            extraction_engine: String::new(),
            warnings: Vec::new(),
            ocr_performed: false,
            ocr_mean_confidence: None,
            column_count: 0,
            reading_order_uncertain: false,
            positioned_text_available: false,
            used_positioned_reconstruction: false,
            fragment_count: 0,
            visual_row_count: 0,
            numbered_row_count: 0,
            masked_redaction_fragments: 0,
            likely_line_number_column_x: None,
            reconstruction_confidence: 0,
            fallback_reason: None,
            requires_ocr: false,
        };
        assert(r.deep_view() =~= no_layout());
        r
    }
}

/// Why a page was taken for its section.
#[derive(Debug)]
pub enum SectionReason {
    Plain(String),
    /// A reason in which a score stands, printed with two decimals.
    Scored { lead: String, score: Ratio, tail: String },
}

/// The contents of a [`SectionReason`].
#[verifier::ext_equal]
pub enum SectionReasonView {
    Plain(Seq<char>),
    Scored { lead: Seq<char>, score: Ratio, tail: Seq<char> },
}

impl DeepView for SectionReason {
    type V = SectionReasonView;

    open spec fn deep_view(&self) -> SectionReasonView {
        match self {
            SectionReason::Plain(text) => SectionReasonView::Plain(text@),
            SectionReason::Scored { lead, score, tail } => SectionReasonView::Scored {
                lead: lead@,
                score: *score,
                tail: tail@,
            },
        }
    }
}

impl Clone for SectionReason {
    fn clone(&self) -> (r: Self)
        ensures
            r.deep_view() == self.deep_view(),
    {
        match self {
            SectionReason::Plain(text) => SectionReason::Plain(text.clone()),
            SectionReason::Scored { lead, score, tail } => SectionReason::Scored {
                lead: lead.clone(),
                score: *score,
                tail: tail.clone(),
            },
        }
    }
}

/// A page with everything that was recovered from it.
#[derive(Debug)]
pub struct ExtractedPage {
    pub physical_page: u32,
    /// The text that preflight and parser read.
    pub text: String,
    /// The plain extraction, kept for comparison.
    pub raw_text: String,
    pub section: PageSection,
    /// In hundredths.
    pub section_confidence: u8,
    pub section_reasons: Vec<SectionReason>,
    pub visual_rows: Vec<VisualRow>,
    pub layout: PageLayoutDiagnostics,
    pub annotations: Vec<AnnotationSignal>,
    pub filled_rectangles: Vec<FilledRectangleSignal>,
    pub image_count: usize,
}

/// The contents of a [`ExtractedPage`].
#[verifier::ext_equal]
pub struct ExtractedPageView {
    pub physical_page: u32,
    pub text: Seq<char>,
    pub raw_text: Seq<char>,
    pub section: PageSection,
    pub section_confidence: u8,
    pub section_reasons: Seq<SectionReasonView>,
    pub visual_rows: Seq<VisualRowView>,
    pub layout: PageLayoutDiagnosticsView,
    pub annotations: Seq<AnnotationSignalView>,
    pub filled_rectangles: Seq<FilledRectangleSignalView>,
    pub image_count: usize,
}

impl DeepView for ExtractedPage {
    type V = ExtractedPageView;

    open spec fn deep_view(&self) -> ExtractedPageView {
        ExtractedPageView {
            physical_page: self.physical_page,
            text: self.text@,
            raw_text: self.raw_text@,
            section: self.section,
            section_confidence: self.section_confidence,
            section_reasons: self.section_reasons.deep_view(),
            visual_rows: self.visual_rows.deep_view(),
            layout: self.layout.deep_view(),
            annotations: self.annotations.deep_view(),
            filled_rectangles: self.filled_rectangles.deep_view(),
            image_count: self.image_count,
        }
    }
}

impl Clone for ExtractedPage {
    fn clone(&self) -> (r: Self)
        ensures
            r.deep_view() == self.deep_view(),
    {
        let r = ExtractedPage {
            physical_page: self.physical_page,
            text: self.text.clone(),
            raw_text: self.raw_text.clone(),
            section: self.section,
            section_confidence: self.section_confidence,
            section_reasons: self.section_reasons.clone(),
            visual_rows: self.visual_rows.clone(),
            layout: self.layout.clone(),
            annotations: self.annotations.clone(),
            filled_rectangles: self.filled_rectangles.clone(),
            image_count: self.image_count,
        };
        assert(r.section_reasons.deep_view() =~= self.section_reasons.deep_view());
        assert(r.visual_rows.deep_view() =~= self.visual_rows.deep_view());
        assert(r.annotations.deep_view() =~= self.annotations.deep_view());
        assert(r.filled_rectangles.deep_view() =~= self.filled_rectangles.deep_view());
        r
    }
}

impl ExtractedPage {
    pub fn should_feed_dialogue_parser(&self) -> (r: bool)
        ensures
            r == dialogue_section(self.section),
    {
        self.section.is_dialogue()
    }
}

/// A document as a list of pages.
#[derive(Debug)]
pub struct ExtractedDocument {
    pub kind: DocumentKind,
    pub metadata: DocumentMetadata,
    pub pages: Vec<ExtractedPage>,
}

/// The contents of a [`ExtractedDocument`].
#[verifier::ext_equal]
pub struct ExtractedDocumentView {
    pub kind: DocumentKind,
    pub metadata: DocumentMetadataView,
    pub pages: Seq<ExtractedPageView>,
}

impl DeepView for ExtractedDocument {
    type V = ExtractedDocumentView;

    open spec fn deep_view(&self) -> ExtractedDocumentView {
        ExtractedDocumentView {
            kind: self.kind,
            metadata: self.metadata.deep_view(),
            pages: self.pages.deep_view(),
        }
    }
}

impl Clone for ExtractedDocument {
    fn clone(&self) -> (r: Self)
        ensures
            r.deep_view() == self.deep_view(),
    {
        let r = ExtractedDocument {
            kind: self.kind,
            metadata: self.metadata.clone(),
            pages: self.pages.clone(),
        };
        assert(r.pages.deep_view() =~= self.pages.deep_view());
        r
    }
}

/// The dialogue pages among the first `n`.
pub open spec fn dialogue_pages(pages: Seq<ExtractedPageView>, n: int) -> Seq<ExtractedPageView>
    decreases n,
{
    if n <= 0 {
        seq![]
    } else if dialogue_section(pages[n - 1].section) {
        dialogue_pages(pages, n - 1).push(pages[n - 1])
    } else {
        dialogue_pages(pages, n - 1)
    }
}

impl ExtractedDocument {
    pub fn source_page_count(&self) -> (n: usize)
        ensures
            n == self.deep_view().pages.len(),
    {
        self.pages.len()
    }

    pub fn has_positioned_text(&self) -> (r: bool)
        ensures
            r == exists|i: int|
                0 <= i < self.pages@.len() && (
                #[trigger] self.pages@[i]).layout.positioned_text_available,
    {
        for i in 0..self.pages.len()
            invariant
                forall|j: int|
                    0 <= j < i ==> !(#[trigger] self.pages@[j]).layout.positioned_text_available,
        {
            if self.pages[i].layout.positioned_text_available {
                return true;
            }
        }
        false
    }

    pub fn requires_ocr(&self) -> (r: bool)
        ensures
            r == exists|i: int|
                0 <= i < self.pages@.len() && (#[trigger] self.pages@[i]).layout.requires_ocr,
    {
        for i in 0..self.pages.len()
            invariant
                forall|j: int| 0 <= j < i ==> !(#[trigger] self.pages@[j]).layout.requires_ocr,
        {
            if self.pages[i].layout.requires_ocr {
                return true;
            }
        }
        false
    }

    /// The pages that hold testimony, in order.
    pub fn transcript_pages(&self) -> (r: Vec<&ExtractedPage>)
        ensures
            r.deep_view() == dialogue_pages(
                self.deep_view().pages,
                self.deep_view().pages.len() as int,
            ),
    {
        let mut r: Vec<&ExtractedPage> = Vec::new();
        for i in 0..self.pages.len()
            invariant
                r.deep_view() == dialogue_pages(self.deep_view().pages, i as int),
        {
            if self.pages[i].section.is_dialogue() {
                push_item(&mut r, &self.pages[i]);
            }
        }
        r
    }
}

/// Dialogue stands on transcript pages alone; the transcript proper has its front matter besides.
pub proof fn law_sections_are_of_kinds(pages: Seq<ExtractedPageView>, section: PageSection, n: int)
    ensures
        dialogue_section(section) <==> section == PageSection::Transcript,
        transcript_family_section(section) <==> section == PageSection::Transcript || section
            == PageSection::Cover || section == PageSection::Caption || section
            == PageSection::Appearances,
        reference_section(section) <==> section == PageSection::WordIndex || section
            == PageSection::ExhibitIndex || section == PageSection::Certificate || section
            == PageSection::Errata || section == PageSection::Appendix || section
            == PageSection::Attachment,
        dialogue_pages(pages, 0).len() == 0,
        0 <= n < pages.len() && pages[n].section == PageSection::Transcript ==> dialogue_pages(
            pages,
            n + 1,
        ) == dialogue_pages(pages, n).push(pages[n]),
        0 <= n < pages.len() && pages[n].section != PageSection::Transcript ==> dialogue_pages(
            pages,
            n + 1,
        ) == dialogue_pages(pages, n),
{
}

} // verus!
