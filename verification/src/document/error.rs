//! Why a document cannot be extracted.
use vstd::prelude::*;

use crate::number::{decimal, decimal_string};

verus! {

#[derive(Debug)]
pub enum DocumentError {
    UnsupportedFileType,
    InvalidUtf8,
    InvalidPdfHeader,
    PdfLoad(String),
    PdfTextExtraction { page: u32, message: String },
    NoExtractableText,
}

/// The contents of a [`DocumentError`].
#[verifier::ext_equal]
pub enum DocumentErrorView {
    UnsupportedFileType,
    InvalidUtf8,
    InvalidPdfHeader,
    PdfLoad(Seq<char>),
    PdfTextExtraction { page: u32, message: Seq<char> },
    NoExtractableText,
}

impl DeepView for DocumentError {
    type V = DocumentErrorView;

    open spec fn deep_view(&self) -> DocumentErrorView {
        match self {
            DocumentError::UnsupportedFileType => DocumentErrorView::UnsupportedFileType,
            DocumentError::InvalidUtf8 => DocumentErrorView::InvalidUtf8,
            DocumentError::InvalidPdfHeader => DocumentErrorView::InvalidPdfHeader,
            DocumentError::PdfLoad(message) => DocumentErrorView::PdfLoad(message@),
            DocumentError::PdfTextExtraction { page, message } => {
                DocumentErrorView::PdfTextExtraction { page: *page, message: message@ }
            },
            DocumentError::NoExtractableText => DocumentErrorView::NoExtractableText,
        }
    }
}

/// What is told of an error.
pub open spec fn error_message(error: DocumentErrorView) -> Seq<char> {
    match error {
        DocumentErrorView::UnsupportedFileType => {
            "Unsupported file type. Please upload a .txt or .pdf transcript."@
        },
        DocumentErrorView::InvalidUtf8 => "The TXT file is not valid UTF-8 text."@,
        DocumentErrorView::InvalidPdfHeader => {
            "The uploaded file has a .pdf extension but does not appear to be a valid PDF."@
        },
        DocumentErrorView::PdfLoad(message) => "Could not load PDF: "@ + message,
        DocumentErrorView::PdfTextExtraction { page, message } => {
            "Could not extract text from PDF page "@ + decimal(page as nat) + ": "@ + message
        },
        DocumentErrorView::NoExtractableText => {
            "The PDF contains no extractable text. It may be a scanned/image-only transcript and will require OCR."@
        },
    }
}

impl DocumentError {
    pub fn message(&self) -> (r: String)
        ensures
            r@ == error_message(self.deep_view()),
    {
        match self {
            DocumentError::UnsupportedFileType => {
                "Unsupported file type. Please upload a .txt or .pdf transcript.".to_owned()
            },
            DocumentError::InvalidUtf8 => "The TXT file is not valid UTF-8 text.".to_owned(),
            DocumentError::InvalidPdfHeader => {
                "The uploaded file has a .pdf extension but does not appear to be a valid PDF.".to_owned()
            },
            DocumentError::PdfLoad(message) => "Could not load PDF: ".to_owned().concat(
                message.as_str(),
            ),
            DocumentError::PdfTextExtraction { page, message } => {
                "Could not extract text from PDF page ".to_owned().concat(
                    decimal_string(*page as u64).as_str(),
                ).concat(": ").concat(message.as_str())
            },
            DocumentError::NoExtractableText => {
                "The PDF contains no extractable text. It may be a scanned/image-only transcript and will require OCR.".to_owned()
            },
        }
    }
}

/// Each error says what failed, and those that carry a message, a page or both say these too.
pub proof fn law_errors_say_what_failed(page: u32, message: Seq<char>)
    ensures
        error_message(DocumentErrorView::UnsupportedFileType)
            == "Unsupported file type. Please upload a .txt or .pdf transcript."@,
        error_message(DocumentErrorView::InvalidUtf8) == "The TXT file is not valid UTF-8 text."@,
        error_message(DocumentErrorView::PdfLoad(message)) == "Could not load PDF: "@ + message,
        error_message(DocumentErrorView::PdfTextExtraction { page, message })
            == "Could not extract text from PDF page "@ + decimal(page as nat) + ": "@ + message,
{
}

} // verus!
