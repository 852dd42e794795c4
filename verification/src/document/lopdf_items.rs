//! What is taken from `lopdf`: the types that hold a PDF, and the calls that read it.
//!
//! A loaded document is a collection of numbered objects. What a call reads from it depends
//! on nothing but that collection and the arguments of the call.
use lopdf::content::{Content, Operation};
use lopdf::xref::XrefEntry;
use lopdf::{Dictionary, Document, Encoding, LoadOptions, Object};
use vstd::prelude::*;
use vstd::utf8::{decode_utf8, valid_utf8};

use crate::document::models::{DocumentMetadata, DocumentMetadataView};
use crate::document::page_tree::{counts_add_up, page_counts_fit, plain_tree};

verus! {

// ---------------------------------------------------------------------------
// Types
// ---------------------------------------------------------------------------

/// A loaded PDF.
#[verifier::external_type_specification]
#[verifier::external_body]
pub struct ExDocument(lopdf::Document);

/// A PDF dictionary: values by their keys.
#[verifier::external_type_specification]
#[verifier::external_body]
pub struct ExDictionary(lopdf::Dictionary);

/// A PDF object.
#[verifier::external_type_specification]
#[verifier::external_body]
pub struct ExObject(lopdf::Object);

/// One operation of a content stream.
#[verifier::external_type_specification]
#[verifier::external_body]
pub struct ExOperation(lopdf::content::Operation);

/// How the strings of a font are encoded.
#[verifier::external_type_specification]
#[verifier::external_body]
pub struct ExEncoding<'a>(lopdf::Encoding<'a>);

/// A PDF object as far as text, drawing and the page tree speak of it. A real number is given
/// by its bits in single precision, a reference by the number and the generation of an object.
#[derive(Debug)]
pub enum PdfObject {
    Integer(i64),
    Real(u32),
    Name(Vec<u8>),
    Text(Vec<u8>),
    Array(Vec<PdfObject>),
    Reference(u32, u16),
    Other,
}

/// The contents of a [`PdfObject`].
#[verifier::ext_equal]
pub enum PdfObjectView {
    Integer(i64),
    Real(u32),
    Name(Seq<u8>),
    Text(Seq<u8>),
    Array(Seq<PdfObjectView>),
    Reference(u32, u16),
    Other,
}

/// The contents of an object.
pub open spec fn object_view(object: PdfObject) -> PdfObjectView
    decreases object,
{
    match object {
        PdfObject::Integer(n) => PdfObjectView::Integer(n),
        PdfObject::Real(bits) => PdfObjectView::Real(bits),
        PdfObject::Name(name) => PdfObjectView::Name(name@),
        PdfObject::Text(text) => PdfObjectView::Text(text@),
        PdfObject::Array(items) => PdfObjectView::Array(
            Seq::new(
                items@.len(),
                |i: int|
                    if 0 <= i < items@.len() {
                        object_view(items@[i])
                    } else {
                        PdfObjectView::Other
                    },
            ),
        ),
        PdfObject::Reference(number, generation) => PdfObjectView::Reference(number, generation),
        PdfObject::Other => PdfObjectView::Other,
    }
}

impl DeepView for PdfObject {
    type V = PdfObjectView;

    open spec fn deep_view(&self) -> PdfObjectView {
        object_view(*self)
    }
}

// ---------------------------------------------------------------------------
// Loading
// ---------------------------------------------------------------------------

/// Whether `Document::load_mem_with_options` can give a document, or the text of an error, for
/// the bytes of a file and a limit, if any, on what one stream may decompress to.
pub uninterp spec fn loading(
    bytes: Seq<u8>,
    limit: Option<usize>,
    outcome: Result<Document, Seq<char>>,
) -> bool;

/// Calls `Document::load_mem_with_options` with a limit, if any, on what one stream may
/// decompress to, and gives the text of the error where it fails. The outcome is one of those that the call
/// can have, and not always the same: large files are read by several threads, and where two
/// object streams hold an object of the same number, the one that is read last stays.
#[verifier::external_body]
pub(crate) fn load_pdf(bytes: &[u8], limit: Option<usize>) -> (r: Result<Document, String>)
    ensures
        loading(
            bytes@,
            limit,
            match r {
                Ok(document) => Ok(document),
                Err(error) => Err(error@),
            },
        ),
{
    let options = LoadOptions { max_decompressed_size: limit, ..LoadOptions::default() };
    Document::load_mem_with_options(bytes, options).map_err(|error| error.to_string())
}

/// What `Document::load_metadata_mem` reads from the bytes of a PDF, and none where it fails.
pub uninterp spec fn metadata_in(bytes: Seq<u8>) -> Option<DocumentMetadataView>;

/// Calls `Document::load_metadata_mem`. The version and the page count are always there.
///
/// Where a node of the page tree declares no count, the call adds up the counts of its kids in
/// 32 bits, and each object counts once. So it is made only where the counts add up in the
/// document that the same bytes load as.
#[verifier::external_body]
pub(crate) fn load_metadata(bytes: &[u8]) -> (r: Option<DocumentMetadata>)
    requires
        exists|document: Document| #[trigger]
            loading(bytes@, None, Ok(document)) && counts_add_up(bytes@, document),
    ensures
        r.deep_view() == metadata_in(bytes@),
        r matches Some(m) ==> m.pdf_version is Some && m.declared_page_count is Some,
{
    Document::load_metadata_mem(bytes).ok().map(|m| DocumentMetadata {
        title: m.title,
        author: m.author,
        subject: m.subject,
        keywords: m.keywords,
        creator: m.creator,
        producer: m.producer,
        creation_date: m.creation_date,
        modification_date: m.modification_date,
        pdf_version: Some(m.version),
        encrypted: m.encrypted,
        declared_page_count: Some(m.page_count),
    })
}

// ---------------------------------------------------------------------------
// Pages
// ---------------------------------------------------------------------------

/// The objects of the pages that `Document::page_iter` comes upon, in order.
pub uninterp spec fn pages_in(document: Document) -> Seq<(u32, u16)>;

/// Walks `Document::page_iter` to its end. It takes no more steps than the document has
/// objects, and nothing is set aside for the pages that the document declares.
#[verifier::external_body]
pub(crate) fn page_list(document: &Document) -> (r: Vec<(u32, u16)>)
    ensures
        r@ == pages_in(*document),
{
    let mut list = Vec::new();
    for page in document.page_iter() {
        list.push(page);
    }
    list
}

/// A document in which the kids of the root of the page tree are the pages that
/// `Document::page_iter` comes upon, and all else is as it was.
pub uninterp spec fn flattened(document: Document) -> Document;

/// Copies a document and calls `Dictionary::set` on the root of its page tree, so that the pages
/// are the kids of the root. They are the same pages in the same order, and no kid of the root is
/// a node.
#[verifier::external_body]
pub(crate) fn flatten(document: &Document, pages: &Vec<(u32, u16)>) -> (r: Document)
    requires
        pages@ == pages_in(*document),
    ensures
        r == flattened(*document),
        pages_in(r) == pages@,
        plain_tree(r),
{
    let mut flat = document.clone();
    let kids: Vec<Object> = pages.iter().map(|page| Object::Reference(*page)).collect();
    let root = flat.catalog().and_then(|catalog| catalog.get(b"Pages"));
    if let Ok(id) = root.and_then(Object::as_reference) {
        if let Ok(node) = flat.get_dictionary_mut(id) {
            node.set("Kids", kids);
        }
    }
    flat
}

/// What `Document::extract_text_with_limit` gives for a page, or the text of its error.
pub uninterp spec fn text_on(document: Document, page: u32, limit: usize) -> Result<
    Seq<char>,
    Seq<char>,
>;

/// Calls `Document::extract_text_with_limit` for one page.
///
/// The call lists the pages first, and sets aside room for as many as the nodes that are still
/// to be walked declare. These are what is left of at most 257 lists of kids, so that the call
/// is made only where the kids of no node declare too many, or where there is nothing to walk
/// but the pages below the root.
#[verifier::external_body]
pub(crate) fn page_text(document: &Document, page: u32, limit: usize) -> (r: Result<
    String,
    String,
>)
    requires
        page_counts_fit(*document) || plain_tree(*document),
    ensures
        match (r, text_on(*document, page, limit)) {
            (Ok(a), Ok(b)) => a@ == b,
            (Err(a), Err(b)) => a@ == b,
            _ => false,
        },
{
    document.extract_text_with_limit(&[page], limit).map_err(|error| error.to_string())
}

/// How many images `Document::get_page_images` finds on a page, and none where it fails.
pub uninterp spec fn images_on(document: Document, page: (u32, u16)) -> Option<usize>;

/// Calls `Document::get_page_images` and counts what it gives.
#[verifier::external_body]
pub(crate) fn page_images(document: &Document, page: (u32, u16)) -> (r: Option<usize>)
    ensures
        r == images_on(*document, page),
{
    document.get_page_images(page).ok().map(|images| images.len())
}

/// The annotations that `Document::get_page_annotations` finds on a page, and none where it
/// fails.
pub uninterp spec fn annotations_on(document: Document, page: (u32, u16)) -> Option<
    Seq<Dictionary>,
>;

/// Calls `Document::get_page_annotations`.
#[verifier::external_body]
pub(crate) fn page_annotations(document: &Document, page: (u32, u16)) -> (r: Option<
    Vec<Dictionary>,
>)
    ensures
        match (r, annotations_on(*document, page)) {
            (Some(a), Some(b)) => a@ == b,
            (None, None) => true,
            _ => false,
        },
{
    document.get_page_annotations(page).ok().map(|list| list.into_iter().cloned().collect())
}

// ---------------------------------------------------------------------------
// Objects
// ---------------------------------------------------------------------------

/// The value that `Dictionary::get` finds under a key, and none where there is none.
pub uninterp spec fn entry_at(dictionary: Dictionary, key: Seq<u8>) -> Option<Object>;

/// Calls `Dictionary::get`.
#[verifier::external_body]
pub(crate) fn entry(dictionary: &Dictionary, key: &[u8]) -> (r: Option<Object>)
    ensures
        r == entry_at(*dictionary, key@),
{
    dictionary.get(key).ok().cloned()
}

/// The value that `Dictionary::get_deref` finds under a key, once references were followed, and
/// none where there is none.
pub uninterp spec fn entry_behind(dictionary: Dictionary, key: Seq<u8>, document: Document) -> Option<
    Object,
>;

/// Calls `Dictionary::get_deref`.
#[verifier::external_body]
pub(crate) fn entry_followed(dictionary: &Dictionary, key: &[u8], document: &Document) -> (r: Option<
    Object,
>)
    ensures
        r == entry_behind(*dictionary, key@, *document),
{
    dictionary.get_deref(key, document).ok().cloned()
}

/// The numbers and generations of the objects of a document.
pub uninterp spec fn objects_in(document: Document) -> Seq<(u32, u16)>;

/// Lists the keys of the field `objects` of a `Document`.
#[verifier::external_body]
pub(crate) fn object_list(document: &Document) -> (r: Vec<(u32, u16)>)
    ensures
        r@ == objects_in(*document),
{
    document.objects.keys().copied().collect()
}

/// Calls `Document::has_object`, which tells whether an object is among those of a document.
#[verifier::external_body]
pub(crate) fn has_object(document: &Document, id: (u32, u16)) -> (r: bool)
    ensures
        r == objects_in(*document).contains(id),
{
    document.has_object(id)
}

/// The dictionary that `Document::get_dictionary` finds for an object, and none where there is
/// no such object, or it is no dictionary.
pub uninterp spec fn dictionary_in(document: Document, id: (u32, u16)) -> Option<Dictionary>;

/// Calls `Document::get_dictionary`.
#[verifier::external_body]
pub(crate) fn find_dictionary(document: &Document, id: (u32, u16)) -> (r: Option<&Dictionary>)
    ensures
        match (r, dictionary_in(*document, id)) {
            (Some(a), Some(b)) => *a == b,
            (None, None) => true,
            _ => false,
        },
{
    document.get_dictionary(id).ok()
}

/// The field `trailer` of a `Document`.
pub uninterp spec fn trailer_in(document: Document) -> Dictionary;

/// Gives the field `trailer` of a `Document`.
#[verifier::external_body]
pub(crate) fn find_trailer(document: &Document) -> (r: &Dictionary)
    ensures
        *r == trailer_in(*document),
{
    &document.trailer
}

/// The cross-reference table of a `Document`: numbers of objects, and where in the file an object
/// stands that is not part of an object stream.
pub uninterp spec fn table_in(document: Document) -> Seq<(u32, Option<u32>)>;

/// Lists the entries of the field `reference_table` of a `Document`.
#[verifier::external_body]
pub(crate) fn table_list(document: &Document) -> (r: Vec<(u32, Option<u32>)>)
    ensures
        r@ == table_in(*document),
{
    document.reference_table.entries.iter().map(|(number, entry)| match entry {
        XrefEntry::Normal { offset, .. } => (*number, Some(*offset)),
        XrefEntry::Compressed { .. } => (*number, None),
        XrefEntry::Free => (*number, None),
        XrefEntry::UnusableFree => (*number, None),
    }).collect()
}

/// The numbers, names, strings, arrays and references that an `Object` holds.
pub uninterp spec fn object_value(object: Object) -> PdfObjectView;

/// Takes an `Object` apart. The kinds that nothing here speaks of become one.
#[verifier::external_body]
pub(crate) fn take_apart(object: &Object) -> (r: PdfObject)
    ensures
        r.deep_view() == object_value(*object),
{
    match object {
        Object::Integer(n) => PdfObject::Integer(*n),
        Object::Real(x) => PdfObject::Real(x.to_bits()),
        Object::Name(name) => PdfObject::Name(name.clone()),
        Object::String(text, _) => PdfObject::Text(text.clone()),
        Object::Array(items) => PdfObject::Array(items.iter().map(take_apart).collect()),
        Object::Reference((number, generation)) => PdfObject::Reference(*number, *generation),
        _ => PdfObject::Other,
    }
}

/// The operator and the operands of an `Operation`.
pub uninterp spec fn operation_parts(operation: Operation) -> (Seq<char>, Seq<Object>);

/// Takes an `Operation` apart.
#[verifier::external_body]
pub(crate) fn split_operation(operation: &Operation) -> (r: (String, Vec<Object>))
    ensures
        (r.0@, r.1@) == operation_parts(*operation),
{
    (operation.operator.clone(), operation.operands.clone())
}

// ---------------------------------------------------------------------------
// Content
// ---------------------------------------------------------------------------

/// The operations that `Document::get_and_decode_page_content` finds on a page, and none
/// where it fails.
pub uninterp spec fn operations_on(document: Document, page: (u32, u16)) -> Option<Seq<Operation>>;

/// Calls `Document::get_and_decode_page_content`.
#[verifier::external_body]
pub(crate) fn page_operations(document: &Document, page: (u32, u16)) -> (r: Option<Vec<Operation>>)
    ensures
        match (r, operations_on(*document, page)) {
            (Some(a), Some(b)) => a@ == b,
            (None, None) => true,
            _ => false,
        },
{
    document.get_and_decode_page_content(page).ok().map(|content| content.operations)
}

/// What `Document::get_page_content_with_limit` gives for a page, or the text of its error.
pub uninterp spec fn content_on(document: Document, page: (u32, u16), limit: usize) -> Result<
    Seq<u8>,
    Seq<char>,
>;

/// Calls `Document::get_page_content_with_limit`.
#[verifier::external_body]
pub(crate) fn page_content(document: &Document, page: (u32, u16), limit: usize) -> (r: Result<
    Vec<u8>,
    String,
>)
    ensures
        match (r, content_on(*document, page, limit)) {
            (Ok(a), Ok(b)) => a@ == b,
            (Err(a), Err(b)) => a@ == b,
            _ => false,
        },
{
    document.get_page_content_with_limit(page, limit).map_err(|error| error.to_string())
}

/// The operations that `Content::decode` finds in a content stream, or the text of its error.
pub uninterp spec fn operations_in(content: Seq<u8>) -> Result<Seq<Operation>, Seq<char>>;

/// Calls `Content::decode`.
#[verifier::external_body]
pub(crate) fn parse_content(content: &Vec<u8>) -> (r: Result<Vec<Operation>, String>)
    ensures
        match (r, operations_in(content@)) {
            (Ok(a), Ok(b)) => a@ == b,
            (Err(a), Err(b)) => a@ == b,
            _ => false,
        },
{
    Content::decode(content).map(|c| c.operations).map_err(|error| error.to_string())
}

// ---------------------------------------------------------------------------
// Fonts
// ---------------------------------------------------------------------------

/// The fonts that `Document::get_page_fonts` finds for a page, by their names, or the text of
/// its error.
pub uninterp spec fn fonts_on(document: Document, page: (u32, u16)) -> Result<
    Seq<(Seq<u8>, Dictionary)>,
    Seq<char>,
>;

/// Fonts by their names.
pub open spec fn named_fonts(list: Seq<(Vec<u8>, Dictionary)>) -> Seq<(Seq<u8>, Dictionary)> {
    Seq::new(list.len(), |i: int| (list[i].0@, list[i].1))
}

/// Calls `Document::get_page_fonts`.
#[verifier::external_body]
pub(crate) fn page_fonts(document: &Document, page: (u32, u16)) -> (r: Result<
    Vec<(Vec<u8>, Dictionary)>,
    String,
>)
    ensures
        match (r, fonts_on(*document, page)) {
            (Ok(a), Ok(b)) => named_fonts(a@) == b,
            (Err(a), Err(b)) => a@ == b,
            _ => false,
        },
{
    let fonts = document.get_page_fonts(page).map_err(|error| error.to_string())?;
    Ok(fonts.into_iter().map(|(name, font)| (name, font.clone())).collect())
}

/// What `Dictionary::get_font_encoding_with_limit` gives for a font of a document, and none
/// where it fails.
pub uninterp spec fn font_encoding(font: Dictionary, document: Document, limit: usize) -> Option<
    Encoding<'static>,
>;

/// Calls `Dictionary::get_font_encoding_with_limit`.
#[verifier::external_body]
pub(crate) fn encoding_of<'a>(font: &'a Dictionary, document: &'a Document, limit: usize) -> (r:
    Option<Encoding<'a>>)
    ensures
        r == font_encoding(*font, *document, limit),
{
    font.get_font_encoding_with_limit(document, limit).ok()
}

/// The text that `Document::decode_text` reads in an encoded string, and none where it fails.
pub uninterp spec fn encoded_text(encoding: Encoding<'_>, bytes: Seq<u8>) -> Option<Seq<char>>;

/// Calls `Document::decode_text`.
#[verifier::external_body]
pub(crate) fn decode_string(encoding: &Encoding<'_>, bytes: &Vec<u8>) -> (r: Option<String>)
    ensures
        r.deep_view() == encoded_text(*encoding, bytes@),
{
    Document::decode_text(encoding, bytes).ok()
}

/// What `String::from_utf8_lossy` makes of bytes.
pub uninterp spec fn lossy_text(bytes: Seq<u8>) -> Seq<char>;

/// Calls `String::from_utf8_lossy`, which gives the text that bytes encode in UTF-8, and
/// where they encode none replaces what cannot be read.
#[verifier::external_body]
pub(crate) fn read_lossily(bytes: &Vec<u8>) -> (r: String)
    ensures
        r@ == lossy_text(bytes@),
        valid_utf8(bytes@) ==> r@ == decode_utf8(bytes@),
{
    String::from_utf8_lossy(bytes).to_string()
}

} // verus!
