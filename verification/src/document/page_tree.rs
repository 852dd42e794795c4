//! What a PDF declares of its page tree, and whether it can be taken at its word.
//!
//! The nodes of a page tree say how many pages stand below them. Nothing keeps a file from
//! declaring more than can be counted, so that this is looked into before the pages are listed
//! or counted by what they declare.
use vstd::prelude::*;

use lopdf::{Dictionary, Document};

use crate::document::drawing::{look_up, value_at};
use crate::document::lopdf_items::{
    dictionary_in, entry_behind, entry_followed, find_dictionary, find_trailer, has_object,
    object_list, object_value, objects_in, table_in, table_list, take_apart, trailer_in, PdfObject,
    PdfObjectView,
};

verus! {

/// How many pages the kids of one node may declare where the pages are listed by what is
/// declared.
pub const MAX_DECLARED_PAGES: u64 = 1_000_000;

// ---------------------------------------------------------------------------
// Names
// ---------------------------------------------------------------------------

pub open spec fn key_type() -> Seq<u8> {
    seq![0x54, 0x79, 0x70, 0x65]
}

pub open spec fn key_pages() -> Seq<u8> {
    seq![0x50, 0x61, 0x67, 0x65, 0x73]
}

pub open spec fn key_kids() -> Seq<u8> {
    seq![0x4b, 0x69, 0x64, 0x73]
}

pub open spec fn key_count() -> Seq<u8> {
    seq![0x43, 0x6f, 0x75, 0x6e, 0x74]
}

pub open spec fn key_root() -> Seq<u8> {
    seq![0x52, 0x6f, 0x6f, 0x74]
}

pub open spec fn key_encrypt() -> Seq<u8> {
    seq![0x45, 0x6e, 0x63, 0x72, 0x79, 0x70, 0x74]
}

/// Whether a dictionary is a node of a page tree, by its `Type`.
pub open spec fn is_node(dictionary: Dictionary) -> bool {
    value_at(dictionary, key_type()) == Some(PdfObjectView::Name(key_pages()))
}

fn same_bytes(a: &[u8], b: &[u8]) -> (r: bool)
    ensures
        r == (a@ == b@),
{
    if a.len() != b.len() {
        return false;
    }
    for i in 0..a.len()
        invariant
            a@.len() == b@.len(),
            a@.take(i as int) == b@.take(i as int),
    {
        if a[i] != b[i] {
            return false;
        }
        assert(a@.take(i + 1) =~= a@.take(i as int).push(a@[i as int]));
        assert(b@.take(i + 1) =~= b@.take(i as int).push(b@[i as int]));
    }
    assert(a@.take(a@.len() as int) =~= a@);
    assert(b@.take(b@.len() as int) =~= b@);
    true
}

fn find_node(dictionary: &Dictionary) -> (r: bool)
    ensures
        r == is_node(*dictionary),
{
    let kind: [u8; 4] = [0x54, 0x79, 0x70, 0x65];
    let pages: [u8; 5] = [0x50, 0x61, 0x67, 0x65, 0x73];
    assert(kind@ =~= key_type());
    assert(pages@ =~= key_pages());
    match look_up(dictionary, &kind) {
        Some(PdfObject::Name(name)) => same_bytes(name.as_slice(), &pages),
        _ => false,
    }
}

// ---------------------------------------------------------------------------
// Listing
// ---------------------------------------------------------------------------

/// The value under a key of a dictionary, once references were followed.
pub open spec fn value_behind(dictionary: Dictionary, key: Seq<u8>, document: Document) -> Option<
    PdfObjectView,
> {
    match entry_behind(dictionary, key, document) {
        Some(object) => Some(object_value(object)),
        None => None,
    }
}

fn follow(dictionary: &Dictionary, key: &[u8], document: &Document) -> (r: Option<PdfObject>)
    ensures
        r.deep_view() == value_behind(*dictionary, key@, *document),
{
    match entry_followed(dictionary, key, document) {
        Some(object) => Some(take_apart(&object)),
        None => None,
    }
}

/// How many pages a kid stands for: as many as it declares where it is a node, and one where it
/// is anything else.
pub open spec fn declared_by(document: Document, kid: PdfObjectView) -> int {
    match kid {
        PdfObjectView::Reference(number, generation) => match dictionary_in(
            document,
            (number, generation),
        ) {
            Some(node) => if is_node(node) {
                match value_behind(node, key_count(), document) {
                    Some(PdfObjectView::Integer(n)) => if n > 0 {
                        n as int
                    } else {
                        0
                    },
                    _ => 0,
                }
            } else {
                1
            },
            None => 1,
        },
        _ => 1,
    }
}

fn count_declared(document: &Document, kid: &PdfObject) -> (r: u64)
    ensures
        r == declared_by(*document, kid.deep_view()),
{
    let count: [u8; 5] = [0x43, 0x6f, 0x75, 0x6e, 0x74];
    assert(count@ =~= key_count());
    match kid {
        PdfObject::Reference(number, generation) => match find_dictionary(
            document,
            (*number, *generation),
        ) {
            Some(node) => if find_node(node) {
                match follow(node, &count, document) {
                    Some(PdfObject::Integer(n)) => if n > 0 {
                        n as u64
                    } else {
                        0
                    },
                    _ => 0,
                }
            } else {
                1
            },
            None => 1,
        },
        _ => 1,
    }
}

/// How many pages the first kids stand for.
pub open spec fn declared_among(document: Document, kids: Seq<PdfObjectView>, n: int) -> int
    decreases n,
{
    if n <= 0 {
        0
    } else {
        declared_among(document, kids, n - 1) + declared_by(document, kids[n - 1])
    }
}

proof fn lemma_declared_among_grows(document: Document, kids: Seq<PdfObjectView>, i: int, j: int)
    requires
        i <= j,
    ensures
        declared_among(document, kids, i) <= declared_among(document, kids, j),
    decreases j - i,
{
    if i < j {
        lemma_declared_among_grows(document, kids, i, j - 1);
        if j <= 0 {
            assert(declared_among(document, kids, i) == 0);
        }
    }
}

/// Whether the kids of an object of a document declare no more pages than can be listed.
pub open spec fn kids_fit(document: Document, id: (u32, u16)) -> bool {
    match dictionary_in(document, id) {
        Some(node) => match value_behind(node, key_kids(), document) {
            Some(PdfObjectView::Array(kids)) => {
                declared_among(document, kids, kids.len() as int) <= MAX_DECLARED_PAGES
            },
            _ => true,
        },
        None => true,
    }
}

/// An array holds the contents of its items.
proof fn lemma_array_view(items: Vec<PdfObject>)
    ensures
        PdfObject::Array(items).deep_view() == PdfObjectView::Array(items.deep_view()),
{
    assert(PdfObject::Array(items).deep_view()->Array_0 =~= items.deep_view());
}

fn check_kids(document: &Document, id: (u32, u16)) -> (r: bool)
    ensures
        r == kids_fit(*document, id),
{
    let key: [u8; 4] = [0x4b, 0x69, 0x64, 0x73];
    assert(key@ =~= key_kids());
    let node = match find_dictionary(document, id) {
        Some(node) => node,
        None => {
            return true;
        },
    };
    let kids = match follow(node, &key, document) {
        Some(PdfObject::Array(kids)) => kids,
        _ => {
            return true;
        },
    };
    let ghost views = kids.deep_view();
    assert(value_behind(*node, key_kids(), *document) == Some(PdfObjectView::Array(views))) by {
        lemma_array_view(kids);
    }
    let mut total: u64 = 0;
    for n in 0..kids.len()
        invariant
            views == kids.deep_view(),
            total == declared_among(*document, views, n as int),
            total <= MAX_DECLARED_PAGES,
            value_behind(*node, key_kids(), *document) == Some(PdfObjectView::Array(views)),
            dictionary_in(*document, id) == Some(*node),
    {
        let declared: u64 = count_declared(document, &kids[n]);
        proof {
            lemma_declared_among_grows(*document, views, n + 1, views.len() as int);
        }
        if declared > MAX_DECLARED_PAGES - total {
            return false;
        }
        total = total + declared;
    }
    true
}

/// Whether the kids of no object of a document declare more pages than can be listed.
pub open spec fn page_counts_fit(document: Document) -> bool {
    forall|i: int|
        0 <= i < objects_in(document).len() ==> kids_fit(document, #[trigger] objects_in(document)[i])
}

/// Tells whether the pages of a document can be listed by what it declares.
pub fn check_page_counts(document: &Document) -> (r: bool)
    ensures
        r == page_counts_fit(*document),
{
    let objects = object_list(document);
    for n in 0..objects.len()
        invariant
            objects@ == objects_in(*document),
            forall|i: int| 0 <= i < n ==> kids_fit(*document, #[trigger] objects@[i]),
    {
        if !check_kids(document, objects[n]) {
            return false;
        }
    }
    true
}

/// Whether a kid is a node.
pub open spec fn leads_to_node(document: Document, kid: PdfObjectView) -> bool {
    match kid {
        PdfObjectView::Reference(number, generation) => match dictionary_in(
            document,
            (number, generation),
        ) {
            Some(node) => is_node(node),
            None => false,
        },
        _ => false,
    }
}

/// Whether no kid of the root of a page tree is a node, so that each stands for one page.
pub open spec fn plain_tree(document: Document) -> bool {
    match catalog_value(document, key_pages()) {
        Some(PdfObjectView::Reference(number, generation)) => match dictionary_in(
            document,
            (number, generation),
        ) {
            Some(root) => match value_behind(root, key_kids(), document) {
                Some(PdfObjectView::Array(kids)) => forall|i: int|
                    0 <= i < kids.len() ==> !leads_to_node(document, #[trigger] kids[i]),
                _ => true,
            },
            None => true,
        },
        _ => true,
    }
}

// ---------------------------------------------------------------------------
// Counting
// ---------------------------------------------------------------------------

/// Whether the object that a value refers to, if any, was loaded.
pub open spec fn loaded(document: Document, value: PdfObjectView) -> bool {
    match value {
        PdfObjectView::Reference(number, generation) => objects_in(document).contains(
            (number, generation),
        ),
        _ => true,
    }
}

fn is_loaded(document: &Document, value: &PdfObject) -> (r: bool)
    ensures
        r == loaded(*document, value.deep_view()),
{
    match value {
        PdfObject::Reference(number, generation) => has_object(document, (*number, *generation)),
        _ => true,
    }
}

/// Whether the objects that some values refer to were loaded.
pub open spec fn all_loaded(document: Document, values: Seq<PdfObjectView>) -> bool {
    forall|i: int| 0 <= i < values.len() ==> loaded(document, #[trigger] values[i])
}

/// Whether the kids of an object of a document were loaded.
pub open spec fn kids_loaded(document: Document, id: (u32, u16)) -> bool {
    match dictionary_in(document, id) {
        Some(node) => match value_at(node, key_kids()) {
            Some(PdfObjectView::Array(kids)) => all_loaded(document, kids),
            _ => true,
        },
        None => true,
    }
}

fn check_kids_loaded(document: &Document, id: (u32, u16)) -> (r: bool)
    ensures
        r == kids_loaded(*document, id),
{
    let key: [u8; 4] = [0x4b, 0x69, 0x64, 0x73];
    assert(key@ =~= key_kids());
    let node = match find_dictionary(document, id) {
        Some(node) => node,
        None => {
            return true;
        },
    };
    let kids = match look_up(node, &key) {
        Some(PdfObject::Array(kids)) => kids,
        _ => {
            return true;
        },
    };
    let ghost views = kids.deep_view();
    assert(value_at(*node, key_kids()) == Some(PdfObjectView::Array(views))) by {
        lemma_array_view(kids);
    }
    for n in 0..kids.len()
        invariant
            views == kids.deep_view(),
            forall|i: int| 0 <= i < n ==> loaded(*document, #[trigger] views[i]),
            value_at(*node, key_kids()) == Some(PdfObjectView::Array(views)),
            dictionary_in(*document, id) == Some(*node),
    {
        if !is_loaded(document, &kids[n]) {
            assert(0 <= n < views.len() && views[n as int] == kids@[n as int].deep_view());
            assert(!all_loaded(*document, views));
            return false;
        }
    }
    assert(all_loaded(*document, views));
    true
}

/// The value under a key of the catalog of a document.
pub open spec fn catalog_value(document: Document, key: Seq<u8>) -> Option<PdfObjectView> {
    match value_at(trailer_in(document), key_root()) {
        Some(PdfObjectView::Reference(number, generation)) => match dictionary_in(
            document,
            (number, generation),
        ) {
            Some(catalog) => value_at(catalog, key),
            None => None,
        },
        _ => None,
    }
}

/// Whether the way from the trailer of a document to its page tree was loaded.
pub open spec fn root_loaded(document: Document) -> bool {
    &&& value_at(trailer_in(document), key_root()) matches Some(root) ==> loaded(document, root)
    &&& catalog_value(document, key_pages()) matches Some(pages) ==> loaded(document, pages)
}

fn check_root_loaded(document: &Document) -> (r: bool)
    ensures
        r == root_loaded(*document),
{
    let root_key: [u8; 4] = [0x52, 0x6f, 0x6f, 0x74];
    let pages_key: [u8; 5] = [0x50, 0x61, 0x67, 0x65, 0x73];
    assert(root_key@ =~= key_root());
    assert(pages_key@ =~= key_pages());
    let root = match look_up(find_trailer(document), &root_key) {
        Some(root) => root,
        None => {
            return true;
        },
    };
    if !is_loaded(document, &root) {
        return false;
    }
    match root {
        PdfObject::Reference(number, generation) => match find_dictionary(
            document,
            (number, generation),
        ) {
            Some(catalog) => match look_up(catalog, &pages_key) {
                Some(pages) => is_loaded(document, &pages),
                None => true,
            },
            None => true,
        },
        _ => true,
    }
}

/// Whether the root of the page tree of a document says itself how many pages there are, so that
/// nothing is added up.
pub open spec fn root_counts(document: Document) -> bool {
    match catalog_value(document, key_pages()) {
        Some(PdfObjectView::Reference(number, generation)) => match dictionary_in(
            document,
            (number, generation),
        ) {
            Some(root) => is_node(root) ==> match value_at(root, key_count()) {
                Some(PdfObjectView::Integer(n)) => n >= 0,
                _ => false,
            },
            None => true,
        },
        _ => true,
    }
}

fn check_root_counts(document: &Document) -> (r: bool)
    ensures
        r == root_counts(*document),
{
    let root_key: [u8; 4] = [0x52, 0x6f, 0x6f, 0x74];
    let pages_key: [u8; 5] = [0x50, 0x61, 0x67, 0x65, 0x73];
    let count_key: [u8; 5] = [0x43, 0x6f, 0x75, 0x6e, 0x74];
    assert(root_key@ =~= key_root());
    assert(pages_key@ =~= key_pages());
    assert(count_key@ =~= key_count());
    let catalog = match look_up(find_trailer(document), &root_key) {
        Some(PdfObject::Reference(number, generation)) => find_dictionary(
            document,
            (number, generation),
        ),
        _ => None,
    };
    let pages = match catalog {
        Some(catalog) => look_up(catalog, &pages_key),
        None => None,
    };
    let root = match pages {
        Some(PdfObject::Reference(number, generation)) => find_dictionary(
            document,
            (number, generation),
        ),
        _ => None,
    };
    match root {
        Some(root) => !find_node(root) || match look_up(root, &count_key) {
            Some(PdfObject::Integer(n)) => n >= 0,
            _ => false,
        },
        None => true,
    }
}

/// How many pages an object of a document can be counted as. A count beyond 32 bits is cut off
/// when it is read.
pub open spec fn counted_as(document: Document, id: (u32, u16)) -> int {
    match dictionary_in(document, id) {
        Some(node) => match value_at(node, key_count()) {
            Some(PdfObjectView::Integer(n)) => if n < 1 {
                1
            } else if n > u32::MAX {
                u32::MAX as int
            } else {
                n as int
            },
            _ => 1,
        },
        None => 0,
    }
}

fn count_object(document: &Document, id: (u32, u16)) -> (r: u32)
    ensures
        r == counted_as(*document, id),
{
    let key: [u8; 5] = [0x43, 0x6f, 0x75, 0x6e, 0x74];
    assert(key@ =~= key_count());
    match find_dictionary(document, id) {
        Some(node) => match look_up(node, &key) {
            Some(PdfObject::Integer(n)) => if n < 1 {
                1
            } else if n > u32::MAX as i64 {
                u32::MAX
            } else {
                n as u32
            },
            _ => 1,
        },
        None => 0,
    }
}

/// How many pages the first of some objects can be counted as together.
pub open spec fn counted_among(document: Document, objects: Seq<(u32, u16)>, n: int) -> int
    decreases n,
{
    if n <= 0 {
        0
    } else {
        counted_among(document, objects, n - 1) + counted_as(document, objects[n - 1])
    }
}

proof fn lemma_counted_among_grows(document: Document, objects: Seq<(u32, u16)>, i: int, j: int)
    requires
        i <= j,
    ensures
        counted_among(document, objects, i) <= counted_among(document, objects, j),
    decreases j - i,
{
    if i < j {
        lemma_counted_among_grows(document, objects, i, j - 1);
    }
}

/// Whether all kids of a document were loaded, and all of its objects together can be counted in
/// 32 bits.
pub open spec fn objects_add_up(document: Document) -> bool {
    let objects = objects_in(document);
    &&& forall|i: int| 0 <= i < objects.len() ==> kids_loaded(document, #[trigger] objects[i])
    &&& counted_among(document, objects, objects.len() as int) <= u32::MAX
}

fn check_objects(document: &Document) -> (r: bool)
    ensures
        r == objects_add_up(*document),
{
    let objects = object_list(document);
    let mut total: u32 = 0;
    for n in 0..objects.len()
        invariant
            objects@ == objects_in(*document),
            forall|i: int| 0 <= i < n ==> kids_loaded(*document, #[trigger] objects@[i]),
            total == counted_among(*document, objects@, n as int),
    {
        if !check_kids_loaded(document, objects[n]) {
            return false;
        }
        let counted: u32 = count_object(document, objects[n]);
        proof {
            lemma_counted_among_grows(*document, objects@, n + 1, objects@.len() as int);
        }
        if counted > u32::MAX - total {
            return false;
        }
        total = total + counted;
    }
    true
}

/// Whether a document is encrypted and could not be opened, so that nothing in it is counted.
/// What it says of its encryption was loaded.
pub open spec fn locked(document: Document) -> bool {
    match value_at(trailer_in(document), key_encrypt()) {
        Some(encryption) => loaded(document, encryption),
        None => false,
    }
}

fn is_locked(document: &Document) -> (r: bool)
    ensures
        r == locked(*document),
{
    let key: [u8; 7] = [0x45, 0x6e, 0x63, 0x72, 0x79, 0x70, 0x74];
    assert(key@ =~= key_encrypt());
    match look_up(find_trailer(document), &key) {
        Some(encryption) => is_loaded(document, &encryption),
        None => false,
    }
}

// ---------------------------------------------------------------------------
// The cross-reference table
// ---------------------------------------------------------------------------

/// Whether a byte is white space in a PDF.
pub open spec fn white(byte: u8) -> bool {
    byte == 0 || byte == 9 || byte == 10 || byte == 12 || byte == 13 || byte == 32
}

/// Where the white space that stands at a place ends.
pub open spec fn past_white(bytes: Seq<u8>, at: int) -> int
    decreases bytes.len() - at,
{
    if 0 <= at < bytes.len() && white(bytes[at]) {
        past_white(bytes, at + 1)
    } else {
        at
    }
}

/// The number that is read on from a place, behind the digits of `so_far`.
pub open spec fn number_read(bytes: Seq<u8>, at: int, so_far: nat) -> nat
    decreases bytes.len() - at,
{
    if 0 <= at < bytes.len() && 0x30 <= bytes[at] <= 0x39 {
        number_read(bytes, at + 1, so_far * 10 + (bytes[at] - 0x30) as nat)
    } else {
        so_far
    }
}

proof fn lemma_number_grows(bytes: Seq<u8>, at: int, so_far: nat)
    ensures
        number_read(bytes, at, so_far) >= so_far,
    decreases bytes.len() - at,
{
    if 0 <= at < bytes.len() && 0x30 <= bytes[at] <= 0x39 {
        lemma_number_grows(bytes, at + 1, so_far * 10 + (bytes[at] - 0x30) as nat);
    }
}

/// Whether no object but that of the given number can be read at a place of a file.
pub open spec fn header_agrees(bytes: Seq<u8>, offset: int, number: u32) -> bool {
    let at = past_white(bytes, offset);
    at < bytes.len() ==> {
        &&& bytes[at] != 0x25
        &&& 0x30 <= bytes[at] <= 0x39 ==> number_read(bytes, at, 0) == number
    }
}

fn check_header(bytes: &[u8], offset: u32, number: u32) -> (r: bool)
    ensures
        r == header_agrees(bytes@, offset as int, number),
{
    if offset as u64 >= bytes.len() as u64 {
        return true;
    }
    let mut at: usize = offset as usize;
    while at < bytes.len() && (bytes[at] == 0 || bytes[at] == 9 || bytes[at] == 10 || bytes[at] == 12
        || bytes[at] == 13 || bytes[at] == 32)
        invariant
            at <= bytes@.len(),
            past_white(bytes@, offset as int) == past_white(bytes@, at as int),
        decreases bytes@.len() - at,
    {
        at = at + 1;
    }
    if at >= bytes.len() {
        return true;
    }
    if bytes[at] == 0x25 {
        return false;
    }
    if bytes[at] < 0x30 || bytes[at] > 0x39 {
        return true;
    }
    let ghost start = at as int;
    let mut value: u64 = 0;
    while at < bytes.len() && 0x30 <= bytes[at] && bytes[at] <= 0x39
        invariant
            start <= at <= bytes@.len(),
            0 <= start < bytes@.len(),
            past_white(bytes@, offset as int) == start,
            bytes@[start] != 0x25,
            0x30 <= bytes@[start] <= 0x39,
            number_read(bytes@, start, 0) == number_read(bytes@, at as int, value as nat),
            value <= u32::MAX,
        decreases bytes@.len() - at,
    {
        let next: u64 = value * 10 + (bytes[at] - 0x30) as u64;
        proof {
            lemma_number_grows(bytes@, at + 1, next as nat);
        }
        if next > u32::MAX as u64 {
            return false;
        }
        value = next;
        at = at + 1;
    }
    value == number as u64
}

/// Whether each object that a cross-reference table finds in a file is found under its own
/// number.
pub open spec fn table_agrees(bytes: Seq<u8>, table: Seq<(u32, Option<u32>)>) -> bool {
    forall|i: int|
        0 <= i < table.len() ==> ((#[trigger] table[i]).1 matches Some(offset) ==> header_agrees(
            bytes,
            offset as int,
            table[i].0,
        ))
}

fn check_table(bytes: &[u8], table: &Vec<(u32, Option<u32>)>) -> (r: bool)
    ensures
        r == table_agrees(bytes@, table@),
{
    for n in 0..table.len()
        invariant
            forall|i: int|
                0 <= i < n ==> ((#[trigger] table@[i]).1 matches Some(offset) ==> header_agrees(
                    bytes@,
                    offset as int,
                    table@[i].0,
                )),
    {
        if let Some(offset) = table[n].1 {
            if !check_header(bytes, offset, table[n].0) {
                assert(table@[n as int].1 == Some(offset));
                return false;
            }
        }
    }
    true
}

/// Whether bytes start as those of a PDF do, with `%PDF-`.
pub open spec fn pdf_header(bytes: Seq<u8>) -> bool {
    bytes.len() >= 5 && bytes.take(5) == seq![0x25u8, 0x50, 0x44, 0x46, 0x2d]
}

pub fn has_pdf_header(bytes: &[u8]) -> (r: bool)
    ensures
        r == pdf_header(bytes@),
{
    if bytes.len() < 5 {
        return false;
    }
    let r = bytes[0] == 0x25 && bytes[1] == 0x50 && bytes[2] == 0x44 && bytes[3] == 0x46 && bytes[4]
        == 0x2d;
    proof {
        let expected = seq![0x25u8, 0x50, 0x44, 0x46, 0x2d];
        let start = bytes@.take(5);
        if r {
            assert(start =~= expected);
        } else if start == expected {
            assert(start[0] == 0x25 && start[1] == 0x50 && start[2] == 0x44 && start[3] == 0x46
                && start[4] == 0x2d);
        }
    }
    r
}

/// Whether the pages that the bytes of a file declare can be counted in 32 bits, given the
/// document that they load as. Places in the file are told from its header, each object of the
/// document is the one that the table finds under its number, and either nothing has to be added
/// up or all of it together can be.
pub open spec fn counts_add_up(bytes: Seq<u8>, document: Document) -> bool {
    &&& pdf_header(bytes)
    &&& table_agrees(bytes, table_in(document))
    &&& locked(document) || (root_loaded(document) && (root_counts(document) || objects_add_up(
        document,
    )))
}

/// Tells whether the declared pages can be counted.
pub fn check_counts(bytes: &[u8], document: &Document) -> (r: bool)
    ensures
        r == counts_add_up(bytes@, *document),
{
    has_pdf_header(bytes) && check_table(bytes, &table_list(document)) && (is_locked(document) || (
    check_root_loaded(document) && (check_root_counts(document) || check_objects(document))))
}

/// Bytes are those of a PDF where they start with `%PDF-`, whatever follows.
pub proof fn law_pdf_files_start_so(bytes: Seq<u8>, rest: Seq<u8>)
    ensures
        pdf_header(seq![0x25u8, 0x50, 0x44, 0x46, 0x2d] + rest),
        pdf_header(bytes) ==> bytes.len() >= 5 && bytes[0] == 0x25 && bytes[1] == 0x50 && bytes[2]
            == 0x44 && bytes[3] == 0x46 && bytes[4] == 0x2d,
{
    let start = seq![0x25u8, 0x50, 0x44, 0x46, 0x2d];
    assert((start + rest).take(5) =~= start);
    if pdf_header(bytes) {
        assert(bytes.take(5)[0] == bytes[0]);
        assert(bytes.take(5)[1] == bytes[1]);
        assert(bytes.take(5)[2] == bytes[2]);
        assert(bytes.take(5)[3] == bytes[3]);
        assert(bytes.take(5)[4] == bytes[4]);
    }
}

/// A number goes on as long as digits follow, each adding itself to ten times what was read.
pub proof fn law_numbers_are_read_on(bytes: Seq<u8>, at: int, so_far: nat)
    requires
        0 <= at < bytes.len(),
    ensures
        0x30 <= bytes[at] <= 0x39 ==> number_read(bytes, at, so_far) == number_read(
            bytes,
            at + 1,
            10 * so_far + (bytes[at] - 0x30) as nat,
        ),
        !(0x30 <= bytes[at] <= 0x39) ==> number_read(bytes, at, so_far) == so_far,
{
    assert(so_far * 10 == 10 * so_far);
}

} // verus!
