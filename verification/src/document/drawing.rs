//! What is drawn on a PDF page over or beside its text: annotations and filled rectangles.
use vstd::prelude::*;

use lopdf::content::Operation;
use lopdf::{Dictionary, Document};

use crate::document::lopdf_items::{
    annotations_on, entry, entry_at, lossy_text, object_value, operation_parts, operations_on,
    page_annotations, page_operations, read_lossily, split_operation, take_apart, PdfObject,
    PdfObjectView,
};
use crate::document::models::{
    AnnotationSignal, AnnotationSignalView, FilledRectangleSignal, FilledRectangleSignalView,
};
use crate::measure::{
    magnitude, measure_of_integer, measure_of_single, single_measure, whole_measure, without_sign,
    Measure, MEASURE_0_12, MEASURE_0_35, MEASURE_0_75, MEASURE_18, MEASURE_2, MEASURE_36,
    MEASURE_4, MEASURE_520,
};
use crate::scan::{lowercased, same_ignoring_case, same_letters, to_lower};
use crate::text::{push_item, same};

verus! {

/// How many filled rectangles of a page are reported at most.
pub const MAX_RECTANGLE_SIGNALS_PER_PAGE: usize = 250;

// ---------------------------------------------------------------------------
// Numbers
// ---------------------------------------------------------------------------

/// The number that an object is.
pub open spec fn number_of(object: PdfObjectView) -> Option<Measure> {
    match object {
        PdfObjectView::Integer(n) => Some(whole_measure(n as int) as i64),
        PdfObjectView::Real(bits) => Some(single_measure(bits) as i64),
        _ => None,
    }
}

pub fn object_to_measure(object: &PdfObject) -> (r: Option<Measure>)
    ensures
        r == number_of(object.deep_view()),
{
    match object {
        PdfObject::Integer(n) => Some(measure_of_integer(*n)),
        PdfObject::Real(bits) => Some(measure_of_single(*bits)),
        _ => None,
    }
}

/// The numbers among the first `n` objects.
pub open spec fn numbers_among(items: Seq<PdfObjectView>, n: int) -> Seq<Measure>
    decreases n,
{
    if n <= 0 {
        seq![]
    } else {
        match number_of(items[n - 1]) {
            Some(m) => numbers_among(items, n - 1).push(m),
            None => numbers_among(items, n - 1),
        }
    }
}

/// The numbers of an array; none for another object.
pub open spec fn array_numbers(object: PdfObjectView) -> Seq<Measure> {
    match object {
        PdfObjectView::Array(items) => numbers_among(items, items.len() as int),
        _ => seq![],
    }
}

pub fn object_to_number_array(object: &PdfObject) -> (r: Vec<Measure>)
    ensures
        r@ == array_numbers(object.deep_view()),
{
    let mut r: Vec<Measure> = Vec::new();
    match object {
        PdfObject::Array(items) => {
            let ghost views = object.deep_view()->Array_0;
            for n in 0..items.len()
                invariant
                    views.len() == items@.len(),
                    forall|i: int|
                        0 <= i < items@.len() ==> (#[trigger] views[i]) == items@[i].deep_view(),
                    r@ == numbers_among(views, n as int),
            {
                assert(views[n as int] == items@[n as int].deep_view());
                match object_to_measure(&items[n]) {
                    Some(m) => {
                        r.push(m);
                    },
                    None => {},
                }
            }
        },
        _ => {},
    }
    r
}

/// The first four of a list of numbers.
pub open spec fn first_four(numbers: Seq<Measure>) -> Option<[Measure; 4]> {
    if numbers.len() < 4 {
        None
    } else {
        Some([numbers[0], numbers[1], numbers[2], numbers[3]])
    }
}

/// Whether the components of a color make it dark: by their number a gray, a mix of red,
/// green and blue, or one of four inks.
pub open spec fn dark_color(c: Seq<Measure>) -> bool {
    ||| c.len() == 1 && c[0] <= MEASURE_0_12
    ||| c.len() == 3 && c[0] <= MEASURE_0_12 && c[1] <= MEASURE_0_12 && c[2] <= MEASURE_0_12
    ||| c.len() == 4 && c[3] >= MEASURE_0_75 && c[0] <= MEASURE_0_35 && c[1] <= MEASURE_0_35 && c[2]
        <= MEASURE_0_35
}

pub fn color_is_dark(c: &Vec<Measure>) -> (r: bool)
    ensures
        r == dark_color(c@),
{
    (c.len() == 1 && c[0] <= MEASURE_0_12) || (c.len() == 3 && c[0] <= MEASURE_0_12 && c[1]
        <= MEASURE_0_12 && c[2] <= MEASURE_0_12) || (c.len() == 4 && c[3] >= MEASURE_0_75 && c[0]
        <= MEASURE_0_35 && c[1] <= MEASURE_0_35 && c[2] <= MEASURE_0_35)
}

// ---------------------------------------------------------------------------
// Annotations
// ---------------------------------------------------------------------------

/// The value under a key of a dictionary.
pub open spec fn value_at(dictionary: Dictionary, key: Seq<u8>) -> Option<PdfObjectView> {
    match entry_at(dictionary, key) {
        Some(object) => Some(object_value(object)),
        None => None,
    }
}

/// Looks up the value under a key of a dictionary.
pub fn look_up(dictionary: &Dictionary, key: &[u8]) -> (r: Option<PdfObject>)
    ensures
        r.deep_view() == value_at(*dictionary, key@),
{
    match entry(dictionary, key) {
        Some(object) => Some(take_apart(&object)),
        None => None,
    }
}

/// What an annotation says of itself, under `Subtype`, `Rect`, `IC` and `C`.
pub struct AnnotationEntries {
    pub subtype: Option<PdfObject>,
    pub rect: Option<PdfObject>,
    pub interior: Option<PdfObject>,
    pub color: Option<PdfObject>,
}

/// The contents of [`AnnotationEntries`].
#[verifier::ext_equal]
pub struct AnnotationEntriesView {
    pub subtype: Option<PdfObjectView>,
    pub rect: Option<PdfObjectView>,
    pub interior: Option<PdfObjectView>,
    pub color: Option<PdfObjectView>,
}

impl DeepView for AnnotationEntries {
    type V = AnnotationEntriesView;

    open spec fn deep_view(&self) -> AnnotationEntriesView {
        AnnotationEntriesView {
            subtype: self.subtype.deep_view(),
            rect: self.rect.deep_view(),
            interior: self.interior.deep_view(),
            color: self.color.deep_view(),
        }
    }
}

/// The keys of the entries that are read of an annotation.
pub open spec fn key_subtype() -> Seq<u8> {
    seq![0x53, 0x75, 0x62, 0x74, 0x79, 0x70, 0x65]
}

pub open spec fn key_rect() -> Seq<u8> {
    seq![0x52, 0x65, 0x63, 0x74]
}

pub open spec fn key_interior() -> Seq<u8> {
    seq![0x49, 0x43]
}

pub open spec fn key_color() -> Seq<u8> {
    seq![0x43]
}

/// The entries of an annotation.
pub open spec fn entries_of(annotation: Dictionary) -> AnnotationEntriesView {
    AnnotationEntriesView {
        subtype: value_at(annotation, key_subtype()),
        rect: value_at(annotation, key_rect()),
        interior: value_at(annotation, key_interior()),
        color: value_at(annotation, key_color()),
    }
}

fn read_entries(annotation: &Dictionary) -> (r: AnnotationEntries)
    ensures
        r.deep_view() == entries_of(*annotation),
{
    let subtype: [u8; 7] = [0x53, 0x75, 0x62, 0x74, 0x79, 0x70, 0x65];
    let rect: [u8; 4] = [0x52, 0x65, 0x63, 0x74];
    let interior: [u8; 2] = [0x49, 0x43];
    let color: [u8; 1] = [0x43];
    assert(subtype@ =~= key_subtype());
    assert(rect@ =~= key_rect());
    assert(interior@ =~= key_interior());
    assert(color@ =~= key_color());
    AnnotationEntries {
        subtype: look_up(annotation, &subtype),
        rect: look_up(annotation, &rect),
        interior: look_up(annotation, &interior),
        color: look_up(annotation, &color),
    }
}

/// The kind of an annotation.
pub open spec fn annotation_kind(subtype: Option<PdfObjectView>) -> Seq<char> {
    match subtype {
        Some(PdfObjectView::Name(name)) => lossy_text(name),
        _ => "Unknown"@,
    }
}

/// The color of an annotation: that of its inside, or else that of its border.
pub open spec fn annotation_color(
    interior: Option<PdfObjectView>,
    color: Option<PdfObjectView>,
) -> Seq<Measure> {
    match (interior, color) {
        (Some(object), _) => array_numbers(object),
        (None, Some(object)) => array_numbers(object),
        (None, None) => seq![],
    }
}

/// Whether annotations of a kind lie over what they annotate.
pub open spec fn overlay_kind(kind: Seq<char>) -> bool {
    let lower = lowercased(kind);
    lower == "square"@ || lower == "highlight"@ || lower == "polygon"@ || lower == "redact"@
}

/// What an annotation of a given kind tells of a page.
pub open spec fn annotation_signal(
    entries: AnnotationEntriesView,
    kind: Seq<char>,
    physical_page: u32,
) -> AnnotationSignalView {
    let color = annotation_color(entries.interior, entries.color);
    AnnotationSignalView {
        physical_page,
        subtype: kind,
        rect: match entries.rect {
            Some(object) => first_four(array_numbers(object)),
            None => None,
        },
        color_components: color,
        is_explicit_redaction: same_ignoring_case(kind, "Redact"@),
        is_dark_overlay_candidate: overlay_kind(kind) && dark_color(color),
    }
}

/// Makes out what an annotation of a given kind tells of a page.
pub fn signal_of_annotation(entries: &AnnotationEntries, kind: String, physical_page: u32) -> (r:
    AnnotationSignal)
    ensures
        r.deep_view() == annotation_signal(entries.deep_view(), kind@, physical_page),
{
    let rect = match &entries.rect {
        Some(object) => {
            let numbers = object_to_number_array(object);
            if numbers.len() < 4 {
                None
            } else {
                Some([numbers[0], numbers[1], numbers[2], numbers[3]])
            }
        },
        None => None,
    };
    let color_components = match (&entries.interior, &entries.color) {
        (Some(object), _) => object_to_number_array(object),
        (None, Some(object)) => object_to_number_array(object),
        (None, None) => Vec::new(),
    };
    let lower = to_lower(kind.as_str());
    let overlay = same(lower.as_str(), "square") || same(lower.as_str(), "highlight") || same(
        lower.as_str(),
        "polygon",
    ) || same(lower.as_str(), "redact");
    let dark = color_is_dark(&color_components);
    let explicit = same_letters(kind.as_str(), "Redact");
    let r = AnnotationSignal {
        physical_page,
        subtype: kind,
        rect,
        color_components,
        is_explicit_redaction: explicit,
        is_dark_overlay_candidate: overlay && dark,
    };
    assert(r.deep_view().color_components =~= annotation_color(
        entries.interior.deep_view(),
        entries.color.deep_view(),
    ));
    r
}

/// What the first `n` annotations tell of a page.
pub open spec fn annotation_signals(list: Seq<Dictionary>, physical_page: u32, n: int) -> Seq<
    AnnotationSignalView,
>
    decreases n,
{
    if n <= 0 {
        seq![]
    } else {
        let entries = entries_of(list[n - 1]);
        annotation_signals(list, physical_page, n - 1).push(
            annotation_signal(entries, annotation_kind(entries.subtype), physical_page),
        )
    }
}

/// What the annotations of a page tell of it.
pub open spec fn signals_on(document: Document, page: (u32, u16), physical_page: u32) -> Seq<
    AnnotationSignalView,
> {
    match annotations_on(document, page) {
        Some(list) => annotation_signals(list, physical_page, list.len() as int),
        None => seq![],
    }
}

pub fn inspect_annotations(document: &Document, page: (u32, u16), physical_page: u32) -> (r: Vec<
    AnnotationSignal,
>)
    ensures
        r.deep_view() == signals_on(*document, page, physical_page),
{
    let mut r: Vec<AnnotationSignal> = Vec::new();
    assert(r.deep_view() =~= seq![]);
    match page_annotations(document, page) {
        Some(list) => {
            for n in 0..list.len()
                invariant
                    r.deep_view() == annotation_signals(list@, physical_page, n as int),
            {
                let entries = read_entries(&list[n]);
                let kind = match &entries.subtype {
                    Some(PdfObject::Name(name)) => read_lossily(name),
                    _ => "Unknown".to_owned(),
                };
                push_item(&mut r, signal_of_annotation(&entries, kind, physical_page));
            }
        },
        None => {},
    }
    r
}

// ---------------------------------------------------------------------------
// Colors
// ---------------------------------------------------------------------------

/// The color that shapes are filled with.
#[derive(Debug, Clone, Copy)]
pub enum FillColor {
    Gray(Measure),
    Rgb(Measure, Measure, Measure),
    Cmyk(Measure, Measure, Measure, Measure),
    Unknown,
}

/// The components of a color.
pub open spec fn color_components(color: FillColor) -> Seq<Measure> {
    match color {
        FillColor::Gray(g) => seq![g],
        FillColor::Rgb(r, g, b) => seq![r, g, b],
        FillColor::Cmyk(c, m, y, k) => seq![c, m, y, k],
        FillColor::Unknown => seq![],
    }
}

/// The name of the space that a color is given in.
pub open spec fn color_space_name(color: FillColor) -> Seq<char> {
    match color {
        FillColor::Gray(_) => "gray"@,
        FillColor::Rgb(_, _, _) => "rgb"@,
        FillColor::Cmyk(_, _, _, _) => "cmyk"@,
        FillColor::Unknown => "unknown"@,
    }
}

impl FillColor {
    pub fn components(&self) -> (r: Vec<Measure>)
        ensures
            r@ == color_components(*self),
    {
        match *self {
            FillColor::Gray(g) => vec![g],
            FillColor::Rgb(r, g, b) => vec![r, g, b],
            FillColor::Cmyk(c, m, y, k) => vec![c, m, y, k],
            FillColor::Unknown => Vec::new(),
        }
    }

    pub fn color_space(&self) -> (r: &'static str)
        ensures
            r@ == color_space_name(*self),
    {
        match *self {
            FillColor::Gray(_) => "gray",
            FillColor::Rgb(_, _, _) => "rgb",
            FillColor::Cmyk(_, _, _, _) => "cmyk",
            FillColor::Unknown => "unknown",
        }
    }

    pub fn is_dark(&self) -> (r: bool)
        ensures
            r == dark_color(color_components(*self)),
    {
        color_is_dark(&self.components())
    }
}

// ---------------------------------------------------------------------------
// Rectangles
// ---------------------------------------------------------------------------

/// What is known while the operations of a page are gone through: the color that shapes are
/// filled with, the rectangle that is not filled yet, and what was found.
#[verifier::ext_equal]
pub struct DrawingView {
    pub fill: FillColor,
    pub pending: Option<[Measure; 4]>,
    pub signals: Seq<FilledRectangleSignalView>,
}

/// The operand of an operation at a place, where it is a number.
pub open spec fn operand(operands: Seq<PdfObjectView>, i: int) -> Option<Measure> {
    if 0 <= i < operands.len() {
        number_of(operands[i])
    } else {
        None
    }
}

/// Computes [`operand`].
pub fn number_at(operands: &Vec<PdfObject>, i: usize) -> (r: Option<Measure>)
    ensures
        r == operand(operands.deep_view(), i as int),
{
    if i < operands.len() {
        assert(operands.deep_view()[i as int] == operands@[i as int].deep_view());
        object_to_measure(&operands[i])
    } else {
        None
    }
}

/// Whether a rectangle is more than a hairline.
pub open spec fn noticeable(rect: [Measure; 4]) -> bool {
    magnitude(rect[2]) >= MEASURE_4 && magnitude(rect[3]) >= MEASURE_2
}

/// Whether a rectangle has the size of something that is laid over text.
pub open spec fn covers_text(rect: [Measure; 4]) -> bool {
    let width = magnitude(rect[2]);
    let height = magnitude(rect[3]);
    MEASURE_18 <= width <= MEASURE_520 && MEASURE_4 <= height <= MEASURE_36
}

/// What a filled rectangle tells of a page.
pub open spec fn rectangle_signal(
    rect: [Measure; 4],
    fill: FillColor,
    physical_page: u32,
) -> FilledRectangleSignalView {
    let dark = dark_color(color_components(fill));
    FilledRectangleSignalView {
        physical_page,
        rect,
        color_space: color_space_name(fill),
        color_components: color_components(fill),
        is_dark: dark,
        possible_redaction: dark && covers_text(rect),
    }
}

/// What is known after an operation.
pub open spec fn drawn(
    before: DrawingView,
    operator: Seq<char>,
    operands: Seq<PdfObjectView>,
    physical_page: u32,
) -> DrawingView {
    if operator == "g"@ {
        match operand(operands, 0) {
            Some(g) => DrawingView { fill: FillColor::Gray(g), ..before },
            None => before,
        }
    } else if operator == "rg"@ {
        match (operand(operands, 0), operand(operands, 1), operand(operands, 2)) {
            (Some(r), Some(g), Some(b)) => DrawingView { fill: FillColor::Rgb(r, g, b), ..before },
            _ => before,
        }
    } else if operator == "k"@ {
        match (
            operand(operands, 0),
            operand(operands, 1),
            operand(operands, 2),
            operand(operands, 3),
        ) {
            (Some(c), Some(m), Some(y), Some(k)) => {
                DrawingView { fill: FillColor::Cmyk(c, m, y, k), ..before }
            },
            _ => before,
        }
    } else if operator == "re"@ {
        match (
            operand(operands, 0),
            operand(operands, 1),
            operand(operands, 2),
            operand(operands, 3),
        ) {
            (Some(x), Some(y), Some(width), Some(height)) => {
                DrawingView { pending: Some([x, y, width, height]), ..before }
            },
            _ => before,
        }
    } else if operator == "f"@ || operator == "f*"@ || operator == "B"@ || operator == "B*"@ {
        match before.pending {
            Some(rect) if noticeable(rect) => DrawingView {
                pending: None,
                signals: before.signals.push(rectangle_signal(rect, before.fill, physical_page)),
                ..before
            },
            _ => DrawingView { pending: None, ..before },
        }
    } else if operator == "n"@ {
        DrawingView { pending: None, ..before }
    } else {
        before
    }
}

/// An operation with its operands taken apart.
#[derive(Debug)]
pub struct PdfOperation {
    pub operator: String,
    pub operands: Vec<PdfObject>,
}

/// The contents of a [`PdfOperation`].
#[verifier::ext_equal]
pub struct PdfOperationView {
    pub operator: Seq<char>,
    pub operands: Seq<PdfObjectView>,
}

impl DeepView for PdfOperation {
    type V = PdfOperationView;

    open spec fn deep_view(&self) -> PdfOperationView {
        PdfOperationView { operator: self.operator@, operands: self.operands.deep_view() }
    }
}

/// An operation with its operands taken apart.
pub open spec fn operation_view(operation: Operation) -> PdfOperationView {
    let (operator, operands) = operation_parts(operation);
    PdfOperationView {
        operator,
        operands: Seq::new(operands.len(), |i: int| object_value(operands[i])),
    }
}

/// Operations with their operands taken apart.
pub open spec fn operation_views(list: Seq<Operation>) -> Seq<PdfOperationView> {
    Seq::new(list.len(), |i: int| operation_view(list[i]))
}

/// Computes [`operation_views`].
pub fn take_operations_apart(list: &Vec<Operation>) -> (r: Vec<PdfOperation>)
    ensures
        r.deep_view() == operation_views(list@),
{
    let ghost all = operation_views(list@);
    let mut r: Vec<PdfOperation> = Vec::new();
    assert(r.deep_view() =~= all.take(0));
    for n in 0..list.len()
        invariant
            all == operation_views(list@),
            r.deep_view() == all.take(n as int),
    {
        let (operator, objects) = split_operation(&list[n]);
        let ghost parts = all[n as int].operands;
        let mut operands: Vec<PdfObject> = Vec::new();
        assert(operands.deep_view() =~= parts.take(0));
        for i in 0..objects.len()
            invariant
                parts.len() == objects@.len(),
                forall|j: int|
                    0 <= j < objects@.len() ==> (#[trigger] parts[j]) == object_value(objects@[j]),
                operands.deep_view() == parts.take(i as int),
        {
            push_item(&mut operands, take_apart(&objects[i]));
            assert(parts.take(i + 1) =~= parts.take(i as int).push(parts[i as int]));
        }
        assert(parts.take(parts.len() as int) =~= parts);
        push_item(&mut r, PdfOperation { operator, operands });
        assert(all.take(n + 1) =~= all.take(n as int).push(all[n as int]));
    }
    assert(all.take(all.len() as int) =~= all);
    r
}

/// What is known after the first `n` operations, of which none counts once enough rectangles
/// were found.
pub open spec fn drawing_after(list: Seq<PdfOperationView>, physical_page: u32, n: int) ->
    DrawingView
    decreases n,
{
    if n <= 0 {
        DrawingView { fill: FillColor::Unknown, pending: None, signals: seq![] }
    } else {
        let before = drawing_after(list, physical_page, n - 1);
        if before.signals.len() >= MAX_RECTANGLE_SIGNALS_PER_PAGE {
            before
        } else {
            drawn(before, list[n - 1].operator, list[n - 1].operands, physical_page)
        }
    }
}

proof fn lemma_drawing_is_over(list: Seq<PdfOperationView>, physical_page: u32, n: int, m: int)
    requires
        0 <= n <= m,
        drawing_after(list, physical_page, n).signals.len() >= MAX_RECTANGLE_SIGNALS_PER_PAGE,
    ensures
        drawing_after(list, physical_page, m) == drawing_after(list, physical_page, n),
    decreases m,
{
    if n < m {
        lemma_drawing_is_over(list, physical_page, n, m - 1);
    }
}

fn draw(
    fill: &mut FillColor,
    pending: &mut Option<[Measure; 4]>,
    signals: &mut Vec<FilledRectangleSignal>,
    operation: &PdfOperation,
    physical_page: u32,
)
    ensures
        (DrawingView {
            fill: *final(fill),
            pending: *final(pending),
            signals: final(signals).deep_view(),
        }) == drawn(
            (DrawingView {
                fill: *old(fill),
                pending: *old(pending),
                signals: old(signals).deep_view(),
            }),
            operation.deep_view().operator,
            operation.deep_view().operands,
            physical_page,
        ),
{
    let operator = operation.operator.as_str();
    let operands = &operation.operands;
    if same(operator, "g") {
        match number_at(operands, 0) {
            Some(g) => {
                *fill = FillColor::Gray(g);
            },
            None => {},
        }
    } else if same(operator, "rg") {
        match (number_at(operands, 0), number_at(operands, 1), number_at(operands, 2)) {
            (Some(r), Some(g), Some(b)) => {
                *fill = FillColor::Rgb(r, g, b);
            },
            _ => {},
        }
    } else if same(operator, "k") {
        match (
            number_at(operands, 0),
            number_at(operands, 1),
            number_at(operands, 2),
            number_at(operands, 3),
        ) {
            (Some(c), Some(m), Some(y), Some(k)) => {
                *fill = FillColor::Cmyk(c, m, y, k);
            },
            _ => {},
        }
    } else if same(operator, "re") {
        match (
            number_at(operands, 0),
            number_at(operands, 1),
            number_at(operands, 2),
            number_at(operands, 3),
        ) {
            (Some(x), Some(y), Some(width), Some(height)) => {
                *pending = Some([x, y, width, height]);
            },
            _ => {},
        }
    } else if same(operator, "f") || same(operator, "f*") || same(operator, "B") || same(
        operator,
        "B*",
    ) {
        match *pending {
            Some(rect) => {
                let width = without_sign(rect[2]);
                let height = without_sign(rect[3]);
                if width >= MEASURE_4 && height >= MEASURE_2 {
                    let is_dark = fill.is_dark();
                    let signal = FilledRectangleSignal {
                        physical_page,
                        rect,
                        color_space: fill.color_space().to_owned(),
                        color_components: fill.components(),
                        is_dark,
                        possible_redaction: is_dark && width >= MEASURE_18 && height >= MEASURE_4
                            && height <= MEASURE_36 && width <= MEASURE_520,
                    };
                    assert(signal.deep_view() =~= rectangle_signal(rect, *fill, physical_page));
                    push_item(signals, signal);
                }
            },
            None => {},
        }
        *pending = None;
    } else if same(operator, "n") {
        *pending = None;
    }
}

/// The filled rectangles that operations draw, in the order in which they are drawn.
pub fn find_rectangles(list: &Vec<PdfOperation>, physical_page: u32) -> (r: Vec<
    FilledRectangleSignal,
>)
    ensures
        r.deep_view() == drawing_after(
            list.deep_view(),
            physical_page,
            list.deep_view().len() as int,
        ).signals,
{
    let ghost views = list.deep_view();
    let count = list.len();
    let mut fill = FillColor::Unknown;
    let mut pending: Option<[Measure; 4]> = None;
    let mut signals: Vec<FilledRectangleSignal> = Vec::new();
    assert(signals.deep_view() =~= seq![]);
    let mut n: usize = 0;
    while n < count && signals.len() < MAX_RECTANGLE_SIGNALS_PER_PAGE
        invariant
            n <= count,
            count == list@.len(),
            views == list.deep_view(),
            (DrawingView { fill, pending, signals: signals.deep_view() }) == drawing_after(
                views,
                physical_page,
                n as int,
            ),
        decreases count - n,
    {
        assert(views[n as int] == list@[n as int].deep_view());
        draw(&mut fill, &mut pending, &mut signals, &list[n], physical_page);
        n += 1;
    }
    proof {
        if n < count {
            lemma_drawing_is_over(views, physical_page, n as int, count as int);
        }
    }
    signals
}

/// The filled rectangles of a page.
pub open spec fn rectangles_on(document: Document, page: (u32, u16), physical_page: u32) -> Seq<
    FilledRectangleSignalView,
> {
    match operations_on(document, page) {
        Some(list) => drawing_after(operation_views(list), physical_page, list.len() as int).signals,
        None => seq![],
    }
}

pub fn inspect_filled_rectangles(document: &Document, page: (u32, u16), physical_page: u32) -> (r:
    Vec<FilledRectangleSignal>)
    ensures
        r.deep_view() == rectangles_on(*document, page, physical_page),
{
    match page_operations(document, page) {
        Some(list) => find_rectangles(&take_operations_apart(&list), physical_page),
        None => {
            let r: Vec<FilledRectangleSignal> = Vec::new();
            assert(r.deep_view() =~= seq![]);
            r
        },
    }
}

/// Only dark rectangles of the size of covered text are reported as possible redactions, and
/// never more rectangles than can be reported.
pub proof fn law_rectangles_are_bounded(list: Seq<PdfOperationView>, physical_page: u32, n: int)
    ensures
        ({
            let found = drawing_after(list, physical_page, n).signals;
            &&& found.len() <= MAX_RECTANGLE_SIGNALS_PER_PAGE
            &&& forall|i: int|
                0 <= i < found.len() ==> {
                    let signal = #[trigger] found[i];
                    &&& noticeable(signal.rect)
                    &&& signal.possible_redaction <==> signal.is_dark && covers_text(signal.rect)
                }
        }),
    decreases n,
{
    if n > 0 {
        law_rectangles_are_bounded(list, physical_page, n - 1);
    }
}

// ---------------------------------------------------------------------------
// What operations do
// ---------------------------------------------------------------------------

/// The numbers among objects are those of the whole and the real ones, in their order, and nothing
/// stands for the others.
pub proof fn law_numbers_among_objects(items: Seq<PdfObjectView>, n: int)
    requires
        0 <= n < items.len(),
    ensures
        numbers_among(items, 0).len() == 0,
        items[n] matches PdfObjectView::Integer(k) ==> numbers_among(items, n + 1) == numbers_among(
            items,
            n,
        ).push(whole_measure(k as int) as i64),
        items[n] matches PdfObjectView::Real(bits) ==> numbers_among(items, n + 1)
            == numbers_among(items, n).push(single_measure(bits) as i64),
        !(items[n] is Integer) && !(items[n] is Real) ==> numbers_among(items, n + 1)
            == numbers_among(items, n),
        array_numbers(PdfObjectView::Array(items)) == numbers_among(items, items.len() as int),
        !(items[n] is Array) ==> array_numbers(items[n]).len() == 0,
{
}

/// The fill color changes where an operator brings all the numbers of a color, and with it nothing
/// else does.
pub proof fn law_colors_are_set(
    before: DrawingView,
    operands: Seq<PdfObjectView>,
    physical_page: u32,
)
    ensures
        ({
            let number = |i: int|
                if i < operands.len() {
                    number_of(operands[i])
                } else {
                    None
                };
            let gray = drawn(before, "g"@, operands, physical_page);
            let mixed = drawn(before, "rg"@, operands, physical_page);
            let inked = drawn(before, "k"@, operands, physical_page);
            &&& gray.pending == before.pending && gray.signals == before.signals
            &&& mixed.pending == before.pending && mixed.signals == before.signals
            &&& inked.pending == before.pending && inked.signals == before.signals
            &&& number(0) is Some ==> gray.fill == FillColor::Gray(number(0)->0)
            &&& number(0) is None ==> gray.fill == before.fill
            &&& if number(0) is Some && number(1) is Some && number(2) is Some {
                mixed.fill == FillColor::Rgb(number(0)->0, number(1)->0, number(2)->0)
            } else {
                mixed.fill == before.fill
            }
            &&& if number(0) is Some && number(1) is Some && number(2) is Some && number(
                3,
            ) is Some {
                inked.fill == FillColor::Cmyk(
                    number(0)->0,
                    number(1)->0,
                    number(2)->0,
                    number(3)->0,
                )
            } else {
                inked.fill == before.fill
            }
        }),
{
    reveal_strlit("g");
    reveal_strlit("rg");
    reveal_strlit("k");
    assert("g"@[0] == 'g');
    assert("rg"@[0] == 'r');
    assert("k"@[0] == 'k');
}

/// A rectangle waits to be filled, in the color that is set. Filling it reports it where it is at
/// least four wide and two high, and lets go of it; so does leaving it unfilled, without a report.
pub proof fn law_rectangles_wait_to_be_filled(
    before: DrawingView,
    operator: Seq<char>,
    operands: Seq<PdfObjectView>,
    physical_page: u32,
)
    ensures
        ({
            let after = drawn(before, operator, operands, physical_page);
            let number = |i: int|
                if i < operands.len() {
                    number_of(operands[i])
                } else {
                    None
                };
            let paints = operator == "f"@ || operator == "f*"@ || operator == "B"@ || operator
                == "B*"@;
            let shown = match before.pending {
                Some(rect) => magnitude(rect[2]) >= 0x4010_0000_0000_0000 && magnitude(rect[3])
                    >= 0x4000_0000_0000_0000,
                None => false,
            };
            &&& operator == "re"@ ==> after.fill == before.fill && after.signals == before.signals
                && if number(0) is Some && number(1) is Some && number(2) is Some && number(
                3,
            ) is Some {
                after.pending == Some([number(0)->0, number(1)->0, number(2)->0, number(3)->0])
            } else {
                after.pending == before.pending
            }
            &&& paints || operator == "n"@ ==> after.pending is None && after.fill == before.fill
            &&& operator == "n"@ ==> after.signals == before.signals
            &&& paints && !shown ==> after.signals == before.signals
            &&& paints && shown ==> after.signals.len() == before.signals.len() + 1
                && after.signals.drop_last() == before.signals && after.signals.last().rect
                == before.pending->0 && after.signals.last().physical_page == physical_page
                && after.signals.last().color_components == color_components(before.fill)
            &&& !paints && operator != "n"@ && operator != "re"@ && operator != "g"@ && operator
                != "rg"@ && operator != "k"@ ==> after == before
        }),
{
    reveal_strlit("g");
    reveal_strlit("rg");
    reveal_strlit("k");
    reveal_strlit("re");
    reveal_strlit("f");
    reveal_strlit("f*");
    reveal_strlit("B");
    reveal_strlit("B*");
    reveal_strlit("n");
    assert("g"@[0] == 'g');
    assert("rg"@[0] == 'r' && "rg"@[1] == 'g');
    assert("k"@[0] == 'k');
    assert("re"@[0] == 'r' && "re"@[1] == 'e');
    assert("f"@[0] == 'f');
    assert("f*"@[0] == 'f');
    assert("B"@[0] == 'B');
    assert("B*"@[0] == 'B');
    assert("n"@[0] == 'n');
    let signal = rectangle_signal(before.pending->0, before.fill, physical_page);
    assert(before.signals.push(signal).drop_last() =~= before.signals);
}

/// A gray or a mix of red, green and blue is dark where no part is above 0.12; four inks are where
/// black is at 0.75 or above and no other ink above 0.35. A color without as many parts is not.
pub proof fn law_dark_colors(r: Measure, g: Measure, b: Measure, k: Measure, other: Seq<Measure>)
    ensures
        ({
            let limit = 0x3fbe_b851_eb85_1eb8i64;
            &&& dark_color(seq![r]) <==> r <= limit
            &&& dark_color(seq![r, g, b]) <==> r <= limit && g <= limit && b <= limit
            &&& dark_color(seq![r, g, b, k]) <==> k >= 0x3fe8_0000_0000_0000 && r
                <= 0x3fd6_6666_6666_6666 && g <= 0x3fd6_6666_6666_6666 && b
                <= 0x3fd6_6666_6666_6666
            &&& other.len() != 1 && other.len() != 3 && other.len() != 4 ==> !dark_color(other)
        }),
{
}

/// A filled rectangle may be a redaction where it is dark, 18 to 520 wide and 4 to 36 high.
pub proof fn law_dark_bars_may_be_redactions(rect: [Measure; 4], fill: FillColor, page: u32)
    ensures
        ({
            let signal = rectangle_signal(rect, fill, page);
            let width = magnitude(rect[2]);
            let height = magnitude(rect[3]);
            let dark = match fill {
                FillColor::Gray(g) => dark_color(seq![g]),
                FillColor::Rgb(r, g, b) => dark_color(seq![r, g, b]),
                FillColor::Cmyk(c, m, y, k) => dark_color(seq![c, m, y, k]),
                FillColor::Unknown => false,
            };
            &&& signal.is_dark == dark
            &&& signal.possible_redaction <==> dark && 0x4032_0000_0000_0000 <= width
                && width <= 0x4080_4000_0000_0000 && 0x4010_0000_0000_0000 <= height
                && height <= 0x4042_0000_0000_0000
            &&& signal.rect == rect && signal.physical_page == page
            &&& signal.color_space == match fill {
                FillColor::Gray(_) => "gray"@,
                FillColor::Rgb(_, _, _) => "rgb"@,
                FillColor::Cmyk(_, _, _, _) => "cmyk"@,
                FillColor::Unknown => "unknown"@,
            }
        }),
{
}

/// Operations are taken one after the other, from an unknown color and nothing waiting, and none is
/// taken once 250 rectangles were found.
pub proof fn law_operations_draw_in_turn(list: Seq<PdfOperationView>, physical_page: u32, n: int)
    requires
        0 <= n < list.len(),
    ensures
        ({
            let before = drawing_after(list, physical_page, n);
            let start = drawing_after(list, physical_page, 0);
            &&& start.fill == FillColor::Unknown && start.pending is None && start.signals.len()
                == 0
            &&& before.signals.len() < 250 ==> drawing_after(list, physical_page, n + 1) == drawn(
                before,
                list[n].operator,
                list[n].operands,
                physical_page,
            )
            &&& before.signals.len() >= 250 ==> drawing_after(list, physical_page, n + 1) == before
        }),
{
}

/// What an annotation tells: its kind, the first four numbers of its rectangle, the color of its
/// inside or else of its border, whether it is a redaction, and whether it is dark and of a kind
/// that lies over the page.
pub proof fn law_annotations_tell(entries: AnnotationEntriesView, kind: Seq<char>, page: u32)
    ensures
        ({
            let signal = annotation_signal(entries, kind, page);
            let lower = lowercased(kind);
            let lies_over = lower == "square"@ || lower == "highlight"@ || lower == "polygon"@
                || lower == "redact"@;
            &&& signal.physical_page == page && signal.subtype == kind
            &&& entries.interior matches Some(object) ==> signal.color_components == array_numbers(
                object,
            )
            &&& entries.interior is None && entries.color is Some ==> signal.color_components
                == array_numbers(entries.color->0)
            &&& entries.interior is None && entries.color is None
                ==> signal.color_components.len() == 0
            &&& signal.is_explicit_redaction == same_ignoring_case(kind, "Redact"@)
            &&& signal.is_dark_overlay_candidate <==> lies_over && dark_color(
                signal.color_components,
            )
            &&& entries.rect is None ==> signal.rect is None
            &&& entries.rect matches Some(object) ==> (signal.rect is Some <==> array_numbers(
                object,
            ).len() >= 4)
            &&& entries.rect is Some && signal.rect is Some ==> {
                let numbers = array_numbers(entries.rect->0);
                let rect = signal.rect->0;
                rect[0] == numbers[0] && rect[1] == numbers[1] && rect[2] == numbers[2] && rect[3]
                    == numbers[3]
            }
        }),
{
}

/// Each annotation of a page is told of, under its own name where it has one.
pub proof fn law_annotations_are_told_of(list: Seq<Dictionary>, physical_page: u32, n: int)
    requires
        0 <= n < list.len(),
    ensures
        ({
            let before = annotation_signals(list, physical_page, n);
            let after = annotation_signals(list, physical_page, n + 1);
            let entries = entries_of(list[n]);
            &&& annotation_signals(list, physical_page, 0).len() == 0
            &&& after.len() == before.len() + 1
            &&& after.drop_last() == before
            &&& entries.subtype matches Some(PdfObjectView::Name(name))
                ==> after.last() == annotation_signal(entries, lossy_text(name), physical_page)
            &&& !(entries.subtype is Some && entries.subtype->0 is Name) ==> after.last()
                == annotation_signal(entries, "Unknown"@, physical_page)
        }),
{
    assert(annotation_signals(list, physical_page, n + 1).drop_last() =~= annotation_signals(
        list,
        physical_page,
        n,
    ));
}

} // verus!
