//! The text that a PDF page shows, and the moves between one piece of it and the next.
//!
//! Where a piece stands follows from the moves by arithmetic on real numbers, which is left
//! to whoever runs the steps.
use vstd::prelude::*;

use lopdf::{Dictionary, Document, Encoding};

use crate::document::drawing::{
    number_at, number_of, operand, operation_views, take_operations_apart, PdfOperation, PdfOperationView,
};
use crate::document::lopdf_items::{
    content_on, decode_string, encoded_text, encoding_of, font_encoding, fonts_on, lossy_text,
    named_fonts, operations_in, page_content, page_fonts, parse_content, read_lossily, PdfObject,
    PdfObjectView,
};
use crate::measure::{measure_of_single, single_measure, Measure, MEASURE_MINUS_100};
use crate::pieces::{
    joined, law_words_are_what_is_written, respace, single_spaced, word_starts, words_of,
};
use crate::text::{chars_of, push_char, push_item, same};

verus! {

/// The most that the content of a page may decompress to.
pub const MAX_PAGE_CONTENT_SIZE: usize = 67_108_864;

/// A step in showing a page.
#[derive(Debug)]
pub enum TextStep {
    /// Keep the transformation of the page for later.
    Save,
    /// Take up the transformation that was kept last.
    Restore,
    /// Transform the page further.
    Transform([Measure; 6]),
    /// Start at the origin.
    Begin,
    /// Change the type size.
    Size(Measure),
    /// Go on from a given transformation of the text.
    Place([Measure; 6]),
    /// Go on from a point relative to the start of the line.
    Move(Measure, Measure),
    /// The same, and take the vertical distance for that between lines.
    MoveAndLead(Measure, Measure),
    /// Change the distance between lines.
    Lead(Measure),
    /// Change the height of the text above its line.
    Rise(Measure),
    /// Go to the next line.
    NextLine,
    /// Show a text in a font.
    Show { font: String, text: String },
}

/// The contents of a [`TextStep`].
#[verifier::ext_equal]
pub enum TextStepView {
    Save,
    Restore,
    Transform([Measure; 6]),
    Begin,
    Size(Measure),
    Place([Measure; 6]),
    Move(Measure, Measure),
    MoveAndLead(Measure, Measure),
    Lead(Measure),
    Rise(Measure),
    NextLine,
    Show { font: Seq<char>, text: Seq<char> },
}

impl DeepView for TextStep {
    type V = TextStepView;

    open spec fn deep_view(&self) -> TextStepView {
        match self {
            TextStep::Save => TextStepView::Save,
            TextStep::Restore => TextStepView::Restore,
            TextStep::Transform(m) => TextStepView::Transform(*m),
            TextStep::Begin => TextStepView::Begin,
            TextStep::Size(size) => TextStepView::Size(*size),
            TextStep::Place(m) => TextStepView::Place(*m),
            TextStep::Move(x, y) => TextStepView::Move(*x, *y),
            TextStep::MoveAndLead(x, y) => TextStepView::MoveAndLead(*x, *y),
            TextStep::Lead(leading) => TextStepView::Lead(*leading),
            TextStep::Rise(rise) => TextStepView::Rise(*rise),
            TextStep::NextLine => TextStepView::NextLine,
            TextStep::Show { font, text } => TextStepView::Show { font: font@, text: text@ },
        }
    }
}

// ---------------------------------------------------------------------------
// Fonts
// ---------------------------------------------------------------------------

/// Where a font stands in a list, from a place on; the end of the list if it does not.
pub open spec fn font_index(fonts: Seq<(Seq<u8>, Dictionary)>, name: Seq<u8>, from: int) -> int
    decreases fonts.len() - from,
{
    if 0 <= from < fonts.len() && fonts[from].0 != name {
        font_index(fonts, name, from + 1)
    } else {
        from
    }
}

/// The encoding of a font of a page.
pub open spec fn encoding_for(
    fonts: Seq<(Seq<u8>, Dictionary)>,
    document: Document,
    name: Seq<u8>,
) -> Option<Encoding<'static>> {
    let i = font_index(fonts, name, 0);
    if 0 <= i < fonts.len() {
        font_encoding(fonts[i].1, document, MAX_PAGE_CONTENT_SIZE)
    } else {
        None
    }
}

fn same_bytes(a: &Vec<u8>, b: &Vec<u8>) -> (r: bool)
    ensures
        r == (a@ == b@),
{
    if a.len() != b.len() {
        return false;
    }
    for i in 0..a.len()
        invariant
            a@.len() == b@.len(),
            forall|j: int| 0 <= j < i ==> a@[j] == b@[j],
    {
        if a[i] != b[i] {
            return false;
        }
    }
    assert(a@ =~= b@);
    true
}

fn find_font(fonts: &Vec<(Vec<u8>, Dictionary)>, name: &Vec<u8>) -> (r: usize)
    ensures
        r == font_index(named_fonts(fonts@), name@, 0),
        r <= fonts@.len(),
{
    let ghost list = named_fonts(fonts@);
    let mut i: usize = 0;
    while i < fonts.len() && !same_bytes(&fonts[i].0, name)
        invariant
            list == named_fonts(fonts@),
            i <= fonts@.len(),
            font_index(list, name@, i as int) == font_index(list, name@, 0),
        decreases fonts@.len() - i,
    {
        assert(list[i as int].0 == fonts@[i as int].0@);
        i += 1;
    }
    assert(i < fonts@.len() ==> list[i as int].0 == fonts@[i as int].0@);
    i
}

// ---------------------------------------------------------------------------
// Text
// ---------------------------------------------------------------------------

/// Whether a number between two strings leaves room for a space.
pub open spec fn leaves_space(object: PdfObjectView) -> bool {
    match object {
        PdfObjectView::Integer(n) => n < -100,
        PdfObjectView::Real(bits) => single_measure(bits) < MEASURE_MINUS_100,
        _ => false,
    }
}

/// The text of the first `n` objects, unless a string cannot be decoded.
pub open spec fn collected(
    encoding: Encoding<'static>,
    items: Seq<PdfObjectView>,
    n: int,
) -> Option<Seq<char>>
    decreases items, n,
{
    if n <= 0 || n > items.len() {
        Some(seq![])
    } else {
        match collected(encoding, items, n - 1) {
            None => None,
            Some(before) => match items[n - 1] {
                PdfObjectView::Text(bytes) => match encoded_text(encoding, bytes) {
                    Some(text) => Some(before + text),
                    None => None,
                },
                PdfObjectView::Array(inner) => match collected(encoding, inner, inner.len() as int) {
                    Some(text) => Some(before + text),
                    None => None,
                },
                other => if leaves_space(other) {
                    Some(before + " "@)
                } else {
                    Some(before)
                },
            },
        }
    }
}

fn collect_text(encoding: &Encoding<'_>, items: &Vec<PdfObject>, from: usize) -> (r: Option<String>)
    requires
        from <= items@.len(),
    ensures
        r.deep_view() == collected(
            *encoding,
            items.deep_view().skip(from as int),
            items@.len() - from,
        ),
    decreases items,
{
    let ghost views = items.deep_view().skip(from as int);
    let count = items.len();
    let mut text = String::new();
    for n in from..count
        invariant
            from <= n <= count,
            count == items@.len(),
            views == items.deep_view().skip(from as int),
            collected(*encoding, views, n - from) == Some(text@),
    {
        let ghost at = n - from;
        assert(views[at] == items@[n as int].deep_view());
        match &items[n] {
            PdfObject::Text(bytes) => {
                match decode_string(encoding, bytes) {
                    Some(piece) => {
                        text.append(piece.as_str());
                    },
                    None => {
                        proof {
                            lemma_collected_stays_none(*encoding, views, at + 1, views.len() as int);
                        }
                        return None;
                    },
                }
            },
            PdfObject::Array(inner) => {
                assert(views[at]->Array_0 =~= inner.deep_view().skip(0));
                match collect_text(encoding, inner, 0) {
                    Some(piece) => {
                        text.append(piece.as_str());
                    },
                    None => {
                        proof {
                            lemma_collected_stays_none(*encoding, views, at + 1, views.len() as int);
                        }
                        return None;
                    },
                }
            },
            PdfObject::Integer(k) => {
                if *k < -100 {
                    text.append(" ");
                }
            },
            PdfObject::Real(bits) => {
                if measure_of_single(*bits) < MEASURE_MINUS_100 {
                    text.append(" ");
                }
            },
            _ => {},
        }
    }
    Some(text)
}

proof fn lemma_collected_stays_none(
    encoding: Encoding<'static>,
    items: Seq<PdfObjectView>,
    n: int,
    m: int,
)
    requires
        0 < n <= m <= items.len(),
        collected(encoding, items, n) is None,
    ensures
        collected(encoding, items, m) is None,
    decreases m,
{
    if n < m {
        lemma_collected_stays_none(encoding, items, n, m - 1);
    }
}

/// The first `n` characters of a text without those of code zero.
pub open spec fn without_zeros(text: Seq<char>, n: int) -> Seq<char>
    decreases n,
{
    if n <= 0 {
        seq![]
    } else if text[n - 1] == '\0' {
        without_zeros(text, n - 1)
    } else {
        without_zeros(text, n - 1).push(text[n - 1])
    }
}

/// Computes [`without_zeros`] of a whole text.
pub fn drop_zeros(text: &str) -> (r: String)
    ensures
        r@ == without_zeros(text@, text@.len() as int),
{
    let v = chars_of(text);
    let mut r = String::new();
    for n in 0..v.len()
        invariant
            v@ == text@,
            r@ == without_zeros(text@, n as int),
    {
        if v[n] != '\0' {
            push_char(&mut r, v[n]);
        }
    }
    r
}

/// A text as a fragment shows it.
pub open spec fn fragment_text(text: Seq<char>) -> Seq<char> {
    single_spaced(without_zeros(text, text.len() as int))
}

pub fn normalize_fragment_text(text: &str) -> (r: String)
    ensures
        r@ == fragment_text(text@),
{
    respace(drop_zeros(text).as_str())
}

// ---------------------------------------------------------------------------
// Steps
// ---------------------------------------------------------------------------

/// Six numbers in front of the operands.
pub open spec fn six_numbers(operands: Seq<PdfObjectView>) -> Option<[Measure; 6]> {
    match (
        operand(operands, 0),
        operand(operands, 1),
        operand(operands, 2),
        operand(operands, 3),
        operand(operands, 4),
        operand(operands, 5),
    ) {
        (Some(a), Some(b), Some(c), Some(d), Some(e), Some(f)) => Some([a, b, c, d, e, f]),
        _ => None,
    }
}

fn find_six_numbers(operands: &Vec<PdfObject>) -> (r: Option<[Measure; 6]>)
    ensures
        r == six_numbers(operands.deep_view()),
{
    match (
        number_at(operands, 0),
        number_at(operands, 1),
        number_at(operands, 2),
        number_at(operands, 3),
        number_at(operands, 4),
        number_at(operands, 5),
    ) {
        (Some(a), Some(b), Some(c), Some(d), Some(e), Some(f)) => Some([a, b, c, d, e, f]),
        _ => None,
    }
}

/// The step that an operation is which shows nothing.
pub open spec fn quiet_step(operator: Seq<char>, operands: Seq<PdfObjectView>) -> Option<
    TextStepView,
> {
    if operator == "q"@ {
        Some(TextStepView::Save)
    } else if operator == "Q"@ {
        Some(TextStepView::Restore)
    } else if operator == "cm"@ {
        match six_numbers(operands) {
            Some(m) => Some(TextStepView::Transform(m)),
            None => None,
        }
    } else if operator == "BT"@ {
        Some(TextStepView::Begin)
    } else if operator == "Tf"@ {
        match operand(operands, 1) {
            Some(size) => Some(TextStepView::Size(size)),
            None => None,
        }
    } else if operator == "Tm"@ {
        match six_numbers(operands) {
            Some(m) => Some(TextStepView::Place(m)),
            None => None,
        }
    } else if operator == "Td"@ {
        match (operand(operands, 0), operand(operands, 1)) {
            (Some(x), Some(y)) => Some(TextStepView::Move(x, y)),
            _ => None,
        }
    } else if operator == "TD"@ {
        match (operand(operands, 0), operand(operands, 1)) {
            (Some(x), Some(y)) => Some(TextStepView::MoveAndLead(x, y)),
            _ => None,
        }
    } else if operator == "TL"@ {
        match operand(operands, 0) {
            Some(leading) => Some(TextStepView::Lead(leading)),
            None => None,
        }
    } else if operator == "Ts"@ {
        match operand(operands, 0) {
            Some(rise) => Some(TextStepView::Rise(rise)),
            None => None,
        }
    } else if operator == "T*"@ || operator == "'"@ || operator == "\""@ {
        Some(TextStepView::NextLine)
    } else {
        None
    }
}

fn find_quiet_step(operator: &str, operands: &Vec<PdfObject>) -> (r: Option<TextStep>)
    ensures
        r.deep_view() == quiet_step(operator@, operands.deep_view()),
{
    if same(operator, "q") {
        Some(TextStep::Save)
    } else if same(operator, "Q") {
        Some(TextStep::Restore)
    } else if same(operator, "cm") {
        match find_six_numbers(operands) {
            Some(m) => Some(TextStep::Transform(m)),
            None => None,
        }
    } else if same(operator, "BT") {
        Some(TextStep::Begin)
    } else if same(operator, "Tf") {
        match number_at(operands, 1) {
            Some(size) => Some(TextStep::Size(size)),
            None => None,
        }
    } else if same(operator, "Tm") {
        match find_six_numbers(operands) {
            Some(m) => Some(TextStep::Place(m)),
            None => None,
        }
    } else if same(operator, "Td") {
        match (number_at(operands, 0), number_at(operands, 1)) {
            (Some(x), Some(y)) => Some(TextStep::Move(x, y)),
            _ => None,
        }
    } else if same(operator, "TD") {
        match (number_at(operands, 0), number_at(operands, 1)) {
            (Some(x), Some(y)) => Some(TextStep::MoveAndLead(x, y)),
            _ => None,
        }
    } else if same(operator, "TL") {
        match number_at(operands, 0) {
            Some(leading) => Some(TextStep::Lead(leading)),
            None => None,
        }
    } else if same(operator, "Ts") {
        match number_at(operands, 0) {
            Some(rise) => Some(TextStep::Rise(rise)),
            None => None,
        }
    } else if same(operator, "T*") || same(operator, "'") || same(operator, "\"") {
        Some(TextStep::NextLine)
    } else {
        None
    }
}

/// From which operand on an operation shows what it is given, if it shows anything.
pub open spec fn shows_from(operator: Seq<char>, count: nat) -> Option<int> {
    if operator == "Tj"@ || operator == "TJ"@ || operator == "'"@ {
        Some(0)
    } else if operator == "\""@ {
        Some(
            if count < 2 {
                count as int
            } else {
                2
            },
        )
    } else {
        None
    }
}

/// The font that is current after an operation.
pub open spec fn font_after(font: Option<Seq<u8>>, operation: PdfOperationView) -> Option<Seq<u8>> {
    if operation.operator == "Tf"@ {
        if operation.operands.len() > 0 {
            match operation.operands[0] {
                PdfObjectView::Name(name) => Some(name),
                _ => None,
            }
        } else {
            None
        }
    } else {
        font
    }
}

/// The text that an operation shows in the current font.
pub open spec fn shown_text(
    fonts: Seq<(Seq<u8>, Dictionary)>,
    document: Document,
    font: Option<Seq<u8>>,
    operation: PdfOperationView,
) -> Option<Seq<char>> {
    match (shows_from(operation.operator, operation.operands.len()), font) {
        (Some(from), Some(name)) => match encoding_for(fonts, document, name) {
            Some(encoding) => match collected(
                encoding,
                operation.operands.skip(from),
                operation.operands.len() - from,
            ) {
                Some(text) if fragment_text(text).len() > 0 => Some(fragment_text(text)),
                _ => None,
            },
            None => None,
        },
        _ => None,
    }
}

/// The steps of the first `n` operations, and the font that is current after them.
pub open spec fn steps_after(
    fonts: Seq<(Seq<u8>, Dictionary)>,
    document: Document,
    list: Seq<PdfOperationView>,
    n: int,
) -> (Seq<TextStepView>, Option<Seq<u8>>)
    decreases n,
{
    if n <= 0 {
        (seq![], None)
    } else {
        let (before, font) = steps_after(fonts, document, list, n - 1);
        let operation = list[n - 1];
        let moved = match quiet_step(operation.operator, operation.operands) {
            Some(step) => before.push(step),
            None => before,
        };
        let after = match shown_text(fonts, document, font, operation) {
            Some(text) => moved.push(TextStepView::Show { font: lossy_text(font->0), text }),
            None => moved,
        };
        (after, font_after(font, operation))
    }
}

fn show(
    document: &Document,
    fonts: &Vec<(Vec<u8>, Dictionary)>,
    encodings: &Vec<Option<Encoding<'_>>>,
    font: &Option<Vec<u8>>,
    operation: &PdfOperation,
) -> (r: Option<String>)
    requires
        encodings@.len() == fonts@.len(),
        forall|i: int|
            0 <= i < fonts@.len() ==> (#[trigger] encodings@[i]) == font_encoding(
                fonts@[i].1,
                *document,
                MAX_PAGE_CONTENT_SIZE,
            ),
    ensures
        r.deep_view() == shown_text(
            named_fonts(fonts@),
            *document,
            font.deep_view(),
            operation.deep_view(),
        ),
{
    let operator = operation.operator.as_str();
    let count = operation.operands.len();
    let from: usize = if same(operator, "Tj") || same(operator, "TJ") || same(operator, "'") {
        0
    } else if same(operator, "\"") {
        if count < 2 {
            count
        } else {
            2
        }
    } else {
        return None;
    };
    let name = match font {
        Some(name) => name,
        None => {
            return None;
        },
    };
    assert(font.deep_view() == Some(name@));
    let i = find_font(fonts, name);
    if i >= fonts.len() {
        return None;
    }
    match &encodings[i] {
        Some(encoding) => match collect_text(encoding, &operation.operands, from) {
            Some(text) => {
                let shown = normalize_fragment_text(text.as_str());
                if shown.as_str().is_empty() {
                    None
                } else {
                    Some(shown)
                }
            },
            None => None,
        },
        None => None,
    }
}

/// The steps in which operations show a page with given fonts.
fn follow(document: &Document, fonts: &Vec<(Vec<u8>, Dictionary)>, list: &Vec<PdfOperation>) -> (r:
    Vec<TextStep>)
    ensures
        r.deep_view() == steps_after(
            named_fonts(fonts@),
            *document,
            list.deep_view(),
            list.deep_view().len() as int,
        ).0,
{
    let mut encodings: Vec<Option<Encoding<'_>>> = Vec::new();
    for i in 0..fonts.len()
        invariant
            encodings@.len() == i,
            forall|j: int|
                0 <= j < i ==> (#[trigger] encodings@[j]) == font_encoding(
                    fonts@[j].1,
                    *document,
                    MAX_PAGE_CONTENT_SIZE,
                ),
    {
        encodings.push(encoding_of(&fonts[i].1, document, MAX_PAGE_CONTENT_SIZE));
    }
    let ghost views = list.deep_view();
    let ghost named = named_fonts(fonts@);
    let mut steps: Vec<TextStep> = Vec::new();
    let mut font: Option<Vec<u8>> = None;
    assert(steps.deep_view() =~= seq![]);
    for n in 0..list.len()
        invariant
            views == list.deep_view(),
            named == named_fonts(fonts@),
            encodings@.len() == fonts@.len(),
            forall|i: int|
                0 <= i < fonts@.len() ==> (#[trigger] encodings@[i]) == font_encoding(
                    fonts@[i].1,
                    *document,
                    MAX_PAGE_CONTENT_SIZE,
                ),
            (steps.deep_view(), font.deep_view()) == steps_after(named, *document, views, n as int),
    {
        let operation = &list[n];
        assert(views[n as int] == operation.deep_view());
        match find_quiet_step(operation.operator.as_str(), &operation.operands) {
            Some(step) => {
                push_item(&mut steps, step);
            },
            None => {},
        }
        match show(document, fonts, &encodings, &font, operation) {
            Some(text) => {
                match &font {
                    Some(name) => {
                        assert(font.deep_view() == Some(name@));
                        push_item(&mut steps, TextStep::Show { font: read_lossily(name), text });
                    },
                    None => {},
                }
            },
            None => {},
        }
        if same(operation.operator.as_str(), "Tf") {
            font = None;
            if operation.operands.len() > 0 {
                assert(views[n as int].operands[0] == operation.operands@[0].deep_view());
                match &operation.operands[0] {
                    PdfObject::Name(name) => {
                        font = Some(copy_bytes(name));
                    },
                    _ => {},
                }
            }
        }
    }
    steps
}

fn copy_bytes(bytes: &Vec<u8>) -> (r: Vec<u8>)
    ensures
        r@ == bytes@,
{
    let mut r: Vec<u8> = Vec::new();
    for i in 0..bytes.len()
        invariant
            r@ == bytes@.take(i as int),
    {
        r.push(bytes[i]);
        assert(bytes@.take(i + 1) =~= bytes@.take(i as int).push(bytes@[i as int]));
    }
    assert(bytes@.take(bytes@.len() as int) =~= bytes@);
    r
}

/// The steps in which a page is shown, or why they cannot be made out.
pub open spec fn steps_on(document: Document, page: (u32, u16)) -> Result<
    Seq<TextStepView>,
    Seq<char>,
> {
    match fonts_on(document, page) {
        Err(error) => Err("Could not read page fonts: "@ + error),
        Ok(fonts) => match content_on(document, page, MAX_PAGE_CONTENT_SIZE) {
            Err(error) => Err("Could not decode page content: "@ + error),
            Ok(content) => match operations_in(content) {
                Err(error) => Err("Could not parse page content operations: "@ + error),
                Ok(list) => Ok(
                    steps_after(fonts, document, operation_views(list), list.len() as int).0,
                ),
            },
        },
    }
}

/// Computes [`steps_on`].
pub fn find_steps(document: &Document, page: (u32, u16)) -> (r: Result<Vec<TextStep>, String>)
    ensures
        match (r, steps_on(*document, page)) {
            (Ok(a), Ok(b)) => a.deep_view() == b,
            (Err(a), Err(b)) => a@ == b,
            _ => false,
        },
{
    let fonts = match page_fonts(document, page) {
        Ok(fonts) => fonts,
        Err(error) => {
            return Err("Could not read page fonts: ".to_owned().concat(error.as_str()));
        },
    };
    let content = match page_content(document, page, MAX_PAGE_CONTENT_SIZE) {
        Ok(content) => content,
        Err(error) => {
            return Err("Could not decode page content: ".to_owned().concat(error.as_str()));
        },
    };
    match parse_content(&content) {
        Ok(list) => Ok(follow(document, &fonts, &take_operations_apart(&list))),
        Err(error) => Err(
            "Could not parse page content operations: ".to_owned().concat(error.as_str()),
        ),
    }
}

// ---------------------------------------------------------------------------
// Laws
// ---------------------------------------------------------------------------

/// The operators that place, move or show text are told apart by their letters.
proof fn lemma_operators()
    ensures
        "q"@.len() == 1 && "q"@[0] == 'q',
        "Q"@.len() == 1 && "Q"@[0] == 'Q',
        "cm"@.len() == 2 && "cm"@[0] == 'c' && "cm"@[1] == 'm',
        "BT"@.len() == 2 && "BT"@[0] == 'B' && "BT"@[1] == 'T',
        "Tf"@.len() == 2 && "Tf"@[0] == 'T' && "Tf"@[1] == 'f',
        "Tm"@.len() == 2 && "Tm"@[0] == 'T' && "Tm"@[1] == 'm',
        "Td"@.len() == 2 && "Td"@[0] == 'T' && "Td"@[1] == 'd',
        "TD"@.len() == 2 && "TD"@[0] == 'T' && "TD"@[1] == 'D',
        "TL"@.len() == 2 && "TL"@[0] == 'T' && "TL"@[1] == 'L',
        "Ts"@.len() == 2 && "Ts"@[0] == 'T' && "Ts"@[1] == 's',
        "T*"@.len() == 2 && "T*"@[0] == 'T' && "T*"@[1] == '*',
        "'"@.len() == 1 && "'"@[0] == '\'',
        "\""@.len() == 1 && "\""@[0] == '"',
        "Tj"@.len() == 2 && "Tj"@[0] == 'T' && "Tj"@[1] == 'j',
        "TJ"@.len() == 2 && "TJ"@[0] == 'T' && "TJ"@[1] == 'J',
{
    reveal_strlit("q");
    reveal_strlit("Q");
    reveal_strlit("cm");
    reveal_strlit("BT");
    reveal_strlit("Tf");
    reveal_strlit("Tm");
    reveal_strlit("Td");
    reveal_strlit("TD");
    reveal_strlit("TL");
    reveal_strlit("Ts");
    reveal_strlit("T*");
    reveal_strlit("'");
    reveal_strlit("\"");
    reveal_strlit("Tj");
    reveal_strlit("TJ");
}

/// Each operation that places text becomes the step that places it so, with exactly the numbers
/// that it is given: `Tm` and `cm` with six, `Td` and `TD` with two, `TL` and `Ts` with one, `Tf`
/// with the one behind the name.
pub proof fn law_operands_place_text(operands: Seq<PdfObjectView>, numbers: Seq<Measure>)
    requires
        numbers.len() == operands.len(),
        forall|i: int|
            0 <= i < operands.len() ==> number_of(#[trigger] operands[i]) == Some(numbers[i]),
    ensures
        operands.len() >= 6 ==> quiet_step("Tm"@, operands) == Some(
            TextStepView::Place(
                [numbers[0], numbers[1], numbers[2], numbers[3], numbers[4], numbers[5]],
            ),
        ),
        operands.len() >= 6 ==> quiet_step("cm"@, operands) == Some(
            TextStepView::Transform(
                [numbers[0], numbers[1], numbers[2], numbers[3], numbers[4], numbers[5]],
            ),
        ),
        operands.len() >= 2 ==> quiet_step("Td"@, operands) == Some(
            TextStepView::Move(numbers[0], numbers[1]),
        ),
        operands.len() >= 2 ==> quiet_step("TD"@, operands) == Some(
            TextStepView::MoveAndLead(numbers[0], numbers[1]),
        ),
        operands.len() >= 1 ==> quiet_step("TL"@, operands) == Some(TextStepView::Lead(numbers[0])),
        operands.len() >= 1 ==> quiet_step("Ts"@, operands) == Some(TextStepView::Rise(numbers[0])),
        operands.len() >= 2 ==> quiet_step("Tf"@, operands) == Some(TextStepView::Size(numbers[1])),
        operands.len() < 6 ==> quiet_step("Tm"@, operands) is None && quiet_step(
            "cm"@,
            operands,
        ) is None,
        operands.len() < 2 ==> quiet_step("Td"@, operands) is None && quiet_step(
            "TD"@,
            operands,
        ) is None,
{
    lemma_operators();
    assert forall|i: int| 0 <= i < operands.len() implies operand(operands, i) == Some(numbers[i]) by {
        assert(number_of(operands[i]) == Some(numbers[i]));
    }
}

/// The size that `Tf` sets stands behind the name of the font, whatever the name.
pub proof fn law_fonts_are_sized(name: Seq<u8>, size: PdfObjectView, m: Measure)
    requires
        number_of(size) == Some(m),
    ensures
        quiet_step("Tf"@, seq![PdfObjectView::Name(name), size]) == Some(TextStepView::Size(m)),
        font_after(
            None,
            PdfOperationView {
                operator: "Tf"@,
                operands: seq![PdfObjectView::Name(name), size],
            },
        ) == Some(name),
{
    lemma_operators();
    let operands = seq![PdfObjectView::Name(name), size];
    assert(operand(operands, 1) == Some(m));
}

/// Operations without operands of their own: the transformation of the page is kept and taken up
/// again, text begins at the origin, and goes to the next line.
pub proof fn law_bare_operators(operands: Seq<PdfObjectView>)
    ensures
        quiet_step("q"@, operands) == Some(TextStepView::Save),
        quiet_step("Q"@, operands) == Some(TextStepView::Restore),
        quiet_step("BT"@, operands) == Some(TextStepView::Begin),
        quiet_step("T*"@, operands) == Some(TextStepView::NextLine),
        quiet_step("'"@, operands) == Some(TextStepView::NextLine),
        quiet_step("\""@, operands) == Some(TextStepView::NextLine),
        quiet_step("Tj"@, operands) is None,
        quiet_step("TJ"@, operands) is None,
{
    lemma_operators();
}

/// What is shown of strings and numbers in a row: the strings as they are decoded, and a space for
/// each number below -100 between them. Nothing is shown where a string cannot be decoded.
pub proof fn law_shown_strings(
    encoding: Encoding<'static>,
    items: Seq<PdfObjectView>,
    n: int,
    bytes: Seq<u8>,
    number: i64,
)
    requires
        0 <= n < items.len(),
    ensures
        ({
            let before = collected(encoding, items, n);
            let after = collected(encoding, items, n + 1);
            &&& collected(encoding, items, 0) == Some(Seq::<char>::empty())
            &&& before is None ==> after is None
            &&& items[n] == PdfObjectView::Text(bytes) && before is Some && encoded_text(
                encoding,
                bytes,
            ) is Some ==> after == Some(before->0 + encoded_text(encoding, bytes)->0)
            &&& items[n] == PdfObjectView::Text(bytes) && encoded_text(encoding, bytes) is None
                ==> after is None
            &&& items[n] == PdfObjectView::Integer(number) && before is Some ==> after == Some(
                if number < -100 {
                    (before->0).push(' ')
                } else {
                    before->0
                },
            )
        }),
{
    reveal_strlit(" ");
    if collected(encoding, items, n) is Some {
        let text = collected(encoding, items, n)->0;
        assert(text + " "@ =~= text.push(' '));
    }
}

/// A text without characters of code zero is shown as its words with one space between them, and
/// those characters are never shown.
pub proof fn law_shown_text_holds_no_zeros(text: Seq<char>)
    ensures
        !without_zeros(text, text.len() as int).contains('\0'),
        !text.contains('\0') ==> fragment_text(text) == joined(words_of(text), seq![' ']),
{
    lemma_zeros(text, text.len() as int);
    assert(text.take(text.len() as int) =~= text);
}

proof fn lemma_zeros(text: Seq<char>, n: int)
    requires
        0 <= n <= text.len(),
    ensures
        !without_zeros(text, n).contains('\0'),
        !text.contains('\0') ==> without_zeros(text, n) == text.take(n),
    decreases n,
{
    if n > 0 {
        lemma_zeros(text, n - 1);
        assert(text.take(n) =~= text.take(n - 1).push(text[n - 1]));
        if text[n - 1] == '\0' {
            assert(text.contains(text[n - 1]));
        }
        let before = without_zeros(text, n - 1);
        let after = without_zeros(text, n);
        if text[n - 1] != '\0' && after.contains('\0') {
            let i = choose|i: int| 0 <= i < after.len() && after[i] == '\0';
            assert(i < before.len());
            assert(before[i] == '\0');
        }
    } else {
        assert(text.take(0) =~= seq![]);
    }
}

/// What each operation of a page adds to its steps: its move comes first, then the text that it
/// shows in the font that was set before it. Text is shown by `Tj`, `TJ`, `'` and `"`, and by `"`
/// only what stands behind its two numbers; nothing is shown in a font that the page does not have,
/// that has no encoding, or before any font was set.
pub proof fn law_operations_become_steps(
    fonts: Seq<(Seq<u8>, Dictionary)>,
    document: Document,
    list: Seq<PdfOperationView>,
    n: int,
    i: int,
)
    requires
        0 <= n < list.len(),
        0 <= i < fonts.len(),
        forall|j: int| 0 <= j < i ==> (#[trigger] fonts[j]).0 != fonts[i].0,
    ensures
        ({
            let (before, font) = steps_after(fonts, document, list, n);
            let (after, next_font) = steps_after(fonts, document, list, n + 1);
            let operation = list[n];
            let moved = match quiet_step(operation.operator, operation.operands) {
                Some(step) => before.push(step),
                None => before,
            };
            let strings = if operation.operator == "\""@ && operation.operands.len() >= 2 {
                operation.operands.skip(2)
            } else {
                operation.operands
            };
            let shows = operation.operator == "Tj"@ || operation.operator == "TJ"@
                || operation.operator == "'"@ || (operation.operator == "\""@
                && operation.operands.len() >= 2);
            let encoding = font_encoding(fonts[i].1, document, MAX_PAGE_CONTENT_SIZE);
            &&& !shows || font is None ==> after == moved
            &&& shows && font == Some(fonts[i].0) && encoding is None ==> after == moved
            &&& shows && font == Some(fonts[i].0) && encoding is Some ==> {
                let text = collected(encoding->0, strings, strings.len() as int);
                &&& text is None ==> after == moved
                &&& text is Some && fragment_text(text->0).len() == 0 ==> after == moved
                &&& text is Some && fragment_text(text->0).len() > 0 ==> after == moved.push(
                    TextStepView::Show {
                        font: lossy_text(fonts[i].0),
                        text: fragment_text(text->0),
                    },
                )
            }
            &&& operation.operator != "Tf"@ ==> next_font == font
            &&& operation.operator == "Tf"@ && operation.operands.len() == 0 ==> next_font is None
        }),
{
    lemma_operators();
    lemma_font_is_found(fonts, i, 0);
    let operation = list[n];
    assert(operation.operands.skip(0) =~= operation.operands);
    if operation.operator == "\""@ && operation.operands.len() < 2 {
        let none = operation.operands.skip(operation.operands.len() as int);
        assert(none.len() == 0);
        lemma_nothing_is_shown();
    }
}

proof fn lemma_nothing_is_shown()
    ensures
        fragment_text(Seq::<char>::empty()).len() == 0,
{
    let nothing = Seq::<char>::empty();
    assert(without_zeros(nothing, 0) =~= nothing);
    law_words_are_what_is_written(nothing);
    assert(word_starts(nothing, 0) == 0);
    assert(words_of(nothing).len() == 0);
    assert(joined(words_of(nothing), seq![' ']) =~= seq![]);
}

proof fn lemma_font_is_found(fonts: Seq<(Seq<u8>, Dictionary)>, i: int, from: int)
    requires
        0 <= from <= i < fonts.len(),
        forall|j: int| 0 <= j < i ==> (#[trigger] fonts[j]).0 != fonts[i].0,
    ensures
        font_index(fonts, fonts[i].0, from) == i,
    decreases i - from,
{
    if from < i {
        lemma_font_is_found(fonts, i, from + 1);
    }
}

} // verus!
