//! Uploaded bytes as text.
use vstd::prelude::*;
use vstd::utf8::{decode_utf8, valid_utf8};

use crate::scan::{strip_start, stripped_start};
use crate::text::{push_char, CharClass};

verus! {

/// Calls `char::from_u32`, which gives the character of a code point, and none for a number
/// that is above the last code point or a surrogate.
#[verifier::external_body]
fn char_of(code: u32) -> (r: Option<char>)
    ensures
        r is Some <==> code < 0xd800 || 0xe000 <= code < 0x11_0000,
        r matches Some(c) ==> c == code as char,
{
    char::from_u32(code)
}

/// Calls `std::str::from_utf8`, which gives the text that bytes encode in UTF-8, and fails
/// where they do not.
#[verifier::external_body]
fn utf8_text(bytes: &[u8]) -> (r: Option<&str>)
    ensures
        r is Some <==> valid_utf8(bytes@),
        r matches Some(s) ==> s@ == decode_utf8(bytes@),
{
    std::str::from_utf8(bytes).ok()
}

/// Whether a code unit is the first half of a pair.
pub open spec fn leads_pair(unit: u16) -> bool {
    0xd800 <= unit < 0xdc00
}

/// Whether a code unit is the second half of a pair.
pub open spec fn ends_pair(unit: u16) -> bool {
    0xdc00 <= unit < 0xe000
}

/// The code point of a pair.
pub open spec fn pair_code(first: u16, second: u16) -> int {
    0x1_0000 + (first - 0xd800) * 0x400 + (second - 0xdc00)
}

/// The text that code units encode in UTF-16, from a position on.
pub open spec fn utf16_from(units: Seq<u16>, i: int) -> Option<Seq<char>>
    decreases units.len() - i,
{
    if i < 0 || i >= units.len() {
        Some(seq![])
    } else if leads_pair(units[i]) && i + 1 < units.len() && ends_pair(units[i + 1]) {
        match utf16_from(units, i + 2) {
            Some(rest) => Some(seq![pair_code(units[i], units[i + 1]) as char] + rest),
            None => None,
        }
    } else if leads_pair(units[i]) || ends_pair(units[i]) {
        None
    } else {
        match utf16_from(units, i + 1) {
            Some(rest) => Some(seq![units[i] as char] + rest),
            None => None,
        }
    }
}

/// A text with what follows it, where that is text.
pub open spec fn continued(before: Seq<char>, rest: Option<Seq<char>>) -> Option<Seq<char>> {
    match rest {
        Some(rest) => Some(before + rest),
        None => None,
    }
}

/// The text that code units encode in UTF-16, unless a half of a pair stands alone.
pub fn decode_utf16(units: &Vec<u16>) -> (r: Option<String>)
    ensures
        r.deep_view() == utf16_from(units@, 0),
{
    let count = units.len();
    let mut text = String::new();
    let mut i: usize = 0;
    assert(utf16_from(units@, 0) is Some ==> seq![] + utf16_from(units@, 0)->0 =~= utf16_from(
        units@,
        0,
    )->0);
    while i < count
        invariant
            count == units@.len(),
            i <= count,
            utf16_from(units@, 0) == continued(text@, utf16_from(units@, i as int)),
        decreases count - i,
    {
        let unit = units[i];
        let ghost before = text@;
        let ghost at = i as int;
        let mut code: u32 = unit as u32;
        if 0xd800 <= unit && unit < 0xdc00 && i < count - 1 && 0xdc00 <= units[i + 1] && units[i
            + 1] < 0xe000 {
            code = 0x1_0000 + (code - 0xd800) * 0x400 + (units[i + 1] as u32 - 0xdc00);
            i += 1;
        }
        match char_of(code) {
            Some(c) => {
                push_char(&mut text, c);
                i += 1;
                proof {
                    let rest = utf16_from(units@, i as int);
                    if rest is Some {
                        assert(before + (seq![c] + rest->0) =~= before.push(c) + rest->0);
                    }
                }
            },
            None => {
                return None;
            },
        }
    }
    assert(text@ + Seq::<char>::empty() =~= text@);
    Some(text)
}

/// The code units that bytes hold, the less significant byte of each first or second.
pub open spec fn units_of(bytes: Seq<u8>, little: bool) -> Seq<u16> {
    Seq::new(
        bytes.len() / 2,
        |i: int|
            if little {
                (bytes[2 * i] + bytes[2 * i + 1] * 256) as u16
            } else {
                (bytes[2 * i] * 256 + bytes[2 * i + 1]) as u16
            },
    )
}

fn read_units(bytes: &[u8], little: bool) -> (r: Vec<u16>)
    requires
        bytes@.len() >= 2,
        bytes@.len() % 2 == 0,
    ensures
        r@ == units_of(bytes@.skip(2), little),
{
    let count = bytes.len();
    let mut units: Vec<u16> = Vec::new();
    let mut i: usize = 2;
    let ghost all = units_of(bytes@.skip(2), little);
    while i < count
        invariant
            count == bytes@.len(),
            count % 2 == 0,
            i % 2 == 0,
            2 <= i <= count,
            all == units_of(bytes@.skip(2), little),
            units@.len() == (i - 2) / 2,
            units@ == all.take((i - 2) / 2),
        decreases count - i,
    {
        let unit: u16 = if little {
            bytes[i] as u16 + bytes[i + 1] as u16 * 256
        } else {
            bytes[i] as u16 * 256 + bytes[i + 1] as u16
        };
        units.push(unit);
        assert(all.take((i - 2) / 2 + 1) =~= all.take((i - 2) / 2).push(unit));
        i += 2;
    }
    assert(all.take(all.len() as int) =~= all);
    units
}

/// The mark that precedes text in UTF-16: whether the less significant byte comes first.
pub open spec fn byte_order(bytes: Seq<u8>) -> Option<bool> {
    if bytes.len() >= 2 && bytes[0] == 0xff && bytes[1] == 0xfe {
        Some(true)
    } else if bytes.len() >= 2 && bytes[0] == 0xfe && bytes[1] == 0xff {
        Some(false)
    } else {
        None
    }
}

/// The text that bytes encode: in UTF-16 behind a byte order mark, and in UTF-8 otherwise.
pub open spec fn text_of(bytes: Seq<u8>) -> Option<Seq<char>> {
    match byte_order(bytes) {
        Some(little) => if bytes.len() % 2 != 0 {
            None
        } else {
            utf16_from(units_of(bytes.skip(2), little), 0)
        },
        None => if valid_utf8(bytes) {
            Some(stripped_start(decode_utf8(bytes), CharClass::Is('\u{feff}')))
        } else {
            None
        },
    }
}

/// Computes [`text_of`].
pub fn decode(bytes: &[u8]) -> (r: Option<String>)
    ensures
        r.deep_view() == text_of(bytes@),
{
    let count = bytes.len();
    let marked = count >= 2 && ((bytes[0] == 0xff && bytes[1] == 0xfe) || (bytes[0] == 0xfe
        && bytes[1] == 0xff));
    if marked {
        if count % 2 != 0 {
            return None;
        }
        let units = read_units(bytes, bytes[0] == 0xff);
        return decode_utf16(&units);
    }
    match utf8_text(bytes) {
        Some(s) => Some(strip_start(s, CharClass::Is('\u{feff}')).to_owned()),
        None => None,
    }
}

// ---------------------------------------------------------------------------
// Laws
// ---------------------------------------------------------------------------

/// How a character is written in UTF-16: as one code unit, or as a pair of them from the first
/// beyond the basic plane on.
pub open spec fn written_units(c: char) -> Seq<u16> {
    let code = c as int;
    if code < 0x1_0000 {
        seq![code as u16]
    } else {
        seq![(0xd800 + (code - 0x1_0000) / 0x400) as u16, (0xdc00 + (code - 0x1_0000)
            % 0x400) as u16]
    }
}

/// How the characters of a text from `i` on are written in UTF-16.
pub open spec fn written_from(text: Seq<char>, i: int) -> Seq<u16>
    decreases text.len() - i,
{
    if i < 0 || i >= text.len() {
        seq![]
    } else {
        written_units(text[i]) + written_from(text, i + 1)
    }
}

proof fn lemma_code_points(c: char)
    ensures
        0 <= c as int <= 0x10_ffff,
        !(0xd800 <= c as int && (c as int) < 0xe000),
{
    assert(0 <= c as u32 <= 0x10_ffff);
}

proof fn lemma_read_back(units: Seq<u16>, at: int, text: Seq<char>, i: int)
    requires
        0 <= at <= units.len(),
        0 <= i <= text.len(),
        units.skip(at) == written_from(text, i),
    ensures
        utf16_from(units, at) == Some(text.skip(i)),
    decreases text.len() - i,
{
    if i == text.len() {
        assert(units.skip(at).len() == 0);
        assert(text.skip(i) =~= seq![]);
        assert(utf16_from(units, at)->0 =~= text.skip(i));
    } else {
        let c = text[i];
        let code = c as int;
        lemma_code_points(c);
        let own = written_units(c);
        let rest = written_from(text, i + 1);
        assert(units.skip(at) == own + rest);
        assert(units[at] == units.skip(at)[0]);
        assert(units[at] == own[0]);
        assert(text.skip(i) =~= seq![c] + text.skip(i + 1));
        if code < 0x1_0000 {
            assert(units.skip(at + 1) =~= rest) by {
                assert forall|k: int| 0 <= k < rest.len() implies units.skip(at + 1)[k]
                    == rest[k] by {
                    assert(units.skip(at)[k + 1] == units[at + 1 + k]);
                }
            }
            lemma_read_back(units, at + 1, text, i + 1);
            assert(own[0] == code);
            assert(units[at] == code);
            assert(units[at] as char == c);
        } else {
            assert(units[at + 1] == units.skip(at)[1]);
            assert(units[at + 1] == own[1]);
            assert(units.skip(at + 2) =~= rest) by {
                assert forall|k: int| 0 <= k < rest.len() implies units.skip(at + 2)[k]
                    == rest[k] by {
                    assert(units.skip(at)[k + 2] == units[at + 2 + k]);
                }
            }
            lemma_read_back(units, at + 2, text, i + 1);
            let over = code - 0x1_0000;
            assert(0 <= over < 0x10_0000);
            assert(over / 0x400 < 0x400);
            assert(over == (over / 0x400) * 0x400 + over % 0x400);
            assert(pair_code(units[at], units[at + 1]) == code);
            assert(pair_code(units[at], units[at + 1]) as char == c);
        }
    }
}

/// A text that is written in UTF-16 is read back as it was.
pub proof fn law_written_text_is_read_back(text: Seq<char>)
    ensures
        utf16_from(written_from(text, 0), 0) == Some(text),
{
    let units = written_from(text, 0);
    assert(units.skip(0) =~= units);
    lemma_read_back(units, 0, text, 0);
    assert(text.skip(0) =~= text);
}

/// A half of a pair that stands alone is no text.
pub proof fn law_lone_halves_are_no_text(units: Seq<u16>, i: int)
    requires
        0 <= i < units.len(),
        0xdc00 <= units[i] < 0xe000 || (0xd800 <= units[i] < 0xdc00 && !(i + 1 < units.len()
            && 0xdc00 <= units[i + 1] < 0xe000)),
    ensures
        utf16_from(units, i) is None,
{
}

/// Bytes behind FF FE hold the less significant byte of each unit first, those behind FE FF the
/// other; an odd number of bytes is no text. All others are UTF-8, without the marks in front.
pub proof fn law_marks_tell_the_encoding(bytes: Seq<u8>)
    ensures
        ({
            let little = bytes.len() >= 2 && bytes[0] == 0xff && bytes[1] == 0xfe;
            let big = bytes.len() >= 2 && bytes[0] == 0xfe && bytes[1] == 0xff;
            &&& (little || big) && bytes.len() % 2 == 1 ==> text_of(bytes) is None
            &&& little && bytes.len() % 2 == 0 ==> text_of(bytes) == utf16_from(
                Seq::new(
                    (bytes.len() / 2 - 1) as nat,
                    |i: int| (bytes[2 * i + 2] + 256 * bytes[2 * i + 3]) as u16,
                ),
                0,
            )
            &&& big && bytes.len() % 2 == 0 ==> text_of(bytes) == utf16_from(
                Seq::new(
                    (bytes.len() / 2 - 1) as nat,
                    |i: int| (256 * bytes[2 * i + 2] + bytes[2 * i + 3]) as u16,
                ),
                0,
            )
            &&& !little && !big ==> (text_of(bytes) is Some <==> valid_utf8(bytes))
            &&& !little && !big && valid_utf8(bytes) ==> text_of(bytes) == Some(
                stripped_start(decode_utf8(bytes), CharClass::Is('\u{feff}')),
            )
        }),
{
    if bytes.len() >= 2 && bytes.len() % 2 == 0 {
        assert(units_of(bytes.skip(2), true) =~= Seq::new(
            (bytes.len() / 2 - 1) as nat,
            |i: int| (bytes[2 * i + 2] + 256 * bytes[2 * i + 3]) as u16,
        ));
        assert(units_of(bytes.skip(2), false) =~= Seq::new(
            (bytes.len() / 2 - 1) as nat,
            |i: int| (256 * bytes[2 * i + 2] + bytes[2 * i + 3]) as u16,
        ));
    }
}

} // verus!
