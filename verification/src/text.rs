//! Text as a sequence of characters: the vocabulary in which every other module
//! states its contracts, and the executable functions that compute it.
//!
//! Positions and lengths count characters. The only place where the encoding shows
//! is [`byte_len`], the length of a text in UTF-8.
use vstd::prelude::*;
use vstd::utf8::{encode_utf8, encode_utf8_decode_utf8};

verus! {

// ---------------------------------------------------------------------------
// Character classes
// ---------------------------------------------------------------------------

/// Whether `char::is_alphabetic` holds of a character.
pub uninterp spec fn alphabetic(c: char) -> bool;

/// Whether `char::is_alphanumeric` holds of a character.
pub uninterp spec fn alphanumeric(c: char) -> bool;

/// Whether `char::is_uppercase` holds of a character.
pub uninterp spec fn uppercase(c: char) -> bool;

/// Whether `char::is_lowercase` holds of a character.
pub uninterp spec fn lowercase(c: char) -> bool;

/// Calls `char::is_alphabetic`, which looks the character up in the Unicode tables. Within ASCII
/// it holds of ASCII letters and of nothing else.
#[verifier::external_body]
fn char_alphabetic(c: char) -> (r: bool)
    ensures
        r == alphabetic(c),
        c <= '\u{7f}' ==> r == is_ascii_letter(c),
{
    c.is_alphabetic()
}

/// Calls `char::is_alphanumeric`, which looks the character up in the Unicode tables. Within ASCII
/// it holds of ASCII letters and digits and of nothing else.
#[verifier::external_body]
fn char_alphanumeric(c: char) -> (r: bool)
    ensures
        r == alphanumeric(c),
        c <= '\u{7f}' ==> r == (is_ascii_letter(c) || is_digit(c)),
{
    c.is_alphanumeric()
}

/// Calls `char::is_uppercase`, which looks the character up in the Unicode tables. Within ASCII
/// it holds of `A` to `Z` and of nothing else.
#[verifier::external_body]
fn char_uppercase(c: char) -> (r: bool)
    ensures
        r == uppercase(c),
        c <= '\u{7f}' ==> r == is_ascii_upper(c),
{
    c.is_uppercase()
}

/// Calls `char::is_lowercase`, which looks the character up in the Unicode tables. Within ASCII
/// it holds of `a` to `z` and of nothing else.
#[verifier::external_body]
fn char_lowercase(c: char) -> (r: bool)
    ensures
        r == lowercase(c),
        c <= '\u{7f}' ==> r == is_ascii_lower(c),
{
    c.is_lowercase()
}

/// The sets of characters that the transcript grammar speaks of.
#[derive(Clone, Copy)]
pub enum CharClass {
    /// One character.
    Is(char),
    /// Every character but one.
    IsNot(char),
    /// The Unicode `White_Space` characters.
    Space,
    NotSpace,
    /// `0` to `9`.
    Digit,
    NotDigit,
    AsciiLetter,
    AsciiLowercase,
    Alphabetic,
    Alphanumeric,
    NotAlphanumeric,
    AlphanumericOrSpace,
    Uppercase,
    Lowercase,
    /// Alphabetic characters that are uppercase.
    UppercaseLetter,
    /// Alphabetic characters that are not uppercase.
    OtherLetter,
    /// Solid blocks that print over a redacted word.
    RedactionBlock,
    /// Letters and signs typed in place of a redacted word.
    CrossOut,
    /// Solid blocks and cross-outs.
    RedactionFill,
    /// What a personal name is written with.
    NameCharacter,
    /// What an examiner's heading is written with.
    HeadingCharacter,
    /// What a generic speaker label is written with.
    LabelCharacter,
    /// Punctuation around a page and line citation.
    CitationEdge,
    /// Punctuation that closes up with the word before it.
    ClosingPunctuation,
}

pub open spec fn is_space(c: char) -> bool {
    ||| '\u{9}' <= c <= '\u{d}'
    ||| c == ' '
    ||| c == '\u{85}'
    ||| c == '\u{a0}'
    ||| c == '\u{1680}'
    ||| '\u{2000}' <= c <= '\u{200a}'
    ||| c == '\u{2028}'
    ||| c == '\u{2029}'
    ||| c == '\u{202f}'
    ||| c == '\u{205f}'
    ||| c == '\u{3000}'
}

pub open spec fn is_digit(c: char) -> bool {
    '0' <= c <= '9'
}

pub open spec fn is_ascii_upper(c: char) -> bool {
    'A' <= c <= 'Z'
}

pub open spec fn is_ascii_lower(c: char) -> bool {
    'a' <= c <= 'z'
}

pub open spec fn is_ascii_letter(c: char) -> bool {
    is_ascii_upper(c) || is_ascii_lower(c)
}

/// Whether a character is alphabetic, as `char::is_alphabetic` decides it.
pub open spec fn is_alphabetic(c: char) -> bool {
    if c <= '\u{7f}' {
        is_ascii_letter(c)
    } else {
        alphabetic(c)
    }
}

/// Whether a character is alphanumeric, as `char::is_alphanumeric` decides it.
pub open spec fn is_alphanumeric(c: char) -> bool {
    if c <= '\u{7f}' {
        is_ascii_letter(c) || is_digit(c)
    } else {
        alphanumeric(c)
    }
}

/// Whether a character is uppercase, as `char::is_uppercase` decides it.
pub open spec fn is_uppercase(c: char) -> bool {
    if c <= '\u{7f}' {
        is_ascii_upper(c)
    } else {
        uppercase(c)
    }
}

/// Whether a character is lowercase, as `char::is_lowercase` decides it.
pub open spec fn is_lowercase(c: char) -> bool {
    if c <= '\u{7f}' {
        is_ascii_lower(c)
    } else {
        lowercase(c)
    }
}

pub open spec fn is_redaction_block(c: char) -> bool {
    c == '█' || c == '■' || c == '▇'
}

pub open spec fn is_cross_out(c: char) -> bool {
    c == 'X' || c == 'x' || c == '*' || c == '_'
}

pub open spec fn within(class: CharClass, c: char) -> bool {
    match class {
        CharClass::Is(x) => c == x,
        CharClass::IsNot(x) => c != x,
        CharClass::Space => is_space(c),
        CharClass::NotSpace => !is_space(c),
        CharClass::Digit => is_digit(c),
        CharClass::NotDigit => !is_digit(c),
        CharClass::AsciiLetter => is_ascii_letter(c),
        CharClass::AsciiLowercase => is_ascii_lower(c),
        CharClass::Alphabetic => is_alphabetic(c),
        CharClass::Alphanumeric => is_alphanumeric(c),
        CharClass::NotAlphanumeric => !is_alphanumeric(c),
        CharClass::AlphanumericOrSpace => is_alphanumeric(c) || is_space(c),
        CharClass::Uppercase => is_uppercase(c),
        CharClass::Lowercase => is_lowercase(c),
        CharClass::UppercaseLetter => is_alphabetic(c) && is_uppercase(c),
        CharClass::OtherLetter => is_alphabetic(c) && !is_uppercase(c),
        CharClass::RedactionBlock => is_redaction_block(c),
        CharClass::CrossOut => is_cross_out(c),
        CharClass::RedactionFill => is_redaction_block(c) || is_cross_out(c),
        CharClass::NameCharacter => {
            is_alphabetic(c) || is_space(c) || c == '.' || c == '\'' || c == '’' || c == '-'
        },
        CharClass::HeadingCharacter => {
            is_ascii_letter(c) || is_digit(c) || is_space(c) || c == '.' || c == '\'' || c == '-'
        },
        CharClass::LabelCharacter => {
            is_alphanumeric(c) || is_space(c) || c == '.' || c == '-' || c == '\'' || c == '[' || c
                == ']' || c == '_' || c == '#'
        },
        CharClass::CitationEdge => {
            c == ',' || c == ';' || c == '(' || c == ')' || c == '[' || c == ']' || c == '.' || c
                == ':'
        },
        CharClass::ClosingPunctuation => {
            c == '.' || c == ',' || c == ';' || c == ':' || c == '?' || c == '!' || c == ')' || c
                == ']' || c == '}'
        },
    }
}

/// Whether a character is white space, as `char::is_whitespace` decides it.
pub fn space(c: char) -> (r: bool)
    ensures
        r == is_space(c),
{
    ('\u{9}' <= c && c <= '\u{d}') || c == ' ' || c == '\u{85}' || c == '\u{a0}' || c == '\u{1680}'
        || ('\u{2000}' <= c && c <= '\u{200a}') || c == '\u{2028}' || c == '\u{2029}' || c
        == '\u{202f}' || c == '\u{205f}' || c == '\u{3000}'
}

fn digit(c: char) -> (r: bool)
    ensures
        r == is_digit(c),
{
    '0' <= c && c <= '9'
}

fn ascii_letter(c: char) -> (r: bool)
    ensures
        r == is_ascii_letter(c),
{
    ('A' <= c && c <= 'Z') || ('a' <= c && c <= 'z')
}

fn redaction_block(c: char) -> (r: bool)
    ensures
        r == is_redaction_block(c),
{
    c == '█' || c == '■' || c == '▇'
}

fn cross_out(c: char) -> (r: bool)
    ensures
        r == is_cross_out(c),
{
    c == 'X' || c == 'x' || c == '*' || c == '_'
}

/// Decides membership in a character class.
pub fn char_within(class: CharClass, c: char) -> (r: bool)
    ensures
        r == within(class, c),
{
    match class {
        CharClass::Is(x) => c == x,
        CharClass::IsNot(x) => c != x,
        CharClass::Space => space(c),
        CharClass::NotSpace => !space(c),
        CharClass::Digit => digit(c),
        CharClass::NotDigit => !digit(c),
        CharClass::AsciiLetter => ascii_letter(c),
        CharClass::AsciiLowercase => 'a' <= c && c <= 'z',
        CharClass::Alphabetic => char_alphabetic(c),
        CharClass::Alphanumeric => char_alphanumeric(c),
        CharClass::NotAlphanumeric => !char_alphanumeric(c),
        CharClass::AlphanumericOrSpace => char_alphanumeric(c) || space(c),
        CharClass::Uppercase => char_uppercase(c),
        CharClass::Lowercase => char_lowercase(c),
        CharClass::UppercaseLetter => char_alphabetic(c) && char_uppercase(c),
        CharClass::OtherLetter => char_alphabetic(c) && !char_uppercase(c),
        CharClass::RedactionBlock => redaction_block(c),
        CharClass::CrossOut => cross_out(c),
        CharClass::RedactionFill => redaction_block(c) || cross_out(c),
        CharClass::NameCharacter => {
            char_alphabetic(c) || space(c) || c == '.' || c == '\'' || c == '’' || c == '-'
        },
        CharClass::HeadingCharacter => {
            ascii_letter(c) || digit(c) || space(c) || c == '.' || c == '\'' || c == '-'
        },
        CharClass::LabelCharacter => {
            char_alphanumeric(c) || space(c) || c == '.' || c == '-' || c == '\'' || c == '[' || c
                == ']' || c == '_' || c == '#'
        },
        CharClass::CitationEdge => {
            c == ',' || c == ';' || c == '(' || c == ')' || c == '[' || c == ']' || c == '.' || c
                == ':'
        },
        CharClass::ClosingPunctuation => {
            c == '.' || c == ',' || c == ';' || c == ':' || c == '?' || c == '!' || c == ')' || c
                == ']' || c == '}'
        },
    }
}

// ---------------------------------------------------------------------------
// Strings and vectors of characters
// ---------------------------------------------------------------------------

/// The characters of a string.
pub fn chars_of(s: &str) -> (v: Vec<char>)
    ensures
        v@ == s@,
{
    let mut v: Vec<char> = Vec::new();
    for c in it: s.chars()
        invariant
            it.seq() == s@,
            v@ == s@.take(it.index()),
    {
        v.push(c);
    }
    v
}

/// Calls `String::push`, which appends one character.
#[verifier::external_body]
pub(crate) fn push_char(s: &mut String, c: char)
    ensures
        final(s)@ == old(s)@.push(c),
{
    s.push(c)
}

/// The string made of the characters from `from` up to `to`.
pub fn slice_to_string(v: &Vec<char>, from: usize, to: usize) -> (s: String)
    requires
        from <= to <= v@.len(),
    ensures
        s@ == v@.subrange(from as int, to as int),
{
    let mut s = String::new();
    for i in from..to
        invariant
            from <= to <= v@.len(),
            s@ == v@.subrange(from as int, i as int),
    {
        push_char(&mut s, v[i]);
    }
    s
}

/// Compares two texts.
pub fn same(a: &str, b: &str) -> (r: bool)
    ensures
        r == (a@ == b@),
{
    let x = a.as_bytes();
    let y = b.as_bytes();
    proof {
        encode_utf8_decode_utf8(a@);
        encode_utf8_decode_utf8(b@);
    }
    if x.len() != y.len() {
        return false;
    }
    for i in 0..x.len()
        invariant
            x@ == encode_utf8(a@),
            y@ == encode_utf8(b@),
            x@.len() == y@.len(),
            forall|j: int| 0 <= j < i ==> x@[j] == y@[j],
    {
        if x[i] != y[i] {
            return false;
        }
    }
    assert(x@ =~= y@);
    true
}

/// Compares two optional texts.
pub fn same_option(a: &Option<String>, b: &Option<String>) -> (r: bool)
    ensures
        r == (a.deep_view() == b.deep_view()),
{
    match (a, b) {
        (Some(x), Some(y)) => same(x.as_str(), y.as_str()),
        (None, None) => true,
        _ => false,
    }
}

/// A copy of an optional text.
pub fn clone_option(a: &Option<String>) -> (r: Option<String>)
    ensures
        r.deep_view() == a.deep_view(),
{
    match a {
        Some(x) => Some(x.clone()),
        None => None,
    }
}

/// A copy of a list of texts.
pub fn clone_list(v: &Vec<String>) -> (r: Vec<String>)
    ensures
        r.deep_view() == v.deep_view(),
{
    let mut r: Vec<String> = Vec::new();
    for i in 0..v.len()
        invariant
            r.deep_view() == v.deep_view().take(i as int),
    {
        push_item(&mut r, v[i].clone());
        assert(v.deep_view().take(i + 1) =~= v.deep_view().take(i as int).push(v@[i as int]@));
    }
    assert(v.deep_view().take(v@.len() as int) =~= v.deep_view());
    r
}

/// Appends an item to a list.
pub fn push_item<T: DeepView>(v: &mut Vec<T>, item: T)
    ensures
        final(v)@ == old(v)@.push(item),
        final(v).deep_view() == old(v).deep_view().push(item.deep_view()),
{
    v.push(item);
    assert(v.deep_view() =~= old(v).deep_view().push(item.deep_view()));
}

/// The number of bytes that a text takes in UTF-8.
pub open spec fn byte_len(s: Seq<char>) -> nat {
    encode_utf8(s).len()
}

/// Computes [`byte_len`].
pub fn len_bytes(s: &str) -> (n: usize)
    ensures
        n == byte_len(s@),
{
    s.as_bytes().len()
}

// ---------------------------------------------------------------------------
// Lists
// ---------------------------------------------------------------------------

/// The first `n` items of a list that meet a condition are those among the first `n - 1`, and the
/// last one where it does.
pub proof fn lemma_filter_first<A>(list: Seq<A>, condition: spec_fn(A) -> bool, n: int)
    requires
        0 <= n <= list.len(),
    ensures
        n == 0 ==> list.take(n).filter(condition) == Seq::<A>::empty(),
        n > 0 ==> list.take(n).filter(condition) == if condition(list[n - 1]) {
            list.take(n - 1).filter(condition).push(list[n - 1])
        } else {
            list.take(n - 1).filter(condition)
        },
        list.take(list.len() as int) == list,
{
    reveal(Seq::filter);
    if n > 0 {
        assert(list.take(n).drop_last() =~= list.take(n - 1));
        assert(list.take(n).last() == list[n - 1]);
    }
    assert(list.take(list.len() as int) =~= list);
}

// ---------------------------------------------------------------------------
// Laws
// ---------------------------------------------------------------------------

/// The ASCII characters of each class.
pub proof fn law_ascii_classes(c: char)
    requires
        c <= '\u{7f}',
    ensures
        ({
            let upper = 'A' <= c && c <= 'Z';
            let lower = 'a' <= c && c <= 'z';
            let digit = '0' <= c && c <= '9';
            let space = c == ' ' || ('\u{9}' <= c && c <= '\u{d}');
            &&& within(CharClass::Space, c) <==> space
            &&& within(CharClass::NotSpace, c) <==> !space
            &&& within(CharClass::Digit, c) <==> digit
            &&& within(CharClass::NotDigit, c) <==> !digit
            &&& within(CharClass::AsciiLetter, c) <==> upper || lower
            &&& within(CharClass::AsciiLowercase, c) <==> lower
            &&& within(CharClass::Alphabetic, c) <==> upper || lower
            &&& within(CharClass::Alphanumeric, c) <==> upper || lower || digit
            &&& within(CharClass::NotAlphanumeric, c) <==> !(upper || lower || digit)
            &&& within(CharClass::AlphanumericOrSpace, c) <==> upper || lower || digit || space
            &&& within(CharClass::Uppercase, c) <==> upper
            &&& within(CharClass::Lowercase, c) <==> lower
            &&& within(CharClass::UppercaseLetter, c) <==> upper
            &&& within(CharClass::OtherLetter, c) <==> lower
            &&& !within(CharClass::RedactionBlock, c)
            &&& within(CharClass::CrossOut, c) <==> c == 'X' || c == 'x' || c == '*' || c == '_'
            &&& within(CharClass::RedactionFill, c) <==> within(CharClass::CrossOut, c)
            &&& within(CharClass::NameCharacter, c) <==> upper || lower || space || c == '.' || c
                == '\'' || c == '-'
            &&& within(CharClass::HeadingCharacter, c) <==> upper || lower || digit || space || c
                == '.' || c == '\'' || c == '-'
            &&& within(CharClass::LabelCharacter, c) <==> upper || lower || digit || space || c
                == '.' || c == '-' || c == '\'' || c == '[' || c == ']' || c == '_' || c == '#'
            &&& within(CharClass::CitationEdge, c) <==> c == ',' || c == ';' || c == '(' || c == ')'
                || c == '[' || c == ']' || c == '.' || c == ':'
            &&& within(CharClass::ClosingPunctuation, c) <==> c == '.' || c == ',' || c == ';' || c
                == ':' || c == '?' || c == '!' || c == ')' || c == ']' || c == '}'
        }),
{
}

/// What holds of every character: a class and its opposite share none, white space and digits are
/// those that are known, and three blocks stand for redactions.
pub proof fn law_classes_and_opposites(c: char, x: char)
    ensures
        within(CharClass::Is(x), c) <==> c == x,
        within(CharClass::IsNot(x), c) <==> c != x,
        within(CharClass::Space, c) <==> !within(CharClass::NotSpace, c),
        within(CharClass::Digit, c) <==> !within(CharClass::NotDigit, c),
        within(CharClass::Alphanumeric, c) <==> !within(CharClass::NotAlphanumeric, c),
        within(CharClass::Digit, c) <==> '0' <= c && c <= '9',
        within(CharClass::RedactionBlock, c) <==> c == '█' || c == '■' || c == '▇',
        within(CharClass::Space, c) && c > '\u{7f}' <==> c == '\u{85}' || c == '\u{a0}' || c
            == '\u{1680}' || ('\u{2000}' <= c && c <= '\u{200a}') || c == '\u{2028}' || c
            == '\u{2029}' || c == '\u{202f}' || c == '\u{205f}' || c == '\u{3000}',
{
}

} // verus!
