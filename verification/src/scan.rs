//! Searching a text: runs of a character class, trimming, prefixes and occurrences,
//! and comparison without regard to ASCII case.
use vstd::prelude::*;

use crate::text::{
    char_within, chars_of, is_ascii_lower, is_ascii_upper, is_space, lemma_filter_first, push_char,
    same, within,
    CharClass,
};

verus! {

// ---------------------------------------------------------------------------
// Runs of a character class
// ---------------------------------------------------------------------------

/// The end of the run of `class` characters that starts at `from`.
pub open spec fn run_end(s: Seq<char>, class: CharClass, from: int) -> int
    decreases s.len() - from,
{
    if 0 <= from < s.len() && within(class, s[from]) {
        run_end(s, class, from + 1)
    } else {
        from
    }
}

/// The start of the run of `class` characters that ends before `to`.
pub open spec fn run_start(s: Seq<char>, class: CharClass, to: int) -> int
    decreases to,
{
    if 0 < to <= s.len() && within(class, s[to - 1]) {
        run_start(s, class, to - 1)
    } else {
        to
    }
}

/// A run lies in its text, holds only its class, and is maximal.
pub proof fn lemma_run_end(s: Seq<char>, class: CharClass, from: int)
    requires
        0 <= from <= s.len(),
    ensures
        from <= run_end(s, class, from) <= s.len(),
        forall|i: int| from <= i < run_end(s, class, from) ==> within(class, #[trigger] s[i]),
        run_end(s, class, from) < s.len() ==> !within(class, s[run_end(s, class, from)]),
    decreases s.len() - from,
{
    if from < s.len() && within(class, s[from]) {
        lemma_run_end(s, class, from + 1);
    }
}

/// A run that ends at a position lies in its text and holds only its class.
pub proof fn lemma_run_start(s: Seq<char>, class: CharClass, to: int)
    requires
        0 <= to <= s.len(),
    ensures
        0 <= run_start(s, class, to) <= to,
        forall|i: int| run_start(s, class, to) <= i < to ==> within(class, #[trigger] s[i]),
        run_start(s, class, to) > 0 ==> !within(class, s[run_start(s, class, to) - 1]),
    decreases to,
{
    if 0 < to && within(class, s[to - 1]) {
        lemma_run_start(s, class, to - 1);
    }
}

/// The first end of a run is the only one.
pub proof fn lemma_run_end_is(s: Seq<char>, class: CharClass, from: int, end: int)
    requires
        0 <= from <= end <= s.len(),
        forall|i: int| from <= i < end ==> within(class, #[trigger] s[i]),
        end < s.len() ==> !within(class, s[end]),
    ensures
        run_end(s, class, from) == end,
    decreases end - from,
{
    if from < end {
        assert(within(class, s[from]));
        lemma_run_end_is(s, class, from + 1, end);
    }
}

/// The last start of a run is the only one.
pub proof fn lemma_run_start_is(s: Seq<char>, class: CharClass, to: int, start: int)
    requires
        0 <= start <= to <= s.len(),
        forall|i: int| start <= i < to ==> within(class, #[trigger] s[i]),
        start > 0 ==> !within(class, s[start - 1]),
    ensures
        run_start(s, class, to) == start,
    decreases to - start,
{
    if start < to {
        assert(within(class, s[to - 1]));
        lemma_run_start_is(s, class, to - 1, start);
    }
}

/// Computes [`run_end`].
pub fn find_run_end(v: &Vec<char>, class: CharClass, from: usize) -> (end: usize)
    requires
        from <= v@.len(),
    ensures
        end == run_end(v@, class, from as int),
        from <= end <= v@.len(),
{
    let mut i: usize = from;
    while i < v.len() && char_within(class, v[i])
        invariant
            from <= i <= v@.len(),
            run_end(v@, class, i as int) == run_end(v@, class, from as int),
        decreases v@.len() - i,
    {
        i += 1;
    }
    i
}

/// Computes [`run_start`].
pub fn find_run_start(v: &Vec<char>, class: CharClass, to: usize) -> (start: usize)
    requires
        to <= v@.len(),
    ensures
        start == run_start(v@, class, to as int),
        start <= to,
{
    let mut i: usize = to;
    while i > 0 && char_within(class, v[i - 1])
        invariant
            i <= to <= v@.len(),
            run_start(v@, class, i as int) == run_start(v@, class, to as int),
        decreases i,
    {
        i -= 1;
    }
    i
}

/// Whether every character of a text is of a class.
pub open spec fn all_within(s: Seq<char>, class: CharClass) -> bool {
    forall|i: int| 0 <= i < s.len() ==> within(class, #[trigger] s[i])
}

/// Whether some character of a text is of a class.
pub open spec fn any_within(s: Seq<char>, class: CharClass) -> bool {
    exists|i: int| 0 <= i < s.len() && within(class, #[trigger] s[i])
}

/// How many characters of a text are of a class.
pub open spec fn count_within(s: Seq<char>, class: CharClass) -> nat {
    count_within_first(s, class, s.len() as int)
}

/// How many of the first `n` characters of a text are of a class.
pub open spec fn count_within_first(s: Seq<char>, class: CharClass, n: int) -> nat
    decreases n,
{
    if n <= 0 {
        0
    } else {
        count_within_first(s, class, n - 1) + if within(class, s[n - 1]) {
            1nat
        } else {
            0nat
        }
    }
}

/// Computes [`all_within`].
pub fn all_chars(s: &str, class: CharClass) -> (r: bool)
    ensures
        r == all_within(s@, class),
{
    let v = chars_of(s);
    let end = find_run_end(&v, class, 0);
    proof {
        lemma_run_end(v@, class, 0);
    }
    end == v.len()
}

/// Computes [`any_within`].
pub fn any_char(s: &str, class: CharClass) -> (r: bool)
    ensures
        r == any_within(s@, class),
{
    let v = chars_of(s);
    for i in 0..v.len()
        invariant
            v@ == s@,
            forall|j: int| 0 <= j < i ==> !within(class, #[trigger] s@[j]),
    {
        if char_within(class, v[i]) {
            assert(within(class, s@[i as int]));
            return true;
        }
    }
    false
}

/// Computes [`count_within`].
pub fn count_chars(s: &str, class: CharClass) -> (n: usize)
    ensures
        n == count_within(s@, class),
{
    let v = chars_of(s);
    let mut n: usize = 0;
    for i in 0..v.len()
        invariant
            v@ == s@,
            n <= i,
            n == count_within_first(s@, class, i as int),
    {
        if char_within(class, v[i]) {
            n += 1;
        }
    }
    n
}

// ---------------------------------------------------------------------------
// Trimming
// ---------------------------------------------------------------------------

/// A text without the `class` characters at its start.
pub open spec fn stripped_start(s: Seq<char>, class: CharClass) -> Seq<char> {
    s.subrange(run_end(s, class, 0), s.len() as int)
}

/// A text without the `class` characters at its end.
pub open spec fn stripped_end(s: Seq<char>, class: CharClass) -> Seq<char> {
    s.subrange(0, run_start(s, class, s.len() as int))
}

/// A text without the `class` characters at either end.
pub open spec fn stripped(s: Seq<char>, class: CharClass) -> Seq<char> {
    let from = run_end(s, class, 0);
    let to = run_start(s, class, s.len() as int);
    s.subrange(
        from,
        if from <= to {
            to
        } else {
            from
        },
    )
}

/// A text without white space at either end.
pub open spec fn trimmed(s: Seq<char>) -> Seq<char> {
    stripped(s, CharClass::Space)
}

/// A text without white space at its start.
pub open spec fn start_trimmed(s: Seq<char>) -> Seq<char> {
    stripped_start(s, CharClass::Space)
}

/// A text without white space at its end.
pub open spec fn end_trimmed(s: Seq<char>) -> Seq<char> {
    stripped_end(s, CharClass::Space)
}

/// Whether a text is white space alone.
pub open spec fn blank(s: Seq<char>) -> bool {
    trimmed(s).len() == 0
}

/// Computes [`stripped_start`].
pub fn strip_start(s: &str, class: CharClass) -> (r: &str)
    ensures
        r@ == stripped_start(s@, class),
{
    let v = chars_of(s);
    let from = find_run_end(&v, class, 0);
    s.substring_char(from, v.len())
}

/// Computes [`stripped_end`].
pub fn strip_end(s: &str, class: CharClass) -> (r: &str)
    ensures
        r@ == stripped_end(s@, class),
{
    let v = chars_of(s);
    let to = find_run_start(&v, class, v.len());
    s.substring_char(0, to)
}

/// Computes [`stripped`].
pub fn strip(s: &str, class: CharClass) -> (r: &str)
    ensures
        r@ == stripped(s@, class),
{
    let v = chars_of(s);
    let from = find_run_end(&v, class, 0);
    let to = find_run_start(&v, class, v.len());
    if from <= to {
        s.substring_char(from, to)
    } else {
        s.substring_char(from, from)
    }
}

/// Computes [`trimmed`].
pub fn trim(s: &str) -> (r: &str)
    ensures
        r@ == trimmed(s@),
{
    strip(s, CharClass::Space)
}

/// Computes [`start_trimmed`].
pub fn trim_start(s: &str) -> (r: &str)
    ensures
        r@ == start_trimmed(s@),
{
    strip_start(s, CharClass::Space)
}

/// Computes [`end_trimmed`].
pub fn trim_end(s: &str) -> (r: &str)
    ensures
        r@ == end_trimmed(s@),
{
    strip_end(s, CharClass::Space)
}

/// Computes [`blank`].
pub fn is_blank(s: &str) -> (r: bool)
    ensures
        r == blank(s@),
{
    trim(s).is_empty()
}

/// A text with a character that is not white space is not blank.
pub proof fn lemma_filled(s: Seq<char>, i: int)
    requires
        0 <= i < s.len(),
        !within(CharClass::Space, s[i]),
    ensures
        !blank(s),
{
    lemma_run_end(s, CharClass::Space, 0);
    lemma_run_start(s, CharClass::Space, s.len() as int);
}

/// A text that is not blank has a character that is not white space.
pub proof fn lemma_filled_somewhere(s: Seq<char>) -> (i: int)
    requires
        !blank(s),
    ensures
        0 <= i < s.len(),
        !within(CharClass::Space, s[i]),
{
    lemma_run_end(s, CharClass::Space, 0);
    lemma_run_start(s, CharClass::Space, s.len() as int);
    run_end(s, CharClass::Space, 0)
}

// ---------------------------------------------------------------------------
// ASCII case
// ---------------------------------------------------------------------------

pub open spec fn upper_char(c: char) -> char {
    if is_ascii_lower(c) {
        ((c as u8) - 32) as u8 as char
    } else {
        c
    }
}

pub open spec fn lower_char(c: char) -> char {
    if is_ascii_upper(c) {
        ((c as u8) + 32) as u8 as char
    } else {
        c
    }
}

/// A text with its ASCII letters in upper case.
pub open spec fn uppercased(s: Seq<char>) -> Seq<char> {
    Seq::new(s.len(), |i: int| upper_char(s[i]))
}

/// A text with its ASCII letters in lower case.
pub open spec fn lowercased(s: Seq<char>) -> Seq<char> {
    Seq::new(s.len(), |i: int| lower_char(s[i]))
}

/// Whether two texts differ at most in the case of ASCII letters.
pub open spec fn same_ignoring_case(a: Seq<char>, b: Seq<char>) -> bool {
    uppercased(a) == uppercased(b)
}

/// Computes [`uppercased`].
pub fn to_upper(s: &str) -> (r: String)
    ensures
        r@ == uppercased(s@),
{
    let v = chars_of(s);
    let mut r = String::new();
    for i in 0..v.len()
        invariant
            v@ == s@,
            r@ == uppercased(s@).take(i as int),
    {
        let c = v[i];
        if 'a' <= c && c <= 'z' {
            push_char(&mut r, (c as u8 - 32) as char);
        } else {
            push_char(&mut r, c);
        }
        assert(uppercased(s@).take(i + 1) =~= uppercased(s@).take(i as int).push(
            upper_char(s@[i as int]),
        ));
    }
    assert(uppercased(s@).take(s@.len() as int) =~= uppercased(s@));
    r
}

/// Computes [`lowercased`].
pub fn to_lower(s: &str) -> (r: String)
    ensures
        r@ == lowercased(s@),
{
    let v = chars_of(s);
    let mut r = String::new();
    for i in 0..v.len()
        invariant
            v@ == s@,
            r@ == lowercased(s@).take(i as int),
    {
        let c = v[i];
        if 'A' <= c && c <= 'Z' {
            push_char(&mut r, (c as u8 + 32) as char);
        } else {
            push_char(&mut r, c);
        }
        assert(lowercased(s@).take(i + 1) =~= lowercased(s@).take(i as int).push(
            lower_char(s@[i as int]),
        ));
    }
    assert(lowercased(s@).take(s@.len() as int) =~= lowercased(s@));
    r
}

/// Computes [`same_ignoring_case`].
pub fn same_letters(a: &str, b: &str) -> (r: bool)
    ensures
        r == same_ignoring_case(a@, b@),
{
    same(to_upper(a).as_str(), to_upper(b).as_str())
}

// ---------------------------------------------------------------------------
// Prefixes, suffixes and occurrences
// ---------------------------------------------------------------------------

/// Whether `p` stands in `s` at position `i`.
pub open spec fn occurs_at(s: Seq<char>, p: Seq<char>, i: int) -> bool {
    0 <= i && i + p.len() <= s.len() && s.subrange(i, i + p.len()) == p
}

pub open spec fn has_prefix(s: Seq<char>, p: Seq<char>) -> bool {
    occurs_at(s, p, 0)
}

pub open spec fn has_suffix(s: Seq<char>, p: Seq<char>) -> bool {
    occurs_at(s, p, s.len() - p.len())
}

/// Whether `p` stands somewhere in `s`.
pub open spec fn has_infix(s: Seq<char>, p: Seq<char>) -> bool {
    exists|i: int| occurs_at(s, p, i)
}

/// A part of a text stands in it.
pub proof fn lemma_subrange_stands(s: Seq<char>, from: int, to: int)
    requires
        0 <= from <= to <= s.len(),
    ensures
        has_infix(s, s.subrange(from, to)),
{
    assert(occurs_at(s, s.subrange(from, to), from));
}

/// What stands in a part of a text stands in the text.
pub proof fn lemma_infix_of_infix(s: Seq<char>, part: Seq<char>, p: Seq<char>)
    requires
        has_infix(s, part),
        has_infix(part, p),
    ensures
        has_infix(s, p),
{
    let i = choose|i: int| occurs_at(s, part, i);
    let k = choose|k: int| occurs_at(part, p, k);
    assert(s.subrange(i + k, i + k + p.len()) =~= part.subrange(k, k + p.len()));
    assert(occurs_at(s, p, i + k));
}

/// A text without `class` characters at its ends stands in it.
pub proof fn lemma_stripped_stands(s: Seq<char>, class: CharClass)
    ensures
        has_infix(s, stripped(s, class)),
        has_infix(s, stripped_start(s, class)),
        has_infix(s, stripped_end(s, class)),
{
    lemma_run_end(s, class, 0);
    lemma_run_start(s, class, s.len() as int);
    let from = run_end(s, class, 0);
    let to = run_start(s, class, s.len() as int);
    lemma_subrange_stands(
        s,
        from,
        if from <= to {
            to
        } else {
            from
        },
    );
    lemma_subrange_stands(s, from, s.len() as int);
    lemma_subrange_stands(s, 0, to);
}

/// Where `p` first stands in `s` at or after `from`.
pub open spec fn occurrence_from(s: Seq<char>, p: Seq<char>, from: int) -> Option<int>
    decreases s.len() + 1 - from,
{
    if from < 0 || from + p.len() > s.len() {
        None
    } else if occurs_at(s, p, from) {
        Some(from)
    } else {
        occurrence_from(s, p, from + 1)
    }
}

/// Where `p` first stands in `s`.
pub open spec fn first_occurrence(s: Seq<char>, p: Seq<char>) -> Option<int> {
    occurrence_from(s, p, 0)
}

/// What follows `p` at the start of `s`.
pub open spec fn after_prefix(s: Seq<char>, p: Seq<char>) -> Option<Seq<char>> {
    if has_prefix(s, p) {
        Some(s.subrange(p.len() as int, s.len() as int))
    } else {
        None
    }
}

/// What follows `p` at the start of `s`, in whatever ASCII case `s` writes it.
pub open spec fn after_prefix_ignoring_case(s: Seq<char>, p: Seq<char>) -> Option<Seq<char>> {
    if has_prefix(uppercased(s), uppercased(p)) {
        Some(s.subrange(p.len() as int, s.len() as int))
    } else {
        None
    }
}

/// The first occurrence is an occurrence, and none stands before it.
pub proof fn lemma_occurrence_from(s: Seq<char>, p: Seq<char>, from: int)
    requires
        0 <= from,
    ensures
        occurrence_from(s, p, from) matches Some(i) ==> from <= i && occurs_at(s, p, i) && forall|
            j: int,
        |
            from <= j < i ==> !occurs_at(s, p, j),
        occurrence_from(s, p, from) is None ==> forall|j: int| from <= j ==> !occurs_at(s, p, j),
    decreases s.len() + 1 - from,
{
    if from + p.len() <= s.len() && !occurs_at(s, p, from) {
        lemma_occurrence_from(s, p, from + 1);
    }
}

fn stands_at(v: &Vec<char>, p: &Vec<char>, at: usize) -> (r: bool)
    requires
        at + p@.len() <= v@.len(),
    ensures
        r == occurs_at(v@, p@, at as int),
{
    let len = v.len();
    for k in 0..p.len()
        invariant
            len == v@.len(),
            at + p@.len() <= v@.len(),
            forall|j: int| 0 <= j < k ==> v@[at + j] == #[trigger] p@[j],
    {
        if v[at + k] != p[k] {
            assert(v@.subrange(at as int, at + p@.len())[k as int] != p@[k as int]);
            return false;
        }
    }
    assert(v@.subrange(at as int, at + p@.len()) =~= p@);
    true
}

/// Computes [`has_prefix`].
pub fn starts_with(s: &str, p: &str) -> (r: bool)
    ensures
        r == has_prefix(s@, p@),
{
    let v = chars_of(s);
    let q = chars_of(p);
    q.len() <= v.len() && stands_at(&v, &q, 0)
}

/// Computes [`has_suffix`].
pub fn ends_with(s: &str, p: &str) -> (r: bool)
    ensures
        r == has_suffix(s@, p@),
{
    let v = chars_of(s);
    let q = chars_of(p);
    q.len() <= v.len() && stands_at(&v, &q, v.len() - q.len())
}

/// Computes [`first_occurrence`].
pub fn find(s: &str, p: &str) -> (r: Option<usize>)
    ensures
        match r {
            Some(i) => first_occurrence(s@, p@) == Some(i as int) && i + p@.len() <= s@.len(),
            None => first_occurrence(s@, p@) is None,
        },
{
    let v = chars_of(s);
    let q = chars_of(p);
    let mut i: usize = 0;
    while i <= v.len() && q.len() <= v.len() - i
        invariant
            v@ == s@,
            q@ == p@,
            0 <= i <= v@.len() + 1,
            i <= v@.len() ==> occurrence_from(s@, p@, i as int) == first_occurrence(s@, p@),
            i > v@.len() ==> first_occurrence(s@, p@) is None,
        decreases v@.len() + 1 - i,
    {
        if stands_at(&v, &q, i) {
            return Some(i);
        }
        if i == v.len() {
            assert(occurrence_from(s@, p@, i + 1) is None);
            return None;
        }
        i += 1;
    }
    None
}

/// Computes [`has_infix`].
pub fn contains(s: &str, p: &str) -> (r: bool)
    ensures
        r == has_infix(s@, p@),
{
    proof {
        lemma_occurrence_from(s@, p@, 0);
    }
    find(s, p).is_some()
}

/// Computes [`after_prefix`].
pub fn strip_prefix<'a>(s: &'a str, p: &str) -> (r: Option<&'a str>)
    ensures
        r.deep_view() == after_prefix(s@, p@),
{
    if starts_with(s, p) {
        Some(s.substring_char(p.unicode_len(), s.unicode_len()))
    } else {
        None
    }
}

/// Computes [`after_prefix_ignoring_case`].
pub fn strip_prefix_ascii_case<'a>(text: &'a str, prefix: &str) -> (r: Option<&'a str>)
    ensures
        r.deep_view() == after_prefix_ignoring_case(text@, prefix@),
{
    if starts_with(to_upper(text).as_str(), to_upper(prefix).as_str()) {
        Some(text.substring_char(prefix.unicode_len(), text.unicode_len()))
    } else {
        None
    }
}

/// A text without any `p` at its start, however often it is repeated there.
pub open spec fn without_prefixes(s: Seq<char>, p: Seq<char>) -> Seq<char>
    decreases s.len(),
{
    if p.len() > 0 && has_prefix(s, p) {
        without_prefixes(s.subrange(p.len() as int, s.len() as int), p)
    } else {
        s
    }
}

/// Computes [`without_prefixes`].
pub fn strip_prefixes<'a>(s: &'a str, p: &str) -> (r: &'a str)
    ensures
        r@ == without_prefixes(s@, p@),
{
    let mut rest = s;
    while !p.is_empty() && starts_with(rest, p)
        invariant
            without_prefixes(rest@, p@) == without_prefixes(s@, p@),
        decreases rest@.len(),
    {
        rest = rest.substring_char(p.unicode_len(), rest.unicode_len());
    }
    rest
}

/// A text with every character that is not of a class replaced by a space.
pub open spec fn blanked_out(s: Seq<char>, class: CharClass) -> Seq<char> {
    Seq::new(
        s.len(),
        |i: int|
            if within(class, s[i]) {
                s[i]
            } else {
                ' '
            },
    )
}

/// Computes [`blanked_out`].
pub fn blank_out(s: &str, class: CharClass) -> (r: String)
    ensures
        r@ == blanked_out(s@, class),
{
    let v = chars_of(s);
    let mut r = String::new();
    for i in 0..v.len()
        invariant
            v@ == s@,
            r@ == blanked_out(s@, class).take(i as int),
    {
        let c = if char_within(class, v[i]) {
            v[i]
        } else {
            ' '
        };
        push_char(&mut r, c);
        assert(blanked_out(s@, class).take(i + 1) =~= blanked_out(s@, class).take(i as int).push(
            c,
        ));
    }
    assert(blanked_out(s@, class).take(s@.len() as int) =~= blanked_out(s@, class));
    r
}

/// Whether a text starts with a character.
pub open spec fn starts_with_char(s: Seq<char>, c: char) -> bool {
    s.len() > 0 && s[0] == c
}

/// Whether a text ends with a character.
pub open spec fn ends_with_char(s: Seq<char>, c: char) -> bool {
    s.len() > 0 && s[s.len() - 1] == c
}

/// The first character of a text.
pub fn first_char(s: &str) -> (r: Option<char>)
    ensures
        r == if s@.len() > 0 {
            Some(s@[0])
        } else {
            None
        },
{
    if s.is_empty() {
        None
    } else {
        Some(s.get_char(0))
    }
}

/// The last character of a text.
pub fn last_char(s: &str) -> (r: Option<char>)
    ensures
        r == if s@.len() > 0 {
            Some(s@[s@.len() - 1])
        } else {
            None
        },
{
    if s.is_empty() {
        None
    } else {
        Some(s.get_char(s.unicode_len() - 1))
    }
}

/// Computes [`starts_with_char`].
pub fn begins(s: &str, c: char) -> (r: bool)
    ensures
        r == starts_with_char(s@, c),
{
    first_char(s) == Some(c)
}

/// Computes [`ends_with_char`].
pub fn ends(s: &str, c: char) -> (r: bool)
    ensures
        r == ends_with_char(s@, c),
{
    last_char(s) == Some(c)
}

/// The first `n` characters of a text, or all of it.
pub fn first_chars(s: &str, n: usize) -> (r: &str)
    ensures
        r@ == s@.take(if n < s@.len() {
            n as int
        } else {
            s@.len() as int
        }),
{
    let len = s.unicode_len();
    if n < len {
        s.substring_char(0, n)
    } else {
        s.substring_char(0, len)
    }
}

// ---------------------------------------------------------------------------
// Laws
// ---------------------------------------------------------------------------

/// What is trimmed off a text is white space, and what is left neither starts nor ends with any.
pub proof fn law_trimming_takes_white_space_alone(s: Seq<char>)
    ensures
        exists|from: int, to: int|
            {
                &&& 0 <= from <= to <= s.len()
                &&& trimmed(s) == #[trigger] s.subrange(from, to)
                &&& forall|i: int| 0 <= i < s.len() && !(from <= i < to) ==> is_space(#[trigger] s[i])
            },
        trimmed(s).len() > 0 ==> !is_space(trimmed(s)[0]) && !is_space(trimmed(s).last()),
        exists|to: int|
            {
                &&& 0 <= to <= s.len()
                &&& end_trimmed(s) == #[trigger] s.subrange(0, to)
                &&& forall|i: int| to <= i < s.len() ==> is_space(#[trigger] s[i])
            },
        end_trimmed(s).len() > 0 ==> !is_space(end_trimmed(s).last()),
        exists|from: int|
            {
                &&& 0 <= from <= s.len()
                &&& start_trimmed(s) == #[trigger] s.subrange(from, s.len() as int)
                &&& forall|i: int| 0 <= i < from ==> is_space(#[trigger] s[i])
            },
        start_trimmed(s).len() > 0 ==> !is_space(start_trimmed(s)[0]),
{
    let n = s.len() as int;
    let from = run_end(s, CharClass::Space, 0);
    let back = run_start(s, CharClass::Space, n);
    lemma_run_end(s, CharClass::Space, 0);
    lemma_run_start(s, CharClass::Space, n);
    assert forall|i: int| 0 <= i < from || back <= i < n implies is_space(#[trigger] s[i]) by {
        assert(within(CharClass::Space, s[i]));
    }
    let to = if from <= back {
        back
    } else {
        from
    };
    assert(trimmed(s) == s.subrange(from, to));
    if from < n {
        assert(!within(CharClass::Space, s[from]));
        assert(back > from) by {
            if back <= from {
                assert(within(CharClass::Space, s[from]));
            }
        }
        assert(!within(CharClass::Space, s[back - 1]));
        assert(trimmed(s)[0] == s[from]);
        assert(trimmed(s).last() == s[back - 1]);
    }
    assert(end_trimmed(s) == s.subrange(0, back));
    if back > 0 {
        assert(!within(CharClass::Space, s[back - 1]));
    }
    assert(start_trimmed(s) == s.subrange(from, n));
}

/// Only ASCII letters change when the case of a text does, each into the same letter of the other
/// case.
pub proof fn law_case_changes_letters_alone(s: Seq<char>, i: int)
    requires
        0 <= i < s.len(),
    ensures
        lowercased(s).len() == s.len(),
        uppercased(s).len() == s.len(),
        'A' <= s[i] <= 'Z' ==> lowercased(s)[i] as int == s[i] as int + 32,
        !('A' <= s[i] <= 'Z') ==> lowercased(s)[i] == s[i],
        'a' <= s[i] <= 'z' ==> uppercased(s)[i] as int == s[i] as int - 32,
        !('a' <= s[i] <= 'z') ==> uppercased(s)[i] == s[i],
{
}

/// A text stands at the start, at the end or within another exactly where the other is made of it
/// and what stands around it.
pub proof fn law_parts_of_texts(before: Seq<char>, p: Seq<char>, after: Seq<char>)
    ensures
        has_infix(before + p + after, p),
        has_prefix(p + after, p),
        has_suffix(before + p, p),
        after_prefix(p + after, p) == Some(after),
{
    let s = before + p + after;
    let i = before.len() as int;
    assert(s.subrange(i, i + p.len()) =~= p);
    assert(occurs_at(s, p, i));
    assert((p + after).subrange(0, p.len() as int) =~= p);
    assert((p + after).subrange(p.len() as int, (p + after).len() as int) =~= after);
    assert((before + p).subrange(i, i + p.len()) =~= p);
}

/// Where a text is found within another, at its start or at its end, the other is made of it and
/// what stands around it.
pub proof fn law_found_parts(s: Seq<char>, p: Seq<char>)
    ensures
        has_infix(s, p) ==> exists|before: Seq<char>, after: Seq<char>|
            s == #[trigger] (before + p + after),
        has_prefix(s, p) ==> exists|after: Seq<char>| s == #[trigger] (p + after),
        has_suffix(s, p) ==> exists|before: Seq<char>| s == #[trigger] (before + p),
{
    let n = s.len() as int;
    if has_infix(s, p) {
        let i = choose|i: int| occurs_at(s, p, i);
        assert(s =~= s.subrange(0, i) + p + s.subrange(i + p.len(), n));
    }
    if has_prefix(s, p) {
        assert(s =~= p + s.subrange(p.len() as int, n));
    }
    if has_suffix(s, p) {
        assert(s =~= s.subrange(0, n - p.len()) + p);
    }
}

proof fn lemma_counted_within(s: Seq<char>, class: CharClass, n: int)
    requires
        0 <= n <= s.len(),
    ensures
        count_within_first(s, class, n) == s.take(n).filter(|c: char| within(class, c)).len(),
    decreases n,
{
    lemma_filter_first(s, |c: char| within(class, c), n);
    if n > 0 {
        lemma_counted_within(s, class, n - 1);
    }
}

/// The characters of a class are counted, each of them and no other.
pub proof fn law_characters_are_counted(s: Seq<char>, class: CharClass)
    ensures
        count_within(s, class) == s.filter(|c: char| within(class, c)).len(),
{
    lemma_counted_within(s, class, s.len() as int);
    assert(s.take(s.len() as int) =~= s);
}

/// What is stripped off a text is of the class, and what is left neither starts nor ends with it.
pub proof fn law_stripping_takes_a_class_alone(s: Seq<char>, class: CharClass)
    ensures
        ({
            let from = run_end(s, class, 0);
            let rest = stripped_start(s, class);
            &&& 0 <= from <= s.len()
            &&& forall|i: int| 0 <= i < from ==> within(class, #[trigger] s[i])
            &&& rest == s.skip(from)
            &&& rest.len() > 0 ==> !within(class, rest[0])
        }),
        ({
            let to = run_start(s, class, s.len() as int);
            let rest = stripped_end(s, class);
            &&& 0 <= to <= s.len()
            &&& forall|i: int| to <= i < s.len() ==> within(class, #[trigger] s[i])
            &&& rest == s.take(to)
            &&& rest.len() > 0 ==> !within(class, rest.last())
        }),
{
    lemma_run_reaches(s, class, 0);
    lemma_run_goes_back(s, class, s.len() as int);
}

proof fn lemma_run_reaches(s: Seq<char>, class: CharClass, from: int)
    requires
        0 <= from <= s.len(),
    ensures
        from <= run_end(s, class, from) <= s.len(),
        forall|i: int| from <= i < run_end(s, class, from) ==> within(class, #[trigger] s[i]),
        run_end(s, class, from) < s.len() ==> !within(class, s[run_end(s, class, from)]),
    decreases s.len() - from,
{
    if from < s.len() && within(class, s[from]) {
        lemma_run_reaches(s, class, from + 1);
    }
}

proof fn lemma_run_goes_back(s: Seq<char>, class: CharClass, to: int)
    requires
        0 <= to <= s.len(),
    ensures
        0 <= run_start(s, class, to) <= to,
        forall|i: int| run_start(s, class, to) <= i < to ==> within(class, #[trigger] s[i]),
        run_start(s, class, to) > 0 ==> !within(class, s[run_start(s, class, to) - 1]),
    decreases to,
{
    if 0 < to && within(class, s[to - 1]) {
        lemma_run_goes_back(s, class, to - 1);
    }
}

proof fn lemma_occurrence_is_first(s: Seq<char>, p: Seq<char>, from: int)
    requires
        0 <= from,
    ensures
        match occurrence_from(s, p, from) {
            Some(i) => from <= i && occurs_at(s, p, i) && forall|j: int|
                from <= j < i ==> !occurs_at(s, p, j),
            None => forall|j: int| from <= j ==> !occurs_at(s, p, j),
        },
    decreases s.len() + 1 - from,
{
    if from + p.len() <= s.len() && !occurs_at(s, p, from) {
        lemma_occurrence_is_first(s, p, from + 1);
    }
}

/// A text is found where it first stands, and not found only where it stands nowhere.
pub proof fn law_the_first_occurrence_is_found(s: Seq<char>, p: Seq<char>)
    ensures
        match first_occurrence(s, p) {
            Some(i) => occurs_at(s, p, i) && forall|j: int| 0 <= j < i ==> !occurs_at(s, p, j),
            None => !has_infix(s, p),
        },
{
    lemma_occurrence_is_first(s, p, 0);
}

/// What follows a text in front, in any case, is what is left of the whole; and a text goes from
/// the front as often as it stands there.
pub proof fn law_prefixes_are_taken_off(s: Seq<char>, p: Seq<char>)
    ensures
        has_prefix(uppercased(s), uppercased(p)) ==> after_prefix_ignoring_case(s, p) == Some(
            s.skip(p.len() as int),
        ),
        !has_prefix(uppercased(s), uppercased(p)) ==> after_prefix_ignoring_case(s, p) is None,
        p.len() > 0 ==> !has_prefix(without_prefixes(s, p), p),
        !has_prefix(s, p) ==> without_prefixes(s, p) == s,
        p.len() > 0 ==> without_prefixes(p + s, p) == without_prefixes(s, p),
    decreases s.len(),
{
    if has_prefix(uppercased(s), uppercased(p)) {
        assert(s.subrange(p.len() as int, s.len() as int) =~= s.skip(p.len() as int));
    }
    if p.len() > 0 && has_prefix(s, p) {
        law_prefixes_are_taken_off(s.subrange(p.len() as int, s.len() as int), p);
    }
    law_parts_of_texts(seq![], p, s);
    assert((p + s).subrange(p.len() as int, (p + s).len() as int) =~= s);
}

/// Blanking out keeps the characters of a class in place and puts a space for each other.
pub proof fn law_others_are_blanked_out(s: Seq<char>, class: CharClass, i: int)
    requires
        0 <= i < s.len(),
    ensures
        blanked_out(s, class).len() == s.len(),
        within(class, s[i]) ==> blanked_out(s, class)[i] == s[i],
        !within(class, s[i]) ==> blanked_out(s, class)[i] == ' ',
{
}

} // verus!
