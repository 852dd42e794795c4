//! Taking text apart and putting it together: lines, words, fields and joins.
use vstd::prelude::*;

use crate::scan::{find_run_end, lemma_run_end, run_end};
use crate::text::{
    chars_of, is_space, push_char, push_item, slice_to_string, within, CharClass,
};

verus! {

/// Where a character first stands at or after `from`, or the length of the text.
pub open spec fn index_from(s: Seq<char>, c: char, from: int) -> int {
    run_end(s, CharClass::IsNot(c), from)
}

/// The two sides of the first `c` in a text.
pub open spec fn split_at_first(s: Seq<char>, c: char) -> Option<(Seq<char>, Seq<char>)> {
    let i = index_from(s, c, 0);
    if i < s.len() {
        Some((s.subrange(0, i), s.subrange(i + 1, s.len() as int)))
    } else {
        None
    }
}

/// Computes [`split_at_first`].
pub fn split_once(s: &str, c: char) -> (r: Option<(&str, &str)>)
    ensures
        r.deep_view() == split_at_first(s@, c),
{
    let v = chars_of(s);
    let i = find_run_end(&v, CharClass::IsNot(c), 0);
    if i < v.len() {
        Some((s.substring_char(0, i), s.substring_char(i + 1, v.len())))
    } else {
        None
    }
}

/// The text before the first `c`, or all of it.
pub open spec fn before_first(s: Seq<char>, c: char) -> Seq<char> {
    s.subrange(0, index_from(s, c, 0))
}

/// Computes [`before_first`].
pub fn before(s: &str, c: char) -> (r: &str)
    ensures
        r@ == before_first(s@, c),
{
    let v = chars_of(s);
    let i = find_run_end(&v, CharClass::IsNot(c), 0);
    s.substring_char(0, i)
}

// ---------------------------------------------------------------------------
// Lines
// ---------------------------------------------------------------------------

/// A line without the carriage return of its line ending.
pub open spec fn without_return(s: Seq<char>) -> Seq<char> {
    if s.len() > 0 && s[s.len() - 1] == '\r' {
        s.subrange(0, s.len() - 1)
    } else {
        s
    }
}

/// The lines of a text, from a position on.
pub open spec fn lines_from(s: Seq<char>, from: int) -> Seq<Seq<char>>
    decreases s.len() - from,
    when 0 <= from
{
    if from >= s.len() {
        seq![]
    } else {
        let end = index_from(s, '\n', from);
        proof {
            lemma_run_end(s, CharClass::IsNot('\n'), from);
        }
        if end >= s.len() {
            seq![s.subrange(from, s.len() as int)]
        } else {
            seq![without_return(s.subrange(from, end))] + lines_from(s, end + 1)
        }
    }
}

/// The lines of a text: a line ends at a line feed, or at a carriage return and a
/// line feed, and the last line may go without.
pub open spec fn lines_of(s: Seq<char>) -> Seq<Seq<char>> {
    lines_from(s, 0)
}

/// Computes [`lines_of`].
pub fn lines(s: &str) -> (r: Vec<String>)
    ensures
        r.deep_view() == lines_of(s@),
{
    let v = chars_of(s);
    let mut r: Vec<String> = Vec::new();
    let mut from: usize = 0;
    assert(r.deep_view() + lines_of(s@) =~= lines_of(s@));
    while from < v.len()
        invariant
            v@ == s@,
            from <= v@.len(),
            r.deep_view() + lines_from(s@, from as int) == lines_of(s@),
        decreases v@.len() - from,
    {
        let end = find_run_end(&v, CharClass::IsNot('\n'), from);
        let ghost before = r.deep_view();
        let ghost rest = lines_from(s@, from as int);
        if end >= v.len() {
            push_item(&mut r, slice_to_string(&v, from, v.len()));
            from = v.len();
            assert(r.deep_view() + lines_from(s@, from as int) =~= before + rest);
        } else {
            if end > from && v[end - 1] == '\r' {
                push_item(&mut r, slice_to_string(&v, from, end - 1));
                assert(without_return(s@.subrange(from as int, end as int)) =~= s@.subrange(
                    from as int,
                    end - 1,
                ));
            } else {
                push_item(&mut r, slice_to_string(&v, from, end));
            }
            from = end + 1;
            assert(r.deep_view() + lines_from(s@, from as int) =~= before + rest);
        }
    }
    assert(r.deep_view() + lines_from(s@, from as int) =~= r.deep_view());
    r
}

// ---------------------------------------------------------------------------
// Words
// ---------------------------------------------------------------------------

/// The words of a text, from a position on.
pub open spec fn words_from(s: Seq<char>, from: int) -> Seq<Seq<char>>
    decreases s.len() - from,
    when 0 <= from <= s.len()
{
    let start = run_end(s, CharClass::Space, from);
    proof {
        lemma_run_end(s, CharClass::Space, from);
    }
    if start >= s.len() {
        seq![]
    } else {
        let end = run_end(s, CharClass::NotSpace, start);
        proof {
            lemma_run_end(s, CharClass::NotSpace, start + 1);
        }
        seq![s.subrange(start, end)] + words_from(s, end)
    }
}

/// The words of a text: its maximal runs of characters that are not white space.
pub open spec fn words_of(s: Seq<char>) -> Seq<Seq<char>> {
    words_from(s, 0)
}

/// Computes [`words_of`].
pub fn words(s: &str) -> (r: Vec<String>)
    ensures
        r.deep_view() == words_of(s@),
{
    let v = chars_of(s);
    let mut r: Vec<String> = Vec::new();
    let mut from: usize = 0;
    let mut start = find_run_end(&v, CharClass::Space, 0);
    assert(r.deep_view() + words_of(s@) =~= words_of(s@));
    while start < v.len()
        invariant
            v@ == s@,
            from <= start <= v@.len(),
            start == run_end(s@, CharClass::Space, from as int),
            r.deep_view() + words_from(s@, from as int) == words_of(s@),
        decreases v@.len() - start,
    {
        let end = find_run_end(&v, CharClass::NotSpace, start);
        let ghost before = r.deep_view();
        let ghost rest = words_from(s@, from as int);
        proof {
            lemma_run_end(s@, CharClass::Space, from as int);
            assert(run_end(s@, CharClass::NotSpace, start as int) == run_end(
                s@,
                CharClass::NotSpace,
                start + 1,
            ));
            lemma_run_end(s@, CharClass::NotSpace, start + 1);
        }
        push_item(&mut r, slice_to_string(&v, start, end));
        assert(r.deep_view() + words_from(s@, end as int) =~= before + rest);
        from = end;
        start = find_run_end(&v, CharClass::Space, from);
    }
    assert(r.deep_view() + words_from(s@, from as int) =~= r.deep_view());
    r
}

/// The first word of a text.
pub open spec fn first_word(s: Seq<char>) -> Option<Seq<char>> {
    if words_of(s).len() > 0 {
        Some(words_of(s)[0])
    } else {
        None
    }
}

/// The last word of a text.
pub open spec fn last_word(s: Seq<char>) -> Option<Seq<char>> {
    if words_of(s).len() > 0 {
        Some(words_of(s)[words_of(s).len() - 1])
    } else {
        None
    }
}

/// Computes [`last_word`].
pub fn word_last(s: &str) -> (r: Option<String>)
    ensures
        r.deep_view() == last_word(s@),
{
    let list = words(s);
    let count = list.len();
    if count > 0 {
        assert(list@[count - 1]@ == list.deep_view()[count - 1]);
        Some(list[count - 1].clone())
    } else {
        None
    }
}

// ---------------------------------------------------------------------------
// Fields
// ---------------------------------------------------------------------------

/// The fields that a separator divides a text into, from a position on.
pub open spec fn fields_from(s: Seq<char>, c: char, from: int) -> Seq<Seq<char>>
    decreases s.len() - from,
    when 0 <= from <= s.len()
{
    let end = index_from(s, c, from);
    proof {
        lemma_run_end(s, CharClass::IsNot(c), from);
    }
    if end >= s.len() {
        seq![s.subrange(from, s.len() as int)]
    } else {
        seq![s.subrange(from, end)] + fields_from(s, c, end + 1)
    }
}

/// The fields that a separator divides a text into: one more than there are separators.
pub open spec fn fields_of(s: Seq<char>, c: char) -> Seq<Seq<char>> {
    fields_from(s, c, 0)
}

/// Computes [`fields_of`].
pub fn fields(s: &str, c: char) -> (r: Vec<String>)
    ensures
        r.deep_view() == fields_of(s@, c),
{
    let v = chars_of(s);
    let mut r: Vec<String> = Vec::new();
    let mut from: usize = 0;
    let mut end = find_run_end(&v, CharClass::IsNot(c), 0);
    assert(r.deep_view() + fields_of(s@, c) =~= fields_of(s@, c));
    while end < v.len()
        invariant
            v@ == s@,
            from <= end <= v@.len(),
            end == index_from(s@, c, from as int),
            r.deep_view() + fields_from(s@, c, from as int) == fields_of(s@, c),
        decreases v@.len() - end,
    {
        let ghost before = r.deep_view();
        let ghost rest = fields_from(s@, c, from as int);
        push_item(&mut r, slice_to_string(&v, from, end));
        from = end + 1;
        assert(r.deep_view() + fields_from(s@, c, from as int) =~= before + rest);
        end = find_run_end(&v, CharClass::IsNot(c), from);
    }
    let ghost before = r.deep_view();
    push_item(&mut r, slice_to_string(&v, from, v.len()));
    assert(r.deep_view() =~= before + fields_from(s@, c, from as int));
    r
}

// ---------------------------------------------------------------------------
// Joining
// ---------------------------------------------------------------------------

/// The first `n` texts of a list with a separator between them.
pub open spec fn joined_first(list: Seq<Seq<char>>, sep: Seq<char>, n: int) -> Seq<char>
    decreases n,
{
    if n <= 0 {
        seq![]
    } else if n == 1 {
        list[0]
    } else {
        joined_first(list, sep, n - 1) + sep + list[n - 1]
    }
}

/// The texts of a list with a separator between them.
pub open spec fn joined(list: Seq<Seq<char>>, sep: Seq<char>) -> Seq<char> {
    joined_first(list, sep, list.len() as int)
}

/// Computes [`joined`].
pub fn join(list: &Vec<String>, sep: &str) -> (r: String)
    ensures
        r@ == joined(list.deep_view(), sep@),
{
    let mut r = String::new();
    for i in 0..list.len()
        invariant
            r@ == joined_first(list.deep_view(), sep@, i as int),
    {
        if i > 0 {
            r.append(sep);
        }
        r.append(list[i].as_str());
        assert(r@ =~= joined_first(list.deep_view(), sep@, i + 1));
    }
    r
}

/// A text with its words one space apart.
pub open spec fn single_spaced(s: Seq<char>) -> Seq<char> {
    joined(words_of(s), seq![' '])
}

/// Computes [`single_spaced`].
pub fn respace(s: &str) -> (r: String)
    ensures
        r@ == single_spaced(s@),
{
    let mut sep = String::new();
    push_char(&mut sep, ' ');
    assert(sep@ =~= seq![' ']);
    join(&words(s), sep.as_str())
}

// ---------------------------------------------------------------------------
// Laws
// ---------------------------------------------------------------------------

/// Two lists of texts joined end to end are the two joined texts with a separator between them.
pub proof fn lemma_joined_end_to_end(a: Seq<Seq<char>>, b: Seq<Seq<char>>, sep: Seq<char>)
    requires
        a.len() > 0,
        b.len() > 0,
    ensures
        joined(a + b, sep) == joined(a, sep) + sep + joined(b, sep),
    decreases b.len(),
{
    let both = a + b;
    let n = both.len() as int;
    lemma_joined_first(both, a, sep, a.len() as int);
    if b.len() == 1 {
        assert(joined_first(both, sep, n) == joined_first(both, sep, n - 1) + sep + both[n - 1]);
        assert(joined(b, sep) == b[0]);
    } else {
        let c = b.drop_last();
        lemma_joined_end_to_end(a, c, sep);
        lemma_joined_first(both, a + c, sep, n - 1);
        lemma_joined_first(b, c, sep, b.len() - 1);
        assert(joined(a, sep) + sep + joined(c, sep) + sep + b.last() =~= joined(a, sep) + sep + (
        joined(c, sep) + sep + b.last()));
    }
}

/// What the first texts of a list are joined to depends on these texts alone.
proof fn lemma_joined_first(a: Seq<Seq<char>>, b: Seq<Seq<char>>, sep: Seq<char>, n: int)
    requires
        n <= a.len(),
        n <= b.len(),
        forall|i: int| 0 <= i < n ==> a[i] == b[i],
    ensures
        joined_first(a, sep, n) == joined_first(b, sep, n),
    decreases n,
{
    if n > 1 {
        lemma_joined_first(a, b, sep, n - 1);
    }
}

proof fn lemma_fields_rejoin(s: Seq<char>, c: char, from: int)
    requires
        0 <= from <= s.len(),
    ensures
        fields_from(s, c, from).len() > 0,
        joined(fields_from(s, c, from), seq![c]) == s.subrange(from, s.len() as int),
        forall|i: int|
            0 <= i < fields_from(s, c, from).len() ==> !(#[trigger] fields_from(
                s,
                c,
                from,
            )[i]).contains(c),
    decreases s.len() - from,
{
    let end = index_from(s, c, from);
    let fields = fields_from(s, c, from);
    lemma_run_end(s, CharClass::IsNot(c), from);
    if end >= s.len() {
        assert(!fields[0].contains(c));
    } else {
        lemma_fields_rejoin(s, c, end + 1);
        let first = seq![s.subrange(from, end)];
        let rest = fields_from(s, c, end + 1);
        lemma_joined_end_to_end(first, rest, seq![c]);
        assert(s[end] == c);
        assert(s.subrange(from, end) + seq![c] + s.subrange(end + 1, s.len() as int) =~= s.subrange(
            from,
            s.len() as int,
        ));
        assert forall|i: int| 0 <= i < fields.len() implies !(#[trigger] fields[i]).contains(c) by {
            if i > 0 {
                assert(fields[i] == rest[i - 1]);
            }
        }
    }
}

/// The fields of a text hold no separator, and with the separators between them they are the text.
pub proof fn law_fields_rejoin(s: Seq<char>, c: char)
    ensures
        joined(fields_of(s, c), seq![c]) == s,
        forall|i: int|
            0 <= i < fields_of(s, c).len() ==> !(#[trigger] fields_of(s, c)[i]).contains(c),
{
    lemma_fields_rejoin(s, c, 0);
    assert(s.subrange(0, s.len() as int) =~= s);
}

proof fn lemma_lines_rejoin(s: Seq<char>, from: int)
    requires
        0 <= from <= s.len(),
        !s.contains('\r'),
    ensures
        from < s.len() ==> lines_from(s, from).len() > 0,
        from < s.len() ==> joined(lines_from(s, from), seq!['\n']) == if s.last() == '\n' {
            s.subrange(from, s.len() - 1)
        } else {
            s.subrange(from, s.len() as int)
        },
        forall|i: int|
            0 <= i < lines_from(s, from).len() ==> !(#[trigger] lines_from(s, from)[i]).contains(
                '\n',
            ),
    decreases s.len() - from,
{
    if from < s.len() {
        let end = index_from(s, '\n', from);
        let lines = lines_from(s, from);
        lemma_run_end(s, CharClass::IsNot('\n'), from);
        if end >= s.len() {
            assert(!lines[0].contains('\n'));
            assert(s.last() == s[s.len() - 1]);
        } else {
            let line = s.subrange(from, end);
            assert(without_return(line) == line) by {
                if line.len() > 0 {
                    assert(line.last() == s[end - 1]);
                    assert(s.contains(s[end - 1]));
                }
            }
            lemma_lines_rejoin(s, end + 1);
            let rest = lines_from(s, end + 1);
            assert(s[end] == '\n');
            assert(lines == seq![line] + rest);
            if end + 1 < s.len() {
                lemma_joined_end_to_end(seq![line], rest, seq!['\n']);
                let to = if s.last() == '\n' {
                    s.len() - 1
                } else {
                    s.len() as int
                };
                assert(line + seq!['\n'] + s.subrange(end + 1, to) =~= s.subrange(from, to));
            } else {
                assert(rest =~= seq![]);
                assert(lines =~= seq![line]);
            }
            assert forall|i: int| 0 <= i < lines.len() implies !(#[trigger] lines[i]).contains(
                '\n',
            ) by {
                if i > 0 {
                    assert(lines[i] == rest[i - 1]);
                }
            }
        }
    }
}

/// The lines of a text hold no line feed, and with line feeds between them they are the text, but
/// for a line feed at its end.
pub proof fn law_lines_rejoin(s: Seq<char>)
    requires
        !s.contains('\r'),
    ensures
        s.len() > 0 ==> joined(lines_of(s), seq!['\n']) == if s.last() == '\n' {
            s.drop_last()
        } else {
            s
        },
        s.len() == 0 ==> lines_of(s).len() == 0,
        forall|i: int|
            0 <= i < lines_of(s).len() ==> !(#[trigger] lines_of(s)[i]).contains('\n'),
{
    lemma_lines_rejoin(s, 0);
    if s.len() > 0 {
        assert(s.subrange(0, s.len() as int) =~= s);
        assert(s.subrange(0, s.len() - 1) =~= s.drop_last());
    }
}

/// How many words start among the first `n` characters of a text.
pub open spec fn word_starts(s: Seq<char>, n: int) -> nat
    decreases n,
{
    if n <= 0 {
        0
    } else {
        word_starts(s, n - 1) + if !is_space(s[n - 1]) && (n == 1 || is_space(s[n - 2])) {
            1nat
        } else {
            0nat
        }
    }
}

/// The first `n` characters of a text without white space.
pub open spec fn solid(s: Seq<char>, n: int) -> Seq<char>
    decreases n,
{
    if n <= 0 {
        seq![]
    } else if is_space(s[n - 1]) {
        solid(s, n - 1)
    } else {
        solid(s, n - 1).push(s[n - 1])
    }
}

proof fn lemma_run_of_spaces(s: Seq<char>, from: int, to: int)
    requires
        0 <= from <= to <= s.len(),
        forall|i: int| from <= i < to ==> is_space(#[trigger] s[i]),
    ensures
        solid(s, to) == solid(s, from),
        word_starts(s, to) == word_starts(s, from),
    decreases to - from,
{
    if from < to {
        lemma_run_of_spaces(s, from, to - 1);
        assert(is_space(s[to - 1]));
    }
}

proof fn lemma_run_of_letters(s: Seq<char>, start: int, to: int)
    requires
        0 <= start < to <= s.len(),
        forall|i: int| start <= i < to ==> !is_space(#[trigger] s[i]),
        start > 0 ==> is_space(s[start - 1]),
    ensures
        solid(s, to) == solid(s, start) + s.subrange(start, to),
        word_starts(s, to) == word_starts(s, start) + 1,
    decreases to - start,
{
    assert(!is_space(s[to - 1]));
    if start < to - 1 {
        lemma_run_of_letters(s, start, to - 1);
        assert(!is_space(s[to - 2]));
    } else {
        assert(s.subrange(start, start) =~= seq![]);
    }
    assert(s.subrange(start, to) =~= s.subrange(start, to - 1).push(s[to - 1]));
}

proof fn lemma_words(s: Seq<char>, from: int)
    requires
        0 <= from <= s.len(),
        from > 0 && from < s.len() ==> is_space(s[from]) || is_space(s[from - 1]),
    ensures
        solid(s, from) + joined(words_from(s, from), seq![]) == solid(s, s.len() as int),
        word_starts(s, from) + words_from(s, from).len() == word_starts(s, s.len() as int),
        forall|i: int|
            0 <= i < words_from(s, from).len() ==> (#[trigger] words_from(s, from)[i]).len() > 0
                && forall|j: int|
                0 <= j < words_from(s, from)[i].len() ==> !is_space(
                    #[trigger] words_from(s, from)[i][j],
                ),
    decreases s.len() - from,
{
    let start = run_end(s, CharClass::Space, from);
    lemma_run_end(s, CharClass::Space, from);
    lemma_run_of_spaces(s, from, start);
    let words = words_from(s, from);
    if start >= s.len() {
        assert(words =~= seq![]);
        assert(joined(words, seq![]) =~= seq![]);
    } else {
        let end = run_end(s, CharClass::NotSpace, start);
        lemma_run_end(s, CharClass::NotSpace, start);
        lemma_run_end(s, CharClass::NotSpace, start + 1);
        assert(start > 0 ==> is_space(s[start - 1])) by {
            if start > from {
                assert(within(CharClass::Space, s[start - 1]));
            }
        }
        assert forall|i: int| start <= i < end implies !is_space(#[trigger] s[i]) by {
            assert(within(CharClass::NotSpace, s[i]));
        }
        lemma_run_of_letters(s, start, end);
        lemma_words(s, end);
        let word = s.subrange(start, end);
        let rest = words_from(s, end);
        assert(words == seq![word] + rest);
        if rest.len() > 0 {
            lemma_joined_end_to_end(seq![word], rest, seq![]);
            assert(word + seq![] + joined(rest, seq![]) =~= word + joined(rest, seq![]));
        } else {
            assert(words =~= seq![word]);
            assert(joined(rest, seq![]) =~= seq![]);
        }
        assert(solid(s, start) + word + joined(rest, seq![]) =~= solid(s, start) + joined(
            words,
            seq![],
        ));
        assert forall|i: int| 0 <= i < words.len() implies (#[trigger] words[i]).len() > 0
            && forall|j: int| 0 <= j < words[i].len() ==> !is_space(#[trigger] words[i][j]) by {
            if i > 0 {
                assert(words[i] == rest[i - 1]);
            } else {
                assert forall|j: int| 0 <= j < words[i].len() implies !is_space(
                    #[trigger] words[i][j],
                ) by {
                    assert(words[i][j] == s[start + j]);
                }
            }
        }
    }
}

/// The words of a text hold no white space, there is one for each place where a word starts, and
/// end to end they are the text without its white space.
pub proof fn law_words_are_what_is_written(s: Seq<char>)
    ensures
        joined(words_of(s), seq![]) == solid(s, s.len() as int),
        words_of(s).len() == word_starts(s, s.len() as int),
        forall|i: int|
            0 <= i < words_of(s).len() ==> (#[trigger] words_of(s)[i]).len() > 0 && forall|j: int|
                0 <= j < words_of(s)[i].len() ==> !is_space(#[trigger] words_of(s)[i][j]),
{
    lemma_words(s, 0);
    assert(solid(s, 0) + joined(words_of(s), seq![]) =~= joined(words_of(s), seq![]));
}

/// A text splits at the first place where a character stands, and nowhere if it stands nowhere.
pub proof fn law_first_split(s: Seq<char>, c: char)
    ensures
        match split_at_first(s, c) {
            Some((before, after)) => s == before.push(c) + after && !before.contains(c),
            None => !s.contains(c),
        },
        before_first(s, c) == match split_at_first(s, c) {
            Some((before, _)) => before,
            None => s,
        },
{
    lemma_run_end(s, CharClass::IsNot(c), 0);
    let i = index_from(s, c, 0);
    if i < s.len() {
        assert(s[i] == c);
        assert(s =~= s.subrange(0, i).push(c) + s.subrange(i + 1, s.len() as int));
    } else {
        assert(s.subrange(0, i) =~= s);
    }
}

} // verus!
