//! Markers of questions and answers.
use vstd::prelude::*;

use crate::scan::{
    after_prefix_ignoring_case, first_char, has_prefix, lemma_run_end_is, start_trimmed,
    strip_prefix_ascii_case, trim_start, uppercased,
};
use crate::text::{is_space, push_item, space, CharClass};
use crate::transcript::models::{
    MarkerKind, MarkerRule, MarkerRuleView, MarkerStyle, TranscriptContext,
};

verus! {

/// A marker at the start of a line, and the text behind it.
#[derive(Debug)]
pub struct MarkerMatch<'a> {
    pub kind: MarkerKind,
    pub style: MarkerStyle,
    pub pattern: String,
    pub priority: u8,
    pub remainder: &'a str,
}

/// The contents of a [`MarkerMatch`].
#[verifier::ext_equal]
pub struct MarkerMatchView {
    pub kind: MarkerKind,
    pub style: MarkerStyle,
    pub pattern: Seq<char>,
    pub priority: u8,
    pub remainder: Seq<char>,
}

impl<'a> DeepView for MarkerMatch<'a> {
    type V = MarkerMatchView;

    open spec fn deep_view(&self) -> MarkerMatchView {
        MarkerMatchView {
            kind: self.kind,
            style: self.style,
            pattern: self.pattern@,
            priority: self.priority,
            remainder: self.remainder@,
        }
    }
}

/// A rule that has not been observed yet.
pub open spec fn new_rule(
    kind: MarkerKind,
    style: MarkerStyle,
    pattern: Seq<char>,
    priority: u8,
) -> MarkerRuleView {
    MarkerRuleView { kind, style, pattern, priority, observations: 0 }
}

/// The rules that every document starts from.
pub open spec fn standard_rules() -> Seq<MarkerRuleView> {
    seq![
        new_rule(MarkerKind::Question, MarkerStyle::Dot, "Q."@, 1),
        new_rule(MarkerKind::Answer, MarkerStyle::Dot, "A."@, 1),
        new_rule(MarkerKind::Question, MarkerStyle::BareUppercase, "Q"@, 2),
        new_rule(MarkerKind::Answer, MarkerStyle::BareUppercase, "A"@, 2),
        new_rule(MarkerKind::Question, MarkerStyle::Colon, "Q:"@, 3),
        new_rule(MarkerKind::Answer, MarkerStyle::Colon, "A:"@, 3),
        new_rule(MarkerKind::Question, MarkerStyle::Word, "QUESTION:"@, 4),
        new_rule(MarkerKind::Answer, MarkerStyle::Word, "ANSWER:"@, 4),
    ]
}

fn rule(kind: MarkerKind, style: MarkerStyle, pattern: &str, priority: u8) -> (r: MarkerRule)
    ensures
        r.deep_view() == new_rule(kind, style, pattern@, priority),
{
    MarkerRule { kind, style, pattern: pattern.to_owned(), priority, observations: 0 }
}

pub fn default_marker_rules() -> (r: Vec<MarkerRule>)
    ensures
        r.deep_view() == standard_rules(),
{
    let mut rules: Vec<MarkerRule> = Vec::new();
    push_item(&mut rules, rule(MarkerKind::Question, MarkerStyle::Dot, "Q.", 1));
    push_item(&mut rules, rule(MarkerKind::Answer, MarkerStyle::Dot, "A.", 1));
    push_item(&mut rules, rule(MarkerKind::Question, MarkerStyle::BareUppercase, "Q", 2));
    push_item(&mut rules, rule(MarkerKind::Answer, MarkerStyle::BareUppercase, "A", 2));
    push_item(&mut rules, rule(MarkerKind::Question, MarkerStyle::Colon, "Q:", 3));
    push_item(&mut rules, rule(MarkerKind::Answer, MarkerStyle::Colon, "A:", 3));
    push_item(&mut rules, rule(MarkerKind::Question, MarkerStyle::Word, "QUESTION:", 4));
    push_item(&mut rules, rule(MarkerKind::Answer, MarkerStyle::Word, "ANSWER:", 4));
    assert(rules.deep_view() =~= standard_rules());
    rules
}

// ---------------------------------------------------------------------------
// One marker
// ---------------------------------------------------------------------------

/// What follows a letter and a punctuation mark at the start of a line, where they stand
/// alone. Letters are never case-folded.
pub open spec fn after_letter_mark(text: Seq<char>, marker: char, punctuation: char) -> Option<
    Seq<char>,
> {
    let t = start_trimmed(text);
    if t.len() >= 2 && t[0] == marker && t[1] == punctuation && (t.len() == 2 || is_space(t[2])) {
        Some(start_trimmed(t.subrange(2, t.len() as int)))
    } else {
        None
    }
}

fn strip_single_letter_punctuation(text: &str, marker: char, punctuation: char) -> (r: Option<&str>)
    ensures
        r.deep_view() == after_letter_mark(text@, marker, punctuation),
{
    let t = trim_start(text);
    let len = t.unicode_len();
    if len >= 2 && t.get_char(0) == marker && t.get_char(1) == punctuation && (len == 2 || space(
        t.get_char(2),
    )) {
        Some(trim_start(t.substring_char(2, len)))
    } else {
        None
    }
}

/// What follows a word at the start of a line, in whatever case it is written.
pub open spec fn after_word_mark(text: Seq<char>, prefix: Seq<char>) -> Option<Seq<char>> {
    match after_prefix_ignoring_case(start_trimmed(text), prefix) {
        Some(rest) => Some(start_trimmed(rest)),
        None => None,
    }
}

fn strip_case_insensitive_prefix<'a>(text: &'a str, prefix: &str) -> (r: Option<&'a str>)
    ensures
        r.deep_view() == after_word_mark(text@, prefix@),
{
    match strip_prefix_ascii_case(trim_start(text), prefix) {
        Some(rest) => Some(trim_start(rest)),
        None => None,
    }
}

/// What follows a bare letter at the start of a line, where it stands alone.
pub open spec fn after_bare_letter(text: Seq<char>, marker: char) -> Option<Seq<char>> {
    let t = start_trimmed(text);
    if t.len() >= 1 && t[0] == marker && (t.len() == 1 || is_space(t[1])) {
        Some(start_trimmed(t.subrange(1, t.len() as int)))
    } else {
        None
    }
}

pub fn strip_bare_uppercase(text: &str, marker: char) -> (r: Option<&str>)
    ensures
        r.deep_view() == after_bare_letter(text@, marker),
{
    let t = trim_start(text);
    let len = t.unicode_len();
    if len >= 1 && t.get_char(0) == marker && (len == 1 || space(t.get_char(1))) {
        Some(trim_start(t.substring_char(1, len)))
    } else {
        None
    }
}

/// The marker that a line opens with, whatever the document's conventions.
pub open spec fn marker_candidate(text: Seq<char>) -> Option<(MarkerKind, MarkerStyle, Seq<char>)> {
    if after_letter_mark(text, 'Q', '.') is Some {
        Some((MarkerKind::Question, MarkerStyle::Dot, "Q."@))
    } else if after_letter_mark(text, 'A', '.') is Some {
        Some((MarkerKind::Answer, MarkerStyle::Dot, "A."@))
    } else if after_bare_letter(text, 'Q') is Some {
        Some((MarkerKind::Question, MarkerStyle::BareUppercase, "Q"@))
    } else if after_bare_letter(text, 'A') is Some {
        Some((MarkerKind::Answer, MarkerStyle::BareUppercase, "A"@))
    } else if after_letter_mark(text, 'Q', ':') is Some {
        Some((MarkerKind::Question, MarkerStyle::Colon, "Q:"@))
    } else if after_letter_mark(text, 'A', ':') is Some {
        Some((MarkerKind::Answer, MarkerStyle::Colon, "A:"@))
    } else if after_word_mark(text, "QUESTION:"@) is Some {
        Some((MarkerKind::Question, MarkerStyle::Word, "QUESTION:"@))
    } else if after_word_mark(text, "ANSWER:"@) is Some {
        Some((MarkerKind::Answer, MarkerStyle::Word, "ANSWER:"@))
    } else if after_word_mark(text, "QUESTION."@) is Some {
        Some((MarkerKind::Question, MarkerStyle::Word, "QUESTION."@))
    } else if after_word_mark(text, "ANSWER."@) is Some {
        Some((MarkerKind::Answer, MarkerStyle::Word, "ANSWER."@))
    } else {
        None
    }
}

pub fn detect_marker_candidate(text: &str) -> (r: Option<(MarkerKind, MarkerStyle, &'static str)>)
    ensures
        r.deep_view() == marker_candidate(text@),
{
    if strip_single_letter_punctuation(text, 'Q', '.').is_some() {
        return Some((MarkerKind::Question, MarkerStyle::Dot, "Q."));
    }
    if strip_single_letter_punctuation(text, 'A', '.').is_some() {
        return Some((MarkerKind::Answer, MarkerStyle::Dot, "A."));
    }
    if strip_bare_uppercase(text, 'Q').is_some() {
        return Some((MarkerKind::Question, MarkerStyle::BareUppercase, "Q"));
    }
    if strip_bare_uppercase(text, 'A').is_some() {
        return Some((MarkerKind::Answer, MarkerStyle::BareUppercase, "A"));
    }
    if strip_single_letter_punctuation(text, 'Q', ':').is_some() {
        return Some((MarkerKind::Question, MarkerStyle::Colon, "Q:"));
    }
    if strip_single_letter_punctuation(text, 'A', ':').is_some() {
        return Some((MarkerKind::Answer, MarkerStyle::Colon, "A:"));
    }
    if strip_case_insensitive_prefix(text, "QUESTION:").is_some() {
        return Some((MarkerKind::Question, MarkerStyle::Word, "QUESTION:"));
    }
    if strip_case_insensitive_prefix(text, "ANSWER:").is_some() {
        return Some((MarkerKind::Answer, MarkerStyle::Word, "ANSWER:"));
    }
    if strip_case_insensitive_prefix(text, "QUESTION.").is_some() {
        return Some((MarkerKind::Question, MarkerStyle::Word, "QUESTION."));
    }
    if strip_case_insensitive_prefix(text, "ANSWER.").is_some() {
        return Some((MarkerKind::Answer, MarkerStyle::Word, "ANSWER."));
    }
    None
}

/// A letter marker is an upper case letter at the start of its line: a line that starts
/// with any other character, a lower case "a" or "q" among them, carries none.
pub proof fn law_letter_markers_keep_case(text: Seq<char>)
    ensures
        marker_candidate(text) matches Some((kind, style, pattern)) ==> style == MarkerStyle::Word
            || {
            &&& start_trimmed(text).len() > 0
            &&& start_trimmed(text)[0] == if kind == MarkerKind::Question {
                'Q'
            } else {
                'A'
            }
        },
{
}

// ---------------------------------------------------------------------------
// The rules of a document
// ---------------------------------------------------------------------------

/// What follows the marker that a rule describes.
pub open spec fn after_rule(text: Seq<char>, rule: MarkerRuleView) -> Option<Seq<char>> {
    match rule.style {
        MarkerStyle::Dot => if rule.pattern.len() > 0 {
            after_letter_mark(text, rule.pattern[0], '.')
        } else {
            None
        },
        MarkerStyle::Colon => if rule.pattern.len() > 0 {
            after_letter_mark(text, rule.pattern[0], ':')
        } else {
            None
        },
        MarkerStyle::Word => after_word_mark(text, rule.pattern),
        MarkerStyle::BareUppercase => if rule.pattern.len() > 0 {
            after_bare_letter(text, rule.pattern[0])
        } else {
            None
        },
        MarkerStyle::SpeakerPrefixed => None,
    }
}

fn match_rule<'a>(text: &'a str, rule: &MarkerRule) -> (r: Option<&'a str>)
    ensures
        r.deep_view() == after_rule(text@, rule.deep_view()),
{
    match rule.style {
        MarkerStyle::Dot => match first_char(rule.pattern.as_str()) {
            Some(marker) => strip_single_letter_punctuation(text, marker, '.'),
            None => None,
        },
        MarkerStyle::Colon => match first_char(rule.pattern.as_str()) {
            Some(marker) => strip_single_letter_punctuation(text, marker, ':'),
            None => None,
        },
        MarkerStyle::Word => strip_case_insensitive_prefix(text, rule.pattern.as_str()),
        MarkerStyle::BareUppercase => match first_char(rule.pattern.as_str()) {
            Some(marker) => strip_bare_uppercase(text, marker),
            None => None,
        },
        MarkerStyle::SpeakerPrefixed => None,
    }
}

/// Whether a document was observed to use markers of a kind.
pub open spec fn kind_observed(rules: Seq<MarkerRuleView>, kind: MarkerKind) -> bool {
    exists|i: int|
        0 <= i < rules.len() && (#[trigger] rules[i]).kind == kind && rules[i].observations > 0
}

fn observed(rules: &Vec<MarkerRule>, kind: MarkerKind) -> (r: bool)
    ensures
        r == kind_observed(rules.deep_view(), kind),
{
    for i in 0..rules.len()
        invariant
            forall|j: int|
                0 <= j < i ==> !((#[trigger] rules.deep_view()[j]).kind == kind
                    && rules.deep_view()[j].observations > 0),
    {
        if rules[i].kind == kind && rules[i].observations > 0 {
            assert(rules.deep_view()[i as int] == rules@[i as int].deep_view());
            return true;
        }
        assert(rules.deep_view()[i as int] == rules@[i as int].deep_view());
    }
    false
}

/// Whether a document uses both questions and answers.
pub open spec fn markers_paired(rules: Seq<MarkerRuleView>) -> bool {
    kind_observed(rules, MarkerKind::Question) && kind_observed(rules, MarkerKind::Answer)
}

/// Whether one rule is tried before another: by priority, and the more often observed first.
pub open spec fn rule_before(a: MarkerRuleView, b: MarkerRuleView) -> bool {
    a.priority < b.priority || (a.priority == b.priority && a.observations > b.observations)
}

/// Decides [`rule_before`].
pub fn precedes(a: &MarkerRule, b: &MarkerRule) -> (r: bool)
    ensures
        r == rule_before(a.deep_view(), b.deep_view()),
{
    a.priority < b.priority || (a.priority == b.priority && a.observations > b.observations)
}

/// Whether a rule applies to a line. A bare letter is a marker only in a document that was
/// observed to use both questions and answers.
pub open spec fn rule_applies(text: Seq<char>, rules: Seq<MarkerRuleView>, i: int) -> bool {
    (rules[i].style != MarkerStyle::BareUppercase || markers_paired(rules)) && after_rule(
        text,
        rules[i],
    ) is Some
}

/// The rule to apply among the first `n`: of those that apply, the one that is tried first.
pub open spec fn chosen_rule(text: Seq<char>, rules: Seq<MarkerRuleView>, n: int) -> Option<int>
    decreases n,
{
    if n <= 0 {
        None
    } else {
        let chosen = chosen_rule(text, rules, n - 1);
        if rule_applies(text, rules, n - 1) && (chosen matches Some(i) ==> rule_before(
            rules[n - 1],
            rules[i],
        )) {
            Some(n - 1)
        } else {
            chosen
        }
    }
}

/// The marker that a line opens with under the rules of its document.
pub open spec fn matched_marker(text: Seq<char>, rules: Seq<MarkerRuleView>) -> Option<
    MarkerMatchView,
> {
    match chosen_rule(text, rules, rules.len() as int) {
        Some(i) => Some(
            MarkerMatchView {
                kind: rules[i].kind,
                style: rules[i].style,
                pattern: rules[i].pattern,
                priority: rules[i].priority,
                remainder: after_rule(text, rules[i])->0,
            },
        ),
        None => None,
    }
}

pub fn match_marker<'a>(text: &'a str, context: &TranscriptContext) -> (r: Option<MarkerMatch<'a>>)
    ensures
        r.deep_view() == matched_marker(text@, context.deep_view().marker_rules),
{
    let rules = &context.marker_rules;
    let ghost view = rules.deep_view();
    let paired = observed(rules, MarkerKind::Question) && observed(rules, MarkerKind::Answer);
    let mut chosen: Option<usize> = None;
    for n in 0..rules.len()
        invariant
            view == rules.deep_view(),
            paired == markers_paired(view),
            match chosen {
                Some(i) => i < n && chosen_rule(text@, view, n as int) == Some(i as int)
                    && rule_applies(text@, view, i as int),
                None => chosen_rule(text@, view, n as int) is None,
            },
    {
        assert(view[n as int] == rules@[n as int].deep_view());
        let first = match chosen {
            Some(i) => precedes(&rules[n], &rules[i]),
            None => true,
        };
        if first && (rules[n].style != MarkerStyle::BareUppercase || paired) && match_rule(
            text,
            &rules[n],
        ).is_some() {
            chosen = Some(n);
        }
    }
    match chosen {
        Some(i) => match match_rule(text, &rules[i]) {
            Some(remainder) => Some(
                MarkerMatch {
                    kind: rules[i].kind,
                    style: rules[i].style,
                    pattern: rules[i].pattern.clone(),
                    priority: rules[i].priority,
                    remainder,
                },
            ),
            None => None,
        },
        None => None,
    }
}

/// The marker chosen for a line is one of the document's rules, it applies to the line, and
/// no rule that applies is tried before it. There is one exactly when some rule applies.
pub proof fn law_chosen_rule_is_first(text: Seq<char>, rules: Seq<MarkerRuleView>, n: int)
    requires
        0 <= n <= rules.len(),
    ensures
        match chosen_rule(text, rules, n) {
            Some(i) => 0 <= i < n && rule_applies(text, rules, i) && forall|j: int|
                0 <= j < n && #[trigger] rule_applies(text, rules, j) ==> !rule_before(
                    rules[j],
                    rules[i],
                ) && (j < i ==> rule_before(rules[i], rules[j])),
            None => forall|j: int| 0 <= j < n ==> !#[trigger] rule_applies(text, rules, j),
        },
    decreases n,
{
    if n > 0 {
        law_chosen_rule_is_first(text, rules, n - 1);
    }
}

/// A bare letter is no marker in a document that was not observed to use both questions and
/// answers.
pub proof fn law_bare_letters_need_a_pair(text: Seq<char>, rules: Seq<MarkerRuleView>)
    requires
        !markers_paired(rules),
    ensures
        matched_marker(text, rules) matches Some(m) ==> m.style != MarkerStyle::BareUppercase,
{
    law_chosen_rule_is_first(text, rules, rules.len() as int);
}

// ---------------------------------------------------------------------------
// What markers look like
// ---------------------------------------------------------------------------

proof fn lemma_nothing_to_trim(text: Seq<char>)
    requires
        text.len() > 0,
        !is_space(text[0]),
    ensures
        start_trimmed(text) == text,
{
    lemma_run_end_is(text, CharClass::Space, 0, 0);
    assert(text.subrange(0, text.len() as int) =~= text);
}

/// A letter and a punctuation mark that stand alone at the start of a line are its marker, and what
/// follows is what is said.
pub proof fn law_letter_marks_are_taken_off(letter: char, mark: char, rest: Seq<char>)
    requires
        !is_space(letter),
        rest.len() == 0 || is_space(rest[0]),
    ensures
        after_letter_mark(seq![letter, mark] + rest, letter, mark) == Some(start_trimmed(rest)),
{
    let line = seq![letter, mark] + rest;
    lemma_nothing_to_trim(line);
    assert(line.subrange(2, line.len() as int) =~= rest);
}

/// A letter that stands alone at the start of a line is a bare marker; one that a word starts
/// with is none.
pub proof fn law_bare_letters_stand_alone(letter: char, rest: Seq<char>)
    requires
        !is_space(letter),
    ensures
        rest.len() == 0 || is_space(rest[0]) ==> after_bare_letter(seq![letter] + rest, letter)
            == Some(start_trimmed(rest)),
        rest.len() > 0 && !is_space(rest[0]) ==> after_bare_letter(
            seq![letter] + rest,
            letter,
        ) is None,
{
    let line = seq![letter] + rest;
    lemma_nothing_to_trim(line);
    assert(line.subrange(1, line.len() as int) =~= rest);
}

/// "Q." and "Q:" open questions, "A." and "A:" answers, and so do the bare letters.
pub proof fn law_markers_are_told_apart(rest: Seq<char>)
    requires
        rest.len() == 0 || is_space(rest[0]),
    ensures
        marker_candidate(seq!['Q', '.'] + rest) == Some(
            (MarkerKind::Question, MarkerStyle::Dot, "Q."@),
        ),
        marker_candidate(seq!['A', '.'] + rest) == Some(
            (MarkerKind::Answer, MarkerStyle::Dot, "A."@),
        ),
        marker_candidate(seq!['Q', ':'] + rest) == Some(
            (MarkerKind::Question, MarkerStyle::Colon, "Q:"@),
        ),
        marker_candidate(seq!['A', ':'] + rest) == Some(
            (MarkerKind::Answer, MarkerStyle::Colon, "A:"@),
        ),
        marker_candidate(seq!['Q'] + rest) == Some(
            (MarkerKind::Question, MarkerStyle::BareUppercase, "Q"@),
        ),
        marker_candidate(seq!['A'] + rest) == Some(
            (MarkerKind::Answer, MarkerStyle::BareUppercase, "A"@),
        ),
{
    law_letter_marks_are_taken_off('Q', '.', rest);
    law_letter_marks_are_taken_off('A', '.', rest);
    law_letter_marks_are_taken_off('Q', ':', rest);
    law_letter_marks_are_taken_off('A', ':', rest);
    law_bare_letters_stand_alone('Q', rest);
    law_bare_letters_stand_alone('A', rest);
    lemma_nothing_to_trim(seq!['Q', '.'] + rest);
    lemma_nothing_to_trim(seq!['A', '.'] + rest);
    lemma_nothing_to_trim(seq!['Q', ':'] + rest);
    lemma_nothing_to_trim(seq!['A', ':'] + rest);
    lemma_nothing_to_trim(seq!['Q'] + rest);
    lemma_nothing_to_trim(seq!['A'] + rest);
}

/// The marker of a line is that of the rule that is tried first among those that the line meets:
/// by priority, then by how often it was observed, then by its place. It has the kind, the style
/// and the pattern of the rule, and leaves what follows it. A bare letter is met only in a document
/// that was observed to use both questions and answers.
pub proof fn law_rules_are_tried_in_turn(text: Seq<char>, rules: Seq<MarkerRuleView>, j: int)
    ensures
        match matched_marker(text, rules) {
            Some(m) => exists|i: int|
                {
                    &&& 0 <= i < rules.len()
                    &&& m.kind == (#[trigger] rules[i]).kind
                    &&& m.style == rules[i].style
                    &&& m.pattern == rules[i].pattern
                    &&& m.priority == rules[i].priority
                    &&& after_rule(text, rules[i]) == Some(m.remainder)
                    &&& m.style == MarkerStyle::BareUppercase ==> markers_paired(rules)
                    &&& 0 <= j < rules.len() && after_rule(text, rules[j]) is Some && (
                    rules[j].style != MarkerStyle::BareUppercase || markers_paired(rules)) ==> {
                        ||| rules[i].priority < rules[j].priority
                        ||| rules[i].priority == rules[j].priority && rules[i].observations
                            > rules[j].observations
                        ||| rules[i].priority == rules[j].priority && rules[i].observations
                            == rules[j].observations && i <= j
                    }
                },
            None => 0 <= j < rules.len() && (rules[j].style != MarkerStyle::BareUppercase
                || markers_paired(rules)) ==> after_rule(text, rules[j]) is None,
        },
{
    law_chosen_rule_is_first(text, rules, rules.len() as int);
    if 0 <= j < rules.len() {
        assert(rule_applies(text, rules, j) == ((rules[j].style != MarkerStyle::BareUppercase
            || markers_paired(rules)) && after_rule(text, rules[j]) is Some));
    }
    match chosen_rule(text, rules, rules.len() as int) {
        Some(i) => {
            assert(rules[i].kind == (matched_marker(text, rules)->0).kind);
        },
        None => {},
    }
}

/// A rule is met by the marker that it describes: a letter with its punctuation mark, a bare
/// letter, or a word in whatever case.
pub proof fn law_rules_describe_markers(text: Seq<char>, rule: MarkerRuleView)
    requires
        rule.pattern.len() > 0,
    ensures
        rule.style == MarkerStyle::Dot ==> after_rule(text, rule) == after_letter_mark(
            text,
            rule.pattern[0],
            '.',
        ),
        rule.style == MarkerStyle::Colon ==> after_rule(text, rule) == after_letter_mark(
            text,
            rule.pattern[0],
            ':',
        ),
        rule.style == MarkerStyle::BareUppercase ==> after_rule(text, rule) == after_bare_letter(
            text,
            rule.pattern[0],
        ),
        rule.style == MarkerStyle::Word ==> (after_rule(text, rule) is Some <==> has_prefix(
            uppercased(start_trimmed(text)),
            uppercased(rule.pattern),
        )),
        rule.style == MarkerStyle::Word && after_rule(text, rule) is Some ==> after_rule(text, rule)
            == Some(
            start_trimmed(
                start_trimmed(text).subrange(
                    rule.pattern.len() as int,
                    start_trimmed(text).len() as int,
                ),
            ),
        ),
{
}

/// A line that opens with no letter marker is marked by a word, in any case: "QUESTION" or "ANSWER"
/// with a colon, or else with a full stop. A line that opens with none of these has no marker.
pub proof fn law_words_mark_lines(text: Seq<char>)
    requires
        after_letter_mark(text, 'Q', '.') is None,
        after_letter_mark(text, 'A', '.') is None,
        after_letter_mark(text, 'Q', ':') is None,
        after_letter_mark(text, 'A', ':') is None,
        after_bare_letter(text, 'Q') is None,
        after_bare_letter(text, 'A') is None,
    ensures
        ({
            let u = uppercased(start_trimmed(text));
            let opens = |word: Seq<char>| has_prefix(u, uppercased(word));
            marker_candidate(text) == if opens("QUESTION:"@) {
                Some((MarkerKind::Question, MarkerStyle::Word, "QUESTION:"@))
            } else if opens("ANSWER:"@) {
                Some((MarkerKind::Answer, MarkerStyle::Word, "ANSWER:"@))
            } else if opens("QUESTION."@) {
                Some((MarkerKind::Question, MarkerStyle::Word, "QUESTION."@))
            } else if opens("ANSWER."@) {
                Some((MarkerKind::Answer, MarkerStyle::Word, "ANSWER."@))
            } else {
                None
            }
        }),
{
}

/// What every document starts from: for questions and for answers a letter with a full stop, a bare
/// letter, a letter with a colon and a word, in this order of priority, none observed yet.
pub proof fn law_documents_start_from_these_rules()
    ensures
        ({
            let rules = standard_rules();
            let same = |i: int, kind: MarkerKind, style: MarkerStyle, pattern: Seq<char>, p: u8|
                rules[i].kind == kind && rules[i].style == style && rules[i].pattern == pattern
                    && rules[i].priority == p && rules[i].observations == 0;
            &&& rules.len() == 8
            &&& same(0, MarkerKind::Question, MarkerStyle::Dot, "Q."@, 1)
            &&& same(1, MarkerKind::Answer, MarkerStyle::Dot, "A."@, 1)
            &&& same(2, MarkerKind::Question, MarkerStyle::BareUppercase, "Q"@, 2)
            &&& same(3, MarkerKind::Answer, MarkerStyle::BareUppercase, "A"@, 2)
            &&& same(4, MarkerKind::Question, MarkerStyle::Colon, "Q:"@, 3)
            &&& same(5, MarkerKind::Answer, MarkerStyle::Colon, "A:"@, 3)
            &&& same(6, MarkerKind::Question, MarkerStyle::Word, "QUESTION:"@, 4)
            &&& same(7, MarkerKind::Answer, MarkerStyle::Word, "ANSWER:"@, 4)
        }),
{
}

/// Markers are paired where some rule for questions was observed, and some rule for answers.
pub proof fn law_observed_rules_pair(rules: Seq<MarkerRuleView>, q: int, a: int)
    ensures
        0 <= q < rules.len() && 0 <= a < rules.len() && rules[q].kind == MarkerKind::Question
            && rules[a].kind == MarkerKind::Answer && rules[q].observations > 0
            && rules[a].observations > 0 ==> markers_paired(rules),
        (forall|i: int|
            0 <= i < rules.len() && (#[trigger] rules[i]).kind == MarkerKind::Question
                ==> rules[i].observations == 0) ==> !markers_paired(rules),
        (forall|i: int|
            0 <= i < rules.len() && (#[trigger] rules[i]).kind == MarkerKind::Answer
                ==> rules[i].observations == 0) ==> !markers_paired(rules),
{
}

/// A rule without a pattern, and one for labels, is met by no letter.
pub proof fn law_empty_rules_are_not_met(text: Seq<char>, rule: MarkerRuleView)
    ensures
        rule.style == MarkerStyle::SpeakerPrefixed ==> after_rule(text, rule) is None,
        rule.pattern.len() == 0 && rule.style != MarkerStyle::Word ==> after_rule(
            text,
            rule,
        ) is None,
{
}

} // verus!
