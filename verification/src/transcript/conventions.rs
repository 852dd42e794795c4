//! The conventions that a document follows, as far as its dialogue shows them.
use vstd::prelude::*;

use crate::document::models::{
    dialogue_section, ExtractedDocument, ExtractedPage, ExtractedPageView,
};
use crate::measure::{hundredths, Ratio};
use crate::number::{next, succ, sum, total};
use crate::pieces::{lines, lines_of};
use crate::scan::{same_ignoring_case, same_letters, trim, trimmed, uppercased};
use crate::text::{lemma_filter_first, push_item};
use crate::transcript::format::{parse_source_line, source_line};
use crate::transcript::markers::{
    default_marker_rules, detect_marker_candidate, marker_candidate, new_rule, precedes,
    rule_before, standard_rules,
};
use crate::transcript::models::{
    FormatFingerprint, FormatFingerprintView, MarkerKind, MarkerRule, MarkerRuleView, MarkerStyle,
    PageContext, PageContextView, Participant, ParticipantFunction, ParticipantView, Speaker,
    SpeakerRole, SpeakerView, TranscriptContext, TranscriptContextView,
};
use crate::transcript::parser::role_count;
use crate::transcript::people::{by_heading_label, examiner_label, line_content};
use crate::transcript::profile::TranscriptProfile;
use crate::transcript::registry::{participant_to_speaker, registered_speaker};
use crate::transcript::speaker::{
    colon_turn, default_witness, is_redacted_label, labelled_turn, redacted_label,
    split_any_speaker_prefix, split_colon_label, split_titled_speaker_prefix, titled_turn,
};

verus! {

// ---------------------------------------------------------------------------
// Marker rules
// ---------------------------------------------------------------------------

/// Where the rule for a marker stands, or how many rules there are.
pub open spec fn rule_index(
    rules: Seq<MarkerRuleView>,
    kind: MarkerKind,
    style: MarkerStyle,
    pattern: Seq<char>,
    from: int,
) -> int
    decreases rules.len() - from,
{
    if 0 <= from < rules.len() && !(rules[from].kind == kind && rules[from].style == style
        && same_ignoring_case(rules[from].pattern, pattern)) {
        rule_index(rules, kind, style, pattern, from + 1)
    } else {
        from
    }
}

fn find_rule(rules: &Vec<MarkerRule>, kind: MarkerKind, style: MarkerStyle, pattern: &str) -> (i:
    usize)
    ensures
        i == rule_index(rules.deep_view(), kind, style, pattern@, 0),
        i <= rules@.len(),
{
    let mut i: usize = 0;
    while i < rules.len() && !(rules[i].kind == kind && rules[i].style == style && same_letters(
        rules[i].pattern.as_str(),
        pattern,
    ))
        invariant
            i <= rules@.len(),
            rule_index(rules.deep_view(), kind, style, pattern@, i as int) == rule_index(
                rules.deep_view(),
                kind,
                style,
                pattern@,
                0,
            ),
        decreases rules@.len() - i,
    {
        assert(rules.deep_view()[i as int] == rules@[i as int].deep_view());
        i += 1;
    }
    assert(i < rules@.len() ==> rules.deep_view()[i as int] == rules@[i as int].deep_view());
    i
}

/// Rules with one for a marker.
pub open spec fn rule_ensured(
    rules: Seq<MarkerRuleView>,
    kind: MarkerKind,
    style: MarkerStyle,
    pattern: Seq<char>,
    priority: u8,
) -> Seq<MarkerRuleView> {
    if rule_index(rules, kind, style, pattern, 0) < rules.len() {
        rules
    } else {
        rules.push(new_rule(kind, style, pattern, priority))
    }
}

fn ensure_rule(
    rules: &mut Vec<MarkerRule>,
    kind: MarkerKind,
    style: MarkerStyle,
    pattern: &str,
    priority: u8,
)
    ensures
        final(rules).deep_view() == rule_ensured(
            old(rules).deep_view(),
            kind,
            style,
            pattern@,
            priority,
        ),
{
    if find_rule(rules, kind, style, pattern) < rules.len() {
        return;
    }
    push_item(
        rules,
        MarkerRule { kind, style, pattern: pattern.to_owned(), priority, observations: 0 },
    );
}

/// The priority of a style of marker.
pub open spec fn style_priority(style: MarkerStyle) -> u8 {
    match style {
        MarkerStyle::Dot => 1,
        MarkerStyle::BareUppercase => 2,
        MarkerStyle::Colon => 3,
        MarkerStyle::Word => 4,
        MarkerStyle::SpeakerPrefixed => 5,
    }
}

fn priority_for_style(style: MarkerStyle) -> (r: u8)
    ensures
        r == style_priority(style),
{
    match style {
        MarkerStyle::Dot => 1,
        MarkerStyle::BareUppercase => 2,
        MarkerStyle::Colon => 3,
        MarkerStyle::Word => 4,
        MarkerStyle::SpeakerPrefixed => 5,
    }
}

/// Rules after a marker was observed once more.
pub open spec fn rule_observed(
    rules: Seq<MarkerRuleView>,
    kind: MarkerKind,
    style: MarkerStyle,
    pattern: Seq<char>,
) -> Seq<MarkerRuleView> {
    let i = rule_index(rules, kind, style, pattern, 0);
    if i < rules.len() {
        rules.update(
            i,
            MarkerRuleView { observations: succ(rules[i].observations), ..rules[i] },
        )
    } else {
        rules.push(
            MarkerRuleView {
                observations: 1,
                ..new_rule(kind, style, pattern, style_priority(style))
            },
        )
    }
}

fn increment_rule(
    rules: &mut Vec<MarkerRule>,
    kind: MarkerKind,
    style: MarkerStyle,
    pattern: &str,
)
    ensures
        final(rules).deep_view() == rule_observed(old(rules).deep_view(), kind, style, pattern@),
{
    let ghost before = rules.deep_view();
    let i = find_rule(rules, kind, style, pattern);
    if i < rules.len() {
        assert(before[i as int] == rules@[i as int].deep_view());
        let observations = next(rules[i].observations);
        rules[i].observations = observations;
        assert(rules.deep_view() =~= rule_observed(before, kind, style, pattern@));
    } else {
        push_item(
            rules,
            MarkerRule {
                kind,
                style,
                pattern: pattern.to_owned(),
                priority: priority_for_style(style),
                observations: 1,
            },
        );
    }
}

/// Rules with one for each of the first `n` word markers.
pub open spec fn words_ensured(
    rules: Seq<MarkerRuleView>,
    kind: MarkerKind,
    markers: Seq<Seq<char>>,
    n: int,
) -> Seq<MarkerRuleView>
    decreases n,
{
    if n <= 0 {
        rules
    } else {
        rule_ensured(
            words_ensured(rules, kind, markers, n - 1),
            kind,
            MarkerStyle::Word,
            markers[n - 1],
            4,
        )
    }
}

fn ensure_words(rules: &mut Vec<MarkerRule>, kind: MarkerKind, markers: &[&'static str])
    ensures
        final(rules).deep_view() == words_ensured(
            old(rules).deep_view(),
            kind,
            markers.deep_view(),
            markers.deep_view().len() as int,
        ),
{
    let ghost before = rules.deep_view();
    for n in 0..markers.len()
        invariant
            rules.deep_view() == words_ensured(before, kind, markers.deep_view(), n as int),
    {
        assert(markers.deep_view()[n as int] == markers@[n as int]@);
        ensure_rule(rules, kind, MarkerStyle::Word, markers[n], 4);
    }
}

/// Rules after one more line of dialogue. A speaker's "A what?" does not teach a document
/// that a bare A is an answer: markers are learned only where they open a line.
pub open spec fn line_learned(rules: Seq<MarkerRuleView>, content: Seq<char>) -> Seq<
    MarkerRuleView,
> {
    if labelled_turn(content) is Some {
        rules
    } else {
        match marker_candidate(content) {
            Some((kind, style, pattern)) => rule_observed(rules, kind, style, pattern),
            None => rules,
        }
    }
}

/// Rules after the first `n` lines of a page.
pub open spec fn page_learned(
    rules: Seq<MarkerRuleView>,
    page: ExtractedPageView,
    max: u16,
    n: int,
) -> Seq<MarkerRuleView>
    decreases n,
{
    if n <= 0 {
        rules
    } else {
        line_learned(
            page_learned(rules, page, max, n - 1),
            line_content(page, lines_of(page.text)[n - 1], max),
        )
    }
}

fn learn_page(rules: &mut Vec<MarkerRule>, page: &ExtractedPage, max: u16)
    ensures
        final(rules).deep_view() == page_learned(
            old(rules).deep_view(),
            page.deep_view(),
            max,
            lines_of(page.deep_view().text).len() as int,
        ),
{
    let ghost before = rules.deep_view();
    let ghost view = page.deep_view();
    let list = lines(page.text.as_str());
    for n in 0..list.len()
        invariant
            view == page.deep_view(),
            list.deep_view() == lines_of(view.text),
            rules.deep_view() == page_learned(before, view, max, n as int),
    {
        assert(list.deep_view()[n as int] == list@[n as int]@);
        let (_, body) = parse_source_line(page, trim(list[n].as_str()), max);
        let content = trim(body);
        if split_any_speaker_prefix(content).is_none() {
            match detect_marker_candidate(content) {
                Some((kind, style, pattern)) => {
                    increment_rule(rules, kind, style, pattern);
                },
                None => {},
            }
        }
    }
}

/// Rules after the first `n` pages.
pub open spec fn pages_learned(
    rules: Seq<MarkerRuleView>,
    pages: Seq<ExtractedPageView>,
    max: u16,
    n: int,
) -> Seq<MarkerRuleView>
    decreases n,
{
    if n <= 0 {
        rules
    } else {
        let before = pages_learned(rules, pages, max, n - 1);
        if dialogue_section(pages[n - 1].section) {
            page_learned(before, pages[n - 1], max, lines_of(pages[n - 1].text).len() as int)
        } else {
            before
        }
    }
}

/// The rules that a document teaches, in the order in which they were added.
pub open spec fn learned_rules(
    pages: Seq<ExtractedPageView>,
    max: u16,
    questions: Seq<Seq<char>>,
    answers: Seq<Seq<char>>,
) -> Seq<MarkerRuleView> {
    let asked = words_ensured(
        standard_rules(),
        MarkerKind::Question,
        questions,
        questions.len() as int,
    );
    let known = words_ensured(asked, MarkerKind::Answer, answers, answers.len() as int);
    pages_learned(known, pages, max, pages.len() as int)
}

pub fn build_marker_rules(document: &ExtractedDocument, profile: &TranscriptProfile) -> (r: Vec<
    MarkerRule,
>)
    ensures
        r.deep_view() == learned_rules(
            document.deep_view().pages,
            profile.deep_view().max_line_number,
            profile.deep_view().word_question_markers,
            profile.deep_view().word_answer_markers,
        ),
{
    let max = profile.max_line_number;
    let ghost pages = document.deep_view().pages;
    let mut rules = default_marker_rules();
    ensure_words(&mut rules, MarkerKind::Question, profile.word_question_markers);
    ensure_words(&mut rules, MarkerKind::Answer, profile.word_answer_markers);
    let ghost known = rules.deep_view();
    for n in 0..document.pages.len()
        invariant
            pages == document.pages.deep_view(),
            rules.deep_view() == pages_learned(known, pages, max, n as int),
    {
        assert(pages[n as int] == document.pages@[n as int].deep_view());
        if document.pages[n].section.is_dialogue() {
            learn_page(&mut rules, &document.pages[n], max);
        }
    }
    rules
}

// ---------------------------------------------------------------------------
// The order of rules
// ---------------------------------------------------------------------------

/// Where a rule goes among sorted rules: behind every rule that it is not tried before.
pub open spec fn rule_place(sorted: Seq<MarkerRuleView>, rule: MarkerRuleView, to: int) -> int
    decreases to,
{
    if 0 < to <= sorted.len() && rule_before(rule, sorted[to - 1]) {
        rule_place(sorted, rule, to - 1)
    } else {
        to
    }
}

/// The first `n` rules in the order in which they are tried; those that tie stay in order.
pub open spec fn sorted_rules(rules: Seq<MarkerRuleView>, n: int) -> Seq<MarkerRuleView>
    decreases n,
{
    if n <= 0 {
        seq![]
    } else {
        let sorted = sorted_rules(rules, n - 1);
        sorted.insert(rule_place(sorted, rules[n - 1], sorted.len() as int), rules[n - 1])
    }
}

proof fn lemma_rule_place(sorted: Seq<MarkerRuleView>, rule: MarkerRuleView, to: int)
    requires
        0 <= to <= sorted.len(),
    ensures
        0 <= rule_place(sorted, rule, to) <= to,
        forall|i: int|
            rule_place(sorted, rule, to) <= i < to ==> rule_before(rule, #[trigger] sorted[i]),
        rule_place(sorted, rule, to) > 0 ==> !rule_before(
            rule,
            sorted[rule_place(sorted, rule, to) - 1],
        ),
    decreases to,
{
    if 0 < to && rule_before(rule, sorted[to - 1]) {
        lemma_rule_place(sorted, rule, to - 1);
    }
}

/// Sorts rules into the order in which they are tried.
pub fn sort_rules(rules: Vec<MarkerRule>) -> (r: Vec<MarkerRule>)
    ensures
        r.deep_view() == sorted_rules(rules.deep_view(), rules.deep_view().len() as int),
{
    let mut sorted: Vec<MarkerRule> = Vec::new();
    assert(sorted.deep_view() =~= seq![]);
    for n in 0..rules.len()
        invariant
            sorted.deep_view() == sorted_rules(rules.deep_view(), n as int),
    {
        assert(rules.deep_view()[n as int] == rules@[n as int].deep_view());
        let ghost before = sorted.deep_view();
        let ghost rule = rules@[n as int].deep_view();
        let mut at: usize = sorted.len();
        while at > 0 && precedes(&rules[n], &sorted[at - 1])
            invariant
                n < rules@.len(),
                at <= sorted@.len(),
                before == sorted.deep_view(),
                rule == rules@[n as int].deep_view(),
                rule_place(before, rule, at as int) == rule_place(
                    before,
                    rule,
                    before.len() as int,
                ),
            decreases at,
        {
            assert(before[at - 1] == sorted@[at - 1].deep_view());
            at -= 1;
        }
        assert(at > 0 ==> before[at - 1] == sorted@[at - 1].deep_view());
        sorted.insert(at, rules[n].clone());
        assert(sorted.deep_view() =~= before.insert(at as int, rule));
    }
    sorted
}

/// Whether rules stand in the order in which they are tried.
pub open spec fn rules_in_order(rules: Seq<MarkerRuleView>) -> bool {
    forall|i: int, j: int|
        0 <= i < j < rules.len() ==> !rule_before(#[trigger] rules[j], #[trigger] rules[i])
}

/// Sorted rules are in order, and are the same rules.
pub proof fn law_sorted_rules(rules: Seq<MarkerRuleView>, n: int)
    requires
        0 <= n <= rules.len(),
    ensures
        rules_in_order(sorted_rules(rules, n)),
        sorted_rules(rules, n).to_multiset() == rules.take(n).to_multiset(),
    decreases n,
{
    broadcast use vstd::seq_lib::group_to_multiset_ensures;

    if n > 0 {
        law_sorted_rules(rules, n - 1);
        let sorted = sorted_rules(rules, n - 1);
        let rule = rules[n - 1];
        lemma_rule_place(sorted, rule, sorted.len() as int);
        let at = rule_place(sorted, rule, sorted.len() as int);
        let after = sorted_rules(rules, n);
        assert forall|i: int, j: int| 0 <= i < j < after.len() implies !rule_before(
            #[trigger] after[j],
            #[trigger] after[i],
        ) by {
            let a = if i < at {
                sorted[i]
            } else if i == at {
                rule
            } else {
                sorted[i - 1]
            };
            let b = if j < at {
                sorted[j]
            } else if j == at {
                rule
            } else {
                sorted[j - 1]
            };
            assert(after[i] == a && after[j] == b);
            if j == at && i < at - 1 {
                assert(!rule_before(sorted[at - 1], sorted[i]));
            }
        }
        assert(rules.take(n) =~= rules.take(n - 1).push(rule));
        sorted.insert_ensures(at, rule);
        assert(after.to_multiset() =~= sorted.to_multiset().insert(rule));
    } else {
        assert(rules.take(0) =~= sorted_rules(rules, 0));
    }
}

// ---------------------------------------------------------------------------
// The fingerprint
// ---------------------------------------------------------------------------

/// The rules of a kind among the first `n`.
pub open spec fn rules_of_kind(rules: Seq<MarkerRuleView>, kind: MarkerKind, n: int) -> Seq<
    MarkerRuleView,
>
    decreases n,
{
    if n <= 0 {
        seq![]
    } else if rules[n - 1].kind == kind {
        rules_of_kind(rules, kind, n - 1).push(rules[n - 1])
    } else {
        rules_of_kind(rules, kind, n - 1)
    }
}

fn select_rules(rules: &Vec<MarkerRule>, kind: MarkerKind) -> (r: Vec<MarkerRule>)
    ensures
        r.deep_view() == rules_of_kind(rules.deep_view(), kind, rules.deep_view().len() as int),
{
    let mut r: Vec<MarkerRule> = Vec::new();
    assert(r.deep_view() =~= seq![]);
    for n in 0..rules.len()
        invariant
            r.deep_view() == rules_of_kind(rules.deep_view(), kind, n as int),
    {
        assert(rules.deep_view()[n as int] == rules@[n as int].deep_view());
        if rules[n].kind == kind {
            push_item(&mut r, rules[n].clone());
        }
    }
    r
}

/// How often the markers of the first `n` rules were observed.
pub open spec fn marker_total(rules: Seq<MarkerRuleView>, n: int) -> usize
    decreases n,
{
    if n <= 0 {
        0
    } else {
        total(marker_total(rules, n - 1), rules[n - 1].observations)
    }
}

/// Computes [`marker_total`] of all rules.
pub fn total_observations(rules: &Vec<MarkerRule>) -> (r: usize)
    ensures
        r == marker_total(rules.deep_view(), rules.deep_view().len() as int),
{
    let mut r: usize = 0;
    for n in 0..rules.len()
        invariant
            r == marker_total(rules.deep_view(), n as int),
    {
        assert(rules.deep_view()[n as int] == rules@[n as int].deep_view());
        r = sum(r, rules[n].observations);
    }
    r
}

/// How often markers of a kind were observed.
pub open spec fn kind_total(rules: Seq<MarkerRuleView>, kind: MarkerKind) -> usize {
    let own = rules_of_kind(rules, kind, rules.len() as int);
    marker_total(own, own.len() as int)
}

fn total_of_kind(rules: &Vec<MarkerRule>, kind: MarkerKind) -> (r: usize)
    ensures
        r == kind_total(rules.deep_view(), kind),
{
    total_observations(&select_rules(rules, kind))
}

/// The rule among the first `n` that was observed most; of several, the one with the lower
/// priority number, and the last of those.
pub open spec fn dominant_rule(rules: Seq<MarkerRuleView>, n: int) -> Option<int>
    decreases n,
{
    if n <= 0 {
        None
    } else {
        let best = dominant_rule(rules, n - 1);
        let rule = rules[n - 1];
        if rule.observations > 0 && (best matches Some(i) ==> rule.observations
            > rules[i].observations || (rule.observations == rules[i].observations && rule.priority
            <= rules[i].priority)) {
            Some(n - 1)
        } else {
            best
        }
    }
}

/// The pattern that was observed most.
pub open spec fn dominant_pattern(rules: Seq<MarkerRuleView>) -> Option<Seq<char>> {
    match dominant_rule(rules, rules.len() as int) {
        Some(i) => Some(rules[i].pattern),
        None => None,
    }
}

fn dominant_marker(rules: &Vec<MarkerRule>) -> (r: Option<String>)
    ensures
        r.deep_view() == dominant_pattern(rules.deep_view()),
{
    let ghost view = rules.deep_view();
    let mut best: Option<usize> = None;
    for n in 0..rules.len()
        invariant
            view == rules.deep_view(),
            match best {
                Some(i) => i < n && dominant_rule(view, n as int) == Some(i as int),
                None => dominant_rule(view, n as int) is None,
            },
    {
        assert(view[n as int] == rules@[n as int].deep_view());
        let ahead = match best {
            Some(i) => {
                assert(view[i as int] == rules@[i as int].deep_view());
                rules[n].observations > rules[i].observations || (rules[n].observations
                    == rules[i].observations && rules[n].priority <= rules[i].priority)
            },
            None => true,
        };
        if rules[n].observations > 0 && ahead {
            best = Some(n);
        }
    }
    match best {
        Some(i) => {
            assert(view[i as int] == rules@[i as int].deep_view());
            Some(rules[i].pattern.clone())
        },
        None => None,
    }
}

/// What the lines of a document show of its conventions.
#[derive(Clone, Copy)]
pub struct StyleSignals {
    pub colon_turns: usize,
    pub titled_turns: usize,
    pub headings: bool,
    pub redacted_labels: bool,
}

/// The signals after one more line.
pub open spec fn line_signals(s: StyleSignals, line: Seq<char>) -> StyleSignals {
    let colon = colon_turn(line);
    StyleSignals {
        colon_turns: if colon matches Some((_, text)) && text.len() > 0 {
            succ(s.colon_turns)
        } else {
            s.colon_turns
        },
        titled_turns: if titled_turn(line) is Some {
            succ(s.titled_turns)
        } else {
            s.titled_turns
        },
        headings: s.headings || examiner_label(line) is Some,
        redacted_labels: s.redacted_labels || (colon matches Some((label, _)) && redacted_label(
            label,
        )),
    }
}

fn signal_line(s: StyleSignals, line: &str) -> (r: StyleSignals)
    ensures
        r == line_signals(s, line@),
{
    let mut r = s;
    match split_colon_label(line) {
        Some((label, text)) => {
            if !text.is_empty() {
                r.colon_turns = next(r.colon_turns);
            }
            if is_redacted_label(label) {
                r.redacted_labels = true;
            }
        },
        None => {},
    }
    if split_titled_speaker_prefix(line).is_some() {
        r.titled_turns = next(r.titled_turns);
    }
    if by_heading_label(line).is_some() {
        r.headings = true;
    }
    r
}

/// The signals after the first `n` lines of a page.
pub open spec fn page_style(s: StyleSignals, page: ExtractedPageView, n: int) -> StyleSignals
    decreases n,
{
    if n <= 0 {
        s
    } else {
        line_signals(
            page_style(s, page, n - 1),
            source_line(page, trimmed(lines_of(page.text)[n - 1]), 100).1,
        )
    }
}

fn style_page(s: StyleSignals, page: &ExtractedPage) -> (r: StyleSignals)
    ensures
        r == page_style(s, page.deep_view(), lines_of(page.deep_view().text).len() as int),
{
    let ghost view = page.deep_view();
    let list = lines(page.text.as_str());
    let mut r = s;
    for n in 0..list.len()
        invariant
            view == page.deep_view(),
            list.deep_view() == lines_of(view.text),
            r == page_style(s, view, n as int),
    {
        assert(list.deep_view()[n as int] == list@[n as int]@);
        let (_, body) = parse_source_line(page, trim(list[n].as_str()), 100);
        r = signal_line(r, body);
    }
    r
}

/// The signals of the first `n` pages.
pub open spec fn style_signals(pages: Seq<ExtractedPageView>, n: int) -> StyleSignals
    decreases n,
{
    if n <= 0 {
        StyleSignals { colon_turns: 0, titled_turns: 0, headings: false, redacted_labels: false }
    } else {
        let before = style_signals(pages, n - 1);
        if dialogue_section(pages[n - 1].section) {
            page_style(before, pages[n - 1], lines_of(pages[n - 1].text).len() as int)
        } else {
            before
        }
    }
}

fn collect_style(document: &ExtractedDocument) -> (r: StyleSignals)
    ensures
        r == style_signals(
            document.deep_view().pages,
            document.deep_view().pages.len() as int,
        ),
{
    let ghost pages = document.deep_view().pages;
    let mut r = StyleSignals {
        colon_turns: 0,
        titled_turns: 0,
        headings: false,
        redacted_labels: false,
    };
    for n in 0..document.pages.len()
        invariant
            pages == document.pages.deep_view(),
            r == style_signals(pages, n as int),
    {
        assert(pages[n as int] == document.pages@[n as int].deep_view());
        if document.pages[n].section.is_dialogue() {
            r = style_page(r, &document.pages[n]);
        }
    }
    r
}

/// How many of the first `n` pages are dialogue, and of those with a label if `labelled`.
pub open spec fn dialogue_page_count(contexts: Seq<PageContextView>, labelled: bool, n: int) -> nat
    decreases n,
{
    if n <= 0 {
        0
    } else {
        dialogue_page_count(contexts, labelled, n - 1) + if dialogue_section(
            contexts[n - 1].section,
        ) && (labelled ==> contexts[n - 1].transcript_page is Some) {
            1nat
        } else {
            0nat
        }
    }
}

/// Computes [`dialogue_page_count`] of all pages.
pub fn count_dialogue_pages(contexts: &Vec<PageContext>, labelled: bool) -> (r: usize)
    ensures
        r == dialogue_page_count(
            contexts.deep_view(),
            labelled,
            contexts.deep_view().len() as int,
        ),
{
    let mut r: usize = 0;
    for n in 0..contexts.len()
        invariant
            r <= n,
            r == dialogue_page_count(contexts.deep_view(), labelled, n as int),
    {
        assert(contexts.deep_view()[n as int] == contexts@[n as int].deep_view());
        if contexts[n].section.is_dialogue() && (!labelled || contexts[n].transcript_page.is_some())
        {
            r += 1;
        }
    }
    r
}

/// What there is to note about the conventions of a document.
pub open spec fn style_notes(redacted_labels: bool, unmarked: bool) -> Seq<Seq<char>> {
    let none = Seq::<Seq<char>>::empty();
    let first = if redacted_labels {
        none.push(
            "Redacted speaker labels detected; participant identity must not be inferred from the redaction token alone."@,
        )
    } else {
        none
    };
    if unmarked {
        first.push(
            "No dominant Q/A marker pair; speaker labels and conversational structure require greater weight."@,
        )
    } else {
        first
    }
}

/// The conventions of a document.
pub open spec fn fingerprint_of(
    pages: Seq<ExtractedPageView>,
    contexts: Seq<PageContextView>,
    rules: Seq<MarkerRuleView>,
    line_min: Option<u16>,
    line_max: Option<u16>,
) -> FormatFingerprintView {
    let questions = rules_of_kind(rules, MarkerKind::Question, rules.len() as int);
    let answers = rules_of_kind(rules, MarkerKind::Answer, rules.len() as int);
    let paired = marker_total(questions, questions.len() as int) >= 1 && marker_total(
        answers,
        answers.len() as int,
    ) >= 1;
    let question = if paired {
        dominant_pattern(questions)
    } else {
        None
    };
    let answer = if paired {
        dominant_pattern(answers)
    } else {
        None
    };
    let signals = style_signals(pages, pages.len() as int);
    FormatFingerprintView {
        question_markers: questions,
        answer_markers: answers,
        dominant_question_marker: question,
        dominant_answer_marker: answer,
        speaker_prefixed_dialogue: signals.colon_turns >= 2 || signals.titled_turns >= 1,
        colon_speaker_prefixed_dialogue: signals.colon_turns >= 2,
        titled_speaker_prefixed_dialogue: signals.titled_turns >= 1,
        examination_heading_style_detected: signals.headings,
        redacted_speaker_labels_detected: signals.redacted_labels,
        typical_line_min: line_min,
        typical_line_max: line_max,
        transcript_page_labels_detected: dialogue_page_count(
            contexts,
            true,
            contexts.len() as int,
        ) as usize,
        notes: style_notes(signals.redacted_labels, question is None || answer is None),
    }
}

pub fn build_format_fingerprint(
    document: &ExtractedDocument,
    page_contexts: &Vec<PageContext>,
    marker_rules: &Vec<MarkerRule>,
    typical_line_min: Option<u16>,
    typical_line_max: Option<u16>,
) -> (r: FormatFingerprint)
    ensures
        r.deep_view() == fingerprint_of(
            document.deep_view().pages,
            page_contexts.deep_view(),
            marker_rules.deep_view(),
            typical_line_min,
            typical_line_max,
        ),
{
    let question_markers = select_rules(marker_rules, MarkerKind::Question);
    let answer_markers = select_rules(marker_rules, MarkerKind::Answer);
    let paired = total_observations(&question_markers) >= 1 && total_observations(&answer_markers)
        >= 1;
    let question = if paired {
        dominant_marker(&question_markers)
    } else {
        None
    };
    let answer = if paired {
        dominant_marker(&answer_markers)
    } else {
        None
    };
    let signals = collect_style(document);
    let mut notes: Vec<String> = Vec::new();
    assert(notes.deep_view() =~= seq![]);
    if signals.redacted_labels {
        push_item(
            &mut notes,
            "Redacted speaker labels detected; participant identity must not be inferred from the redaction token alone.".to_owned(),
        );
    }
    if question.is_none() || answer.is_none() {
        push_item(
            &mut notes,
            "No dominant Q/A marker pair; speaker labels and conversational structure require greater weight.".to_owned(),
        );
    }
    FormatFingerprint {
        question_markers,
        answer_markers,
        dominant_question_marker: question,
        dominant_answer_marker: answer,
        speaker_prefixed_dialogue: signals.colon_turns >= 2 || signals.titled_turns >= 1,
        colon_speaker_prefixed_dialogue: signals.colon_turns >= 2,
        titled_speaker_prefixed_dialogue: signals.titled_turns >= 1,
        examination_heading_style_detected: signals.headings,
        redacted_speaker_labels_detected: signals.redacted_labels,
        typical_line_min,
        typical_line_max,
        transcript_page_labels_detected: count_dialogue_pages(page_contexts, true),
        notes,
    }
}

// ---------------------------------------------------------------------------
// Primary speakers
// ---------------------------------------------------------------------------

/// Whether a participant can be the primary witness, or the primary questioner.
pub open spec fn eligible(p: ParticipantView, witness: bool) -> bool {
    if witness {
        p.role == SpeakerRole::Witness || p.function == ParticipantFunction::Witness || p.function
            == ParticipantFunction::Interviewee
    } else {
        p.role == SpeakerRole::Attorney
    }
}

/// Whether a participant is at least as active as another: in answers or questions, and then
/// in turns.
pub open spec fn as_active(p: ParticipantView, q: ParticipantView, witness: bool) -> bool {
    let a = if witness {
        p.answer_observations
    } else {
        p.question_observations
    };
    let b = if witness {
        q.answer_observations
    } else {
        q.question_observations
    };
    a > b || (a == b && p.observations >= q.observations)
}

/// The most active eligible participant among the first `n`; the last of several.
pub open spec fn primary_index(list: Seq<ParticipantView>, witness: bool, n: int) -> Option<int>
    decreases n,
{
    if n <= 0 {
        None
    } else {
        let best = primary_index(list, witness, n - 1);
        if eligible(list[n - 1], witness) && (best matches Some(i) ==> as_active(
            list[n - 1],
            list[i],
            witness,
        )) {
            Some(n - 1)
        } else {
            best
        }
    }
}

fn find_primary(list: &Vec<Participant>, witness: bool) -> (r: Option<usize>)
    ensures
        match r {
            Some(i) => i < list@.len() && primary_index(
                list.deep_view(),
                witness,
                list.deep_view().len() as int,
            ) == Some(i as int),
            None => primary_index(
                list.deep_view(),
                witness,
                list.deep_view().len() as int,
            ) is None,
        },
{
    let ghost view = list.deep_view();
    let mut best: Option<usize> = None;
    for n in 0..list.len()
        invariant
            view == list.deep_view(),
            match best {
                Some(i) => i < n && primary_index(view, witness, n as int) == Some(i as int),
                None => primary_index(view, witness, n as int) is None,
            },
    {
        assert(view[n as int] == list@[n as int].deep_view());
        let p = &list[n];
        let fits = if witness {
            p.role == SpeakerRole::Witness || p.function == ParticipantFunction::Witness
                || p.function == ParticipantFunction::Interviewee
        } else {
            p.role == SpeakerRole::Attorney
        };
        let ahead = match best {
            Some(i) => {
                assert(view[i as int] == list@[i as int].deep_view());
                let a = if witness {
                    p.answer_observations
                } else {
                    p.question_observations
                };
                let b = if witness {
                    list[i].answer_observations
                } else {
                    list[i].question_observations
                };
                a > b || (a == b && p.observations >= list[i].observations)
            },
            None => true,
        };
        if fits && ahead {
            best = Some(n);
        }
    }
    best
}

/// The primary questioner: the attorney who asks most. Of several attorneys who never ask,
/// none is.
pub open spec fn primary_questioner_of(list: Seq<ParticipantView>) -> Option<SpeakerView> {
    match primary_index(list, false, list.len() as int) {
        Some(i) => if list[i].question_observations == 0 && role_count(
            list,
            SpeakerRole::Attorney,
            list.len() as int,
        ) > 1 {
            None
        } else {
            Some(registered_speaker(list[i]))
        },
        None => None,
    }
}

pub fn pick_primary_questioner(participants: &Vec<Participant>) -> (r: Option<Speaker>)
    ensures
        r.deep_view() == primary_questioner_of(participants.deep_view()),
{
    let i = match find_primary(participants, false) {
        Some(i) => i,
        None => {
            return None;
        },
    };
    assert(participants.deep_view()[i as int] == participants@[i as int].deep_view());
    let mut attorneys: usize = 0;
    for n in 0..participants.len()
        invariant
            attorneys <= n,
            attorneys == role_count(participants.deep_view(), SpeakerRole::Attorney, n as int),
    {
        assert(participants.deep_view()[n as int] == participants@[n as int].deep_view());
        if participants[n].role == SpeakerRole::Attorney {
            attorneys += 1;
        }
    }
    if participants[i].question_observations == 0 && attorneys > 1 {
        None
    } else {
        Some(participant_to_speaker(&participants[i]))
    }
}

/// The primary witness: the witness who answers most, or, where answers are marked but no
/// witness is known, someone called the witness.
pub open spec fn primary_witness_of(list: Seq<ParticipantView>, rules: Seq<MarkerRuleView>) ->
    Option<SpeakerView> {
    match primary_index(list, true, list.len() as int) {
        Some(i) => Some(
            SpeakerView { role: SpeakerRole::Witness, ..registered_speaker(list[i]) },
        ),
        None => if kind_total(rules, MarkerKind::Answer) > 0 {
            Some(default_witness())
        } else {
            None
        },
    }
}

pub fn pick_primary_witness(participants: &Vec<Participant>, marker_rules: &Vec<MarkerRule>) -> (r:
    Option<Speaker>)
    ensures
        r.deep_view() == primary_witness_of(participants.deep_view(), marker_rules.deep_view()),
{
    match find_primary(participants, true) {
        Some(i) => {
            assert(participants.deep_view()[i as int] == participants@[i as int].deep_view());
            let mut speaker = participant_to_speaker(&participants[i]);
            speaker.role = SpeakerRole::Witness;
            Some(speaker)
        },
        None => if total_of_kind(marker_rules, MarkerKind::Answer) > 0 {
            Some(
                Speaker {
                    participant_id: Some("witness_1".to_owned()),
                    label: "THE WITNESS".to_owned(),
                    role: SpeakerRole::Witness,
                    redacted: false,
                },
            )
        } else {
            None
        },
    }
}

// ---------------------------------------------------------------------------
// Confidence
// ---------------------------------------------------------------------------

/// How many of the first `n` participants have a known role.
pub open spec fn known_role_count(list: Seq<ParticipantView>, n: int) -> nat
    decreases n,
{
    if n <= 0 {
        0
    } else {
        known_role_count(list, n - 1) + if list[n - 1].role != SpeakerRole::Unknown {
            1nat
        } else {
            0nat
        }
    }
}

/// How far participants speak for the format having been understood.
pub open spec fn participants_confidence(list: Seq<ParticipantView>, rules: Seq<MarkerRuleView>) ->
    Ratio {
    if list.len() == 0 {
        if marker_total(rules, rules.len() as int) >= 20 {
            hundredths(60)
        } else {
            hundredths(30)
        }
    } else {
        Ratio {
            part: known_role_count(list, list.len() as int) as usize,
            whole: list.len() as usize,
        }
    }
}

pub fn participant_confidence(participants: &Vec<Participant>, marker_rules: &Vec<MarkerRule>) ->
    (r: Ratio)
    ensures
        r == participants_confidence(participants.deep_view(), marker_rules.deep_view()),
{
    if participants.len() == 0 {
        return if total_observations(marker_rules) >= 20 {
            Ratio::of_hundred(60)
        } else {
            Ratio::of_hundred(30)
        };
    }
    let mut known: usize = 0;
    for n in 0..participants.len()
        invariant
            known <= n,
            known == known_role_count(participants.deep_view(), n as int),
    {
        assert(participants.deep_view()[n as int] == participants@[n as int].deep_view());
        if participants[n].role != SpeakerRole::Unknown {
            known += 1;
        }
    }
    Ratio { part: known, whole: participants.len() }
}

/// How far markers speak for the format having been understood, in hundredths. Labelled
/// dialogue can be strong without them.
pub open spec fn markers_confidence(questions: usize, answers: usize, labelled: bool) -> u8 {
    let all = total(questions, answers);
    if all >= 40 && questions > 0 && answers > 0 {
        100
    } else if all >= 8 {
        82
    } else if all > 0 {
        60
    } else if labelled {
        82
    } else {
        35
    }
}

pub fn marker_confidence(marker_rules: &Vec<MarkerRule>, fingerprint: &FormatFingerprint) -> (r: u8)
    ensures
        r == markers_confidence(
            kind_total(marker_rules.deep_view(), MarkerKind::Question),
            kind_total(marker_rules.deep_view(), MarkerKind::Answer),
            fingerprint.deep_view().speaker_prefixed_dialogue,
        ),
{
    let questions = total_of_kind(marker_rules, MarkerKind::Question);
    let answers = total_of_kind(marker_rules, MarkerKind::Answer);
    let all = sum(questions, answers);
    if all >= 40 && questions > 0 && answers > 0 {
        100
    } else if all >= 8 {
        82
    } else if all > 0 {
        60
    } else if fingerprint.speaker_prefixed_dialogue {
        82
    } else {
        35
    }
}

/// Whether a document labels its turns and hardly marks them.
pub open spec fn labels_only(context: TranscriptContextView) -> bool {
    context.format_fingerprint.speaker_prefixed_dialogue && marker_total(
        context.marker_rules,
        context.marker_rules.len() as int,
    ) < 4
}

pub fn speaker_only_dialogue_mode(context: &TranscriptContext) -> (r: bool)
    ensures
        r == labels_only(context.deep_view()),
{
    context.format_fingerprint.speaker_prefixed_dialogue && total_observations(
        &context.marker_rules,
    ) < 4
}

// ---------------------------------------------------------------------------
// Laws of what is learned
// ---------------------------------------------------------------------------

/// Whether a rule is for a marker.
pub open spec fn is_rule_for(
    rule: MarkerRuleView,
    kind: MarkerKind,
    style: MarkerStyle,
    pattern: Seq<char>,
) -> bool {
    rule.kind == kind && rule.style == style && uppercased(rule.pattern) == uppercased(pattern)
}

proof fn lemma_rule_index(
    rules: Seq<MarkerRuleView>,
    kind: MarkerKind,
    style: MarkerStyle,
    pattern: Seq<char>,
    from: int,
)
    requires
        0 <= from <= rules.len(),
    ensures
        from <= rule_index(rules, kind, style, pattern, from) <= rules.len(),
        forall|i: int|
            from <= i < rule_index(rules, kind, style, pattern, from) ==> !is_rule_for(
                #[trigger] rules[i],
                kind,
                style,
                pattern,
            ),
        rule_index(rules, kind, style, pattern, from) < rules.len() ==> is_rule_for(
            rules[rule_index(rules, kind, style, pattern, from)],
            kind,
            style,
            pattern,
        ),
    decreases rules.len() - from,
{
    if from < rules.len() && !is_rule_for(rules[from], kind, style, pattern) {
        lemma_rule_index(rules, kind, style, pattern, from + 1);
    }
}

/// A marker that is observed counts for its rule, the first one for it; where there is none, a rule
/// is added that was observed once. All other rules stay.
pub proof fn law_observed_markers_count(
    rules: Seq<MarkerRuleView>,
    kind: MarkerKind,
    style: MarkerStyle,
    pattern: Seq<char>,
)
    ensures
        ({
            let after = rule_observed(rules, kind, style, pattern);
            let known = exists|i: int|
                0 <= i < rules.len() && is_rule_for(#[trigger] rules[i], kind, style, pattern);
            &&& known ==> after.len() == rules.len() && exists|i: int|
                0 <= i < rules.len() && is_rule_for(#[trigger] rules[i], kind, style, pattern) && (
                rules[i].observations < usize::MAX ==> after[i].observations
                    == rules[i].observations + 1) && after[i].pattern == rules[i].pattern
                    && after[i].kind == kind && after[i].style == style && after[i].priority
                    == rules[i].priority && after == rules.update(i, after[i])
            &&& !known ==> after.len() == rules.len() + 1 && after.drop_last() == rules
                && after.last().kind == kind && after.last().style == style && after.last().pattern
                == pattern && after.last().observations == 1
            &&& !known && style == MarkerStyle::Dot ==> after.last().priority == 1
            &&& !known && style == MarkerStyle::BareUppercase ==> after.last().priority == 2
            &&& !known && style == MarkerStyle::Colon ==> after.last().priority == 3
            &&& !known && style == MarkerStyle::Word ==> after.last().priority == 4
            &&& !known && style == MarkerStyle::SpeakerPrefixed ==> after.last().priority == 5
        }),
{
    lemma_rule_index(rules, kind, style, pattern, 0);
    let i = rule_index(rules, kind, style, pattern, 0);
    let after = rule_observed(rules, kind, style, pattern);
    if i < rules.len() {
        assert(is_rule_for(rules[i], kind, style, pattern));
        assert(after =~= rules.update(i, after[i]));
    } else {
        assert(after.drop_last() =~= rules);
    }
}

/// A word marker has a rule once it was asked for, and one only: asking again changes nothing.
pub proof fn law_word_markers_have_rules(
    rules: Seq<MarkerRuleView>,
    kind: MarkerKind,
    style: MarkerStyle,
    pattern: Seq<char>,
    priority: u8,
)
    ensures
        ({
            let after = rule_ensured(rules, kind, style, pattern, priority);
            let known = exists|i: int|
                0 <= i < rules.len() && is_rule_for(#[trigger] rules[i], kind, style, pattern);
            &&& known ==> after == rules
            &&& !known ==> after.len() == rules.len() + 1 && after.drop_last() == rules
                && after.last().kind == kind && after.last().style == style && after.last().pattern
                == pattern && after.last().priority == priority && after.last().observations == 0
            &&& rule_ensured(after, kind, style, pattern, priority) == after
        }),
{
    lemma_rule_index(rules, kind, style, pattern, 0);
    let after = rule_ensured(rules, kind, style, pattern, priority);
    lemma_rule_index(after, kind, style, pattern, 0);
    if rule_index(rules, kind, style, pattern, 0) == rules.len() {
        assert(after.drop_last() =~= rules);
        assert(is_rule_for(after[rules.len() as int], kind, style, pattern));
    }
}

/// A line teaches the marker that it opens with, unless it opens with a label.
pub proof fn law_lines_teach_markers(rules: Seq<MarkerRuleView>, content: Seq<char>)
    ensures
        ({
            let marked = marker_candidate(content);
            let labelled = colon_turn(content) is Some || titled_turn(content) is Some;
            &&& labelled || marked is None ==> line_learned(rules, content) == rules
            &&& !labelled ==> (marked matches Some((kind, style, pattern)) ==> line_learned(
                rules,
                content,
            ) == rule_observed(rules, kind, style, pattern))
        }),
{
}

/// Documents teach by all lines of all pages of dialogue, in order, and by no other page.
pub proof fn law_dialogue_teaches(
    rules: Seq<MarkerRuleView>,
    pages: Seq<ExtractedPageView>,
    max: u16,
    n: int,
    l: int,
)
    requires
        0 <= n < pages.len(),
        0 <= l < lines_of(pages[n].text).len(),
    ensures
        ({
            let before = pages_learned(rules, pages, max, n);
            let lines = lines_of(pages[n].text);
            &&& pages_learned(rules, pages, max, 0) == rules
            &&& !dialogue_section(pages[n].section) ==> pages_learned(rules, pages, max, n + 1)
                == before
            &&& dialogue_section(pages[n].section) ==> pages_learned(rules, pages, max, n + 1)
                == page_learned(before, pages[n], max, lines.len() as int)
            &&& page_learned(before, pages[n], max, 0) == before
            &&& page_learned(before, pages[n], max, l + 1) == line_learned(
                page_learned(before, pages[n], max, l),
                line_content(pages[n], lines[l], max),
            )
        }),
{
}

/// The rules of a kind are those of it, in their order, and their observations add up.
pub proof fn law_rules_are_told_by_kind(rules: Seq<MarkerRuleView>, kind: MarkerKind, n: int)
    requires
        0 <= n < rules.len(),
    ensures
        rules_of_kind(rules, kind, 0).len() == 0,
        rules[n].kind == kind ==> rules_of_kind(rules, kind, n + 1) == rules_of_kind(
            rules,
            kind,
            n,
        ).push(rules[n]),
        rules[n].kind != kind ==> rules_of_kind(rules, kind, n + 1) == rules_of_kind(
            rules,
            kind,
            n,
        ),
        marker_total(rules, 0) == 0,
        marker_total(rules, n) + rules[n].observations <= usize::MAX ==> marker_total(rules, n + 1)
            == marker_total(rules, n) + rules[n].observations,
        kind_total(rules, kind) == marker_total(
            rules_of_kind(rules, kind, rules.len() as int),
            rules_of_kind(rules, kind, rules.len() as int).len() as int,
        ),
{
}

/// The rule that prevails was observed, none was observed more, and none as often comes before it
/// in priority.
pub proof fn law_the_prevailing_rule(rules: Seq<MarkerRuleView>, n: int)
    requires
        0 <= n <= rules.len(),
    ensures
        match dominant_rule(rules, n) {
            Some(best) => {
                &&& 0 <= best < n && rules[best].observations > 0
                &&& forall|i: int|
                    0 <= i < n ==> (#[trigger] rules[i]).observations <= rules[best].observations
                &&& forall|i: int|
                    0 <= i < n && (#[trigger] rules[i]).observations == rules[best].observations
                        ==> rules[best].priority <= rules[i].priority
                &&& forall|i: int|
                    best < i < n && (#[trigger] rules[i]).observations == rules[best].observations
                        ==> rules[best].priority < rules[i].priority
            },
            None => forall|i: int| 0 <= i < n ==> (#[trigger] rules[i]).observations == 0,
        },
    decreases n,
{
    if n > 0 {
        law_the_prevailing_rule(rules, n - 1);
    }
}

/// A line counts as a turn with a colon where one opens it and says something, and as a titled turn
/// where one opens it; headings of examinations and redacted labels are noted once seen.
pub proof fn law_lines_show_conventions(s: StyleSignals, line: Seq<char>)
    requires
        s.colon_turns < usize::MAX,
        s.titled_turns < usize::MAX,
    ensures
        ({
            let after = line_signals(s, line);
            let colon = colon_turn(line);
            let one = |b: bool|
                if b {
                    1int
                } else {
                    0int
                };
            &&& after.colon_turns == s.colon_turns + one(
                colon is Some && (colon->0).1.len() > 0,
            )
            &&& after.titled_turns == s.titled_turns + one(titled_turn(line) is Some)
            &&& after.headings <==> s.headings || examiner_label(line) is Some
            &&& after.redacted_labels <==> s.redacted_labels || (colon is Some && redacted_label(
                (colon->0).0,
            ))
        }),
{
}

/// The conventions of a document are those that its pages of dialogue show.
pub proof fn law_dialogue_shows_conventions(pages: Seq<ExtractedPageView>, n: int, l: int)
    requires
        0 <= n < pages.len(),
        0 <= l < lines_of(pages[n].text).len(),
    ensures
        ({
            let before = style_signals(pages, n);
            let start = style_signals(pages, 0);
            let lines = lines_of(pages[n].text);
            &&& start.colon_turns == 0 && start.titled_turns == 0 && !start.headings
                && !start.redacted_labels
            &&& !dialogue_section(pages[n].section) ==> style_signals(pages, n + 1) == before
            &&& dialogue_section(pages[n].section) ==> style_signals(pages, n + 1) == page_style(
                before,
                pages[n],
                lines.len() as int,
            )
            &&& page_style(before, pages[n], 0) == before
            &&& page_style(before, pages[n], l + 1) == line_signals(
                page_style(before, pages[n], l),
                source_line(pages[n], trimmed(lines[l]), 100).1,
            )
        }),
{
}

/// A document labels its turns with colons where two lines do, and by title where one does. It has
/// a prevailing marker for questions and one for answers only where both were observed.
pub proof fn law_fingerprints_follow_signals(
    pages: Seq<ExtractedPageView>,
    contexts: Seq<PageContextView>,
    rules: Seq<MarkerRuleView>,
    line_min: Option<u16>,
    line_max: Option<u16>,
)
    ensures
        ({
            let f = fingerprint_of(pages, contexts, rules, line_min, line_max);
            let s = style_signals(pages, pages.len() as int);
            let n = rules.len() as int;
            let questions = rules_of_kind(rules, MarkerKind::Question, n);
            let answers = rules_of_kind(rules, MarkerKind::Answer, n);
            let paired = kind_total(rules, MarkerKind::Question) > 0 && kind_total(
                rules,
                MarkerKind::Answer,
            ) > 0;
            &&& f.colon_speaker_prefixed_dialogue <==> s.colon_turns >= 2
            &&& f.titled_speaker_prefixed_dialogue <==> s.titled_turns >= 1
            &&& f.speaker_prefixed_dialogue <==> s.colon_turns >= 2 || s.titled_turns >= 1
            &&& f.examination_heading_style_detected == s.headings
            &&& f.redacted_speaker_labels_detected == s.redacted_labels
            &&& f.question_markers == questions && f.answer_markers == answers
            &&& !paired ==> f.dominant_question_marker is None && f.dominant_answer_marker is None
            &&& paired ==> f.dominant_question_marker == dominant_pattern(questions)
                && f.dominant_answer_marker == dominant_pattern(answers)
            &&& f.typical_line_min == line_min && f.typical_line_max == line_max
            &&& f.notes.len() == (if s.redacted_labels {
                1int
            } else {
                0
            }) + (if f.dominant_question_marker is None || f.dominant_answer_marker is None {
                1int
            } else {
                0
            })
        }),
{
}

proof fn lemma_dialogue_pages(contexts: Seq<PageContextView>, n: int)
    requires
        0 <= n <= contexts.len(),
    ensures
        dialogue_page_count(contexts, false, n) == contexts.take(n).filter(
            |c: PageContextView| dialogue_section(c.section),
        ).len(),
        dialogue_page_count(contexts, true, n) == contexts.take(n).filter(
            |c: PageContextView| dialogue_section(c.section) && c.transcript_page is Some,
        ).len(),
    decreases n,
{
    lemma_filter_first(contexts, |c: PageContextView| dialogue_section(c.section), n);
    lemma_filter_first(
        contexts,
        |c: PageContextView| dialogue_section(c.section) && c.transcript_page is Some,
        n,
    );
    if n > 0 {
        lemma_dialogue_pages(contexts, n - 1);
    }
}

/// Pages of dialogue are counted, and those of them with a printed label.
pub proof fn law_dialogue_pages_are_counted(contexts: Seq<PageContextView>)
    ensures
        dialogue_page_count(contexts, false, contexts.len() as int) == contexts.filter(
            |c: PageContextView| dialogue_section(c.section),
        ).len(),
        dialogue_page_count(contexts, true, contexts.len() as int) == contexts.filter(
            |c: PageContextView| dialogue_section(c.section) && c.transcript_page is Some,
        ).len(),
{
    lemma_dialogue_pages(contexts, contexts.len() as int);
    assert(contexts.take(contexts.len() as int) =~= contexts);
}

/// Whoever is primary is eligible, and nobody eligible does more of it, or as much in more turns.
pub proof fn law_primaries_do_most(list: Seq<ParticipantView>, witness: bool, n: int)
    requires
        0 <= n <= list.len(),
    ensures
        ({
            let fits = |p: ParticipantView|
                if witness {
                    p.role == SpeakerRole::Witness || p.function == ParticipantFunction::Witness
                        || p.function == ParticipantFunction::Interviewee
                } else {
                    p.role == SpeakerRole::Attorney
                };
            let does = |p: ParticipantView|
                if witness {
                    p.answer_observations
                } else {
                    p.question_observations
                };
            match primary_index(list, witness, n) {
                Some(best) => {
                    &&& 0 <= best < n && fits(list[best])
                    &&& forall|i: int|
                        0 <= i < n && fits(#[trigger] list[i]) ==> does(list[i]) < does(list[best])
                            || (does(list[i]) == does(list[best]) && list[i].observations
                            <= list[best].observations)
                    &&& forall|i: int|
                        best < i < n && fits(#[trigger] list[i]) ==> does(list[i]) < does(
                            list[best],
                        ) || (does(list[i]) == does(list[best]) && list[i].observations
                            < list[best].observations)
                },
                None => forall|i: int| 0 <= i < n ==> !fits(#[trigger] list[i]),
            }
        }),
    decreases n,
{
    if n > 0 {
        law_primaries_do_most(list, witness, n - 1);
    }
}

/// Of several attorneys who never ask none is the primary questioner; else the one who asks most
/// is. Where no witness is known but answers are marked, somebody called the witness is one.
pub proof fn law_primaries_are_named(list: Seq<ParticipantView>, rules: Seq<MarkerRuleView>)
    ensures
        ({
            let n = list.len() as int;
            let asker = primary_index(list, false, n);
            let answerer = primary_index(list, true, n);
            let silent = asker is Some && list[asker->0].question_observations == 0 && role_count(
                list,
                SpeakerRole::Attorney,
                n,
            ) > 1;
            &&& asker is None || silent ==> primary_questioner_of(list) is None
            &&& asker is Some && !silent ==> primary_questioner_of(list) is Some
                && primary_questioner_of(list)->0.participant_id == Some(list[asker->0].id)
                && primary_questioner_of(list)->0.label == list[asker->0].display_label
            &&& answerer is Some ==> primary_witness_of(list, rules) is Some && primary_witness_of(
                list,
                rules,
            )->0.participant_id == Some(list[answerer->0].id) && primary_witness_of(
                list,
                rules,
            )->0.role == SpeakerRole::Witness
            &&& answerer is None && kind_total(rules, MarkerKind::Answer) > 0 ==> primary_witness_of(
                list,
                rules,
            ) is Some && primary_witness_of(list, rules)->0.label == "THE WITNESS"@
                && primary_witness_of(list, rules)->0.participant_id == Some("witness_1"@)
            &&& answerer is None && kind_total(rules, MarkerKind::Answer) == 0
                ==> primary_witness_of(list, rules) is None
        }),
{
}

proof fn lemma_known_roles(list: Seq<ParticipantView>, n: int)
    requires
        0 <= n <= list.len(),
    ensures
        known_role_count(list, n) == list.take(n).filter(
            |p: ParticipantView| p.role != SpeakerRole::Unknown,
        ).len(),
        known_role_count(list, n) <= n,
    decreases n,
{
    lemma_filter_first(list, |p: ParticipantView| p.role != SpeakerRole::Unknown, n);
    if n > 0 {
        lemma_known_roles(list, n - 1);
    }
}

/// Participants speak for the format by the share of them with a known role; without any, many
/// markers speak for it more than few.
pub proof fn law_participants_speak_for_the_format(
    list: Seq<ParticipantView>,
    rules: Seq<MarkerRuleView>,
)
    requires
        list.len() <= usize::MAX,
    ensures
        ({
            let share = participants_confidence(list, rules);
            let observed = marker_total(rules, rules.len() as int);
            &&& list.len() == 0 && observed >= 20 ==> share.part == 60 && share.whole == 100
            &&& list.len() == 0 && observed < 20 ==> share.part == 30 && share.whole == 100
            &&& list.len() > 0 ==> share.whole == list.len() && share.part == list.filter(
                |p: ParticipantView| p.role != SpeakerRole::Unknown,
            ).len()
        }),
{
    lemma_known_roles(list, list.len() as int);
    assert(list.take(list.len() as int) =~= list);
}

/// Markers speak for the format the more of them were observed; labelled dialogue can do without.
pub proof fn law_markers_speak_for_the_format(questions: usize, answers: usize, labelled: bool)
    requires
        questions + answers <= usize::MAX,
    ensures
        ({
            let c = markers_confidence(questions, answers, labelled);
            let all = questions + answers;
            &&& all >= 40 && questions > 0 && answers > 0 ==> c == 100
            &&& all >= 8 && !(all >= 40 && questions > 0 && answers > 0) ==> c == 82
            &&& 0 < all && all < 8 ==> c == 60
            &&& all == 0 && labelled ==> c == 82
            &&& all == 0 && !labelled ==> c == 35
        }),
{
}

} // verus!
