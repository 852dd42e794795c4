//! Who speaks in a document, as far as labels and behaviour tell before it is parsed.
use vstd::prelude::*;

use crate::document::models::{
    dialogue_section, ExtractedDocument, ExtractedPage, ExtractedPageView, PageSection,
};
use crate::measure::{hundredths, Ratio};
use crate::number::{
    decimal, lemma_decimal_injective, next, push_decimal, succ, sum, total,
};
use crate::order::{insert_sorted, inserted};
use crate::pieces::{lines, lines_of, respace, single_spaced};
use crate::scan::{all_chars, all_within, to_upper, trim, trimmed, uppercased};
use crate::text::{clone_list, push_item, same, within, CharClass};
use crate::transcript::classify::{
    asks, by_label, is_asking, label_after_by, looks_like_objection, objects,
};
use crate::transcript::format::{
    is_page_header_content, page_header, parse_source_line, source_line,
};
use crate::transcript::markers::{detect_marker_candidate, marker_candidate};
use crate::transcript::models::{
    find_page_label, page_label, MarkerKind, PageContext, PageContextView, Participant,
    ParticipantFunction, ParticipantView, SpeakerRole,
};
use crate::transcript::parser::role_count;
use crate::transcript::profile::TranscriptProfile;
use crate::transcript::speaker::{
    bare_heading, colon_turn, introduced_witness, is_redacted_label, label_speaker, labelled_turn,
    looks_like_bare_attorney_heading, looks_like_generic_speaker_label, mostly_capitals,
    redacted_label, role_name, role_word, speaker_from_label, split_any_speaker_prefix,
    split_colon_label, split_titled_speaker_prefix, titled_turn, witness_introduction,
};

verus! {

/// What was observed of the speaker behind a label.
#[derive(Debug)]
pub struct ParticipantCounter {
    pub canonical: String,
    pub observed_labels: Vec<String>,
    pub observations: usize,
    pub question_observations: usize,
    pub answer_observations: usize,
    pub objection_observations: usize,
    pub statement_observations: usize,
    pub attorney_votes: usize,
    pub witness_votes: usize,
    pub interpreter_votes: usize,
    pub reporter_votes: usize,
    pub judge_votes: usize,
    pub videographer_votes: usize,
}

/// The contents of a [`ParticipantCounter`].
#[verifier::ext_equal]
pub struct ParticipantCounterView {
    pub canonical: Seq<char>,
    pub observed_labels: Seq<Seq<char>>,
    pub observations: usize,
    pub question_observations: usize,
    pub answer_observations: usize,
    pub objection_observations: usize,
    pub statement_observations: usize,
    pub attorney_votes: usize,
    pub witness_votes: usize,
    pub interpreter_votes: usize,
    pub reporter_votes: usize,
    pub judge_votes: usize,
    pub videographer_votes: usize,
}

impl DeepView for ParticipantCounter {
    type V = ParticipantCounterView;

    open spec fn deep_view(&self) -> ParticipantCounterView {
        ParticipantCounterView {
            canonical: self.canonical@,
            observed_labels: self.observed_labels.deep_view(),
            observations: self.observations,
            question_observations: self.question_observations,
            answer_observations: self.answer_observations,
            objection_observations: self.objection_observations,
            statement_observations: self.statement_observations,
            attorney_votes: self.attorney_votes,
            witness_votes: self.witness_votes,
            interpreter_votes: self.interpreter_votes,
            reporter_votes: self.reporter_votes,
            judge_votes: self.judge_votes,
            videographer_votes: self.videographer_votes,
        }
    }
}

// ---------------------------------------------------------------------------
// Labels
// ---------------------------------------------------------------------------

/// A label in the form by which speakers are told apart.
pub open spec fn canonical_label(label: Seq<char>) -> Seq<char> {
    uppercased(single_spaced(trimmed(label)))
}

pub fn canonicalize_label(label: &str) -> (r: String)
    ensures
        r@ == canonical_label(label@),
{
    to_upper(respace(trim(label)).as_str())
}

/// Whether a label only describes who speaks.
pub open spec fn descriptive_label(label: Seq<char>) -> bool {
    let u = uppercased(trimmed(label));
    ||| u == "THE WITNESS"@
    ||| u == "WITNESS"@
    ||| u == "THE DEPONENT"@
    ||| u == "DEPONENT"@
    ||| u == "THE REPORTER"@
    ||| u == "REPORTER"@
    ||| u == "THE INTERPRETER"@
    ||| u == "INTERPRETER"@
    ||| u == "THE COURT"@
}

/// The name that a label gives a speaker of a role.
pub open spec fn label_name(label: Seq<char>, role: SpeakerRole) -> Option<Seq<char>> {
    if redacted_label(label) || descriptive_label(label) || role == SpeakerRole::Unknown {
        None
    } else {
        Some(trimmed(label))
    }
}

pub fn canonical_name_for_label(label: &str, role: SpeakerRole) -> (r: Option<String>)
    ensures
        r.deep_view() == label_name(label@, role),
{
    let upper = to_upper(trim(label));
    let u = upper.as_str();
    let descriptive = same(u, "THE WITNESS")
        || same(u, "WITNESS")
        || same(u, "THE DEPONENT")
        || same(u, "DEPONENT")
        || same(u, "THE REPORTER")
        || same(u, "REPORTER")
        || same(u, "THE INTERPRETER")
        || same(u, "INTERPRETER")
        || same(u, "THE COURT");
    if is_redacted_label(label) || descriptive || role == SpeakerRole::Unknown {
        None
    } else {
        Some(trim(label).to_owned())
    }
}

/// The label in a heading such as "BY MR. SMITH:", where it reads like one.
pub open spec fn examiner_label(text: Seq<char>) -> Option<Seq<char>> {
    match by_label(text) {
        Some(label) => if label_speaker(label) is Some || bare_heading(label) || redacted_label(
            label,
        ) || (mostly_capitals(label) && all_within(trimmed(label), CharClass::LabelCharacter)) {
            Some(label)
        } else {
            None
        },
        None => None,
    }
}

pub fn by_heading_label(text: &str) -> (r: Option<&str>)
    ensures
        r.deep_view() == examiner_label(text@),
{
    match label_after_by(text) {
        Some(label) => if speaker_from_label(label).is_some() || looks_like_bare_attorney_heading(
            label,
        ) || is_redacted_label(label) || (looks_like_generic_speaker_label(label) && all_chars(
            trim(label),
            CharClass::LabelCharacter,
        )) {
            Some(label)
        } else {
            None
        },
        None => None,
    }
}

// ---------------------------------------------------------------------------
// Observations
// ---------------------------------------------------------------------------

/// What a speaker was observed to do.
#[derive(Clone, Copy, PartialEq, Eq, Structural)]
pub enum ObservationType {
    Question,
    Answer,
    Objection,
    Statement,
}

/// A counter that has counted nothing.
pub open spec fn new_counter(canonical: Seq<char>) -> ParticipantCounterView {
    ParticipantCounterView {
        canonical,
        observed_labels: seq![],
        observations: 0,
        question_observations: 0,
        answer_observations: 0,
        objection_observations: 0,
        statement_observations: 0,
        attorney_votes: 0,
        witness_votes: 0,
        interpreter_votes: 0,
        reporter_votes: 0,
        judge_votes: 0,
        videographer_votes: 0,
    }
}

fn open_counter(canonical: String) -> (r: ParticipantCounter)
    ensures
        r.deep_view() == new_counter(canonical@),
{
    let observed_labels: Vec<String> = Vec::new();
    assert(observed_labels.deep_view() =~= seq![]);
    ParticipantCounter {
        canonical,
        observed_labels,
        observations: 0,
        question_observations: 0,
        answer_observations: 0,
        objection_observations: 0,
        statement_observations: 0,
        attorney_votes: 0,
        witness_votes: 0,
        interpreter_votes: 0,
        reporter_votes: 0,
        judge_votes: 0,
        videographer_votes: 0,
    }
}

/// A counter after one more observation under a label.
pub open spec fn counter_with(
    c: ParticipantCounterView,
    label: Seq<char>,
    role: SpeakerRole,
    observation: ObservationType,
) -> ParticipantCounterView {
    let seen = ParticipantCounterView {
        observed_labels: inserted(c.observed_labels, trimmed(label)),
        observations: succ(c.observations),
        ..c
    };
    let counted = match observation {
        ObservationType::Question => ParticipantCounterView {
            question_observations: succ(c.question_observations),
            ..seen
        },
        ObservationType::Answer => ParticipantCounterView {
            answer_observations: succ(c.answer_observations),
            ..seen
        },
        ObservationType::Objection => ParticipantCounterView {
            objection_observations: succ(c.objection_observations),
            ..seen
        },
        ObservationType::Statement => ParticipantCounterView {
            statement_observations: succ(c.statement_observations),
            ..seen
        },
    };
    match role {
        SpeakerRole::Attorney => ParticipantCounterView {
            attorney_votes: succ(c.attorney_votes),
            ..counted
        },
        SpeakerRole::Witness => ParticipantCounterView {
            witness_votes: succ(c.witness_votes),
            ..counted
        },
        SpeakerRole::Interpreter => ParticipantCounterView {
            interpreter_votes: succ(c.interpreter_votes),
            ..counted
        },
        SpeakerRole::CourtReporter => ParticipantCounterView {
            reporter_votes: succ(c.reporter_votes),
            ..counted
        },
        SpeakerRole::Judge => ParticipantCounterView {
            judge_votes: succ(c.judge_votes),
            ..counted
        },
        SpeakerRole::Videographer => ParticipantCounterView {
            videographer_votes: succ(c.videographer_votes),
            ..counted
        },
        SpeakerRole::Unknown => counted,
    }
}

fn count_observation(
    c: &mut ParticipantCounter,
    label: &str,
    role: SpeakerRole,
    observation: ObservationType,
)
    ensures
        final(c).deep_view() == counter_with(old(c).deep_view(), label@, role, observation),
{
    insert_sorted(&mut c.observed_labels, trim(label).to_owned());
    c.observations = next(c.observations);
    match observation {
        ObservationType::Question => {
            c.question_observations = next(c.question_observations);
        },
        ObservationType::Answer => {
            c.answer_observations = next(c.answer_observations);
        },
        ObservationType::Objection => {
            c.objection_observations = next(c.objection_observations);
        },
        ObservationType::Statement => {
            c.statement_observations = next(c.statement_observations);
        },
    }
    match role {
        SpeakerRole::Attorney => {
            c.attorney_votes = next(c.attorney_votes);
        },
        SpeakerRole::Witness => {
            c.witness_votes = next(c.witness_votes);
        },
        SpeakerRole::Interpreter => {
            c.interpreter_votes = next(c.interpreter_votes);
        },
        SpeakerRole::CourtReporter => {
            c.reporter_votes = next(c.reporter_votes);
        },
        SpeakerRole::Judge => {
            c.judge_votes = next(c.judge_votes);
        },
        SpeakerRole::Videographer => {
            c.videographer_votes = next(c.videographer_votes);
        },
        SpeakerRole::Unknown => {},
    }
}

/// Where the counter of a label stands, or how many there are.
pub open spec fn counter_index(
    list: Seq<ParticipantCounterView>,
    canonical: Seq<char>,
    from: int,
) -> int
    decreases list.len() - from,
{
    if 0 <= from < list.len() && list[from].canonical != canonical {
        counter_index(list, canonical, from + 1)
    } else {
        from
    }
}

/// The counters, in the order in which their labels were first seen, after one more
/// observation.
pub open spec fn observed(
    list: Seq<ParticipantCounterView>,
    label: Seq<char>,
    role: SpeakerRole,
    observation: ObservationType,
) -> Seq<ParticipantCounterView> {
    let canonical = canonical_label(label);
    let i = counter_index(list, canonical, 0);
    if canonical.len() == 0 {
        list
    } else if i < list.len() {
        list.update(i, counter_with(list[i], label, role, observation))
    } else {
        list.push(counter_with(new_counter(canonical), label, role, observation))
    }
}

fn observe_participant(
    list: &mut Vec<ParticipantCounter>,
    label: &str,
    role: SpeakerRole,
    observation: ObservationType,
)
    ensures
        final(list).deep_view() == observed(old(list).deep_view(), label@, role, observation),
{
    let ghost before = list.deep_view();
    let canonical = canonicalize_label(label);
    if canonical.as_str().is_empty() {
        return;
    }
    let mut i: usize = 0;
    while i < list.len() && !same(list[i].canonical.as_str(), canonical.as_str())
        invariant
            before == list.deep_view(),
            i <= list@.len(),
            counter_index(before, canonical@, i as int) == counter_index(before, canonical@, 0),
        decreases list@.len() - i,
    {
        assert(before[i as int] == list@[i as int].deep_view());
        i += 1;
    }
    if i < list.len() {
        assert(before[i as int] == list@[i as int].deep_view());
        count_observation(&mut list[i], label, role, observation);
        assert(list.deep_view() =~= observed(before, label@, role, observation));
    } else {
        let mut c = open_counter(canonical);
        count_observation(&mut c, label, role, observation);
        push_item(list, c);
    }
}

// ---------------------------------------------------------------------------
// Lines
// ---------------------------------------------------------------------------

/// Who was observed so far, and who asked without a marker.
#[verifier::ext_equal]
pub struct Discovery {
    pub counters: Seq<ParticipantCounterView>,
    pub asker: Option<Seq<char>>,
}

/// The role that a turn gives its speaker: by its marker, by an objection, or else by the
/// label itself.
pub open spec fn turn_role(label: Seq<char>, text: Seq<char>) -> SpeakerRole {
    match marker_candidate(text) {
        Some((MarkerKind::Question, _, _)) => SpeakerRole::Attorney,
        Some((MarkerKind::Answer, _, _)) => SpeakerRole::Witness,
        None => if objects(text) {
            SpeakerRole::Attorney
        } else {
            match label_speaker(label) {
                Some(speaker) => speaker.role,
                None => SpeakerRole::Unknown,
            }
        },
    }
}

/// What a turn is observed to be. Without a marker, a turn that ends in a question mark is
/// a question, and one that follows another's question an answer, unless its label tells a
/// role.
pub open spec fn turn_observation(label: Seq<char>, text: Seq<char>, asker: Option<Seq<char>>) ->
    ObservationType {
    match marker_candidate(text) {
        Some((MarkerKind::Question, _, _)) => ObservationType::Question,
        Some((MarkerKind::Answer, _, _)) => ObservationType::Answer,
        None => if objects(text) {
            ObservationType::Objection
        } else if asks(text) {
            ObservationType::Question
        } else if label_speaker(label) is None && (asker matches Some(previous) && previous
            != canonical_label(label)) {
            ObservationType::Answer
        } else {
            ObservationType::Statement
        },
    }
}

/// The discovery after a labelled turn. A redaction may stand for several people, so it is
/// no one's label.
pub open spec fn turn_discovered(d: Discovery, label: Seq<char>, text: Seq<char>) -> Discovery {
    if redacted_label(label) {
        d
    } else {
        let observation = turn_observation(label, text, d.asker);
        Discovery {
            counters: observed(d.counters, label, turn_role(label, text), observation),
            asker: if observation == ObservationType::Question && marker_candidate(text) is None {
                Some(canonical_label(label))
            } else if observation == ObservationType::Answer {
                None
            } else {
                d.asker
            },
        }
    }
}

fn discover_turn(
    counters: &mut Vec<ParticipantCounter>,
    asker: &mut Option<String>,
    label: &str,
    text: &str,
)
    ensures
        (Discovery { counters: final(counters).deep_view(), asker: final(asker).deep_view() })
            == turn_discovered(
            Discovery { counters: old(counters).deep_view(), asker: old(asker).deep_view() },
            label@,
            text@,
        ),
{
    if is_redacted_label(label) {
        return;
    }
    let known = speaker_from_label(label);
    let canonical = canonicalize_label(label);
    let marker = detect_marker_candidate(text);
    let objection = looks_like_objection(text);
    let role = match marker {
        Some((kind, _, _)) => match kind {
            MarkerKind::Question => SpeakerRole::Attorney,
            MarkerKind::Answer => SpeakerRole::Witness,
        },
        None => if objection {
            SpeakerRole::Attorney
        } else {
            match &known {
                Some(speaker) => speaker.role,
                None => SpeakerRole::Unknown,
            }
        },
    };
    let follows = match asker {
        Some(previous) => !same(previous.as_str(), canonical.as_str()),
        None => false,
    };
    let observation = match marker {
        Some((kind, _, _)) => match kind {
            MarkerKind::Question => ObservationType::Question,
            MarkerKind::Answer => ObservationType::Answer,
        },
        None => if objection {
            ObservationType::Objection
        } else if is_asking(text) {
            ObservationType::Question
        } else if known.is_none() && follows {
            ObservationType::Answer
        } else {
            ObservationType::Statement
        },
    };
    observe_participant(counters, label, role, observation);
    if observation == ObservationType::Question && marker.is_none() {
        *asker = Some(canonical);
    } else if observation == ObservationType::Answer {
        *asker = None;
    }
}

/// The discovery after one more line.
pub open spec fn line_discovered(d: Discovery, content: Seq<char>, titled: bool) -> Discovery {
    match introduced_witness(content) {
        Some(label) => Discovery {
            counters: observed(
                d.counters,
                label,
                SpeakerRole::Witness,
                ObservationType::Statement,
            ),
            ..d
        },
        None => match examiner_label(content) {
            Some(label) => if redacted_label(label) {
                d
            } else {
                Discovery {
                    counters: observed(
                        d.counters,
                        label,
                        match label_speaker(label) {
                            Some(speaker) => speaker.role,
                            None => SpeakerRole::Unknown,
                        },
                        ObservationType::Question,
                    ),
                    ..d
                }
            },
            None => match if titled {
                labelled_turn(content)
            } else {
                colon_turn(content)
            } {
                Some((label, text)) => turn_discovered(d, label, text),
                None => d,
            },
        },
    }
}

fn discover_line(
    counters: &mut Vec<ParticipantCounter>,
    asker: &mut Option<String>,
    content: &str,
    titled: bool,
)
    ensures
        (Discovery { counters: final(counters).deep_view(), asker: final(asker).deep_view() })
            == line_discovered(
            Discovery { counters: old(counters).deep_view(), asker: old(asker).deep_view() },
            content@,
            titled,
        ),
{
    match witness_introduction(content) {
        Some(label) => {
            observe_participant(counters, label, SpeakerRole::Witness, ObservationType::Statement);
            return;
        },
        None => {},
    }
    match by_heading_label(content) {
        Some(label) => {
            if !is_redacted_label(label) {
                let role = match speaker_from_label(label) {
                    Some(speaker) => speaker.role,
                    None => SpeakerRole::Unknown,
                };
                observe_participant(counters, label, role, ObservationType::Question);
            }
            return;
        },
        None => {},
    }
    let turn = if titled {
        split_any_speaker_prefix(content)
    } else {
        split_colon_label(content)
    };
    match turn {
        Some((label, text)) => {
            discover_turn(counters, asker, label, text);
        },
        None => {},
    }
}

/// What a line of a page says, without its line number.
pub open spec fn line_content(page: ExtractedPageView, line: Seq<char>, max: u16) -> Seq<char> {
    trimmed(source_line(page, trimmed(line), max).1)
}

/// The discovery after the first `n` lines of a page.
pub open spec fn page_discovered(
    d: Discovery,
    page: ExtractedPageView,
    label: Option<Seq<char>>,
    max: u16,
    titled: bool,
    n: int,
) -> Discovery
    decreases n,
{
    if n <= 0 {
        d
    } else {
        let before = page_discovered(d, page, label, max, titled, n - 1);
        let content = line_content(page, lines_of(page.text)[n - 1], max);
        if content.len() == 0 || page_header(content, label, (n - 1) as nat) {
            before
        } else {
            line_discovered(before, content, titled)
        }
    }
}

fn discover_page(
    counters: &mut Vec<ParticipantCounter>,
    asker: &mut Option<String>,
    page: &ExtractedPage,
    label: &Option<String>,
    max: u16,
    titled: bool,
)
    ensures
        (Discovery { counters: final(counters).deep_view(), asker: final(asker).deep_view() })
            == page_discovered(
            Discovery { counters: old(counters).deep_view(), asker: old(asker).deep_view() },
            page.deep_view(),
            label.deep_view(),
            max,
            titled,
            lines_of(page.deep_view().text).len() as int,
        ),
{
    let ghost before = Discovery { counters: counters.deep_view(), asker: asker.deep_view() };
    let ghost view = page.deep_view();
    let list = lines(page.text.as_str());
    for n in 0..list.len()
        invariant
            view == page.deep_view(),
            list.deep_view() == lines_of(view.text),
            (Discovery { counters: counters.deep_view(), asker: asker.deep_view() })
                == page_discovered(before, view, label.deep_view(), max, titled, n as int),
    {
        assert(list.deep_view()[n as int] == list@[n as int]@);
        let (_, body) = parse_source_line(page, trim(list[n].as_str()), max);
        let content = trim(body);
        if !content.is_empty() && !is_page_header_content(content, label, n) {
            discover_line(counters, asker, content, titled);
        }
    }
}

/// The discovery after the first `n` pages. Only dialogue counts.
pub open spec fn pages_discovered(
    pages: Seq<ExtractedPageView>,
    contexts: Seq<PageContextView>,
    max: u16,
    titled: bool,
    n: int,
) -> Discovery
    decreases n,
{
    if n <= 0 {
        Discovery { counters: seq![], asker: None }
    } else {
        let before = pages_discovered(pages, contexts, max, titled, n - 1);
        let page = pages[n - 1];
        if dialogue_section(page.section) {
            page_discovered(
                before,
                page,
                page_label(contexts, page.physical_page),
                max,
                titled,
                lines_of(page.text).len() as int,
            )
        } else {
            before
        }
    }
}

/// Whether one of the first `n` lines of a page opens with a title and a name.
pub open spec fn page_titled(page: ExtractedPageView, n: int) -> bool {
    exists|i: int|
        0 <= i < n && titled_turn(
            source_line(page, trimmed(#[trigger] lines_of(page.text)[i]), 100).1,
        ) is Some
}

/// Whether a document labels turns by title and name.
pub open spec fn titled_style(pages: Seq<ExtractedPageView>) -> bool {
    exists|p: int|
        0 <= p < pages.len() && dialogue_section((#[trigger] pages[p]).section) && page_titled(
            pages[p],
            lines_of(pages[p].text).len() as int,
        )
}

fn is_page_titled(page: &ExtractedPage) -> (r: bool)
    ensures
        r == page_titled(page.deep_view(), lines_of(page.deep_view().text).len() as int),
{
    let ghost view = page.deep_view();
    let list = lines(page.text.as_str());
    for i in 0..list.len()
        invariant
            view == page.deep_view(),
            list.deep_view() == lines_of(view.text),
            forall|j: int|
                0 <= j < i ==> titled_turn(
                    source_line(view, trimmed(#[trigger] lines_of(view.text)[j]), 100).1,
                ) is None,
    {
        assert(list.deep_view()[i as int] == list@[i as int]@);
        let (_, body) = parse_source_line(page, trim(list[i].as_str()), 100);
        if split_titled_speaker_prefix(body).is_some() {
            assert(titled_turn(source_line(view, trimmed(lines_of(view.text)[i as int]), 100).1)
                is Some);
            return true;
        }
    }
    false
}

fn titled_speaker_style_likely(document: &ExtractedDocument) -> (r: bool)
    ensures
        r == titled_style(document.deep_view().pages),
{
    let ghost pages = document.deep_view().pages;
    for p in 0..document.pages.len()
        invariant
            pages == document.pages.deep_view(),
            forall|q: int|
                0 <= q < p ==> !(dialogue_section((#[trigger] pages[q]).section) && page_titled(
                    pages[q],
                    lines_of(pages[q].text).len() as int,
                )),
    {
        assert(pages[p as int] == document.pages@[p as int].deep_view());
        if document.pages[p].section.is_dialogue() && is_page_titled(&document.pages[p]) {
            return true;
        }
    }
    false
}

// ---------------------------------------------------------------------------
// Participants
// ---------------------------------------------------------------------------

/// The role with the most votes and how many it has; the later of two roles that tie.
pub open spec fn winning_role(c: ParticipantCounterView) -> (SpeakerRole, usize) {
    let a = (SpeakerRole::Attorney, c.attorney_votes);
    let b = if c.witness_votes >= a.1 {
        (SpeakerRole::Witness, c.witness_votes)
    } else {
        a
    };
    let d = if c.interpreter_votes >= b.1 {
        (SpeakerRole::Interpreter, c.interpreter_votes)
    } else {
        b
    };
    let e = if c.reporter_votes >= d.1 {
        (SpeakerRole::CourtReporter, c.reporter_votes)
    } else {
        d
    };
    let f = if c.judge_votes >= e.1 {
        (SpeakerRole::Judge, c.judge_votes)
    } else {
        e
    };
    if c.videographer_votes >= f.1 {
        (SpeakerRole::Videographer, c.videographer_votes)
    } else {
        f
    }
}

/// All votes for a role.
pub open spec fn all_votes(c: ParticipantCounterView) -> usize {
    total(
        total(
            total(
                total(total(c.attorney_votes, c.witness_votes), c.interpreter_votes),
                c.reporter_votes,
            ),
            c.judge_votes,
        ),
        c.videographer_votes,
    )
}

/// The role of the speaker behind a counter, and the share of votes that it has.
pub open spec fn decided_role(c: ParticipantCounterView) -> (SpeakerRole, Ratio) {
    let (role, votes) = winning_role(c);
    if votes == 0 {
        (SpeakerRole::Unknown, hundredths(30))
    } else {
        (role, Ratio { part: votes, whole: all_votes(c) })
    }
}

fn decide_role(c: &ParticipantCounter) -> (r: (SpeakerRole, Ratio))
    ensures
        r == decided_role(c.deep_view()),
{
    let mut role = SpeakerRole::Attorney;
    let mut votes = c.attorney_votes;
    if c.witness_votes >= votes {
        role = SpeakerRole::Witness;
        votes = c.witness_votes;
    }
    if c.interpreter_votes >= votes {
        role = SpeakerRole::Interpreter;
        votes = c.interpreter_votes;
    }
    if c.reporter_votes >= votes {
        role = SpeakerRole::CourtReporter;
        votes = c.reporter_votes;
    }
    if c.judge_votes >= votes {
        role = SpeakerRole::Judge;
        votes = c.judge_votes;
    }
    if c.videographer_votes >= votes {
        role = SpeakerRole::Videographer;
        votes = c.videographer_votes;
    }
    if votes == 0 {
        return (SpeakerRole::Unknown, Ratio::of_hundred(30));
    }
    let whole = sum(
        sum(
            sum(sum(sum(c.attorney_votes, c.witness_votes), c.interpreter_votes), c.reporter_votes),
            c.judge_votes,
        ),
        c.videographer_votes,
    );
    (role, Ratio { part: votes, whole })
}

/// The identifier of the `n`th participant of a role.
pub open spec fn numbered_id(role: SpeakerRole, n: nat) -> Seq<char> {
    role_word(role) + "_"@ + decimal(n)
}

pub fn participant_id(role: SpeakerRole, sequence: usize) -> (r: String)
    ensures
        r@ == numbered_id(role, sequence as nat),
{
    let mut id = role_name(role).to_owned().concat("_");
    push_decimal(&mut id, sequence as u64);
    id
}

/// The speaker behind a counter as a participant, after those found before it.
pub open spec fn discovered_participant(
    c: ParticipantCounterView,
    before: Seq<ParticipantView>,
) -> ParticipantView {
    let (role, role_confidence) = decided_role(c);
    let display_label = if c.observed_labels.len() > 0 {
        c.observed_labels[0]
    } else {
        c.canonical
    };
    ParticipantView {
        id: numbered_id(role, role_count(before, role, before.len() as int) + 1),
        display_label,
        canonical_name: label_name(display_label, role),
        observed_labels: c.observed_labels,
        role,
        role_confidence,
        function: ParticipantFunction::Unknown,
        function_confidence: 0,
        redacted: false,
        observations: c.observations,
        question_observations: c.question_observations,
        answer_observations: c.answer_observations,
        objection_observations: c.objection_observations,
        statement_observations: c.statement_observations,
    }
}

/// The speakers behind the first `n` counters as participants.
pub open spec fn discovered_participants(list: Seq<ParticipantCounterView>, n: int) -> Seq<
    ParticipantView,
>
    decreases n,
{
    if n <= 0 {
        seq![]
    } else {
        let before = discovered_participants(list, n - 1);
        before.push(discovered_participant(list[n - 1], before))
    }
}

fn make_participant(c: &ParticipantCounter, before: &Vec<Participant>) -> (r: Participant)
    requires
        before@.len() < usize::MAX,
    ensures
        r.deep_view() == discovered_participant(c.deep_view(), before.deep_view()),
{
    let (role, role_confidence) = decide_role(c);
    let mut count: usize = 0;
    for n in 0..before.len()
        invariant
            count <= n,
            count == role_count(before.deep_view(), role, n as int),
    {
        assert(before.deep_view()[n as int] == before@[n as int].deep_view());
        if before[n].role == role {
            count += 1;
        }
    }
    let display_label = if c.observed_labels.len() > 0 {
        assert(c.observed_labels@[0]@ == c.deep_view().observed_labels[0]);
        c.observed_labels[0].clone()
    } else {
        c.canonical.clone()
    };
    Participant {
        id: participant_id(role, count + 1),
        canonical_name: canonical_name_for_label(display_label.as_str(), role),
        display_label,
        observed_labels: clone_list(&c.observed_labels),
        role,
        role_confidence,
        function: ParticipantFunction::Unknown,
        function_confidence: 0,
        redacted: false,
        observations: c.observations,
        question_observations: c.question_observations,
        answer_observations: c.answer_observations,
        objection_observations: c.objection_observations,
        statement_observations: c.statement_observations,
    }
}

/// The participants of a document.
pub open spec fn participants_of(
    pages: Seq<ExtractedPageView>,
    contexts: Seq<PageContextView>,
    max: u16,
) -> Seq<ParticipantView> {
    let counters = pages_discovered(
        pages,
        contexts,
        max,
        titled_style(pages),
        pages.len() as int,
    ).counters;
    discovered_participants(counters, counters.len() as int)
}

pub fn discover_participants(
    document: &ExtractedDocument,
    profile: &TranscriptProfile,
    page_contexts: &Vec<PageContext>,
) -> (r: Vec<Participant>)
    ensures
        r.deep_view() == participants_of(
            document.deep_view().pages,
            page_contexts.deep_view(),
            profile.deep_view().max_line_number,
        ),
{
    let max = profile.max_line_number;
    let ghost pages = document.deep_view().pages;
    let titled = titled_speaker_style_likely(document);
    let mut counters: Vec<ParticipantCounter> = Vec::new();
    let mut asker: Option<String> = None;
    assert(counters.deep_view() =~= seq![]);
    for n in 0..document.pages.len()
        invariant
            pages == document.pages.deep_view(),
            (Discovery { counters: counters.deep_view(), asker: asker.deep_view() })
                == pages_discovered(pages, page_contexts.deep_view(), max, titled, n as int),
    {
        let page = &document.pages[n];
        assert(pages[n as int] == page.deep_view());
        if page.section.is_dialogue() {
            let label = find_page_label(page_contexts, page.physical_page);
            discover_page(&mut counters, &mut asker, page, &label, max, titled);
        }
    }
    let mut list: Vec<Participant> = Vec::new();
    assert(list.deep_view() =~= seq![]);
    for n in 0..counters.len()
        invariant
            list@.len() == n,
            list.deep_view() == discovered_participants(counters.deep_view(), n as int),
    {
        assert(counters.deep_view()[n as int] == counters@[n as int].deep_view());
        let participant = make_participant(&counters[n], &list);
        push_item(&mut list, participant);
    }
    list
}

proof fn lemma_role_words(a: SpeakerRole, b: SpeakerRole)
    ensures
        role_word(a).len() > 0,
        role_word(b).len() > 0,
        a != b ==> role_word(a)[0] != role_word(b)[0],
{
    reveal_strlit("witness");
    reveal_strlit("attorney");
    reveal_strlit("interpreter");
    reveal_strlit("reporter");
    reveal_strlit("judge");
    reveal_strlit("videographer");
    reveal_strlit("speaker");
}

proof fn lemma_numbered_ids(a: SpeakerRole, m: nat, b: SpeakerRole, n: nat)
    requires
        a != b || m != n,
    ensures
        numbered_id(a, m) != numbered_id(b, n),
{
    lemma_role_words(a, b);
    if numbered_id(a, m) == numbered_id(b, n) {
        assert(numbered_id(a, m)[0] == role_word(a)[0]);
        assert(numbered_id(b, n)[0] == role_word(b)[0]);
        let k = (role_word(a) + "_"@).len() as int;
        assert(numbered_id(a, m).skip(k) =~= decimal(m));
        assert(numbered_id(b, n).skip(k) =~= decimal(n));
        lemma_decimal_injective(m, n);
    }
}

proof fn lemma_role_count_grows(list: Seq<ParticipantView>, role: SpeakerRole, m: int, n: int)
    requires
        0 <= m <= n <= list.len(),
    ensures
        role_count(list, role, m) <= role_count(list, role, n),
    decreases n,
{
    if m < n {
        lemma_role_count_grows(list, role, m, n - 1);
    }
}

proof fn lemma_role_count_prefix(
    a: Seq<ParticipantView>,
    b: Seq<ParticipantView>,
    role: SpeakerRole,
    n: int,
)
    requires
        0 <= n <= a.len(),
        n <= b.len(),
        forall|i: int| 0 <= i < n ==> a[i] == b[i],
    ensures
        role_count(a, role, n) == role_count(b, role, n),
    decreases n,
{
    if n > 0 {
        lemma_role_count_prefix(a, b, role, n - 1);
    }
}

proof fn lemma_discovered_ids(list: Seq<ParticipantCounterView>, n: int)
    requires
        0 <= n <= list.len(),
    ensures
        discovered_participants(list, n).len() == n,
        forall|i: int|
            0 <= i < n ==> {
                let p = #[trigger] discovered_participants(list, n)[i];
                p.id == numbered_id(
                    p.role,
                    role_count(discovered_participants(list, n), p.role, i) + 1,
                )
            },
    decreases n,
{
    if n > 0 {
        lemma_discovered_ids(list, n - 1);
        let before = discovered_participants(list, n - 1);
        let after = discovered_participants(list, n);
        assert forall|i: int| 0 <= i < n implies {
            let p = #[trigger] after[i];
            p.id == numbered_id(p.role, role_count(after, p.role, i) + 1)
        } by {
            let p = after[i];
            lemma_role_count_prefix(before, after, p.role, i);
            if i < n - 1 {
                assert(before[i] == p);
            }
        }
    }
}

/// Different participants of a document have different identifiers.
pub proof fn law_participant_ids_distinct(
    pages: Seq<ExtractedPageView>,
    contexts: Seq<PageContextView>,
    max: u16,
    i: int,
    j: int,
)
    requires
        0 <= i < j < participants_of(pages, contexts, max).len(),
    ensures
        participants_of(pages, contexts, max)[i].id != participants_of(pages, contexts, max)[j].id,
{
    let counters = pages_discovered(
        pages,
        contexts,
        max,
        titled_style(pages),
        pages.len() as int,
    ).counters;
    let list = participants_of(pages, contexts, max);
    if counters.len() > 0 {
        lemma_discovered_ids(counters, counters.len() as int);
        let a = list[i];
        let b = list[j];
        let m = role_count(list, a.role, i) + 1;
        let n = role_count(list, b.role, j) + 1;
        if a.role == b.role {
            lemma_role_count_grows(list, a.role, i + 1, j);
        }
        lemma_numbered_ids(a.role, m, b.role, n);
    }
}

// ---------------------------------------------------------------------------
// Laws of the observations
// ---------------------------------------------------------------------------

/// An observation is counted once, under what it was and under the role that it speaks for, and
/// leaves every other count as it was.
pub proof fn law_observations_are_counted(
    c: ParticipantCounterView,
    label: Seq<char>,
    role: SpeakerRole,
    observation: ObservationType,
)
    requires
        c.observations < usize::MAX,
        c.question_observations < usize::MAX,
        c.answer_observations < usize::MAX,
        c.objection_observations < usize::MAX,
        c.statement_observations < usize::MAX,
        c.attorney_votes < usize::MAX,
        c.witness_votes < usize::MAX,
        c.interpreter_votes < usize::MAX,
        c.reporter_votes < usize::MAX,
        c.judge_votes < usize::MAX,
        c.videographer_votes < usize::MAX,
    ensures
        ({
            let after = counter_with(c, label, role, observation);
            let one = |b: bool|
                if b {
                    1int
                } else {
                    0int
                };
            &&& after.canonical == c.canonical
            &&& after.observed_labels == inserted(c.observed_labels, trimmed(label))
            &&& after.observations == c.observations + 1
            &&& after.question_observations == c.question_observations + one(
                observation == ObservationType::Question,
            )
            &&& after.answer_observations == c.answer_observations + one(
                observation == ObservationType::Answer,
            )
            &&& after.objection_observations == c.objection_observations + one(
                observation == ObservationType::Objection,
            )
            &&& after.statement_observations == c.statement_observations + one(
                observation == ObservationType::Statement,
            )
            &&& after.attorney_votes == c.attorney_votes + one(role == SpeakerRole::Attorney)
            &&& after.witness_votes == c.witness_votes + one(role == SpeakerRole::Witness)
            &&& after.interpreter_votes == c.interpreter_votes + one(
                role == SpeakerRole::Interpreter,
            )
            &&& after.reporter_votes == c.reporter_votes + one(role == SpeakerRole::CourtReporter)
            &&& after.judge_votes == c.judge_votes + one(role == SpeakerRole::Judge)
            &&& after.videographer_votes == c.videographer_votes + one(
                role == SpeakerRole::Videographer,
            )
        }),
{
}

proof fn lemma_counter_found(list: Seq<ParticipantCounterView>, canonical: Seq<char>, from: int)
    requires
        0 <= from <= list.len(),
    ensures
        from <= counter_index(list, canonical, from) <= list.len(),
        forall|i: int|
            from <= i < counter_index(list, canonical, from) ==> (#[trigger] list[i]).canonical
                != canonical,
        counter_index(list, canonical, from) < list.len() ==> list[counter_index(
            list,
            canonical,
            from,
        )].canonical == canonical,
    decreases list.len() - from,
{
    if from < list.len() && list[from].canonical != canonical {
        lemma_counter_found(list, canonical, from + 1);
    }
}

/// A label that was seen before, in any case and spacing, counts where it was counted; a new one
/// gets a counter of its own behind the others, which stay as they are. A blank label counts
/// nowhere.
pub proof fn law_labels_are_counted_apart(
    list: Seq<ParticipantCounterView>,
    label: Seq<char>,
    role: SpeakerRole,
    observation: ObservationType,
)
    ensures
        ({
            let canonical = uppercased(single_spaced(trimmed(label)));
            let after = observed(list, label, role, observation);
            let known = exists|i: int|
                0 <= i < list.len() && (#[trigger] list[i]).canonical == canonical;
            &&& canonical.len() == 0 ==> after == list
            &&& canonical.len() > 0 && !known ==> after.len() == list.len() + 1
                && after.drop_last() == list && after.last().canonical == canonical
                && after.last().observations == 1
            &&& canonical.len() > 0 && known ==> after.len() == list.len() && exists|i: int|
                0 <= i < list.len() && (#[trigger] list[i]).canonical == canonical && after
                    == list.update(i, counter_with(list[i], label, role, observation))
        }),
{
    let canonical = canonical_label(label);
    lemma_counter_found(list, canonical, 0);
    let i = counter_index(list, canonical, 0);
    let after = observed(list, label, role, observation);
    if canonical.len() > 0 && i == list.len() {
        assert(after.drop_last() =~= list);
    }
}

/// A turn marked as a question speaks for an attorney and one marked as an answer for a witness;
/// without a marker an objection speaks for an attorney, and else the label decides.
pub proof fn law_turns_speak_for_roles(label: Seq<char>, text: Seq<char>)
    ensures
        ({
            let marked = marker_candidate(text);
            let role = turn_role(label, text);
            &&& marked is Some && (marked->0).0 == MarkerKind::Question ==> role
                == SpeakerRole::Attorney
            &&& marked is Some && (marked->0).0 == MarkerKind::Answer ==> role == SpeakerRole::Witness
            &&& marked is None && objects(text) ==> role == SpeakerRole::Attorney
            &&& marked is None && !objects(text) ==> match label_speaker(label) {
                Some(speaker) => role == speaker.role,
                None => role == SpeakerRole::Unknown,
            }
        }),
{
}

/// What a turn is seen to be: by its marker, an objection, a question where it ends in a question
/// mark, an answer where its label tells nothing and somebody else has asked, and else a statement.
pub proof fn law_turns_are_seen_as(label: Seq<char>, text: Seq<char>, asker: Option<Seq<char>>)
    ensures
        ({
            let marked = marker_candidate(text);
            let seen = turn_observation(label, text, asker);
            let plain = marked is None && !objects(text);
            let replies = label_speaker(label) is None && asker is Some && asker->0
                != canonical_label(label);
            &&& marked is Some && (marked->0).0 == MarkerKind::Question ==> seen
                == ObservationType::Question
            &&& marked is Some && (marked->0).0 == MarkerKind::Answer ==> seen
                == ObservationType::Answer
            &&& marked is None && objects(text) ==> seen == ObservationType::Objection
            &&& plain && asks(text) ==> seen == ObservationType::Question
            &&& plain && !asks(text) && replies ==> seen == ObservationType::Answer
            &&& plain && !asks(text) && !replies ==> seen == ObservationType::Statement
        }),
{
}

/// A turn under a redacted label tells nothing. Any other is counted, and whoever asks without a
/// marker is waited on for an answer until one comes.
pub proof fn law_turns_are_discovered(d: Discovery, label: Seq<char>, text: Seq<char>)
    ensures
        ({
            let after = turn_discovered(d, label, text);
            let seen = turn_observation(label, text, d.asker);
            &&& redacted_label(label) ==> after == d
            &&& !redacted_label(label) ==> after.counters == observed(
                d.counters,
                label,
                turn_role(label, text),
                seen,
            )
            &&& !redacted_label(label) && seen == ObservationType::Question && marker_candidate(
                text,
            ) is None ==> after.asker == Some(canonical_label(label))
            &&& !redacted_label(label) && seen == ObservationType::Answer ==> after.asker is None
            &&& !redacted_label(label) && seen != ObservationType::Answer && !(seen
                == ObservationType::Question && marker_candidate(text) is None) ==> after.asker
                == d.asker
        }),
{
}

/// A line that introduces a witness tells of a witness; else one that heads an examination tells of
/// who asks, unless it is redacted; else one with a label tells of a turn. Titles count as labels
/// only where the document labels turns so. Any other line tells nothing.
pub proof fn law_lines_are_discovered(d: Discovery, content: Seq<char>, titled: bool)
    ensures
        ({
            let after = line_discovered(d, content, titled);
            let witness = introduced_witness(content);
            let examiner = examiner_label(content);
            let turn = if titled {
                labelled_turn(content)
            } else {
                colon_turn(content)
            };
            &&& witness is Some ==> after.counters == observed(
                d.counters,
                witness->0,
                SpeakerRole::Witness,
                ObservationType::Statement,
            ) && after.asker == d.asker
            &&& witness is None && examiner is Some && redacted_label(examiner->0) ==> after == d
            &&& witness is None && examiner is Some && !redacted_label(examiner->0) ==> after.asker
                == d.asker && after.counters == observed(
                d.counters,
                examiner->0,
                match label_speaker(examiner->0) {
                    Some(speaker) => speaker.role,
                    None => SpeakerRole::Unknown,
                },
                ObservationType::Question,
            )
            &&& witness is None && examiner is None && turn is Some ==> after == turn_discovered(
                d,
                (turn->0).0,
                (turn->0).1,
            )
            &&& witness is None && examiner is None && turn is None ==> after == d
        }),
{
}

/// The lines of a page are looked at one after the other, but for blank ones and the page header.
pub proof fn law_lines_of_a_page_are_discovered(
    d: Discovery,
    page: ExtractedPageView,
    label: Option<Seq<char>>,
    max: u16,
    titled: bool,
    n: int,
)
    requires
        0 <= n < lines_of(page.text).len(),
    ensures
        ({
            let before = page_discovered(d, page, label, max, titled, n);
            let after = page_discovered(d, page, label, max, titled, n + 1);
            let content = trimmed(source_line(page, trimmed(lines_of(page.text)[n]), max).1);
            let skipped = content.len() == 0 || page_header(content, label, n as nat);
            &&& page_discovered(d, page, label, max, titled, 0) == d
            &&& skipped ==> after == before
            &&& !skipped ==> after == line_discovered(before, content, titled)
        }),
{
}

/// Only pages of dialogue are looked at for participants, one after the other and each to its end.
pub proof fn law_pages_are_discovered(
    pages: Seq<ExtractedPageView>,
    contexts: Seq<PageContextView>,
    max: u16,
    titled: bool,
    n: int,
)
    requires
        0 <= n < pages.len(),
    ensures
        ({
            let before = pages_discovered(pages, contexts, max, titled, n);
            let after = pages_discovered(pages, contexts, max, titled, n + 1);
            let page = pages[n];
            let start = pages_discovered(pages, contexts, max, titled, 0);
            &&& start.counters.len() == 0 && start.asker is None
            &&& !dialogue_section(page.section) ==> after == before
            &&& dialogue_section(page.section) ==> after == page_discovered(
                before,
                page,
                page_label(contexts, page.physical_page),
                max,
                titled,
                lines_of(page.text).len() as int,
            )
        }),
{
}

/// How many votes a role has.
pub open spec fn votes_for(c: ParticipantCounterView, role: SpeakerRole) -> int {
    match role {
        SpeakerRole::Attorney => c.attorney_votes as int,
        SpeakerRole::Witness => c.witness_votes as int,
        SpeakerRole::Interpreter => c.interpreter_votes as int,
        SpeakerRole::CourtReporter => c.reporter_votes as int,
        SpeakerRole::Judge => c.judge_votes as int,
        SpeakerRole::Videographer => c.videographer_votes as int,
        SpeakerRole::Unknown => 0,
    }
}

/// A speaker has the role with the most votes, and none where nobody voted. The share of it is of
/// all votes.
pub proof fn law_the_most_votes_decide(c: ParticipantCounterView, other: SpeakerRole)
    requires
        c.attorney_votes + c.witness_votes + c.interpreter_votes + c.reporter_votes + c.judge_votes
            + c.videographer_votes <= usize::MAX,
    ensures
        ({
            let (role, share) = decided_role(c);
            let all = c.attorney_votes + c.witness_votes + c.interpreter_votes + c.reporter_votes
                + c.judge_votes + c.videographer_votes;
            &&& votes_for(c, role) >= votes_for(c, other)
            &&& all == 0 <==> role == SpeakerRole::Unknown
            &&& all == 0 ==> share.part == 30 && share.whole == 100
            &&& all > 0 ==> share.part == votes_for(c, role) && share.whole == all
            &&& c.attorney_votes > 0 && c.attorney_votes == c.witness_votes ==> role
                != SpeakerRole::Attorney
            &&& c.videographer_votes > 0 && votes_for(c, role) == c.videographer_votes ==> role
                == SpeakerRole::Videographer
        }),
{
}

/// A label names its speaker unless it is redacted, only describes who speaks, or the role is
/// unknown.
pub proof fn law_labels_give_names(label: Seq<char>, role: SpeakerRole)
    ensures
        ({
            let u = uppercased(trimmed(label));
            let describes = u == "THE WITNESS"@ || u == "WITNESS"@ || u == "THE DEPONENT"@ || u
                == "DEPONENT"@ || u == "THE REPORTER"@ || u == "REPORTER"@ || u
                == "THE INTERPRETER"@ || u == "INTERPRETER"@ || u == "THE COURT"@;
            let nameless = redacted_label(label) || describes || role == SpeakerRole::Unknown;
            &&& nameless ==> label_name(label, role) is None
            &&& !nameless ==> label_name(label, role) == Some(trimmed(label))
        }),
{
}

/// Each counter becomes one participant, in order, with its counts, its labels, the role that its
/// votes decide and the first label as the one shown.
pub proof fn law_counters_become_participants(list: Seq<ParticipantCounterView>, n: int)
    requires
        0 <= n < list.len(),
        list[n].observed_labels.len() > 0,
    ensures
        ({
            let before = discovered_participants(list, n);
            let after = discovered_participants(list, n + 1);
            let p = after.last();
            let c = list[n];
            &&& discovered_participants(list, 0).len() == 0
            &&& after.len() == before.len() + 1 && after.drop_last() == before
            &&& p.display_label == c.observed_labels[0] && p.observed_labels == c.observed_labels
            &&& p.role == decided_role(c).0 && p.role_confidence == decided_role(c).1
            &&& p.canonical_name == label_name(p.display_label, p.role)
            &&& p.id == role_word(p.role) + "_"@ + decimal(
                role_count(before, p.role, before.len() as int) + 1,
            )
            &&& p.observations == c.observations
            &&& p.question_observations == c.question_observations
            &&& p.answer_observations == c.answer_observations
            &&& p.objection_observations == c.objection_observations
            &&& p.statement_observations == c.statement_observations
            &&& p.function == ParticipantFunction::Unknown && p.function_confidence == 0
            &&& !p.redacted
        }),
{
    assert(discovered_participants(list, n + 1).drop_last() =~= discovered_participants(list, n));
}

/// A heading "BY" names who examines where the label tells a speaker, can head an examination, is
/// redacted, or is one in capitals.
pub proof fn law_examiners_are_named(text: Seq<char>)
    ensures
        by_label(text) is None ==> examiner_label(text) is None,
        by_label(text) matches Some(label) ==> ({
            let capitals = mostly_capitals(label) && forall|i: int|
                0 <= i < trimmed(label).len() ==> within(
                    CharClass::LabelCharacter,
                    #[trigger] trimmed(label)[i],
                );
            let fits = label_speaker(label) is Some || bare_heading(label) || redacted_label(label)
                || capitals;
            &&& fits ==> examiner_label(text) == Some(label)
            &&& !fits ==> examiner_label(text) is None
        }),
{
}

/// A participant of whom no label was kept is shown in the form that labels are told apart by.
pub proof fn law_participants_without_labels(
    c: ParticipantCounterView,
    before: Seq<ParticipantView>,
)
    ensures
        c.observed_labels.len() == 0 ==> discovered_participant(c, before).display_label
            == c.canonical,
        c.observed_labels.len() > 0 ==> discovered_participant(c, before).display_label
            == c.observed_labels[0],
{
}

/// A document labels turns by title where some line of a page of dialogue does so, and a page
/// without dialogue shows nothing of it.
pub proof fn law_titled_lines_show_the_style(pages: Seq<ExtractedPageView>, p: int, i: int)
    ensures
        0 <= p < pages.len() && pages[p].section == PageSection::Transcript && 0 <= i < lines_of(
            pages[p].text,
        ).len() && titled_turn(source_line(pages[p], trimmed(lines_of(pages[p].text)[i]), 100).1)
            is Some ==> titled_style(pages),
        (forall|k: int|
            0 <= k < pages.len() ==> (#[trigger] pages[k]).section != PageSection::Transcript)
            ==> !titled_style(pages),
        titled_style(pages) ==> exists|k: int|
            0 <= k < pages.len() && (#[trigger] pages[k]).section == PageSection::Transcript
                && page_titled(pages[k], lines_of(pages[k].text).len() as int),
{
    if 0 <= p < pages.len() && pages[p].section == PageSection::Transcript && 0 <= i < lines_of(
        pages[p].text,
    ).len() && titled_turn(source_line(pages[p], trimmed(lines_of(pages[p].text)[i]), 100).1)
        is Some {
        assert(page_titled(pages[p], lines_of(pages[p].text).len() as int));
    }
}

} // verus!
