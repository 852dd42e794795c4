//! What participants do in a document, as far as its front matter tells.
use vstd::prelude::*;

use crate::document::models::{
    transcript_family_section, ExtractedDocument, ExtractedPage, ExtractedPageView, PageSection,
};
use crate::measure::{hundredths, Ratio};
use crate::pieces::{
    before, before_first, join, joined, last_word, lines, lines_of, split_at_first, split_once,
    word_last, words, words_of,
};
use crate::scan::{
    any_char, any_within, blank_out, blanked_out, contains, find, first_occurrence, has_infix,
    same_ignoring_case, same_letters, start_trimmed, strip, strip_start, stripped, stripped_start,
    to_upper, trim, trim_start, trimmed, uppercased,
};
use crate::text::{byte_len, clone_option, len_bytes, push_item, same, within, CharClass};
use crate::transcript::models::{
    DocumentType, Participant, ParticipantFunction, ParticipantView, SpeakerRole,
};
use crate::transcript::people::{canonical_label, canonicalize_label};
use crate::transcript::speaker::{labelled_turn, split_any_speaker_prefix};

verus! {

// ---------------------------------------------------------------------------
// The subject
// ---------------------------------------------------------------------------

/// Whether a page may carry front matter.
pub open spec fn front_page(page: ExtractedPageView) -> bool {
    transcript_family_section(page.section) || page.section == PageSection::Unknown
}

fn is_front_page(page: &ExtractedPage) -> (r: bool)
    ensures
        r == front_page(page.deep_view()),
{
    page.section.is_transcript_family() || page.section == PageSection::Unknown
}

/// The subject that a line names behind a phrase.
pub open spec fn subject_after(line: Seq<char>, phrase: Seq<char>) -> Option<Seq<char>> {
    match first_occurrence(uppercased(line), phrase) {
        Some(i) => {
            let candidate = trimmed(
                stripped(
                    trimmed(line.subrange(i + phrase.len(), line.len() as int)),
                    CharClass::Is(':'),
                ),
            );
            if byte_len(candidate) >= 2 {
                Some(canonical_label(candidate))
            } else {
                None
            }
        },
        None => None,
    }
}

fn find_subject_after(line: &str, phrase: &str) -> (r: Option<String>)
    ensures
        r.deep_view() == subject_after(line@, phrase@),
{
    let upper = to_upper(line);
    match find(upper.as_str(), phrase) {
        Some(i) => {
            let len = line.unicode_len();
            let rest = line.substring_char(i + phrase.unicode_len(), len);
            let candidate = trim(strip(trim(rest), CharClass::Is(':')));
            if len_bytes(candidate) >= 2 {
                Some(canonicalize_label(candidate))
            } else {
                None
            }
        },
        None => None,
    }
}

/// The subject that a line names.
pub open spec fn line_subject(line: Seq<char>) -> Option<Seq<char>> {
    let t = trimmed(line);
    if subject_after(t, "INTERVIEW OF:"@) is Some {
        subject_after(t, "INTERVIEW OF:"@)
    } else if subject_after(t, "INTERVIEW OF"@) is Some {
        subject_after(t, "INTERVIEW OF"@)
    } else if subject_after(t, "DEPOSITION OF:"@) is Some {
        subject_after(t, "DEPOSITION OF:"@)
    } else if subject_after(t, "DEPOSITION OF"@) is Some {
        subject_after(t, "DEPOSITION OF"@)
    } else {
        subject_after(t, "WITNESS:"@)
    }
}

fn find_line_subject(line: &str) -> (r: Option<String>)
    ensures
        r.deep_view() == line_subject(line@),
{
    let t = trim(line);
    let found = find_subject_after(t, "INTERVIEW OF:");
    if found.is_some() {
        return found;
    }
    let found = find_subject_after(t, "INTERVIEW OF");
    if found.is_some() {
        return found;
    }
    let found = find_subject_after(t, "DEPOSITION OF:");
    if found.is_some() {
        return found;
    }
    let found = find_subject_after(t, "DEPOSITION OF");
    if found.is_some() {
        return found;
    }
    find_subject_after(t, "WITNESS:")
}

/// The first subject that a line from `from` on names.
pub open spec fn subject_in_lines(list: Seq<Seq<char>>, from: int) -> Option<Seq<char>>
    decreases list.len() - from,
{
    if from < 0 || from >= list.len() {
        None
    } else if line_subject(list[from]) is Some {
        line_subject(list[from])
    } else {
        subject_in_lines(list, from + 1)
    }
}

fn find_subject_in_lines(list: &Vec<String>) -> (r: Option<String>)
    ensures
        r.deep_view() == subject_in_lines(list.deep_view(), 0),
{
    for i in 0..list.len()
        invariant
            subject_in_lines(list.deep_view(), i as int) == subject_in_lines(list.deep_view(), 0),
    {
        assert(list.deep_view()[i as int] == list@[i as int]@);
        let found = find_line_subject(list[i].as_str());
        if found.is_some() {
            return found;
        }
    }
    None
}

/// The first subject that one of the first twelve pages, from `from` on, names.
pub open spec fn named_subject(pages: Seq<ExtractedPageView>, from: int) -> Option<Seq<char>>
    decreases pages.len() - from,
{
    if from < 0 || from >= pages.len() || from >= 12 {
        None
    } else if front_page(pages[from]) && subject_in_lines(lines_of(pages[from].text), 0) is Some {
        subject_in_lines(lines_of(pages[from].text), 0)
    } else {
        named_subject(pages, from + 1)
    }
}

fn discover_named_subject(document: &ExtractedDocument) -> (r: Option<String>)
    ensures
        r.deep_view() == named_subject(document.deep_view().pages, 0),
{
    let ghost pages = document.deep_view().pages;
    let mut i: usize = 0;
    while i < document.pages.len() && i < 12
        invariant
            pages == document.pages.deep_view(),
            i <= document.pages@.len(),
            named_subject(pages, i as int) == named_subject(pages, 0),
        decreases document.pages@.len() - i,
    {
        assert(pages[i as int] == document.pages@[i as int].deep_view());
        if is_front_page(&document.pages[i]) {
            let found = find_subject_in_lines(&lines(document.pages[i].text.as_str()));
            if found.is_some() {
                return found;
            }
        }
        i += 1;
    }
    None
}

// ---------------------------------------------------------------------------
// Names
// ---------------------------------------------------------------------------

/// Whether a word is a form of address or an office. Descriptions of the witness count for
/// comparing labels, offices for finding names.
pub open spec fn title_word(word: Seq<char>, comparing: bool) -> bool {
    let u = uppercased(word);
    ||| u == "MR"@
    ||| u == "MS"@
    ||| u == "MRS"@
    ||| u == "MISS"@
    ||| u == "DR"@
    ||| u == "HON"@
    ||| comparing && (u == "THE"@ || u == "WITNESS"@)
    ||| !comparing && u == "CHAIRMAN"@
}

fn is_title_word(word: &str, comparing: bool) -> (r: bool)
    ensures
        r == title_word(word@, comparing),
{
    let upper = to_upper(word);
    let u = upper.as_str();
    same(u, "MR")
        || same(u, "MS")
        || same(u, "MRS")
        || same(u, "MISS")
        || same(u, "DR")
        || same(u, "HON")
        || (comparing && (same(u, "THE") || same(u, "WITNESS")))
        || (!comparing && same(u, "CHAIRMAN"))
}

/// The words among the first `n` that are no titles.
pub open spec fn untitled_words(list: Seq<Seq<char>>, comparing: bool, n: int) -> Seq<Seq<char>>
    decreases n,
{
    if n <= 0 {
        seq![]
    } else if title_word(list[n - 1], comparing) {
        untitled_words(list, comparing, n - 1)
    } else {
        untitled_words(list, comparing, n - 1).push(list[n - 1])
    }
}

fn drop_titles(list: &Vec<String>, comparing: bool) -> (r: Vec<String>)
    ensures
        r.deep_view() == untitled_words(list.deep_view(), comparing, list.deep_view().len() as int),
{
    let mut r: Vec<String> = Vec::new();
    assert(r.deep_view() =~= seq![]);
    for n in 0..list.len()
        invariant
            r.deep_view() == untitled_words(list.deep_view(), comparing, n as int),
    {
        assert(list.deep_view()[n as int] == list@[n as int]@);
        if !is_title_word(list[n].as_str(), comparing) {
            push_item(&mut r, list[n].clone());
        }
    }
    r
}

/// A label without punctuation and titles, in upper case.
pub open spec fn bare_name(label: Seq<char>) -> Seq<char> {
    let list = words_of(blanked_out(label, CharClass::AlphanumericOrSpace));
    uppercased(joined(untitled_words(list, true, list.len() as int), " "@))
}

fn name_alone(label: &str) -> (r: String)
    ensures
        r@ == bare_name(label@),
{
    let list = words(blank_out(label, CharClass::AlphanumericOrSpace).as_str());
    to_upper(join(&drop_titles(&list, true), " ").as_str())
}

/// Whether two labels name one person: one name holds the other.
pub open spec fn same_person(left: Seq<char>, right: Seq<char>) -> bool {
    let a = bare_name(left);
    let b = bare_name(right);
    a.len() > 0 && b.len() > 0 && (a == b || has_infix(a, b) || has_infix(b, a))
}

fn labels_probably_match(left: &str, right: &str) -> (r: bool)
    ensures
        r == same_person(left@, right@),
{
    let a = name_alone(left);
    let b = name_alone(right);
    if a.as_str().is_empty() || b.as_str().is_empty() {
        return false;
    }
    same(a.as_str(), b.as_str()) || contains(a.as_str(), b.as_str()) || contains(
        b.as_str(),
        a.as_str(),
    )
}

/// Whether two labels are taken for one person does not depend on their order.
pub proof fn law_same_person_is_symmetric(left: Seq<char>, right: Seq<char>)
    ensures
        same_person(left, right) == same_person(right, left),
{
}

/// The last name in a label, in upper case.
pub open spec fn surname(label: Seq<char>) -> Option<Seq<char>> {
    let list = words_of(blanked_out(label, CharClass::Alphanumeric));
    let kept = untitled_words(list, false, list.len() as int);
    if kept.len() > 0 && byte_len(uppercased(kept.last())) >= 3 {
        Some(uppercased(kept.last()))
    } else {
        None
    }
}

fn find_surname(label: &str) -> (r: Option<String>)
    ensures
        r.deep_view() == surname(label@),
{
    let list = words(blank_out(label, CharClass::Alphanumeric).as_str());
    let kept = drop_titles(&list, false);
    let count = kept.len();
    if count == 0 {
        return None;
    }
    assert(kept@[count - 1]@ == kept.deep_view()[count - 1]);
    let name = to_upper(kept[count - 1].as_str());
    if len_bytes(name.as_str()) >= 3 {
        Some(name)
    } else {
        None
    }
}

/// A line without the number that it opens with.
pub open spec fn unnumbered(line: Seq<char>) -> Seq<char> {
    let t = trimmed(line);
    let rest = stripped_start(t, CharClass::Digit);
    if rest.len() < t.len() {
        start_trimmed(rest)
    } else {
        t
    }
}

fn strip_number(line: &str) -> (r: &str)
    ensures
        r@ == unnumbered(line@),
{
    let t = trim(line);
    let rest = strip_start(t, CharClass::Digit);
    if rest.unicode_len() < t.unicode_len() {
        trim_start(rest)
    } else {
        t
    }
}

/// The full name that a line of front matter gives for a last name.
pub open spec fn name_on_line(line: Seq<char>, last: Seq<char>) -> Option<Seq<char>> {
    let t = unnumbered(line);
    let name = trimmed(before_first(t, ','));
    let list = words_of(name);
    if labelled_turn(t) is None && !any_within(name, CharClass::Lowercase) && has_infix(
        uppercased(name),
        last,
    ) && 2 <= list.len() <= 5 && same_ignoring_case(
        stripped(list.last(), CharClass::NotAlphanumeric),
        last,
    ) {
        Some(name)
    } else {
        None
    }
}

fn find_name_on_line<'a>(line: &'a str, last: &str) -> (r: Option<&'a str>)
    ensures
        r.deep_view() == name_on_line(line@, last@),
{
    let t = strip_number(line);
    if split_any_speaker_prefix(t).is_some() {
        return None;
    }
    let name = trim(before(t, ','));
    if any_char(name, CharClass::Lowercase) || !contains(to_upper(name).as_str(), last) {
        return None;
    }
    let list = words(name);
    let count = list.len();
    if count < 2 || count > 5 {
        return None;
    }
    assert(list@[count - 1]@ == list.deep_view()[count - 1]);
    if same_letters(strip(list[count - 1].as_str(), CharClass::NotAlphanumeric), last) {
        Some(name)
    } else {
        None
    }
}

/// The first full name that a line from `from` on gives for a last name.
pub open spec fn name_in_lines(list: Seq<Seq<char>>, last: Seq<char>, from: int) -> Option<Seq<char>>
    decreases list.len() - from,
{
    if from < 0 || from >= list.len() {
        None
    } else if name_on_line(list[from], last) is Some {
        name_on_line(list[from], last)
    } else {
        name_in_lines(list, last, from + 1)
    }
}

fn find_name_in_lines(list: &Vec<String>, last: &str) -> (r: Option<String>)
    ensures
        r.deep_view() == name_in_lines(list.deep_view(), last@, 0),
{
    for i in 0..list.len()
        invariant
            name_in_lines(list.deep_view(), last@, i as int) == name_in_lines(
                list.deep_view(),
                last@,
                0,
            ),
    {
        assert(list.deep_view()[i as int] == list@[i as int]@);
        match find_name_on_line(list[i].as_str(), last) {
            Some(name) => {
                return Some(name.to_owned());
            },
            None => {},
        }
    }
    None
}

/// The first full name that one of the first sixteen pages, from `from` on, gives for a last
/// name.
pub open spec fn name_in_pages(pages: Seq<ExtractedPageView>, last: Seq<char>, from: int) -> Option<
    Seq<char>,
>
    decreases pages.len() - from,
{
    if from < 0 || from >= pages.len() || from >= 16 {
        None
    } else if front_page(pages[from]) && name_in_lines(lines_of(pages[from].text), last, 0) is Some {
        name_in_lines(lines_of(pages[from].text), last, 0)
    } else {
        name_in_pages(pages, last, from + 1)
    }
}

/// The full name that the front matter gives for a label.
pub open spec fn front_matter_name(pages: Seq<ExtractedPageView>, label: Seq<char>) -> Option<
    Seq<char>,
> {
    match surname(label) {
        Some(last) => name_in_pages(pages, last, 0),
        None => None,
    }
}

fn canonical_name_from_front_matter(document: &ExtractedDocument, label: &str) -> (r: Option<String>)
    ensures
        r.deep_view() == front_matter_name(document.deep_view().pages, label@),
{
    let last = match find_surname(label) {
        Some(last) => last,
        None => {
            return None;
        },
    };
    let ghost pages = document.deep_view().pages;
    let mut i: usize = 0;
    while i < document.pages.len() && i < 16
        invariant
            pages == document.pages.deep_view(),
            i <= document.pages@.len(),
            surname(label@) == Some(last@),
            name_in_pages(pages, last@, i as int) == name_in_pages(pages, last@, 0),
        decreases document.pages@.len() - i,
    {
        assert(pages[i as int] == document.pages@[i as int].deep_view());
        if is_front_page(&document.pages[i]) {
            let found = find_name_in_lines(
                &lines(document.pages[i].text.as_str()),
                last.as_str(),
            );
            if found.is_some() {
                return found;
            }
        }
        i += 1;
    }
    None
}

// ---------------------------------------------------------------------------
// Roles in the front matter
// ---------------------------------------------------------------------------

/// What the front matter may call someone.
#[derive(Clone, Copy)]
pub enum Calling {
    Counsel,
    LawEnforcement,
    GovernmentCounsel,
}

/// Whether a description calls someone something.
pub open spec fn describes(role: Seq<char>, calling: Calling) -> bool {
    match calling {
        Calling::Counsel => has_infix(role, "COUNSEL"@) || has_infix(role, "ATTORNEY"@)
            || has_infix(role, "ESQ"@),
        Calling::LawEnforcement => has_infix(role, "FBI"@) || has_infix(role, "SPECIAL AGENT"@)
            || has_infix(role, "MARSHAL"@) || has_infix(role, "LAW ENFORCEMENT"@),
        Calling::GovernmentCounsel => has_infix(role, "ATTORNEY GENERAL"@) || has_infix(
            role,
            "DEPARTMENT OF JUSTICE"@,
        ) || has_infix(role, "U.S. ATTORNEY"@),
    }
}

fn is_described(role: &str, calling: Calling) -> (r: bool)
    ensures
        r == describes(role@, calling),
{
    match calling {
        Calling::Counsel => contains(role, "COUNSEL") || contains(role, "ATTORNEY") || contains(
            role,
            "ESQ",
        ),
        Calling::LawEnforcement => contains(role, "FBI") || contains(role, "SPECIAL AGENT")
            || contains(role, "MARSHAL") || contains(role, "LAW ENFORCEMENT"),
        Calling::GovernmentCounsel => contains(role, "ATTORNEY GENERAL") || contains(
            role,
            "DEPARTMENT OF JUSTICE",
        ) || contains(role, "U.S. ATTORNEY"),
    }
}

/// The last word of a label, without full stops.
pub open spec fn label_surname(label: Seq<char>) -> Seq<char> {
    stripped(
        match last_word(label) {
            Some(word) => word,
            None => label,
        },
        CharClass::Is('.'),
    )
}

/// Whether a line gives someone a calling: the name before its first comma ends in the last
/// name, and what follows describes the calling.
pub open spec fn line_calls(line: Seq<char>, last: Seq<char>, calling: Calling) -> bool {
    match split_at_first(line, ',') {
        Some((name, role)) => (last_word(name) matches Some(word) && same_ignoring_case(
            stripped(word, CharClass::Is('.')),
            last,
        )) && describes(role, calling),
        None => false,
    }
}

/// Whether the front matter gives the person behind a label a calling. A nearby person's
/// title is not evidence.
pub open spec fn front_matter_calls(front: Seq<char>, label: Seq<char>, calling: Calling) -> bool {
    byte_len(label_surname(label)) >= 2 && exists|i: int|
        0 <= i < lines_of(front).len() && line_calls(
            #[trigger] lines_of(front)[i],
            label_surname(label),
            calling,
        )
}

fn does_line_call(line: &str, last: &str, calling: Calling) -> (r: bool)
    ensures
        r == line_calls(line@, last@, calling),
{
    match split_once(line, ',') {
        Some((name, role)) => {
            let named = match word_last(name) {
                Some(word) => same_letters(strip(word.as_str(), CharClass::Is('.')), last),
                None => false,
            };
            named && is_described(role, calling)
        },
        None => false,
    }
}

fn front_matter_mentions_role(front_lines: &Vec<String>, label: &str, calling: Calling) -> (r: bool)
    ensures
        forall|front: Seq<char>|
            front_lines.deep_view() == lines_of(front) ==> r == #[trigger] front_matter_calls(
                front,
                label@,
                calling,
            ),
{
    let word = word_last(label);
    let last = match &word {
        Some(w) => strip(w.as_str(), CharClass::Is('.')),
        None => strip(label, CharClass::Is('.')),
    };
    assert(last@ == label_surname(label@));
    if len_bytes(last) < 2 {
        return false;
    }
    let ghost view = front_lines.deep_view();
    for i in 0..front_lines.len()
        invariant
            view == front_lines.deep_view(),
            last@ == label_surname(label@),
            byte_len(last@) >= 2,
            forall|j: int| 0 <= j < i ==> !line_calls(#[trigger] view[j], last@, calling),
    {
        assert(view[i as int] == front_lines@[i as int]@);
        if does_line_call(front_lines[i].as_str(), last, calling) {
            assert(line_calls(view[i as int], last@, calling));
            return true;
        }
    }
    false
}

/// The texts, in upper case, of the pages of the transcript proper among the first `n`, up
/// to twelve.
pub open spec fn front_texts(pages: Seq<ExtractedPageView>, n: int) -> Seq<Seq<char>>
    decreases n,
{
    if n <= 0 {
        seq![]
    } else {
        let before = front_texts(pages, n - 1);
        if before.len() < 12 && transcript_family_section(pages[n - 1].section) {
            before.push(uppercased(pages[n - 1].text))
        } else {
            before
        }
    }
}

/// The front matter of a document, in upper case.
pub open spec fn front_matter(pages: Seq<ExtractedPageView>) -> Seq<char> {
    joined(front_texts(pages, pages.len() as int), "\n"@)
}

fn collect_front_matter(document: &ExtractedDocument) -> (r: String)
    ensures
        r@ == front_matter(document.deep_view().pages),
{
    let ghost pages = document.deep_view().pages;
    let mut list: Vec<String> = Vec::new();
    assert(list.deep_view() =~= seq![]);
    for n in 0..document.pages.len()
        invariant
            pages == document.pages.deep_view(),
            list.deep_view() == front_texts(pages, n as int),
    {
        assert(pages[n as int] == document.pages@[n as int].deep_view());
        if list.len() < 12 && document.pages[n].section.is_transcript_family() {
            push_item(&mut list, to_upper(document.pages[n].text.as_str()));
        }
    }
    join(&list, "\n")
}

// ---------------------------------------------------------------------------
// Functions
// ---------------------------------------------------------------------------

/// The participant among the first `n` who asks most, or answers most; the last of several.
pub open spec fn top_participant(list: Seq<ParticipantView>, asking: bool, n: int) -> Option<int>
    decreases n,
{
    if n <= 0 {
        None
    } else {
        let best = top_participant(list, asking, n - 1);
        if best matches Some(i) ==> activity(list[n - 1], asking) >= activity(list[i], asking) {
            Some(n - 1)
        } else {
            best
        }
    }
}

/// How often a participant asks or answers.
pub open spec fn activity(p: ParticipantView, asking: bool) -> usize {
    if asking {
        p.question_observations
    } else {
        p.answer_observations
    }
}

/// The identifier of the participant who asks most, or answers most, if anyone does.
pub open spec fn top_id(list: Seq<ParticipantView>, asking: bool) -> Option<Seq<char>> {
    match top_participant(list, asking, list.len() as int) {
        Some(i) => if activity(list[i], asking) > 0 {
            Some(list[i].id)
        } else {
            None
        },
        None => None,
    }
}

fn activity_of(p: &Participant, asking: bool) -> (r: usize)
    ensures
        r == activity(p.deep_view(), asking),
{
    if asking {
        p.question_observations
    } else {
        p.answer_observations
    }
}

fn find_top_id(list: &Vec<Participant>, asking: bool) -> (r: Option<String>)
    ensures
        r.deep_view() == top_id(list.deep_view(), asking),
{
    let ghost view = list.deep_view();
    let mut best: Option<usize> = None;
    for n in 0..list.len()
        invariant
            view == list.deep_view(),
            match best {
                Some(i) => i < n && top_participant(view, asking, n as int) == Some(i as int),
                None => top_participant(view, asking, n as int) is None,
            },
    {
        assert(view[n as int] == list@[n as int].deep_view());
        let ahead = match best {
            Some(i) => {
                assert(view[i as int] == list@[i as int].deep_view());
                activity_of(&list[n], asking) >= activity_of(&list[i], asking)
            },
            None => true,
        };
        if ahead {
            best = Some(n);
        }
    }
    match best {
        Some(i) => {
            assert(view[i as int] == list@[i as int].deep_view());
            if activity_of(&list[i], asking) > 0 {
                Some(list[i].id.clone())
            } else {
                None
            }
        },
        None => None,
    }
}

/// What bears on the function of a participant.
#[derive(Clone, Copy)]
pub struct FunctionClues {
    pub interview: bool,
    pub testimony: bool,
    pub subject: bool,
    pub counsel: bool,
    pub law_enforcement: bool,
    pub government_counsel: bool,
    pub top_questioner: bool,
    pub top_answerer: bool,
}

/// The role and the confidence in it that the clues leave a participant with.
pub open spec fn clued_role(role: SpeakerRole, confidence: Ratio, clues: FunctionClues) -> (
    SpeakerRole,
    Ratio,
) {
    if clues.subject {
        (SpeakerRole::Witness, hundredths(98))
    } else if role == SpeakerRole::Unknown && (clues.counsel || clues.government_counsel) {
        (SpeakerRole::Attorney, hundredths(95))
    } else {
        (role, confidence)
    }
}

/// The function of a participant in a role, with the confidence in hundredths.
pub open spec fn clued_function(role: SpeakerRole, asks_more: bool, clues: FunctionClues) -> (
    ParticipantFunction,
    u8,
) {
    if clues.subject {
        if clues.interview {
            (ParticipantFunction::Interviewee, 100)
        } else if clues.testimony {
            (ParticipantFunction::Witness, 100)
        } else {
            (ParticipantFunction::Witness, 90)
        }
    } else if role == SpeakerRole::Interpreter {
        (ParticipantFunction::Interpreter, 100)
    } else if role == SpeakerRole::CourtReporter {
        (ParticipantFunction::CourtReporter, 100)
    } else if role == SpeakerRole::Judge {
        (ParticipantFunction::Judge, 100)
    } else if role == SpeakerRole::Videographer {
        (ParticipantFunction::Videographer, 100)
    } else if clues.law_enforcement {
        (ParticipantFunction::LawEnforcement, 95)
    } else if clues.top_questioner && clues.interview {
        (ParticipantFunction::Interviewer, 95)
    } else if clues.government_counsel {
        (ParticipantFunction::GovernmentCounsel, 92)
    } else if clues.counsel {
        if clues.interview && asks_more && clues.top_questioner {
            (ParticipantFunction::Interviewer, 90)
        } else {
            (ParticipantFunction::Counsel, 92)
        }
    } else if role == SpeakerRole::Attorney {
        if clues.interview && clues.top_questioner {
            (ParticipantFunction::Interviewer, 88)
        } else {
            (ParticipantFunction::Counsel, 78)
        }
    } else if role == SpeakerRole::Witness || clues.top_answerer {
        if clues.interview {
            (ParticipantFunction::Interviewee, 88)
        } else {
            (ParticipantFunction::Witness, 88)
        }
    } else {
        (ParticipantFunction::Unknown, 30)
    }
}

fn decide_function(role: SpeakerRole, asks_more: bool, clues: FunctionClues) -> (r: (
    ParticipantFunction,
    u8,
))
    ensures
        r == clued_function(role, asks_more, clues),
{
    if clues.subject {
        if clues.interview {
            (ParticipantFunction::Interviewee, 100)
        } else if clues.testimony {
            (ParticipantFunction::Witness, 100)
        } else {
            (ParticipantFunction::Witness, 90)
        }
    } else if role == SpeakerRole::Interpreter {
        (ParticipantFunction::Interpreter, 100)
    } else if role == SpeakerRole::CourtReporter {
        (ParticipantFunction::CourtReporter, 100)
    } else if role == SpeakerRole::Judge {
        (ParticipantFunction::Judge, 100)
    } else if role == SpeakerRole::Videographer {
        (ParticipantFunction::Videographer, 100)
    } else if clues.law_enforcement {
        (ParticipantFunction::LawEnforcement, 95)
    } else if clues.top_questioner && clues.interview {
        (ParticipantFunction::Interviewer, 95)
    } else if clues.government_counsel {
        (ParticipantFunction::GovernmentCounsel, 92)
    } else if clues.counsel {
        if clues.interview && asks_more && clues.top_questioner {
            (ParticipantFunction::Interviewer, 90)
        } else {
            (ParticipantFunction::Counsel, 92)
        }
    } else if role == SpeakerRole::Attorney {
        if clues.interview && clues.top_questioner {
            (ParticipantFunction::Interviewer, 88)
        } else {
            (ParticipantFunction::Counsel, 78)
        }
    } else if role == SpeakerRole::Witness || clues.top_answerer {
        if clues.interview {
            (ParticipantFunction::Interviewee, 88)
        } else {
            (ParticipantFunction::Witness, 88)
        }
    } else {
        (ParticipantFunction::Unknown, 30)
    }
}

/// What bears on the function of a participant in a document.
pub open spec fn clues_for(
    p: ParticipantView,
    front: Seq<char>,
    subject: Option<Seq<char>>,
    document_type: DocumentType,
    questioner: Option<Seq<char>>,
    answerer: Option<Seq<char>>,
) -> FunctionClues {
    let label = uppercased(p.display_label);
    FunctionClues {
        interview: document_type == DocumentType::Interview,
        testimony: document_type == DocumentType::Deposition || document_type
            == DocumentType::Examination,
        subject: subject matches Some(s) && same_person(s, label),
        counsel: front_matter_calls(front, label, Calling::Counsel),
        law_enforcement: front_matter_calls(front, label, Calling::LawEnforcement),
        government_counsel: front_matter_calls(front, label, Calling::GovernmentCounsel),
        top_questioner: questioner == Some(p.id),
        top_answerer: answerer == Some(p.id),
    }
}

/// A participant with its function, by the clues.
pub open spec fn assigned_participant(
    p: ParticipantView,
    clues: FunctionClues,
    subject: Option<Seq<char>>,
    pages: Seq<ExtractedPageView>,
) -> ParticipantView {
    let (role, role_confidence) = clued_role(p.role, p.role_confidence, clues);
    let (function, function_confidence) = clued_function(
        role,
        p.question_observations > p.answer_observations,
        clues,
    );
    ParticipantView {
        role,
        role_confidence,
        function,
        function_confidence,
        canonical_name: if p.redacted {
            p.canonical_name
        } else if clues.subject {
            subject
        } else if front_matter_name(pages, p.display_label) is Some {
            front_matter_name(pages, p.display_label)
        } else if p.canonical_name is None && function != ParticipantFunction::Unknown {
            Some(p.display_label)
        } else {
            p.canonical_name
        },
        ..p
    }
}

fn is_some_text(a: &Option<String>, b: &str) -> (r: bool)
    ensures
        r == (a.deep_view() == Some(b@)),
{
    match a {
        Some(x) => same(x.as_str(), b),
        None => false,
    }
}

fn assign_function(
    p: &mut Participant,
    clues: FunctionClues,
    subject: &Option<String>,
    document: &ExtractedDocument,
)
    ensures
        final(p).deep_view() == assigned_participant(
            old(p).deep_view(),
            clues,
            subject.deep_view(),
            document.deep_view().pages,
        ),
{
    if clues.subject {
        p.role = SpeakerRole::Witness;
        p.role_confidence = Ratio::of_hundred(98);
    } else if p.role == SpeakerRole::Unknown && (clues.counsel || clues.government_counsel) {
        p.role = SpeakerRole::Attorney;
        p.role_confidence = Ratio::of_hundred(95);
    }
    let (function, confidence) = decide_function(
        p.role,
        p.question_observations > p.answer_observations,
        clues,
    );
    p.function = function;
    p.function_confidence = confidence;
    if !p.redacted {
        if clues.subject {
            p.canonical_name = clone_option(subject);
        } else {
            let name = canonical_name_from_front_matter(document, p.display_label.as_str());
            if name.is_some() {
                p.canonical_name = name;
            } else if p.canonical_name.is_none() && function != ParticipantFunction::Unknown {
                p.canonical_name = Some(p.display_label.clone());
            }
        }
    }
}

/// Participants with their functions.
pub open spec fn assigned_participants(
    pages: Seq<ExtractedPageView>,
    document_type: DocumentType,
    list: Seq<ParticipantView>,
) -> Seq<ParticipantView> {
    let subject = named_subject(pages, 0);
    Seq::new(
        list.len(),
        |i: int|
            assigned_participant(
                list[i],
                clues_for(
                    list[i],
                    front_matter(pages),
                    subject,
                    document_type,
                    top_id(list, true),
                    top_id(list, false),
                ),
                subject,
                pages,
            ),
    )
}

pub fn assign_participant_functions(
    document: &ExtractedDocument,
    document_type: DocumentType,
    participants: &mut Vec<Participant>,
)
    ensures
        final(participants).deep_view() == assigned_participants(
            document.deep_view().pages,
            document_type,
            old(participants).deep_view(),
        ),
{
    let ghost pages = document.deep_view().pages;
    let ghost list = participants.deep_view();
    let ghost all = assigned_participants(pages, document_type, list);
    let subject = discover_named_subject(document);
    let front = collect_front_matter(document);
    let front_lines = lines(front.as_str());
    let questioner = find_top_id(participants, true);
    let answerer = find_top_id(participants, false);
    let count = participants.len();
    for i in 0..count
        invariant
            count == participants@.len(),
            count == list.len(),
            pages == document.deep_view().pages,
            front@ == front_matter(pages),
            front_lines.deep_view() == lines_of(front@),
            subject.deep_view() == named_subject(pages, 0),
            questioner.deep_view() == top_id(list, true),
            answerer.deep_view() == top_id(list, false),
            all == assigned_participants(pages, document_type, list),
            forall|j: int|
                0 <= j < count ==> (#[trigger] participants.deep_view()[j]) == if j < i {
                    all[j]
                } else {
                    list[j]
                },
    {
        let ghost now = participants.deep_view();
        let p = &participants[i];
        assert(now[i as int] == p.deep_view());
        let label = to_upper(p.display_label.as_str());
        let is_subject = match &subject {
            Some(s) => labels_probably_match(s.as_str(), label.as_str()),
            None => false,
        };
        let clues = FunctionClues {
            interview: document_type == DocumentType::Interview,
            testimony: document_type == DocumentType::Deposition || document_type
                == DocumentType::Examination,
            subject: is_subject,
            counsel: front_matter_mentions_role(&front_lines, label.as_str(), Calling::Counsel),
            law_enforcement: front_matter_mentions_role(
                &front_lines,
                label.as_str(),
                Calling::LawEnforcement,
            ),
            government_counsel: front_matter_mentions_role(
                &front_lines,
                label.as_str(),
                Calling::GovernmentCounsel,
            ),
            top_questioner: is_some_text(&questioner, p.id.as_str()),
            top_answerer: is_some_text(&answerer, p.id.as_str()),
        };
        proof {
            assert(clues.counsel == front_matter_calls(front@, label@, Calling::Counsel));
            assert(clues.law_enforcement == front_matter_calls(
                front@,
                label@,
                Calling::LawEnforcement,
            ));
            assert(clues.government_counsel == front_matter_calls(
                front@,
                label@,
                Calling::GovernmentCounsel,
            ));
        }
        assign_function(&mut participants[i], clues, &subject, document);
        assert(participants.deep_view() =~= now.update(i as int, all[i as int]));
    }
    assert(participants.deep_view() =~= all);
}

// ---------------------------------------------------------------------------
// Laws
// ---------------------------------------------------------------------------

/// A line names its subject behind one of these phrases, tried in this order: what follows the
/// first of them, colons and white space aside, of at least two bytes.
pub proof fn law_lines_name_subjects(line: Seq<char>, phrase: Seq<char>)
    ensures
        ({
            let t = trimmed(line);
            let named = |p: Seq<char>| subject_after(t, p);
            &&& named("INTERVIEW OF:"@) is Some ==> line_subject(line) == named("INTERVIEW OF:"@)
            &&& named("INTERVIEW OF:"@) is None && named("INTERVIEW OF"@) is Some ==> line_subject(
                line,
            ) == named("INTERVIEW OF"@)
            &&& named("INTERVIEW OF:"@) is None && named("INTERVIEW OF"@) is None && named(
                "DEPOSITION OF:"@,
            ) is Some ==> line_subject(line) == named("DEPOSITION OF:"@)
            &&& named("INTERVIEW OF:"@) is None && named("INTERVIEW OF"@) is None && named(
                "DEPOSITION OF:"@,
            ) is None && named("DEPOSITION OF"@) is Some ==> line_subject(line) == named(
                "DEPOSITION OF"@,
            )
            &&& named("INTERVIEW OF:"@) is None && named("INTERVIEW OF"@) is None && named(
                "DEPOSITION OF:"@,
            ) is None && named("DEPOSITION OF"@) is None ==> line_subject(line) == named(
                "WITNESS:"@,
            )
        }),
        first_occurrence(uppercased(line), phrase) is None ==> subject_after(line, phrase) is None,
        first_occurrence(uppercased(line), phrase) matches Some(at) ==> ({
            let rest = trimmed(
                stripped(
                    trimmed(line.subrange(at + phrase.len(), line.len() as int)),
                    CharClass::Is(':'),
                ),
            );
            &&& byte_len(rest) >= 2 ==> subject_after(line, phrase) == Some(canonical_label(rest))
            &&& byte_len(rest) < 2 ==> subject_after(line, phrase) is None
        }),
{
}

proof fn lemma_subject_in_lines(list: Seq<Seq<char>>, from: int)
    requires
        0 <= from <= list.len(),
    ensures
        match subject_in_lines(list, from) {
            Some(subject) => exists|i: int|
                from <= i < list.len() && line_subject(#[trigger] list[i]) == Some(subject)
                    && forall|j: int| from <= j < i ==> line_subject(#[trigger] list[j]) is None,
            None => forall|i: int|
                from <= i < list.len() ==> line_subject(#[trigger] list[i]) is None,
        },
    decreases list.len() - from,
{
    if from < list.len() {
        if line_subject(list[from]) is Some {
            assert(line_subject(list[from]) == subject_in_lines(list, from));
        } else {
            lemma_subject_in_lines(list, from + 1);
        }
    }
}

/// The subject of a page is that of the first of its lines that names one.
pub proof fn law_the_first_subject_counts(list: Seq<Seq<char>>)
    ensures
        match subject_in_lines(list, 0) {
            Some(subject) => exists|i: int|
                0 <= i < list.len() && line_subject(#[trigger] list[i]) == Some(subject) && forall|
                    j: int,
                |
                    0 <= j < i ==> line_subject(#[trigger] list[j]) is None,
            None => forall|i: int| 0 <= i < list.len() ==> line_subject(#[trigger] list[i]) is None,
        },
{
    lemma_subject_in_lines(list, 0);
}

/// Whether a page is one of the first `limit` and may carry front matter.
pub open spec fn is_front(pages: Seq<ExtractedPageView>, i: int, limit: int) -> bool {
    0 <= i < pages.len() && i < limit && front_page(pages[i])
}

proof fn lemma_named_subject(pages: Seq<ExtractedPageView>, from: int)
    requires
        0 <= from <= pages.len(),
    ensures
        match named_subject(pages, from) {
            Some(subject) => exists|i: int|
                from <= i && is_front(pages, i, 12) && subject_in_lines(
                    lines_of((#[trigger] pages[i]).text),
                    0,
                ) == Some(subject) && forall|j: int|
                    from <= j < i && is_front(pages, j, 12) ==> subject_in_lines(
                        lines_of((#[trigger] pages[j]).text),
                        0,
                    ) is None,
            None => forall|i: int|
                from <= i && is_front(pages, i, 12) ==> subject_in_lines(
                    lines_of((#[trigger] pages[i]).text),
                    0,
                ) is None,
        },
    decreases pages.len() - from,
{
    if from < pages.len() && from < 12 {
        if front_page(pages[from]) && subject_in_lines(lines_of(pages[from].text), 0) is Some {
            assert(is_front(pages, from, 12));
            assert(subject_in_lines(lines_of(pages[from].text), 0) == named_subject(pages, from));
        } else {
            lemma_named_subject(pages, from + 1);
        }
    }
}

/// The subject of a document is that of the first page that names one, among the front pages of
/// the first twelve.
pub proof fn law_front_pages_name_the_subject(pages: Seq<ExtractedPageView>)
    ensures
        match named_subject(pages, 0) {
            Some(subject) => exists|i: int|
                0 <= i && is_front(pages, i, 12) && subject_in_lines(
                    lines_of((#[trigger] pages[i]).text),
                    0,
                ) == Some(subject) && forall|j: int|
                    0 <= j < i && is_front(pages, j, 12) ==> subject_in_lines(
                        lines_of((#[trigger] pages[j]).text),
                        0,
                    ) is None,
            None => forall|i: int|
                0 <= i && is_front(pages, i, 12) ==> subject_in_lines(
                    lines_of((#[trigger] pages[i]).text),
                    0,
                ) is None,
        },
        forall|i: int|
            #[trigger] is_front(pages, i, 12) ==> i < 12 && (transcript_family_section(
                pages[i].section,
            ) || pages[i].section == PageSection::Unknown),
{
    lemma_named_subject(pages, 0);
}

/// Titles are no part of a name: these, in any case, and only these.
pub proof fn law_titles_are_left_out(list: Seq<Seq<char>>, comparing: bool, n: int)
    requires
        0 <= n < list.len(),
    ensures
        ({
            let u = uppercased(list[n]);
            let title = u == "MR"@ || u == "MS"@ || u == "MRS"@ || u == "MISS"@ || u == "DR"@ || u
                == "HON"@ || (comparing && (u == "THE"@ || u == "WITNESS"@)) || (!comparing && u
                == "CHAIRMAN"@);
            &&& untitled_words(list, comparing, 0).len() == 0
            &&& title ==> untitled_words(list, comparing, n + 1) == untitled_words(
                list,
                comparing,
                n,
            )
            &&& !title ==> untitled_words(list, comparing, n + 1) == untitled_words(
                list,
                comparing,
                n,
            ).push(list[n])
        }),
{
}

/// Two labels name one person where what is left of them without titles and punctuation is not
/// empty and one holds the other.
pub proof fn law_names_are_compared(left: Seq<char>, right: Seq<char>)
    ensures
        ({
            let words = |label: Seq<char>|
                words_of(blanked_out(label, CharClass::AlphanumericOrSpace));
            let bare = |label: Seq<char>|
                uppercased(
                    joined(untitled_words(words(label), true, words(label).len() as int), " "@),
                );
            let a = bare(left);
            let b = bare(right);
            same_person(left, right) <==> a.len() > 0 && b.len() > 0 && (has_infix(a, b)
                || has_infix(b, a) || a == b)
        }),
{
}

/// A last name is the last word of a label that is no title, of at least three bytes.
pub proof fn law_last_names(label: Seq<char>)
    ensures
        ({
            let list = words_of(blanked_out(label, CharClass::Alphanumeric));
            let kept = untitled_words(list, false, list.len() as int);
            let last = uppercased(kept.last());
            &&& kept.len() > 0 && byte_len(last) >= 3 ==> surname(label) == Some(last)
            &&& kept.len() == 0 || byte_len(last) < 3 ==> surname(label) is None
        }),
{
}

/// A line gives a full name where what stands before its first comma has two to five words, no
/// lower case and ends in the last name, and the line is no turn.
pub proof fn law_full_names_stand_before_a_comma(line: Seq<char>, last: Seq<char>)
    ensures
        ({
            let t = unnumbered(line);
            let name = trimmed(before_first(t, ','));
            let list = words_of(name);
            let capitals = forall|i: int|
                0 <= i < name.len() ==> !within(CharClass::Lowercase, #[trigger] name[i]);
            let given = labelled_turn(t) is None && capitals && has_infix(uppercased(name), last)
                && 2 <= list.len() && list.len() <= 5 && uppercased(
                stripped(list.last(), CharClass::NotAlphanumeric),
            ) == uppercased(last);
            &&& given ==> name_on_line(line, last) == Some(name)
            &&& !given ==> name_on_line(line, last) is None
        }),
{
}

/// Descriptions that call somebody something.
pub proof fn law_descriptions_call(role: Seq<char>)
    ensures
        describes(role, Calling::Counsel) <==> has_infix(role, "COUNSEL"@) || has_infix(
            role,
            "ATTORNEY"@,
        ) || has_infix(role, "ESQ"@),
        describes(role, Calling::LawEnforcement) <==> has_infix(role, "FBI"@) || has_infix(
            role,
            "SPECIAL AGENT"@,
        ) || has_infix(role, "MARSHAL"@) || has_infix(role, "LAW ENFORCEMENT"@),
        describes(role, Calling::GovernmentCounsel) <==> has_infix(role, "ATTORNEY GENERAL"@)
            || has_infix(role, "DEPARTMENT OF JUSTICE"@) || has_infix(role, "U.S. ATTORNEY"@),
{
}

/// A line gives a calling to whoever it names right before the comma, and to nobody else.
pub proof fn law_callings_go_with_their_name(line: Seq<char>, last: Seq<char>, calling: Calling)
    ensures
        split_at_first(line, ',') is None ==> !line_calls(line, last, calling),
        split_at_first(line, ',') matches Some((name, role)) ==> (line_calls(line, last, calling)
            <==> last_word(name) is Some && uppercased(
            stripped(last_word(name)->0, CharClass::Is('.')),
        ) == uppercased(last) && describes(role, calling)),
{
}

/// The front matter is the text of the first twelve pages of the transcript proper, in upper case.
pub proof fn law_front_matter_is_of_the_first_pages(pages: Seq<ExtractedPageView>, n: int)
    requires
        0 <= n < pages.len(),
    ensures
        ({
            let before = front_texts(pages, n);
            let counts = before.len() < 12 && transcript_family_section(pages[n].section);
            &&& front_texts(pages, 0).len() == 0
            &&& counts ==> front_texts(pages, n + 1) == before.push(uppercased(pages[n].text))
            &&& !counts ==> front_texts(pages, n + 1) == before
        }),
{
}

/// Who asks or answers most: nobody does more of it, and nobody behind does as much. Where nobody
/// does it at all, nobody is named.
pub proof fn law_the_top_does_most(list: Seq<ParticipantView>, asking: bool, n: int)
    requires
        0 <= n <= list.len(),
    ensures
        ({
            let does = |p: ParticipantView|
                if asking {
                    p.question_observations
                } else {
                    p.answer_observations
                };
            match top_participant(list, asking, n) {
                Some(top) => {
                    &&& 0 <= top < n
                    &&& forall|i: int| 0 <= i < n ==> does(#[trigger] list[i]) <= does(list[top])
                    &&& forall|i: int| top < i < n ==> does(#[trigger] list[i]) < does(list[top])
                    &&& n == list.len() && does(list[top]) > 0 ==> top_id(list, asking) == Some(
                        list[top].id,
                    )
                    &&& n == list.len() && does(list[top]) == 0 ==> top_id(list, asking) is None
                },
                None => n == 0,
            }
        }),
    decreases n,
{
    if n > 0 {
        law_the_top_does_most(list, asking, n - 1);
    }
}

/// The subject of a document is its witness, and whoever is called counsel an attorney where no
/// other role is known; else the role stays.
pub proof fn law_clues_give_roles(role: SpeakerRole, confidence: Ratio, clues: FunctionClues)
    ensures
        ({
            let after = clued_role(role, confidence, clues);
            let counsel = clues.counsel || clues.government_counsel;
            &&& clues.subject ==> after.0 == SpeakerRole::Witness && after.1.part == 98
                && after.1.whole == 100
            &&& !clues.subject && role == SpeakerRole::Unknown && counsel ==> after.0
                == SpeakerRole::Attorney && after.1.part == 95 && after.1.whole == 100
            &&& !clues.subject && !(role == SpeakerRole::Unknown && counsel) ==> after == (
                role,
                confidence,
            )
        }),
{
}

/// What a participant does: the subject is interviewed or testifies; officers of the proceeding do
/// what their role says; then law enforcement, who leads an interview, government counsel, counsel,
/// attorneys, and witnesses or who answers most, in this order.
pub proof fn law_clues_give_functions(role: SpeakerRole, asks_more: bool, clues: FunctionClues)
    ensures
        ({
            let (function, confidence) = clued_function(role, asks_more, clues);
            let officer = role == SpeakerRole::Interpreter || role == SpeakerRole::CourtReporter
                || role == SpeakerRole::Judge || role == SpeakerRole::Videographer;
            let open = !clues.subject && !officer && !clues.law_enforcement && !(
            clues.top_questioner && clues.interview);
            &&& clues.subject ==> function == if clues.interview {
                ParticipantFunction::Interviewee
            } else {
                ParticipantFunction::Witness
            }
            &&& clues.subject ==> confidence == if clues.interview || clues.testimony {
                100u8
            } else {
                90u8
            }
            &&& !clues.subject && officer ==> confidence == 100
            &&& !clues.subject && role == SpeakerRole::Interpreter ==> function
                == ParticipantFunction::Interpreter
            &&& !clues.subject && role == SpeakerRole::CourtReporter ==> function
                == ParticipantFunction::CourtReporter
            &&& !clues.subject && role == SpeakerRole::Judge ==> function
                == ParticipantFunction::Judge
            &&& !clues.subject && role == SpeakerRole::Videographer ==> function
                == ParticipantFunction::Videographer
            &&& !clues.subject && !officer && clues.law_enforcement ==> function
                == ParticipantFunction::LawEnforcement && confidence == 95
            &&& !clues.subject && !officer && !clues.law_enforcement && clues.top_questioner
                && clues.interview ==> function == ParticipantFunction::Interviewer && confidence
                == 95
            &&& open && clues.government_counsel ==> function
                == ParticipantFunction::GovernmentCounsel && confidence == 92
            &&& open && !clues.government_counsel && clues.counsel ==> function
                == ParticipantFunction::Counsel && confidence == 92
            &&& open && !clues.government_counsel && !clues.counsel && role == SpeakerRole::Attorney
                ==> function == ParticipantFunction::Counsel && confidence == 78
            &&& open && !clues.government_counsel && !clues.counsel && role != SpeakerRole::Attorney
                && (role == SpeakerRole::Witness || clues.top_answerer) ==> confidence == 88
                && function == if clues.interview {
                ParticipantFunction::Interviewee
            } else {
                ParticipantFunction::Witness
            }
            &&& open && !clues.government_counsel && !clues.counsel && role == SpeakerRole::Unknown
                && !clues.top_answerer ==> function == ParticipantFunction::Unknown && confidence
                == 30
        }),
{
}

/// What bears on a participant: what the document is, whether it is about them, what the front
/// matter calls them, and whether they ask or answer most.
pub proof fn law_clues_are_gathered(
    p: ParticipantView,
    front: Seq<char>,
    subject: Option<Seq<char>>,
    document_type: DocumentType,
    questioner: Option<Seq<char>>,
    answerer: Option<Seq<char>>,
)
    ensures
        ({
            let clues = clues_for(p, front, subject, document_type, questioner, answerer);
            let label = uppercased(p.display_label);
            &&& clues.interview <==> document_type == DocumentType::Interview
            &&& clues.testimony <==> document_type == DocumentType::Deposition || document_type
                == DocumentType::Examination
            &&& clues.subject <==> subject is Some && same_person(subject->0, label)
            &&& clues.counsel == front_matter_calls(front, label, Calling::Counsel)
            &&& clues.law_enforcement == front_matter_calls(front, label, Calling::LawEnforcement)
            &&& clues.government_counsel == front_matter_calls(
                front,
                label,
                Calling::GovernmentCounsel,
            )
            &&& clues.top_questioner <==> questioner == Some(p.id)
            &&& clues.top_answerer <==> answerer == Some(p.id)
        }),
{
}

/// A participant gets the role and the function that the clues give, and a name: none that was
/// redacted, that of the subject, the one in the front matter, or else the label where the function
/// is known. All else stays.
pub proof fn law_participants_are_assigned(
    p: ParticipantView,
    clues: FunctionClues,
    subject: Option<Seq<char>>,
    pages: Seq<ExtractedPageView>,
)
    ensures
        ({
            let after = assigned_participant(p, clues, subject, pages);
            let role = clued_role(p.role, p.role_confidence, clues);
            let function = clued_function(
                role.0,
                p.question_observations > p.answer_observations,
                clues,
            );
            let printed = front_matter_name(pages, p.display_label);
            &&& after.role == role.0 && after.role_confidence == role.1
            &&& after.function == function.0 && after.function_confidence == function.1
            &&& after.id == p.id && after.display_label == p.display_label && after.redacted
                == p.redacted && after.observations == p.observations
            &&& p.redacted ==> after.canonical_name == p.canonical_name
            &&& !p.redacted && clues.subject ==> after.canonical_name == subject
            &&& !p.redacted && !clues.subject && printed is Some ==> after.canonical_name == printed
            &&& !p.redacted && !clues.subject && printed is None && p.canonical_name is None
                && function.0 != ParticipantFunction::Unknown ==> after.canonical_name == Some(
                p.display_label,
            )
            &&& !p.redacted && !clues.subject && printed is None && (p.canonical_name is Some
                || function.0 == ParticipantFunction::Unknown) ==> after.canonical_name
                == p.canonical_name
        }),
{
}

/// Every participant is assigned, in place, by the same subject, front matter and activity.
pub proof fn law_all_participants_are_assigned(
    pages: Seq<ExtractedPageView>,
    document_type: DocumentType,
    list: Seq<ParticipantView>,
    i: int,
)
    requires
        0 <= i < list.len(),
    ensures
        assigned_participants(pages, document_type, list).len() == list.len(),
        assigned_participants(pages, document_type, list)[i] == assigned_participant(
            list[i],
            clues_for(
                list[i],
                joined(front_texts(pages, pages.len() as int), "\n"@),
                named_subject(pages, 0),
                document_type,
                top_id(list, true),
                top_id(list, false),
            ),
            named_subject(pages, 0),
            pages,
        ),
{
}

} // verus!
