//! The language and the kind of a document.
use vstd::prelude::*;

use crate::document::models::{ExtractedDocument, ExtractedPage, ExtractedPageView};
use crate::number::{sum, total};
use crate::pieces::{join, joined, lines, lines_of};
use crate::scan::{
    contains, count_chars, count_within, first_chars, has_infix, lowercased, to_lower,
};
use crate::text::{chars_of, is_ascii_letter, lemma_filter_first, push_item, CharClass};
use crate::transcript::conventions::{marker_total, total_observations};
use crate::transcript::models::{
    DocumentType, LanguageHint, LanguageHintView, MarkerRule, MarkerRuleView, Participant,
    ParticipantView,
};

verus! {

/// The first `n` pages of a document, or all of them.
pub open spec fn first_pages(pages: Seq<ExtractedPageView>, n: nat) -> Seq<ExtractedPageView> {
    if n < pages.len() {
        pages.take(n as int)
    } else {
        pages
    }
}

/// The texts of the first `n` pages.
pub open spec fn page_texts(pages: Seq<ExtractedPageView>, n: int) -> Seq<Seq<char>>
    decreases n,
{
    if n <= 0 {
        seq![]
    } else {
        page_texts(pages, n - 1).push(pages[n - 1].text)
    }
}

/// The texts of the first pages of a document, one per line.
pub open spec fn opening_text(pages: Seq<ExtractedPageView>, n: nat) -> Seq<char> {
    let opening = first_pages(pages, n);
    joined(page_texts(opening, opening.len() as int), "\n"@)
}

proof fn lemma_texts_of_taken(pages: Seq<ExtractedPageView>, n: int, i: int)
    requires
        0 <= i <= n <= pages.len(),
    ensures
        page_texts(pages.take(n), i) == page_texts(pages, i),
    decreases i,
{
    if i > 0 {
        lemma_texts_of_taken(pages, n, i - 1);
    }
}

fn join_opening(pages: &Vec<ExtractedPage>, n: usize) -> (r: String)
    ensures
        r@ == opening_text(pages.deep_view(), n as nat),
{
    let count = if n < pages.len() {
        n
    } else {
        pages.len()
    };
    let ghost views = pages.deep_view();
    let mut texts: Vec<String> = Vec::new();
    assert(texts.deep_view() =~= seq![]);
    for i in 0..count
        invariant
            count <= pages@.len(),
            views == pages.deep_view(),
            texts.deep_view() == page_texts(views, i as int),
    {
        assert(views[i as int] == pages@[i as int].deep_view());
        push_item(&mut texts, pages[i].text.clone());
    }
    proof {
        lemma_texts_of_taken(views, count as int, count as int);
        assert(views.take(views.len() as int) =~= views);
    }
    join(&texts, "\n")
}

// ---------------------------------------------------------------------------
// Language
// ---------------------------------------------------------------------------

/// The scripts that are told apart.
#[derive(Debug, Clone, Copy, PartialEq, Eq, Structural)]
pub enum Script {
    Latin,
    Devanagari,
    Arabic,
    Cjk,
    Other,
}

/// The script of a character.
pub open spec fn script_of(c: char) -> Script {
    let code = c as u32;
    if is_ascii_letter(c) || 0xc0 <= code <= 0x24f {
        Script::Latin
    } else if 0x900 <= code <= 0x97f {
        Script::Devanagari
    } else if 0x600 <= code <= 0x6ff {
        Script::Arabic
    } else if 0x4e00 <= code <= 0x9fff || 0x3040 <= code <= 0x30ff || 0xac00 <= code <= 0xd7af {
        Script::Cjk
    } else {
        Script::Other
    }
}

fn char_script(c: char) -> (r: Script)
    ensures
        r == script_of(c),
{
    let code = c as u32;
    if ('A' <= c && c <= 'Z') || ('a' <= c && c <= 'z') || (0xc0 <= code && code <= 0x24f) {
        Script::Latin
    } else if 0x900 <= code && code <= 0x97f {
        Script::Devanagari
    } else if 0x600 <= code && code <= 0x6ff {
        Script::Arabic
    } else if (0x4e00 <= code && code <= 0x9fff) || (0x3040 <= code && code <= 0x30ff) || (0xac00
        <= code && code <= 0xd7af) {
        Script::Cjk
    } else {
        Script::Other
    }
}

/// How many of the first `n` characters are of a script.
pub open spec fn script_count(s: Seq<char>, script: Script, n: int) -> nat
    decreases n,
{
    if n <= 0 {
        0
    } else {
        script_count(s, script, n - 1) + if script_of(s[n - 1]) == script {
            1nat
        } else {
            0nat
        }
    }
}

fn count_script(s: &str, script: Script) -> (r: usize)
    ensures
        r == script_count(s@, script, s@.len() as int),
        r <= s@.len(),
{
    let v = chars_of(s);
    let mut r: usize = 0;
    for n in 0..v.len()
        invariant
            v@ == s@,
            r <= n,
            r == script_count(s@, script, n as int),
    {
        if char_script(v[n]) == script {
            r += 1;
        }
    }
    r
}

/// How many common English words a text in lower case holds.
pub open spec fn english_hits(lower: Seq<char>) -> int {
    (if has_infix(lower, " the "@) {
        1int
    } else {
        0
    }) + (if has_infix(lower, " and "@) {
        1int
    } else {
        0
    }) + (if has_infix(lower, " you "@) {
        1int
    } else {
        0
    }) + (if has_infix(lower, " of "@) {
        1int
    } else {
        0
    }) + (if has_infix(lower, " to "@) {
        1int
    } else {
        0
    }) + (if has_infix(lower, " that "@) {
        1int
    } else {
        0
    })
}

fn hit(lower: &str, word: &str) -> (r: u8)
    ensures
        r == if has_infix(lower@, word@) {
            1u8
        } else {
            0
        },
{
    if contains(lower, word) {
        1
    } else {
        0
    }
}

fn count_english_hits(lower: &str) -> (r: u8)
    ensures
        r == english_hits(lower@),
{
    hit(lower, " the ") + hit(lower, " and ") + hit(lower, " you ") + hit(lower, " of ") + hit(
        lower,
        " to ",
    ) + hit(lower, " that ")
}

/// A language with its confidence and the script that it was told by.
pub open spec fn hint(
    code: Seq<char>,
    name: Seq<char>,
    confidence: u8,
    dominant_script: Seq<char>,
) -> LanguageHintView {
    LanguageHintView { code, name, confidence, dominant_script }
}

/// The script that is counted most often; of several, the last of the list.
pub open spec fn dominant_script(latin: nat, devanagari: nat, arabic: nat, cjk: nat) -> Seq<char> {
    if cjk >= latin && cjk >= devanagari && cjk >= arabic {
        "cjk"@
    } else if arabic >= latin && arabic >= devanagari {
        "arabic"@
    } else if devanagari >= latin {
        "devanagari"@
    } else {
        "latin"@
    }
}

/// The language of a text, as far as scripts and English words tell.
pub open spec fn language_of(sample: Seq<char>) -> LanguageHintView {
    let len = sample.len() as int;
    let letters = count_within(sample, CharClass::Alphabetic);
    let latin = script_count(sample, Script::Latin, len);
    let devanagari = script_count(sample, Script::Devanagari, len);
    let arabic = script_count(sample, Script::Arabic, len);
    let cjk = script_count(sample, Script::Cjk, len);
    if letters == 0 {
        hint("und"@, "Unknown"@, 10, "unknown"@)
    } else if latin * 100 / letters >= 80 && english_hits(lowercased(sample)) >= 4 {
        hint("en"@, "English"@, 92, "latin"@)
    } else {
        hint(
            "und"@,
            "Undetermined"@,
            if latin + devanagari + arabic + cjk > 0 {
                65
            } else {
                10
            },
            dominant_script(latin, devanagari, arabic, cjk),
        )
    }
}

/// What is read to tell the language of a document.
pub open spec fn language_sample(pages: Seq<ExtractedPageView>) -> Seq<char> {
    let opening = opening_text(pages, 20);
    if opening.len() > 80_000 {
        opening.take(80_000)
    } else {
        opening
    }
}

fn name_language(sample: &str) -> (r: LanguageHint)
    requires
        sample@.len() <= 80_000,
    ensures
        r.deep_view() == language_of(sample@),
{
    let letters = count_chars(sample, CharClass::Alphabetic);
    if letters == 0 {
        return LanguageHint {
            code: "und".to_owned(),
            name: "Unknown".to_owned(),
            confidence: 10,
            dominant_script: "unknown".to_owned(),
        };
    }
    let latin = count_script(sample, Script::Latin);
    let devanagari = count_script(sample, Script::Devanagari);
    let arabic = count_script(sample, Script::Arabic);
    let cjk = count_script(sample, Script::Cjk);
    let lower = to_lower(sample);
    if latin * 100 / letters >= 80 && count_english_hits(lower.as_str()) >= 4 {
        return LanguageHint {
            code: "en".to_owned(),
            name: "English".to_owned(),
            confidence: 92,
            dominant_script: "latin".to_owned(),
        };
    }
    LanguageHint {
        code: "und".to_owned(),
        name: "Undetermined".to_owned(),
        confidence: if latin > 0 || devanagari > 0 || arabic > 0 || cjk > 0 {
            65
        } else {
            10
        },
        dominant_script: if cjk >= latin && cjk >= devanagari && cjk >= arabic {
            "cjk".to_owned()
        } else if arabic >= latin && arabic >= devanagari {
            "arabic".to_owned()
        } else if devanagari >= latin {
            "devanagari".to_owned()
        } else {
            "latin".to_owned()
        },
    }
}

pub fn detect_language(document: &ExtractedDocument) -> (r: LanguageHint)
    ensures
        r.deep_view() == language_of(language_sample(document.deep_view().pages)),
{
    let opening = join_opening(&document.pages, 20);
    let sample = first_chars(opening.as_str(), 80_000);
    assert(opening@.take(opening@.len() as int) =~= opening@);
    name_language(sample)
}

// ---------------------------------------------------------------------------
// Kind of document
// ---------------------------------------------------------------------------

/// The lines of the first `n` pages.
pub open spec fn page_lines(pages: Seq<ExtractedPageView>, n: int) -> Seq<Seq<char>>
    decreases n,
{
    if n <= 0 {
        seq![]
    } else {
        page_lines(pages, n - 1) + lines_of(pages[n - 1].text)
    }
}

/// The lines of the first four pages, in lower case.
pub open spec fn headings(pages: Seq<ExtractedPageView>) -> Seq<char> {
    let opening = first_pages(pages, 4);
    lowercased(joined(page_lines(opening, opening.len() as int), "\n"@))
}

proof fn lemma_lines_of_taken(pages: Seq<ExtractedPageView>, n: int, i: int)
    requires
        0 <= i <= n <= pages.len(),
    ensures
        page_lines(pages.take(n), i) == page_lines(pages, i),
    decreases i,
{
    if i > 0 {
        lemma_lines_of_taken(pages, n, i - 1);
    }
}

fn join_headings(pages: &Vec<ExtractedPage>) -> (r: String)
    ensures
        r@ == headings(pages.deep_view()),
{
    let count: usize = if 4 < pages.len() {
        4
    } else {
        pages.len()
    };
    let ghost views = pages.deep_view();
    let mut list: Vec<String> = Vec::new();
    assert(list.deep_view() =~= seq![]);
    for i in 0..count
        invariant
            count <= pages@.len(),
            views == pages.deep_view(),
            list.deep_view() == page_lines(views, i as int),
    {
        assert(views[i as int] == pages@[i as int].deep_view());
        let texts = lines(pages[i].text.as_str());
        let ghost before = list.deep_view();
        let ghost more = texts.deep_view();
        assert(before + more.take(0) =~= before);
        for j in 0..texts.len()
            invariant
                more == texts.deep_view(),
                list.deep_view() == before + more.take(j as int),
        {
            push_item(&mut list, texts[j].clone());
            assert(before + more.take(j + 1) =~= (before + more.take(j as int)).push(
                texts@[j as int]@,
            ));
        }
        assert(more.take(more.len() as int) =~= more);
    }
    proof {
        lemma_lines_of_taken(views, count as int, count as int);
        assert(views.take(views.len() as int) =~= views);
    }
    to_lower(join(&list, "\n").as_str())
}

/// How often the first `n` participants were observed.
pub open spec fn participant_total(participants: Seq<ParticipantView>, n: int) -> usize
    decreases n,
{
    if n <= 0 {
        0
    } else {
        total(participant_total(participants, n - 1), participants[n - 1].observations)
    }
}

fn total_sightings(participants: &Vec<Participant>) -> (r: usize)
    ensures
        r == participant_total(participants.deep_view(), participants.deep_view().len() as int),
{
    let mut r: usize = 0;
    for n in 0..participants.len()
        invariant
            r == participant_total(participants.deep_view(), n as int),
    {
        assert(participants.deep_view()[n as int] == participants@[n as int].deep_view());
        r = sum(r, participants[n].observations);
    }
    r
}

/// The kind of a document by its headings, the text of its first pages and how much dialogue
/// was observed in it.
pub open spec fn type_of(headings: Seq<char>, sample: Seq<char>, signals: usize) -> DocumentType {
    if has_infix(headings, "interview of"@) || has_infix(headings, "transcribed interview"@) {
        DocumentType::Interview
    } else if has_infix(headings, "deposition of"@) {
        DocumentType::Deposition
    } else if has_infix(sample, "deposition"@) || has_infix(sample, "deponent"@) {
        DocumentType::Deposition
    } else if has_infix(sample, "arbitration"@) || has_infix(sample, "arbitrator"@) {
        DocumentType::Arbitration
    } else if has_infix(sample, "hearing"@) {
        DocumentType::Hearing
    } else if has_infix(sample, "trial transcript"@) || has_infix(sample, "trial proceedings"@) || (
    has_infix(sample, "the court"@) && signals >= 4) {
        DocumentType::TrialTranscript
    } else if has_infix(sample, "interview"@) {
        DocumentType::Interview
    } else if has_infix(sample, "examination"@) && signals >= 4 {
        DocumentType::Examination
    } else if signals >= 8 {
        DocumentType::OtherTranscript
    } else {
        DocumentType::Unknown
    }
}

/// The kind of a document.
pub open spec fn document_type_of(
    pages: Seq<ExtractedPageView>,
    rules: Seq<MarkerRuleView>,
    participants: Seq<ParticipantView>,
) -> DocumentType {
    type_of(
        headings(pages),
        lowercased(opening_text(pages, 16)),
        total(
            marker_total(rules, rules.len() as int),
            participant_total(participants, participants.len() as int),
        ),
    )
}

pub fn detect_document_type(
    document: &ExtractedDocument,
    marker_rules: &Vec<MarkerRule>,
    participants: &Vec<Participant>,
) -> (r: DocumentType)
    ensures
        r == document_type_of(
            document.deep_view().pages,
            marker_rules.deep_view(),
            participants.deep_view(),
        ),
{
    let opening = join_opening(&document.pages, 16);
    let lower = to_lower(opening.as_str());
    let sample = lower.as_str();
    let signals = sum(total_observations(marker_rules), total_sightings(participants));
    let heading_text = join_headings(&document.pages);
    let heading = heading_text.as_str();
    if contains(heading, "interview of") || contains(heading, "transcribed interview") {
        return DocumentType::Interview;
    }
    if contains(heading, "deposition of") {
        return DocumentType::Deposition;
    }
    if contains(sample, "deposition") || contains(sample, "deponent") {
        DocumentType::Deposition
    } else if contains(sample, "arbitration") || contains(sample, "arbitrator") {
        DocumentType::Arbitration
    } else if contains(sample, "hearing") {
        DocumentType::Hearing
    } else if contains(sample, "trial transcript") || contains(sample, "trial proceedings") || (
    contains(sample, "the court") && signals >= 4) {
        DocumentType::TrialTranscript
    } else if contains(sample, "interview") {
        DocumentType::Interview
    } else if contains(sample, "examination") && signals >= 4 {
        DocumentType::Examination
    } else if signals >= 8 {
        DocumentType::OtherTranscript
    } else {
        DocumentType::Unknown
    }
}

// ---------------------------------------------------------------------------
// Laws
// ---------------------------------------------------------------------------

proof fn lemma_script_count(s: Seq<char>, script: Script, n: int)
    requires
        0 <= n <= s.len(),
    ensures
        script_count(s, script, n) == s.take(n).filter(|c: char| script_of(c) == script).len(),
    decreases n,
{
    lemma_filter_first(s, |c: char| script_of(c) == script, n);
    if n > 0 {
        lemma_script_count(s, script, n - 1);
    }
}

/// The characters of a script are counted, each of them.
pub proof fn law_scripts_are_counted(s: Seq<char>, script: Script)
    ensures
        script_count(s, script, s.len() as int) == s.filter(
            |c: char| script_of(c) == script,
        ).len(),
{
    lemma_script_count(s, script, s.len() as int);
    assert(s.take(s.len() as int) =~= s);
}

/// Which characters are of which script.
pub proof fn law_characters_have_scripts(c: char)
    ensures
        ('a' <= c <= 'z') || ('A' <= c <= 'Z') || ('\u{c0}' <= c <= '\u{24f}') <==> script_of(c)
            == Script::Latin,
        '\u{900}' <= c <= '\u{97f}' <==> script_of(c) == Script::Devanagari,
        '\u{600}' <= c <= '\u{6ff}' <==> script_of(c) == Script::Arabic,
        ('\u{4e00}' <= c <= '\u{9fff}') || ('\u{3040}' <= c <= '\u{30ff}') || ('\u{ac00}' <= c
            <= '\u{d7af}') <==> script_of(c) == Script::Cjk,
{
}

/// A text is English where four in five of its letters are Latin and it holds four of six common
/// words; a text without letters is unknown; any other is undetermined, and told by the script that
/// most of it is in.
pub proof fn law_languages_are_told(sample: Seq<char>)
    ensures
        ({
            let letters = count_within(sample, CharClass::Alphabetic);
            let n = sample.len() as int;
            let latin = script_count(sample, Script::Latin, n);
            let devanagari = script_count(sample, Script::Devanagari, n);
            let arabic = script_count(sample, Script::Arabic, n);
            let cjk = script_count(sample, Script::Cjk, n);
            let lower = lowercased(sample);
            let has = |word: Seq<char>|
                if has_infix(lower, word) {
                    1int
                } else {
                    0int
                };
            let hits = has(" the "@) + has(" and "@) + has(" you "@) + has(" of "@) + has(" to "@)
                + has(" that "@);
            let hint = language_of(sample);
            let english = letters > 0 && 100 * latin / letters >= 80 && hits >= 4;
            &&& letters == 0 ==> hint.code == "und"@ && hint.name == "Unknown"@ && hint.confidence
                == 10
            &&& english ==> hint.code == "en"@ && hint.name == "English"@ && hint.confidence == 92
                && hint.dominant_script == "latin"@
            &&& letters > 0 && !english ==> hint.code == "und"@ && hint.name == "Undetermined"@
                && hint.confidence == if latin + devanagari + arabic + cjk > 0 {
                65u8
            } else {
                10u8
            }
            &&& letters > 0 && !english && latin > devanagari && latin > arabic && latin > cjk
                ==> hint.dominant_script == "latin"@
            &&& letters > 0 && !english && devanagari > latin && devanagari > arabic && devanagari
                > cjk ==> hint.dominant_script == "devanagari"@
            &&& letters > 0 && !english && arabic > latin && arabic > devanagari && arabic > cjk
                ==> hint.dominant_script == "arabic"@
            &&& letters > 0 && !english && cjk > latin && cjk > devanagari && cjk > arabic
                ==> hint.dominant_script == "cjk"@
        }),
{
    let letters = count_within(sample, CharClass::Alphabetic);
    let latin = script_count(sample, Script::Latin, sample.len() as int);
    assert(latin * 100 == 100 * latin);
}

/// What a document is: by its headings first, then by what its first pages speak of, and last by
/// how much dialogue was observed.
pub proof fn law_documents_are_told(headings: Seq<char>, sample: Seq<char>, signals: usize)
    ensures
        ({
            let kind = type_of(headings, sample, signals);
            let interview = has_infix(headings, "interview of"@) || has_infix(
                headings,
                "transcribed interview"@,
            );
            let deposition = !interview && (has_infix(headings, "deposition of"@) || has_infix(
                sample,
                "deposition"@,
            ) || has_infix(sample, "deponent"@));
            let arbitration = !interview && !deposition && (has_infix(sample, "arbitration"@)
                || has_infix(sample, "arbitrator"@));
            let hearing = !interview && !deposition && !arbitration && has_infix(
                sample,
                "hearing"@,
            );
            let trial = !interview && !deposition && !arbitration && !hearing && (has_infix(
                sample,
                "trial transcript"@,
            ) || has_infix(sample, "trial proceedings"@) || (has_infix(sample, "the court"@)
                && signals >= 4));
            let open = !interview && !deposition && !arbitration && !hearing && !trial;
            let spoken = open && has_infix(sample, "interview"@);
            let examined = open && !spoken && has_infix(sample, "examination"@) && signals >= 4;
            &&& interview || spoken ==> kind == DocumentType::Interview
            &&& deposition ==> kind == DocumentType::Deposition
            &&& arbitration ==> kind == DocumentType::Arbitration
            &&& hearing ==> kind == DocumentType::Hearing
            &&& trial ==> kind == DocumentType::TrialTranscript
            &&& examined ==> kind == DocumentType::Examination
            &&& open && !spoken && !examined && signals >= 8 ==> kind
                == DocumentType::OtherTranscript
            &&& open && !spoken && !examined && signals < 8 ==> kind == DocumentType::Unknown
        }),
{
}

/// What is read of a document for this: the first pages, in order, a line apart.
pub proof fn law_first_pages_are_read(pages: Seq<ExtractedPageView>, n: nat, i: int)
    requires
        0 <= i < n,
        i < pages.len(),
    ensures
        ({
            let opening = first_pages(pages, n);
            &&& opening.len() == if n < pages.len() {
                n
            } else {
                pages.len()
            }
            &&& opening[i] == pages[i]
            &&& page_texts(pages, i + 1) == page_texts(pages, i).push(pages[i].text)
            &&& page_lines(pages, i + 1) == page_lines(pages, i) + lines_of(pages[i].text)
            &&& page_texts(pages, 0).len() == 0 && page_lines(pages, 0).len() == 0
            &&& opening_text(pages, n) == joined(page_texts(opening, opening.len() as int), "\n"@)
            &&& language_sample(pages).len() <= 80_000
            &&& opening_text(pages, 20).len() <= 80_000 ==> language_sample(pages) == opening_text(
                pages,
                20,
            )
            &&& opening_text(pages, 20).len() > 80_000 ==> language_sample(pages) == opening_text(
                pages,
                20,
            ).take(80_000)
        }),
{
}

/// The dialogue observed is that of all markers and all participants.
pub proof fn law_observations_add_up(participants: Seq<ParticipantView>, n: int)
    requires
        0 <= n < participants.len(),
        participant_total(participants, n) + participants[n].observations <= usize::MAX,
    ensures
        participant_total(participants, 0) == 0,
        participant_total(participants, n + 1) == participant_total(participants, n)
            + participants[n].observations,
{
}

} // verus!
