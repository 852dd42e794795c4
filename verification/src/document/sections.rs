//! The sections of a document: each page by itself, and then by its neighbours.
use vstd::prelude::*;

use crate::document::layout::{
    citations, classify_page, count_dialogue_markers, count_page_line_citations, count_signals,
    count_speaker_prefixes, dialogue_like, index_like, judgement, looks_dialogue_like,
    looks_index_like, signals, LineSignal,
};
use crate::document::models::{
    reference_section, ExtractedPage, ExtractedPageView, PageSection, SectionReason,
    SectionReasonView,
};
use crate::scan::{contains, has_infix, to_upper, uppercased};
use crate::text::push_item;

verus! {

/// A page in another section, with one more reason.
pub open spec fn relabelled(
    page: ExtractedPageView,
    section: PageSection,
    confidence: u8,
    reason: Seq<char>,
) -> ExtractedPageView {
    ExtractedPageView {
        section,
        section_confidence: confidence,
        section_reasons: page.section_reasons.push(SectionReasonView::Plain(reason)),
        ..page
    }
}

fn relabel(
    pages: &mut Vec<ExtractedPage>,
    i: usize,
    section: PageSection,
    confidence: u8,
    reason: &str,
)
    requires
        i < old(pages)@.len(),
    ensures
        final(pages)@.len() == old(pages)@.len(),
        final(pages).deep_view() == old(pages).deep_view().update(
            i as int,
            relabelled(old(pages).deep_view()[i as int], section, confidence, reason@),
        ),
{
    let ghost now = pages.deep_view();
    assert(now[i as int] == pages@[i as int].deep_view());
    relabel_page(&mut pages[i], section, confidence, reason);
    assert(pages.deep_view() =~= now.update(
        i as int,
        relabelled(now[i as int], section, confidence, reason@),
    ));
}

fn relabel_page(page: &mut ExtractedPage, section: PageSection, confidence: u8, reason: &str)
    ensures
        final(page).deep_view() == relabelled(old(page).deep_view(), section, confidence, reason@),
{
    page.section = section;
    page.section_confidence = confidence;
    push_item(&mut page.section_reasons, SectionReason::Plain(reason.to_owned()));
}

// ---------------------------------------------------------------------------
// Each page by itself
// ---------------------------------------------------------------------------

/// A page in the section that it has by itself.
pub open spec fn judged_page(page: ExtractedPageView) -> ExtractedPageView {
    let j = judgement(page);
    ExtractedPageView {
        section: j.section,
        section_confidence: j.confidence,
        section_reasons: seq![j.reason],
        ..page
    }
}

/// Pages in the sections that they have by themselves.
pub open spec fn judged_pages(pages: Seq<ExtractedPageView>) -> Seq<ExtractedPageView> {
    Seq::new(pages.len(), |i: int| judged_page(pages[i]))
}

fn judge_page(page: &mut ExtractedPage)
    ensures
        final(page).deep_view() == judged_page(old(page).deep_view()),
{
    let ghost before = page.deep_view();
    let (section, confidence, reason) = classify_page(page);
    page.section = section;
    page.section_confidence = confidence;
    page.section_reasons = Vec::new();
    assert(page.section_reasons.deep_view() =~= seq![]);
    push_item(&mut page.section_reasons, reason);
    assert(page.section_reasons.deep_view() =~= seq![judgement(before).reason]);
}

fn judge_pages(pages: &mut Vec<ExtractedPage>)
    ensures
        final(pages).deep_view() == judged_pages(old(pages).deep_view()),
{
    let ghost start = pages.deep_view();
    let count = pages.len();
    for i in 0..count
        invariant
            count == pages@.len(),
            count == start.len(),
            forall|j: int|
                0 <= j < count ==> (#[trigger] pages.deep_view()[j]) == if j < i {
                    judged_page(start[j])
                } else {
                    start[j]
                },
    {
        let ghost now = pages.deep_view();
        assert(now[i as int] == pages@[i as int].deep_view());
        judge_page(&mut pages[i]);
        assert(pages.deep_view() =~= now.update(i as int, judged_page(start[i as int])));
    }
    assert(pages.deep_view() =~= judged_pages(start));
}

// ---------------------------------------------------------------------------
// Appearances
// ---------------------------------------------------------------------------

/// Whether anything on a page is said by somebody, or announces that somebody is examined.
pub open spec fn has_dialogue_anchor(text: Seq<char>) -> bool {
    ||| signals(text, LineSignal::Speaker) > 0
    ||| signals(text, LineSignal::Marker) > 0
    ||| has_infix(uppercased(text), "EXAMINATION"@)
    ||| signals(uppercased(text), LineSignal::Examiner) > 0
}

fn find_dialogue_anchor(text: &str) -> (r: bool)
    ensures
        r == has_dialogue_anchor(text@),
{
    let upper = to_upper(text);
    count_speaker_prefixes(text) > 0 || count_dialogue_markers(text) > 0 || contains(
        upper.as_str(),
        "EXAMINATION",
    ) || count_signals(upper.as_str(), LineSignal::Examiner) > 0
}

/// Pages with a list of appearances continued over the first `n`, and whether the list is
/// still open.
pub open spec fn with_appearances(pages: Seq<ExtractedPageView>, n: int) -> (
    Seq<ExtractedPageView>,
    bool,
)
    decreases n,
{
    if n <= 0 {
        (pages, false)
    } else {
        let (list, open) = with_appearances(pages, n - 1);
        let page = list[n - 1];
        if page.section == PageSection::Appearances {
            (list, true)
        } else if !open {
            (list, false)
        } else if reference_section(page.section) || has_dialogue_anchor(page.text) {
            (list, false)
        } else {
            (
                list.update(
                    n - 1,
                    relabelled(
                        page,
                        PageSection::Appearances,
                        88,
                        "Continues an established appearances/front-matter section without dialogue anchors."@,
                    ),
                ),
                true,
            )
        }
    }
}

fn continue_appearances(pages: &mut Vec<ExtractedPage>)
    ensures
        final(pages).deep_view() == with_appearances(
            old(pages).deep_view(),
            old(pages).deep_view().len() as int,
        ).0,
{
    let ghost start = pages.deep_view();
    let count = pages.len();
    let mut open = false;
    for i in 0..count
        invariant
            count == pages@.len(),
            (pages.deep_view(), open) == with_appearances(start, i as int),
    {
        assert(pages.deep_view()[i as int] == pages@[i as int].deep_view());
        if pages[i].section == PageSection::Appearances {
            open = true;
        } else if open {
            if pages[i].section.is_reference_only() || find_dialogue_anchor(
                pages[i].text.as_str(),
            ) {
                open = false;
            } else {
                relabel(
                    pages,
                    i,
                    PageSection::Appearances,
                    88,
                    "Continues an established appearances/front-matter section without dialogue anchors.",
                );
            }
        }
    }
}

// ---------------------------------------------------------------------------
// Word indexes
// ---------------------------------------------------------------------------

/// Whether a page that stands behind a word index can belong to it.
pub open spec fn continues_index(page: ExtractedPageView) -> bool {
    &&& page.section == PageSection::Unknown || page.section == PageSection::Transcript
    &&& citations(page.text) >= 3 || index_like(page.text)
    &&& signals(page.text, LineSignal::Speaker) < 2
    &&& signals(page.text, LineSignal::Marker) < 2
}

fn can_continue_index(page: &ExtractedPage) -> (r: bool)
    ensures
        r == continues_index(page.deep_view()),
{
    let text = page.text.as_str();
    (page.section == PageSection::Unknown || page.section == PageSection::Transcript) && (
    count_page_line_citations(text) >= 3 || looks_index_like(text)) && count_speaker_prefixes(text)
        < 2 && count_dialogue_markers(text) < 2
}

/// Pages with a word index continued over the first `n`, and how many pages of it stand
/// directly before the next one.
pub open spec fn with_index(pages: Seq<ExtractedPageView>, n: int) -> (Seq<ExtractedPageView>, nat)
    decreases n,
{
    if n <= 0 {
        (pages, 0)
    } else {
        let (list, run) = with_index(pages, n - 1);
        let page = list[n - 1];
        if page.section == PageSection::WordIndex {
            (list, run + 1)
        } else if run >= 3 && continues_index(page) {
            (
                list.update(
                    n - 1,
                    relabelled(
                        page,
                        PageSection::WordIndex,
                        90,
                        "Continues an established word-index run without dialogue evidence."@,
                    ),
                ),
                run + 1,
            )
        } else {
            (list, 0)
        }
    }
}

fn continue_index(pages: &mut Vec<ExtractedPage>)
    ensures
        final(pages).deep_view() == with_index(
            old(pages).deep_view(),
            old(pages).deep_view().len() as int,
        ).0,
{
    let ghost start = pages.deep_view();
    let count = pages.len();
    let mut run: usize = 0;
    for i in 0..count
        invariant
            count == pages@.len(),
            run <= i,
            (pages.deep_view(), run as nat) == with_index(start, i as int),
    {
        assert(pages.deep_view()[i as int] == pages@[i as int].deep_view());
        if pages[i].section == PageSection::WordIndex {
            run += 1;
        } else if run >= 3 && can_continue_index(&pages[i]) {
            relabel(
                pages,
                i,
                PageSection::WordIndex,
                90,
                "Continues an established word-index run without dialogue evidence.",
            );
            run += 1;
        } else {
            run = 0;
        }
    }
}

// ---------------------------------------------------------------------------
// Transcript runs
// ---------------------------------------------------------------------------

/// Pages with each unknown one among the first `n` filled in that stands between two
/// transcript pages.
pub open spec fn with_sandwiches(pages: Seq<ExtractedPageView>, n: int) -> Seq<ExtractedPageView>
    decreases n,
{
    if n <= 0 {
        pages
    } else {
        let list = with_sandwiches(pages, n - 1);
        let i = n - 1;
        if 0 < i && i + 1 < list.len() && list[i].section == PageSection::Unknown && list[i
            - 1].section == PageSection::Transcript && list[i + 1].section
            == PageSection::Transcript {
            list.update(
                i,
                relabelled(
                    list[i],
                    PageSection::Transcript,
                    72,
                    "Sandwiched between transcript pages."@,
                ),
            )
        } else {
            list
        }
    }
}

fn fill_sandwiches(pages: &mut Vec<ExtractedPage>)
    ensures
        final(pages).deep_view() == with_sandwiches(
            old(pages).deep_view(),
            old(pages).deep_view().len() as int,
        ),
{
    let ghost start = pages.deep_view();
    let count = pages.len();
    for i in 0..count
        invariant
            count == pages@.len(),
            pages.deep_view() == with_sandwiches(start, i as int),
    {
        if 0 < i && i < count - 1 {
            assert(pages.deep_view()[i as int] == pages@[i as int].deep_view());
            assert(pages.deep_view()[i - 1] == pages@[i - 1].deep_view());
            assert(pages.deep_view()[i + 1] == pages@[i + 1].deep_view());
            if pages[i].section == PageSection::Unknown && pages[i - 1].section
                == PageSection::Transcript && pages[i + 1].section == PageSection::Transcript {
                relabel(
                    pages,
                    i,
                    PageSection::Transcript,
                    72,
                    "Sandwiched between transcript pages.",
                );
            }
        }
    }
}

/// The sections of pages.
pub open spec fn sections_of(pages: Seq<ExtractedPageView>) -> Seq<PageSection> {
    Seq::new(pages.len(), |i: int| pages[i].section)
}

/// Whether a neighbour of a page is a transcript page.
pub open spec fn beside_transcript(sections: Seq<PageSection>, i: int) -> bool {
    ||| 0 < i <= sections.len() && sections[i - 1] == PageSection::Transcript
    ||| 0 <= i && i + 1 < sections.len() && sections[i + 1] == PageSection::Transcript
}

/// Pages with each unknown one among the first `n` pulled in that reads like dialogue beside
/// a transcript page.
pub open spec fn with_neighbours(
    pages: Seq<ExtractedPageView>,
    sections: Seq<PageSection>,
    n: int,
) -> Seq<ExtractedPageView>
    decreases n,
{
    if n <= 0 {
        pages
    } else {
        let list = with_neighbours(pages, sections, n - 1);
        let i = n - 1;
        if list[i].section == PageSection::Unknown && dialogue_like(list[i].text)
            && beside_transcript(sections, i) {
            list.update(
                i,
                relabelled(
                    list[i],
                    PageSection::Transcript,
                    64,
                    "Dialogue-like page adjacent to an established transcript run."@,
                ),
            )
        } else {
            list
        }
    }
}

/// Pages after one round of [`with_neighbours`].
pub open spec fn pulled_in(pages: Seq<ExtractedPageView>) -> Seq<ExtractedPageView> {
    with_neighbours(pages, sections_of(pages), pages.len() as int)
}

fn pull_in_neighbours(pages: &mut Vec<ExtractedPage>)
    ensures
        final(pages).deep_view() == pulled_in(old(pages).deep_view()),
{
    let ghost start = pages.deep_view();
    let count = pages.len();
    let mut sections: Vec<PageSection> = Vec::new();
    for i in 0..count
        invariant
            count == pages@.len(),
            start == pages.deep_view(),
            sections@.len() == i,
            forall|j: int| 0 <= j < i ==> #[trigger] sections@[j] == start[j].section,
    {
        assert(start[i as int] == pages@[i as int].deep_view());
        sections.push(pages[i].section);
    }
    assert(sections@ =~= sections_of(start));
    for i in 0..count
        invariant
            count == pages@.len(),
            count == sections@.len(),
            sections@ == sections_of(start),
            pages.deep_view() == with_neighbours(start, sections@, i as int),
    {
        assert(pages.deep_view()[i as int] == pages@[i as int].deep_view());
        let beside = (i > 0 && sections[i - 1] == PageSection::Transcript) || (i < count - 1
            && sections[i + 1] == PageSection::Transcript);
        if pages[i].section == PageSection::Unknown && beside && looks_dialogue_like(
            pages[i].text.as_str(),
        ) {
            relabel(
                pages,
                i,
                PageSection::Transcript,
                64,
                "Dialogue-like page adjacent to an established transcript run.",
            );
        }
    }
}

/// Whether any page is a transcript page.
pub open spec fn any_transcript(pages: Seq<ExtractedPageView>) -> bool {
    exists|i: int| 0 <= i < pages.len() && #[trigger] pages[i].section == PageSection::Transcript
}

/// A page of a document that has no transcript page, taken for one if it reads like dialogue.
pub open spec fn taken_for_dialogue(page: ExtractedPageView) -> ExtractedPageView {
    if page.section == PageSection::Unknown && dialogue_like(page.text) {
        relabelled(
            page,
            PageSection::Transcript,
            52,
            "No strong transcript run existed; dialogue-like structure used as conservative fallback."@,
        )
    } else {
        page
    }
}

/// Pages of which none is a transcript page, with those taken for one that read like dialogue.
pub open spec fn with_fallback(pages: Seq<ExtractedPageView>) -> Seq<ExtractedPageView> {
    if any_transcript(pages) {
        pages
    } else {
        Seq::new(pages.len(), |i: int| taken_for_dialogue(pages[i]))
    }
}

fn fall_back(pages: &mut Vec<ExtractedPage>)
    ensures
        final(pages).deep_view() == with_fallback(old(pages).deep_view()),
{
    let ghost start = pages.deep_view();
    let count = pages.len();
    for i in 0..count
        invariant
            count == pages@.len(),
            start == pages.deep_view(),
            forall|j: int| 0 <= j < i ==> (#[trigger] start[j]).section != PageSection::Transcript,
    {
        assert(start[i as int] == pages@[i as int].deep_view());
        if pages[i].section == PageSection::Transcript {
            return;
        }
    }
    for i in 0..count
        invariant
            count == pages@.len(),
            count == start.len(),
            forall|j: int|
                0 <= j < count ==> (#[trigger] pages.deep_view()[j]) == if j < i {
                    taken_for_dialogue(start[j])
                } else {
                    start[j]
                },
    {
        assert(pages.deep_view()[i as int] == pages@[i as int].deep_view());
        if pages[i].section == PageSection::Unknown && looks_dialogue_like(pages[i].text.as_str()) {
            relabel(
                pages,
                i,
                PageSection::Transcript,
                52,
                "No strong transcript run existed; dialogue-like structure used as conservative fallback.",
            );
        }
    }
    assert(pages.deep_view() =~= with_fallback(start));
}

// ---------------------------------------------------------------------------
// All pages
// ---------------------------------------------------------------------------

/// Pages in their sections.
pub open spec fn classified(pages: Seq<ExtractedPageView>) -> Seq<ExtractedPageView> {
    let own = judged_pages(pages);
    let listed = with_appearances(own, own.len() as int).0;
    let indexed = with_index(listed, listed.len() as int).0;
    let filled = with_sandwiches(indexed, indexed.len() as int);
    with_fallback(pulled_in(pulled_in(filled)))
}

/// Puts pages in their sections. An explicit list of appearances goes on until dialogue
/// starts, and a word index of three pages and more takes in what looks like it; then unknown
/// pages join the transcript pages beside them.
pub fn classify_page_sections(pages: &mut Vec<ExtractedPage>)
    ensures
        final(pages).deep_view() == classified(old(pages).deep_view()),
{
    judge_pages(pages);
    continue_appearances(pages);
    continue_index(pages);
    fill_sandwiches(pages);
    pull_in_neighbours(pages);
    pull_in_neighbours(pages);
    fall_back(pages);
}

// ---------------------------------------------------------------------------
// Laws
// ---------------------------------------------------------------------------

/// Whether two pages differ in their section alone.
pub open spec fn same_source(a: ExtractedPageView, b: ExtractedPageView) -> bool {
    b == ExtractedPageView {
        section: b.section,
        section_confidence: b.section_confidence,
        section_reasons: b.section_reasons,
        ..a
    }
}

/// Whether pages were at most moved out of the unknown: nothing else of a page changed, and a
/// reference page not even its section.
pub open spec fn refines(a: Seq<ExtractedPageView>, b: Seq<ExtractedPageView>) -> bool {
    &&& a.len() == b.len()
    &&& forall|i: int| 0 <= i < a.len() ==> same_source(a[i], #[trigger] b[i])
    &&& forall|i: int|
        0 <= i < a.len() && reference_section(a[i].section) ==> (#[trigger] b[i]) == a[i]
}

proof fn lemma_refines_chain(
    a: Seq<ExtractedPageView>,
    b: Seq<ExtractedPageView>,
    c: Seq<ExtractedPageView>,
)
    requires
        refines(a, b),
        refines(b, c),
    ensures
        refines(a, c),
{
    assert forall|i: int| 0 <= i < a.len() implies same_source(a[i], #[trigger] c[i]) by {
        assert(same_source(a[i], b[i]));
        assert(same_source(b[i], c[i]));
    }
    assert forall|i: int| 0 <= i < a.len() && reference_section(a[i].section) implies (
    #[trigger] c[i]) == a[i] by {
        assert(b[i] == a[i]);
    }
}

proof fn lemma_update_refines(a: Seq<ExtractedPageView>, i: int, page: ExtractedPageView)
    requires
        0 <= i < a.len(),
        same_source(a[i], page),
        !reference_section(a[i].section),
    ensures
        refines(a, a.update(i, page)),
{
}

proof fn lemma_appearances_refine(pages: Seq<ExtractedPageView>, n: int)
    requires
        n <= pages.len(),
    ensures
        refines(pages, with_appearances(pages, n).0),
    decreases n,
{
    if n > 0 {
        lemma_appearances_refine(pages, n - 1);
        let (list, open) = with_appearances(pages, n - 1);
        let after = with_appearances(pages, n).0;
        if after != list {
            lemma_update_refines(list, n - 1, after[n - 1]);
        }
        lemma_refines_chain(pages, list, after);
    }
}

proof fn lemma_index_refines(pages: Seq<ExtractedPageView>, n: int)
    requires
        n <= pages.len(),
    ensures
        refines(pages, with_index(pages, n).0),
    decreases n,
{
    if n > 0 {
        lemma_index_refines(pages, n - 1);
        let (list, run) = with_index(pages, n - 1);
        let after = with_index(pages, n).0;
        if after != list {
            lemma_update_refines(list, n - 1, after[n - 1]);
        }
        lemma_refines_chain(pages, list, after);
    }
}

proof fn lemma_sandwiches_refine(pages: Seq<ExtractedPageView>, n: int)
    requires
        n <= pages.len(),
    ensures
        refines(pages, with_sandwiches(pages, n)),
    decreases n,
{
    if n > 0 {
        lemma_sandwiches_refine(pages, n - 1);
        let list = with_sandwiches(pages, n - 1);
        let after = with_sandwiches(pages, n);
        if after != list {
            lemma_update_refines(list, n - 1, after[n - 1]);
        }
        lemma_refines_chain(pages, list, after);
    }
}

proof fn lemma_neighbours_refine(
    pages: Seq<ExtractedPageView>,
    sections: Seq<PageSection>,
    n: int,
)
    requires
        n <= pages.len(),
    ensures
        refines(pages, with_neighbours(pages, sections, n)),
    decreases n,
{
    if n > 0 {
        lemma_neighbours_refine(pages, sections, n - 1);
        let list = with_neighbours(pages, sections, n - 1);
        let after = with_neighbours(pages, sections, n);
        if after != list {
            lemma_update_refines(list, n - 1, after[n - 1]);
        }
        lemma_refines_chain(pages, list, after);
    }
}

proof fn lemma_classified_refines(pages: Seq<ExtractedPageView>)
    ensures
        refines(judged_pages(pages), classified(pages)),
{
    let own = judged_pages(pages);
    let listed = with_appearances(own, own.len() as int).0;
    let indexed = with_index(listed, listed.len() as int).0;
    let filled = with_sandwiches(indexed, indexed.len() as int);
    let once = pulled_in(filled);
    let twice = pulled_in(once);
    lemma_appearances_refine(own, own.len() as int);
    lemma_index_refines(listed, listed.len() as int);
    lemma_sandwiches_refine(indexed, indexed.len() as int);
    lemma_neighbours_refine(filled, sections_of(filled), filled.len() as int);
    lemma_neighbours_refine(once, sections_of(once), once.len() as int);
    assert(refines(twice, with_fallback(twice)));
    lemma_refines_chain(own, listed, indexed);
    lemma_refines_chain(own, indexed, filled);
    lemma_refines_chain(own, filled, once);
    lemma_refines_chain(own, once, twice);
    lemma_refines_chain(own, twice, with_fallback(twice));
}

/// No page is lost or moved, and nothing of a page changes but its section, how sure that is
/// and why.
pub proof fn law_classification_keeps_pages(pages: Seq<ExtractedPageView>, i: int)
    requires
        0 <= i < pages.len(),
    ensures
        classified(pages).len() == pages.len(),
        same_source(pages[i], classified(pages)[i]),
{
    lemma_classified_refines(pages);
    let own = judged_pages(pages);
    assert(same_source(own[i], classified(pages)[i]));
    assert(same_source(pages[i], own[i]));
}

/// A page that is an index, a certificate or other reference material by itself stays so:
/// no transcript run beside it swallows it.
pub proof fn law_reference_pages_stay(pages: Seq<ExtractedPageView>, i: int)
    requires
        0 <= i < pages.len(),
        reference_section(judgement(pages[i]).section),
    ensures
        classified(pages)[i] == judged_page(pages[i]),
{
    lemma_classified_refines(pages);
    let own = judged_pages(pages);
    assert(reference_section(own[i].section));
    assert(classified(pages)[i] == own[i]);
}

// ---------------------------------------------------------------------------
// How pages are taken together
// ---------------------------------------------------------------------------

/// A list of appearances goes on over the pages behind it, until somebody speaks, an examination is
/// announced or a reference page comes.
pub proof fn law_appearances_go_on(pages: Seq<ExtractedPageView>, n: int)
    requires
        0 <= n < pages.len(),
    ensures
        ({
            let (before, open) = with_appearances(pages, n);
            let (after, still_open) = with_appearances(pages, n + 1);
            let page = before[n];
            let text = page.text;
            let listed = page.section == PageSection::Appearances;
            let speech = signals(text, LineSignal::Speaker) > 0 || signals(text, LineSignal::Marker)
                > 0 || has_infix(uppercased(text), "EXAMINATION"@) || signals(
                uppercased(text),
                LineSignal::Examiner,
            ) > 0;
            let ends = speech || page.section == PageSection::WordIndex || page.section
                == PageSection::ExhibitIndex || page.section == PageSection::Certificate
                || page.section == PageSection::Errata || page.section == PageSection::Appendix
                || page.section == PageSection::Attachment;
            &&& with_appearances(pages, 0) == (pages, false)
            &&& before.len() == pages.len() ==> after.len() == pages.len()
            &&& listed ==> after == before && still_open
            &&& !listed && (!open || ends) ==> after == before && !still_open
            &&& !listed && open && !ends && before.len() == pages.len() ==> after[n].section
                == PageSection::Appearances && still_open && after[n].text == text
        }),
{
}

/// A word index goes on over a page behind three of its pages that cites, and on which hardly
/// anybody speaks.
pub proof fn law_indexes_go_on(pages: Seq<ExtractedPageView>, n: int)
    requires
        0 <= n < pages.len(),
    ensures
        ({
            let (before, run) = with_index(pages, n);
            let (after, next_run) = with_index(pages, n + 1);
            let page = before[n];
            let indexed = page.section == PageSection::WordIndex;
            let fits = (page.section == PageSection::Unknown || page.section
                == PageSection::Transcript) && (citations(page.text) >= 3 || index_like(page.text))
                && signals(page.text, LineSignal::Speaker) < 2 && signals(
                page.text,
                LineSignal::Marker,
            ) < 2;
            &&& with_index(pages, 0) == (pages, 0nat)
            &&& indexed ==> after == before && next_run == run + 1
            &&& !indexed && run >= 3 && fits && before.len() == pages.len() ==> after[n].section
                == PageSection::WordIndex && next_run == run + 1 && after[n].text == page.text
            &&& !indexed && !(run >= 3 && fits) ==> after == before && next_run == 0
        }),
{
}

/// An unknown page between two transcript pages becomes one, and no other page changes.
pub proof fn law_pages_between_transcripts_join_them(pages: Seq<ExtractedPageView>, n: int)
    requires
        0 <= n < pages.len(),
        with_sandwiches(pages, n).len() == pages.len(),
    ensures
        ({
            let before = with_sandwiches(pages, n);
            let after = with_sandwiches(pages, n + 1);
            let between = 0 < n && n + 1 < pages.len() && before[n].section == PageSection::Unknown
                && before[n - 1].section == PageSection::Transcript && before[n + 1].section
                == PageSection::Transcript;
            &&& with_sandwiches(pages, 0) == pages
            &&& !between ==> after == before
            &&& between ==> after[n].section == PageSection::Transcript && after[n].text
                == before[n].text && forall|i: int|
                0 <= i < pages.len() && i != n ==> (#[trigger] after[i]) == before[i]
        }),
{
}

/// An unknown page beside a transcript page that reads like dialogue becomes one. Where no page is
/// a transcript page at all, every unknown page that reads like dialogue is taken for one.
pub proof fn law_dialogue_is_pulled_in(
    pages: Seq<ExtractedPageView>,
    sections: Seq<PageSection>,
    n: int,
)
    requires
        0 <= n < pages.len(),
        sections.len() == pages.len(),
        with_neighbours(pages, sections, n).len() == pages.len(),
    ensures
        ({
            let before = with_neighbours(pages, sections, n);
            let after = with_neighbours(pages, sections, n + 1);
            let page = before[n];
            let dialogue = signals(page.text, LineSignal::Speaker) >= 3 || signals(
                page.text,
                LineSignal::Numbered,
            ) >= 5 || signals(page.text, LineSignal::Marker) >= 4;
            let beside = (n > 0 && sections[n - 1] == PageSection::Transcript) || (n + 1
                < sections.len() && sections[n + 1] == PageSection::Transcript);
            let joins = page.section == PageSection::Unknown && dialogue && beside;
            &&& with_neighbours(pages, sections, 0) == pages
            &&& joins ==> after[n].section == PageSection::Transcript && after[n].text == page.text
            &&& !joins ==> after == before
        }),
        ({
            let page = pages[n];
            let alone = forall|i: int|
                0 <= i < pages.len() ==> (#[trigger] pages[i]).section != PageSection::Transcript;
            let dialogue = signals(page.text, LineSignal::Speaker) >= 3 || signals(
                page.text,
                LineSignal::Numbered,
            ) >= 5 || signals(page.text, LineSignal::Marker) >= 4;
            &&& !alone ==> with_fallback(pages) == pages
            &&& alone && page.section == PageSection::Unknown && dialogue ==> with_fallback(
                pages,
            )[n].section == PageSection::Transcript
            &&& alone && !(page.section == PageSection::Unknown && dialogue) ==> with_fallback(
                pages,
            )[n] == page
        }),
{
}

/// Pages are judged each by itself, then taken together: appearances, indexes and pages between
/// transcript pages go on, dialogue is pulled in twice, and last what reads like dialogue is taken
/// for it where nothing else is.
pub proof fn law_pages_are_classified_so(pages: Seq<ExtractedPageView>, i: int)
    requires
        0 <= i < pages.len(),
    ensures
        ({
            let own = judged_pages(pages);
            let listed = with_appearances(own, own.len() as int).0;
            let indexed = with_index(listed, listed.len() as int).0;
            let filled = with_sandwiches(indexed, indexed.len() as int);
            let once = with_neighbours(filled, sections_of(filled), filled.len() as int);
            let twice = with_neighbours(once, sections_of(once), once.len() as int);
            &&& own.len() == pages.len()
            &&& own[i].section == judgement(pages[i]).section
            &&& own[i].text == pages[i].text
            &&& own[i].section_confidence == judgement(pages[i]).confidence
            &&& classified(pages) == with_fallback(twice)
        }),
{
}

/// How sure a page is of a section that it got from others, each with one more reason: of a list of
/// appearances at 88, of an index at 90, between transcript pages at 72, beside them at 64, and
/// without any at 52.
pub proof fn law_sections_got_from_others(
    pages: Seq<ExtractedPageView>,
    sections: Seq<PageSection>,
    n: int,
)
    requires
        0 <= n < pages.len(),
        with_appearances(pages, n).0.len() == pages.len(),
        with_index(pages, n).0.len() == pages.len(),
        with_sandwiches(pages, n).len() == pages.len(),
        with_neighbours(pages, sections, n).len() == pages.len(),
    ensures
        ({
            let got = |before: ExtractedPageView, after: ExtractedPageView, sure: u8|
                before == after || (after.section_confidence == sure && after.section_reasons.len()
                    == before.section_reasons.len() + 1 && after.section_reasons.drop_last()
                    == before.section_reasons && after.visual_rows == before.visual_rows
                    && after.physical_page == before.physical_page);
            &&& got(with_appearances(pages, n).0[n], with_appearances(pages, n + 1).0[n], 88)
            &&& got(with_index(pages, n).0[n], with_index(pages, n + 1).0[n], 90)
            &&& got(with_sandwiches(pages, n)[n], with_sandwiches(pages, n + 1)[n], 72)
            &&& got(
                with_neighbours(pages, sections, n)[n],
                with_neighbours(pages, sections, n + 1)[n],
                64,
            )
            &&& got(pages[n], with_fallback(pages)[n], 52)
        }),
{
    assert forall|page: ExtractedPageView, section: PageSection, sure: u8, reason: Seq<char>|
        (#[trigger] relabelled(page, section, sure, reason)).section_reasons.drop_last()
            == page.section_reasons by {
        assert(relabelled(page, section, sure, reason).section_reasons.drop_last()
            =~= page.section_reasons);
    }
}

} // verus!
