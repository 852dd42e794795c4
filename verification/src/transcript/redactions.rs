//! Hints that something was taken out of a document.
use vstd::prelude::*;

use crate::document::models::{
    AnnotationSignal, AnnotationSignalView, ExtractedDocument, ExtractedPage, ExtractedPageView,
    FilledRectangleSignal, FilledRectangleSignalView,
};
use crate::number::{next, succ, sum, total};
use crate::pieces::{lines, lines_of};
use crate::scan::{first_chars, to_upper, trim, trimmed, uppercased};
use crate::text::{lemma_filter_first, push_item, same};
use crate::transcript::models::{
    RedactionCandidate, RedactionCandidateView, RedactionSignalKind, RedactionSummary,
    SignalConfidence,
};
use crate::transcript::speaker::{contains_redaction_marker, mentions_redaction};

verus! {

/// How many candidates are reported at most.
pub const MAX_CANDIDATES: usize = 750;

// ---------------------------------------------------------------------------
// Annotations and rectangles
// ---------------------------------------------------------------------------

/// The candidate that an annotation is.
pub open spec fn annotation_candidate(page: u32, a: AnnotationSignalView) -> Option<
    RedactionCandidateView,
> {
    if a.is_explicit_redaction {
        Some(
            RedactionCandidateView {
                physical_page: page,
                rect: a.rect,
                kind: RedactionSignalKind::PdfRedactAnnotation,
                confidence: SignalConfidence::High,
                note: "PDF annotation subtype is /Redact."@,
            },
        )
    } else if a.is_dark_overlay_candidate {
        Some(
            RedactionCandidateView {
                physical_page: page,
                rect: a.rect,
                kind: RedactionSignalKind::DarkAnnotationCandidate,
                confidence: SignalConfidence::Medium,
                note: "Dark overlay-like annotation; visual confirmation required."@,
            },
        )
    } else {
        None
    }
}

fn candidate_of_annotation(page: u32, a: &AnnotationSignal) -> (r: Option<RedactionCandidate>)
    ensures
        r.deep_view() == annotation_candidate(page, a.deep_view()),
{
    if a.is_explicit_redaction {
        Some(
            RedactionCandidate {
                physical_page: page,
                rect: a.rect,
                kind: RedactionSignalKind::PdfRedactAnnotation,
                confidence: SignalConfidence::High,
                note: "PDF annotation subtype is /Redact.".to_owned(),
            },
        )
    } else if a.is_dark_overlay_candidate {
        Some(
            RedactionCandidate {
                physical_page: page,
                rect: a.rect,
                kind: RedactionSignalKind::DarkAnnotationCandidate,
                confidence: SignalConfidence::Medium,
                note: "Dark overlay-like annotation; visual confirmation required.".to_owned(),
            },
        )
    } else {
        None
    }
}

/// Candidates with those among the first `n` annotations of a page.
pub open spec fn with_annotations(
    list: Seq<RedactionCandidateView>,
    page: u32,
    annotations: Seq<AnnotationSignalView>,
    n: int,
) -> Seq<RedactionCandidateView>
    decreases n,
{
    if n <= 0 {
        list
    } else {
        let before = with_annotations(list, page, annotations, n - 1);
        match annotation_candidate(page, annotations[n - 1]) {
            Some(candidate) => before.push(candidate),
            None => before,
        }
    }
}

/// The candidate that a dark filled rectangle is.
pub open spec fn rectangle_candidate(page: u32, r: FilledRectangleSignalView) ->
    RedactionCandidateView {
    RedactionCandidateView {
        physical_page: page,
        rect: Some(r.rect),
        kind: RedactionSignalKind::DarkFilledRectangleCandidate,
        confidence: SignalConfidence::Low,
        note: "Dark filled vector rectangle; may be a redaction or ordinary design element."@,
    }
}

/// Candidates with those among the first `n` rectangles of a page.
pub open spec fn with_rectangles(
    list: Seq<RedactionCandidateView>,
    page: u32,
    rectangles: Seq<FilledRectangleSignalView>,
    n: int,
) -> Seq<RedactionCandidateView>
    decreases n,
{
    if n <= 0 {
        list
    } else {
        let before = with_rectangles(list, page, rectangles, n - 1);
        if rectangles[n - 1].possible_redaction {
            before.push(rectangle_candidate(page, rectangles[n - 1]))
        } else {
            before
        }
    }
}

// ---------------------------------------------------------------------------
// Markers in the text
// ---------------------------------------------------------------------------

/// The lines of a page that are looked at: those of its text and of its plain extraction.
pub open spec fn searched_lines(page: ExtractedPageView) -> Seq<Seq<char>> {
    lines_of(page.text) + lines_of(page.raw_text)
}

fn lines_to_search(page: &ExtractedPage) -> (r: Vec<String>)
    ensures
        r.deep_view() == searched_lines(page.deep_view()),
{
    let mut list = lines(page.text.as_str());
    let raw = lines(page.raw_text.as_str());
    let ghost first = list.deep_view();
    let ghost second = raw.deep_view();
    assert(first + second.take(0) =~= first);
    for i in 0..raw.len()
        invariant
            second == raw.deep_view(),
            list.deep_view() == first + second.take(i as int),
    {
        push_item(&mut list, raw[i].clone());
        assert(first + second.take(i + 1) =~= (first + second.take(i as int)).push(
            raw@[i as int]@,
        ));
    }
    assert(second.take(second.len() as int) =~= second);
    list
}

/// A redaction marker as it is told apart from others on its page.
pub open spec fn marker_key(line: Seq<char>) -> Seq<char> {
    uppercased(trimmed(line))
}

/// The different redaction markers among the first `n` lines.
pub open spec fn marker_keys(list: Seq<Seq<char>>, n: int) -> Seq<Seq<char>>
    decreases n,
{
    if n <= 0 {
        seq![]
    } else {
        let before = marker_keys(list, n - 1);
        if mentions_redaction(list[n - 1]) && !before.contains(marker_key(list[n - 1])) {
            before.push(marker_key(list[n - 1]))
        } else {
            before
        }
    }
}

/// The first characters of a text, with dots where more follows.
pub open spec fn shortened(text: Seq<char>, n: nat) -> Seq<char> {
    if text.len() > n {
        text.take(n as int) + "..."@
    } else {
        text
    }
}

pub fn truncate(text: &str, max_chars: usize) -> (r: String)
    ensures
        r@ == shortened(text@, max_chars as nat),
{
    if text.unicode_len() > max_chars {
        first_chars(text, max_chars).to_owned().concat("...")
    } else {
        text.to_owned()
    }
}

/// The candidate that a marker in the text is.
pub open spec fn text_candidate(page: u32, line: Seq<char>) -> RedactionCandidateView {
    RedactionCandidateView {
        physical_page: page,
        rect: None,
        kind: RedactionSignalKind::TextualRedactionMarker,
        confidence: SignalConfidence::High,
        note: "Text layer contains a redaction/sealed marker: "@ + shortened(trimmed(line), 140),
    }
}

/// Candidates with the different markers among the first `n` lines of a page.
pub open spec fn with_markers(
    list: Seq<RedactionCandidateView>,
    page: u32,
    texts: Seq<Seq<char>>,
    n: int,
) -> Seq<RedactionCandidateView>
    decreases n,
{
    if n <= 0 {
        list
    } else {
        let before = with_markers(list, page, texts, n - 1);
        if mentions_redaction(texts[n - 1]) && !marker_keys(texts, n - 1).contains(
            marker_key(texts[n - 1]),
        ) {
            before.push(text_candidate(page, texts[n - 1]))
        } else {
            before
        }
    }
}

fn holds_text(list: &Vec<String>, text: &str) -> (r: bool)
    ensures
        r == list.deep_view().contains(text@),
{
    let ghost view = list.deep_view();
    for i in 0..list.len()
        invariant
            view == list.deep_view(),
            forall|j: int| 0 <= j < i ==> view[j] != text@,
    {
        assert(view[i as int] == list@[i as int]@);
        if same(list[i].as_str(), text) {
            return true;
        }
    }
    false
}

fn count_markers(page: &ExtractedPage) -> (r: usize)
    ensures
        r == marker_keys(
            searched_lines(page.deep_view()),
            searched_lines(page.deep_view()).len() as int,
        ).len(),
{
    let list = lines_to_search(page);
    let mut keys: Vec<String> = Vec::new();
    assert(keys.deep_view() =~= seq![]);
    for n in 0..list.len()
        invariant
            keys.deep_view() == marker_keys(list.deep_view(), n as int),
    {
        assert(list.deep_view()[n as int] == list@[n as int]@);
        if contains_redaction_marker(list[n].as_str()) {
            let key = to_upper(trim(list[n].as_str()));
            if !holds_text(&keys, key.as_str()) {
                push_item(&mut keys, key);
            }
        }
    }
    keys.len()
}

// ---------------------------------------------------------------------------
// Candidates
// ---------------------------------------------------------------------------

/// Candidates with those of a page.
pub open spec fn with_page(list: Seq<RedactionCandidateView>, page: ExtractedPageView) -> Seq<
    RedactionCandidateView,
> {
    let number = page.physical_page;
    let annotated = with_annotations(
        list,
        number,
        page.annotations,
        page.annotations.len() as int,
    );
    let drawn = with_rectangles(
        annotated,
        number,
        page.filled_rectangles,
        page.filled_rectangles.len() as int,
    );
    let texts = searched_lines(page);
    with_markers(drawn, number, texts, texts.len() as int)
}

fn add_page(list: &mut Vec<RedactionCandidate>, page: &ExtractedPage)
    ensures
        final(list).deep_view() == with_page(old(list).deep_view(), page.deep_view()),
{
    let number = page.physical_page;
    let ghost before = list.deep_view();
    let ghost annotations = page.deep_view().annotations;
    for n in 0..page.annotations.len()
        invariant
            annotations == page.annotations.deep_view(),
            list.deep_view() == with_annotations(before, number, annotations, n as int),
    {
        assert(annotations[n as int] == page.annotations@[n as int].deep_view());
        match candidate_of_annotation(number, &page.annotations[n]) {
            Some(candidate) => {
                push_item(list, candidate);
            },
            None => {},
        }
    }
    let ghost annotated = list.deep_view();
    let ghost rectangles = page.deep_view().filled_rectangles;
    for n in 0..page.filled_rectangles.len()
        invariant
            rectangles == page.filled_rectangles.deep_view(),
            list.deep_view() == with_rectangles(annotated, number, rectangles, n as int),
    {
        assert(rectangles[n as int] == page.filled_rectangles@[n as int].deep_view());
        if page.filled_rectangles[n].possible_redaction {
            push_item(
                list,
                RedactionCandidate {
                    physical_page: number,
                    rect: Some(page.filled_rectangles[n].rect),
                    kind: RedactionSignalKind::DarkFilledRectangleCandidate,
                    confidence: SignalConfidence::Low,
                    note: "Dark filled vector rectangle; may be a redaction or ordinary design element.".to_owned(),
                },
            );
        }
    }
    let ghost drawn = list.deep_view();
    let texts = lines_to_search(page);
    let mut keys: Vec<String> = Vec::new();
    assert(keys.deep_view() =~= seq![]);
    for n in 0..texts.len()
        invariant
            keys.deep_view() == marker_keys(texts.deep_view(), n as int),
            list.deep_view() == with_markers(drawn, number, texts.deep_view(), n as int),
    {
        assert(texts.deep_view()[n as int] == texts@[n as int]@);
        let line = texts[n].as_str();
        if contains_redaction_marker(line) {
            let key = to_upper(trim(line));
            if !holds_text(&keys, key.as_str()) {
                push_item(&mut keys, key);
                push_item(
                    list,
                    RedactionCandidate {
                        physical_page: number,
                        rect: None,
                        kind: RedactionSignalKind::TextualRedactionMarker,
                        confidence: SignalConfidence::High,
                        note: "Text layer contains a redaction/sealed marker: ".to_owned().concat(
                            truncate(trim(line), 140).as_str(),
                        ),
                    },
                );
            }
        }
    }
}

/// All candidates on the first `n` pages.
pub open spec fn all_candidates(pages: Seq<ExtractedPageView>, n: int) -> Seq<
    RedactionCandidateView,
>
    decreases n,
{
    if n <= 0 {
        seq![]
    } else {
        with_page(all_candidates(pages, n - 1), pages[n - 1])
    }
}

/// The candidates that are reported: the first of all.
pub open spec fn reported_candidates(pages: Seq<ExtractedPageView>) -> Seq<RedactionCandidateView> {
    let all = all_candidates(pages, pages.len() as int);
    if all.len() > MAX_CANDIDATES {
        all.take(MAX_CANDIDATES as int)
    } else {
        all
    }
}

pub fn collect_redaction_candidates(document: &ExtractedDocument) -> (r: Vec<RedactionCandidate>)
    ensures
        r.deep_view() == reported_candidates(document.deep_view().pages),
{
    let ghost pages = document.deep_view().pages;
    let mut list: Vec<RedactionCandidate> = Vec::new();
    assert(list.deep_view() =~= seq![]);
    for n in 0..document.pages.len()
        invariant
            pages == document.pages.deep_view(),
            list.deep_view() == all_candidates(pages, n as int),
    {
        assert(pages[n as int] == document.pages@[n as int].deep_view());
        add_page(&mut list, &document.pages[n]);
    }
    let ghost all = list.deep_view();
    if list.len() > MAX_CANDIDATES {
        list.truncate(MAX_CANDIDATES);
        assert(list.deep_view() =~= all.take(MAX_CANDIDATES as int));
    }
    list
}

// ---------------------------------------------------------------------------
// Counts
// ---------------------------------------------------------------------------

/// How many of the first `n` annotations are explicit redactions, or dark overlays, on top
/// of a count.
pub open spec fn annotation_count(
    start: usize,
    list: Seq<AnnotationSignalView>,
    explicit: bool,
    n: int,
) -> usize
    decreases n,
{
    if n <= 0 {
        start
    } else {
        let before = annotation_count(start, list, explicit, n - 1);
        if (explicit && list[n - 1].is_explicit_redaction) || (!explicit && list[n
            - 1].is_dark_overlay_candidate) {
            succ(before)
        } else {
            before
        }
    }
}

fn count_annotations(start: usize, list: &Vec<AnnotationSignal>, explicit: bool) -> (r: usize)
    ensures
        r == annotation_count(
            start,
            list.deep_view(),
            explicit,
            list.deep_view().len() as int,
        ),
{
    let mut r = start;
    for n in 0..list.len()
        invariant
            r == annotation_count(start, list.deep_view(), explicit, n as int),
    {
        assert(list.deep_view()[n as int] == list@[n as int].deep_view());
        if (explicit && list[n].is_explicit_redaction) || (!explicit
            && list[n].is_dark_overlay_candidate) {
            r = next(r);
        }
    }
    r
}

/// How many of the first `n` rectangles may be redactions, on top of a count.
pub open spec fn rectangle_count(start: usize, list: Seq<FilledRectangleSignalView>, n: int) -> usize
    decreases n,
{
    if n <= 0 {
        start
    } else {
        let before = rectangle_count(start, list, n - 1);
        if list[n - 1].possible_redaction {
            succ(before)
        } else {
            before
        }
    }
}

fn count_rectangles(start: usize, list: &Vec<FilledRectangleSignal>) -> (r: usize)
    ensures
        r == rectangle_count(start, list.deep_view(), list.deep_view().len() as int),
{
    let mut r = start;
    for n in 0..list.len()
        invariant
            r == rectangle_count(start, list.deep_view(), n as int),
    {
        assert(list.deep_view()[n as int] == list@[n as int].deep_view());
        if list[n].possible_redaction {
            r = next(r);
        }
    }
    r
}

/// The hints on the first `n` pages, in numbers. Whether they call for a look is left open.
pub open spec fn redaction_counts(pages: Seq<ExtractedPageView>, n: int) -> RedactionSummary
    decreases n,
{
    if n <= 0 {
        RedactionSummary {
            explicit_redaction_annotations: 0,
            dark_annotation_candidates: 0,
            dark_filled_rectangle_candidates: 0,
            textual_redaction_markers: 0,
            pages_with_images: 0,
            requires_visual_confirmation: false,
        }
    } else {
        let before = redaction_counts(pages, n - 1);
        let page = pages[n - 1];
        let texts = searched_lines(page);
        RedactionSummary {
            explicit_redaction_annotations: annotation_count(
                before.explicit_redaction_annotations,
                page.annotations,
                true,
                page.annotations.len() as int,
            ),
            dark_annotation_candidates: annotation_count(
                before.dark_annotation_candidates,
                page.annotations,
                false,
                page.annotations.len() as int,
            ),
            dark_filled_rectangle_candidates: rectangle_count(
                before.dark_filled_rectangle_candidates,
                page.filled_rectangles,
                page.filled_rectangles.len() as int,
            ),
            textual_redaction_markers: total(
                before.textual_redaction_markers,
                marker_keys(texts, texts.len() as int).len() as usize,
            ),
            pages_with_images: if page.image_count > 0 {
                succ(before.pages_with_images)
            } else {
                before.pages_with_images
            },
            requires_visual_confirmation: false,
        }
    }
}

/// The hints in a document, in numbers. Dark shapes and images call for a look at the page.
pub open spec fn redaction_summary_of(pages: Seq<ExtractedPageView>) -> RedactionSummary {
    let counts = redaction_counts(pages, pages.len() as int);
    RedactionSummary {
        requires_visual_confirmation: counts.dark_annotation_candidates > 0
            || counts.dark_filled_rectangle_candidates > 0 || counts.pages_with_images > 0,
        ..counts
    }
}

pub fn summarize_redaction_signals(document: &ExtractedDocument) -> (r: RedactionSummary)
    ensures
        r == redaction_summary_of(document.deep_view().pages),
{
    let ghost pages = document.deep_view().pages;
    let mut r = RedactionSummary {
        explicit_redaction_annotations: 0,
        dark_annotation_candidates: 0,
        dark_filled_rectangle_candidates: 0,
        textual_redaction_markers: 0,
        pages_with_images: 0,
        requires_visual_confirmation: false,
    };
    for n in 0..document.pages.len()
        invariant
            pages == document.pages.deep_view(),
            r == redaction_counts(pages, n as int),
    {
        let page = &document.pages[n];
        assert(pages[n as int] == page.deep_view());
        r = RedactionSummary {
            explicit_redaction_annotations: count_annotations(
                r.explicit_redaction_annotations,
                &page.annotations,
                true,
            ),
            dark_annotation_candidates: count_annotations(
                r.dark_annotation_candidates,
                &page.annotations,
                false,
            ),
            dark_filled_rectangle_candidates: count_rectangles(
                r.dark_filled_rectangle_candidates,
                &page.filled_rectangles,
            ),
            textual_redaction_markers: sum(r.textual_redaction_markers, count_markers(page)),
            pages_with_images: if page.image_count > 0 {
                next(r.pages_with_images)
            } else {
                r.pages_with_images
            },
            requires_visual_confirmation: false,
        };
    }
    RedactionSummary {
        requires_visual_confirmation: r.dark_annotation_candidates > 0
            || r.dark_filled_rectangle_candidates > 0 || r.pages_with_images > 0,
        ..r
    }
}

// ---------------------------------------------------------------------------
// Laws
// ---------------------------------------------------------------------------

/// An annotation that redacts is reported with high confidence, one that merely covers something
/// dark with medium confidence, each with its box and its page, and any other is not reported.
pub proof fn law_annotations_are_reported(
    list: Seq<RedactionCandidateView>,
    page: u32,
    annotations: Seq<AnnotationSignalView>,
    n: int,
)
    requires
        0 <= n < annotations.len(),
    ensures
        ({
            let before = with_annotations(list, page, annotations, n);
            let after = with_annotations(list, page, annotations, n + 1);
            let a = annotations[n];
            let found = after.last();
            &&& with_annotations(list, page, annotations, 0) == list
            &&& !a.is_explicit_redaction && !a.is_dark_overlay_candidate ==> after == before
            &&& a.is_explicit_redaction || a.is_dark_overlay_candidate ==> after.drop_last()
                == before && after.len() == before.len() + 1 && found.physical_page == page
                && found.rect == a.rect
            &&& a.is_explicit_redaction ==> found.kind == RedactionSignalKind::PdfRedactAnnotation
                && found.confidence == SignalConfidence::High
            &&& !a.is_explicit_redaction && a.is_dark_overlay_candidate ==> found.kind
                == RedactionSignalKind::DarkAnnotationCandidate && found.confidence
                == SignalConfidence::Medium
        }),
{
    let before = with_annotations(list, page, annotations, n);
    let after = with_annotations(list, page, annotations, n + 1);
    if annotations[n].is_explicit_redaction || annotations[n].is_dark_overlay_candidate {
        assert(after.drop_last() =~= before);
    }
}

/// A rectangle that may be a redaction is reported with low confidence, with its box and its page,
/// and any other is not reported.
pub proof fn law_rectangles_are_reported(
    list: Seq<RedactionCandidateView>,
    page: u32,
    rectangles: Seq<FilledRectangleSignalView>,
    n: int,
)
    requires
        0 <= n < rectangles.len(),
    ensures
        ({
            let before = with_rectangles(list, page, rectangles, n);
            let after = with_rectangles(list, page, rectangles, n + 1);
            let found = after.last();
            &&& with_rectangles(list, page, rectangles, 0) == list
            &&& !rectangles[n].possible_redaction ==> after == before
            &&& rectangles[n].possible_redaction ==> after.drop_last() == before && after.len()
                == before.len() + 1 && found.physical_page == page && found.rect == Some(
                rectangles[n].rect,
            ) && found.kind == RedactionSignalKind::DarkFilledRectangleCandidate
                && found.confidence == SignalConfidence::Low
        }),
{
    let before = with_rectangles(list, page, rectangles, n);
    let after = with_rectangles(list, page, rectangles, n + 1);
    if rectangles[n].possible_redaction {
        assert(after.drop_last() =~= before);
    }
}

/// Whether one of the first `n` lines mentions a redaction in the given words.
pub open spec fn worded_so(list: Seq<Seq<char>>, n: int, words: Seq<char>) -> bool {
    exists|i: int|
        0 <= i < n && mentions_redaction(#[trigger] list[i]) && uppercased(trimmed(list[i])) == words
}

proof fn lemma_marker_keys(list: Seq<Seq<char>>, n: int)
    requires
        0 <= n <= list.len(),
    ensures
        marker_keys(list, n).no_duplicates(),
        forall|words: Seq<char>|
            #[trigger] marker_keys(list, n).contains(words) <==> worded_so(list, n, words),
    decreases n,
{
    if n > 0 {
        lemma_marker_keys(list, n - 1);
        let before = marker_keys(list, n - 1);
        let after = marker_keys(list, n);
        let line = list[n - 1];
        let key = marker_key(line);
        assert forall|words: Seq<char>| #[trigger] after.contains(words) <==> worded_so(
            list,
            n,
            words,
        ) by {
            assert(before.contains(words) <==> worded_so(list, n - 1, words));
            if worded_so(list, n - 1, words) {
                let i = choose|i: int|
                    0 <= i < n - 1 && mentions_redaction(#[trigger] list[i]) && uppercased(
                        trimmed(list[i]),
                    ) == words;
                assert(mentions_redaction(list[i]));
                let k = choose|k: int| 0 <= k < before.len() && before[k] == words;
                assert(after[k] == words);
            }
            if mentions_redaction(line) && words == key {
                assert(worded_so(list, n, words));
                if !before.contains(key) {
                    assert(after[before.len() as int] == key);
                }
            }
            if after.contains(words) && !before.contains(words) {
                let k = choose|k: int| 0 <= k < after.len() && after[k] == words;
                assert(k == before.len());
            }
        }
    }
}

/// Every line of a page that mentions a redaction is counted, each wording once, in whatever case,
/// and nothing else is.
pub proof fn law_redaction_markers_are_counted(list: Seq<Seq<char>>, words: Seq<char>)
    ensures
        marker_keys(list, list.len() as int).no_duplicates(),
        marker_keys(list, list.len() as int).contains(words) <==> exists|i: int|
            0 <= i < list.len() && mentions_redaction(#[trigger] list[i]) && uppercased(
                trimmed(list[i]),
            ) == words,
{
    lemma_marker_keys(list, list.len() as int);
    assert(marker_keys(list, list.len() as int).contains(words) <==> worded_so(
        list,
        list.len() as int,
        words,
    ));
}

/// A line that mentions a redaction for the first time on its page is reported with high
/// confidence, and its words with it.
pub proof fn law_redaction_markers_are_reported(
    list: Seq<RedactionCandidateView>,
    page: u32,
    texts: Seq<Seq<char>>,
    n: int,
)
    requires
        0 <= n < texts.len(),
    ensures
        ({
            let before = with_markers(list, page, texts, n);
            let after = with_markers(list, page, texts, n + 1);
            let found = after.last();
            let again = exists|i: int|
                0 <= i < n && mentions_redaction(#[trigger] texts[i]) && uppercased(
                    trimmed(texts[i]),
                ) == uppercased(trimmed(texts[n]));
            &&& with_markers(list, page, texts, 0) == list
            &&& !mentions_redaction(texts[n]) || again ==> after == before
            &&& mentions_redaction(texts[n]) && !again ==> after.drop_last() == before
                && after.len() == before.len() + 1 && found.physical_page == page && found.kind
                == RedactionSignalKind::TextualRedactionMarker && found.confidence
                == SignalConfidence::High && (trimmed(texts[n]).len() <= 140 ==> found.note
                == "Text layer contains a redaction/sealed marker: "@ + trimmed(texts[n]))
        }),
{
    lemma_marker_keys(texts, n);
    let before = with_markers(list, page, texts, n);
    let after = with_markers(list, page, texts, n + 1);
    let keys = marker_keys(texts, n);
    let key = marker_key(texts[n]);
    assert(keys.contains(key) <==> worded_so(texts, n, key));
    if mentions_redaction(texts[n]) && !keys.contains(key) {
        assert(after.drop_last() =~= before);
    }
}

proof fn lemma_hint_counts(
    annotations: Seq<AnnotationSignalView>,
    rectangles: Seq<FilledRectangleSignalView>,
    n: int,
    m: int,
)
    requires
        0 <= n <= annotations.len() < usize::MAX,
        0 <= m <= rectangles.len() < usize::MAX,
    ensures
        annotation_count(0, annotations, true, n) == annotations.take(n).filter(
            |a: AnnotationSignalView| a.is_explicit_redaction,
        ).len(),
        annotation_count(0, annotations, false, n) == annotations.take(n).filter(
            |a: AnnotationSignalView| a.is_dark_overlay_candidate,
        ).len(),
        rectangle_count(0, rectangles, m) == rectangles.take(m).filter(
            |r: FilledRectangleSignalView| r.possible_redaction,
        ).len(),
        annotation_count(0, annotations, true, n) <= n,
        annotation_count(0, annotations, false, n) <= n,
        rectangle_count(0, rectangles, m) <= m,
    decreases n + m,
{
    lemma_filter_first(annotations, |a: AnnotationSignalView| a.is_explicit_redaction, n);
    lemma_filter_first(annotations, |a: AnnotationSignalView| a.is_dark_overlay_candidate, n);
    lemma_filter_first(rectangles, |r: FilledRectangleSignalView| r.possible_redaction, m);
    if n > 0 {
        lemma_hint_counts(annotations, rectangles, n - 1, m);
    }
    if m > 0 {
        lemma_hint_counts(annotations, rectangles, n, m - 1);
    }
}

/// On a page the annotations that redact, those that cover something dark, and the rectangles that
/// may be redactions are counted, each of them and no other.
pub proof fn law_redaction_hints_are_counted(page: ExtractedPageView)
    requires
        page.annotations.len() < usize::MAX,
        page.filled_rectangles.len() < usize::MAX,
    ensures
        ({
            let counts = redaction_summary_of(seq![page]);
            &&& counts.explicit_redaction_annotations == page.annotations.filter(
                |a: AnnotationSignalView| a.is_explicit_redaction,
            ).len()
            &&& counts.dark_annotation_candidates == page.annotations.filter(
                |a: AnnotationSignalView| a.is_dark_overlay_candidate,
            ).len()
            &&& counts.dark_filled_rectangle_candidates == page.filled_rectangles.filter(
                |r: FilledRectangleSignalView| r.possible_redaction,
            ).len()
            &&& counts.pages_with_images == if page.image_count > 0 {
                1int
            } else {
                0
            }
            &&& counts.requires_visual_confirmation <==> counts.dark_annotation_candidates > 0
                || counts.dark_filled_rectangle_candidates > 0 || page.image_count > 0
        }),
{
    reveal_with_fuel(redaction_counts, 2);
    let annotations = page.annotations;
    let rectangles = page.filled_rectangles;
    lemma_hint_counts(
        annotations,
        rectangles,
        annotations.len() as int,
        rectangles.len() as int,
    );
    assert(annotations.take(annotations.len() as int) =~= annotations);
    assert(rectangles.take(rectangles.len() as int) =~= rectangles);
}

/// A text that is too long is cut, and three dots say so; any other stays.
pub proof fn law_long_texts_are_cut(text: Seq<char>, n: nat)
    ensures
        text.len() <= n ==> shortened(text, n) == text,
        text.len() > n ==> shortened(text, n) == text.take(n as int) + "..."@,
{
}

} // verus!
