//! What is learned of a document before its lines are parsed.
use vstd::prelude::*;

use crate::document::models::{
    dialogue_section, reference_section, transcript_family_section, ExtractedDocument,
    ExtractedDocumentView, ExtractedPageView, PageSection,
};
use crate::measure::{median, middle, Measure, Ratio};
use crate::number::{next, parse_u32_option, parsed_u32, succ, sum, total};
use crate::text::{push_item, same};
use crate::transcript::conventions::{
    build_format_fingerprint, build_marker_rules, count_dialogue_pages, dialogue_page_count,
    fingerprint_of, kind_total, law_dialogue_pages_are_counted, learned_rules, marker_confidence,
    markers_confidence,
    participant_confidence, participants_confidence, pick_primary_questioner,
    pick_primary_witness, primary_questioner_of, primary_witness_of, sort_rules, sorted_rules,
};
use crate::transcript::format::{detect_transcript_page_label, transcript_label};
use crate::transcript::functions::{assign_participant_functions, assigned_participants};
use crate::transcript::gaps::{
    calculate_source_completeness, completeness, detect_gaps, gaps_of, learn_line_range,
    line_range,
};
use crate::transcript::language::{
    detect_document_type, detect_language, document_type_of, language_of, language_sample,
};
use crate::transcript::models::{
    DocumentLayoutSummary, DocumentType, FormatConfidence, MarkerKind, PageContext,
    PageContextView, TranscriptContext, TranscriptContextView,
};
use crate::transcript::people::{discover_participants, participants_of};
use crate::transcript::profile::{TranscriptProfile, TranscriptProfileView};
use crate::transcript::redactions::{
    collect_redaction_candidates, redaction_summary_of, reported_candidates,
    summarize_redaction_signals,
};

verus! {

// ---------------------------------------------------------------------------
// Pages
// ---------------------------------------------------------------------------

/// The label printed on a page, given the number of the last numbered page before it. Pages
/// that only refer to the transcript have none of their own.
pub open spec fn printed_label(page: ExtractedPageView, max: u16, previous: Option<u32>) -> Option<
    Seq<char>,
> {
    if reference_section(page.section) {
        None
    } else {
        transcript_label(page, max, previous)
    }
}

/// The number of the last numbered page among the first `n`.
pub open spec fn previous_number(pages: Seq<ExtractedPageView>, max: u16, n: int) -> Option<u32>
    decreases n,
{
    if n <= 0 {
        None
    } else {
        let before = previous_number(pages, max, n - 1);
        let page = pages[n - 1];
        let label = printed_label(page, max, before);
        if (transcript_family_section(page.section) || page.section == PageSection::Unknown)
            && label is Some && parsed_u32(label->0) is Some {
            parsed_u32(label->0)
        } else {
            before
        }
    }
}

/// What is known of the first `n` pages.
pub open spec fn page_contexts_of(pages: Seq<ExtractedPageView>, max: u16, n: int) -> Seq<
    PageContextView,
>
    decreases n,
{
    if n <= 0 {
        seq![]
    } else {
        let page = pages[n - 1];
        page_contexts_of(pages, max, n - 1).push(
            PageContextView {
                physical_page: page.physical_page,
                transcript_page: printed_label(page, max, previous_number(pages, max, n - 1)),
                section: page.section,
                section_confidence: page.section_confidence,
                layout_reconstruction_confidence: page.layout.reconstruction_confidence,
                requires_ocr: page.layout.requires_ocr,
            },
        )
    }
}

pub fn build_page_contexts(document: &ExtractedDocument, profile: &TranscriptProfile) -> (r: Vec<
    PageContext,
>)
    ensures
        r.deep_view() == page_contexts_of(
            document.deep_view().pages,
            profile.deep_view().max_line_number,
            document.deep_view().pages.len() as int,
        ),
{
    let ghost pages = document.deep_view().pages;
    let ghost max = profile.deep_view().max_line_number;
    let mut previous: Option<u32> = None;
    let mut contexts: Vec<PageContext> = Vec::new();
    assert(contexts.deep_view() =~= seq![]);
    for n in 0..document.pages.len()
        invariant
            pages == document.pages.deep_view(),
            max == profile.deep_view().max_line_number,
            previous == previous_number(pages, max, n as int),
            contexts.deep_view() == page_contexts_of(pages, max, n as int),
    {
        let page = &document.pages[n];
        assert(pages[n as int] == page.deep_view());
        let label = if page.section.is_reference_only() {
            None
        } else {
            detect_transcript_page_label(page, profile, previous)
        };
        if page.section.is_transcript_family() || page.section == PageSection::Unknown {
            let number = parse_u32_option(&label);
            if number.is_some() {
                previous = number;
            }
        }
        push_item(
            &mut contexts,
            PageContext {
                physical_page: page.physical_page,
                transcript_page: label,
                section: page.section,
                section_confidence: page.section_confidence,
                layout_reconstruction_confidence: page.layout.reconstruction_confidence,
                requires_ocr: page.layout.requires_ocr,
            },
        );
    }
    contexts
}

/// Every page of a document has one context, in the order of the pages, which repeats what
/// the page says of itself, and pages that only refer to the transcript have no label.
pub proof fn law_contexts_follow_pages(pages: Seq<ExtractedPageView>, max: u16, i: int)
    requires
        0 <= i < pages.len(),
    ensures
        ({
            let contexts = page_contexts_of(pages, max, pages.len() as int);
            &&& contexts.len() == pages.len()
            &&& contexts[i].physical_page == pages[i].physical_page
            &&& contexts[i].section == pages[i].section
            &&& contexts[i].requires_ocr == pages[i].layout.requires_ocr
            &&& reference_section(pages[i].section) ==> contexts[i].transcript_page is None
        }),
{
    lemma_contexts(pages, max, pages.len() as int, i);
}

proof fn lemma_contexts(pages: Seq<ExtractedPageView>, max: u16, n: int, i: int)
    requires
        0 <= i < n <= pages.len(),
    ensures
        page_contexts_of(pages, max, n).len() == n,
        page_contexts_of(pages, max, n)[i] == (PageContextView {
            physical_page: pages[i].physical_page,
            transcript_page: printed_label(pages[i], max, previous_number(pages, max, i)),
            section: pages[i].section,
            section_confidence: pages[i].section_confidence,
            layout_reconstruction_confidence: pages[i].layout.reconstruction_confidence,
            requires_ocr: pages[i].layout.requires_ocr,
        }),
    decreases n,
{
    if n > 1 {
        if i < n - 1 {
            lemma_contexts(pages, max, n - 1, i);
        } else {
            lemma_contexts(pages, max, n - 1, 0);
        }
    } else {
        reveal_with_fuel(page_contexts_of, 2);
    }
}

// ---------------------------------------------------------------------------
// Layout
// ---------------------------------------------------------------------------

/// A count that goes up by one if `more`.
pub open spec fn counted(n: usize, more: bool) -> usize {
    if more {
        succ(n)
    } else {
        n
    }
}

fn count_one(n: usize, more: bool) -> (r: usize)
    ensures
        r == counted(n, more),
{
    if more {
        next(n)
    } else {
        n
    }
}

/// How many of the first `n` pages there are of each kind. The column of line numbers is
/// left open.
pub open spec fn layout_counts(pages: Seq<ExtractedPageView>, n: int) -> DocumentLayoutSummary
    decreases n,
{
    if n <= 0 {
        DocumentLayoutSummary {
            positioned_text_pages: 0,
            positioned_reconstructed_pages: 0,
            transcript_pages: 0,
            cover_pages: 0,
            caption_pages: 0,
            appearances_pages: 0,
            word_index_pages: 0,
            exhibit_index_pages: 0,
            certificate_pages: 0,
            errata_pages: 0,
            appendix_pages: 0,
            attachment_pages: 0,
            unknown_pages: 0,
            reference_only_pages: 0,
            ocr_required_pages: 0,
            masked_redaction_fragments: 0,
            likely_line_number_column_x: None,
        }
    } else {
        let s = layout_counts(pages, n - 1);
        let layout = pages[n - 1].layout;
        let section = pages[n - 1].section;
        DocumentLayoutSummary {
            positioned_text_pages: counted(
                s.positioned_text_pages,
                layout.positioned_text_available,
            ),
            positioned_reconstructed_pages: counted(
                s.positioned_reconstructed_pages,
                layout.used_positioned_reconstruction,
            ),
            transcript_pages: counted(s.transcript_pages, section == PageSection::Transcript),
            cover_pages: counted(s.cover_pages, section == PageSection::Cover),
            caption_pages: counted(s.caption_pages, section == PageSection::Caption),
            appearances_pages: counted(s.appearances_pages, section == PageSection::Appearances),
            word_index_pages: counted(s.word_index_pages, section == PageSection::WordIndex),
            exhibit_index_pages: counted(
                s.exhibit_index_pages,
                section == PageSection::ExhibitIndex,
            ),
            certificate_pages: counted(s.certificate_pages, section == PageSection::Certificate),
            errata_pages: counted(s.errata_pages, section == PageSection::Errata),
            appendix_pages: counted(s.appendix_pages, section == PageSection::Appendix),
            attachment_pages: counted(s.attachment_pages, section == PageSection::Attachment),
            unknown_pages: counted(s.unknown_pages, section == PageSection::Unknown),
            reference_only_pages: counted(s.reference_only_pages, reference_section(section)),
            ocr_required_pages: counted(s.ocr_required_pages, layout.requires_ocr),
            masked_redaction_fragments: total(
                s.masked_redaction_fragments,
                layout.masked_redaction_fragments,
            ),
            likely_line_number_column_x: None,
        }
    }
}

/// Where the columns of line numbers stand on the dialogue pages among the first `n`.
pub open spec fn number_columns(pages: Seq<ExtractedPageView>, n: int) -> Seq<Measure>
    decreases n,
{
    if n <= 0 {
        seq![]
    } else {
        let before = number_columns(pages, n - 1);
        match pages[n - 1].layout.likely_line_number_column_x {
            Some(x) if dialogue_section(pages[n - 1].section) => before.push(x),
            _ => before,
        }
    }
}

/// How many pages there are of each kind, and where line numbers typically stand.
pub open spec fn layout_summary_of(pages: Seq<ExtractedPageView>) -> DocumentLayoutSummary {
    DocumentLayoutSummary {
        likely_line_number_column_x: median(number_columns(pages, pages.len() as int)),
        ..layout_counts(pages, pages.len() as int)
    }
}

pub fn summarize_layout(document: &ExtractedDocument) -> (r: DocumentLayoutSummary)
    ensures
        r == layout_summary_of(document.deep_view().pages),
{
    let ghost pages = document.deep_view().pages;
    let mut s = DocumentLayoutSummary {
        positioned_text_pages: 0,
        positioned_reconstructed_pages: 0,
        transcript_pages: 0,
        cover_pages: 0,
        caption_pages: 0,
        appearances_pages: 0,
        word_index_pages: 0,
        exhibit_index_pages: 0,
        certificate_pages: 0,
        errata_pages: 0,
        appendix_pages: 0,
        attachment_pages: 0,
        unknown_pages: 0,
        reference_only_pages: 0,
        ocr_required_pages: 0,
        masked_redaction_fragments: 0,
        likely_line_number_column_x: None,
    };
    let mut columns: Vec<Measure> = Vec::new();
    for n in 0..document.pages.len()
        invariant
            pages == document.pages.deep_view(),
            s == layout_counts(pages, n as int),
            columns@ == number_columns(pages, n as int),
    {
        let page = &document.pages[n];
        assert(pages[n as int] == page.deep_view());
        let layout = &page.layout;
        let section = page.section;
        s = DocumentLayoutSummary {
            positioned_text_pages: count_one(
                s.positioned_text_pages,
                layout.positioned_text_available,
            ),
            positioned_reconstructed_pages: count_one(
                s.positioned_reconstructed_pages,
                layout.used_positioned_reconstruction,
            ),
            transcript_pages: count_one(s.transcript_pages, section == PageSection::Transcript),
            cover_pages: count_one(s.cover_pages, section == PageSection::Cover),
            caption_pages: count_one(s.caption_pages, section == PageSection::Caption),
            appearances_pages: count_one(s.appearances_pages, section == PageSection::Appearances),
            word_index_pages: count_one(s.word_index_pages, section == PageSection::WordIndex),
            exhibit_index_pages: count_one(
                s.exhibit_index_pages,
                section == PageSection::ExhibitIndex,
            ),
            certificate_pages: count_one(s.certificate_pages, section == PageSection::Certificate),
            errata_pages: count_one(s.errata_pages, section == PageSection::Errata),
            appendix_pages: count_one(s.appendix_pages, section == PageSection::Appendix),
            attachment_pages: count_one(s.attachment_pages, section == PageSection::Attachment),
            unknown_pages: count_one(s.unknown_pages, section == PageSection::Unknown),
            reference_only_pages: count_one(s.reference_only_pages, section.is_reference_only()),
            ocr_required_pages: count_one(s.ocr_required_pages, layout.requires_ocr),
            masked_redaction_fragments: sum(
                s.masked_redaction_fragments,
                layout.masked_redaction_fragments,
            ),
            likely_line_number_column_x: None,
        };
        match layout.likely_line_number_column_x {
            Some(x) => {
                if section.is_dialogue() {
                    columns.push(x);
                }
            },
            None => {},
        }
    }
    DocumentLayoutSummary { likely_line_number_column_x: middle(&columns), ..s }
}

// ---------------------------------------------------------------------------
// Everything together
// ---------------------------------------------------------------------------

/// The part of the dialogue pages that have a printed label.
pub open spec fn labelled_part(contexts: Seq<PageContextView>) -> Ratio {
    let all = dialogue_page_count(contexts, false, contexts.len() as int);
    if all == 0 {
        Ratio { part: 0, whole: 1 }
    } else {
        Ratio {
            part: dialogue_page_count(contexts, true, contexts.len() as int) as usize,
            whole: all as usize,
        }
    }
}

/// What is known of a document before its lines are parsed.
pub open spec fn context_of(
    document: ExtractedDocumentView,
    profile: TranscriptProfileView,
) -> TranscriptContextView {
    let pages = document.pages;
    let max = profile.max_line_number;
    let contexts = page_contexts_of(pages, max, pages.len() as int);
    let learned = learned_rules(
        pages,
        max,
        profile.word_question_markers,
        profile.word_answer_markers,
    );
    let rules = sorted_rules(learned, learned.len() as int);
    let found = participants_of(pages, contexts, max);
    let document_type = document_type_of(pages, rules, found);
    let participants = assigned_participants(pages, document_type, found);
    let language = language_of(language_sample(pages));
    let (line_min, line_max) = line_range(pages, contexts, max);
    let fingerprint = fingerprint_of(pages, contexts, rules, line_min, line_max);
    let layout_summary = layout_summary_of(pages);
    let redaction_summary = redaction_summary_of(pages);
    TranscriptContextView {
        document_type,
        profile_name: profile.name,
        metadata: document.metadata,
        language,
        participants,
        primary_questioner: primary_questioner_of(participants),
        primary_witness: primary_witness_of(participants, rules),
        marker_rules: rules,
        format_fingerprint: fingerprint,
        layout_summary,
        typical_line_min: line_min,
        typical_line_max: line_max,
        page_contexts: contexts,
        gaps: gaps_of(pages, contexts, max),
        redaction_summary,
        redaction_candidates: reported_candidates(pages),
        ai_router_signals: language.code == "und"@ || document_type == DocumentType::Unknown
            || layout_summary.ocr_required_pages > 0 || layout_summary.unknown_pages > 3
            || redaction_summary.requires_visual_confirmation,
        format_confidence: FormatConfidence {
            participants: participants_confidence(participants, rules),
            pages: labelled_part(contexts),
            markers: markers_confidence(
                kind_total(rules, MarkerKind::Question),
                kind_total(rules, MarkerKind::Answer),
                fingerprint.speaker_prefixed_dialogue,
            ),
        },
        source_completeness: completeness(pages, contexts, max, line_min, line_max),
    }
}

pub fn preflight_transcript(document: &ExtractedDocument, profile: &TranscriptProfile) -> (r:
    TranscriptContext)
    ensures
        r.deep_view() == context_of(document.deep_view(), profile.deep_view()),
{
    let page_contexts = build_page_contexts(document, profile);
    let layout_summary = summarize_layout(document);
    let marker_rules = sort_rules(build_marker_rules(document, profile));
    let mut participants = discover_participants(document, profile, &page_contexts);
    let language = detect_language(document);
    let document_type = detect_document_type(document, &marker_rules, &participants);
    assign_participant_functions(document, document_type, &mut participants);
    let primary_questioner = pick_primary_questioner(&participants);
    let primary_witness = pick_primary_witness(&participants, &marker_rules);
    let (typical_line_min, typical_line_max) = learn_line_range(document, profile, &page_contexts);
    let gaps = detect_gaps(document, profile, &page_contexts);
    let redaction_summary = summarize_redaction_signals(document);
    let redaction_candidates = collect_redaction_candidates(document);
    let format_fingerprint = build_format_fingerprint(
        document,
        &page_contexts,
        &marker_rules,
        typical_line_min,
        typical_line_max,
    );
    let dialogue_pages = count_dialogue_pages(&page_contexts, false);
    let pages = if dialogue_pages == 0 {
        Ratio { part: 0, whole: 1 }
    } else {
        Ratio { part: count_dialogue_pages(&page_contexts, true), whole: dialogue_pages }
    };
    let format_confidence = FormatConfidence {
        participants: participant_confidence(&participants, &marker_rules),
        pages,
        markers: marker_confidence(&marker_rules, &format_fingerprint),
    };
    let source_completeness = calculate_source_completeness(
        document,
        profile,
        &page_contexts,
        typical_line_min,
        typical_line_max,
    );
    let ai_router_signals = same(language.code.as_str(), "und") || document_type
        == DocumentType::Unknown || layout_summary.ocr_required_pages > 0
        || layout_summary.unknown_pages > 3 || redaction_summary.requires_visual_confirmation;
    TranscriptContext {
        document_type,
        profile_name: profile.name.to_owned(),
        metadata: document.metadata.clone(),
        language,
        participants,
        primary_questioner,
        primary_witness,
        marker_rules,
        format_fingerprint,
        layout_summary,
        typical_line_min,
        typical_line_max,
        page_contexts,
        gaps,
        redaction_summary,
        redaction_candidates,
        ai_router_signals,
        format_confidence,
        source_completeness,
    }
}

// ---------------------------------------------------------------------------
// Laws of the summary
// ---------------------------------------------------------------------------

/// A page has the label printed on it unless it only refers to the transcript, and the number that
/// the next page follows is that of the last numbered page of the transcript, or unknown page.
pub proof fn law_pages_are_labelled(pages: Seq<ExtractedPageView>, max: u16, n: int)
    requires
        0 <= n < pages.len(),
    ensures
        ({
            let page = pages[n];
            let before = previous_number(pages, max, n);
            let label = printed_label(page, max, before);
            let counts = (transcript_family_section(page.section) || page.section
                == PageSection::Unknown) && label is Some && parsed_u32(label->0) is Some;
            &&& previous_number(pages, max, 0) is None
            &&& reference_section(page.section) ==> label is None
            &&& !reference_section(page.section) ==> label == transcript_label(page, max, before)
            &&& counts ==> previous_number(pages, max, n + 1) == parsed_u32(label->0)
            &&& !counts ==> previous_number(pages, max, n + 1) == before
        }),
{
}

/// Each page is known by its number, label, section and how it was recovered, in its place.
pub proof fn law_pages_are_known(pages: Seq<ExtractedPageView>, max: u16, n: int)
    requires
        0 <= n < pages.len(),
    ensures
        ({
            let before = page_contexts_of(pages, max, n);
            let after = page_contexts_of(pages, max, n + 1);
            let c = after.last();
            let page = pages[n];
            &&& page_contexts_of(pages, max, 0).len() == 0
            &&& after.len() == before.len() + 1 && after.drop_last() == before
            &&& c.physical_page == page.physical_page
            &&& c.transcript_page == printed_label(page, max, previous_number(pages, max, n))
            &&& c.section == page.section && c.section_confidence == page.section_confidence
            &&& c.layout_reconstruction_confidence == page.layout.reconstruction_confidence
            &&& c.requires_ocr == page.layout.requires_ocr
        }),
{
    assert(page_contexts_of(pages, max, n + 1).drop_last() =~= page_contexts_of(pages, max, n));
}

/// A page counts for its section and for no other, and for how it was recovered.
pub proof fn law_pages_are_counted_by_kind(pages: Seq<ExtractedPageView>, n: int)
    requires
        0 <= n < pages.len(),
        n < usize::MAX,
        layout_counts(pages, n).transcript_pages < usize::MAX,
        layout_counts(pages, n).cover_pages < usize::MAX,
        layout_counts(pages, n).caption_pages < usize::MAX,
        layout_counts(pages, n).appearances_pages < usize::MAX,
        layout_counts(pages, n).word_index_pages < usize::MAX,
        layout_counts(pages, n).exhibit_index_pages < usize::MAX,
        layout_counts(pages, n).certificate_pages < usize::MAX,
        layout_counts(pages, n).errata_pages < usize::MAX,
        layout_counts(pages, n).appendix_pages < usize::MAX,
        layout_counts(pages, n).attachment_pages < usize::MAX,
        layout_counts(pages, n).unknown_pages < usize::MAX,
        layout_counts(pages, n).reference_only_pages < usize::MAX,
        layout_counts(pages, n).positioned_text_pages < usize::MAX,
        layout_counts(pages, n).positioned_reconstructed_pages < usize::MAX,
        layout_counts(pages, n).ocr_required_pages < usize::MAX,
    ensures
        ({
            let before = layout_counts(pages, n);
            let after = layout_counts(pages, n + 1);
            let section = pages[n].section;
            let layout = pages[n].layout;
            let one = |b: bool|
                if b {
                    1int
                } else {
                    0int
                };
            &&& after.transcript_pages == before.transcript_pages + one(
                section == PageSection::Transcript,
            )
            &&& after.cover_pages == before.cover_pages + one(section == PageSection::Cover)
            &&& after.caption_pages == before.caption_pages + one(section == PageSection::Caption)
            &&& after.appearances_pages == before.appearances_pages + one(
                section == PageSection::Appearances,
            )
            &&& after.word_index_pages == before.word_index_pages + one(
                section == PageSection::WordIndex,
            )
            &&& after.exhibit_index_pages == before.exhibit_index_pages + one(
                section == PageSection::ExhibitIndex,
            )
            &&& after.certificate_pages == before.certificate_pages + one(
                section == PageSection::Certificate,
            )
            &&& after.errata_pages == before.errata_pages + one(section == PageSection::Errata)
            &&& after.appendix_pages == before.appendix_pages + one(
                section == PageSection::Appendix,
            )
            &&& after.attachment_pages == before.attachment_pages + one(
                section == PageSection::Attachment,
            )
            &&& after.unknown_pages == before.unknown_pages + one(section == PageSection::Unknown)
            &&& after.reference_only_pages == before.reference_only_pages + one(
                reference_section(section),
            )
            &&& after.positioned_text_pages == before.positioned_text_pages + one(
                layout.positioned_text_available,
            )
            &&& after.positioned_reconstructed_pages == before.positioned_reconstructed_pages + one(
                layout.used_positioned_reconstruction,
            )
            &&& after.ocr_required_pages == before.ocr_required_pages + one(layout.requires_ocr)
            &&& before.masked_redaction_fragments + layout.masked_redaction_fragments <= usize::MAX
                ==> after.masked_redaction_fragments == before.masked_redaction_fragments
                + layout.masked_redaction_fragments
            &&& layout_counts(pages, 0).transcript_pages == 0
        }),
{
}

/// The column of line numbers of a document is the middle of those of its pages of dialogue.
pub proof fn law_columns_are_of_dialogue(pages: Seq<ExtractedPageView>, n: int)
    requires
        0 <= n < pages.len(),
    ensures
        ({
            let x = pages[n].layout.likely_line_number_column_x;
            let counts = x is Some && dialogue_section(pages[n].section);
            &&& number_columns(pages, 0).len() == 0
            &&& counts ==> number_columns(pages, n + 1) == number_columns(pages, n).push(x->0)
            &&& !counts ==> number_columns(pages, n + 1) == number_columns(pages, n)
            &&& layout_summary_of(pages).likely_line_number_column_x == median(
                number_columns(pages, pages.len() as int),
            )
        }),
{
}

/// The share of pages with a label is of the pages of dialogue.
pub proof fn law_labelled_pages_are_a_share(contexts: Seq<PageContextView>)
    requires
        contexts.len() <= usize::MAX,
    ensures
        ({
            let all = contexts.filter(|c: PageContextView| dialogue_section(c.section)).len();
            let labelled = contexts.filter(
                |c: PageContextView| dialogue_section(c.section) && c.transcript_page is Some,
            ).len();
            &&& all == 0 ==> labelled_part(contexts).part == 0 && labelled_part(contexts).whole == 1
            &&& all > 0 ==> labelled_part(contexts).part == labelled && labelled_part(
                contexts,
            ).whole == all
        }),
{
    law_dialogue_pages_are_counted(contexts);
    contexts.lemma_filter_len(|c: PageContextView| dialogue_section(c.section));
    contexts.lemma_filter_len(
        |c: PageContextView| dialogue_section(c.section) && c.transcript_page is Some,
    );
}

/// What is known of a document beforehand is of one piece: all of it of the same pages, labels,
/// rules and participants.
pub proof fn law_contexts_hold_together(
    document: ExtractedDocumentView,
    profile: TranscriptProfileView,
)
    ensures
        ({
            let c = context_of(document, profile);
            let pages = document.pages;
            let max = profile.max_line_number;
            let found = participants_of(pages, c.page_contexts, max);
            &&& c.profile_name == profile.name && c.metadata == document.metadata
            &&& c.page_contexts == page_contexts_of(pages, max, pages.len() as int)
            &&& c.document_type == document_type_of(pages, c.marker_rules, found)
            &&& c.participants == assigned_participants(pages, c.document_type, found)
            &&& c.primary_questioner == primary_questioner_of(c.participants)
            &&& c.primary_witness == primary_witness_of(c.participants, c.marker_rules)
            &&& c.language == language_of(language_sample(pages))
            &&& c.format_fingerprint == fingerprint_of(
                pages,
                c.page_contexts,
                c.marker_rules,
                c.typical_line_min,
                c.typical_line_max,
            )
            &&& (c.typical_line_min, c.typical_line_max) == line_range(pages, c.page_contexts, max)
            &&& c.gaps == gaps_of(pages, c.page_contexts, max)
            &&& c.redaction_summary == redaction_summary_of(pages)
            &&& c.layout_summary == layout_summary_of(pages)
            &&& c.ai_router_signals <==> c.language.code == "und"@ || c.document_type
                == DocumentType::Unknown || c.layout_summary.ocr_required_pages > 0
                || c.layout_summary.unknown_pages > 3
                || c.redaction_summary.requires_visual_confirmation
            &&& c.source_completeness == completeness(
                pages,
                c.page_contexts,
                max,
                c.typical_line_min,
                c.typical_line_max,
            )
        }),
{
}

} // verus!
