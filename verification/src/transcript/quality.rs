//! Structural checks: whether what was made of a document accounts for its source. They are
//! gates, and say nothing of the truth of what was said.
use vstd::prelude::*;

use crate::document::models::{
    ExtractedDocument, ExtractedDocumentView, ExtractedPage, ExtractedPageView,
};
use crate::lookup::{distinct, occurrences, Lookup};
use crate::measure::MEASURE_0_85;
use crate::number::{sum, total};
use crate::scan::{blank, is_blank, trimmed};
use crate::text::{lemma_filter_first, push_item, same};
use crate::transcript::blocks::owned_rows;
use crate::transcript::models::{
    participant_with_id, GapKind, LineKind, ParticipantView, TranscriptBlock, TranscriptBlockView,
    TranscriptContext, TranscriptContextView, TranscriptGap, TranscriptGapView, TranscriptLine,
    TranscriptLineView, VerificationIssue, VerificationIssueView, VerificationStatus,
};
use crate::transcript::omni::{ids_of_rows, is_procedural, lookup_owned, procedural, row_ids};
use crate::transcript::omni_models::{
    CanonicalRow, CanonicalRowView, RowDisposition, TranscriptIr, TranscriptIrView,
};
use crate::transcript::source::{page_rows, rows_of_page};

verus! {

/// Something to look at before the transcript is used.
#[derive(Debug)]
pub struct QualityIssue {
    pub code: String,
    pub physical_page: Option<u32>,
    pub row_id: Option<String>,
    pub message: String,
}

/// The contents of a [`QualityIssue`].
#[verifier::ext_equal]
pub struct QualityIssueView {
    pub code: Seq<char>,
    pub physical_page: Option<u32>,
    pub row_id: Option<Seq<char>>,
    pub message: Seq<char>,
}

impl DeepView for QualityIssue {
    type V = QualityIssueView;

    open spec fn deep_view(&self) -> QualityIssueView {
        QualityIssueView {
            code: self.code@,
            physical_page: self.physical_page,
            row_id: self.row_id.deep_view(),
            message: self.message@,
        }
    }
}

/// Whether a transcript is fit for use, and why not.
#[derive(Debug)]
pub struct QualityReport {
    pub status: String,
    pub ready_for_ai: bool,
    pub source_rows: usize,
    pub accounted_source_rows: usize,
    pub dialogue_rows: usize,
    pub assigned_dialogue_rows: usize,
    pub unknown_speaker_rows: usize,
    /// In hundredths.
    pub confidence_ceiling: u8,
    pub issues: Vec<QualityIssue>,
    pub meaning: String,
}

/// The contents of a [`QualityReport`].
#[verifier::ext_equal]
pub struct QualityReportView {
    pub status: Seq<char>,
    pub ready_for_ai: bool,
    pub source_rows: usize,
    pub accounted_source_rows: usize,
    pub dialogue_rows: usize,
    pub assigned_dialogue_rows: usize,
    pub unknown_speaker_rows: usize,
    pub confidence_ceiling: u8,
    pub issues: Seq<QualityIssueView>,
    pub meaning: Seq<char>,
}

impl DeepView for QualityReport {
    type V = QualityReportView;

    open spec fn deep_view(&self) -> QualityReportView {
        QualityReportView {
            status: self.status@,
            ready_for_ai: self.ready_for_ai,
            source_rows: self.source_rows,
            accounted_source_rows: self.accounted_source_rows,
            dialogue_rows: self.dialogue_rows,
            assigned_dialogue_rows: self.assigned_dialogue_rows,
            unknown_speaker_rows: self.unknown_speaker_rows,
            confidence_ceiling: self.confidence_ceiling,
            issues: self.issues.deep_view(),
            meaning: self.meaning@,
        }
    }
}

/// An issue.
pub open spec fn quality_issue(
    code: Seq<char>,
    page: Option<u32>,
    row: Option<Seq<char>>,
    message: Seq<char>,
) -> QualityIssueView {
    QualityIssueView { code, physical_page: page, row_id: row, message }
}

/// Issues with one more where a condition holds.
pub open spec fn with_issue(
    issues: Seq<QualityIssueView>,
    condition: bool,
    issue: QualityIssueView,
) -> Seq<QualityIssueView> {
    if condition {
        issues.push(issue)
    } else {
        issues
    }
}

fn add_issue(
    issues: &mut Vec<QualityIssue>,
    condition: bool,
    code: &str,
    page: Option<u32>,
    row: Option<&String>,
    message: &str,
)
    ensures
        final(issues).deep_view() == with_issue(
            old(issues).deep_view(),
            condition,
            quality_issue(code@, page, row.deep_view(), message@),
        ),
{
    if condition {
        let row_id = match row {
            Some(id) => Some(id.clone()),
            None => None,
        };
        push_item(
            issues,
            QualityIssue {
                code: code.to_owned(),
                physical_page: page,
                row_id,
                message: message.to_owned(),
            },
        );
    }
}

// ---------------------------------------------------------------------------
// The inventory
// ---------------------------------------------------------------------------

/// How many rows the first `n` pages hold.
pub open spec fn expected_rows(pages: Seq<ExtractedPageView>, n: int) -> usize
    decreases n,
{
    if n <= 0 {
        0
    } else {
        total(expected_rows(pages, n - 1), page_rows(pages[n - 1]).len() as usize)
    }
}

fn count_expected(pages: &Vec<ExtractedPage>) -> (r: usize)
    ensures
        r == expected_rows(pages.deep_view(), pages.deep_view().len() as int),
{
    let mut r: usize = 0;
    for n in 0..pages.len()
        invariant
            r == expected_rows(pages.deep_view(), n as int),
    {
        assert(pages.deep_view()[n as int] == pages@[n as int].deep_view());
        r = sum(r, rows_of_page(&pages[n]).len());
    }
    r
}

/// The issues with the inventory as a whole.
pub open spec fn inventory_issues(expected: usize, different: nat, listed: nat) -> Seq<
    QualityIssueView,
> {
    with_issue(
        seq![],
        different != expected || different != listed,
        quality_issue(
            "source_inventory_mismatch"@,
            None,
            None,
            "Extracted source rows and canonical inventory disagree."@,
        ),
    )
}

/// Issues with those of a row added. `owned` lists the rows that blocks own.
pub open spec fn with_row_issues(
    issues: Seq<QualityIssueView>,
    row: CanonicalRowView,
    owned: Seq<Seq<char>>,
) -> Seq<QualityIssueView> {
    let page = Some(row.physical_page);
    let id = Some(row.id);
    let ownership = with_issue(
        issues,
        row.disposition == RowDisposition::Dialogue && occurrences(
            owned,
            row.id,
            owned.len() as int,
        ) != 1,
        quality_issue(
            "dialogue_row_ownership"@,
            page,
            id,
            "Dialogue row must belong to exactly one block."@,
        ),
    );
    let classified = with_issue(
        ownership,
        row.disposition == RowDisposition::Unclassified,
        quality_issue(
            "unclassified_source_row"@,
            page,
            id,
            "Source preserved, but section/dialogue status needs review."@,
        ),
    );
    with_issue(
        classified,
        row.ocr_confidence matches Some(c) && c < MEASURE_0_85,
        quality_issue(
            "low_ocr_confidence"@,
            page,
            id,
            "Low OCR score: compare the text to the page image."@,
        ),
    )
}

fn add_row_issues(issues: &mut Vec<QualityIssue>, row: &CanonicalRow, owned: &Lookup)
    requires
        owned.wf(),
    ensures
        final(issues).deep_view() == with_row_issues(
            old(issues).deep_view(),
            row.deep_view(),
            owned.ids(),
        ),
{
    let page = Some(row.physical_page);
    let orphan = row.disposition == RowDisposition::Dialogue && owned.count(row.id.as_str()) != 1;
    add_issue(
        issues,
        orphan,
        "dialogue_row_ownership",
        page,
        Some(&row.id),
        "Dialogue row must belong to exactly one block.",
    );
    add_issue(
        issues,
        row.disposition == RowDisposition::Unclassified,
        "unclassified_source_row",
        page,
        Some(&row.id),
        "Source preserved, but section/dialogue status needs review.",
    );
    let faint = match row.ocr_confidence {
        Some(c) => c < MEASURE_0_85,
        None => false,
    };
    add_issue(
        issues,
        faint,
        "low_ocr_confidence",
        page,
        Some(&row.id),
        "Low OCR score: compare the text to the page image.",
    );
}

/// Issues with those of the first `n` rows added.
pub open spec fn with_rows_issues(
    issues: Seq<QualityIssueView>,
    rows: Seq<CanonicalRowView>,
    owned: Seq<Seq<char>>,
    n: int,
) -> Seq<QualityIssueView>
    decreases n,
{
    if n <= 0 {
        issues
    } else {
        with_row_issues(with_rows_issues(issues, rows, owned, n - 1), rows[n - 1], owned)
    }
}

// ---------------------------------------------------------------------------
// Pages
// ---------------------------------------------------------------------------

/// Issues with the first `n` warnings of a page added.
pub open spec fn with_warnings(
    issues: Seq<QualityIssueView>,
    page: u32,
    warnings: Seq<Seq<char>>,
    n: int,
) -> Seq<QualityIssueView>
    decreases n,
{
    if n <= 0 {
        issues
    } else {
        with_warnings(issues, page, warnings, n - 1).push(
            quality_issue("extraction_warning"@, Some(page), None, warnings[n - 1]),
        )
    }
}

/// Issues with those of a page added.
pub open spec fn with_page_issues(issues: Seq<QualityIssueView>, page: ExtractedPageView) -> Seq<
    QualityIssueView,
> {
    let number = Some(page.physical_page);
    let unread = with_issue(
        issues,
        page.layout.requires_ocr,
        quality_issue(
            "ocr_required"@,
            number,
            None,
            "Native extraction is incomplete and OCR did not produce a usable result."@,
        ),
    );
    let recognized = with_issue(
        unread,
        page.layout.ocr_performed,
        quality_issue(
            "ocr_review_required"@,
            number,
            None,
            "OCR text must be reviewed before use in analysis."@,
        ),
    );
    let empty = with_issue(
        recognized,
        blank(page.text),
        quality_issue(
            "empty_page"@,
            number,
            None,
            "No text recovered; confirm whether the physical page is blank."@,
        ),
    );
    let fallback = with_issue(
        empty,
        page.layout.extraction_engine == "lopdf_fallback"@,
        quality_issue(
            "fallback_extraction"@,
            number,
            None,
            "Estimated fallback geometry is not sufficient to certify extraction completeness."@,
        ),
    );
    let ordered = with_issue(
        fallback,
        page.layout.reading_order_uncertain || page.layout.column_count > 1,
        quality_issue(
            "reading_order_review"@,
            number,
            None,
            "Verify pane/rotation reading order and printed page references."@,
        ),
    );
    with_warnings(
        ordered,
        page.physical_page,
        page.layout.warnings,
        page.layout.warnings.len() as int,
    )
}

fn add_page_issues(issues: &mut Vec<QualityIssue>, page: &ExtractedPage)
    ensures
        final(issues).deep_view() == with_page_issues(old(issues).deep_view(), page.deep_view()),
{
    let number = Some(page.physical_page);
    add_issue(
        issues,
        page.layout.requires_ocr,
        "ocr_required",
        number,
        None,
        "Native extraction is incomplete and OCR did not produce a usable result.",
    );
    add_issue(
        issues,
        page.layout.ocr_performed,
        "ocr_review_required",
        number,
        None,
        "OCR text must be reviewed before use in analysis.",
    );
    add_issue(
        issues,
        is_blank(page.text.as_str()),
        "empty_page",
        number,
        None,
        "No text recovered; confirm whether the physical page is blank.",
    );
    add_issue(
        issues,
        same(page.layout.extraction_engine.as_str(), "lopdf_fallback"),
        "fallback_extraction",
        number,
        None,
        "Estimated fallback geometry is not sufficient to certify extraction completeness.",
    );
    add_issue(
        issues,
        page.layout.reading_order_uncertain || page.layout.column_count > 1,
        "reading_order_review",
        number,
        None,
        "Verify pane/rotation reading order and printed page references.",
    );
    let ghost before = issues.deep_view();
    let warnings = &page.layout.warnings;
    let ghost view = page.deep_view().layout.warnings;
    for n in 0..warnings.len()
        invariant
            view == warnings.deep_view(),
            number == Some(page.physical_page),
            issues.deep_view() == with_warnings(before, page.physical_page, view, n as int),
    {
        assert(view[n as int] == warnings@[n as int]@);
        add_issue(issues, true, "extraction_warning", number, None, warnings[n].as_str());
    }
}

/// Issues with those of the first `n` pages added.
pub open spec fn with_pages_issues(
    issues: Seq<QualityIssueView>,
    pages: Seq<ExtractedPageView>,
    n: int,
) -> Seq<QualityIssueView>
    decreases n,
{
    if n <= 0 {
        issues
    } else {
        with_page_issues(with_pages_issues(issues, pages, n - 1), pages[n - 1])
    }
}

// ---------------------------------------------------------------------------
// Lines
// ---------------------------------------------------------------------------

/// Whether a line is someone's, but whose or what it is stays open.
pub open spec fn unattributed(line: TranscriptLineView) -> bool {
    !procedural(line.kind) && line.kind != LineKind::PageHeader && (line.participant_id is None
        || line.kind == LineKind::Unknown)
}

fn is_unattributed(line: &TranscriptLine) -> (r: bool)
    ensures
        r == unattributed(line.deep_view()),
{
    !is_procedural(line.kind) && line.kind != LineKind::PageHeader && (line.participant_id.is_none()
        || line.kind == LineKind::Unknown)
}

/// Whether a line names a participant that no one registered.
pub open spec fn unregistered(line: TranscriptLineView, participants: Seq<ParticipantView>) -> bool {
    line.participant_id matches Some(id) && participant_with_id(participants, id) is None
}

fn is_unregistered(line: &TranscriptLine, context: &TranscriptContext) -> (r: bool)
    ensures
        r == unregistered(line.deep_view(), context.deep_view().participants),
{
    match &line.participant_id {
        Some(id) => context.participant_by_id(id.as_str()).is_none(),
        None => false,
    }
}

/// Issues with those of a line added.
pub open spec fn with_line_issues(
    issues: Seq<QualityIssueView>,
    line: TranscriptLineView,
    participants: Seq<ParticipantView>,
) -> Seq<QualityIssueView> {
    let page = Some(line.physical_page);
    let id = Some(line.source_row_id);
    let attributed = with_issue(
        issues,
        unattributed(line),
        quality_issue(
            "unresolved_attribution"@,
            page,
            id,
            "Text retained; speaker or discourse classification is unresolved."@,
        ),
    );
    let registered = with_issue(
        attributed,
        unregistered(line, participants),
        quality_issue(
            "participant_reference"@,
            page,
            id,
            "Participant ID is absent from the registry."@,
        ),
    );
    let named = with_issue(
        registered,
        line.speaker matches Some(s) && s.redacted,
        quality_issue(
            "redacted_identity"@,
            page,
            id,
            "Anonymous ID identifies an observed turn/examination, not a verified person."@,
        ),
    );
    with_issue(
        named,
        line.verification == VerificationStatus::Conflict,
        quality_issue(
            "classification_conflict"@,
            page,
            id,
            "Source and classification disagree."@,
        ),
    )
}

fn add_line_issues(issues: &mut Vec<QualityIssue>, line: &TranscriptLine, context: &TranscriptContext)
    ensures
        final(issues).deep_view() == with_line_issues(
            old(issues).deep_view(),
            line.deep_view(),
            context.deep_view().participants,
        ),
{
    let page = Some(line.physical_page);
    add_issue(
        issues,
        is_unattributed(line),
        "unresolved_attribution",
        page,
        Some(&line.source_row_id),
        "Text retained; speaker or discourse classification is unresolved.",
    );
    add_issue(
        issues,
        is_unregistered(line, context),
        "participant_reference",
        page,
        Some(&line.source_row_id),
        "Participant ID is absent from the registry.",
    );
    let redacted = match &line.speaker {
        Some(s) => s.redacted,
        None => false,
    };
    add_issue(
        issues,
        redacted,
        "redacted_identity",
        page,
        Some(&line.source_row_id),
        "Anonymous ID identifies an observed turn/examination, not a verified person.",
    );
    add_issue(
        issues,
        line.verification == VerificationStatus::Conflict,
        "classification_conflict",
        page,
        Some(&line.source_row_id),
        "Source and classification disagree.",
    );
}

/// Issues with those of the first `n` lines added.
pub open spec fn with_lines_issues(
    issues: Seq<QualityIssueView>,
    lines: Seq<TranscriptLineView>,
    participants: Seq<ParticipantView>,
    n: int,
) -> Seq<QualityIssueView>
    decreases n,
{
    if n <= 0 {
        issues
    } else {
        with_line_issues(
            with_lines_issues(issues, lines, participants, n - 1),
            lines[n - 1],
            participants,
        )
    }
}

/// How many of the first `n` lines are unattributed.
pub open spec fn unattributed_count(lines: Seq<TranscriptLineView>, n: int) -> nat
    decreases n,
{
    if n <= 0 {
        0
    } else {
        unattributed_count(lines, n - 1) + if unattributed(lines[n - 1]) {
            1nat
        } else {
            0nat
        }
    }
}

// ---------------------------------------------------------------------------
// Gaps and verification
// ---------------------------------------------------------------------------

/// The name of a kind of gap.
pub open spec fn gap_name(kind: GapKind) -> Seq<char> {
    match kind {
        GapKind::MissingLines => "MissingLines"@,
        GapKind::MissingTranscriptPages => "MissingTranscriptPages"@,
        GapKind::PartialPageStart => "PartialPageStart"@,
        GapKind::PartialPageEnd => "PartialPageEnd"@,
    }
}

fn name_of_gap(kind: GapKind) -> (r: &'static str)
    ensures
        r@ == gap_name(kind),
{
    match kind {
        GapKind::MissingLines => "MissingLines",
        GapKind::MissingTranscriptPages => "MissingTranscriptPages",
        GapKind::PartialPageStart => "PartialPageStart",
        GapKind::PartialPageEnd => "PartialPageEnd",
    }
}

/// Issues with those of the first `n` gaps added.
pub open spec fn with_gaps_issues(
    issues: Seq<QualityIssueView>,
    gaps: Seq<TranscriptGapView>,
    n: int,
) -> Seq<QualityIssueView>
    decreases n,
{
    if n <= 0 {
        issues
    } else {
        with_gaps_issues(issues, gaps, n - 1).push(
            quality_issue(
                "source_gap_candidate"@,
                gaps[n - 1].physical_page,
                None,
                gap_name(gaps[n - 1].kind)
                    + ": unobserved line/page range; verify against source before asserting missing testimony."@,
            ),
        )
    }
}

fn add_gaps_issues(issues: &mut Vec<QualityIssue>, gaps: &Vec<TranscriptGap>)
    ensures
        final(issues).deep_view() == with_gaps_issues(
            old(issues).deep_view(),
            gaps.deep_view(),
            gaps.deep_view().len() as int,
        ),
{
    let ghost before = issues.deep_view();
    for n in 0..gaps.len()
        invariant
            issues.deep_view() == with_gaps_issues(before, gaps.deep_view(), n as int),
    {
        assert(gaps.deep_view()[n as int] == gaps@[n as int].deep_view());
        let message = name_of_gap(gaps[n].kind).to_owned().concat(
            ": unobserved line/page range; verify against source before asserting missing testimony.",
        );
        add_issue(
            issues,
            true,
            "source_gap_candidate",
            gaps[n].physical_page,
            None,
            message.as_str(),
        );
    }
}

/// Issues with the first `n` of verification added.
pub open spec fn with_verification_issues(
    issues: Seq<QualityIssueView>,
    found: Seq<VerificationIssueView>,
    n: int,
) -> Seq<QualityIssueView>
    decreases n,
{
    if n <= 0 {
        issues
    } else {
        with_verification_issues(issues, found, n - 1).push(
            quality_issue(
                found[n - 1].code,
                Some(found[n - 1].physical_page),
                None,
                found[n - 1].message,
            ),
        )
    }
}

fn add_verification_issues(issues: &mut Vec<QualityIssue>, found: &Vec<VerificationIssue>)
    ensures
        final(issues).deep_view() == with_verification_issues(
            old(issues).deep_view(),
            found.deep_view(),
            found.deep_view().len() as int,
        ),
{
    let ghost before = issues.deep_view();
    for n in 0..found.len()
        invariant
            issues.deep_view() == with_verification_issues(before, found.deep_view(), n as int),
    {
        assert(found.deep_view()[n as int] == found@[n as int].deep_view());
        add_issue(
            issues,
            true,
            found[n].code.as_str(),
            Some(found[n].physical_page),
            None,
            found[n].message.as_str(),
        );
    }
}

// ---------------------------------------------------------------------------
// The report
// ---------------------------------------------------------------------------

/// Everything to look at before the transcript is used.
pub open spec fn all_issues(
    document: ExtractedDocumentView,
    context: TranscriptContextView,
    ir: TranscriptIrView,
    lines: Seq<TranscriptLineView>,
    blocks: Seq<TranscriptBlockView>,
    verification: Seq<VerificationIssueView>,
) -> Seq<QualityIssueView> {
    let rows = ir.canonical_rows;
    let owned = owned_rows(blocks, blocks.len() as int);
    let inventory = inventory_issues(
        expected_rows(document.pages, document.pages.len() as int),
        distinct(row_ids(rows), rows.len() as int),
        rows.len(),
    );
    let of_rows = with_rows_issues(inventory, rows, owned, rows.len() as int);
    let of_pages = with_pages_issues(of_rows, document.pages, document.pages.len() as int);
    let of_lines = with_lines_issues(of_pages, lines, context.participants, lines.len() as int);
    let of_gaps = with_gaps_issues(of_lines, context.gaps, context.gaps.len() as int);
    let verified = with_verification_issues(of_gaps, verification, verification.len() as int);
    let in_english = with_issue(
        verified,
        context.language.code != "en"@,
        quality_issue(
            "language_review"@,
            None,
            None,
            "The current structural grammar targets English labels; review other languages."@,
        ),
    );
    with_issue(
        in_english,
        ir.diagnostics.transcript_rows == 0,
        quality_issue(
            "no_dialogue"@,
            None,
            None,
            "No reliable dialogue was identified; source pages are retained."@,
        ),
    )
}

/// Whether an issue rules out the use of a transcript.
pub open spec fn blocking_code(code: Seq<char>) -> bool {
    code == "source_inventory_mismatch"@ || code == "dialogue_row_ownership"@ || code
        == "ocr_required"@ || code == "participant_reference"@
}

/// Whether a transcript is ruled out: there is no dialogue, or an issue blocks it.
pub open spec fn blocked(transcript_rows: usize, issues: Seq<QualityIssueView>) -> bool {
    transcript_rows == 0 || exists|i: int|
        0 <= i < issues.len() && blocking_code((#[trigger] issues[i]).code)
}

fn is_blocked(transcript_rows: usize, issues: &Vec<QualityIssue>) -> (r: bool)
    ensures
        r == blocked(transcript_rows, issues.deep_view()),
{
    if transcript_rows == 0 {
        return true;
    }
    let ghost view = issues.deep_view();
    for i in 0..issues.len()
        invariant
            view == issues.deep_view(),
            forall|j: int| 0 <= j < i ==> !blocking_code((#[trigger] view[j]).code),
    {
        assert(view[i as int] == issues@[i as int].deep_view());
        let code = issues[i].code.as_str();
        if same(code, "source_inventory_mismatch") || same(code, "dialogue_row_ownership") || same(
            code,
            "ocr_required",
        ) || same(code, "participant_reference") {
            return true;
        }
    }
    false
}

/// Whether a transcript is fit for use, and why not.
pub open spec fn quality_report(
    document: ExtractedDocumentView,
    context: TranscriptContextView,
    ir: TranscriptIrView,
    lines: Seq<TranscriptLineView>,
    blocks: Seq<TranscriptBlockView>,
    verification: Seq<VerificationIssueView>,
) -> QualityReportView {
    let issues = all_issues(document, context, ir, lines, blocks, verification);
    let stopped = blocked(ir.diagnostics.transcript_rows, issues);
    let ready = !stopped && issues.len() == 0;
    QualityReportView {
        status: if stopped {
            "blocked"@
        } else if ready {
            "passed_structural_checks"@
        } else {
            "needs_review"@
        },
        ready_for_ai: ready,
        source_rows: expected_rows(document.pages, document.pages.len() as int),
        accounted_source_rows: distinct(
            row_ids(ir.canonical_rows),
            ir.canonical_rows.len() as int,
        ) as usize,
        dialogue_rows: ir.diagnostics.transcript_rows,
        assigned_dialogue_rows: ir.diagnostics.rows_assigned_to_utterances,
        unknown_speaker_rows: unattributed_count(lines, lines.len() as int) as usize,
        confidence_ceiling: if stopped {
            35
        } else if ready {
            95
        } else {
            75
        },
        issues,
        meaning: "Readiness checks extraction and structural consistency only. It is not a probability of accuracy, a factual verification, or a legal conclusion. Unseen text and redacted identities are never reconstructed."@,
    }
}

fn collect_issues(
    document: &ExtractedDocument,
    context: &TranscriptContext,
    ir: &TranscriptIr,
    lines: &Vec<TranscriptLine>,
    blocks: &Vec<TranscriptBlock>,
    verification: &Vec<VerificationIssue>,
    expected: usize,
    different: usize,
) -> (r: Vec<QualityIssue>)
    requires
        expected == expected_rows(
            document.deep_view().pages,
            document.deep_view().pages.len() as int,
        ),
        different == distinct(
            row_ids(ir.deep_view().canonical_rows),
            ir.deep_view().canonical_rows.len() as int,
        ),
    ensures
        r.deep_view() == all_issues(
            document.deep_view(),
            context.deep_view(),
            ir.deep_view(),
            lines.deep_view(),
            blocks.deep_view(),
            verification.deep_view(),
        ),
{
    let mut issues: Vec<QualityIssue> = Vec::new();
    assert(issues.deep_view() =~= seq![]);
    add_issue(
        &mut issues,
        different != expected || different != ir.canonical_rows.len(),
        "source_inventory_mismatch",
        None,
        None,
        "Extracted source rows and canonical inventory disagree.",
    );
    let owned = lookup_owned(blocks);
    let ghost inventory = issues.deep_view();
    let ghost rows = ir.deep_view().canonical_rows;
    for n in 0..ir.canonical_rows.len()
        invariant
            owned.wf(),
            rows == ir.canonical_rows.deep_view(),
            issues.deep_view() == with_rows_issues(inventory, rows, owned.ids(), n as int),
    {
        assert(rows[n as int] == ir.canonical_rows@[n as int].deep_view());
        add_row_issues(&mut issues, &ir.canonical_rows[n], &owned);
    }
    let ghost of_rows = issues.deep_view();
    let ghost pages = document.deep_view().pages;
    for n in 0..document.pages.len()
        invariant
            pages == document.pages.deep_view(),
            issues.deep_view() == with_pages_issues(of_rows, pages, n as int),
    {
        assert(pages[n as int] == document.pages@[n as int].deep_view());
        add_page_issues(&mut issues, &document.pages[n]);
    }
    let ghost of_pages = issues.deep_view();
    let ghost participants = context.deep_view().participants;
    for n in 0..lines.len()
        invariant
            participants == context.deep_view().participants,
            issues.deep_view() == with_lines_issues(
                of_pages,
                lines.deep_view(),
                participants,
                n as int,
            ),
    {
        assert(lines.deep_view()[n as int] == lines@[n as int].deep_view());
        add_line_issues(&mut issues, &lines[n], context);
    }
    add_gaps_issues(&mut issues, &context.gaps);
    add_verification_issues(&mut issues, verification);
    add_issue(
        &mut issues,
        !same(context.language.code.as_str(), "en"),
        "language_review",
        None,
        None,
        "The current structural grammar targets English labels; review other languages.",
    );
    add_issue(
        &mut issues,
        ir.diagnostics.transcript_rows == 0,
        "no_dialogue",
        None,
        None,
        "No reliable dialogue was identified; source pages are retained.",
    );
    issues
}

pub fn assess(
    document: &ExtractedDocument,
    context: &TranscriptContext,
    ir: &TranscriptIr,
    lines: &Vec<TranscriptLine>,
    blocks: &Vec<TranscriptBlock>,
    verification: &Vec<VerificationIssue>,
) -> (r: QualityReport)
    ensures
        r.deep_view() == quality_report(
            document.deep_view(),
            context.deep_view(),
            ir.deep_view(),
            lines.deep_view(),
            blocks.deep_view(),
            verification.deep_view(),
        ),
{
    let expected = count_expected(&document.pages);
    let different = Lookup::new(&ids_of_rows(&ir.canonical_rows)).distinct();
    let issues = collect_issues(
        document,
        context,
        ir,
        lines,
        blocks,
        verification,
        expected,
        different,
    );
    let mut unknown: usize = 0;
    for n in 0..lines.len()
        invariant
            unknown <= n,
            unknown == unattributed_count(lines.deep_view(), n as int),
    {
        assert(lines.deep_view()[n as int] == lines@[n as int].deep_view());
        if is_unattributed(&lines[n]) {
            unknown += 1;
        }
    }
    let stopped = is_blocked(ir.diagnostics.transcript_rows, &issues);
    let ready = !stopped && issues.len() == 0;
    let status = if stopped {
        "blocked"
    } else if ready {
        "passed_structural_checks"
    } else {
        "needs_review"
    };
    QualityReport {
        status: status.to_owned(),
        ready_for_ai: ready,
        source_rows: expected,
        accounted_source_rows: different,
        dialogue_rows: ir.diagnostics.transcript_rows,
        assigned_dialogue_rows: ir.diagnostics.rows_assigned_to_utterances,
        unknown_speaker_rows: unknown,
        confidence_ceiling: if stopped {
            35
        } else if ready {
            95
        } else {
            75
        },
        issues,
        meaning: "Readiness checks extraction and structural consistency only. It is not a probability of accuracy, a factual verification, or a legal conclusion. Unseen text and redacted identities are never reconstructed.".to_owned(),
    }
}

// ---------------------------------------------------------------------------
// Laws
// ---------------------------------------------------------------------------

/// A transcript passes exactly when there is nothing to look at, and a transcript without
/// dialogue never passes.
pub proof fn law_ready_means_no_issues(
    document: ExtractedDocumentView,
    context: TranscriptContextView,
    ir: TranscriptIrView,
    lines: Seq<TranscriptLineView>,
    blocks: Seq<TranscriptBlockView>,
    verification: Seq<VerificationIssueView>,
)
    ensures
        ({
            let report = quality_report(document, context, ir, lines, blocks, verification);
            &&& report.ready_for_ai <==> report.issues.len() == 0
            &&& report.ready_for_ai ==> ir.diagnostics.transcript_rows > 0
            &&& report.ready_for_ai ==> report.confidence_ceiling == 95
            &&& report.status == "blocked"@ ==> !report.ready_for_ai
        }),
{
    reveal_strlit("blocked");
    reveal_strlit("passed_structural_checks");
    reveal_strlit("needs_review");
    assert("blocked"@.len() == 7);
    assert("passed_structural_checks"@.len() == 24);
}

/// Whether there is something to look at in a row: it is dialogue that not exactly one block
/// owns, it could not be classified, or it was recognised badly.
pub open spec fn row_in_doubt(row: CanonicalRowView, owned: Seq<Seq<char>>) -> bool {
    ||| row.disposition == RowDisposition::Dialogue && occurrences(
        owned,
        row.id,
        owned.len() as int,
    ) != 1
    ||| row.disposition == RowDisposition::Unclassified
    ||| row.ocr_confidence matches Some(c) && c < MEASURE_0_85
}

/// Whether there is something to look at on a page: it could not be read, was recognised, is
/// empty, was read without coordinates, may be read in another order, or came with warnings.
pub open spec fn page_in_doubt(page: ExtractedPageView) -> bool {
    ||| page.layout.requires_ocr
    ||| page.layout.ocr_performed
    ||| blank(page.text)
    ||| page.layout.extraction_engine == "lopdf_fallback"@
    ||| page.layout.reading_order_uncertain
    ||| page.layout.column_count > 1
    ||| page.layout.warnings.len() > 0
}

/// Whether there is something to look at in a line: it is no one's, its speaker is not
/// registered or redacted, or it conflicts with its source.
pub open spec fn line_in_doubt(line: TranscriptLineView, participants: Seq<ParticipantView>) -> bool {
    ||| unattributed(line)
    ||| unregistered(line, participants)
    ||| line.speaker matches Some(s) && s.redacted
    ||| line.verification == VerificationStatus::Conflict
}

proof fn lemma_rows_issues_grow(
    issues: Seq<QualityIssueView>,
    rows: Seq<CanonicalRowView>,
    owned: Seq<Seq<char>>,
    n: int,
)
    requires
        0 <= n <= rows.len(),
    ensures
        ({
            let after = with_rows_issues(issues, rows, owned, n);
            &&& after.len() >= issues.len()
            &&& after.len() == issues.len() <==> forall|i: int|
                0 <= i < n ==> !row_in_doubt(#[trigger] rows[i], owned)
        }),
    decreases n,
{
    if n > 0 {
        lemma_rows_issues_grow(issues, rows, owned, n - 1);
        let before = with_rows_issues(issues, rows, owned, n - 1);
        let after = with_rows_issues(issues, rows, owned, n);
        assert(after.len() >= before.len());
        assert(after.len() == before.len() <==> !row_in_doubt(rows[n - 1], owned));
        assert((forall|i: int| 0 <= i < n ==> !row_in_doubt(#[trigger] rows[i], owned)) <==> (
        forall|i: int| 0 <= i < n - 1 ==> !row_in_doubt(#[trigger] rows[i], owned))
            && !row_in_doubt(rows[n - 1], owned));
    }
}

proof fn lemma_warnings_grow(
    issues: Seq<QualityIssueView>,
    page: u32,
    warnings: Seq<Seq<char>>,
    n: int,
)
    requires
        0 <= n,
    ensures
        with_warnings(issues, page, warnings, n).len() == issues.len() + n,
    decreases n,
{
    if n > 0 {
        lemma_warnings_grow(issues, page, warnings, n - 1);
    }
}

proof fn lemma_page_issues_len(issues: Seq<QualityIssueView>, page: ExtractedPageView)
    ensures
        with_page_issues(issues, page).len() >= issues.len(),
        with_page_issues(issues, page).len() == issues.len() <==> !page_in_doubt(page),
{
    let n = page.layout.warnings.len() as int;
    assert forall|ordered: Seq<QualityIssueView>| #[trigger]
        with_warnings(ordered, page.physical_page, page.layout.warnings, n).len() == ordered.len()
            + n by {
        lemma_warnings_grow(ordered, page.physical_page, page.layout.warnings, n);
    }
}

proof fn lemma_pages_issues_grow(
    issues: Seq<QualityIssueView>,
    pages: Seq<ExtractedPageView>,
    n: int,
)
    requires
        0 <= n <= pages.len(),
    ensures
        ({
            let after = with_pages_issues(issues, pages, n);
            &&& after.len() >= issues.len()
            &&& after.len() == issues.len() <==> forall|i: int|
                0 <= i < n ==> !page_in_doubt(#[trigger] pages[i])
        }),
    decreases n,
{
    if n > 0 {
        lemma_pages_issues_grow(issues, pages, n - 1);
        lemma_page_issues_len(with_pages_issues(issues, pages, n - 1), pages[n - 1]);
        assert((forall|i: int| 0 <= i < n ==> !page_in_doubt(#[trigger] pages[i])) <==> (forall|
            i: int,
        |
            0 <= i < n - 1 ==> !page_in_doubt(#[trigger] pages[i])) && !page_in_doubt(
            pages[n - 1],
        ));
    }
}

proof fn lemma_lines_issues_grow(
    issues: Seq<QualityIssueView>,
    lines: Seq<TranscriptLineView>,
    participants: Seq<ParticipantView>,
    n: int,
)
    requires
        0 <= n <= lines.len(),
    ensures
        ({
            let after = with_lines_issues(issues, lines, participants, n);
            &&& after.len() >= issues.len()
            &&& after.len() == issues.len() <==> forall|i: int|
                0 <= i < n ==> !line_in_doubt(#[trigger] lines[i], participants)
        }),
    decreases n,
{
    if n > 0 {
        lemma_lines_issues_grow(issues, lines, participants, n - 1);
        let before = with_lines_issues(issues, lines, participants, n - 1);
        let after = with_lines_issues(issues, lines, participants, n);
        assert(after.len() >= before.len());
        assert(after.len() == before.len() <==> !line_in_doubt(lines[n - 1], participants));
        assert((forall|i: int| 0 <= i < n ==> !line_in_doubt(#[trigger] lines[i], participants))
            <==> (forall|i: int|
            0 <= i < n - 1 ==> !line_in_doubt(#[trigger] lines[i], participants))
            && !line_in_doubt(lines[n - 1], participants));
    }
}

proof fn lemma_gaps_issues_grow(
    issues: Seq<QualityIssueView>,
    gaps: Seq<TranscriptGapView>,
    n: int,
)
    requires
        0 <= n,
    ensures
        with_gaps_issues(issues, gaps, n).len() == issues.len() + n,
    decreases n,
{
    if n > 0 {
        lemma_gaps_issues_grow(issues, gaps, n - 1);
    }
}

proof fn lemma_verification_issues_grow(
    issues: Seq<QualityIssueView>,
    found: Seq<VerificationIssueView>,
    n: int,
)
    requires
        0 <= n,
    ensures
        with_verification_issues(issues, found, n).len() == issues.len() + n,
    decreases n,
{
    if n > 0 {
        lemma_verification_issues_grow(issues, found, n - 1);
    }
}

/// A transcript passes exactly when nothing about it is in doubt: its rows are those that were
/// extracted, each under its own identifier, no row, page or line of it needs a look, no lines
/// or pages are missing, verification found nothing, it is in English, and it has dialogue.
pub proof fn law_ready_means_nothing_in_doubt(
    document: ExtractedDocumentView,
    context: TranscriptContextView,
    ir: TranscriptIrView,
    lines: Seq<TranscriptLineView>,
    blocks: Seq<TranscriptBlockView>,
    verification: Seq<VerificationIssueView>,
)
    ensures
        quality_report(document, context, ir, lines, blocks, verification).ready_for_ai <==> {
            let rows = ir.canonical_rows;
            let owned = owned_rows(blocks, blocks.len() as int);
            let different = distinct(row_ids(rows), rows.len() as int);
            &&& different == expected_rows(document.pages, document.pages.len() as int)
            &&& different == rows.len()
            &&& forall|i: int| 0 <= i < rows.len() ==> !row_in_doubt(#[trigger] rows[i], owned)
            &&& forall|i: int|
                0 <= i < document.pages.len() ==> !page_in_doubt(#[trigger] document.pages[i])
            &&& forall|i: int|
                0 <= i < lines.len() ==> !line_in_doubt(#[trigger] lines[i], context.participants)
            &&& context.gaps.len() == 0
            &&& verification.len() == 0
            &&& context.language.code == "en"@
            &&& ir.diagnostics.transcript_rows > 0
        },
{
    law_ready_means_no_issues(document, context, ir, lines, blocks, verification);
    let rows = ir.canonical_rows;
    let owned = owned_rows(blocks, blocks.len() as int);
    let inventory = inventory_issues(
        expected_rows(document.pages, document.pages.len() as int),
        distinct(row_ids(rows), rows.len() as int),
        rows.len(),
    );
    lemma_rows_issues_grow(inventory, rows, owned, rows.len() as int);
    let of_rows = with_rows_issues(inventory, rows, owned, rows.len() as int);
    lemma_pages_issues_grow(of_rows, document.pages, document.pages.len() as int);
    let of_pages = with_pages_issues(of_rows, document.pages, document.pages.len() as int);
    lemma_lines_issues_grow(of_pages, lines, context.participants, lines.len() as int);
    let of_lines = with_lines_issues(of_pages, lines, context.participants, lines.len() as int);
    lemma_gaps_issues_grow(of_lines, context.gaps, context.gaps.len() as int);
    let of_gaps = with_gaps_issues(of_lines, context.gaps, context.gaps.len() as int);
    lemma_verification_issues_grow(of_gaps, verification, verification.len() as int);
}

// ---------------------------------------------------------------------------
// Every doubt is reported, and nothing else
// ---------------------------------------------------------------------------

/// What is reported of a row: that not exactly one block owns it, that it could not be classified,
/// and that it was recognised badly, each where it is so, with the row and its page. Nothing that
/// was reported before is lost.
pub proof fn law_row_doubts_are_reported(
    issues: Seq<QualityIssueView>,
    row: CanonicalRowView,
    owned: Seq<Seq<char>>,
)
    ensures
        ({
            let after = with_row_issues(issues, row, owned);
            let disowned = row.disposition == RowDisposition::Dialogue && occurrences(
                owned,
                row.id,
                owned.len() as int,
            ) != 1;
            let unclassified = row.disposition == RowDisposition::Unclassified;
            let unsure = row.ocr_confidence matches Some(c) && c < MEASURE_0_85;
            let found = after.skip(issues.len() as int);
            &&& after.take(issues.len() as int) == issues
            &&& found.len() == (if disowned {
                1int
            } else {
                0
            }) + (if unclassified {
                1int
            } else {
                0
            }) + (if unsure {
                1int
            } else {
                0
            })
            &&& forall|i: int|
                0 <= i < found.len() ==> (#[trigger] found[i]).physical_page == Some(
                    row.physical_page,
                ) && found[i].row_id == Some(row.id)
            &&& disowned ==> found[0].code == "dialogue_row_ownership"@
            &&& unclassified && !disowned ==> found[0].code == "unclassified_source_row"@
            &&& unsure ==> found.last().code == "low_ocr_confidence"@
        }),
{
    let after = with_row_issues(issues, row, owned);
    assert(after.take(issues.len() as int) =~= issues);
}

/// What is reported of a page: that it needs recognition, that it was recognised, that it is empty,
/// that it was read without coordinates, that its order is uncertain, and each of its warnings.
pub proof fn law_page_doubts_are_reported(issues: Seq<QualityIssueView>, page: ExtractedPageView)
    ensures
        ({
            let after = with_page_issues(issues, page);
            let reports = |code: Seq<char>|
                exists|i: int|
                    issues.len() <= i < after.len() && (#[trigger] after[i]).code == code
                        && after[i].physical_page == Some(page.physical_page);
            &&& after.len() >= issues.len()
            &&& after.take(issues.len() as int) == issues
            &&& page.layout.requires_ocr ==> reports("ocr_required"@)
            &&& page.layout.ocr_performed ==> reports("ocr_review_required"@)
            &&& trimmed(page.text).len() == 0 ==> reports("empty_page"@)
            &&& page.layout.extraction_engine == "lopdf_fallback"@ ==> reports(
                "fallback_extraction"@,
            )
            &&& page.layout.reading_order_uncertain || page.layout.column_count > 1 ==> reports(
                "reading_order_review"@,
            )
            &&& forall|k: int|
                0 <= k < page.layout.warnings.len() ==> exists|i: int|
                    issues.len() <= i < after.len() && (#[trigger] after[i]).message
                        == #[trigger] page.layout.warnings[k] && after[i].code
                        == "extraction_warning"@
        }),
{
    let number = Some(page.physical_page);
    let warnings = page.layout.warnings;
    let after = with_page_issues(issues, page);
    let start = issues.len() as int;
    let a = with_issue(
        issues,
        page.layout.requires_ocr,
        quality_issue(
            "ocr_required"@,
            number,
            None,
            "Native extraction is incomplete and OCR did not produce a usable result."@,
        ),
    );
    let b = with_issue(
        a,
        page.layout.ocr_performed,
        quality_issue(
            "ocr_review_required"@,
            number,
            None,
            "OCR text must be reviewed before use in analysis."@,
        ),
    );
    let c = with_issue(
        b,
        blank(page.text),
        quality_issue(
            "empty_page"@,
            number,
            None,
            "No text recovered; confirm whether the physical page is blank."@,
        ),
    );
    let d = with_issue(
        c,
        page.layout.extraction_engine == "lopdf_fallback"@,
        quality_issue(
            "fallback_extraction"@,
            number,
            None,
            "Estimated fallback geometry is not sufficient to certify extraction completeness."@,
        ),
    );
    let e = with_issue(
        d,
        page.layout.reading_order_uncertain || page.layout.column_count > 1,
        quality_issue(
            "reading_order_review"@,
            number,
            None,
            "Verify pane/rotation reading order and printed page references."@,
        ),
    );
    lemma_warnings_stand_behind(e, page.physical_page, warnings, warnings.len() as int);
    assert(after == with_warnings(e, page.physical_page, warnings, warnings.len() as int));
    assert forall|i: int| 0 <= i < e.len() implies after[i] == e[i] by {
        assert(after.take(e.len() as int)[i] == e[i]);
    }
    assert(e.take(start) =~= issues);
    assert(after.take(start) =~= issues);
    if page.layout.requires_ocr {
        assert(after[a.len() - 1].code == "ocr_required"@);
    }
    if page.layout.ocr_performed {
        assert(after[b.len() - 1].code == "ocr_review_required"@);
    }
    if trimmed(page.text).len() == 0 {
        assert(after[c.len() - 1].code == "empty_page"@);
    }
    if page.layout.extraction_engine == "lopdf_fallback"@ {
        assert(after[d.len() - 1].code == "fallback_extraction"@);
    }
    if page.layout.reading_order_uncertain || page.layout.column_count > 1 {
        assert(after[e.len() - 1].code == "reading_order_review"@);
    }
    assert forall|k: int| 0 <= k < warnings.len() implies exists|i: int|
        issues.len() <= i < after.len() && (#[trigger] after[i]).message == #[trigger] warnings[k]
            && after[i].code == "extraction_warning"@ by {
        assert(after[e.len() + k].message == warnings[k]);
    }
}

proof fn lemma_warnings_stand_behind(
    issues: Seq<QualityIssueView>,
    page: u32,
    warnings: Seq<Seq<char>>,
    n: int,
)
    requires
        0 <= n <= warnings.len(),
    ensures
        with_warnings(issues, page, warnings, n).len() == issues.len() + n,
        with_warnings(issues, page, warnings, n).take(issues.len() as int) == issues,
        forall|k: int|
            0 <= k < n ==> (#[trigger] with_warnings(issues, page, warnings, n)[issues.len()
                + k]).message == warnings[k] && with_warnings(issues, page, warnings, n)[issues.len()
                + k].code == "extraction_warning"@,
    decreases n,
{
    let after = with_warnings(issues, page, warnings, n);
    if n > 0 {
        lemma_warnings_stand_behind(issues, page, warnings, n - 1);
        let before = with_warnings(issues, page, warnings, n - 1);
        assert(after.take(issues.len() as int) =~= before.take(issues.len() as int));
        assert forall|k: int| 0 <= k < n implies (#[trigger] after[issues.len() + k]).message
            == warnings[k] && after[issues.len() + k].code == "extraction_warning"@ by {
            if k < n - 1 {
                assert(after[issues.len() + k] == before[issues.len() + k]);
            }
        }
    } else {
        assert(after.take(issues.len() as int) =~= issues);
    }
}

/// What is reported of a line: that nobody is known to say it or that it is of unknown kind, that
/// its participant is not registered, that its speaker is redacted, and that it conflicts with its
/// source, each where it is so, with the row and its page.
pub proof fn law_line_doubts_are_reported(
    issues: Seq<QualityIssueView>,
    line: TranscriptLineView,
    participants: Seq<ParticipantView>,
)
    ensures
        ({
            let after = with_line_issues(issues, line, participants);
            let found = after.skip(issues.len() as int);
            let reports = |code: Seq<char>|
                exists|i: int| 0 <= i < found.len() && (#[trigger] found[i]).code == code;
            let speech = line.kind != LineKind::PageHeader && !procedural(line.kind);
            let open = speech && (line.participant_id is None || line.kind == LineKind::Unknown);
            let stranger = line.participant_id is Some && participant_with_id(
                participants,
                line.participant_id->0,
            ) is None;
            let redacted = line.speaker is Some && (line.speaker->0).redacted;
            let conflict = line.verification == VerificationStatus::Conflict;
            &&& after.take(issues.len() as int) == issues
            &&& found.len() == (if open {
                1int
            } else {
                0
            }) + (if stranger {
                1int
            } else {
                0
            }) + (if redacted {
                1int
            } else {
                0
            }) + (if conflict {
                1int
            } else {
                0
            })
            &&& forall|i: int|
                0 <= i < found.len() ==> (#[trigger] found[i]).physical_page == Some(
                    line.physical_page,
                ) && found[i].row_id == Some(line.source_row_id)
            &&& open ==> reports("unresolved_attribution"@)
            &&& stranger ==> reports("participant_reference"@)
            &&& redacted ==> reports("redacted_identity"@)
            &&& conflict ==> reports("classification_conflict"@)
        }),
{
    let after = with_line_issues(issues, line, participants);
    let found = after.skip(issues.len() as int);
    assert(after.take(issues.len() as int) =~= issues);
    let open = unattributed(line);
    let stranger = unregistered(line, participants);
    let redacted = line.speaker is Some && (line.speaker->0).redacted;
    if open {
        assert(found[0].code == "unresolved_attribution"@);
    }
    if stranger {
        let i = if open {
            1int
        } else {
            0
        };
        assert(found[i].code == "participant_reference"@);
    }
    if redacted {
        let i = (if open {
            1int
        } else {
            0
        }) + (if stranger {
            1int
        } else {
            0
        });
        assert(found[i].code == "redacted_identity"@);
    }
    if line.verification == VerificationStatus::Conflict {
        assert(found[found.len() - 1].code == "classification_conflict"@);
    }
}

/// Rows, pages, lines, gaps and what verification found are reported one after the other, each in
/// its order: one more of any of them adds what there is to report of it, and a gap or an issue of
/// verification adds exactly one issue, with its page.
pub proof fn law_issues_are_gathered(
    issues: Seq<QualityIssueView>,
    rows: Seq<CanonicalRowView>,
    owned: Seq<Seq<char>>,
    pages: Seq<ExtractedPageView>,
    lines: Seq<TranscriptLineView>,
    participants: Seq<ParticipantView>,
    gaps: Seq<TranscriptGapView>,
    found: Seq<VerificationIssueView>,
    n: int,
)
    requires
        0 <= n,
    ensures
        with_rows_issues(issues, rows, owned, 0) == issues,
        with_pages_issues(issues, pages, 0) == issues,
        with_lines_issues(issues, lines, participants, 0) == issues,
        with_gaps_issues(issues, gaps, 0) == issues,
        with_verification_issues(issues, found, 0) == issues,
        with_rows_issues(issues, rows, owned, n + 1) == with_row_issues(
            with_rows_issues(issues, rows, owned, n),
            rows[n],
            owned,
        ),
        with_pages_issues(issues, pages, n + 1) == with_page_issues(
            with_pages_issues(issues, pages, n),
            pages[n],
        ),
        with_lines_issues(issues, lines, participants, n + 1) == with_line_issues(
            with_lines_issues(issues, lines, participants, n),
            lines[n],
            participants,
        ),
        ({
            let before = with_gaps_issues(issues, gaps, n);
            let after = with_gaps_issues(issues, gaps, n + 1);
            &&& after.drop_last() == before
            &&& after.last().code == "source_gap_candidate"@
            &&& after.last().physical_page == gaps[n].physical_page
        }),
        ({
            let before = with_verification_issues(issues, found, n);
            let after = with_verification_issues(issues, found, n + 1);
            &&& after.drop_last() == before
            &&& after.last().code == found[n].code
            &&& after.last().physical_page == Some(found[n].physical_page)
            &&& after.last().message == found[n].message
        }),
{
    assert(with_gaps_issues(issues, gaps, n + 1).drop_last() =~= with_gaps_issues(issues, gaps, n));
    assert(with_verification_issues(issues, found, n + 1).drop_last() =~= with_verification_issues(
        issues,
        found,
        n,
    ));
}

/// A transcript is blocked where it has no dialogue, or where its rows do not match its source, a
/// row of dialogue is not owned by one block, a page could not be read, or a participant is not
/// registered; what is neither blocked nor in order needs review. What is blocked is never ready,
/// and is trusted least.
pub proof fn law_blocking_issues_block(
    document: ExtractedDocumentView,
    context: TranscriptContextView,
    ir: TranscriptIrView,
    lines: Seq<TranscriptLineView>,
    blocks: Seq<TranscriptBlockView>,
    verification: Seq<VerificationIssueView>,
)
    ensures
        ({
            let report = quality_report(document, context, ir, lines, blocks, verification);
            let grave = exists|i: int|
                0 <= i < report.issues.len() && ((#[trigger] report.issues[i]).code
                    == "source_inventory_mismatch"@ || report.issues[i].code
                    == "dialogue_row_ownership"@ || report.issues[i].code == "ocr_required"@
                    || report.issues[i].code == "participant_reference"@);
            let stopped = ir.diagnostics.transcript_rows == 0 || grave;
            &&& report.issues == all_issues(document, context, ir, lines, blocks, verification)
            &&& stopped ==> report.status == "blocked"@ && !report.ready_for_ai
                && report.confidence_ceiling == 35
            &&& !stopped && report.issues.len() > 0 ==> report.status == "needs_review"@
                && !report.ready_for_ai && report.confidence_ceiling == 75
            &&& !stopped && report.issues.len() == 0 ==> report.status
                == "passed_structural_checks"@ && report.ready_for_ai && report.confidence_ceiling
                == 95
            &&& report.dialogue_rows == ir.diagnostics.transcript_rows
            &&& report.assigned_dialogue_rows == ir.diagnostics.rows_assigned_to_utterances
        }),
{
    let issues = all_issues(document, context, ir, lines, blocks, verification);
    if exists|i: int|
        0 <= i < issues.len() && ((#[trigger] issues[i]).code == "source_inventory_mismatch"@
            || issues[i].code == "dialogue_row_ownership"@ || issues[i].code == "ocr_required"@
            || issues[i].code == "participant_reference"@) {
        let i = choose|i: int|
            0 <= i < issues.len() && ((#[trigger] issues[i]).code == "source_inventory_mismatch"@
                || issues[i].code == "dialogue_row_ownership"@ || issues[i].code
                == "ocr_required"@ || issues[i].code == "participant_reference"@);
        assert(blocking_code(issues[i].code));
    }
}

proof fn lemma_unattributed_count(lines: Seq<TranscriptLineView>, n: int)
    requires
        0 <= n <= lines.len(),
    ensures
        unattributed_count(lines, n) == lines.take(n).filter(
            |line: TranscriptLineView| unattributed(line),
        ).len(),
        unattributed_count(lines, n) <= n,
    decreases n,
{
    lemma_filter_first(lines, |line: TranscriptLineView| unattributed(line), n);
    if n > 0 {
        lemma_unattributed_count(lines, n - 1);
    }
}

/// The lines without a known speaker are counted, each of them and no other.
pub proof fn law_unattributed_lines_are_counted(
    document: ExtractedDocumentView,
    context: TranscriptContextView,
    ir: TranscriptIrView,
    lines: Seq<TranscriptLineView>,
    blocks: Seq<TranscriptBlockView>,
    verification: Seq<VerificationIssueView>,
)
    requires
        lines.len() <= usize::MAX,
    ensures
        quality_report(document, context, ir, lines, blocks, verification).unknown_speaker_rows
            == lines.filter(|line: TranscriptLineView| unattributed(line)).len(),
{
    lemma_unattributed_count(lines, lines.len() as int);
    assert(lines.take(lines.len() as int) =~= lines);
}

/// A line names somebody who is not registered where it has an identifier that no participant has.
pub proof fn law_unregistered_lines(line: TranscriptLineView, participants: Seq<ParticipantView>)
    ensures
        line.participant_id is None ==> !unregistered(line, participants),
        line.participant_id is Some ==> (unregistered(line, participants) <==> participant_with_id(
            participants,
            line.participant_id->0,
        ) is None),
{
}

} // verus!
