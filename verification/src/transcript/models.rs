//! What is learned of a transcript and what it is parsed into.
use vstd::prelude::*;

use crate::document::models::{
    DocumentMetadata, DocumentMetadataView, ExtractedPage, ExtractedPageView, PageSection,
};
use crate::measure::{Measure, Ratio};
use crate::text::{clone_option, same, same_option};
use crate::transcript::omni_models::{TranscriptIr, TranscriptIrView};
use crate::transcript::quality::{QualityReport, QualityReportView};

verus! {

/// What a speaker is in the proceeding.
#[derive(Debug, Clone, Copy, PartialEq, Eq, Structural)]
pub enum SpeakerRole {
    Witness,
    Attorney,
    Interpreter,
    CourtReporter,
    Judge,
    Videographer,
    Unknown,
}

impl DeepView for SpeakerRole {
    type V = SpeakerRole;

    open spec fn deep_view(&self) -> SpeakerRole {
        *self
    }
}

/// What a participant does in this kind of document.
#[derive(Debug, Clone, Copy, PartialEq, Eq, Structural)]
pub enum ParticipantFunction {
    Witness,
    Interviewee,
    Interviewer,
    Counsel,
    GovernmentCounsel,
    LawEnforcement,
    Interpreter,
    CourtReporter,
    Judge,
    Videographer,
    Other,
    Unknown,
}

/// Who says a line.
#[derive(Debug)]
pub struct Speaker {
    pub participant_id: Option<String>,
    pub label: String,
    pub role: SpeakerRole,
    pub redacted: bool,
}

/// The contents of a [`Speaker`].
#[verifier::ext_equal]
pub struct SpeakerView {
    pub participant_id: Option<Seq<char>>,
    pub label: Seq<char>,
    pub role: SpeakerRole,
    pub redacted: bool,
}

impl DeepView for Speaker {
    type V = SpeakerView;

    open spec fn deep_view(&self) -> SpeakerView {
        SpeakerView {
            participant_id: self.participant_id.deep_view(),
            label: self.label@,
            role: self.role,
            redacted: self.redacted,
        }
    }
}

impl Clone for Speaker {
    fn clone(&self) -> (r: Self)
        ensures
            r.deep_view() == self.deep_view(),
    {
        Speaker {
            participant_id: self.participant_id.clone(),
            label: self.label.clone(),
            role: self.role,
            redacted: self.redacted,
        }
    }
}

/// Compares two optional speakers field by field.
pub fn same_speaker(a: &Option<Speaker>, b: &Option<Speaker>) -> (r: bool)
    ensures
        r == (a.deep_view() == b.deep_view()),
{
    match (a, b) {
        (Some(x), Some(y)) => same_option(&x.participant_id, &y.participant_id) && same(
            x.label.as_str(),
            y.label.as_str(),
        ) && x.role == y.role && x.redacted == y.redacted,
        (None, None) => true,
        _ => false,
    }
}

/// What a line of dialogue is.
#[derive(Debug, Clone, Copy, PartialEq, Eq, Structural)]
pub enum LineKind {
    Question,
    Answer,
    Objection,
    AttorneyStatement,
    SpeakerStatement,
    WitnessStatement,
    InterpreterStatement,
    ReporterStatement,
    JudgeStatement,
    VideographerStatement,
    ExhibitMarker,
    Parenthetical,
    ExaminationHeading,
    Heading,
    RedactionMarker,
    PageHeader,
    Unknown,
}

/// How a classification was come by.
#[derive(Debug, Clone, Copy, PartialEq, Eq, Structural)]
pub enum ClassificationConfidence {
    Explicit,
    Inferred,
    Unknown,
}

/// How far a line agrees with its source.
#[derive(Debug, Clone, Copy, PartialEq, Eq, Structural)]
pub enum VerificationStatus {
    Verified,
    VerifiedWithInference,
    Uncertain,
    SourceMissing,
    Redacted,
    Conflict,
}

/// How a line follows the line observed before it.
#[derive(Debug, Clone, Copy, PartialEq, Eq, Structural)]
pub enum SourceContinuity {
    FirstObserved,
    Continuous,
    CrossPageContinuous,
    GapBefore,
    Unknown,
}

/// The kind of proceeding that a document records.
#[derive(Debug, Clone, Copy, PartialEq, Eq, Structural)]
pub enum DocumentType {
    Deposition,
    Hearing,
    TrialTranscript,
    Arbitration,
    Interview,
    Examination,
    OtherTranscript,
    Unknown,
}

/// What a marker marks.
#[derive(Debug, Clone, Copy, PartialEq, Eq, Structural)]
pub enum MarkerKind {
    Question,
    Answer,
}

impl DeepView for MarkerKind {
    type V = MarkerKind;

    open spec fn deep_view(&self) -> MarkerKind {
        *self
    }
}

/// How a marker is written.
#[derive(Debug, Clone, Copy, PartialEq, Eq, Structural)]
pub enum MarkerStyle {
    Dot,
    BareUppercase,
    Colon,
    Word,
    SpeakerPrefixed,
}

impl DeepView for MarkerStyle {
    type V = MarkerStyle;

    open spec fn deep_view(&self) -> MarkerStyle {
        *self
    }
}

/// A way in which a document marks questions or answers.
#[derive(Debug)]
pub struct MarkerRule {
    pub kind: MarkerKind,
    pub style: MarkerStyle,
    pub pattern: String,
    pub priority: u8,
    pub observations: usize,
}

/// The contents of a [`MarkerRule`].
#[verifier::ext_equal]
pub struct MarkerRuleView {
    pub kind: MarkerKind,
    pub style: MarkerStyle,
    pub pattern: Seq<char>,
    pub priority: u8,
    pub observations: usize,
}

impl DeepView for MarkerRule {
    type V = MarkerRuleView;

    open spec fn deep_view(&self) -> MarkerRuleView {
        MarkerRuleView {
            kind: self.kind,
            style: self.style,
            pattern: self.pattern@,
            priority: self.priority,
            observations: self.observations,
        }
    }
}

impl Clone for MarkerRule {
    fn clone(&self) -> (r: Self)
        ensures
            r.deep_view() == self.deep_view(),
    {
        MarkerRule {
            kind: self.kind,
            style: self.style,
            pattern: self.pattern.clone(),
            priority: self.priority,
            observations: self.observations,
        }
    }
}

/// A person who speaks in the document.
#[derive(Debug)]
pub struct Participant {
    pub id: String,
    pub display_label: String,
    pub canonical_name: Option<String>,
    pub observed_labels: Vec<String>,
    pub role: SpeakerRole,
    pub role_confidence: Ratio,
    pub function: ParticipantFunction,
    /// In hundredths.
    pub function_confidence: u8,
    pub redacted: bool,
    pub observations: usize,
    pub question_observations: usize,
    pub answer_observations: usize,
    pub objection_observations: usize,
    pub statement_observations: usize,
}

/// The contents of a [`Participant`].
#[verifier::ext_equal]
pub struct ParticipantView {
    pub id: Seq<char>,
    pub display_label: Seq<char>,
    pub canonical_name: Option<Seq<char>>,
    pub observed_labels: Seq<Seq<char>>,
    pub role: SpeakerRole,
    pub role_confidence: Ratio,
    pub function: ParticipantFunction,
    pub function_confidence: u8,
    pub redacted: bool,
    pub observations: usize,
    pub question_observations: usize,
    pub answer_observations: usize,
    pub objection_observations: usize,
    pub statement_observations: usize,
}

impl DeepView for Participant {
    type V = ParticipantView;

    open spec fn deep_view(&self) -> ParticipantView {
        ParticipantView {
            id: self.id@,
            display_label: self.display_label@,
            canonical_name: self.canonical_name.deep_view(),
            observed_labels: self.observed_labels.deep_view(),
            role: self.role,
            role_confidence: self.role_confidence,
            function: self.function,
            function_confidence: self.function_confidence,
            redacted: self.redacted,
            observations: self.observations,
            question_observations: self.question_observations,
            answer_observations: self.answer_observations,
            objection_observations: self.objection_observations,
            statement_observations: self.statement_observations,
        }
    }
}

impl Clone for Participant {
    fn clone(&self) -> (r: Self)
        ensures
            r.deep_view() == self.deep_view(),
    {
        let r = Participant {
            id: self.id.clone(),
            display_label: self.display_label.clone(),
            canonical_name: self.canonical_name.clone(),
            observed_labels: self.observed_labels.clone(),
            role: self.role,
            role_confidence: self.role_confidence,
            function: self.function,
            function_confidence: self.function_confidence,
            redacted: self.redacted,
            observations: self.observations,
            question_observations: self.question_observations,
            answer_observations: self.answer_observations,
            objection_observations: self.objection_observations,
            statement_observations: self.statement_observations,
        };
        assert(r.observed_labels.deep_view() =~= self.observed_labels.deep_view());
        r
    }
}

/// The language that a document is written in.
#[derive(Debug)]
pub struct LanguageHint {
    pub code: String,
    pub name: String,
    /// In hundredths.
    pub confidence: u8,
    pub dominant_script: String,
}

/// The contents of a [`LanguageHint`].
#[verifier::ext_equal]
pub struct LanguageHintView {
    pub code: Seq<char>,
    pub name: Seq<char>,
    pub confidence: u8,
    pub dominant_script: Seq<char>,
}

impl DeepView for LanguageHint {
    type V = LanguageHintView;

    open spec fn deep_view(&self) -> LanguageHintView {
        LanguageHintView {
            code: self.code@,
            name: self.name@,
            confidence: self.confidence,
            dominant_script: self.dominant_script@,
        }
    }
}

impl Clone for LanguageHint {
    fn clone(&self) -> (r: Self)
        ensures
            r.deep_view() == self.deep_view(),
    {
        LanguageHint {
            code: self.code.clone(),
            name: self.name.clone(),
            confidence: self.confidence,
            dominant_script: self.dominant_script.clone(),
        }
    }
}

/// What is known of a page before its lines are parsed.
#[derive(Debug)]
pub struct PageContext {
    pub physical_page: u32,
    pub transcript_page: Option<String>,
    pub section: PageSection,
    /// In hundredths.
    pub section_confidence: u8,
    pub layout_reconstruction_confidence: Measure,
    pub requires_ocr: bool,
}

/// The contents of a [`PageContext`].
#[verifier::ext_equal]
pub struct PageContextView {
    pub physical_page: u32,
    pub transcript_page: Option<Seq<char>>,
    pub section: PageSection,
    pub section_confidence: u8,
    pub layout_reconstruction_confidence: Measure,
    pub requires_ocr: bool,
}

impl DeepView for PageContext {
    type V = PageContextView;

    open spec fn deep_view(&self) -> PageContextView {
        PageContextView {
            physical_page: self.physical_page,
            transcript_page: self.transcript_page.deep_view(),
            section: self.section,
            section_confidence: self.section_confidence,
            layout_reconstruction_confidence: self.layout_reconstruction_confidence,
            requires_ocr: self.requires_ocr,
        }
    }
}

impl Clone for PageContext {
    fn clone(&self) -> (r: Self)
        ensures
            r.deep_view() == self.deep_view(),
    {
        PageContext {
            physical_page: self.physical_page,
            transcript_page: self.transcript_page.clone(),
            section: self.section,
            section_confidence: self.section_confidence,
            layout_reconstruction_confidence: self.layout_reconstruction_confidence,
            requires_ocr: self.requires_ocr,
        }
    }
}

/// What a gap in the source is a gap of.
#[derive(Debug, Clone, Copy, PartialEq, Eq, Structural)]
pub enum GapKind {
    MissingLines,
    MissingTranscriptPages,
    PartialPageStart,
    PartialPageEnd,
}

/// Why there may be a gap in the source.
#[derive(Debug, Clone, Copy, PartialEq, Eq, Structural)]
pub enum GapReason {
    MissingFromSource,
    UnobservedInExtractedText,
    RedactionPossible,
    Unknown,
}

/// A range of lines or pages that was not observed.
#[derive(Debug)]
pub struct TranscriptGap {
    pub kind: GapKind,
    pub physical_page: Option<u32>,
    pub transcript_page: Option<String>,
    pub missing_line_start: Option<u16>,
    pub missing_line_end: Option<u16>,
    pub missing_transcript_page_start: Option<u32>,
    pub missing_transcript_page_end: Option<u32>,
    pub reason: GapReason,
}

/// The contents of a [`TranscriptGap`].
#[verifier::ext_equal]
pub struct TranscriptGapView {
    pub kind: GapKind,
    pub physical_page: Option<u32>,
    pub transcript_page: Option<Seq<char>>,
    pub missing_line_start: Option<u16>,
    pub missing_line_end: Option<u16>,
    pub missing_transcript_page_start: Option<u32>,
    pub missing_transcript_page_end: Option<u32>,
    pub reason: GapReason,
}

impl DeepView for TranscriptGap {
    type V = TranscriptGapView;

    open spec fn deep_view(&self) -> TranscriptGapView {
        TranscriptGapView {
            kind: self.kind,
            physical_page: self.physical_page,
            transcript_page: self.transcript_page.deep_view(),
            missing_line_start: self.missing_line_start,
            missing_line_end: self.missing_line_end,
            missing_transcript_page_start: self.missing_transcript_page_start,
            missing_transcript_page_end: self.missing_transcript_page_end,
            reason: self.reason,
        }
    }
}

impl Clone for TranscriptGap {
    fn clone(&self) -> (r: Self)
        ensures
            r.deep_view() == self.deep_view(),
    {
        TranscriptGap {
            kind: self.kind,
            physical_page: self.physical_page,
            transcript_page: self.transcript_page.clone(),
            missing_line_start: self.missing_line_start,
            missing_line_end: self.missing_line_end,
            missing_transcript_page_start: self.missing_transcript_page_start,
            missing_transcript_page_end: self.missing_transcript_page_end,
            reason: self.reason,
        }
    }
}

/// What hints at a redaction.
#[derive(Debug, Clone, Copy, PartialEq, Eq, Structural)]
pub enum RedactionSignalKind {
    PdfRedactAnnotation,
    DarkAnnotationCandidate,
    DarkFilledRectangleCandidate,
    TextualRedactionMarker,
}

/// How strong a hint is.
#[derive(Debug, Clone, Copy, PartialEq, Eq, Structural)]
pub enum SignalConfidence {
    High,
    Medium,
    Low,
}

/// A place that may be redacted.
#[derive(Debug)]
pub struct RedactionCandidate {
    pub physical_page: u32,
    pub rect: Option<[Measure; 4]>,
    pub kind: RedactionSignalKind,
    pub confidence: SignalConfidence,
    pub note: String,
}

/// The contents of a [`RedactionCandidate`].
#[verifier::ext_equal]
pub struct RedactionCandidateView {
    pub physical_page: u32,
    pub rect: Option<[Measure; 4]>,
    pub kind: RedactionSignalKind,
    pub confidence: SignalConfidence,
    pub note: Seq<char>,
}

impl DeepView for RedactionCandidate {
    type V = RedactionCandidateView;

    open spec fn deep_view(&self) -> RedactionCandidateView {
        RedactionCandidateView {
            physical_page: self.physical_page,
            rect: self.rect,
            kind: self.kind,
            confidence: self.confidence,
            note: self.note@,
        }
    }
}

impl Clone for RedactionCandidate {
    fn clone(&self) -> (r: Self)
        ensures
            r.deep_view() == self.deep_view(),
    {
        RedactionCandidate {
            physical_page: self.physical_page,
            rect: self.rect,
            kind: self.kind,
            confidence: self.confidence,
            note: self.note.clone(),
        }
    }
}

/// How many hints at redactions a document holds.
#[derive(Debug, Clone, Copy)]
pub struct RedactionSummary {
    pub explicit_redaction_annotations: usize,
    pub dark_annotation_candidates: usize,
    pub dark_filled_rectangle_candidates: usize,
    pub textual_redaction_markers: usize,
    pub pages_with_images: usize,
    pub requires_visual_confirmation: bool,
}

impl DeepView for RedactionSummary {
    type V = RedactionSummary;

    open spec fn deep_view(&self) -> RedactionSummary {
        *self
    }
}

/// The conventions that a document follows.
#[derive(Debug)]
pub struct FormatFingerprint {
    pub question_markers: Vec<MarkerRule>,
    pub answer_markers: Vec<MarkerRule>,
    pub dominant_question_marker: Option<String>,
    pub dominant_answer_marker: Option<String>,
    pub speaker_prefixed_dialogue: bool,
    pub colon_speaker_prefixed_dialogue: bool,
    pub titled_speaker_prefixed_dialogue: bool,
    pub examination_heading_style_detected: bool,
    pub redacted_speaker_labels_detected: bool,
    pub typical_line_min: Option<u16>,
    pub typical_line_max: Option<u16>,
    pub transcript_page_labels_detected: usize,
    pub notes: Vec<String>,
}

/// The contents of a [`FormatFingerprint`].
#[verifier::ext_equal]
pub struct FormatFingerprintView {
    pub question_markers: Seq<MarkerRuleView>,
    pub answer_markers: Seq<MarkerRuleView>,
    pub dominant_question_marker: Option<Seq<char>>,
    pub dominant_answer_marker: Option<Seq<char>>,
    pub speaker_prefixed_dialogue: bool,
    pub colon_speaker_prefixed_dialogue: bool,
    pub titled_speaker_prefixed_dialogue: bool,
    pub examination_heading_style_detected: bool,
    pub redacted_speaker_labels_detected: bool,
    pub typical_line_min: Option<u16>,
    pub typical_line_max: Option<u16>,
    pub transcript_page_labels_detected: usize,
    pub notes: Seq<Seq<char>>,
}

impl DeepView for FormatFingerprint {
    type V = FormatFingerprintView;

    open spec fn deep_view(&self) -> FormatFingerprintView {
        FormatFingerprintView {
            question_markers: self.question_markers.deep_view(),
            answer_markers: self.answer_markers.deep_view(),
            dominant_question_marker: self.dominant_question_marker.deep_view(),
            dominant_answer_marker: self.dominant_answer_marker.deep_view(),
            speaker_prefixed_dialogue: self.speaker_prefixed_dialogue,
            colon_speaker_prefixed_dialogue: self.colon_speaker_prefixed_dialogue,
            titled_speaker_prefixed_dialogue: self.titled_speaker_prefixed_dialogue,
            examination_heading_style_detected: self.examination_heading_style_detected,
            redacted_speaker_labels_detected: self.redacted_speaker_labels_detected,
            typical_line_min: self.typical_line_min,
            typical_line_max: self.typical_line_max,
            transcript_page_labels_detected: self.transcript_page_labels_detected,
            notes: self.notes.deep_view(),
        }
    }
}

impl Clone for FormatFingerprint {
    fn clone(&self) -> (r: Self)
        ensures
            r.deep_view() == self.deep_view(),
    {
        let r = FormatFingerprint {
            question_markers: self.question_markers.clone(),
            answer_markers: self.answer_markers.clone(),
            dominant_question_marker: self.dominant_question_marker.clone(),
            dominant_answer_marker: self.dominant_answer_marker.clone(),
            speaker_prefixed_dialogue: self.speaker_prefixed_dialogue,
            colon_speaker_prefixed_dialogue: self.colon_speaker_prefixed_dialogue,
            titled_speaker_prefixed_dialogue: self.titled_speaker_prefixed_dialogue,
            examination_heading_style_detected: self.examination_heading_style_detected,
            redacted_speaker_labels_detected: self.redacted_speaker_labels_detected,
            typical_line_min: self.typical_line_min,
            typical_line_max: self.typical_line_max,
            transcript_page_labels_detected: self.transcript_page_labels_detected,
            notes: self.notes.clone(),
        };
        assert(r.question_markers.deep_view() =~= self.question_markers.deep_view());
        assert(r.answer_markers.deep_view() =~= self.answer_markers.deep_view());
        assert(r.notes.deep_view() =~= self.notes.deep_view());
        r
    }
}

/// What a piece of evidence rests on.
#[derive(Debug, Clone, Copy, PartialEq, Eq, Structural)]
pub enum EvidenceSource {
    ExplicitMarker,
    SpeakerLabel,
    CurrentExaminer,
    KnownWitness,
    PreviousLine,
    NextLine,
    QuestionPunctuation,
    FormatFingerprint,
    RoleBehavior,
    SourceGap,
    Redaction,
    StructuralRecovery,
}

/// A piece of evidence for a classification.
#[derive(Debug)]
pub struct EvidenceItem {
    pub source: EvidenceSource,
    /// In hundredths.
    pub weight: u8,
    pub note: String,
}

/// The contents of a [`EvidenceItem`].
#[verifier::ext_equal]
pub struct EvidenceItemView {
    pub source: EvidenceSource,
    pub weight: u8,
    pub note: Seq<char>,
}

impl DeepView for EvidenceItem {
    type V = EvidenceItemView;

    open spec fn deep_view(&self) -> EvidenceItemView {
        EvidenceItemView {
            source: self.source,
            weight: self.weight,
            note: self.note@,
        }
    }
}

impl Clone for EvidenceItem {
    fn clone(&self) -> (r: Self)
        ensures
            r.deep_view() == self.deep_view(),
    {
        EvidenceItem {
            source: self.source,
            weight: self.weight,
            note: self.note.clone(),
        }
    }
}

/// Why a line was classified as it was. Scores are in hundredths.
#[derive(Debug)]
pub struct ClassificationEvidence {
    pub question_score: u8,
    pub answer_score: u8,
    pub statement_score: u8,
    pub objection_score: u8,
    pub items: Vec<EvidenceItem>,
}

/// The contents of a [`ClassificationEvidence`].
#[verifier::ext_equal]
pub struct ClassificationEvidenceView {
    pub question_score: u8,
    pub answer_score: u8,
    pub statement_score: u8,
    pub objection_score: u8,
    pub items: Seq<EvidenceItemView>,
}

impl DeepView for ClassificationEvidence {
    type V = ClassificationEvidenceView;

    open spec fn deep_view(&self) -> ClassificationEvidenceView {
        ClassificationEvidenceView {
            question_score: self.question_score,
            answer_score: self.answer_score,
            statement_score: self.statement_score,
            objection_score: self.objection_score,
            items: self.items.deep_view(),
        }
    }
}

impl Clone for ClassificationEvidence {
    fn clone(&self) -> (r: Self)
        ensures
            r.deep_view() == self.deep_view(),
    {
        let r = ClassificationEvidence {
            question_score: self.question_score,
            answer_score: self.answer_score,
            statement_score: self.statement_score,
            objection_score: self.objection_score,
            items: self.items.clone(),
        };
        assert(r.items.deep_view() =~= self.items.deep_view());
        r
    }
}

/// Evidence of nothing.
pub open spec fn no_evidence() -> ClassificationEvidenceView {
    ClassificationEvidenceView {
        question_score: 0,
        answer_score: 0,
        statement_score: 0,
        objection_score: 0,
        items: seq![],
    }
}

impl Default for ClassificationEvidence {
    fn default() -> (r: Self)
        ensures
            r.deep_view() == no_evidence(),
    {
        let r = ClassificationEvidence {
            question_score: 0,
            answer_score: 0,
            statement_score: 0,
            objection_score: 0,
            items: Vec::new(),
        };
        assert(r.deep_view() =~= no_evidence());
        r
    }
}

/// How many pages of each kind a document has.
#[derive(Debug, Clone, Copy)]
pub struct DocumentLayoutSummary {
    pub positioned_text_pages: usize,
    pub positioned_reconstructed_pages: usize,
    pub transcript_pages: usize,
    pub cover_pages: usize,
    pub caption_pages: usize,
    pub appearances_pages: usize,
    pub word_index_pages: usize,
    pub exhibit_index_pages: usize,
    pub certificate_pages: usize,
    pub errata_pages: usize,
    pub appendix_pages: usize,
    pub attachment_pages: usize,
    pub unknown_pages: usize,
    pub reference_only_pages: usize,
    pub ocr_required_pages: usize,
    pub masked_redaction_fragments: usize,
    pub likely_line_number_column_x: Option<Measure>,
}

impl DeepView for DocumentLayoutSummary {
    type V = DocumentLayoutSummary;

    open spec fn deep_view(&self) -> DocumentLayoutSummary {
        *self
    }
}

/// What speaks for the format having been understood: the participants whose role is
/// known, the dialogue pages with a printed label, and the markers, in hundredths.
#[derive(Debug, Clone, Copy)]
pub struct FormatConfidence {
    pub participants: Ratio,
    pub pages: Ratio,
    pub markers: u8,
}

impl DeepView for FormatConfidence {
    type V = FormatConfidence;

    open spec fn deep_view(&self) -> FormatConfidence {
        *self
    }
}

/// What is learned of a document before its lines are parsed.
#[derive(Debug)]
pub struct TranscriptContext {
    pub document_type: DocumentType,
    pub profile_name: String,
    pub metadata: DocumentMetadata,
    pub language: LanguageHint,
    pub participants: Vec<Participant>,
    pub primary_questioner: Option<Speaker>,
    pub primary_witness: Option<Speaker>,
    pub marker_rules: Vec<MarkerRule>,
    pub format_fingerprint: FormatFingerprint,
    pub layout_summary: DocumentLayoutSummary,
    pub typical_line_min: Option<u16>,
    pub typical_line_max: Option<u16>,
    pub page_contexts: Vec<PageContext>,
    pub gaps: Vec<TranscriptGap>,
    pub redaction_summary: RedactionSummary,
    pub redaction_candidates: Vec<RedactionCandidate>,
    /// Whether anything but a low format confidence calls for review by a model.
    pub ai_router_signals: bool,
    pub format_confidence: FormatConfidence,
    pub source_completeness: Ratio,
}

/// The contents of a [`TranscriptContext`].
#[verifier::ext_equal]
pub struct TranscriptContextView {
    pub document_type: DocumentType,
    pub profile_name: Seq<char>,
    pub metadata: DocumentMetadataView,
    pub language: LanguageHintView,
    pub participants: Seq<ParticipantView>,
    pub primary_questioner: Option<SpeakerView>,
    pub primary_witness: Option<SpeakerView>,
    pub marker_rules: Seq<MarkerRuleView>,
    pub format_fingerprint: FormatFingerprintView,
    pub layout_summary: DocumentLayoutSummary,
    pub typical_line_min: Option<u16>,
    pub typical_line_max: Option<u16>,
    pub page_contexts: Seq<PageContextView>,
    pub gaps: Seq<TranscriptGapView>,
    pub redaction_summary: RedactionSummary,
    pub redaction_candidates: Seq<RedactionCandidateView>,
    pub ai_router_signals: bool,
    pub format_confidence: FormatConfidence,
    pub source_completeness: Ratio,
}

impl DeepView for TranscriptContext {
    type V = TranscriptContextView;

    open spec fn deep_view(&self) -> TranscriptContextView {
        TranscriptContextView {
            document_type: self.document_type,
            profile_name: self.profile_name@,
            metadata: self.metadata.deep_view(),
            language: self.language.deep_view(),
            participants: self.participants.deep_view(),
            primary_questioner: self.primary_questioner.deep_view(),
            primary_witness: self.primary_witness.deep_view(),
            marker_rules: self.marker_rules.deep_view(),
            format_fingerprint: self.format_fingerprint.deep_view(),
            layout_summary: self.layout_summary,
            typical_line_min: self.typical_line_min,
            typical_line_max: self.typical_line_max,
            page_contexts: self.page_contexts.deep_view(),
            gaps: self.gaps.deep_view(),
            redaction_summary: self.redaction_summary,
            redaction_candidates: self.redaction_candidates.deep_view(),
            ai_router_signals: self.ai_router_signals,
            format_confidence: self.format_confidence,
            source_completeness: self.source_completeness,
        }
    }
}

impl Clone for TranscriptContext {
    fn clone(&self) -> (r: Self)
        ensures
            r.deep_view() == self.deep_view(),
    {
        let r = TranscriptContext {
            document_type: self.document_type,
            profile_name: self.profile_name.clone(),
            metadata: self.metadata.clone(),
            language: self.language.clone(),
            participants: self.participants.clone(),
            primary_questioner: self.primary_questioner.clone(),
            primary_witness: self.primary_witness.clone(),
            marker_rules: self.marker_rules.clone(),
            format_fingerprint: self.format_fingerprint.clone(),
            layout_summary: self.layout_summary,
            typical_line_min: self.typical_line_min,
            typical_line_max: self.typical_line_max,
            page_contexts: self.page_contexts.clone(),
            gaps: self.gaps.clone(),
            redaction_summary: self.redaction_summary,
            redaction_candidates: self.redaction_candidates.clone(),
            ai_router_signals: self.ai_router_signals,
            format_confidence: self.format_confidence,
            source_completeness: self.source_completeness,
        };
        assert(r.participants.deep_view() =~= self.participants.deep_view());
        assert(r.marker_rules.deep_view() =~= self.marker_rules.deep_view());
        assert(r.page_contexts.deep_view() =~= self.page_contexts.deep_view());
        assert(r.gaps.deep_view() =~= self.gaps.deep_view());
        assert(r.redaction_candidates.deep_view() =~= self.redaction_candidates.deep_view());
        r
    }
}

/// The label printed on a physical page: that of the first context with its number.
pub open spec fn page_label(pages: Seq<PageContextView>, physical_page: u32) -> Option<Seq<char>>
    decreases pages.len(),
{
    if pages.len() == 0 {
        None
    } else if pages[0].physical_page == physical_page {
        pages[0].transcript_page
    } else {
        page_label(pages.drop_first(), physical_page)
    }
}

/// Computes [`page_label`].
pub fn find_page_label(pages: &Vec<PageContext>, physical_page: u32) -> (r: Option<String>)
    ensures
        r.deep_view() == page_label(pages.deep_view(), physical_page),
{
    let ghost all = pages.deep_view();
    assert(all.skip(0) =~= all);
    for i in 0..pages.len()
        invariant
            all == pages.deep_view(),
            page_label(all.skip(i as int), physical_page) == page_label(all, physical_page),
    {
        assert(all.skip(i as int)[0] == pages@[i as int].deep_view());
        assert(all.skip(i as int).drop_first() =~= all.skip(i + 1));
        if pages[i].physical_page == physical_page {
            return clone_option(&pages[i].transcript_page);
        }
    }
    assert(all.skip(pages@.len() as int).len() == 0);
    None
}

/// Where the first participant with an identifier stands, or the length of the list.
pub open spec fn participant_index(list: Seq<ParticipantView>, id: Seq<char>, from: int) -> int
    decreases list.len() - from,
{
    if 0 <= from < list.len() && list[from].id != id {
        participant_index(list, id, from + 1)
    } else {
        from
    }
}

/// The first participant with an identifier.
pub open spec fn participant_with_id(list: Seq<ParticipantView>, id: Seq<char>) -> Option<
    ParticipantView,
> {
    let i = participant_index(list, id, 0);
    if i < list.len() {
        Some(list[i])
    } else {
        None
    }
}

impl TranscriptContext {
    pub fn transcript_page_for(&self, physical_page: u32) -> (r: Option<String>)
        ensures
            r.deep_view() == page_label(self.deep_view().page_contexts, physical_page),
    {
        find_page_label(&self.page_contexts, physical_page)
    }

    pub fn participant_by_id(&self, id: &str) -> (r: Option<&Participant>)
        ensures
            r.deep_view() == participant_with_id(self.deep_view().participants, id@),
    {
        let ghost list = self.deep_view().participants;
        for i in 0..self.participants.len()
            invariant
                list == self.participants.deep_view(),
                participant_index(list, id@, i as int) == participant_index(list, id@, 0),
        {
            assert(list[i as int] == self.participants@[i as int].deep_view());
            if same(self.participants[i].id.as_str(), id) {
                return Some(&self.participants[i]);
            }
        }
        None
    }

    /// Whether a review by a model is called for, once the format confidence has been
    /// weighed against its threshold.
    pub fn ai_router_recommended(&self, low_format_confidence: bool) -> (r: bool)
        ensures
            r == (low_format_confidence || self.ai_router_signals),
    {
        low_format_confidence || self.ai_router_signals
    }
}

/// Where in the document a line stands.
#[derive(Debug)]
pub struct TranscriptLocation {
    pub physical_page: u32,
    pub transcript_page: Option<String>,
    pub line_number: Option<u16>,
}

/// The contents of a [`TranscriptLocation`].
#[verifier::ext_equal]
pub struct TranscriptLocationView {
    pub physical_page: u32,
    pub transcript_page: Option<Seq<char>>,
    pub line_number: Option<u16>,
}

impl DeepView for TranscriptLocation {
    type V = TranscriptLocationView;

    open spec fn deep_view(&self) -> TranscriptLocationView {
        TranscriptLocationView {
            physical_page: self.physical_page,
            transcript_page: self.transcript_page.deep_view(),
            line_number: self.line_number,
        }
    }
}

impl Clone for TranscriptLocation {
    fn clone(&self) -> (r: Self)
        ensures
            r.deep_view() == self.deep_view(),
    {
        TranscriptLocation {
            physical_page: self.physical_page,
            transcript_page: self.transcript_page.clone(),
            line_number: self.line_number,
        }
    }
}

/// A classified line of dialogue.
#[derive(Debug)]
pub struct TranscriptLine {
    pub source_row_id: String,
    pub physical_page: u32,
    pub transcript_page: Option<String>,
    pub line_number: Option<u16>,
    pub kind: LineKind,
    pub speaker: Option<Speaker>,
    pub participant_id: Option<String>,
    pub confidence: ClassificationConfidence,
    pub verification: VerificationStatus,
    pub source_continuity: SourceContinuity,
    pub evidence: ClassificationEvidence,
    pub starts_new_block: bool,
    pub text: String,
    pub raw_text: String,
}

/// The contents of a [`TranscriptLine`].
#[verifier::ext_equal]
pub struct TranscriptLineView {
    pub source_row_id: Seq<char>,
    pub physical_page: u32,
    pub transcript_page: Option<Seq<char>>,
    pub line_number: Option<u16>,
    pub kind: LineKind,
    pub speaker: Option<SpeakerView>,
    pub participant_id: Option<Seq<char>>,
    pub confidence: ClassificationConfidence,
    pub verification: VerificationStatus,
    pub source_continuity: SourceContinuity,
    pub evidence: ClassificationEvidenceView,
    pub starts_new_block: bool,
    pub text: Seq<char>,
    pub raw_text: Seq<char>,
}

impl DeepView for TranscriptLine {
    type V = TranscriptLineView;

    open spec fn deep_view(&self) -> TranscriptLineView {
        TranscriptLineView {
            source_row_id: self.source_row_id@,
            physical_page: self.physical_page,
            transcript_page: self.transcript_page.deep_view(),
            line_number: self.line_number,
            kind: self.kind,
            speaker: self.speaker.deep_view(),
            participant_id: self.participant_id.deep_view(),
            confidence: self.confidence,
            verification: self.verification,
            source_continuity: self.source_continuity,
            evidence: self.evidence.deep_view(),
            starts_new_block: self.starts_new_block,
            text: self.text@,
            raw_text: self.raw_text@,
        }
    }
}

impl Clone for TranscriptLine {
    fn clone(&self) -> (r: Self)
        ensures
            r.deep_view() == self.deep_view(),
    {
        TranscriptLine {
            source_row_id: self.source_row_id.clone(),
            physical_page: self.physical_page,
            transcript_page: self.transcript_page.clone(),
            line_number: self.line_number,
            kind: self.kind,
            speaker: self.speaker.clone(),
            participant_id: self.participant_id.clone(),
            confidence: self.confidence,
            verification: self.verification,
            source_continuity: self.source_continuity,
            evidence: self.evidence.clone(),
            starts_new_block: self.starts_new_block,
            text: self.text.clone(),
            raw_text: self.raw_text.clone(),
        }
    }
}

/// Consecutive lines of one turn.
#[derive(Debug)]
pub struct TranscriptBlock {
    pub source_row_ids: Vec<String>,
    pub id: String,
    pub kind: LineKind,
    pub speaker: Option<Speaker>,
    pub participant_id: Option<String>,
    pub confidence: ClassificationConfidence,
    pub verification: VerificationStatus,
    pub source_continuity: SourceContinuity,
    pub start: TranscriptLocation,
    pub end: TranscriptLocation,
    pub text: String,
}

/// The contents of a [`TranscriptBlock`].
#[verifier::ext_equal]
pub struct TranscriptBlockView {
    pub source_row_ids: Seq<Seq<char>>,
    pub id: Seq<char>,
    pub kind: LineKind,
    pub speaker: Option<SpeakerView>,
    pub participant_id: Option<Seq<char>>,
    pub confidence: ClassificationConfidence,
    pub verification: VerificationStatus,
    pub source_continuity: SourceContinuity,
    pub start: TranscriptLocationView,
    pub end: TranscriptLocationView,
    pub text: Seq<char>,
}

impl DeepView for TranscriptBlock {
    type V = TranscriptBlockView;

    open spec fn deep_view(&self) -> TranscriptBlockView {
        TranscriptBlockView {
            source_row_ids: self.source_row_ids.deep_view(),
            id: self.id@,
            kind: self.kind,
            speaker: self.speaker.deep_view(),
            participant_id: self.participant_id.deep_view(),
            confidence: self.confidence,
            verification: self.verification,
            source_continuity: self.source_continuity,
            start: self.start.deep_view(),
            end: self.end.deep_view(),
            text: self.text@,
        }
    }
}

impl Clone for TranscriptBlock {
    fn clone(&self) -> (r: Self)
        ensures
            r.deep_view() == self.deep_view(),
    {
        let r = TranscriptBlock {
            source_row_ids: self.source_row_ids.clone(),
            id: self.id.clone(),
            kind: self.kind,
            speaker: self.speaker.clone(),
            participant_id: self.participant_id.clone(),
            confidence: self.confidence,
            verification: self.verification,
            source_continuity: self.source_continuity,
            start: self.start.clone(),
            end: self.end.clone(),
            text: self.text.clone(),
        };
        assert(r.source_row_ids.deep_view() =~= self.source_row_ids.deep_view());
        r
    }
}

/// A question and what follows it up to the next.
#[derive(Debug)]
pub struct TestimonyExchange {
    pub question: TranscriptBlock,
    pub response_sequence: Vec<TranscriptBlock>,
}

/// The contents of a [`TestimonyExchange`].
#[verifier::ext_equal]
pub struct TestimonyExchangeView {
    pub question: TranscriptBlockView,
    pub response_sequence: Seq<TranscriptBlockView>,
}

impl DeepView for TestimonyExchange {
    type V = TestimonyExchangeView;

    open spec fn deep_view(&self) -> TestimonyExchangeView {
        TestimonyExchangeView {
            question: self.question.deep_view(),
            response_sequence: self.response_sequence.deep_view(),
        }
    }
}

impl Clone for TestimonyExchange {
    fn clone(&self) -> (r: Self)
        ensures
            r.deep_view() == self.deep_view(),
    {
        let r = TestimonyExchange {
            question: self.question.clone(),
            response_sequence: self.response_sequence.clone(),
        };
        assert(r.response_sequence.deep_view() =~= self.response_sequence.deep_view());
        r
    }
}

/// How one block relates to another.
#[derive(Debug, Clone, Copy, PartialEq, Eq, Structural)]
pub enum GraphEdgeKind {
    RespondsTo,
    Interrupts,
    ResumesAfter,
    Follows,
    Interprets,
}

/// A block as a node of the conversation.
#[derive(Debug)]
pub struct TranscriptGraphNode {
    pub id: String,
    pub block_id: String,
    pub kind: LineKind,
    pub participant_id: Option<String>,
}

/// The contents of a [`TranscriptGraphNode`].
#[verifier::ext_equal]
pub struct TranscriptGraphNodeView {
    pub id: Seq<char>,
    pub block_id: Seq<char>,
    pub kind: LineKind,
    pub participant_id: Option<Seq<char>>,
}

impl DeepView for TranscriptGraphNode {
    type V = TranscriptGraphNodeView;

    open spec fn deep_view(&self) -> TranscriptGraphNodeView {
        TranscriptGraphNodeView {
            id: self.id@,
            block_id: self.block_id@,
            kind: self.kind,
            participant_id: self.participant_id.deep_view(),
        }
    }
}

impl Clone for TranscriptGraphNode {
    fn clone(&self) -> (r: Self)
        ensures
            r.deep_view() == self.deep_view(),
    {
        TranscriptGraphNode {
            id: self.id.clone(),
            block_id: self.block_id.clone(),
            kind: self.kind,
            participant_id: self.participant_id.clone(),
        }
    }
}

/// A relation between two blocks.
#[derive(Debug)]
pub struct TranscriptGraphEdge {
    pub from: String,
    pub to: String,
    pub kind: GraphEdgeKind,
}

/// The contents of a [`TranscriptGraphEdge`].
#[verifier::ext_equal]
pub struct TranscriptGraphEdgeView {
    pub from: Seq<char>,
    pub to: Seq<char>,
    pub kind: GraphEdgeKind,
}

impl DeepView for TranscriptGraphEdge {
    type V = TranscriptGraphEdgeView;

    open spec fn deep_view(&self) -> TranscriptGraphEdgeView {
        TranscriptGraphEdgeView {
            from: self.from@,
            to: self.to@,
            kind: self.kind,
        }
    }
}

impl Clone for TranscriptGraphEdge {
    fn clone(&self) -> (r: Self)
        ensures
            r.deep_view() == self.deep_view(),
    {
        TranscriptGraphEdge {
            from: self.from.clone(),
            to: self.to.clone(),
            kind: self.kind,
        }
    }
}

/// The blocks of a document and how they relate.
#[derive(Debug)]
pub struct TranscriptGraph {
    pub nodes: Vec<TranscriptGraphNode>,
    pub edges: Vec<TranscriptGraphEdge>,
}

/// The contents of a [`TranscriptGraph`].
#[verifier::ext_equal]
pub struct TranscriptGraphView {
    pub nodes: Seq<TranscriptGraphNodeView>,
    pub edges: Seq<TranscriptGraphEdgeView>,
}

impl DeepView for TranscriptGraph {
    type V = TranscriptGraphView;

    open spec fn deep_view(&self) -> TranscriptGraphView {
        TranscriptGraphView {
            nodes: self.nodes.deep_view(),
            edges: self.edges.deep_view(),
        }
    }
}

impl Clone for TranscriptGraph {
    fn clone(&self) -> (r: Self)
        ensures
            r.deep_view() == self.deep_view(),
    {
        let r = TranscriptGraph {
            nodes: self.nodes.clone(),
            edges: self.edges.clone(),
        };
        assert(r.nodes.deep_view() =~= self.nodes.deep_view());
        assert(r.edges.deep_view() =~= self.edges.deep_view());
        r
    }
}

/// A line that disagrees with its source.
#[derive(Debug)]
pub struct VerificationIssue {
    pub physical_page: u32,
    pub transcript_page: Option<String>,
    pub line_number: Option<u16>,
    pub code: String,
    pub message: String,
}

/// The contents of a [`VerificationIssue`].
#[verifier::ext_equal]
pub struct VerificationIssueView {
    pub physical_page: u32,
    pub transcript_page: Option<Seq<char>>,
    pub line_number: Option<u16>,
    pub code: Seq<char>,
    pub message: Seq<char>,
}

impl DeepView for VerificationIssue {
    type V = VerificationIssueView;

    open spec fn deep_view(&self) -> VerificationIssueView {
        VerificationIssueView {
            physical_page: self.physical_page,
            transcript_page: self.transcript_page.deep_view(),
            line_number: self.line_number,
            code: self.code@,
            message: self.message@,
        }
    }
}

impl Clone for VerificationIssue {
    fn clone(&self) -> (r: Self)
        ensures
            r.deep_view() == self.deep_view(),
    {
        VerificationIssue {
            physical_page: self.physical_page,
            transcript_page: self.transcript_page.clone(),
            line_number: self.line_number,
            code: self.code.clone(),
            message: self.message.clone(),
        }
    }
}

/// How a parse went, in numbers.
#[derive(Debug, Clone, Copy)]
pub struct ParseDiagnostics {
    pub inferred_lines: usize,
    pub unknown_lines: usize,
    pub verified_lines: usize,
    pub verified_with_inference_lines: usize,
    pub conflict_lines: usize,
    pub uncertain_lines: usize,
    pub detected_transcript_pages: usize,
    pub physical_pages_without_transcript_page: usize,
    pub unanswered_questions: usize,
    pub unpaired_answers: usize,
    pub detected_gaps: usize,
    pub anonymous_participants: usize,
    pub explicit_redaction_annotations: usize,
    pub dark_redaction_candidates: usize,
    pub textual_redaction_markers: usize,
}

impl DeepView for ParseDiagnostics {
    type V = ParseDiagnostics;

    open spec fn deep_view(&self) -> ParseDiagnostics {
        *self
    }
}

/// A document with everything that was made of it.
#[derive(Debug)]
pub struct ParsedTranscript {
    pub schema_version: String,
    pub source_sha256: Option<String>,
    pub quality: QualityReport,
    pub source_pages: Vec<ExtractedPage>,
    pub filename: String,
    pub profile: String,
    pub physical_page_count: usize,
    pub transcript_page_count: usize,
    pub line_count: usize,
    pub context: TranscriptContext,
    pub lines: Vec<TranscriptLine>,
    pub blocks: Vec<TranscriptBlock>,
    pub exchanges: Vec<TestimonyExchange>,
    pub graph: TranscriptGraph,
    pub omni: TranscriptIr,
    pub unpaired_answers: Vec<TranscriptBlock>,
    pub verification_issues: Vec<VerificationIssue>,
    pub diagnostics: ParseDiagnostics,
}

/// The contents of a [`ParsedTranscript`].
#[verifier::ext_equal]
pub struct ParsedTranscriptView {
    pub schema_version: Seq<char>,
    pub source_sha256: Option<Seq<char>>,
    pub quality: QualityReportView,
    pub source_pages: Seq<ExtractedPageView>,
    pub filename: Seq<char>,
    pub profile: Seq<char>,
    pub physical_page_count: usize,
    pub transcript_page_count: usize,
    pub line_count: usize,
    pub context: TranscriptContextView,
    pub lines: Seq<TranscriptLineView>,
    pub blocks: Seq<TranscriptBlockView>,
    pub exchanges: Seq<TestimonyExchangeView>,
    pub graph: TranscriptGraphView,
    pub omni: TranscriptIrView,
    pub unpaired_answers: Seq<TranscriptBlockView>,
    pub verification_issues: Seq<VerificationIssueView>,
    pub diagnostics: ParseDiagnostics,
}

impl DeepView for ParsedTranscript {
    type V = ParsedTranscriptView;

    open spec fn deep_view(&self) -> ParsedTranscriptView {
        ParsedTranscriptView {
            schema_version: self.schema_version@,
            source_sha256: self.source_sha256.deep_view(),
            quality: self.quality.deep_view(),
            source_pages: self.source_pages.deep_view(),
            filename: self.filename@,
            profile: self.profile@,
            physical_page_count: self.physical_page_count,
            transcript_page_count: self.transcript_page_count,
            line_count: self.line_count,
            context: self.context.deep_view(),
            lines: self.lines.deep_view(),
            blocks: self.blocks.deep_view(),
            exchanges: self.exchanges.deep_view(),
            graph: self.graph.deep_view(),
            omni: self.omni.deep_view(),
            unpaired_answers: self.unpaired_answers.deep_view(),
            verification_issues: self.verification_issues.deep_view(),
            diagnostics: self.diagnostics,
        }
    }
}

// ---------------------------------------------------------------------------
// Laws
// ---------------------------------------------------------------------------

/// The label of a physical page is that of the first page of its number that is known; a page that
/// is not known has none.
pub proof fn law_pages_have_their_label(pages: Seq<PageContextView>, physical_page: u32, i: int)
    ensures
        (forall|k: int|
            0 <= k < pages.len() ==> (#[trigger] pages[k]).physical_page != physical_page)
            ==> page_label(pages, physical_page) is None,
        0 <= i < pages.len() && pages[i].physical_page == physical_page && (forall|k: int|
            0 <= k < i ==> (#[trigger] pages[k]).physical_page != physical_page) ==> page_label(
            pages,
            physical_page,
        ) == pages[i].transcript_page,
    decreases pages.len(),
{
    if pages.len() > 0 && pages[0].physical_page != physical_page {
        let rest = pages.drop_first();
        law_pages_have_their_label(rest, physical_page, i - 1);
        assert(forall|k: int| 0 <= k < rest.len() ==> #[trigger] rest[k] == pages[k + 1]);
        if 0 < i < pages.len() {
            assert(rest[i - 1] == pages[i]);
        }
    }
}

/// A participant is found by identifier: the first who has it, and nobody where nobody does.
pub proof fn law_participants_are_found(list: Seq<ParticipantView>, id: Seq<char>, i: int)
    ensures
        (forall|k: int| 0 <= k < list.len() ==> (#[trigger] list[k]).id != id)
            ==> participant_with_id(list, id) is None,
        0 <= i < list.len() && list[i].id == id && (forall|k: int|
            0 <= k < i ==> (#[trigger] list[k]).id != id) ==> participant_with_id(list, id) == Some(
            list[i],
        ),
{
    lemma_participant_found(list, id, 0);
}

proof fn lemma_participant_found(list: Seq<ParticipantView>, id: Seq<char>, from: int)
    requires
        0 <= from <= list.len(),
    ensures
        from <= participant_index(list, id, from) <= list.len(),
        forall|k: int|
            from <= k < participant_index(list, id, from) ==> (#[trigger] list[k]).id != id,
        participant_index(list, id, from) < list.len() ==> list[participant_index(
            list,
            id,
            from,
        )].id == id,
    decreases list.len() - from,
{
    if from < list.len() && list[from].id != id {
        lemma_participant_found(list, id, from + 1);
    }
}

} // verus!
