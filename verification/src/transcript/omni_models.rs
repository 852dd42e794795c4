//! A parsed transcript as consumers read it: rows, utterances and relations.
use vstd::prelude::*;

use crate::document::models::{PageSection, TextSource};
use crate::measure::{Measure, Ratio};
use crate::transcript::models::{DocumentType, Participant, ParticipantView, VerificationStatus};

verus! {

/// The convention by which a run of pages marks its turns.
#[derive(Debug, Clone, Copy, PartialEq, Eq, Structural)]
pub enum FormatGrammarKind {
    SpeakerPrefixed,
    QaMarkers,
    Hybrid,
    Procedural,
    Unknown,
}

/// What a row opens.
#[derive(Debug, Clone, Copy, PartialEq, Eq, Structural)]
pub enum RowEventKind {
    SpeakerAnchor,
    QuestionMarker,
    AnswerMarker,
    ExaminationHeading,
    Parenthetical,
    Procedural,
    PageHeader,
    Redaction,
    Text,
    Unknown,
}

/// What an utterance does in the conversation.
#[derive(Debug, Clone, Copy, PartialEq, Eq, Structural)]
pub enum DiscourseRole {
    Question,
    Response,
    Statement,
    Objection,
    Interjection,
    Clarification,
    Interpretation,
    Procedural,
    Unknown,
}

/// What an entity is.
#[derive(Debug, Clone, Copy, PartialEq, Eq, Structural)]
pub enum EntityKind {
    Person,
    Organization,
    Location,
    Exhibit,
    Unknown,
}

/// How one utterance relates to another.
#[derive(Debug, Clone, Copy, PartialEq, Eq, Structural)]
pub enum ConversationRelation {
    Follows,
    RespondsTo,
    Interrupts,
    Resumes,
    Clarifies,
    ObjectsTo,
}

/// The document as a whole.
#[derive(Debug, Clone, Copy)]
pub struct TranscriptIrDocument {
    pub document_type: DocumentType,
    pub physical_page_count: usize,
    pub transcript_page_count: usize,
    pub positioned_text_pages: usize,
    pub ocr_required_pages: usize,
}

impl DeepView for TranscriptIrDocument {
    type V = TranscriptIrDocument;

    open spec fn deep_view(&self) -> TranscriptIrDocument {
        *self
    }
}

/// A run of pages that follow one convention.
#[derive(Debug)]
pub struct FormatRegion {
    pub id: String,
    pub grammar: FormatGrammarKind,
    pub physical_page_start: u32,
    pub physical_page_end: u32,
    pub speaker_anchor_observations: usize,
    pub question_marker_observations: usize,
    pub answer_marker_observations: usize,
    pub examination_heading_observations: usize,
    /// In hundredths.
    pub confidence: u8,
}

/// The contents of a [`FormatRegion`].
#[verifier::ext_equal]
pub struct FormatRegionView {
    pub id: Seq<char>,
    pub grammar: FormatGrammarKind,
    pub physical_page_start: u32,
    pub physical_page_end: u32,
    pub speaker_anchor_observations: usize,
    pub question_marker_observations: usize,
    pub answer_marker_observations: usize,
    pub examination_heading_observations: usize,
    pub confidence: u8,
}

impl DeepView for FormatRegion {
    type V = FormatRegionView;

    open spec fn deep_view(&self) -> FormatRegionView {
        FormatRegionView {
            id: self.id@,
            grammar: self.grammar,
            physical_page_start: self.physical_page_start,
            physical_page_end: self.physical_page_end,
            speaker_anchor_observations: self.speaker_anchor_observations,
            question_marker_observations: self.question_marker_observations,
            answer_marker_observations: self.answer_marker_observations,
            examination_heading_observations: self.examination_heading_observations,
            confidence: self.confidence,
        }
    }
}

impl Clone for FormatRegion {
    fn clone(&self) -> (r: Self)
        ensures
            r.deep_view() == self.deep_view(),
    {
        FormatRegion {
            id: self.id.clone(),
            grammar: self.grammar,
            physical_page_start: self.physical_page_start,
            physical_page_end: self.physical_page_end,
            speaker_anchor_observations: self.speaker_anchor_observations,
            question_marker_observations: self.question_marker_observations,
            answer_marker_observations: self.answer_marker_observations,
            examination_heading_observations: self.examination_heading_observations,
            confidence: self.confidence,
        }
    }
}

/// What becomes of a row.
#[derive(Debug, Clone, Copy, PartialEq, Eq, Structural)]
pub enum RowDisposition {
    Dialogue,
    FrontMatter,
    Reference,
    PageFurniture,
    BlankNumberedLine,
    Unclassified,
}

/// A row of the source inventory.
#[derive(Debug)]
pub struct CanonicalRow {
    pub disposition: RowDisposition,
    pub section: PageSection,
    pub panel: u16,
    pub bbox: Option<[Measure; 4]>,
    pub ocr_confidence: Option<Measure>,
    pub timestamp: Option<String>,
    pub id: String,
    pub physical_page: u32,
    pub transcript_page: Option<String>,
    pub row_index: usize,
    pub line_number: Option<u16>,
    pub text: String,
    pub raw_text: String,
    pub event_kind: RowEventKind,
    pub speaker_anchor_label: Option<String>,
    pub speaker_participant_id: Option<String>,
    pub format_region_id: Option<String>,
    pub source: TextSource,
}

/// The contents of a [`CanonicalRow`].
#[verifier::ext_equal]
pub struct CanonicalRowView {
    pub disposition: RowDisposition,
    pub section: PageSection,
    pub panel: u16,
    pub bbox: Option<[Measure; 4]>,
    pub ocr_confidence: Option<Measure>,
    pub timestamp: Option<Seq<char>>,
    pub id: Seq<char>,
    pub physical_page: u32,
    pub transcript_page: Option<Seq<char>>,
    pub row_index: usize,
    pub line_number: Option<u16>,
    pub text: Seq<char>,
    pub raw_text: Seq<char>,
    pub event_kind: RowEventKind,
    pub speaker_anchor_label: Option<Seq<char>>,
    pub speaker_participant_id: Option<Seq<char>>,
    pub format_region_id: Option<Seq<char>>,
    pub source: TextSource,
}

impl DeepView for CanonicalRow {
    type V = CanonicalRowView;

    open spec fn deep_view(&self) -> CanonicalRowView {
        CanonicalRowView {
            disposition: self.disposition,
            section: self.section,
            panel: self.panel,
            bbox: self.bbox,
            ocr_confidence: self.ocr_confidence,
            timestamp: self.timestamp.deep_view(),
            id: self.id@,
            physical_page: self.physical_page,
            transcript_page: self.transcript_page.deep_view(),
            row_index: self.row_index,
            line_number: self.line_number,
            text: self.text@,
            raw_text: self.raw_text@,
            event_kind: self.event_kind,
            speaker_anchor_label: self.speaker_anchor_label.deep_view(),
            speaker_participant_id: self.speaker_participant_id.deep_view(),
            format_region_id: self.format_region_id.deep_view(),
            source: self.source,
        }
    }
}

impl Clone for CanonicalRow {
    fn clone(&self) -> (r: Self)
        ensures
            r.deep_view() == self.deep_view(),
    {
        CanonicalRow {
            disposition: self.disposition,
            section: self.section,
            panel: self.panel,
            bbox: self.bbox,
            ocr_confidence: self.ocr_confidence,
            timestamp: self.timestamp.clone(),
            id: self.id.clone(),
            physical_page: self.physical_page,
            transcript_page: self.transcript_page.clone(),
            row_index: self.row_index,
            line_number: self.line_number,
            text: self.text.clone(),
            raw_text: self.raw_text.clone(),
            event_kind: self.event_kind,
            speaker_anchor_label: self.speaker_anchor_label.clone(),
            speaker_participant_id: self.speaker_participant_id.clone(),
            format_region_id: self.format_region_id.clone(),
            source: self.source,
        }
    }
}

/// An utterance that crosses the edge of a page.
#[derive(Debug)]
pub struct PageContinuity {
    pub utterance_id: String,
    pub participant_id: Option<String>,
}

/// The contents of a [`PageContinuity`].
#[verifier::ext_equal]
pub struct PageContinuityView {
    pub utterance_id: Seq<char>,
    pub participant_id: Option<Seq<char>>,
}

impl DeepView for PageContinuity {
    type V = PageContinuityView;

    open spec fn deep_view(&self) -> PageContinuityView {
        PageContinuityView {
            utterance_id: self.utterance_id@,
            participant_id: self.participant_id.deep_view(),
        }
    }
}

impl Clone for PageContinuity {
    fn clone(&self) -> (r: Self)
        ensures
            r.deep_view() == self.deep_view(),
    {
        PageContinuity {
            utterance_id: self.utterance_id.clone(),
            participant_id: self.participant_id.clone(),
        }
    }
}

/// A page and what stands on it.
#[derive(Debug)]
pub struct PageFrame {
    pub physical_page: u32,
    pub transcript_page: Option<String>,
    pub section: PageSection,
    pub row_ids: Vec<String>,
    pub format_region_ids: Vec<String>,
    pub continuity_in: Option<PageContinuity>,
    pub continuity_out: Option<PageContinuity>,
}

/// The contents of a [`PageFrame`].
#[verifier::ext_equal]
pub struct PageFrameView {
    pub physical_page: u32,
    pub transcript_page: Option<Seq<char>>,
    pub section: PageSection,
    pub row_ids: Seq<Seq<char>>,
    pub format_region_ids: Seq<Seq<char>>,
    pub continuity_in: Option<PageContinuityView>,
    pub continuity_out: Option<PageContinuityView>,
}

impl DeepView for PageFrame {
    type V = PageFrameView;

    open spec fn deep_view(&self) -> PageFrameView {
        PageFrameView {
            physical_page: self.physical_page,
            transcript_page: self.transcript_page.deep_view(),
            section: self.section,
            row_ids: self.row_ids.deep_view(),
            format_region_ids: self.format_region_ids.deep_view(),
            continuity_in: self.continuity_in.deep_view(),
            continuity_out: self.continuity_out.deep_view(),
        }
    }
}

impl Clone for PageFrame {
    fn clone(&self) -> (r: Self)
        ensures
            r.deep_view() == self.deep_view(),
    {
        let r = PageFrame {
            physical_page: self.physical_page,
            transcript_page: self.transcript_page.clone(),
            section: self.section,
            row_ids: self.row_ids.clone(),
            format_region_ids: self.format_region_ids.clone(),
            continuity_in: self.continuity_in.clone(),
            continuity_out: self.continuity_out.clone(),
        };
        assert(r.row_ids.deep_view() =~= self.row_ids.deep_view());
        assert(r.format_region_ids.deep_view() =~= self.format_region_ids.deep_view());
        r
    }
}

/// Consecutive rows of one page.
#[derive(Debug)]
pub struct SourceSpan {
    pub physical_page_start: u32,
    pub physical_page_end: u32,
    pub transcript_page_start: Option<String>,
    pub transcript_page_end: Option<String>,
    pub line_start: Option<u16>,
    pub line_end: Option<u16>,
    pub row_ids: Vec<String>,
}

/// The contents of a [`SourceSpan`].
#[verifier::ext_equal]
pub struct SourceSpanView {
    pub physical_page_start: u32,
    pub physical_page_end: u32,
    pub transcript_page_start: Option<Seq<char>>,
    pub transcript_page_end: Option<Seq<char>>,
    pub line_start: Option<u16>,
    pub line_end: Option<u16>,
    pub row_ids: Seq<Seq<char>>,
}

impl DeepView for SourceSpan {
    type V = SourceSpanView;

    open spec fn deep_view(&self) -> SourceSpanView {
        SourceSpanView {
            physical_page_start: self.physical_page_start,
            physical_page_end: self.physical_page_end,
            transcript_page_start: self.transcript_page_start.deep_view(),
            transcript_page_end: self.transcript_page_end.deep_view(),
            line_start: self.line_start,
            line_end: self.line_end,
            row_ids: self.row_ids.deep_view(),
        }
    }
}

impl Clone for SourceSpan {
    fn clone(&self) -> (r: Self)
        ensures
            r.deep_view() == self.deep_view(),
    {
        let r = SourceSpan {
            physical_page_start: self.physical_page_start,
            physical_page_end: self.physical_page_end,
            transcript_page_start: self.transcript_page_start.clone(),
            transcript_page_end: self.transcript_page_end.clone(),
            line_start: self.line_start,
            line_end: self.line_end,
            row_ids: self.row_ids.clone(),
        };
        assert(r.row_ids.deep_view() =~= self.row_ids.deep_view());
        r
    }
}

/// Someone or something that the document speaks of.
#[derive(Debug)]
pub struct Entity {
    pub id: String,
    pub canonical_label: String,
    pub kind: EntityKind,
    pub participant_id: Option<String>,
    pub observed_mentions: usize,
}

/// The contents of a [`Entity`].
#[verifier::ext_equal]
pub struct EntityView {
    pub id: Seq<char>,
    pub canonical_label: Seq<char>,
    pub kind: EntityKind,
    pub participant_id: Option<Seq<char>>,
    pub observed_mentions: usize,
}

impl DeepView for Entity {
    type V = EntityView;

    open spec fn deep_view(&self) -> EntityView {
        EntityView {
            id: self.id@,
            canonical_label: self.canonical_label@,
            kind: self.kind,
            participant_id: self.participant_id.deep_view(),
            observed_mentions: self.observed_mentions,
        }
    }
}

impl Clone for Entity {
    fn clone(&self) -> (r: Self)
        ensures
            r.deep_view() == self.deep_view(),
    {
        Entity {
            id: self.id.clone(),
            canonical_label: self.canonical_label.clone(),
            kind: self.kind,
            participant_id: self.participant_id.clone(),
            observed_mentions: self.observed_mentions,
        }
    }
}

/// A place where an entity is mentioned.
#[derive(Debug)]
pub struct EntityMention {
    pub id: String,
    pub entity_id: String,
    pub utterance_id: String,
    pub text: String,
    pub char_start: usize,
    pub char_end: usize,
}

/// The contents of a [`EntityMention`].
#[verifier::ext_equal]
pub struct EntityMentionView {
    pub id: Seq<char>,
    pub entity_id: Seq<char>,
    pub utterance_id: Seq<char>,
    pub text: Seq<char>,
    pub char_start: usize,
    pub char_end: usize,
}

impl DeepView for EntityMention {
    type V = EntityMentionView;

    open spec fn deep_view(&self) -> EntityMentionView {
        EntityMentionView {
            id: self.id@,
            entity_id: self.entity_id@,
            utterance_id: self.utterance_id@,
            text: self.text@,
            char_start: self.char_start,
            char_end: self.char_end,
        }
    }
}

impl Clone for EntityMention {
    fn clone(&self) -> (r: Self)
        ensures
            r.deep_view() == self.deep_view(),
    {
        EntityMention {
            id: self.id.clone(),
            entity_id: self.entity_id.clone(),
            utterance_id: self.utterance_id.clone(),
            text: self.text.clone(),
            char_start: self.char_start,
            char_end: self.char_end,
        }
    }
}

/// How sure an utterance is, aspect by aspect.
#[derive(Debug, Clone, Copy)]
pub struct UtteranceConfidence {
    pub speaker: Measure,
    pub boundary: Measure,
    pub discourse_role: Measure,
    pub source: Measure,
}

impl DeepView for UtteranceConfidence {
    type V = UtteranceConfidence;

    open spec fn deep_view(&self) -> UtteranceConfidence {
        *self
    }
}

/// A turn of the conversation with the rows that it was read from.
#[derive(Debug)]
pub struct Utterance {
    pub id: String,
    pub participant_id: Option<String>,
    pub speaker_label: Option<String>,
    pub discourse_role: DiscourseRole,
    pub text: String,
    pub source_spans: Vec<SourceSpan>,
    pub confidence: UtteranceConfidence,
    pub verification: VerificationStatus,
}

/// The contents of a [`Utterance`].
#[verifier::ext_equal]
pub struct UtteranceView {
    pub id: Seq<char>,
    pub participant_id: Option<Seq<char>>,
    pub speaker_label: Option<Seq<char>>,
    pub discourse_role: DiscourseRole,
    pub text: Seq<char>,
    pub source_spans: Seq<SourceSpanView>,
    pub confidence: UtteranceConfidence,
    pub verification: VerificationStatus,
}

impl DeepView for Utterance {
    type V = UtteranceView;

    open spec fn deep_view(&self) -> UtteranceView {
        UtteranceView {
            id: self.id@,
            participant_id: self.participant_id.deep_view(),
            speaker_label: self.speaker_label.deep_view(),
            discourse_role: self.discourse_role,
            text: self.text@,
            source_spans: self.source_spans.deep_view(),
            confidence: self.confidence,
            verification: self.verification,
        }
    }
}

impl Clone for Utterance {
    fn clone(&self) -> (r: Self)
        ensures
            r.deep_view() == self.deep_view(),
    {
        let r = Utterance {
            id: self.id.clone(),
            participant_id: self.participant_id.clone(),
            speaker_label: self.speaker_label.clone(),
            discourse_role: self.discourse_role,
            text: self.text.clone(),
            source_spans: self.source_spans.clone(),
            confidence: self.confidence,
            verification: self.verification,
        };
        assert(r.source_spans.deep_view() =~= self.source_spans.deep_view());
        r
    }
}

/// A relation between two utterances.
#[derive(Debug)]
pub struct ConversationEdge {
    pub from_utterance_id: String,
    pub to_utterance_id: String,
    pub relation: ConversationRelation,
    /// In hundredths.
    pub confidence: u8,
}

/// The contents of a [`ConversationEdge`].
#[verifier::ext_equal]
pub struct ConversationEdgeView {
    pub from_utterance_id: Seq<char>,
    pub to_utterance_id: Seq<char>,
    pub relation: ConversationRelation,
    pub confidence: u8,
}

impl DeepView for ConversationEdge {
    type V = ConversationEdgeView;

    open spec fn deep_view(&self) -> ConversationEdgeView {
        ConversationEdgeView {
            from_utterance_id: self.from_utterance_id@,
            to_utterance_id: self.to_utterance_id@,
            relation: self.relation,
            confidence: self.confidence,
        }
    }
}

impl Clone for ConversationEdge {
    fn clone(&self) -> (r: Self)
        ensures
            r.deep_view() == self.deep_view(),
    {
        ConversationEdge {
            from_utterance_id: self.from_utterance_id.clone(),
            to_utterance_id: self.to_utterance_id.clone(),
            relation: self.relation,
            confidence: self.confidence,
        }
    }
}

/// How the projection went, in numbers.
#[derive(Debug)]
pub struct OmniDiagnostics {
    pub canonical_rows: usize,
    pub transcript_rows: usize,
    pub rows_assigned_to_utterances: usize,
    pub unresolved_speaker_rows: usize,
    pub format_regions: usize,
    pub cross_page_utterances: usize,
    pub utterances: usize,
    pub entity_mentions: usize,
    pub source_row_coverage: Ratio,
    /// One for each utterance; the conversation confidence is their mean.
    pub conversation_scores: Vec<Measure>,
}

/// The contents of a [`OmniDiagnostics`].
#[verifier::ext_equal]
pub struct OmniDiagnosticsView {
    pub canonical_rows: usize,
    pub transcript_rows: usize,
    pub rows_assigned_to_utterances: usize,
    pub unresolved_speaker_rows: usize,
    pub format_regions: usize,
    pub cross_page_utterances: usize,
    pub utterances: usize,
    pub entity_mentions: usize,
    pub source_row_coverage: Ratio,
    pub conversation_scores: Seq<Measure>,
}

impl DeepView for OmniDiagnostics {
    type V = OmniDiagnosticsView;

    open spec fn deep_view(&self) -> OmniDiagnosticsView {
        OmniDiagnosticsView {
            canonical_rows: self.canonical_rows,
            transcript_rows: self.transcript_rows,
            rows_assigned_to_utterances: self.rows_assigned_to_utterances,
            unresolved_speaker_rows: self.unresolved_speaker_rows,
            format_regions: self.format_regions,
            cross_page_utterances: self.cross_page_utterances,
            utterances: self.utterances,
            entity_mentions: self.entity_mentions,
            source_row_coverage: self.source_row_coverage,
            conversation_scores: self.conversation_scores.deep_view(),
        }
    }
}

impl Clone for OmniDiagnostics {
    fn clone(&self) -> (r: Self)
        ensures
            r.deep_view() == self.deep_view(),
    {
        let r = OmniDiagnostics {
            canonical_rows: self.canonical_rows,
            transcript_rows: self.transcript_rows,
            rows_assigned_to_utterances: self.rows_assigned_to_utterances,
            unresolved_speaker_rows: self.unresolved_speaker_rows,
            format_regions: self.format_regions,
            cross_page_utterances: self.cross_page_utterances,
            utterances: self.utterances,
            entity_mentions: self.entity_mentions,
            source_row_coverage: self.source_row_coverage,
            conversation_scores: self.conversation_scores.clone(),
        };
        assert(r.conversation_scores.deep_view() =~= self.conversation_scores.deep_view());
        r
    }
}

/// A parsed transcript as consumers read it.
#[derive(Debug)]
pub struct TranscriptIr {
    pub document: TranscriptIrDocument,
    pub format_regions: Vec<FormatRegion>,
    pub participants: Vec<Participant>,
    pub entities: Vec<Entity>,
    pub entity_mentions: Vec<EntityMention>,
    pub page_frames: Vec<PageFrame>,
    pub canonical_rows: Vec<CanonicalRow>,
    pub utterances: Vec<Utterance>,
    pub conversation_edges: Vec<ConversationEdge>,
    pub diagnostics: OmniDiagnostics,
}

/// The contents of a [`TranscriptIr`].
#[verifier::ext_equal]
pub struct TranscriptIrView {
    pub document: TranscriptIrDocument,
    pub format_regions: Seq<FormatRegionView>,
    pub participants: Seq<ParticipantView>,
    pub entities: Seq<EntityView>,
    pub entity_mentions: Seq<EntityMentionView>,
    pub page_frames: Seq<PageFrameView>,
    pub canonical_rows: Seq<CanonicalRowView>,
    pub utterances: Seq<UtteranceView>,
    pub conversation_edges: Seq<ConversationEdgeView>,
    pub diagnostics: OmniDiagnosticsView,
}

impl DeepView for TranscriptIr {
    type V = TranscriptIrView;

    open spec fn deep_view(&self) -> TranscriptIrView {
        TranscriptIrView {
            document: self.document,
            format_regions: self.format_regions.deep_view(),
            participants: self.participants.deep_view(),
            entities: self.entities.deep_view(),
            entity_mentions: self.entity_mentions.deep_view(),
            page_frames: self.page_frames.deep_view(),
            canonical_rows: self.canonical_rows.deep_view(),
            utterances: self.utterances.deep_view(),
            conversation_edges: self.conversation_edges.deep_view(),
            diagnostics: self.diagnostics.deep_view(),
        }
    }
}

impl Clone for TranscriptIr {
    fn clone(&self) -> (r: Self)
        ensures
            r.deep_view() == self.deep_view(),
    {
        let r = TranscriptIr {
            document: self.document,
            format_regions: self.format_regions.clone(),
            participants: self.participants.clone(),
            entities: self.entities.clone(),
            entity_mentions: self.entity_mentions.clone(),
            page_frames: self.page_frames.clone(),
            canonical_rows: self.canonical_rows.clone(),
            utterances: self.utterances.clone(),
            conversation_edges: self.conversation_edges.clone(),
            diagnostics: self.diagnostics.clone(),
        };
        assert(r.format_regions.deep_view() =~= self.format_regions.deep_view());
        assert(r.participants.deep_view() =~= self.participants.deep_view());
        assert(r.entities.deep_view() =~= self.entities.deep_view());
        assert(r.entity_mentions.deep_view() =~= self.entity_mentions.deep_view());
        assert(r.page_frames.deep_view() =~= self.page_frames.deep_view());
        assert(r.canonical_rows.deep_view() =~= self.canonical_rows.deep_view());
        assert(r.utterances.deep_view() =~= self.utterances.deep_view());
        assert(r.conversation_edges.deep_view() =~= self.conversation_edges.deep_view());
        r
    }
}

} // verus!
