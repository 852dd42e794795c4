//! Turns: lines put together into blocks, and blocks into exchanges.
use vstd::prelude::*;

use crate::number::{decimal, lemma_decimal_value, padded_decimal, push_padded};
use crate::scan::{contains, end_trimmed, has_infix, lowercased, to_lower};
use crate::text::{clone_option, push_char, push_item, same_option};
use crate::transcript::classify::{add_evidence, asks, is_asking, with_item};
use crate::transcript::models::{
    same_speaker, ClassificationConfidence, EvidenceItemView, EvidenceSource, LineKind,
    SourceContinuity, SpeakerRole, TestimonyExchange, TestimonyExchangeView, TranscriptBlock,
    TranscriptBlockView, TranscriptLine, TranscriptLineView, TranscriptLocation,
    TranscriptLocationView, VerificationStatus,
};

verus! {

// ---------------------------------------------------------------------------
// Turns
// ---------------------------------------------------------------------------

/// Where the turn that opens at `start` ends: before the first line from `at` on that opens
/// a block or has another speaker.
pub open spec fn turn_end(lines: Seq<TranscriptLineView>, start: int, at: int) -> int
    decreases lines.len() - at,
{
    if 0 <= at < lines.len() && !lines[at].starts_new_block && lines[at].speaker
        == lines[start].speaker {
        turn_end(lines, start, at + 1)
    } else {
        at
    }
}

fn find_turn_end(lines: &Vec<TranscriptLine>, start: usize) -> (end: usize)
    requires
        start < lines@.len(),
    ensures
        end == turn_end(lines.deep_view(), start as int, start + 1),
        start < end <= lines@.len(),
{
    let len = lines.len();
    let mut end: usize = start + 1;
    while end < len && !lines[end].starts_new_block && same_speaker(
        &lines[end].speaker,
        &lines[start].speaker,
    )
        invariant
            len == lines@.len(),
            start < end <= len,
            turn_end(lines.deep_view(), start as int, end as int) == turn_end(
                lines.deep_view(),
                start as int,
                start + 1,
            ),
        decreases lines@.len() - end,
    {
        assert(lines.deep_view()[end as int] == lines@[end as int].deep_view());
        assert(lines.deep_view()[start as int] == lines@[start as int].deep_view());
        end += 1;
    }
    proof {
        if end < lines@.len() {
            assert(lines.deep_view()[end as int] == lines@[end as int].deep_view());
            assert(lines.deep_view()[start as int] == lines@[start as int].deep_view());
        }
    }
    end
}

/// Whether the evidence for a line rests on a speaker label.
pub open spec fn label_evidence(items: Seq<EvidenceItemView>) -> bool {
    exists|i: int| 0 <= i < items.len() && (#[trigger] items[i]).source == EvidenceSource::SpeakerLabel
}

/// Decides [`label_evidence`] for a line.
pub fn has_label_evidence(line: &TranscriptLine) -> (r: bool)
    ensures
        r == label_evidence(line.deep_view().evidence.items),
{
    let ghost items = line.deep_view().evidence.items;
    for i in 0..line.evidence.items.len()
        invariant
            items == line.evidence.items.deep_view(),
            forall|j: int| 0 <= j < i ==> (#[trigger] items[j]).source != EvidenceSource::SpeakerLabel,
    {
        assert(items[i as int] == line.evidence.items@[i as int].deep_view());
        if line.evidence.items[i].source == EvidenceSource::SpeakerLabel {
            return true;
        }
    }
    false
}

/// What the turn from `start` to `end` is found to be once it is seen whole: a labelled
/// turn that ends in a question mark is a question, and one by a witness after another's
/// question is an answer.
pub open spec fn turn_kind(
    lines: Seq<TranscriptLineView>,
    start: int,
    end: int,
    asked_by: Option<Seq<char>>,
) -> Option<LineKind> {
    let first = lines[start];
    let settled = first.kind == LineKind::Question || first.kind == LineKind::Answer || first.kind
        == LineKind::Objection;
    if !label_evidence(first.evidence.items) || settled {
        None
    } else if asks(lines[end - 1].text) {
        Some(LineKind::Question)
    } else if (first.speaker matches Some(s) && s.role == SpeakerRole::Witness) && asked_by is Some
        && asked_by != first.participant_id {
        Some(LineKind::Answer)
    } else {
        None
    }
}

fn kind_of_turn(lines: &Vec<TranscriptLine>, start: usize, end: usize, asked_by: &Option<String>)
    -> (r: Option<LineKind>)
    requires
        start < end <= lines@.len(),
    ensures
        r == turn_kind(lines.deep_view(), start as int, end as int, asked_by.deep_view()),
{
    assert(lines.deep_view()[start as int] == lines@[start as int].deep_view());
    assert(lines.deep_view()[end - 1] == lines@[end - 1].deep_view());
    let first = &lines[start];
    if !has_label_evidence(first) || first.kind == LineKind::Question || first.kind
        == LineKind::Answer || first.kind == LineKind::Objection {
        return None;
    }
    if is_asking(lines[end - 1].text.as_str()) {
        return Some(LineKind::Question);
    }
    let witness = match &first.speaker {
        Some(s) => s.role == SpeakerRole::Witness,
        None => false,
    };
    if witness && asked_by.is_some() && !same_option(asked_by, &first.participant_id) {
        Some(LineKind::Answer)
    } else {
        None
    }
}

/// A line of a turn whose kind was found from the whole of it.
pub open spec fn retold(line: TranscriptLineView, kind: LineKind) -> TranscriptLineView {
    TranscriptLineView {
        kind,
        confidence: ClassificationConfidence::Inferred,
        evidence: with_item(
            line.evidence,
            EvidenceSource::RoleBehavior,
            70,
            "Discourse inferred from the complete labelled turn; participant role is unchanged."@,
        ),
        ..line
    }
}

fn retell(line: &mut TranscriptLine, kind: LineKind)
    ensures
        final(line).deep_view() == retold(old(line).deep_view(), kind),
{
    line.kind = kind;
    line.confidence = ClassificationConfidence::Inferred;
    add_evidence(
        &mut line.evidence,
        EvidenceSource::RoleBehavior,
        70,
        "Discourse inferred from the complete labelled turn; participant role is unchanged.",
    );
}

/// The lines with those of one turn retold.
pub open spec fn turn_retold(
    lines: Seq<TranscriptLineView>,
    start: int,
    end: int,
    kind: LineKind,
) -> Seq<TranscriptLineView> {
    Seq::new(
        lines.len(),
        |i: int|
            if start <= i < end {
                retold(lines[i], kind)
            } else {
                lines[i]
            },
    )
}

fn retell_turn(lines: &mut Vec<TranscriptLine>, start: usize, end: usize, kind: LineKind)
    requires
        start <= end <= old(lines)@.len(),
    ensures
        final(lines).deep_view() == turn_retold(
            old(lines).deep_view(),
            start as int,
            end as int,
            kind,
        ),
{
    let ghost before = lines.deep_view();
    assert(turn_retold(before, start as int, start as int, kind) =~= before);
    for i in start..end
        invariant
            before.len() == lines@.len(),
            start <= end <= lines@.len(),
            lines.deep_view() == turn_retold(before, start as int, i as int, kind),
    {
        let ghost view = lines.deep_view();
        assert(view[i as int] == lines@[i as int].deep_view());
        retell(&mut lines[i], kind);
        assert(lines.deep_view() =~= view.update(i as int, retold(view[i as int], kind)));
        assert(lines.deep_view() =~= turn_retold(before, start as int, i + 1, kind));
    }
}

/// Who asked last, after a line of a kind: a question names its speaker, and a heading or a
/// redaction makes the question forgotten.
pub open spec fn asker_after(line: TranscriptLineView, asked_by: Option<Seq<char>>) -> Option<
    Seq<char>,
> {
    match line.kind {
        LineKind::Question => line.participant_id,
        LineKind::ExaminationHeading | LineKind::Heading | LineKind::RedactionMarker => None,
        _ => asked_by,
    }
}

/// The lines with every turn from `start` on seen whole.
pub open spec fn turns_completed(
    lines: Seq<TranscriptLineView>,
    start: int,
    asked_by: Option<Seq<char>>,
) -> Seq<TranscriptLineView>
    decreases lines.len() - start,
{
    if start < 0 || start >= lines.len() {
        lines
    } else {
        let end = turn_end(lines, start, start + 1);
        let after = match turn_kind(lines, start, end, asked_by) {
            Some(kind) => turn_retold(lines, start, end, kind),
            None => lines,
        };
        proof {
            lemma_turn_end(lines, start, start + 1);
        }
        turns_completed(after, end, asker_after(after[start], asked_by))
    }
}

/// A turn ends after it starts and within the document.
pub proof fn lemma_turn_end(lines: Seq<TranscriptLineView>, start: int, at: int)
    requires
        0 <= at <= lines.len(),
    ensures
        at <= turn_end(lines, start, at) <= lines.len(),
    decreases lines.len() - at,
{
    if at < lines.len() && !lines[at].starts_new_block && lines[at].speaker
        == lines[start].speaker {
        lemma_turn_end(lines, start, at + 1);
    }
}

/// Looks at labelled turns as a whole.
pub fn complete_speaker_turns(lines: &mut Vec<TranscriptLine>)
    ensures
        final(lines).deep_view() == turns_completed(old(lines).deep_view(), 0, None),
{
    let ghost all = turns_completed(lines.deep_view(), 0, None);
    let mut start: usize = 0;
    let mut asked_by: Option<String> = None;
    while start < lines.len()
        invariant
            start <= lines@.len(),
            turns_completed(lines.deep_view(), start as int, asked_by.deep_view()) == all,
        decreases lines@.len() - start,
    {
        let ghost before = lines.deep_view();
        let end = find_turn_end(lines, start);
        match kind_of_turn(lines, start, end, &asked_by) {
            Some(kind) => {
                retell_turn(lines, start, end, kind);
                assert(lines.deep_view().len() == before.len());
            },
            None => {},
        }
        assert(lines.deep_view()[start as int] == lines@[start as int].deep_view());
        match lines[start].kind {
            LineKind::Question => {
                asked_by = clone_option(&lines[start].participant_id);
            },
            LineKind::ExaminationHeading | LineKind::Heading | LineKind::RedactionMarker => {
                asked_by = None;
            },
            _ => {},
        }
        start = end;
    }
}

/// What looking at whole turns leaves alone in a line: everything but its kind, its
/// confidence and its evidence.
pub open spec fn same_source(a: TranscriptLineView, b: TranscriptLineView) -> bool {
    a == (TranscriptLineView {
        kind: a.kind,
        confidence: a.confidence,
        evidence: a.evidence,
        ..b
    })
}

/// Looking at whole turns changes no text, no speaker and no participant, and neither adds
/// nor removes a line.
pub proof fn law_turns_keep_lines(
    lines: Seq<TranscriptLineView>,
    start: int,
    asked_by: Option<Seq<char>>,
)
    ensures
        turns_completed(lines, start, asked_by).len() == lines.len(),
        forall|i: int|
            0 <= i < lines.len() ==> same_source(
                #[trigger] turns_completed(lines, start, asked_by)[i],
                lines[i],
            ),
    decreases lines.len() - start,
{
    if 0 <= start < lines.len() {
        let end = turn_end(lines, start, start + 1);
        let after = match turn_kind(lines, start, end, asked_by) {
            Some(kind) => turn_retold(lines, start, end, kind),
            None => lines,
        };
        lemma_turn_end(lines, start, start + 1);
        law_turns_keep_lines(after, end, asker_after(after[start], asked_by));
        assert forall|i: int| 0 <= i < lines.len() implies same_source(
            #[trigger] turns_completed(lines, start, asked_by)[i],
            lines[i],
        ) by {
            let result = turns_completed(after, end, asker_after(after[start], asked_by));
            assert(same_source(result[i], after[i]));
            assert(same_source(after[i], lines[i]));
        }
    }
}

// ---------------------------------------------------------------------------
// Combining
// ---------------------------------------------------------------------------

/// The confidence in two lines together: the lower of the two.
pub open spec fn joint_confidence(left: ClassificationConfidence, right: ClassificationConfidence) ->
    ClassificationConfidence {
    if left == ClassificationConfidence::Unknown || right == ClassificationConfidence::Unknown {
        ClassificationConfidence::Unknown
    } else if left == ClassificationConfidence::Inferred || right
        == ClassificationConfidence::Inferred {
        ClassificationConfidence::Inferred
    } else {
        ClassificationConfidence::Explicit
    }
}

pub fn combine_confidence(left: ClassificationConfidence, right: ClassificationConfidence) -> (r:
    ClassificationConfidence)
    ensures
        r == joint_confidence(left, right),
{
    if left == ClassificationConfidence::Unknown || right == ClassificationConfidence::Unknown {
        ClassificationConfidence::Unknown
    } else if left == ClassificationConfidence::Inferred || right
        == ClassificationConfidence::Inferred {
        ClassificationConfidence::Inferred
    } else {
        ClassificationConfidence::Explicit
    }
}

/// How far two lines together agree with their source: the worse of the two.
pub open spec fn joint_verification(left: VerificationStatus, right: VerificationStatus) ->
    VerificationStatus {
    if left == VerificationStatus::Conflict || right == VerificationStatus::Conflict {
        VerificationStatus::Conflict
    } else if left == VerificationStatus::Uncertain || right == VerificationStatus::Uncertain {
        VerificationStatus::Uncertain
    } else if left == VerificationStatus::SourceMissing || right
        == VerificationStatus::SourceMissing {
        VerificationStatus::SourceMissing
    } else if left == VerificationStatus::Redacted || right == VerificationStatus::Redacted {
        VerificationStatus::Redacted
    } else if left == VerificationStatus::VerifiedWithInference || right
        == VerificationStatus::VerifiedWithInference {
        VerificationStatus::VerifiedWithInference
    } else {
        VerificationStatus::Verified
    }
}

pub fn combine_verification(left: VerificationStatus, right: VerificationStatus) -> (r:
    VerificationStatus)
    ensures
        r == joint_verification(left, right),
{
    if left == VerificationStatus::Conflict || right == VerificationStatus::Conflict {
        VerificationStatus::Conflict
    } else if left == VerificationStatus::Uncertain || right == VerificationStatus::Uncertain {
        VerificationStatus::Uncertain
    } else if left == VerificationStatus::SourceMissing || right
        == VerificationStatus::SourceMissing {
        VerificationStatus::SourceMissing
    } else if left == VerificationStatus::Redacted || right == VerificationStatus::Redacted {
        VerificationStatus::Redacted
    } else if left == VerificationStatus::VerifiedWithInference || right
        == VerificationStatus::VerifiedWithInference {
        VerificationStatus::VerifiedWithInference
    } else {
        VerificationStatus::Verified
    }
}

/// Confidences combine in any order and grouping, and repetition changes nothing.
pub proof fn law_confidence_combines(
    a: ClassificationConfidence,
    b: ClassificationConfidence,
    c: ClassificationConfidence,
)
    ensures
        joint_confidence(a, b) == joint_confidence(b, a),
        joint_confidence(a, joint_confidence(b, c)) == joint_confidence(joint_confidence(a, b), c),
        joint_confidence(a, a) == a,
        joint_confidence(a, ClassificationConfidence::Explicit) == a,
{
}

/// Verification statuses combine in any order and grouping, repetition changes nothing, and
/// a conflict is never covered up.
pub proof fn law_verification_combines(
    a: VerificationStatus,
    b: VerificationStatus,
    c: VerificationStatus,
)
    ensures
        joint_verification(a, b) == joint_verification(b, a),
        joint_verification(a, joint_verification(b, c)) == joint_verification(
            joint_verification(a, b),
            c,
        ),
        joint_verification(a, a) == a,
        joint_verification(a, VerificationStatus::Verified) == a,
        joint_verification(a, b) == VerificationStatus::Conflict <==> a
            == VerificationStatus::Conflict || b == VerificationStatus::Conflict,
{
}

// ---------------------------------------------------------------------------
// Blocks
// ---------------------------------------------------------------------------

/// Where a line stands.
pub open spec fn location(line: TranscriptLineView) -> TranscriptLocationView {
    TranscriptLocationView {
        physical_page: line.physical_page,
        transcript_page: line.transcript_page,
        line_number: line.line_number,
    }
}

fn location_from_line(line: &TranscriptLine) -> (r: TranscriptLocation)
    ensures
        r.deep_view() == location(line.deep_view()),
{
    TranscriptLocation {
        physical_page: line.physical_page,
        transcript_page: clone_option(&line.transcript_page),
        line_number: line.line_number,
    }
}

/// The identifier of the `n`th block.
pub open spec fn block_id(n: nat) -> Seq<char> {
    "block_"@ + padded_decimal(n, 6)
}

/// The `n`th block, opened by a line.
pub open spec fn new_block(line: TranscriptLineView, n: nat) -> TranscriptBlockView {
    TranscriptBlockView {
        source_row_ids: seq![line.source_row_id],
        id: block_id(n),
        kind: line.kind,
        speaker: line.speaker,
        participant_id: line.participant_id,
        confidence: line.confidence,
        verification: line.verification,
        source_continuity: line.source_continuity,
        start: location(line),
        end: location(line),
        text: line.text,
    }
}

fn open_block(line: &TranscriptLine, n: usize) -> (r: TranscriptBlock)
    ensures
        r.deep_view() == new_block(line.deep_view(), n as nat),
{
    let mut id = "block_".to_owned();
    push_padded(&mut id, n as u64, 6);
    let mut source_row_ids: Vec<String> = Vec::new();
    push_item(&mut source_row_ids, line.source_row_id.clone());
    assert(source_row_ids.deep_view() =~= seq![line.source_row_id@]);
    TranscriptBlock {
        source_row_ids,
        id,
        kind: line.kind,
        speaker: line.speaker.clone(),
        participant_id: clone_option(&line.participant_id),
        confidence: line.confidence,
        verification: line.verification,
        source_continuity: line.source_continuity,
        start: location_from_line(line),
        end: location_from_line(line),
        text: line.text.clone(),
    }
}

/// Whether a line goes on with a block.
pub open spec fn continues_block(block: TranscriptBlockView, line: TranscriptLineView) -> bool {
    !line.starts_new_block && line.source_continuity != SourceContinuity::GapBefore && block.kind
        == line.kind && block.speaker == line.speaker
}

fn goes_on(block: &TranscriptBlock, line: &TranscriptLine) -> (r: bool)
    ensures
        r == continues_block(block.deep_view(), line.deep_view()),
{
    !line.starts_new_block && line.source_continuity != SourceContinuity::GapBefore && block.kind
        == line.kind && same_speaker(&block.speaker, &line.speaker)
}

/// Two texts one space apart, or the one that is not empty.
pub open spec fn spaced(a: Seq<char>, b: Seq<char>) -> Seq<char> {
    if b.len() == 0 {
        a
    } else if a.len() == 0 {
        b
    } else {
        a.push(' ') + b
    }
}

/// A block with one more line.
pub open spec fn extended_block(block: TranscriptBlockView, line: TranscriptLineView) ->
    TranscriptBlockView {
    TranscriptBlockView {
        source_row_ids: block.source_row_ids.push(line.source_row_id),
        end: location(line),
        confidence: joint_confidence(block.confidence, line.confidence),
        verification: joint_verification(block.verification, line.verification),
        text: spaced(block.text, line.text),
        ..block
    }
}

fn extend_block(block: &mut TranscriptBlock, line: &TranscriptLine)
    ensures
        final(block).deep_view() == extended_block(old(block).deep_view(), line.deep_view()),
{
    if !line.text.as_str().is_empty() {
        if !block.text.as_str().is_empty() {
            push_char(&mut block.text, ' ');
        }
        block.text.append(line.text.as_str());
    }
    assert(block.text@ =~= spaced(old(block).text@, line.text@));
    push_item(&mut block.source_row_ids, line.source_row_id.clone());
    block.end = location_from_line(line);
    block.confidence = combine_confidence(block.confidence, line.confidence);
    block.verification = combine_verification(block.verification, line.verification);
}

/// The blocks that the first `n` lines make.
pub open spec fn blocks_of(lines: Seq<TranscriptLineView>, n: int) -> Seq<TranscriptBlockView>
    decreases n,
{
    if n <= 0 {
        seq![]
    } else {
        let blocks = blocks_of(lines, n - 1);
        let line = lines[n - 1];
        if line.kind == LineKind::PageHeader {
            blocks
        } else if blocks.len() > 0 && continues_block(blocks.last(), line) {
            blocks.update(blocks.len() - 1, extended_block(blocks.last(), line))
        } else {
            blocks.push(new_block(line, blocks.len() + 1))
        }
    }
}

/// Puts lines together into blocks.
pub fn build_blocks(lines: &Vec<TranscriptLine>) -> (r: Vec<TranscriptBlock>)
    ensures
        r.deep_view() == blocks_of(lines.deep_view(), lines.deep_view().len() as int),
{
    let mut blocks: Vec<TranscriptBlock> = Vec::new();
    assert(blocks.deep_view() =~= seq![]);
    for n in 0..lines.len()
        invariant
            blocks.deep_view() == blocks_of(lines.deep_view(), n as int),
            blocks@.len() <= n,
    {
        assert(lines.deep_view()[n as int] == lines@[n as int].deep_view());
        let line = &lines[n];
        if line.kind != LineKind::PageHeader {
            let count = blocks.len();
            let ghost view = blocks.deep_view();
            assert(count > 0 ==> view[count - 1] == blocks@[count - 1].deep_view());
            if count > 0 && goes_on(&blocks[count - 1], line) {
                extend_block(&mut blocks[count - 1], line);
                assert(blocks.deep_view() =~= view.update(
                    count - 1,
                    extended_block(view[count - 1], line.deep_view()),
                ));
            } else {
                push_item(&mut blocks, open_block(line, count + 1));
            }
        }
    }
    blocks
}

/// The source rows of the first `n` lines that are no page headers.
pub open spec fn dialogue_rows(lines: Seq<TranscriptLineView>, n: int) -> Seq<Seq<char>>
    decreases n,
{
    if n <= 0 {
        seq![]
    } else if lines[n - 1].kind == LineKind::PageHeader {
        dialogue_rows(lines, n - 1)
    } else {
        dialogue_rows(lines, n - 1).push(lines[n - 1].source_row_id)
    }
}

/// The source rows of the first `n` blocks, in order.
pub open spec fn owned_rows(blocks: Seq<TranscriptBlockView>, n: int) -> Seq<Seq<char>>
    decreases n,
{
    if n <= 0 {
        seq![]
    } else {
        owned_rows(blocks, n - 1) + blocks[n - 1].source_row_ids
    }
}

proof fn lemma_owned_rows_prefix(a: Seq<TranscriptBlockView>, b: Seq<TranscriptBlockView>, n: int)
    requires
        0 <= n <= a.len(),
        n <= b.len(),
        forall|i: int| 0 <= i < n ==> a[i] == b[i],
    ensures
        owned_rows(a, n) == owned_rows(b, n),
    decreases n,
{
    if n > 0 {
        lemma_owned_rows_prefix(a, b, n - 1);
    }
}

/// Every line but page headers belongs to exactly one block, and the blocks hold the lines
/// in their order: the rows of the blocks, end to end, are the rows of the lines.
pub proof fn law_blocks_own_every_line(lines: Seq<TranscriptLineView>, n: int)
    requires
        0 <= n <= lines.len(),
    ensures
        owned_rows(blocks_of(lines, n), blocks_of(lines, n).len() as int) == dialogue_rows(lines, n),
    decreases n,
{
    if n > 0 {
        law_blocks_own_every_line(lines, n - 1);
        let before = blocks_of(lines, n - 1);
        let after = blocks_of(lines, n);
        let line = lines[n - 1];
        if line.kind == LineKind::PageHeader {
        } else if before.len() > 0 && continues_block(before.last(), line) {
            let k = before.len() - 1;
            lemma_owned_rows_prefix(before, after, k);
            assert(owned_rows(after, k + 1) =~= owned_rows(before, k + 1).push(line.source_row_id));
        } else {
            let k = before.len() as int;
            lemma_owned_rows_prefix(before, after, k);
            assert(owned_rows(after, k + 1) =~= owned_rows(before, k).push(line.source_row_id));
        }
    }
}

/// Blocks are numbered from one in their order.
pub proof fn law_block_numbers(lines: Seq<TranscriptLineView>, n: int)
    requires
        0 <= n <= lines.len(),
    ensures
        forall|i: int|
            0 <= i < blocks_of(lines, n).len() ==> (#[trigger] blocks_of(lines, n)[i]).id
                == block_id((i + 1) as nat),
    decreases n,
{
    if n > 0 {
        law_block_numbers(lines, n - 1);
    }
}

proof fn lemma_zeros_value(k: nat, d: Seq<char>)
    ensures
        crate::number::digits_value(Seq::new(k, |i: int| '0') + d) == crate::number::digits_value(d),
    decreases k + d.len(),
{
    let z = Seq::new(k, |i: int| '0');
    let s = z + d;
    if d.len() > 0 {
        lemma_zeros_value(k, d.drop_last());
        assert(s.drop_last() =~= z + d.drop_last());
    } else if k > 0 {
        lemma_zeros_value((k - 1) as nat, d);
        assert(s.drop_last() =~= Seq::new((k - 1) as nat, |i: int| '0') + d);
    } else {
        assert(s =~= d);
    }
}

proof fn lemma_padded_value(n: nat, width: nat)
    ensures
        crate::number::digits_value(padded_decimal(n, width)) == n,
{
    let d = decimal(n);
    lemma_decimal_value(n);
    if d.len() < width {
        lemma_zeros_value((width - d.len()) as nat, d);
    }
}

/// Different blocks have different identifiers.
pub proof fn law_block_ids_distinct(m: nat, n: nat)
    ensures
        block_id(m) == block_id(n) <==> m == n,
{
    if block_id(m) == block_id(n) {
        let k = "block_"@.len() as int;
        assert(block_id(m).skip(k) =~= padded_decimal(m, 6));
        assert(block_id(n).skip(k) =~= padded_decimal(n, 6));
        lemma_padded_value(m, 6);
        lemma_padded_value(n, 6);
    }
}

// ---------------------------------------------------------------------------
// Exchanges
// ---------------------------------------------------------------------------

/// Whether a parenthetical interrupts the testimony.
pub open spec fn pauses_testimony(text: Seq<char>) -> bool {
    let lower = lowercased(text);
    has_infix(lower, "off the record"@) || has_infix(lower, "concluded"@) || has_infix(
        lower,
        "adjourned"@,
    ) || has_infix(lower, "recess"@)
}

/// Whether no answer reaches back over a block: a gap in the source, a heading, a redaction
/// or a pause.
pub open spec fn exchange_boundary(block: TranscriptBlockView) -> bool {
    block.source_continuity == SourceContinuity::GapBefore || block.kind
        == LineKind::ExaminationHeading || block.kind == LineKind::Heading || block.kind
        == LineKind::RedactionMarker || (block.kind == LineKind::Parenthetical && pauses_testimony(
        block.text,
    ))
}

fn is_exchange_boundary(block: &TranscriptBlock) -> (r: bool)
    ensures
        r == exchange_boundary(block.deep_view()),
{
    if block.source_continuity == SourceContinuity::GapBefore || block.kind
        == LineKind::ExaminationHeading || block.kind == LineKind::Heading || block.kind
        == LineKind::RedactionMarker {
        return true;
    }
    if block.kind == LineKind::Parenthetical {
        let lower = to_lower(block.text.as_str());
        return contains(lower.as_str(), "off the record") || contains(lower.as_str(), "concluded")
            || contains(lower.as_str(), "adjourned") || contains(lower.as_str(), "recess");
    }
    false
}

/// The exchanges that blocks make: the finished ones, the open one, and the answers that
/// belong to none.
#[verifier::ext_equal]
pub struct Exchanges {
    pub finished: Seq<TestimonyExchangeView>,
    pub current: Option<TestimonyExchangeView>,
    pub unpaired: Seq<TranscriptBlockView>,
}

/// The exchanges with the open one finished.
pub open spec fn closed_off(e: Exchanges) -> Exchanges {
    match e.current {
        Some(exchange) => Exchanges {
            finished: e.finished.push(exchange),
            current: None,
            unpaired: e.unpaired,
        },
        None => e,
    }
}

/// The exchanges after one more block.
pub open spec fn exchange_step(e: Exchanges, block: TranscriptBlockView) -> Exchanges {
    let open = if exchange_boundary(block) {
        closed_off(e)
    } else {
        e
    };
    if block.kind == LineKind::Question {
        Exchanges {
            current: Some(
                TestimonyExchangeView { question: block, response_sequence: seq![] },
            ),
            ..closed_off(open)
        }
    } else {
        match open.current {
            Some(exchange) => Exchanges {
                current: Some(
                    TestimonyExchangeView {
                        response_sequence: exchange.response_sequence.push(block),
                        ..exchange
                    },
                ),
                ..open
            },
            None => if block.kind == LineKind::Answer {
                Exchanges { unpaired: open.unpaired.push(block), ..open }
            } else {
                open
            },
        }
    }
}

/// The exchanges that the first `n` blocks make.
pub open spec fn exchanges_after(blocks: Seq<TranscriptBlockView>, n: int) -> Exchanges
    decreases n,
{
    if n <= 0 {
        Exchanges { finished: seq![], current: None, unpaired: seq![] }
    } else {
        exchange_step(exchanges_after(blocks, n - 1), blocks[n - 1])
    }
}

/// The exchanges that blocks make, all of them finished.
pub open spec fn exchanges_of(blocks: Seq<TranscriptBlockView>) -> Exchanges {
    closed_off(exchanges_after(blocks, blocks.len() as int))
}

fn finish_exchange(
    exchanges: &mut Vec<TestimonyExchange>,
    current: Option<TestimonyExchange>,
)
    ensures
        final(exchanges).deep_view() == match current.deep_view() {
            Some(exchange) => old(exchanges).deep_view().push(exchange),
            None => old(exchanges).deep_view(),
        },
{
    match current {
        Some(exchange) => {
            push_item(exchanges, exchange);
        },
        None => {},
    }
}

/// Puts blocks together into exchanges.
pub fn build_exchanges(blocks: &Vec<TranscriptBlock>) -> (r: (
    Vec<TestimonyExchange>,
    Vec<TranscriptBlock>,
))
    ensures
        r.0.deep_view() == exchanges_of(blocks.deep_view()).finished,
        r.1.deep_view() == exchanges_of(blocks.deep_view()).unpaired,
{
    let mut exchanges: Vec<TestimonyExchange> = Vec::new();
    let mut unpaired: Vec<TranscriptBlock> = Vec::new();
    let mut current: Option<TestimonyExchange> = None;
    assert(exchanges.deep_view() =~= seq![]);
    assert(unpaired.deep_view() =~= seq![]);
    for n in 0..blocks.len()
        invariant
            exchanges.deep_view() == exchanges_after(blocks.deep_view(), n as int).finished,
            current.deep_view() == exchanges_after(blocks.deep_view(), n as int).current,
            unpaired.deep_view() == exchanges_after(blocks.deep_view(), n as int).unpaired,
    {
        assert(blocks.deep_view()[n as int] == blocks@[n as int].deep_view());
        let block = &blocks[n];
        let question = block.kind == LineKind::Question;
        if question || is_exchange_boundary(block) {
            finish_exchange(&mut exchanges, current);
            current = None;
        }
        if question {
            let response_sequence: Vec<TranscriptBlock> = Vec::new();
            assert(response_sequence.deep_view() =~= seq![]);
            current = Some(TestimonyExchange { question: block.clone(), response_sequence });
        } else {
            match current {
                Some(mut exchange) => {
                    push_item(&mut exchange.response_sequence, block.clone());
                    current = Some(exchange);
                },
                None => {
                    current = None;
                    if block.kind == LineKind::Answer {
                        push_item(&mut unpaired, block.clone());
                    }
                },
            }
        }
    }
    finish_exchange(&mut exchanges, current);
    (exchanges, unpaired)
}

/// Whether an exchange is a question with what follows it up to the next boundary.
pub open spec fn unbroken(e: TestimonyExchangeView) -> bool {
    e.question.kind == LineKind::Question && forall|i: int|
        0 <= i < e.response_sequence.len() ==> (#[trigger] e.response_sequence[i]).kind
            != LineKind::Question && !exchange_boundary(e.response_sequence[i])
}

proof fn lemma_exchanges_are_unbroken(blocks: Seq<TranscriptBlockView>, n: int)
    requires
        0 <= n <= blocks.len(),
    ensures
        forall|i: int|
            0 <= i < exchanges_after(blocks, n).finished.len() ==> unbroken(
                #[trigger] exchanges_after(blocks, n).finished[i],
            ),
        exchanges_after(blocks, n).current matches Some(e) ==> unbroken(e),
    decreases n,
{
    if n > 0 {
        lemma_exchanges_are_unbroken(blocks, n - 1);
    }
}

/// No response reaches over a gap in the source, a heading, a redaction or a pause, and
/// every exchange opens with its one question.
pub proof fn law_exchanges_are_unbroken(blocks: Seq<TranscriptBlockView>, i: int)
    requires
        0 <= i < exchanges_of(blocks).finished.len(),
    ensures
        unbroken(exchanges_of(blocks).finished[i]),
{
    lemma_exchanges_are_unbroken(blocks, blocks.len() as int);
}

/// How many of the first `n` blocks are of a kind.
pub open spec fn blocks_of_kind(blocks: Seq<TranscriptBlockView>, kind: LineKind, n: int) -> nat
    decreases n,
{
    if n <= 0 {
        0
    } else {
        blocks_of_kind(blocks, kind, n - 1) + if blocks[n - 1].kind == kind {
            1nat
        } else {
            0nat
        }
    }
}

proof fn lemma_one_exchange_per_question(blocks: Seq<TranscriptBlockView>, n: int)
    requires
        0 <= n <= blocks.len(),
    ensures
        closed_off(exchanges_after(blocks, n)).finished.len() == blocks_of_kind(
            blocks,
            LineKind::Question,
            n,
        ),
    decreases n,
{
    if n > 0 {
        lemma_one_exchange_per_question(blocks, n - 1);
    }
}

/// There is one exchange for each question.
pub proof fn law_one_exchange_per_question(blocks: Seq<TranscriptBlockView>)
    ensures
        exchanges_of(blocks).finished.len() == blocks_of_kind(
            blocks,
            LineKind::Question,
            blocks.len() as int,
        ),
{
    lemma_one_exchange_per_question(blocks, blocks.len() as int);
}

// ---------------------------------------------------------------------------
// What exchanges are made of
// ---------------------------------------------------------------------------

/// Whether no answer reaches back over a block: there is a gap in the source before it, or it is
/// a heading, a redaction, or a remark that the testimony pauses.
pub open spec fn separates(block: TranscriptBlockView) -> bool {
    ||| block.source_continuity == SourceContinuity::GapBefore
    ||| block.kind == LineKind::ExaminationHeading
    ||| block.kind == LineKind::Heading
    ||| block.kind == LineKind::RedactionMarker
    ||| block.kind == LineKind::Parenthetical && (has_infix(
        lowercased(block.text),
        "off the record"@,
    ) || has_infix(lowercased(block.text), "concluded"@) || has_infix(
        lowercased(block.text),
        "adjourned"@,
    ) || has_infix(lowercased(block.text), "recess"@))
}

/// Whether the question at `q` waits for answers before the block at `n`.
pub open spec fn awaits(blocks: Seq<TranscriptBlockView>, q: int, n: int) -> bool {
    &&& 0 <= q < n <= blocks.len()
    &&& blocks[q].kind == LineKind::Question
    &&& forall|m: int|
        q < m < n ==> (#[trigger] blocks[m]).kind != LineKind::Question && !separates(blocks[m])
}

/// Whether an answer has no question that it could belong to.
pub open spec fn answers_nothing(blocks: Seq<TranscriptBlockView>, n: int) -> bool {
    &&& blocks[n].kind == LineKind::Answer
    &&& separates(blocks[n]) || forall|q: int| !(#[trigger] awaits(blocks, q, n))
}

/// The answers among the first `n` blocks that have no question.
pub open spec fn stray_answers(blocks: Seq<TranscriptBlockView>, n: int) -> Seq<
    TranscriptBlockView,
>
    decreases n,
{
    if n <= 0 {
        seq![]
    } else if answers_nothing(blocks, n - 1) {
        stray_answers(blocks, n - 1).push(blocks[n - 1])
    } else {
        stray_answers(blocks, n - 1)
    }
}

proof fn lemma_awaiting(blocks: Seq<TranscriptBlockView>, n: int)
    requires
        0 <= n <= blocks.len(),
    ensures
        forall|q: int|
            #[trigger]
            awaits(blocks, q, n) ==> exchanges_after(blocks, n).current == Some(
                TestimonyExchangeView {
                    question: blocks[q],
                    response_sequence: blocks.subrange(q + 1, n),
                },
            ),
        exchanges_after(blocks, n).current is Some ==> exists|q: int| #[trigger]
            awaits(blocks, q, n),
        exchanges_after(blocks, n).unpaired == stray_answers(blocks, n),
    decreases n,
{
    if n > 0 {
        let prior = n - 1;
        lemma_awaiting(blocks, prior);
        let block = blocks[prior];
        let before = exchanges_after(blocks, prior);
        let after = exchanges_after(blocks, n);
        assert(after == exchange_step(before, block));
        assert(exchange_boundary(block) == separates(block));
        assert forall|q: int| #[trigger] awaits(blocks, q, n) implies after.current == Some(
            TestimonyExchangeView {
                question: blocks[q],
                response_sequence: blocks.subrange(q + 1, n),
            },
        ) by {
            if q < prior {
                assert(awaits(blocks, q, prior));
                assert(blocks.subrange(q + 1, n) =~= blocks.subrange(q + 1, prior).push(block));
            } else {
                assert(blocks.subrange(q + 1, n) =~= seq![]);
            }
        }
        if after.current is Some {
            if block.kind == LineKind::Question {
                assert(awaits(blocks, prior, n));
            } else {
                let q = choose|q: int| #[trigger] awaits(blocks, q, prior);
                assert(awaits(blocks, q, n));
            }
        }
        if block.kind == LineKind::Answer && !separates(block) {
            if before.current is Some {
                let q = choose|q: int| #[trigger] awaits(blocks, q, prior);
                assert(!answers_nothing(blocks, prior));
            } else {
                assert(answers_nothing(blocks, prior));
            }
        }
    }
}

proof fn lemma_exchange_stays(blocks: Seq<TranscriptBlockView>, n: int, m: int, k: int)
    requires
        0 <= n <= m <= blocks.len(),
        0 <= k < exchanges_after(blocks, n).finished.len(),
    ensures
        k < exchanges_after(blocks, m).finished.len(),
        exchanges_after(blocks, m).finished[k] == exchanges_after(blocks, n).finished[k],
    decreases m - n,
{
    if n < m {
        lemma_exchange_stays(blocks, n, m - 1, k);
    }
}

/// Each question has its exchange, in the order of the questions, and what belongs to it is
/// exactly what follows the question up to the next question, gap, heading, redaction or pause.
pub proof fn law_exchange_holds_what_follows(blocks: Seq<TranscriptBlockView>, q: int, end: int)
    requires
        awaits(blocks, q, end),
        end < blocks.len() ==> blocks[end].kind == LineKind::Question || separates(blocks[end]),
    ensures
        ({
            let k = blocks_of_kind(blocks, LineKind::Question, q) as int;
            &&& k < exchanges_of(blocks).finished.len()
            &&& exchanges_of(blocks).finished[k].question == blocks[q]
            &&& exchanges_of(blocks).finished[k].response_sequence == blocks.subrange(q + 1, end)
        }),
{
    let k = blocks_of_kind(blocks, LineKind::Question, q) as int;
    let count = blocks.len() as int;
    lemma_awaiting(blocks, end);
    lemma_one_exchange_per_question(blocks, q);
    lemma_finished_while_awaiting(blocks, q, end);
    assert(exchanges_after(blocks, end).finished.len() == k);
    if end < count {
        assert(exchange_boundary(blocks[end]) == separates(blocks[end]));
        assert(exchanges_after(blocks, end + 1) == exchange_step(
            exchanges_after(blocks, end),
            blocks[end],
        ));
        lemma_exchange_stays(blocks, end + 1, count, k);
    }
}

proof fn lemma_finished_while_awaiting(blocks: Seq<TranscriptBlockView>, q: int, n: int)
    requires
        awaits(blocks, q, n),
    ensures
        exchanges_after(blocks, n).finished == closed_off(exchanges_after(blocks, q)).finished,
    decreases n - q,
{
    let block = blocks[n - 1];
    assert(exchanges_after(blocks, n) == exchange_step(exchanges_after(blocks, n - 1), block));
    assert(exchange_boundary(block) == separates(block));
    if n - 1 > q {
        assert(awaits(blocks, q, n - 1));
        lemma_finished_while_awaiting(blocks, q, n - 1);
    }
}

/// An answer is listed apart only where no question waits for it, each such answer is, and they
/// keep their order.
pub proof fn law_only_stray_answers_are_unpaired(blocks: Seq<TranscriptBlockView>)
    ensures
        exchanges_of(blocks).unpaired == stray_answers(blocks, blocks.len() as int),
{
    lemma_awaiting(blocks, blocks.len() as int);
}

/// An answer to a question that waits for it stands in the exchange of that question.
pub proof fn law_answers_stand_with_their_question(blocks: Seq<TranscriptBlockView>, q: int, n: int)
    requires
        0 <= q < n < blocks.len(),
        blocks[n].kind == LineKind::Answer,
        awaits(blocks, q, n),
        !separates(blocks[n]),
    ensures
        ({
            let k = blocks_of_kind(blocks, LineKind::Question, q) as int;
            &&& k < exchanges_of(blocks).finished.len()
            &&& exchanges_of(blocks).finished[k].question == blocks[q]
            &&& exchanges_of(blocks).finished[k].response_sequence.len() > n - q - 1
            &&& exchanges_of(blocks).finished[k].response_sequence[n - q - 1] == blocks[n]
        }),
{
    let end = lemma_awaiting_ends(blocks, q, n + 1);
    law_exchange_holds_what_follows(blocks, q, end);
}

/// Where what belongs to a question ends.
proof fn lemma_awaiting_ends(blocks: Seq<TranscriptBlockView>, q: int, n: int) -> (end: int)
    requires
        awaits(blocks, q, n),
    ensures
        n <= end <= blocks.len(),
        awaits(blocks, q, end),
        end < blocks.len() ==> blocks[end].kind == LineKind::Question || separates(blocks[end]),
    decreases blocks.len() - n,
{
    if n < blocks.len() && blocks[n].kind != LineKind::Question && !separates(blocks[n]) {
        lemma_awaiting_ends(blocks, q, n + 1)
    } else {
        n
    }
}

// ---------------------------------------------------------------------------
// What blocks are made of
// ---------------------------------------------------------------------------

/// A page header leaves the blocks alone. A line goes on with the last block where it opens none,
/// follows without a gap, and has the kind and the speaker of that block; the block then keeps
/// where it starts, ends where the line stands, and gains its text and its row. Any other line
/// opens a block of its own, with what the line says of itself, and all blocks before it stay.
pub proof fn law_lines_join_or_open_blocks(lines: Seq<TranscriptLineView>, n: int)
    requires
        0 <= n < lines.len(),
    ensures
        ({
            let before = blocks_of(lines, n);
            let after = blocks_of(lines, n + 1);
            let line = lines[n];
            let last = after.last();
            let goes_on = before.len() > 0 && !line.starts_new_block && line.source_continuity
                != SourceContinuity::GapBefore && before.last().kind == line.kind
                && before.last().speaker == line.speaker;
            &&& line.kind == LineKind::PageHeader ==> after == before
            &&& line.kind != LineKind::PageHeader ==> {
                &&& after.len() > 0
                &&& last.end.physical_page == line.physical_page
                &&& last.end.transcript_page == line.transcript_page
                &&& last.end.line_number == line.line_number
                &&& last.kind == line.kind
                &&& last.speaker == line.speaker
            }
            &&& line.kind != LineKind::PageHeader && goes_on ==> {
                let old_last = before.last();
                &&& after.len() == before.len()
                &&& after.drop_last() == before.drop_last()
                &&& last.id == old_last.id
                &&& last.participant_id == old_last.participant_id
                &&& last.source_continuity == old_last.source_continuity
                &&& last.start == old_last.start
                &&& last.source_row_ids == old_last.source_row_ids.push(line.source_row_id)
                &&& line.text.len() == 0 ==> last.text == old_last.text
                &&& old_last.text.len() == 0 ==> last.text == line.text
                &&& line.text.len() > 0 && old_last.text.len() > 0 ==> last.text == old_last.text
                    + seq![' '] + line.text
                &&& last.confidence == ClassificationConfidence::Explicit <==> old_last.confidence
                    == ClassificationConfidence::Explicit && line.confidence
                    == ClassificationConfidence::Explicit
                &&& last.confidence == ClassificationConfidence::Unknown <==> old_last.confidence
                    == ClassificationConfidence::Unknown || line.confidence
                    == ClassificationConfidence::Unknown
                &&& last.verification == VerificationStatus::Verified <==> old_last.verification
                    == VerificationStatus::Verified && line.verification
                    == VerificationStatus::Verified
                &&& last.verification == VerificationStatus::Conflict <==> old_last.verification
                    == VerificationStatus::Conflict || line.verification
                    == VerificationStatus::Conflict
                &&& last.verification == old_last.verification || last.verification
                    == line.verification
            }
            &&& line.kind != LineKind::PageHeader && !goes_on ==> {
                &&& after.len() == before.len() + 1
                &&& after.drop_last() == before
                &&& last.id == "block_"@ + padded_decimal(after.len(), 6)
                &&& last.participant_id == line.participant_id
                &&& last.source_continuity == line.source_continuity
                &&& last.start == last.end
                &&& last.source_row_ids == seq![line.source_row_id]
                &&& last.text == line.text
                &&& last.confidence == line.confidence
                &&& last.verification == line.verification
            }
        }),
{
    let before = blocks_of(lines, n);
    let after = blocks_of(lines, n + 1);
    let line = lines[n];
    if line.kind != LineKind::PageHeader {
        if before.len() > 0 && continues_block(before.last(), line) {
            assert(after.drop_last() =~= before.drop_last());
            assert(before.last().text.push(' ') + line.text =~= before.last().text + seq![' ']
                + line.text);
        } else {
            assert(after.drop_last() =~= before);
        }
    }
}

/// Which of two verification statuses is the worse: a conflict before what is uncertain, before
/// what is missing, before what is redacted, before what was inferred.
pub open spec fn graveness(status: VerificationStatus) -> int {
    match status {
        VerificationStatus::Verified => 0,
        VerificationStatus::VerifiedWithInference => 1,
        VerificationStatus::Redacted => 2,
        VerificationStatus::SourceMissing => 3,
        VerificationStatus::Uncertain => 4,
        VerificationStatus::Conflict => 5,
    }
}

/// Two lines together agree with their source as far as the worse of them does, and are as
/// certain as the less certain one.
pub proof fn law_the_worse_prevails(
    a: VerificationStatus,
    b: VerificationStatus,
    c: ClassificationConfidence,
    d: ClassificationConfidence,
)
    ensures
        joint_verification(a, b) == if graveness(a) < graveness(b) {
            b
        } else {
            a
        },
        joint_confidence(c, d) == ClassificationConfidence::Explicit <==> c
            == ClassificationConfidence::Explicit && d == ClassificationConfidence::Explicit,
        joint_confidence(c, d) == ClassificationConfidence::Unknown <==> c
            == ClassificationConfidence::Unknown || d == ClassificationConfidence::Unknown,
{
}

// ---------------------------------------------------------------------------
// What turns are made of
// ---------------------------------------------------------------------------

/// Whether the lines from `start` up to `end` are a turn: no line but the first opens a block, all
/// have one speaker, and the line behind them opens a block or has another speaker.
pub open spec fn whole_turn(lines: Seq<TranscriptLineView>, start: int, end: int) -> bool {
    &&& 0 <= start < end <= lines.len()
    &&& forall|i: int|
        start < i < end ==> !(#[trigger] lines[i]).starts_new_block && lines[i].speaker
            == lines[start].speaker
    &&& end < lines.len() ==> lines[end].starts_new_block || lines[end].speaker
        != lines[start].speaker
}

proof fn lemma_whole_turn(lines: Seq<TranscriptLineView>, start: int, at: int)
    requires
        0 <= start < at <= lines.len(),
        forall|i: int|
            start < i < at ==> !(#[trigger] lines[i]).starts_new_block && lines[i].speaker
                == lines[start].speaker,
    ensures
        whole_turn(lines, start, turn_end(lines, start, at)),
    decreases lines.len() - at,
{
    if at < lines.len() && !lines[at].starts_new_block && lines[at].speaker
        == lines[start].speaker {
        lemma_whole_turn(lines, start, at + 1);
    }
}

/// The first turn of a list of lines, seen whole. A turn under a speaker label that no line told
/// to be a question, an answer or an objection becomes a question where its last line ends in a
/// question mark, and else an answer where a witness speaks to whoever asked last; any other turn
/// is left alone. Then the rest is seen with what was asked in mind.
pub proof fn law_turns_are_seen_whole(
    lines: Seq<TranscriptLineView>,
    start: int,
    asked_by: Option<Seq<char>>,
)
    requires
        0 <= start < lines.len(),
    ensures
        exists|end: int, told: Seq<TranscriptLineView>, asker: Option<Seq<char>>|
            {
                let first = lines[start];
                let last = end_trimmed(lines[end - 1].text);
                let labelled = exists|i: int|
                    0 <= i < first.evidence.items.len() && (#[trigger] first.evidence.items[i]).source
                        == EvidenceSource::SpeakerLabel;
                let open = labelled && first.kind != LineKind::Question && first.kind
                    != LineKind::Answer && first.kind != LineKind::Objection;
                let asking = last.len() > 0 && last.last() == '?';
                let replying = (first.speaker matches Some(s) && s.role == SpeakerRole::Witness)
                    && asked_by is Some && asked_by != first.participant_id;
                &&& whole_turn(lines, start, end)
                &&& told.len() == lines.len()
                &&& forall|i: int|
                    0 <= i < lines.len() && !(start <= i < end) ==> (#[trigger] told[i]) == lines[i]
                &&& forall|i: int|
                    start <= i < end ==> {
                        &&& open && asking ==> (#[trigger] told[i]).kind == LineKind::Question
                        &&& open && !asking && replying ==> told[i].kind == LineKind::Answer
                        &&& !open || (!asking && !replying) ==> told[i] == lines[i]
                        &&& open && (asking || replying) ==> told[i].confidence
                            == ClassificationConfidence::Inferred
                    }
                &&& told[start].kind == LineKind::Question ==> asker == told[start].participant_id
                &&& told[start].kind == LineKind::Heading || told[start].kind
                    == LineKind::ExaminationHeading || told[start].kind == LineKind::RedactionMarker
                    ==> asker is None
                &&& told[start].kind != LineKind::Question && told[start].kind != LineKind::Heading
                    && told[start].kind != LineKind::ExaminationHeading && told[start].kind
                    != LineKind::RedactionMarker ==> asker == asked_by
                &&& turns_completed(lines, start, asked_by) == #[trigger] turns_completed(
                    told,
                    end,
                    asker,
                )
            },
{
    let end = turn_end(lines, start, start + 1);
    lemma_whole_turn(lines, start, start + 1);
    let told = match turn_kind(lines, start, end, asked_by) {
        Some(kind) => turn_retold(lines, start, end, kind),
        None => lines,
    };
    let asker = asker_after(told[start], asked_by);
    assert(turns_completed(lines, start, asked_by) == turns_completed(told, end, asker));
}

} // verus!
