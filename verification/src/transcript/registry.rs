//! The participants of a transcript once its lines are known.
use vstd::prelude::*;

use crate::measure::{hundredths, Ratio};
use crate::order::{comes_before, is_before};
use crate::scan::{has_prefix, starts_with};
use crate::text::{lemma_filter_first, push_item, same};
use crate::transcript::models::{
    participant_index, participant_with_id, DocumentType, LineKind, Participant,
    ParticipantFunction, ParticipantView, Speaker, SpeakerRole, SpeakerView, TranscriptContext,
    TranscriptContextView, TranscriptLine, TranscriptLineView,
};

verus! {

// ---------------------------------------------------------------------------
// Speakers that were not registered
// ---------------------------------------------------------------------------

/// A speaker of some line who is not registered yet.
pub struct Newcomer {
    pub id: String,
    pub speaker: Speaker,
    pub asked: bool,
}

/// The contents of a [`Newcomer`].
#[verifier::ext_equal]
pub struct NewcomerView {
    pub id: Seq<char>,
    pub speaker: SpeakerView,
    pub asked: bool,
}

impl DeepView for Newcomer {
    type V = NewcomerView;

    open spec fn deep_view(&self) -> NewcomerView {
        NewcomerView { id: self.id@, speaker: self.speaker.deep_view(), asked: self.asked }
    }
}

/// Where the first newcomer from `from` on stands whose identifier does not come before `id`.
pub open spec fn newcomer_place(list: Seq<NewcomerView>, id: Seq<char>, from: int) -> int
    decreases list.len() - from,
{
    if 0 <= from < list.len() && comes_before(list[from].id, id) {
        newcomer_place(list, id, from + 1)
    } else {
        from
    }
}

/// The newcomers, sorted by identifier, after one more line: each keeps the form in which it
/// was first seen.
pub open spec fn with_newcomer(
    list: Seq<NewcomerView>,
    id: Seq<char>,
    speaker: SpeakerView,
    asks: bool,
) -> Seq<NewcomerView> {
    let i = newcomer_place(list, id, 0);
    if i < list.len() && list[i].id == id {
        list.update(i, NewcomerView { asked: list[i].asked || asks, ..list[i] })
    } else {
        list.insert(i, NewcomerView { id, speaker, asked: asks })
    }
}

fn add_newcomer(list: &mut Vec<Newcomer>, id: &String, speaker: &Speaker, asks: bool)
    ensures
        final(list).deep_view() == with_newcomer(
            old(list).deep_view(),
            id@,
            speaker.deep_view(),
            asks,
        ),
{
    let ghost before = list.deep_view();
    let mut i: usize = 0;
    while i < list.len() && is_before(list[i].id.as_str(), id.as_str())
        invariant
            before == list.deep_view(),
            i <= list@.len(),
            newcomer_place(before, id@, i as int) == newcomer_place(before, id@, 0),
        decreases list@.len() - i,
    {
        assert(before[i as int] == list@[i as int].deep_view());
        i += 1;
    }
    assert(i < list@.len() ==> before[i as int] == list@[i as int].deep_view());
    if i < list.len() && same(list[i].id.as_str(), id.as_str()) {
        let asked = list[i].asked || asks;
        list[i].asked = asked;
        assert(list.deep_view() =~= with_newcomer(before, id@, speaker.deep_view(), asks));
    } else {
        list.insert(i, Newcomer { id: id.clone(), speaker: speaker.clone(), asked: asks });
        assert(list.deep_view() =~= with_newcomer(before, id@, speaker.deep_view(), asks));
    }
}

/// The identifier of the speaker of a line.
pub open spec fn line_speaker_id(line: TranscriptLineView) -> Option<Seq<char>> {
    match line.speaker {
        Some(speaker) => speaker.participant_id,
        None => None,
    }
}

/// The speakers of the first `n` lines that are not registered.
pub open spec fn newcomers(
    lines: Seq<TranscriptLineView>,
    registered: Seq<ParticipantView>,
    n: int,
) -> Seq<NewcomerView>
    decreases n,
{
    if n <= 0 {
        seq![]
    } else {
        let before = newcomers(lines, registered, n - 1);
        match line_speaker_id(lines[n - 1]) {
            Some(id) if participant_with_id(registered, id) is None => with_newcomer(
                before,
                id,
                lines[n - 1].speaker->0,
                lines[n - 1].kind == LineKind::Question,
            ),
            _ => before,
        }
    }
}

fn collect_newcomers(lines: &Vec<TranscriptLine>, context: &TranscriptContext) -> (r: Vec<Newcomer>)
    ensures
        r.deep_view() == newcomers(
            lines.deep_view(),
            context.deep_view().participants,
            lines.deep_view().len() as int,
        ),
{
    let mut list: Vec<Newcomer> = Vec::new();
    assert(list.deep_view() =~= seq![]);
    for n in 0..lines.len()
        invariant
            list.deep_view() == newcomers(
                lines.deep_view(),
                context.deep_view().participants,
                n as int,
            ),
    {
        assert(lines.deep_view()[n as int] == lines@[n as int].deep_view());
        match &lines[n].speaker {
            Some(speaker) => match &speaker.participant_id {
                Some(id) => {
                    if context.participant_by_id(id.as_str()).is_none() {
                        add_newcomer(&mut list, id, speaker, lines[n].kind == LineKind::Question);
                    }
                },
                None => {},
            },
            None => {},
        }
    }
    list
}

/// What a newcomer does in a kind of document.
pub open spec fn newcomer_function(role: SpeakerRole, document_type: DocumentType, asked: bool) ->
    ParticipantFunction {
    match role {
        SpeakerRole::Witness => if document_type == DocumentType::Interview {
            ParticipantFunction::Interviewee
        } else {
            ParticipantFunction::Witness
        },
        SpeakerRole::Attorney => if document_type == DocumentType::Interview && asked {
            ParticipantFunction::Interviewer
        } else {
            ParticipantFunction::Counsel
        },
        SpeakerRole::Interpreter => ParticipantFunction::Interpreter,
        SpeakerRole::CourtReporter => ParticipantFunction::CourtReporter,
        SpeakerRole::Judge => ParticipantFunction::Judge,
        SpeakerRole::Videographer => ParticipantFunction::Videographer,
        SpeakerRole::Unknown => ParticipantFunction::Unknown,
    }
}

fn function_of_newcomer(role: SpeakerRole, document_type: DocumentType, asked: bool) -> (r:
    ParticipantFunction)
    ensures
        r == newcomer_function(role, document_type, asked),
{
    match role {
        SpeakerRole::Witness => if document_type == DocumentType::Interview {
            ParticipantFunction::Interviewee
        } else {
            ParticipantFunction::Witness
        },
        SpeakerRole::Attorney => if document_type == DocumentType::Interview && asked {
            ParticipantFunction::Interviewer
        } else {
            ParticipantFunction::Counsel
        },
        SpeakerRole::Interpreter => ParticipantFunction::Interpreter,
        SpeakerRole::CourtReporter => ParticipantFunction::CourtReporter,
        SpeakerRole::Judge => ParticipantFunction::Judge,
        SpeakerRole::Videographer => ParticipantFunction::Videographer,
        SpeakerRole::Unknown => ParticipantFunction::Unknown,
    }
}

/// A newcomer as a participant who has not been counted yet. Neither a redacted label nor a
/// description is a name.
pub open spec fn new_participant(newcomer: NewcomerView, document_type: DocumentType) ->
    ParticipantView {
    let speaker = newcomer.speaker;
    ParticipantView {
        id: newcomer.id,
        display_label: speaker.label,
        canonical_name: if speaker.redacted || has_prefix(speaker.label, "THE "@) || has_prefix(
            speaker.label,
            "ANONYMOUS "@,
        ) {
            None
        } else {
            Some(speaker.label)
        },
        observed_labels: seq![speaker.label],
        role: speaker.role,
        role_confidence: if speaker.role == SpeakerRole::Unknown {
            hundredths(40)
        } else {
            hundredths(90)
        },
        function: newcomer_function(speaker.role, document_type, newcomer.asked),
        function_confidence: if speaker.role == SpeakerRole::Unknown {
            30
        } else {
            78
        },
        redacted: speaker.redacted,
        observations: 0,
        question_observations: 0,
        answer_observations: 0,
        objection_observations: 0,
        statement_observations: 0,
    }
}

fn register(newcomer: &Newcomer, document_type: DocumentType) -> (r: Participant)
    ensures
        r.deep_view() == new_participant(newcomer.deep_view(), document_type),
{
    let speaker = &newcomer.speaker;
    let label = speaker.label.as_str();
    let nameless = speaker.redacted || starts_with(label, "THE ") || starts_with(
        label,
        "ANONYMOUS ",
    );
    let mut observed_labels: Vec<String> = Vec::new();
    push_item(&mut observed_labels, speaker.label.clone());
    assert(observed_labels.deep_view() =~= seq![speaker.label@]);
    Participant {
        id: newcomer.id.clone(),
        display_label: speaker.label.clone(),
        canonical_name: if nameless {
            None
        } else {
            Some(speaker.label.clone())
        },
        observed_labels,
        role: speaker.role,
        role_confidence: if speaker.role == SpeakerRole::Unknown {
            Ratio::of_hundred(40)
        } else {
            Ratio::of_hundred(90)
        },
        function: function_of_newcomer(speaker.role, document_type, newcomer.asked),
        function_confidence: if speaker.role == SpeakerRole::Unknown {
            30
        } else {
            78
        },
        redacted: speaker.redacted,
        observations: 0,
        question_observations: 0,
        answer_observations: 0,
        objection_observations: 0,
        statement_observations: 0,
    }
}

/// The first `n` newcomers as participants.
pub open spec fn new_participants(
    list: Seq<NewcomerView>,
    document_type: DocumentType,
    n: int,
) -> Seq<ParticipantView>
    decreases n,
{
    if n <= 0 {
        seq![]
    } else {
        new_participants(list, document_type, n - 1).push(
            new_participant(list[n - 1], document_type),
        )
    }
}

// ---------------------------------------------------------------------------
// Counting turns
// ---------------------------------------------------------------------------

/// Whether a line opens a turn of a participant.
pub open spec fn opens_turn_of(line: TranscriptLineView, id: Seq<char>) -> bool {
    line.starts_new_block && line.participant_id == Some(id)
}

fn is_turn_of(line: &TranscriptLine, id: &str) -> (r: bool)
    ensures
        r == opens_turn_of(line.deep_view(), id@),
{
    line.starts_new_block && match &line.participant_id {
        Some(other) => same(other.as_str(), id),
        None => false,
    }
}

/// How many turns a participant has among the first `n` lines.
pub open spec fn turn_count(lines: Seq<TranscriptLineView>, id: Seq<char>, n: int) -> nat
    decreases n,
{
    if n <= 0 {
        0
    } else {
        turn_count(lines, id, n - 1) + if opens_turn_of(lines[n - 1], id) {
            1nat
        } else {
            0nat
        }
    }
}

/// How many turns of a kind a participant has among the first `n` lines.
pub open spec fn turn_count_of(
    lines: Seq<TranscriptLineView>,
    id: Seq<char>,
    kind: LineKind,
    n: int,
) -> nat
    decreases n,
{
    if n <= 0 {
        0
    } else {
        turn_count_of(lines, id, kind, n - 1) + if opens_turn_of(lines[n - 1], id) && lines[n
            - 1].kind == kind {
            1nat
        } else {
            0nat
        }
    }
}

/// A participant with its turns counted.
pub open spec fn counted_participant(p: ParticipantView, lines: Seq<TranscriptLineView>) ->
    ParticipantView {
    let n = lines.len() as int;
    let all = turn_count(lines, p.id, n);
    let questions = turn_count_of(lines, p.id, LineKind::Question, n);
    let answers = turn_count_of(lines, p.id, LineKind::Answer, n);
    let objections = turn_count_of(lines, p.id, LineKind::Objection, n);
    ParticipantView {
        observations: all as usize,
        question_observations: questions as usize,
        answer_observations: answers as usize,
        objection_observations: objections as usize,
        statement_observations: (all - questions - answers - objections) as usize,
        ..p
    }
}

fn count_turns(p: &mut Participant, lines: &Vec<TranscriptLine>)
    ensures
        final(p).deep_view() == counted_participant(old(p).deep_view(), lines.deep_view()),
{
    let ghost view = lines.deep_view();
    let ghost id = p.id@;
    let mut all: usize = 0;
    let mut questions: usize = 0;
    let mut answers: usize = 0;
    let mut objections: usize = 0;
    for n in 0..lines.len()
        invariant
            view == lines.deep_view(),
            id == p.id@,
            all <= n,
            questions + answers + objections <= all,
            all == turn_count(view, id, n as int),
            questions == turn_count_of(view, id, LineKind::Question, n as int),
            answers == turn_count_of(view, id, LineKind::Answer, n as int),
            objections == turn_count_of(view, id, LineKind::Objection, n as int),
    {
        assert(view[n as int] == lines@[n as int].deep_view());
        if is_turn_of(&lines[n], p.id.as_str()) {
            all += 1;
            match lines[n].kind {
                LineKind::Question => {
                    questions += 1;
                },
                LineKind::Answer => {
                    answers += 1;
                },
                LineKind::Objection => {
                    objections += 1;
                },
                _ => {},
            }
        }
    }
    p.observations = all;
    p.question_observations = questions;
    p.answer_observations = answers;
    p.objection_observations = objections;
    p.statement_observations = all - questions - answers - objections;
}

/// Participants with their turns counted.
pub open spec fn counted_participants(
    list: Seq<ParticipantView>,
    lines: Seq<TranscriptLineView>,
) -> Seq<ParticipantView> {
    Seq::new(list.len(), |i: int| counted_participant(list[i], lines))
}

// ---------------------------------------------------------------------------
// Primary speakers
// ---------------------------------------------------------------------------

/// How often a participant does what its role is about: a witness answers, others ask.
pub open spec fn role_activity(p: ParticipantView) -> usize {
    if p.role == SpeakerRole::Witness {
        p.answer_observations
    } else {
        p.question_observations
    }
}

/// The most active participant of a role among the first `n`; the last of several.
pub open spec fn most_active(list: Seq<ParticipantView>, role: SpeakerRole, n: int) -> Option<int>
    decreases n,
{
    if n <= 0 {
        None
    } else {
        let best = most_active(list, role, n - 1);
        if list[n - 1].role == role && (best matches Some(i) ==> role_activity(list[n - 1])
            >= role_activity(list[i])) {
            Some(n - 1)
        } else {
            best
        }
    }
}

/// A participant as a speaker, in the observed role.
pub open spec fn registered_speaker(p: ParticipantView) -> SpeakerView {
    SpeakerView {
        participant_id: Some(p.id),
        label: p.display_label,
        role: p.role,
        redacted: p.redacted,
    }
}

/// Computes [`registered_speaker`].
pub fn participant_to_speaker(participant: &Participant) -> (r: Speaker)
    ensures
        r.deep_view() == registered_speaker(participant.deep_view()),
{
    Speaker {
        participant_id: Some(participant.id.clone()),
        label: participant.display_label.clone(),
        role: participant.role,
        redacted: participant.redacted,
    }
}

/// The primary speaker of a role.
pub open spec fn primary_speaker(list: Seq<ParticipantView>, role: SpeakerRole) -> Option<
    SpeakerView,
> {
    match most_active(list, role, list.len() as int) {
        Some(i) => Some(registered_speaker(list[i])),
        None => None,
    }
}

fn find_primary_speaker(list: &Vec<Participant>, role: SpeakerRole) -> (r: Option<Speaker>)
    ensures
        r.deep_view() == primary_speaker(list.deep_view(), role),
{
    let ghost view = list.deep_view();
    let mut best: Option<usize> = None;
    for n in 0..list.len()
        invariant
            view == list.deep_view(),
            match best {
                Some(i) => i < n && most_active(view, role, n as int) == Some(i as int)
                    && view[i as int].role == role,
                None => most_active(view, role, n as int) is None,
            },
    {
        assert(view[n as int] == list@[n as int].deep_view());
        if list[n].role == role {
            let ahead = match best {
                Some(i) => {
                    assert(view[i as int] == list@[i as int].deep_view());
                    if role == SpeakerRole::Witness {
                        list[n].answer_observations >= list[i].answer_observations
                    } else {
                        list[n].question_observations >= list[i].question_observations
                    }
                },
                None => true,
            };
            if ahead {
                best = Some(n);
            }
        }
    }
    match best {
        Some(i) => {
            assert(view[i as int] == list@[i as int].deep_view());
            Some(participant_to_speaker(&list[i]))
        },
        None => None,
    }
}

// ---------------------------------------------------------------------------
// The registry
// ---------------------------------------------------------------------------

/// The participants once every speaker of some line is among them.
pub open spec fn reconciled_participants(
    context: TranscriptContextView,
    lines: Seq<TranscriptLineView>,
) -> Seq<ParticipantView> {
    let added = newcomers(lines, context.participants, lines.len() as int);
    counted_participants(
        context.participants + new_participants(added, context.document_type, added.len() as int),
        lines,
    )
}

/// The context once the lines are known.
pub open spec fn reconciled(context: TranscriptContextView, lines: Seq<TranscriptLineView>) ->
    TranscriptContextView {
    let participants = reconciled_participants(context, lines);
    TranscriptContextView {
        participants,
        primary_questioner: match context.primary_questioner {
            Some(speaker) => Some(speaker),
            None => primary_speaker(participants, SpeakerRole::Attorney),
        },
        primary_witness: match context.primary_witness {
            Some(speaker) => Some(speaker),
            None => primary_speaker(participants, SpeakerRole::Witness),
        },
        ..context
    }
}

/// Registers every speaker of some line and counts everyone's turns.
pub fn reconcile_dynamic_participants(context: &mut TranscriptContext, lines: &Vec<TranscriptLine>)
    ensures
        final(context).deep_view() == reconciled(old(context).deep_view(), lines.deep_view()),
{
    let ghost before = context.deep_view();
    let ghost view = lines.deep_view();
    let added = collect_newcomers(lines, context);
    let ghost new = added.deep_view();
    let ghost kind = context.document_type;
    assert(context.participants.deep_view() + new_participants(new, kind, 0)
        =~= before.participants);
    for n in 0..added.len()
        invariant
            new == added.deep_view(),
            kind == context.document_type,
            context.deep_view() == (TranscriptContextView {
                participants: before.participants + new_participants(new, kind, n as int),
                ..before
            }),
    {
        assert(new[n as int] == added@[n as int].deep_view());
        let participant = register(&added[n], context.document_type);
        push_item(&mut context.participants, participant);
        assert(context.participants.deep_view() =~= before.participants + new_participants(
            new,
            kind,
            n + 1,
        ));
    }
    let ghost all = context.participants.deep_view();
    let count = context.participants.len();
    for i in 0..count
        invariant
            count == context.participants@.len(),
            count == all.len(),
            view == lines.deep_view(),
            context.deep_view() == (TranscriptContextView {
                participants: context.deep_view().participants,
                ..before
            }),
            forall|j: int|
                0 <= j < count ==> (#[trigger] context.participants.deep_view()[j]) == if j < i {
                    counted_participant(all[j], view)
                } else {
                    all[j]
                },
    {
        let ghost now = context.participants.deep_view();
        assert(now[i as int] == context.participants@[i as int].deep_view());
        count_turns(&mut context.participants[i], lines);
        assert(context.participants.deep_view() =~= now.update(
            i as int,
            counted_participant(all[i as int], view),
        ));
    }
    assert(context.participants.deep_view() =~= counted_participants(all, view));
    if context.primary_questioner.is_none() {
        context.primary_questioner = find_primary_speaker(
            &context.participants,
            SpeakerRole::Attorney,
        );
    }
    if context.primary_witness.is_none() {
        context.primary_witness = find_primary_speaker(&context.participants, SpeakerRole::Witness);
    }
}

// ---------------------------------------------------------------------------
// Laws
// ---------------------------------------------------------------------------

proof fn lemma_participant_found(list: Seq<ParticipantView>, id: Seq<char>, from: int, k: int)
    requires
        0 <= from <= k < list.len(),
        list[k].id == id,
    ensures
        from <= participant_index(list, id, from) <= k,
    decreases k - from,
{
    if list[from].id != id {
        lemma_participant_found(list, id, from + 1, k);
    }
}

proof fn lemma_participant_sound(list: Seq<ParticipantView>, id: Seq<char>, from: int)
    requires
        0 <= from <= list.len(),
    ensures
        from <= participant_index(list, id, from) <= list.len(),
        participant_index(list, id, from) < list.len() ==> list[participant_index(
            list,
            id,
            from,
        )].id == id,
    decreases list.len() - from,
{
    if from < list.len() && list[from].id != id {
        lemma_participant_sound(list, id, from + 1);
    }
}

/// Whether some newcomer has an identifier.
spec fn arrived(list: Seq<NewcomerView>, id: Seq<char>) -> bool {
    exists|k: int| 0 <= k < list.len() && (#[trigger] list[k]).id == id
}

proof fn lemma_newcomer_place(list: Seq<NewcomerView>, id: Seq<char>, from: int)
    requires
        0 <= from <= list.len(),
    ensures
        from <= newcomer_place(list, id, from) <= list.len(),
    decreases list.len() - from,
{
    if from < list.len() && comes_before(list[from].id, id) {
        lemma_newcomer_place(list, id, from + 1);
    }
}

proof fn lemma_newcomers_stay(
    list: Seq<NewcomerView>,
    id: Seq<char>,
    speaker: SpeakerView,
    asks: bool,
    other: Seq<char>,
)
    ensures
        arrived(with_newcomer(list, id, speaker, asks), id),
        arrived(list, other) ==> arrived(with_newcomer(list, id, speaker, asks), other),
{
    lemma_newcomer_place(list, id, 0);
    let i = newcomer_place(list, id, 0);
    let after = with_newcomer(list, id, speaker, asks);
    assert(after[i].id == id);
    if arrived(list, other) {
        let k = choose|k: int| 0 <= k < list.len() && (#[trigger] list[k]).id == other;
        if after.len() == list.len() || k < i {
            assert(after[k].id == other);
        } else {
            assert(after[k + 1].id == other);
        }
    }
}

proof fn lemma_speakers_arrive(
    lines: Seq<TranscriptLineView>,
    registered: Seq<ParticipantView>,
    n: int,
    i: int,
    id: Seq<char>,
)
    requires
        0 <= i < n <= lines.len(),
        line_speaker_id(lines[i]) == Some(id),
        participant_with_id(registered, id) is None,
    ensures
        arrived(newcomers(lines, registered, n), id),
    decreases n,
{
    let before = newcomers(lines, registered, n - 1);
    match line_speaker_id(lines[n - 1]) {
        Some(other) if participant_with_id(registered, other) is None => {
            lemma_newcomers_stay(
                before,
                other,
                lines[n - 1].speaker->0,
                lines[n - 1].kind == LineKind::Question,
                id,
            );
        },
        _ => {},
    }
    if i < n - 1 {
        lemma_speakers_arrive(lines, registered, n - 1, i, id);
    }
}

proof fn lemma_new_participants(list: Seq<NewcomerView>, document_type: DocumentType, n: int)
    requires
        0 <= n <= list.len(),
    ensures
        new_participants(list, document_type, n).len() == n,
        forall|k: int|
            0 <= k < n ==> (#[trigger] new_participants(list, document_type, n)[k]).id
                == list[k].id,
    decreases n,
{
    if n > 0 {
        lemma_new_participants(list, document_type, n - 1);
    }
}

/// Every speaker of a line who has an identifier is registered under it.
pub proof fn law_every_speaker_is_registered(
    context: TranscriptContextView,
    lines: Seq<TranscriptLineView>,
    i: int,
    id: Seq<char>,
)
    requires
        0 <= i < lines.len(),
        line_speaker_id(lines[i]) == Some(id),
    ensures
        participant_with_id(reconciled(context, lines).participants, id) is Some,
{
    let n = lines.len() as int;
    let added = newcomers(lines, context.participants, n);
    let new = new_participants(added, context.document_type, added.len() as int);
    let all = context.participants + new;
    let result = counted_participants(all, lines);
    lemma_new_participants(added, context.document_type, added.len() as int);
    let k = if participant_with_id(context.participants, id) is Some {
        lemma_participant_sound(context.participants, id, 0);
        participant_index(context.participants, id, 0)
    } else {
        lemma_speakers_arrive(lines, context.participants, n, i, id);
        let m = choose|m: int| 0 <= m < added.len() && (#[trigger] added[m]).id == id;
        assert(new[m].id == id);
        context.participants.len() + m
    };
    assert(all[k].id == id);
    assert(result[k].id == id);
    lemma_participant_found(result, id, 0, k);
}

// ---------------------------------------------------------------------------
// Laws of the register
// ---------------------------------------------------------------------------

/// A line adds its speaker to the newcomers where that has an identifier that nobody registered
/// has; a newcomer has asked where some line of it is a question.
pub proof fn law_newcomers_are_noted(
    lines: Seq<TranscriptLineView>,
    registered: Seq<ParticipantView>,
    n: int,
)
    requires
        0 <= n < lines.len(),
    ensures
        ({
            let before = newcomers(lines, registered, n);
            let after = newcomers(lines, registered, n + 1);
            let line = lines[n];
            let id = line.speaker->0.participant_id;
            let unknown = line.speaker is Some && id is Some && participant_with_id(
                registered,
                id->0,
            ) is None;
            &&& newcomers(lines, registered, 0).len() == 0
            &&& !unknown ==> after == before
            &&& unknown ==> after == with_newcomer(
                before,
                id->0,
                line.speaker->0,
                line.kind == LineKind::Question,
            )
        }),
{
}

/// A newcomer that was seen before keeps the form in which it was first seen, and has asked where
/// it did before or does now. One that was not is added as it is seen.
pub proof fn law_newcomers_keep_their_form(
    list: Seq<NewcomerView>,
    id: Seq<char>,
    speaker: SpeakerView,
    asks: bool,
)
    ensures
        ({
            let i = newcomer_place(list, id, 0);
            let after = with_newcomer(list, id, speaker, asks);
            let known = i < list.len() && list[i].id == id;
            &&& known ==> after.len() == list.len() && after[i].id == id && after[i].speaker
                == list[i].speaker && (after[i].asked <==> list[i].asked || asks) && forall|k: int|
                0 <= k < list.len() && k != i ==> (#[trigger] after[k]) == list[k]
            &&& !known ==> after.len() == list.len() + 1 && after[i].id == id && after[i].speaker
                == speaker && after[i].asked == asks && after.remove(i) == list
        }),
{
    lemma_newcomer_place_within(list, id, 0);
    let i = newcomer_place(list, id, 0);
    let after = with_newcomer(list, id, speaker, asks);
    if !(i < list.len() && list[i].id == id) {
        assert(after.remove(i) =~= list);
    }
}

proof fn lemma_newcomer_place_within(list: Seq<NewcomerView>, id: Seq<char>, from: int)
    requires
        0 <= from <= list.len(),
    ensures
        from <= newcomer_place(list, id, from) <= list.len(),
    decreases list.len() - from,
{
    if from < list.len() && comes_before(list[from].id, id) {
        lemma_newcomer_place_within(list, id, from + 1);
    }
}

/// What a newcomer does goes by its role, and in an interview a witness is the one interviewed and
/// an attorney who asks the interviewer.
pub proof fn law_newcomers_have_functions(document_type: DocumentType, asked: bool)
    ensures
        ({
            let interview = document_type == DocumentType::Interview;
            &&& newcomer_function(SpeakerRole::Witness, document_type, asked) == if interview {
                ParticipantFunction::Interviewee
            } else {
                ParticipantFunction::Witness
            }
            &&& newcomer_function(SpeakerRole::Attorney, document_type, asked) == if interview
                && asked {
                ParticipantFunction::Interviewer
            } else {
                ParticipantFunction::Counsel
            }
            &&& newcomer_function(SpeakerRole::Interpreter, document_type, asked)
                == ParticipantFunction::Interpreter
            &&& newcomer_function(SpeakerRole::CourtReporter, document_type, asked)
                == ParticipantFunction::CourtReporter
            &&& newcomer_function(SpeakerRole::Judge, document_type, asked)
                == ParticipantFunction::Judge
            &&& newcomer_function(SpeakerRole::Videographer, document_type, asked)
                == ParticipantFunction::Videographer
            &&& newcomer_function(SpeakerRole::Unknown, document_type, asked)
                == ParticipantFunction::Unknown
        }),
{
}

/// A newcomer is registered as who it spoke as. Neither a redaction nor a description is its name.
pub proof fn law_newcomers_are_registered_so(newcomer: NewcomerView, document_type: DocumentType)
    ensures
        ({
            let p = new_participant(newcomer, document_type);
            let s = newcomer.speaker;
            let nameless = s.redacted || has_prefix(s.label, "THE "@) || has_prefix(
                s.label,
                "ANONYMOUS "@,
            );
            &&& p.id == newcomer.id && p.display_label == s.label && p.observed_labels
                == seq![s.label]
            &&& p.role == s.role && p.redacted == s.redacted
            &&& nameless ==> p.canonical_name is None
            &&& !nameless ==> p.canonical_name == Some(s.label)
            &&& s.role == SpeakerRole::Unknown ==> p.role_confidence.part == 40
                && p.function_confidence == 30
            &&& s.role != SpeakerRole::Unknown ==> p.role_confidence.part == 90
                && p.function_confidence == 78
            &&& p.role_confidence.whole == 100
            &&& p.function == newcomer_function(s.role, document_type, newcomer.asked)
            &&& p.observations == 0
        }),
{
}

proof fn lemma_turns_counted(lines: Seq<TranscriptLineView>, id: Seq<char>, n: int)
    requires
        0 <= n <= lines.len(),
    ensures
        turn_count(lines, id, n) == lines.take(n).filter(
            |l: TranscriptLineView| l.starts_new_block && l.participant_id == Some(id),
        ).len(),
    decreases n,
{
    let test = |l: TranscriptLineView| l.starts_new_block && l.participant_id == Some(id);
    lemma_filter_first(lines, test, n);
    if n > 0 {
        lemma_turns_counted(lines, id, n - 1);
    }
}

proof fn lemma_turns_counted_of(
    lines: Seq<TranscriptLineView>,
    id: Seq<char>,
    kind: LineKind,
    n: int,
)
    requires
        0 <= n <= lines.len(),
    ensures
        turn_count_of(lines, id, kind, n) == lines.take(n).filter(
            |l: TranscriptLineView|
                l.starts_new_block && l.participant_id == Some(id) && l.kind == kind,
        ).len(),
        turn_count_of(lines, id, kind, n) <= turn_count(lines, id, n),
    decreases n,
{
    let test = |l: TranscriptLineView|
        l.starts_new_block && l.participant_id == Some(id) && l.kind == kind;
    lemma_filter_first(lines, test, n);
    if n > 0 {
        lemma_turns_counted_of(lines, id, kind, n - 1);
    }
}

/// Participants count their turns, that is the lines that open one of theirs, and among them their
/// questions, answers and objections.
pub proof fn law_participants_count_their_turns(
    list: Seq<ParticipantView>,
    lines: Seq<TranscriptLineView>,
    i: int,
)
    requires
        0 <= i < list.len(),
        lines.len() <= usize::MAX,
    ensures
        ({
            let p = counted_participants(list, lines)[i];
            let own = |l: TranscriptLineView|
                l.starts_new_block && l.participant_id == Some(list[i].id);
            let own_of = |kind: LineKind|
                lines.filter(
                    |l: TranscriptLineView|
                        l.starts_new_block && l.participant_id == Some(list[i].id) && l.kind
                            == kind,
                ).len();
            &&& counted_participants(list, lines).len() == list.len()
            &&& p.id == list[i].id && p.role == list[i].role && p.display_label
                == list[i].display_label && p.function == list[i].function
            &&& p.observations == lines.filter(own).len()
            &&& p.question_observations == own_of(LineKind::Question)
            &&& p.answer_observations == own_of(LineKind::Answer)
            &&& p.objection_observations == own_of(LineKind::Objection)
        }),
{
    let n = lines.len() as int;
    let id = list[i].id;
    assert(lines.take(n) =~= lines);
    lemma_turns_counted(lines, id, n);
    lemma_turns_counted_of(lines, id, LineKind::Question, n);
    lemma_turns_counted_of(lines, id, LineKind::Answer, n);
    lemma_turns_counted_of(lines, id, LineKind::Objection, n);
    lines.lemma_filter_len(|l: TranscriptLineView| l.starts_new_block && l.participant_id == Some(id));
}

/// The most active of a role is one of that role, and none of that role does more of what the role
/// is about: a witness answers, others ask. Among equals it is the last.
pub proof fn law_most_active_of_a_role(list: Seq<ParticipantView>, role: SpeakerRole, n: int)
    requires
        0 <= n <= list.len(),
    ensures
        ({
            let activity = |p: ParticipantView|
                if role == SpeakerRole::Witness {
                    p.answer_observations
                } else {
                    p.question_observations
                };
            match most_active(list, role, n) {
                Some(best) => {
                    &&& 0 <= best < n && list[best].role == role
                    &&& forall|i: int|
                        0 <= i < n && (#[trigger] list[i]).role == role ==> activity(list[i])
                            <= activity(list[best])
                    &&& forall|i: int|
                        best < i < n && (#[trigger] list[i]).role == role ==> activity(list[i])
                            < activity(list[best])
                },
                None => forall|i: int| 0 <= i < n ==> (#[trigger] list[i]).role != role,
            }
        }),
    decreases n,
{
    if n > 0 {
        law_most_active_of_a_role(list, role, n - 1);
    }
}

/// Reconciling keeps those registered in front, adds the newcomers behind them, and fills in who
/// mainly asks and answers only where that was open.
pub proof fn law_reconciling_adds_newcomers(
    context: TranscriptContextView,
    lines: Seq<TranscriptLineView>,
    i: int,
)
    requires
        0 <= i < context.participants.len(),
    ensures
        ({
            let after = reconciled(context, lines);
            &&& after.participants.len() >= context.participants.len()
            &&& after.participants[i].id == context.participants[i].id
            &&& after.participants[i].role == context.participants[i].role
            &&& context.primary_questioner is Some ==> after.primary_questioner
                == context.primary_questioner
            &&& context.primary_questioner is None ==> after.primary_questioner == primary_speaker(
                after.participants,
                SpeakerRole::Attorney,
            )
            &&& context.primary_witness is Some ==> after.primary_witness
                == context.primary_witness
            &&& context.primary_witness is None ==> after.primary_witness == primary_speaker(
                after.participants,
                SpeakerRole::Witness,
            )
            &&& after.document_type == context.document_type && after.marker_rules
                == context.marker_rules && after.page_contexts == context.page_contexts
                && after.gaps == context.gaps
        }),
{
}

} // verus!
