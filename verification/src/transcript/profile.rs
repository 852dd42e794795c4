//! The conventions that a parse starts from.
use vstd::prelude::*;

verus! {

/// What the transcripts of one tradition have in common.
#[derive(Debug, Clone, Copy)]
pub struct TranscriptProfile {
    pub name: &'static str,
    pub max_line_number: u16,
    pub word_question_markers: &'static [&'static str],
    pub word_answer_markers: &'static [&'static str],
}

/// The contents of a [`TranscriptProfile`].
#[verifier::ext_equal]
pub struct TranscriptProfileView {
    pub name: Seq<char>,
    pub max_line_number: u16,
    pub word_question_markers: Seq<Seq<char>>,
    pub word_answer_markers: Seq<Seq<char>>,
}

impl DeepView for TranscriptProfile {
    type V = TranscriptProfileView;

    open spec fn deep_view(&self) -> TranscriptProfileView {
        TranscriptProfileView {
            name: self.name@,
            max_line_number: self.max_line_number,
            word_question_markers: self.word_question_markers.deep_view(),
            word_answer_markers: self.word_answer_markers.deep_view(),
        }
    }
}

/// The conventions of English transcripts in the United States.
pub open spec fn us_english_profile() -> TranscriptProfileView {
    TranscriptProfileView {
        name: "us_english"@,
        max_line_number: 100,
        word_question_markers: seq!["QUESTION:"@, "QUESTION."@],
        word_answer_markers: seq!["ANSWER:"@, "ANSWER."@],
    }
}

impl TranscriptProfile {
    pub fn us_english() -> (r: Self)
        ensures
            r.deep_view() == us_english_profile(),
    {
        let r = TranscriptProfile {
            name: "us_english",
            max_line_number: 100,
            word_question_markers: &["QUESTION:", "QUESTION."],
            word_answer_markers: &["ANSWER:", "ANSWER."],
        };
        assert(r.word_question_markers.deep_view() =~= seq!["QUESTION:"@, "QUESTION."@]);
        assert(r.word_answer_markers.deep_view() =~= seq!["ANSWER:"@, "ANSWER."@]);
        r
    }
}

/// The conventions of English transcripts: lines numbered up to 100, and words with a colon or a
/// full stop that mark questions and answers.
pub proof fn law_english_conventions()
    ensures
        ({
            let p = us_english_profile();
            &&& p.name == "us_english"@ && p.max_line_number == 100
            &&& p.word_question_markers.len() == 2 && p.word_answer_markers.len() == 2
            &&& p.word_question_markers[0] == "QUESTION:"@ && p.word_question_markers[1]
                == "QUESTION."@
            &&& p.word_answer_markers[0] == "ANSWER:"@ && p.word_answer_markers[1] == "ANSWER."@
        }),
{
}

} // verus!
