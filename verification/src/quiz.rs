//! Quiz questions and the validation rules for submitted answers.
//!
//! The question bank and its random sampling live outside the engine; the
//! engine snapshots a sampled set into the session and validates submitted
//! answers against it: short answers need at least 50 characters, long
//! answers at least 750, and multiple-choice answers must be one of the
//! allowed choices.

use vstd::prelude::*;

use crate::errors::GuardReason;

verus! {

/// Minimum length, in characters, of a short answer.
pub const SHORT_ANSWER_MIN: usize = 50;

/// Minimum length, in characters, of a long answer.
pub const LONG_ANSWER_MIN: usize = 750;

/// The kind of response a question expects.
#[derive(Debug)]
pub enum QuestionData {
    Short,
    Long,
    MultipleChoice(Vec<String>),
}

/// One question of the onboarding quiz.
#[derive(Debug)]
pub struct Question {
    pub question: String,
    pub data: QuestionData,
    /// Marking scheme of the question; never shown to the trainee.
    pub guidance: Option<String>,
    /// Whether the question is always present in a sampled quiz.
    pub pinned: bool,
}

/// A question as shown to the trainee: the guidance is stripped.
#[derive(Debug)]
pub struct PublicQuestion {
    pub question: String,
    pub data: QuestionData,
    pub pinned: bool,
}

/// One submitted answer, keyed by the question text.
#[derive(Debug)]
pub struct Answer {
    pub question: String,
    pub answer: String,
}

impl Question {
    /// The trainee-facing form of the question, without the guidance.
    pub fn to_public(self) -> (r: PublicQuestion)
        ensures
            r.question == self.question,
            r.data == self.data,
            r.pinned == self.pinned,
    {
        PublicQuestion { question: self.question, data: self.data, pinned: self.pinned }
    }
}

/// The first submitted answer whose question text matches `q`.
pub open spec fn answer_for(answers: Seq<Answer>, q: Seq<char>) -> Option<Answer>
    decreases answers.len(),
{
    if answers.len() == 0 {
        None
    } else if answers.first().question@ == q {
        Some(answers.first())
    } else {
        answer_for(answers.drop_first(), q)
    }
}

/// Why an answer fails the rule of its question, if it does. Lengths are in
/// characters.
pub open spec fn answer_fail(data: QuestionData, a: Seq<char>) -> Option<GuardReason> {
    match data {
        QuestionData::Short => if a.len() < SHORT_ANSWER_MIN as int {
            Some(GuardReason::ShortAnswerTooShort)
        } else {
            None
        },
        QuestionData::Long => if a.len() < LONG_ANSWER_MIN as int {
            Some(GuardReason::LongAnswerTooShort)
        } else {
            None
        },
        QuestionData::MultipleChoice(cs) => if exists|i: int|
            0 <= i < cs@.len() && #[trigger] cs@[i]@ == a {
            None
        } else {
            Some(GuardReason::InvalidChoice)
        },
    }
}

/// What validating the submitted answers yields: the questions are walked
/// in order; the first one without an answer, or whose answer breaks its
/// rule, decides the error.
pub open spec fn validate_spec(questions: Seq<Question>, answers: Seq<Answer>) -> Result<
    (),
    GuardReason,
>
    decreases questions.len(),
{
    if questions.len() == 0 {
        Ok(())
    } else {
        match answer_for(answers, questions.first().question@) {
            None => Err(GuardReason::AnswerMissing),
            Some(ans) => match answer_fail(questions.first().data, ans.answer@) {
                Some(g) => Err(g),
                None => validate_spec(questions.drop_first(), answers),
            },
        }
    }
}

/// Looks up the first answer for a question text.
fn answer_lookup<'a>(answers: &'a Vec<Answer>, q: &String) -> (r: Option<&'a Answer>)
    ensures
        match r {
            Some(a) => answer_for(answers@, q@) == Some(*a),
            None => answer_for(answers@, q@) is None,
        },
{
    let mut i: usize = 0;
    proof {
        assert(answers@.skip(0) =~= answers@);
    }
    while i < answers.len()
        invariant
            0 <= i <= answers@.len(),
            answer_for(answers@, q@) == answer_for(answers@.skip(i as int), q@),
        decreases answers@.len() - i,
    {
        if answers[i].question.eq(q) {
            return Some(&answers[i]);
        }
        proof {
            assert(answers@.skip(i as int).drop_first() =~= answers@.skip(i + 1));
        }
        i += 1;
    }
    None
}

/// Whether one of the choices equals the answer.
fn choice_contains(cs: &Vec<String>, a: &String) -> (r: bool)
    ensures
        r == exists|i: int| 0 <= i < cs@.len() && #[trigger] cs@[i]@ == a@,
{
    let mut i: usize = 0;
    while i < cs.len()
        invariant
            0 <= i <= cs@.len(),
            forall|j: int| 0 <= j < i ==> #[trigger] cs@[j]@ != a@,
        decreases cs@.len() - i,
    {
        if cs[i].eq(a) {
            return true;
        }
        i += 1;
    }
    false
}

/// Validates the submitted answers against the sampled questions.
pub fn validate_answers(questions: &Vec<Question>, answers: &Vec<Answer>) -> (r: Result<
    (),
    GuardReason,
>)
    ensures
        r == validate_spec(questions@, answers@),
{
    let mut i: usize = 0;
    proof {
        assert(questions@.skip(0) =~= questions@);
    }
    while i < questions.len()
        invariant
            0 <= i <= questions@.len(),
            validate_spec(questions@, answers@) == validate_spec(
                questions@.skip(i as int),
                answers@,
            ),
        decreases questions@.len() - i,
    {
        let q = &questions[i];
        let found = answer_lookup(answers, &q.question);
        match found {
            None => {
                return Err(GuardReason::AnswerMissing);
            },
            Some(ans) => {
                match &q.data {
                    QuestionData::Short => {
                        if ans.answer.as_str().unicode_len() < SHORT_ANSWER_MIN {
                            return Err(GuardReason::ShortAnswerTooShort);
                        }
                    },
                    QuestionData::Long => {
                        if ans.answer.as_str().unicode_len() < LONG_ANSWER_MIN {
                            return Err(GuardReason::LongAnswerTooShort);
                        }
                    },
                    QuestionData::MultipleChoice(cs) => {
                        if !choice_contains(cs, &ans.answer) {
                            return Err(GuardReason::InvalidChoice);
                        }
                    },
                }
            },
        }
        proof {
            assert(questions@.skip(i as int).drop_first() =~= questions@.skip(i + 1));
        }
        i += 1;
    }
    Ok(())
}

} // verus!
