//! Phrases to type, and the order in which a session goes through them.

use rand::rngs::ThreadRng;
use rand::seq::SliceRandom;
use vstd::prelude::*;

verus! {

/// A phrase: the text shown to the typist and the kana to be typed.
#[derive(Copy, Clone, Debug)]
pub struct Question {
    /// The display text, which may hold ideographs.
    pub japanese: &'static str,
    /// The kana text; this is what gets segmented and typed.
    pub hiragana: &'static str,
}

/// `rand::rngs::ThreadRng`, the thread-local random generator. Its inside is
/// not modelled.
#[verifier::external_type_specification]
#[verifier::external_body]
pub struct ExThreadRng(ThreadRng);

/// `rand::rng` hands out a handle to the thread-local generator, which is
/// seeded from the operating system on first use. Nothing is said about the
/// generator.
pub assume_specification[ rand::rng ]() -> (rng: ThreadRng)
;

/// Shuffles `questions` in place with `rand::seq::SliceRandom::shuffle`,
/// which does nothing to a slice of at most one element and otherwise only
/// swaps elements of the slice. Which order comes out depends on the
/// generator; in every outcome the list holds the same phrases as before,
/// each as often as before.
#[verifier::external_body]
fn shuffle_in_place(questions: &mut Vec<Question>, rng: &mut ThreadRng)
    ensures
        final(questions)@.to_multiset() == old(questions)@.to_multiset(),
{
    questions.shuffle(rng);
}

/// The phrases of `questions` in a random order.
pub fn shuffle_questions(questions: Vec<Question>) -> (shuffled: Vec<Question>)
    ensures
        shuffled@.to_multiset() == questions@.to_multiset(),
        shuffled@.len() == questions@.len(),
{
    let mut rng = rand::rng();
    let mut shuffled = questions;
    shuffle_in_place(&mut shuffled, &mut rng);
    proof {
        shuffled@.to_multiset_ensures();
        questions@.to_multiset_ensures();
    }
    shuffled
}

/// The phrases of a session and the position of the one being typed. After
/// the last phrase the session wraps around to the first.
pub struct QuestionDeck {
    questions: Vec<Question>,
    current_question_index: usize,
}

impl QuestionDeck {
    /// The phrases, in the order in which the session goes through them.
    pub closed spec fn questions(&self) -> Seq<Question> {
        self.questions@
    }

    /// The position of the phrase being typed.
    pub closed spec fn position(&self) -> int {
        self.current_question_index as int
    }

    /// The deck is not empty and the position points into it.
    pub open spec fn wf(&self) -> bool {
        0 <= self.position() < self.questions().len()
    }

    /// A deck that goes through `questions` in the given order, starting at
    /// the first.
    pub fn new(questions: Vec<Question>) -> (deck: Self)
        requires
            questions@.len() > 0,
        ensures
            deck.wf(),
            deck.questions() == questions@,
            deck.position() == 0,
    {
        QuestionDeck { questions, current_question_index: 0 }
    }

    /// A deck that goes through `questions` in a random order, starting at
    /// the first of that order.
    pub fn shuffled(questions: Vec<Question>) -> (deck: Self)
        requires
            questions@.len() > 0,
        ensures
            deck.wf(),
            deck.questions().to_multiset() == questions@.to_multiset(),
            deck.questions().len() == questions@.len(),
            deck.position() == 0,
    {
        QuestionDeck::new(shuffle_questions(questions))
    }

    /// The number of phrases.
    pub fn len(&self) -> (n: usize)
        ensures
            n == self.questions().len(),
    {
        self.questions.len()
    }

    /// The position of the phrase being typed.
    pub fn current_question_index(&self) -> (index: usize)
        ensures
            index == self.position(),
    {
        self.current_question_index
    }

    /// The phrase being typed.
    pub fn get_current_question(&self) -> (question: Question)
        requires
            self.wf(),
        ensures
            question == self.questions()[self.position()],
    {
        self.questions[self.current_question_index]
    }

    /// Moves on to the next phrase, wrapping around after the last.
    pub fn advance(&mut self)
        requires
            old(self).wf(),
        ensures
            final(self).wf(),
            final(self).questions() == old(self).questions(),
            final(self).position() == (old(self).position() + 1) % (old(self).questions().len()
                as int),
    {
        let n = self.questions.len();
        self.current_question_index = (self.current_question_index + 1) % n;
    }
}

} // verus!
