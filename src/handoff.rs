//! The one-shot slot through which a client's answer reaches the waiting host.
use vstd::prelude::*;

verus! {

/// What a slot holds after a publication of `answer` on a slot that held `slot`:
/// the first answer wins and is never replaced.
pub open spec fn after_publish(slot: Option<Seq<char>>, answer: Seq<char>) -> Option<Seq<char>> {
    match slot {
        Some(a) => Some(a),
        None => Some(answer),
    }
}

/// What a slot holds after the publications of `answers`, in order.
pub open spec fn after_publishes(slot: Option<Seq<char>>, answers: Seq<Seq<char>>) -> Option<Seq<char>>
    decreases answers.len(),
{
    if answers.len() == 0 {
        slot
    } else {
        after_publish(after_publishes(slot, answers.drop_last()), answers.last())
    }
}

/// Error of a second publication on one slot.
#[derive(Clone, Copy, Debug, PartialEq, Eq)]
pub enum HandoffError {
    AlreadyFilled,
}

/// A slot that is empty until one answer is published into it, and then keeps
/// that answer.
#[derive(Debug)]
pub struct HandoffSlot {
    answer: Option<String>,
}

impl View for HandoffSlot {
    type V = Option<Seq<char>>;

    closed spec fn view(&self) -> Option<Seq<char>> {
        match self.answer {
            Some(a) => Some(a@),
            None => None,
        }
    }
}

impl HandoffSlot {
    /// An empty slot.
    pub fn new() -> (slot: Self)
        ensures
            slot@ == None::<Seq<char>>,
    {
        HandoffSlot { answer: None }
    }

    /// Whether an answer has been published.
    pub fn is_filled(&self) -> (r: bool)
        ensures
            r == self@.is_some(),
    {
        self.answer.is_some()
    }

    /// The published answer, if any.
    pub fn answer(&self) -> (r: Option<String>)
        ensures
            match r {
                Some(a) => self@ == Some(a@),
                None => self@.is_none(),
            },
    {
        match &self.answer {
            Some(a) => Some(a.clone()),
            None => None,
        }
    }

    /// Publishes `answer`: fills an empty slot, and leaves a filled one as it is
    /// with `AlreadyFilled`.
    pub fn publish(&mut self, answer: String) -> (r: Result<(), HandoffError>)
        ensures
            final(self)@ == after_publish(old(self)@, answer@),
            r is Ok <==> old(self)@.is_none(),
    {
        if self.answer.is_some() {
            Err(HandoffError::AlreadyFilled)
        } else {
            self.answer = Some(answer);
            Ok(())
        }
    }
}

/// Once a slot holds an answer, every later sequence of publications leaves it
/// holding that same answer.
pub proof fn lemma_filled_slot_is_stable(answer: Seq<char>, answers: Seq<Seq<char>>)
    ensures
        after_publishes(Some(answer), answers) == Some(answer),
    decreases answers.len(),
{
    if answers.len() > 0 {
        lemma_filled_slot_is_stable(answer, answers.drop_last());
    }
}

} // verus!
