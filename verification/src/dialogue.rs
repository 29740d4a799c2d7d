//! The course of a dialogue.
//!
//! A dialogue asks for the inputs of a calculation one after the other, then
//! for the capital, works out the result and starts over. The first question
//! can be answered with the wish to leave. An answer of no use sends the
//! dialogue back to its first question, or, where the inputs are the items of
//! a list whose length the first input gave, asks for the same item again.
//! The capital may be left out, and a capital of no use counts as left out.
//!
//! This module decides what comes next. Asking, reading and judging the
//! answers is the caller's.

use crate::text::{lowercased, same_text, trimmed};
use vstd::prelude::*;

verus! {

/// How a dialogue is laid out.
#[derive(Clone, Copy, Debug, PartialEq, Eq, Structural)]
pub struct Form {
    /// The number of inputs, where it is fixed.
    pub inputs: usize,
    /// Whether the first input is a count, and as many items follow it.
    pub listed: bool,
    /// Whether the capital is asked for after the inputs.
    pub capital: bool,
}

/// What a dialogue asks for.
#[derive(Clone, Copy, Debug, PartialEq, Eq, Structural)]
pub enum Question {
    /// An input, by its number from 0.
    Input(usize),
    /// The capital.
    Capital,
}

/// How the caller judged an answer.
#[derive(Clone, Copy, Debug, PartialEq, Eq, Structural)]
pub enum Answer {
    /// The wish to leave.
    Quit,
    /// Nothing.
    Blank,
    /// Something of no use.
    Invalid,
    /// An input of use.
    Valid,
    /// A count of use: so many items are to follow.
    Count(usize),
}

/// Where a dialogue stands.
#[derive(Clone, Copy, Debug, PartialEq, Eq, Structural)]
pub enum Stage {
    /// A question is to be asked.
    Asking(Question),
    /// The result is to be worked out, with the capital where `capital` is
    /// set.
    Computing { capital: bool },
    /// The dialogue is over.
    Left,
}

/// The state of a dialogue, as contracts see it.
pub struct DialogueState {
    /// How the dialogue is laid out.
    pub form: Form,
    /// Where it stands.
    pub stage: Stage,
    /// The number of items announced, in a listed form.
    pub items: nat,
}

/// Where a dialogue stands after input `input` was given, with `items` items
/// announced: at the next input where there is one, else at the capital
/// where the form asks for it, else at the calculation.
pub open spec fn after_input(form: Form, items: nat, input: nat) -> Stage {
    if (form.listed && input < items) || (!form.listed && input + 1 < form.inputs) {
        Stage::Asking(Question::Input((input + 1) as usize))
    } else if form.capital {
        Stage::Asking(Question::Capital)
    } else {
        Stage::Computing { capital: false }
    }
}

/// The state in which a dialogue starts, and starts over.
pub open spec fn opening(form: Form) -> DialogueState {
    DialogueState { form, stage: Stage::Asking(Question::Input(0)), items: 0 }
}

/// Whether `answer` gives what input `input` asks for: a count for the first
/// input of a listed form, and an input of use else.
pub open spec fn is_given(form: Form, input: nat, answer: Answer) -> bool {
    if form.listed && input == 0 {
        answer is Count
    } else {
        answer is Valid
    }
}

/// The state that follows `state` on `answer`.
///
/// The wish to leave ends the dialogue at its first question. An input that
/// is given leads on. Any other answer to an input starts the dialogue over,
/// but for an item of a list, which is asked for again. After the capital
/// comes the calculation, with the capital where it is of use.
pub open spec fn reply(state: DialogueState, answer: Answer) -> DialogueState {
    match state.stage {
        Stage::Asking(Question::Input(input)) => if input == 0 && answer is Quit {
            DialogueState { stage: Stage::Left, ..state }
        } else if is_given(state.form, input as nat, answer) {
            let items = if answer is Count {
                answer->Count_0 as nat
            } else {
                state.items
            };
            DialogueState {
                stage: after_input(state.form, items, input as nat),
                items,
                ..state
            }
        } else if state.form.listed && input > 0 {
            state
        } else {
            opening(state.form)
        },
        Stage::Asking(Question::Capital) => DialogueState {
            stage: Stage::Computing { capital: answer is Valid },
            ..state
        },
        _ => state,
    }
}

/// What holds of every state that a dialogue can reach: an input that is
/// asked for is one of the form's.
pub open spec fn well_formed(state: DialogueState) -> bool {
    match state.stage {
        Stage::Asking(Question::Input(input)) => input == 0 || (if state.form.listed {
            input <= state.items
        } else {
            input < state.form.inputs
        }),
        _ => true,
    }
}

/// A reply leads from a well-formed state to a well-formed state, and ends
/// the dialogue only where the wish to leave answers the first question.
pub proof fn lemma_reply(state: DialogueState, answer: Answer)
    requires
        well_formed(state),
        state.stage is Asking,
    ensures
        well_formed(reply(state, answer)),
        reply(state, answer).form == state.form,
        reply(state, answer).stage is Left <==> state.stage == Stage::Asking(Question::Input(0))
            && answer is Quit,
        reply(state, answer).stage is Computing ==> state.stage == Stage::Asking(
            Question::Capital,
        ) || (!state.form.capital && state.stage is Asking),
{
}

/// The trimmed text in lower case, which tells the wish to leave.
pub open spec fn asks_to_leave(text: Seq<char>) -> bool {
    lowercased(trimmed(text)) == "q"@
}

/// Whether the text is nothing but white space.
pub open spec fn is_empty_answer(text: Seq<char>) -> bool {
    trimmed(text).len() == 0
}

/// Whether the answer is the wish to leave: the letter `q`, in either case,
/// with or without white space around it.
pub fn is_quit(text: &str) -> (quit: bool)
    ensures
        quit == asks_to_leave(text@),
{
    let bare = text.trim().to_lowercase();
    same_text(bare.as_str(), "q")
}

/// Whether the answer is nothing but white space.
pub fn is_blank(text: &str) -> (blank: bool)
    ensures
        blank == is_empty_answer(text@),
{
    text.trim().is_empty()
}

/// A dialogue in progress.
#[derive(Clone, Copy, Debug)]
pub struct Dialogue {
    form: Form,
    stage: Stage,
    items: usize,
}

impl View for Dialogue {
    type V = DialogueState;

    closed spec fn view(&self) -> DialogueState {
        DialogueState { form: self.form, stage: self.stage, items: self.items as nat }
    }
}

impl Dialogue {
    #[verifier::type_invariant]
    spec fn inv(&self) -> bool {
        well_formed(self@)
    }

    /// Starts a dialogue of the given form, at its first question.
    pub fn begin(form: Form) -> (dialogue: Dialogue)
        ensures
            dialogue@ == opening(form),
    {
        Dialogue { form, stage: Stage::Asking(Question::Input(0)), items: 0 }
    }

    /// Where the dialogue stands.
    pub fn stage(&self) -> (stage: Stage)
        ensures
            stage == self@.stage,
            well_formed(self@),
    {
        proof {
            use_type_invariant(self);
        }
        self.stage
    }

    /// The number of items announced, in a listed form.
    pub fn items(&self) -> (items: usize)
        ensures
            items == self@.items,
    {
        self.items
    }

    /// Takes in how the caller judged the answer to the question that was
    /// asked. The result is `None`, and nothing changes, where no question
    /// was asked.
    pub fn reply(self, answer: Answer) -> (next: Option<Dialogue>)
        ensures
            next is Some <==> self@.stage is Asking,
            next is Some ==> next->0@ == reply(self@, answer),
    {
        proof {
            use_type_invariant(&self);
        }
        match self.stage {
            Stage::Asking(Question::Input(input)) => {
                let quit = match answer {
                    Answer::Quit => true,
                    _ => false,
                };
                let given = match answer {
                    Answer::Count(_) => self.form.listed && input == 0,
                    Answer::Valid => !(self.form.listed && input == 0),
                    _ => false,
                };
                if input == 0 && quit {
                    Some(Dialogue { stage: Stage::Left, ..self })
                } else if given {
                    let items = match answer {
                        Answer::Count(count) => count,
                        _ => self.items,
                    };
                    let more = if self.form.listed {
                        input < items
                    } else {
                        input < self.form.inputs && input + 1 < self.form.inputs
                    };
                    let stage = if more {
                        Stage::Asking(Question::Input(input + 1))
                    } else if self.form.capital {
                        Stage::Asking(Question::Capital)
                    } else {
                        Stage::Computing { capital: false }
                    };
                    Some(Dialogue { stage, items, ..self })
                } else if self.form.listed && input > 0 {
                    Some(self)
                } else {
                    Some(Dialogue { stage: Stage::Asking(Question::Input(0)), items: 0, ..self })
                }
            },
            Stage::Asking(Question::Capital) => {
                let capital = match answer {
                    Answer::Valid => true,
                    _ => false,
                };
                Some(Dialogue { stage: Stage::Computing { capital }, ..self })
            },
            _ => None,
        }
    }

    /// Starts the dialogue over after the calculation. The result is `None`
    /// where no calculation was due.
    pub fn resume(self) -> (next: Option<Dialogue>)
        ensures
            next is Some <==> self@.stage is Computing,
            next is Some ==> next->0@ == opening(self@.form),
    {
        match self.stage {
            Stage::Computing { .. } => Some(
                Dialogue { stage: Stage::Asking(Question::Input(0)), items: 0, ..self },
            ),
            _ => None,
        }
    }
}

} // verus!
