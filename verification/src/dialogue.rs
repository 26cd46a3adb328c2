//! The dialogue in which the user accepts, refines or drops a proposed plan.

use vstd::prelude::*;

use crate::text;

verus! {

/// The question that follows a proposed plan.
pub const CHOICE_PROMPT: &'static str = "Accept this plan? [a]ccept / [r]efine / [c]ancel: ";

/// The question that follows the wish to refine.
pub const FEEDBACK_PROMPT: &'static str = "What should change? ";

/// What the user is told when a session is not started for want of a plan.
pub const START_CANCELLED: &'static str = "Session planning cancelled. No session was started.";

/// What the user is told when a plan is not replaced.
pub const REVISION_CANCELLED: &'static str = "Plan revision cancelled. No changes were saved.";

/// What the user can do with a proposed plan.
#[derive(Clone, Copy, Debug, PartialEq, Eq, Structural)]
pub enum Choice {
    Accept,
    Refine,
    Cancel,
    /// Nothing that was offered.
    Unclear,
}

/// The choice that a word in lower case stands for.
pub open spec fn choice_of(word: Seq<char>) -> Choice {
    if word == "a"@ || word == "accept"@ {
        Choice::Accept
    } else if word == "c"@ || word == "cancel"@ {
        Choice::Cancel
    } else if word == "r"@ || word == "refine"@ {
        Choice::Refine
    } else {
        Choice::Unclear
    }
}

/// The choice that a word in lower case stands for.
pub fn read_choice(word: &str) -> (res: Choice)
    ensures
        res == choice_of(word@),
{
    if text::same_text(word, "a") || text::same_text(word, "accept") {
        Choice::Accept
    } else if text::same_text(word, "c") || text::same_text(word, "cancel") {
        Choice::Cancel
    } else if text::same_text(word, "r") || text::same_text(word, "refine") {
        Choice::Refine
    } else {
        Choice::Unclear
    }
}

/// What is to be done next in the dialogue.
#[derive(Clone, Copy, Debug, PartialEq, Eq, Structural)]
pub enum DialogueStep {
    /// The proposed plan is to be kept.
    Accepted,
    /// There is to be no plan.
    Cancelled,
    /// Ask what should change, and hand in the answer.
    AskFeedback,
    /// Propose another plan, with what the user wants changed so far.
    Propose,
    /// Say that feedback cannot be empty, then propose another plan.
    RejectEmptyFeedback,
    /// Say what the choices are, then propose another plan.
    ExplainChoices,
}

impl DialogueStep {
    /// What the user is told before the next plan.
    pub open spec fn spec_notice(self) -> Seq<char> {
        match self {
            DialogueStep::RejectEmptyFeedback => "Refinement feedback cannot be empty."@,
            DialogueStep::ExplainChoices => "Enter a, r, or c."@,
            _ => ""@,
        }
    }

    /// What the user is told before the next plan; nothing for the other steps.
    pub fn notice(&self) -> (res: &'static str)
        ensures
            res@ == self.spec_notice(),
    {
        match self {
            DialogueStep::RejectEmptyFeedback => "Refinement feedback cannot be empty.",
            DialogueStep::ExplainChoices => "Enter a, r, or c.",
            _ => "",
        }
    }
}

/// A dialogue on a plan: what the user wants changed so far, and whether the next answer is
/// feedback.
pub struct Dialogue {
    feedback: Vec<String>,
    awaits_feedback: bool,
}

/// The model of [`Dialogue`].
#[verifier::ext_equal]
pub struct DialogueView {
    pub feedback: Seq<Seq<char>>,
    pub awaits_feedback: bool,
}

impl View for Dialogue {
    type V = DialogueView;

    closed spec fn view(&self) -> DialogueView {
        DialogueView {
            feedback: text::texts(self.feedback@),
            awaits_feedback: self.awaits_feedback,
        }
    }
}

impl DialogueView {
    /// What follows a choice, given as a word in lower case.
    pub open spec fn after_choice(self, word: Seq<char>) -> (DialogueView, DialogueStep) {
        match choice_of(word) {
            Choice::Accept => (self, DialogueStep::Accepted),
            Choice::Cancel => (self, DialogueStep::Cancelled),
            Choice::Refine => (
                DialogueView { awaits_feedback: true, ..self },
                DialogueStep::AskFeedback,
            ),
            Choice::Unclear => (self, DialogueStep::ExplainChoices),
        }
    }

    /// What follows an answer to the question what should change.
    pub open spec fn after_feedback(self, answer: Seq<char>) -> (DialogueView, DialogueStep) {
        if text::blank(answer) {
            (
                DialogueView { awaits_feedback: false, ..self },
                DialogueStep::RejectEmptyFeedback,
            )
        } else {
            (
                DialogueView {
                    feedback: self.feedback.push(text::trimmed(answer)),
                    awaits_feedback: false,
                },
                DialogueStep::Propose,
            )
        }
    }

    /// What follows an answer of the user. The end of the input drops the plan.
    pub open spec fn after(self, answer: Option<Seq<char>>) -> (DialogueView, DialogueStep) {
        match answer {
            None => (self, DialogueStep::Cancelled),
            Some(answer) => if self.awaits_feedback {
                self.after_feedback(answer)
            } else {
                self.after_choice(text::lowered(text::trimmed(answer)))
            },
        }
    }
}

impl Dialogue {
    /// A dialogue that has not begun.
    pub fn new() -> (res: Dialogue)
        ensures
            res@ == (DialogueView { feedback: seq![], awaits_feedback: false }),
    {
        let res = Dialogue { feedback: Vec::new(), awaits_feedback: false };
        assert(res@ =~= (DialogueView { feedback: seq![], awaits_feedback: false }));
        res
    }

    /// What the user wants changed so far.
    pub fn feedback(&self) -> (res: &[String])
        ensures
            text::texts(res@) == self@.feedback,
    {
        self.feedback.as_slice()
    }

    /// Takes in a choice, given as a word in lower case.
    pub fn choose_by(&mut self, word: &str) -> (res: DialogueStep)
        ensures
            (final(self)@, res) == old(self)@.after_choice(word@),
    {
        match read_choice(word) {
            Choice::Accept => DialogueStep::Accepted,
            Choice::Cancel => DialogueStep::Cancelled,
            Choice::Refine => {
                self.awaits_feedback = true;
                DialogueStep::AskFeedback
            },
            Choice::Unclear => DialogueStep::ExplainChoices,
        }
    }

    /// Takes in an answer to the question what should change.
    pub fn refine_by(&mut self, answer: &str) -> (res: DialogueStep)
        ensures
            (final(self)@, res) == old(self)@.after_feedback(answer@),
    {
        self.awaits_feedback = false;
        let trimmed = text::trim(answer);
        proof {
            text::trimming_is_stable(answer@);
        }
        if trimmed.as_str().is_empty() {
            DialogueStep::RejectEmptyFeedback
        } else {
            let ghost before = self@.feedback;
            let ghost added = trimmed@;
            self.feedback.push(trimmed);
            assert(self@.feedback =~= before.push(added));
            DialogueStep::Propose
        }
    }

    /// Takes in the answer to the last question; none, if the input has ended.
    pub fn answer(&mut self, line: Option<&str>) -> (res: DialogueStep)
        ensures
            (final(self)@, res) == old(self)@.after(text::optional_text(line)),
    {
        match line {
            None => DialogueStep::Cancelled,
            Some(line) => {
                if self.awaits_feedback {
                    self.refine_by(line)
                } else {
                    let word = text::lower(text::trim(line).as_str());
                    self.choose_by(word.as_str())
                }
            },
        }
    }
}

/// Only six words are choices, a letter and a word for each; everything else is unclear.
pub proof fn only_what_was_offered_is_a_choice(word: Seq<char>)
    ensures
        choice_of(word) == Choice::Accept <==> word == "a"@ || word == "accept"@,
        choice_of(word) == Choice::Refine <==> word == "r"@ || word == "refine"@,
        choice_of(word) == Choice::Cancel <==> word == "c"@ || word == "cancel"@,
{
    reveal_strlit("a");
    reveal_strlit("accept");
    reveal_strlit("r");
    reveal_strlit("refine");
    reveal_strlit("c");
    reveal_strlit("cancel");
    assert("a"@.len() == 1 && "r"@.len() == 1 && "c"@.len() == 1);
    assert("accept"@.len() == 6 && "refine"@.len() == 6 && "cancel"@.len() == 6);
    assert("a"@[0] == 'a' && "r"@[0] == 'r' && "c"@[0] == 'c');
    assert("accept"@[0] == 'a' && "refine"@[0] == 'r' && "cancel"@[0] == 'c');
}

/// What a user answers counts in upper and lower case and with or without white space around it. A
/// plan is kept only if the user says so; it is dropped if the user says so, or says nothing more.
/// Feedback is kept, trimmed, behind the earlier feedback, and nothing else is ever taken for
/// feedback; blank feedback counts for nothing.
pub proof fn the_user_has_the_last_word(dialogue: DialogueView, answer: Option<Seq<char>>)
    ensures
        ({
            let (after, step) = dialogue.after(answer);
            let word = text::lowered(text::trimmed(answer->0));
            let choosing = answer is Some && !dialogue.awaits_feedback;
            let refining = answer is Some && dialogue.awaits_feedback;
            &&& step == DialogueStep::Accepted <==> choosing && (word == "a"@ || word == "accept"@)
            &&& step == DialogueStep::Cancelled <==> answer is None || choosing && (word == "c"@
                || word == "cancel"@)
            &&& step == DialogueStep::AskFeedback <==> choosing && (word == "r"@ || word
                == "refine"@)
            &&& step == DialogueStep::Propose <==> refining && !text::blank(answer->0)
            &&& step == DialogueStep::RejectEmptyFeedback <==> refining && text::blank(answer->0)
            &&& after.awaits_feedback <==> step == DialogueStep::AskFeedback || answer is None
                && dialogue.awaits_feedback
            &&& after.feedback == if step == DialogueStep::Propose {
                dialogue.feedback.push(text::trimmed(answer->0))
            } else {
                dialogue.feedback
            }
        }),
{
    only_what_was_offered_is_a_choice(text::lowered(text::trimmed(answer->0)));
}

} // verus!
