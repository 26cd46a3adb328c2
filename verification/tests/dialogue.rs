use lokin::dialogue::{read_choice, Choice, Dialogue, DialogueStep, CHOICE_PROMPT, FEEDBACK_PROMPT};

#[test]
fn choices_are_words_or_letters() {
    for (word, choice) in [
        ("a", Choice::Accept),
        ("accept", Choice::Accept),
        ("r", Choice::Refine),
        ("refine", Choice::Refine),
        ("c", Choice::Cancel),
        ("cancel", Choice::Cancel),
        ("", Choice::Unclear),
        ("ac", Choice::Unclear),
        ("A", Choice::Unclear),
    ] {
        assert_eq!(read_choice(word), choice);
    }
}

#[test]
fn case_and_white_space_do_not_matter() {
    assert_eq!(Dialogue::new().answer(Some("  ACCEPT \n")), DialogueStep::Accepted);
    assert_eq!(Dialogue::new().answer(Some("Cancel")), DialogueStep::Cancelled);
    assert_eq!(Dialogue::new().answer(Some("R\r\n")), DialogueStep::AskFeedback);
    // The Kelvin sign is a K in lower case, but no choice has one.
    assert_eq!(Dialogue::new().answer(Some("\u{212a}")), DialogueStep::ExplainChoices);
}

#[test]
fn the_end_of_the_input_cancels() {
    let mut dialogue = Dialogue::new();
    assert_eq!(dialogue.answer(None), DialogueStep::Cancelled);
    assert_eq!(dialogue.answer(Some("r")), DialogueStep::AskFeedback);
    assert_eq!(dialogue.answer(None), DialogueStep::Cancelled);
}

#[test]
fn feedback_adds_up() {
    let mut dialogue = Dialogue::new();
    assert_eq!(dialogue.answer(Some("maybe")), DialogueStep::ExplainChoices);
    assert_eq!(dialogue.answer(Some("refine")), DialogueStep::AskFeedback);
    assert_eq!(dialogue.answer(Some(" a shorter one\n")), DialogueStep::Propose);
    assert_eq!(dialogue.answer(Some("r")), DialogueStep::AskFeedback);
    assert_eq!(dialogue.answer(Some(" \n")), DialogueStep::RejectEmptyFeedback);
    assert_eq!(dialogue.answer(Some("r")), DialogueStep::AskFeedback);
    assert_eq!(dialogue.answer(Some("accept")), DialogueStep::Propose);
    assert_eq!(dialogue.feedback(), ["a shorter one", "accept"]);
    assert_eq!(dialogue.answer(Some("a")), DialogueStep::Accepted);
}

#[test]
fn the_parts_of_a_dialogue() {
    let mut dialogue = Dialogue::new();
    assert_eq!(dialogue.choose_by("r"), DialogueStep::AskFeedback);
    assert_eq!(dialogue.refine_by("  more "), DialogueStep::Propose);
    assert_eq!(dialogue.feedback(), ["more"]);
    assert_eq!(dialogue.choose_by("c"), DialogueStep::Cancelled);
    assert_eq!(
        DialogueStep::RejectEmptyFeedback.notice(),
        "Refinement feedback cannot be empty."
    );
    assert_eq!(DialogueStep::ExplainChoices.notice(), "Enter a, r, or c.");
    assert_eq!(DialogueStep::Propose.notice(), "");
    assert_eq!(
        CHOICE_PROMPT,
        "Accept this plan? [a]ccept / [r]efine / [c]ancel: "
    );
    assert_eq!(FEEDBACK_PROMPT, "What should change? ");
}
