use ask_user::channel::{Outcome, ResultChannel};
use ask_user::question::{Question, QuestionOption};
use ask_user::wizard::{Screen, WizardController};

fn option(label: &str) -> QuestionOption {
    QuestionOption { label: String::from(label), description: String::new() }
}

fn question(text: &str, labels: &[&str], multi: bool) -> Question {
    Question {
        text: String::from(text),
        header: String::new(),
        options: labels.iter().map(|l| option(l)).collect(),
        multi_select: multi,
    }
}

fn three_questions() -> Vec<Question> {
    vec![
        question("first", &["a0", "a1"], false),
        question("second", &["b0", "b1", "b2"], true),
        question("third", &["c0"], false),
    ]
}

#[test]
fn n_advances_reach_review_with_n_answers() {
    let n = 3;
    let mut w = WizardController::new(three_questions());
    assert_eq!(w.screen(), Screen::Question(0));
    for k in 0..n {
        assert_eq!(w.screen(), Screen::Question(k));
        assert_eq!(w.answers().len(), k);
        w.toggle(0);
        w.advance();
    }
    assert_eq!(w.screen(), Screen::Review);
    assert!(w.is_review());
    assert_eq!(w.answers().len(), n);
}

#[test]
fn single_question_goes_straight_to_review() {
    let mut w = WizardController::new(vec![question("only", &["x"], false)]);
    w.toggle(0);
    w.advance();
    assert_eq!(w.screen(), Screen::Review);
    assert_eq!(w.answers().len(), 1);
}

#[test]
fn advance_without_selection_is_a_no_op() {
    let mut w = WizardController::new(three_questions());
    w.advance();
    assert_eq!(w.screen(), Screen::Question(0));
    assert_eq!(w.answers().len(), 0);
    assert!(!w.is_terminal());
}

#[test]
fn retreat_after_advance_restores_screen_and_count() {
    let mut w = WizardController::new(three_questions());
    w.toggle(1);
    w.advance();
    assert_eq!(w.screen(), Screen::Question(1));
    assert_eq!(w.answers().len(), 1);
    w.retreat();
    assert_eq!(w.screen(), Screen::Question(0));
    assert_eq!(w.answers().len(), 0);
}

#[test]
fn retreat_discards_the_previous_choice() {
    let mut w = WizardController::new(three_questions());
    w.toggle(1);
    w.advance();
    w.retreat();
    // The discarded answer is not restored into the selection.
    assert!(!w.has_selection());
    assert_eq!(w.custom_text(), "");
}

#[test]
fn retreat_from_review_returns_to_last_question() {
    let mut w = WizardController::new(three_questions());
    for _ in 0..3 {
        w.toggle(0);
        w.advance();
    }
    assert_eq!(w.screen(), Screen::Review);
    w.retreat();
    assert_eq!(w.screen(), Screen::Question(2));
    assert_eq!(w.answers().len(), 2);
    assert!(!w.has_selection());
}

#[test]
fn cancel_from_first_question_reports_no_answers() {
    let mut w = WizardController::new(three_questions());
    // An uncommitted in-progress selection must not leak into the outcome.
    w.toggle(0);
    w.set_custom_text(String::from("half-typed"));
    w.cancel();
    assert!(w.is_terminal());
    let outcome = w.receive_outcome();
    assert_eq!(outcome.status(), "cancelled");
    assert_eq!(outcome.into_answers().len(), 0);
}

#[test]
fn retreat_on_first_question_cancels() {
    let mut w = WizardController::new(three_questions());
    w.retreat();
    assert!(w.is_terminal());
    let outcome = w.receive_outcome();
    assert_eq!(outcome.status(), "cancelled");
}

#[test]
fn submit_reports_answers_in_question_order() {
    let mut w = WizardController::new(three_questions());
    for _ in 0..3 {
        w.toggle(0);
        w.advance();
    }
    w.submit();
    assert!(w.is_terminal());
    let outcome = w.receive_outcome();
    assert_eq!(outcome.status(), "selected");
    let answers = outcome.into_answers();
    assert_eq!(answers.len(), 3);
    assert_eq!(answers[0].question, "first");
    assert_eq!(answers[1].question, "second");
    assert_eq!(answers[2].question, "third");
}

#[test]
fn submit_is_only_valid_from_review() {
    let mut w = WizardController::new(three_questions());
    w.toggle(0);
    w.submit();
    assert!(!w.is_terminal());
    assert_eq!(w.screen(), Screen::Question(0));
}

#[test]
fn terminal_controller_ignores_every_operation() {
    let mut w = WizardController::new(three_questions());
    w.cancel();
    assert!(w.is_terminal());
    w.toggle(0);
    w.advance();
    w.retreat();
    w.submit();
    assert_eq!(w.screen(), Screen::Question(0));
    assert_eq!(w.answers().len(), 0);
    let outcome = w.receive_outcome();
    assert_eq!(outcome.status(), "cancelled");
}

#[test]
fn confirm_key_advances_then_submits() {
    let mut w = WizardController::new(three_questions());
    w.key_confirm();
    // No selection yet: the confirm key is ignored.
    assert_eq!(w.screen(), Screen::Question(0));
    for _ in 0..3 {
        w.toggle(0);
        w.key_confirm();
    }
    assert_eq!(w.screen(), Screen::Review);
    w.key_confirm();
    assert!(w.is_terminal());
    let outcome = w.receive_outcome();
    assert_eq!(outcome.status(), "selected");
    assert_eq!(outcome.into_answers().len(), 3);
}

#[test]
fn selection_is_rebuilt_for_each_question() {
    let mut w = WizardController::new(three_questions());
    assert_eq!(w.hover_count(), 3);  // two options plus the custom slot
    w.toggle(0);
    w.advance();
    assert!(!w.has_selection());
    assert_eq!(w.hover_count(), 4);  // three options plus the custom slot
}

#[test]
fn committed_answers_carry_the_selection() {
    let mut w = WizardController::new(three_questions());
    w.toggle(1);
    w.advance();
    let answers = w.answers();
    assert_eq!(answers.len(), 1);
    assert_eq!(answers[0].selected_labels, vec!["a1"]);
    assert_eq!(answers[0].selected_indices, vec![1]);
}

#[test]
fn current_index_counts_review_as_past_the_end() {
    let mut w = WizardController::new(three_questions());
    assert_eq!(w.current_index(), 0);
    assert_eq!(w.question_count(), 3);
    for _ in 0..3 {
        w.toggle(0);
        w.advance();
    }
    assert_eq!(w.current_index(), 3);
}

#[test]
fn current_question_follows_the_screen() {
    let mut w = WizardController::new(three_questions());
    assert_eq!(w.current_question().text, "first");
    w.toggle(0);
    w.advance();
    assert_eq!(w.current_question().text, "second");
}

#[test]
fn result_channel_round_trip() {
    let mut c = ResultChannel::new();
    assert!(c.is_idle());
    c.send(Outcome::Cancelled);
    assert!(!c.is_idle());
    let got = c.recv();
    assert_eq!(got.status(), "cancelled");
    assert!(!c.is_idle());
}
