use ask_user::answer::{finalize, freeze, AnswerValue};
use ask_user::question::{Question, QuestionOption};
use ask_user::selection::SelectionState;
use ask_user::text::{trimmed, trimmed_is_empty};

fn option(label: &str) -> QuestionOption {
    QuestionOption { label: String::from(label), description: String::new() }
}

fn question(text: &str, labels: &[&str], multi: bool) -> Question {
    Question {
        text: String::from(text),
        header: String::new(),
        options: labels.iter().map(|l| option(l)).collect(),
        multi_select: multi,
    }
}

#[test]
fn trimmed_removes_both_ends() {
    assert_eq!(trimmed("  X  "), "X");
    assert_eq!(trimmed("\t a b \n"), "a b");
    assert_eq!(trimmed("plain"), "plain");
    assert_eq!(trimmed("   "), "");
    assert_eq!(trimmed(""), "");
}

#[test]
fn trimmed_is_empty_sees_only_whitespace() {
    assert!(trimmed_is_empty(""));
    assert!(trimmed_is_empty(" \t\n"));
    assert!(!trimmed_is_empty(" x "));
}

#[test]
fn freeze_orders_toggles_then_custom() {
    let q = question("pick", &["opt0", "opt1", "opt2"], true);
    let mut s = SelectionState::new(3, true);
    s.toggle(2);
    s.toggle(0);
    s.set_custom_text(String::from("Other"));
    let a = freeze(&q, &s);
    assert_eq!(a.selected_labels, vec!["opt0", "opt2", "Other"]);
    assert_eq!(a.selected_indices, vec![0, 2, -1]);
    assert_eq!(a.question, "pick");
    assert!(a.multi_select);
}

#[test]
fn freeze_trims_the_custom_label() {
    let q = question("pick", &["a"], true);
    let mut s = SelectionState::new(1, true);
    s.set_custom_text(String::from("  Other  "));
    let a = freeze(&q, &s);
    assert_eq!(a.selected_labels, vec!["Other"]);
    assert_eq!(a.selected_indices, vec![-1]);
}

#[test]
fn freeze_without_custom_text_has_no_sentinel() {
    let q = question("pick", &["opt0", "opt1", "opt2"], true);
    let mut s = SelectionState::new(3, true);
    s.toggle(1);
    s.toggle(2);
    let a = freeze(&q, &s);
    assert_eq!(a.selected_labels, vec!["opt1", "opt2"]);
    assert_eq!(a.selected_indices, vec![1, 2]);
}

#[test]
fn multi_select_finalize_keeps_full_lists() {
    let q = question("pick", &["opt0", "opt1", "opt2"], true);
    let mut s = SelectionState::new(3, true);
    s.toggle(0);
    s.toggle(2);
    s.set_custom_text(String::from("Other"));
    let entry = finalize(&freeze(&q, &s));
    match entry.value {
        AnswerValue::Multi { labels, indices } => {
            assert_eq!(labels, vec!["opt0", "opt2", "Other"]);
            assert_eq!(indices, vec![0, 2, -1]);
        }
        AnswerValue::Single { .. } => panic!("multi-select answer collapsed to a scalar"),
    }
}

#[test]
fn single_select_finalize_collapses_to_scalar() {
    let q = question("pick", &["opt0", "opt1"], false);
    let mut s = SelectionState::new(2, false);
    s.set_custom_text(String::from("X"));
    let entry = finalize(&freeze(&q, &s));
    match entry.value {
        AnswerValue::Single { label, index } => {
            assert_eq!(label, "X");
            assert_eq!(index, -1);
        }
        AnswerValue::Multi { .. } => panic!("single-select answer kept a list"),
    }
}

#[test]
fn single_select_finalize_of_predefined_option() {
    let q = question("pick", &["opt0", "opt1"], false);
    let mut s = SelectionState::new(2, false);
    s.toggle(1);
    let entry = finalize(&freeze(&q, &s));
    match entry.value {
        AnswerValue::Single { label, index } => {
            assert_eq!(label, "opt1");
            assert_eq!(index, 1);
        }
        AnswerValue::Multi { .. } => panic!("single-select answer kept a list"),
    }
}

#[test]
fn freeze_keeps_question_metadata() {
    let q = Question {
        text: String::from("what?"),
        header: String::from("HDR"),
        options: vec![option("only")],
        multi_select: false,
    };
    let mut s = SelectionState::new(1, false);
    s.toggle(0);
    let a = freeze(&q, &s);
    assert_eq!(a.question, "what?");
    assert_eq!(a.header, "HDR");
    assert!(!a.multi_select);
    let entry = finalize(&a);
    assert_eq!(entry.question, "what?");
    assert_eq!(entry.header, "HDR");
}
