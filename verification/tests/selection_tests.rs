use ask_user::selection::SelectionState;

#[test]
fn fresh_selection_has_nothing_selected() {
    let s = SelectionState::new(3, false);
    assert!(!s.has_selection());
    assert_eq!(s.option_count(), 3);
    assert!(!s.is_toggled(0));
    assert!(!s.is_toggled(1));
    assert!(!s.is_toggled(2));
    assert_eq!(s.custom_text(), "");
}

#[test]
fn toggle_makes_selection() {
    let mut s = SelectionState::new(3, false);
    s.toggle(1);
    assert!(s.has_selection());

    let mut m = SelectionState::new(3, true);
    m.toggle(2);
    assert!(m.has_selection());
}

#[test]
fn custom_text_makes_selection() {
    let mut s = SelectionState::new(2, false);
    s.set_custom_text(String::from("something else"));
    assert!(s.has_selection());
}

#[test]
fn whitespace_only_custom_text_is_no_selection() {
    let mut s = SelectionState::new(2, false);
    s.set_custom_text(String::from("   \t  "));
    assert!(!s.has_selection());
}

#[test]
fn single_select_toggle_is_exclusive() {
    let mut s = SelectionState::new(3, false);
    s.toggle(0);
    s.toggle(2);
    assert!(!s.is_toggled(0));
    assert!(!s.is_toggled(1));
    assert!(s.is_toggled(2));
}

#[test]
fn single_select_toggle_clears_custom_text() {
    let mut s = SelectionState::new(3, false);
    s.set_custom_text(String::from("mine"));
    s.toggle(1);
    assert_eq!(s.custom_text(), "");
    assert!(s.is_toggled(1));
}

#[test]
fn single_select_custom_text_clears_toggles() {
    let mut s = SelectionState::new(3, false);
    s.toggle(1);
    s.set_custom_text(String::from("mine"));
    assert!(!s.is_toggled(0));
    assert!(!s.is_toggled(1));
    assert!(!s.is_toggled(2));
    assert_eq!(s.custom_text(), "mine");
}

#[test]
fn single_select_empty_custom_text_keeps_toggle() {
    let mut s = SelectionState::new(3, false);
    s.toggle(1);
    s.set_custom_text(String::new());
    assert!(s.is_toggled(1));
}

#[test]
fn multi_select_toggles_are_independent() {
    let mut s = SelectionState::new(3, true);
    s.toggle(0);
    s.toggle(2);
    assert!(s.is_toggled(0));
    assert!(!s.is_toggled(1));
    assert!(s.is_toggled(2));
    s.toggle(0);
    assert!(!s.is_toggled(0));
    assert!(s.is_toggled(2));
}

#[test]
fn multi_select_custom_text_coexists_with_toggles() {
    let mut s = SelectionState::new(2, true);
    s.toggle(0);
    s.set_custom_text(String::from("extra"));
    assert!(s.is_toggled(0));
    assert_eq!(s.custom_text(), "extra");
    assert!(s.has_selection());
}
