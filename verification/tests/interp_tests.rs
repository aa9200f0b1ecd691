use ask_user::interp::{ease_out_cubic, FadeTransition, HoverState, UNIT};
use ask_user::question::{Question, QuestionOption};
use ask_user::wizard::WizardController;

#[test]
fn ease_out_cubic_exact_values() {
    assert_eq!(ease_out_cubic(0), 0);
    assert_eq!(ease_out_cubic(UNIT), UNIT);
    // 1 - (1 - 0.5)^3 = 0.875
    assert_eq!(ease_out_cubic(500), 875);
    // 1 - (1 - 0.9)^3 = 0.999
    assert_eq!(ease_out_cubic(900), 999);
}

#[test]
fn ease_never_lags_linear_progress() {
    let mut t: u32 = 0;
    while t <= UNIT {
        let e = ease_out_cubic(t);
        assert!(t <= e && e <= UNIT);
        t += 37;
    }
}

#[test]
fn hover_approaches_without_overshoot() {
    let mut h = HoverState::new();
    assert_eq!(h.value(), 0);
    // 50 ms at rate 12/s covers 600 thousandths of the distance.
    h.update(true, 50);
    assert_eq!(h.value(), 600);
    h.update(true, 50);
    assert_eq!(h.value(), 840);
    // A huge frame gap saturates instead of overshooting.
    h.update(true, 1000);
    assert_eq!(h.value(), 1000);
    h.update(true, 1000);
    assert_eq!(h.value(), 1000);
}

#[test]
fn hover_falls_back_when_left() {
    let mut h = HoverState::new();
    h.update(true, 1000);
    assert_eq!(h.value(), 1000);
    h.update(false, 50);
    assert_eq!(h.value(), 400);
    h.update(false, 1000);
    assert_eq!(h.value(), 0);
}

#[test]
fn fade_grows_linearly_and_saturates() {
    let mut f = FadeTransition::new();
    assert_eq!(f.progress(), 0);
    assert_eq!(f.value(), 0);
    // 100 ms at rate 4/s adds 400 thousandths.
    f.tick(100);
    assert_eq!(f.progress(), 400);
    f.tick(100);
    assert_eq!(f.progress(), 800);
    f.tick(100);
    assert_eq!(f.progress(), 1000);
    f.tick(5000);
    assert_eq!(f.progress(), 1000);
    assert_eq!(f.value(), 1000);
    f.reset();
    assert_eq!(f.progress(), 0);
}

#[test]
fn controller_fade_resets_on_screen_change() {
    let q0 = Question {
        text: String::from("q0"),
        header: String::new(),
        options: vec![QuestionOption { label: String::from("a"), description: String::new() }],
        multi_select: false,
    };
    let q1 = Question {
        text: String::from("q1"),
        header: String::new(),
        options: vec![QuestionOption { label: String::from("b"), description: String::new() }],
        multi_select: false,
    };
    let mut w = WizardController::new(vec![q0, q1]);
    w.tick(100);
    assert_eq!(w.fade_value(), ease_out_cubic(400));
    w.toggle(0);
    w.advance();
    assert_eq!(w.fade_value(), 0);
    w.tick(50);
    assert_eq!(w.fade_value(), ease_out_cubic(200));
    w.retreat();
    assert_eq!(w.fade_value(), 0);
}

#[test]
fn controller_hover_slots_follow_the_pointer() {
    let q = Question {
        text: String::from("q"),
        header: String::new(),
        options: vec![
            QuestionOption { label: String::from("a"), description: String::new() },
            QuestionOption { label: String::from("b"), description: String::new() },
        ],
        multi_select: false,
    };
    let mut w = WizardController::new(vec![q]);
    assert_eq!(w.hover_count(), 3);
    assert_eq!(w.hover_value(0), 0);
    w.hover_update(0, true, 50);
    w.hover_update(1, false, 50);
    assert_eq!(w.hover_value(0), 600);
    assert_eq!(w.hover_value(1), 0);
}
