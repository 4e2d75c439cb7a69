use cpm::prompt::{PromptAction, PromptKey, PromptState, Rejection};

fn typed(text: &str) -> PromptState {
    let mut s = PromptState::new();
    for c in text.chars() {
        s.handle_key(PromptKey::Char(c), true);
    }
    s
}

#[test]
fn prompt_starts_empty() {
    let s = PromptState::new();
    assert_eq!(s.input, "");
    assert_eq!(s.error, None);
}

#[test]
fn prompt_takes_digits_and_point_only() {
    let s = typed("2a3.-4 ");
    assert_eq!(s.input, "23.4");
}

#[test]
fn prompt_backspace_removes_last_and_stops_at_empty() {
    let mut s = typed("12");
    assert_eq!(s.handle_key(PromptKey::Backspace, true), PromptAction::Redraw);
    assert_eq!(s.input, "1");
    s.handle_key(PromptKey::Backspace, true);
    s.handle_key(PromptKey::Backspace, true);
    assert_eq!(s.input, "");
}

#[test]
fn prompt_enter_submits_and_esc_cancels() {
    let mut s = typed("50");
    assert_eq!(s.handle_key(PromptKey::Enter, true), PromptAction::Submit);
    assert_eq!(s.handle_key(PromptKey::Esc, true), PromptAction::Cancel);
    assert_eq!(s.input, "50");
}

#[test]
fn prompt_release_does_nothing() {
    let mut s = typed("5");
    assert_eq!(s.handle_key(PromptKey::Esc, false), PromptAction::Redraw);
    assert_eq!(s.handle_key(PromptKey::Char('7'), false), PromptAction::Redraw);
    assert_eq!(s.input, "5");
}

#[test]
fn prompt_rejection_messages_and_clearing() {
    let mut s = typed("500");
    s.reject(Rejection::OutOfRange);
    assert_eq!(s.error.as_deref(), Some("Please enter a value between 0 and 100"));
    assert_eq!(s.input, "500");
    s.handle_key(PromptKey::Backspace, true);
    assert_eq!(s.error, None);
    s.reject(Rejection::NotANumber);
    assert_eq!(s.error.as_deref(), Some("Please enter a number (e.g. 23.4)"));
    s.handle_key(PromptKey::Other, true);
    assert!(s.error.is_some());
    s.handle_key(PromptKey::Char('1'), true);
    assert_eq!(s.error, None);
    assert_eq!(s.input, "501");
}
