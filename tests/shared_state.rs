use bmos_server::{text_eq, State};

#[test]
fn new_state_is_idle_default() {
    let s = State::new();
    assert_eq!(s.current_intent, "default");
    assert!(!s.new_intent);
    assert!(!s.audio_finished);
}

#[test]
fn set_then_take_hands_the_intent_out_once() {
    let mut s = State::new();
    s.set_intent("hello".to_string());
    assert!(s.new_intent);
    assert_eq!(s.take_intent(), Some("hello".to_string()));
    assert_eq!(s.take_intent(), None);
    assert_eq!(s.current_intent, "hello");
}

#[test]
fn a_later_line_replaces_a_pending_one() {
    let mut s = State::new();
    s.set_intent("a".to_string());
    s.set_intent("b".to_string());
    assert_eq!(s.take_intent(), Some("b".to_string()));
}

#[test]
fn audio_completion_is_recorded() {
    let mut s = State::new();
    s.mark_audio_finished();
    assert!(s.audio_finished);
    assert!(!s.new_intent);
}

#[test]
fn texts_compare_by_characters() {
    assert!(text_eq("done", "done"));
    assert!(!text_eq("done", "don"));
    assert!(!text_eq("5more", "5less"));
    assert!(text_eq("", ""));
}
