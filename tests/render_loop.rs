use bmos_server::error::ConfigError;
use bmos_server::render::{select_intent, Cycle, Mode, Transition};
use bmos_server::{AssetTable, IntentTable, State, TimingTable};

fn list(items: &[&str]) -> Vec<String> {
    items.iter().map(|s| s.to_string()).collect()
}

fn tables() -> (AssetTable, AssetTable, TimingTable) {
    let mut faces: AssetTable = IntentTable::new();
    faces.insert("default".to_string(), list(&["faces/default.png"]));
    faces.insert("hello".to_string(), list(&["faces/hello1.png", "faces/hello2.png", "faces/hello3.png"]));
    faces.insert("song".to_string(), list(&["faces/song.png"]));
    faces.insert("mute".to_string(), list(&["faces/mute.png"]));
    let mut audio: AssetTable = IntentTable::new();
    audio.insert("song".to_string(), list(&["audio/song1.wav", "audio/song2.wav"]));
    let mut timings: TimingTable = IntentTable::new();
    timings.insert("default".to_string(), 200);
    timings.insert("hello".to_string(), 300);
    (faces, audio, timings)
}

/// Starts the cycle of `name` from a fresh loop and plans its first tick.
fn enter(name: &str, faces: &AssetTable, audio: &AssetTable, timings: &TimingTable) -> (Cycle, State) {
    let mut cycle = Cycle::new();
    let mut state = State::new();
    state.set_intent(name.to_string());
    assert_eq!(cycle.update(&mut state, faces), Transition::Consume);
    assert_eq!(cycle.intent, name);
    (cycle, state)
}

#[test]
fn first_check_without_pending_intent_goes_to_default() {
    let (faces, _, _) = tables();
    let mut cycle = Cycle::new();
    let mut state = State::new();
    assert_eq!(cycle.update(&mut state, &faces), Transition::Expire);
    assert_eq!(cycle.intent, "default");
    assert_eq!(cycle.time_slept, 0);
}

#[test]
fn timed_intent_is_held_for_its_limit() {
    let (faces, audio, timings) = tables();
    let (mut cycle, mut state) = enter("hello", &faces, &audio, &timings);
    let frame = cycle.plan_tick(&faces, &audio, &timings).unwrap();
    assert!(frame.audio.is_none());
    assert_eq!(cycle.time_limit, 300);
    let mut held = 0;
    loop {
        cycle.advance();
        if cycle.update(&mut state, &faces) != Transition::Hold {
            break;
        }
        held += 1;
        cycle.plan_tick(&faces, &audio, &timings).unwrap();
    }
    // 100, 200 and 300 ms are held; the check at 400 ms switches.
    assert_eq!(held, 3);
    assert_eq!(cycle.intent, "default");
}

#[test]
fn audio_intent_waits_for_its_audio() {
    let (faces, audio, timings) = tables();
    let (mut cycle, mut state) = enter("song", &faces, &audio, &timings);
    let frame = cycle.plan_tick(&faces, &audio, &timings).unwrap();
    let clip = frame.audio.expect("the first tick starts the audio");
    assert!(clip == "audio/song1.wav" || clip == "audio/song2.wav");
    assert_eq!(frame.face, "faces/song.png");
    for _ in 0..10_000 {
        cycle.advance();
        assert_eq!(cycle.update(&mut state, &faces), Transition::Hold);
        let again = cycle.plan_tick(&faces, &audio, &timings).unwrap();
        assert!(again.audio.is_none());
    }
    state.mark_audio_finished();
    assert_eq!(cycle.update(&mut state, &faces), Transition::Expire);
    assert_eq!(cycle.intent, "default");
    assert!(!state.audio_finished);
}

#[test]
fn repeated_intent_does_not_restart_its_cycle() {
    let (faces, audio, timings) = tables();
    let (mut cycle, mut state) = enter("song", &faces, &audio, &timings);
    assert!(cycle.plan_tick(&faces, &audio, &timings).unwrap().audio.is_some());
    cycle.advance();
    cycle.advance();
    state.set_intent("song".to_string());
    state.set_intent("song".to_string());
    assert_eq!(cycle.update(&mut state, &faces), Transition::Hold);
    assert_eq!(cycle.time_slept, 200);
    assert!(cycle.played_audio);
    assert!(cycle.plan_tick(&faces, &audio, &timings).unwrap().audio.is_none());
}

#[test]
fn unknown_intent_falls_back_to_default() {
    let (faces, audio, timings) = tables();
    let mut cycle = Cycle::new();
    let mut state = State::new();
    state.set_intent("dance".to_string());
    assert_eq!(cycle.update(&mut state, &faces), Transition::Consume);
    assert_eq!(cycle.intent, "default");
    assert!(!state.new_intent);
    let frame = cycle.plan_tick(&faces, &audio, &timings).unwrap();
    assert_eq!(frame.face, "faces/default.png");
}

#[test]
fn reserved_intents_are_kept_without_faces() {
    let (faces, _, _) = tables();
    assert_eq!(select_intent("chronometer".to_string(), &faces), "chronometer");
    assert_eq!(select_intent("weather".to_string(), &faces), "weather");
    assert_eq!(select_intent("hello".to_string(), &faces), "hello");
    assert_eq!(select_intent("nothing".to_string(), &faces), "default");
}

#[test]
fn reserved_intents_hand_the_screen_over() {
    let (faces, audio, timings) = tables();
    let (mut cycle, _) = enter("chronometer", &faces, &audio, &timings);
    assert_eq!(cycle.dispatch(true), Mode::Chronometer);
    assert_eq!(cycle.intent, "default");
    assert_eq!(cycle.dispatch(true), Mode::Ordinary);
    let (mut cycle, _) = enter("weather", &faces, &audio, &timings);
    assert_eq!(cycle.dispatch(true), Mode::Weather);
    assert_eq!(cycle.intent, "default");
}

#[test]
fn weather_without_parameters_is_skipped_back_to_default() {
    let (faces, audio, timings) = tables();
    let (mut cycle, _) = enter("weather", &faces, &audio, &timings);
    assert_eq!(cycle.dispatch(false), Mode::WeatherSkipped);
    assert_eq!(cycle.intent, "default");
    let frame = cycle.plan_tick(&faces, &audio, &timings).unwrap();
    assert_eq!(frame.face, "faces/default.png");
}

#[test]
fn ordinary_intent_is_not_dispatched() {
    let (faces, audio, timings) = tables();
    let (mut cycle, _) = enter("hello", &faces, &audio, &timings);
    assert_eq!(cycle.dispatch(false), Mode::Ordinary);
    assert_eq!(cycle.intent, "hello");
}

#[test]
fn intents_are_observed_in_the_order_sent() {
    let (faces, audio, timings) = tables();
    let sent = ["hello", "song", "dance", "mute", "hello"];
    let mut cycle = Cycle::new();
    let mut state = State::new();
    let mut seen: Vec<String> = Vec::new();
    for name in sent.iter() {
        state.set_intent(name.to_string());
        // The previous intent is made to expire so the check takes the new one.
        state.mark_audio_finished();
        cycle.time_slept = u64::MAX;
        assert_eq!(cycle.update(&mut state, &faces), Transition::Consume);
        seen.push(cycle.intent.clone());
        let _ = cycle.plan_tick(&faces, &audio, &timings);
    }
    assert_eq!(seen, vec!["hello", "song", "default", "mute", "hello"]);
}

#[test]
fn faces_are_drawn_from_the_intent_list() {
    let (faces, audio, timings) = tables();
    let mut seen: Vec<String> = Vec::new();
    for _ in 0..300 {
        let (mut cycle, _) = enter("hello", &faces, &audio, &timings);
        let frame = cycle.plan_tick(&faces, &audio, &timings).unwrap();
        assert!(frame.face.starts_with("faces/hello"));
        assert_eq!(cycle.face, frame.face);
        if !seen.contains(&frame.face) {
            seen.push(frame.face);
        }
    }
    // Every alternative turns up: the draw is not stuck on one end.
    assert_eq!(seen.len(), 3);
}

#[test]
fn missing_face_is_reported() {
    let (_, audio, timings) = tables();
    let empty: AssetTable = IntentTable::new();
    let mut cycle = Cycle::new();
    let mut state = State::new();
    cycle.update(&mut state, &empty);
    match cycle.plan_tick(&empty, &audio, &timings) {
        Err(ConfigError::MissingFace(name)) => assert_eq!(name, "default"),
        other => panic!("unexpected {:?}", other.err()),
    }
}

#[test]
fn missing_timing_without_audio_is_reported() {
    let (faces, audio, timings) = tables();
    let (mut cycle, _) = enter("mute", &faces, &audio, &timings);
    match cycle.plan_tick(&faces, &audio, &timings) {
        Err(ConfigError::MissingTiming(name)) => assert_eq!(name, "mute"),
        other => panic!("unexpected {:?}", other.err()),
    }
}

#[test]
fn audio_intent_needs_no_timing() {
    let (faces, audio, timings) = tables();
    let (mut cycle, _) = enter("song", &faces, &audio, &timings);
    assert!(cycle.plan_tick(&faces, &audio, &timings).is_ok());
    assert!(cycle.audio_available);
    assert!(cycle.time_limit_loaded);
}

#[test]
fn advance_counts_milliseconds_and_saturates() {
    let mut cycle = Cycle::new();
    assert_eq!(cycle.time_slept, u64::MAX);
    cycle.advance();
    assert_eq!(cycle.time_slept, u64::MAX);
    cycle.time_slept = 0;
    cycle.advance();
    assert_eq!(cycle.time_slept, 100);
}
