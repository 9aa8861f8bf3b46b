use voice_core::errors::VoiceError;
use voice_core::registry::SessionRegistry;
use voice_core::session::TrackEndOutcome;
use voice_core::track::Track;

fn track(title: &str) -> Track {
    Track::new(String::from(title), String::from("https://tracks.example/") + title)
}

fn playing_session(reg: &mut SessionRegistry, guild: u64, titles: &[&str]) {
    reg.ensure_session(guild, 10, true).unwrap();
    for t in titles {
        reg.enqueue(guild, Some(track(t))).unwrap();
    }
}

#[test]
fn toggle_restart_round_trip() {
    let mut reg = SessionRegistry::new();
    playing_session(&mut reg, 1, &["a"]);
    assert!(!reg.get(1).unwrap().restart_enabled());
    assert_eq!(reg.toggle_restart(1), Ok(true));
    assert!(reg.get(1).unwrap().restart_enabled());
    assert_eq!(reg.toggle_restart(1), Ok(false));
    assert!(!reg.get(1).unwrap().restart_enabled());
}

#[test]
fn toggle_restart_without_session() {
    let mut reg = SessionRegistry::new();
    assert_eq!(reg.toggle_restart(1), Err(VoiceError::NoActiveSession));
}

#[test]
fn repeat_sets_loop_on_current_track() {
    let mut reg = SessionRegistry::new();
    playing_session(&mut reg, 1, &["a", "b"]);
    assert!(!reg.get(1).unwrap().loop_enabled());
    assert_eq!(reg.repeat(1), Ok(true));
    assert!(reg.get(1).unwrap().loop_enabled());
    // only the track current at call time: the queued one is untouched
    assert_eq!(reg.get(1).unwrap().current_track().unwrap().title().as_str(), "a");
}

#[test]
fn skip_clears_loop_for_the_next_track() {
    let mut reg = SessionRegistry::new();
    playing_session(&mut reg, 1, &["a", "b"]);
    assert_eq!(reg.repeat(1), Ok(true));
    reg.skip(1).unwrap();
    let s = reg.get(1).unwrap();
    assert_eq!(s.current_track().unwrap().title().as_str(), "b");
    assert!(!s.loop_enabled());
}

#[test]
fn repeat_with_nothing_playing_is_a_no_op() {
    let mut reg = SessionRegistry::new();
    reg.ensure_session(1, 10, true).unwrap();
    assert_eq!(reg.repeat(1), Ok(false));
    assert!(!reg.get(1).unwrap().loop_enabled());
}

#[test]
fn repeat_without_session() {
    let mut reg = SessionRegistry::new();
    assert_eq!(reg.repeat(1), Err(VoiceError::NoActiveSession));
}

#[test]
fn track_end_advances_to_next_track() {
    let mut reg = SessionRegistry::new();
    playing_session(&mut reg, 1, &["a", "b"]);
    assert_eq!(reg.handle_track_end(1), TrackEndOutcome::LoopDisabled);
    let s = reg.get(1).unwrap();
    assert_eq!(s.current_track().unwrap().title().as_str(), "b");
    assert_eq!(s.queue_len(), 0);
}

#[test]
fn track_end_drains_the_session() {
    let mut reg = SessionRegistry::new();
    playing_session(&mut reg, 1, &["only"]);
    assert_eq!(reg.handle_track_end(1), TrackEndOutcome::Ended);
    let s = reg.get(1).unwrap();
    assert!(s.current_track().is_none());
    assert_eq!(s.queue_len(), 0);
}

#[test]
fn track_end_with_restart_mode_loops_the_next_track() {
    let mut reg = SessionRegistry::new();
    playing_session(&mut reg, 1, &["a", "b"]);
    reg.toggle_restart(1).unwrap();
    assert_eq!(reg.handle_track_end(1), TrackEndOutcome::LoopEnabled);
    let s = reg.get(1).unwrap();
    assert_eq!(s.current_track().unwrap().title().as_str(), "b");
    assert!(s.loop_enabled());
}

#[test]
fn track_end_on_looping_track_replays_it() {
    let mut reg = SessionRegistry::new();
    playing_session(&mut reg, 1, &["a", "b"]);
    reg.repeat(1).unwrap();
    // the looping track replays: the session does not advance, and with the
    // restart mode off the hook explicitly disables looping again
    assert_eq!(reg.handle_track_end(1), TrackEndOutcome::LoopDisabled);
    let s = reg.get(1).unwrap();
    assert_eq!(s.current_track().unwrap().title().as_str(), "a");
    assert_eq!(s.queue_len(), 1);
    assert!(!s.loop_enabled());
}

#[test]
fn track_end_with_restart_mode_keeps_looping_track() {
    let mut reg = SessionRegistry::new();
    playing_session(&mut reg, 1, &["a"]);
    reg.toggle_restart(1).unwrap();
    reg.repeat(1).unwrap();
    assert_eq!(reg.handle_track_end(1), TrackEndOutcome::LoopEnabled);
    let s = reg.get(1).unwrap();
    assert_eq!(s.current_track().unwrap().title().as_str(), "a");
    assert!(s.loop_enabled());
}

#[test]
fn track_end_after_teardown_is_discarded() {
    let mut reg = SessionRegistry::new();
    playing_session(&mut reg, 1, &["a"]);
    assert!(reg.remove(1));
    assert_eq!(reg.handle_track_end(1), TrackEndOutcome::Discarded);
    assert!(!reg.has_session(1));
}
