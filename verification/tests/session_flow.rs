use voice_core::errors::VoiceError;
use voice_core::registry::SessionRegistry;
use voice_core::track::Track;

fn track(title: &str) -> Track {
    Track::new(String::from(title), String::from("https://tracks.example/") + title)
}

#[test]
fn ensure_session_creates_one() {
    let mut reg = SessionRegistry::new();
    assert!(!reg.has_session(1));
    assert_eq!(reg.ensure_session(1, 10, true), Ok(()));
    assert!(reg.has_session(1));
    assert_eq!(reg.session_count(), 1);
    let s = reg.get(1).expect("session should exist");
    assert_eq!(s.guild_id(), 1);
    assert_eq!(s.channel_id(), 10);
    assert_eq!(s.queue_len(), 0);
    assert!(s.current_track().is_none());
}

#[test]
fn ensure_session_twice_keeps_single_session() {
    let mut reg = SessionRegistry::new();
    assert_eq!(reg.ensure_session(1, 10, true), Ok(()));
    assert_eq!(reg.ensure_session(1, 20, true), Ok(()));
    assert_eq!(reg.session_count(), 1);
    // the existing session is kept as it is: still bound to the first channel
    assert_eq!(reg.get(1).unwrap().channel_id(), 10);
}

#[test]
fn sessions_of_different_guilds_are_independent() {
    let mut reg = SessionRegistry::new();
    assert_eq!(reg.ensure_session(1, 10, true), Ok(()));
    assert_eq!(reg.ensure_session(2, 20, true), Ok(()));
    assert_eq!(reg.session_count(), 2);
    assert_eq!(reg.enqueue(1, Some(track("a"))), Ok(1));
    assert_eq!(reg.get(2).unwrap().queue_len(), 0);
    assert!(reg.get(2).unwrap().current_track().is_none());
}

#[test]
fn ensure_session_join_failure_creates_nothing() {
    let mut reg = SessionRegistry::new();
    assert_eq!(reg.ensure_session(1, 10, false), Err(VoiceError::JoinFailed));
    assert!(!reg.has_session(1));
    assert_eq!(reg.session_count(), 0);
}

#[test]
fn enqueue_on_empty_queue_starts_playing_at_position_one() {
    let mut reg = SessionRegistry::new();
    reg.ensure_session(1, 10, true).unwrap();
    assert_eq!(reg.enqueue(1, Some(track("first"))), Ok(1));
    let s = reg.get(1).unwrap();
    assert_eq!(s.current_track().expect("should be playing").title().as_str(), "first");
    assert_eq!(s.queue_len(), 0);
}

#[test]
fn enqueue_appends_to_tail_in_order() {
    let mut reg = SessionRegistry::new();
    reg.ensure_session(1, 10, true).unwrap();
    assert_eq!(reg.enqueue(1, Some(track("first"))), Ok(1));
    assert_eq!(reg.enqueue(1, Some(track("second"))), Ok(2));
    assert_eq!(reg.enqueue(1, Some(track("third"))), Ok(3));
    let s = reg.get(1).unwrap();
    assert_eq!(s.current_track().unwrap().title().as_str(), "first");
    assert_eq!(s.queue_len(), 2);
    // FIFO: skipping surfaces the tracks in the order they were enqueued
    reg.skip(1).unwrap();
    assert_eq!(reg.get(1).unwrap().current_track().unwrap().title().as_str(), "second");
    reg.skip(1).unwrap();
    assert_eq!(reg.get(1).unwrap().current_track().unwrap().title().as_str(), "third");
}

#[test]
fn enqueue_resolution_failure_changes_nothing() {
    let mut reg = SessionRegistry::new();
    reg.ensure_session(1, 10, true).unwrap();
    reg.enqueue(1, Some(track("first"))).unwrap();
    assert_eq!(reg.enqueue(1, None), Err(VoiceError::ResolutionFailed));
    let s = reg.get(1).unwrap();
    assert_eq!(s.current_track().unwrap().title().as_str(), "first");
    assert_eq!(s.queue_len(), 0);
}

#[test]
fn enqueue_without_session_is_refused() {
    let mut reg = SessionRegistry::new();
    assert_eq!(reg.enqueue(1, Some(track("a"))), Err(VoiceError::NoActiveSession));
}

#[test]
fn skip_with_single_track_empties_session() {
    let mut reg = SessionRegistry::new();
    reg.ensure_session(1, 10, true).unwrap();
    reg.enqueue(1, Some(track("only"))).unwrap();
    assert_eq!(reg.skip(1), Ok(()));
    let s = reg.get(1).unwrap();
    assert!(s.current_track().is_none());
    assert_eq!(s.queue_len(), 0);
}

#[test]
fn skip_without_session_reports_no_active_session() {
    let mut reg = SessionRegistry::new();
    assert_eq!(reg.skip(1), Err(VoiceError::NoActiveSession));
}

#[test]
fn leave_removes_the_session() {
    let mut reg = SessionRegistry::new();
    reg.ensure_session(1, 10, true).unwrap();
    reg.enqueue(1, Some(track("a"))).unwrap();
    assert_eq!(reg.leave(1), Ok(()));
    assert!(!reg.has_session(1));
    assert_eq!(reg.session_count(), 0);
}

#[test]
fn leave_without_session_is_an_error() {
    let mut reg = SessionRegistry::new();
    assert_eq!(reg.leave(1), Err(VoiceError::NotInVoiceChannel));
}

#[test]
fn remove_is_idempotent() {
    let mut reg = SessionRegistry::new();
    reg.ensure_session(1, 10, true).unwrap();
    assert!(reg.remove(1));
    assert!(!reg.remove(1));
    assert!(!reg.has_session(1));
}
