//! The playback engine's state and the event loop.
use halkara::audius::track::{Track, User};
use halkara::audius::{OrderedTrack, TrackGroup};
use halkara::player::{check_stream, Player, PlaybackError, GAIN_UNITY_PPM};
use halkara::session::{Action, LoopState, Session};
use halkara::ui::Event;

#[test]
fn gain_from_decibels() {
    // 0 dB leaves the gain at the default, unity.
    assert_eq!(Player::gain_ppm_from_db(0), 1_000_000);
    // -10 dB is a tenth.
    assert_eq!(Player::gain_ppm_from_db(-10), 100_000);
    assert_eq!(Player::gain_ppm_from_db(-20), 10_000);
    assert_eq!(Player::gain_ppm_from_db(10), 10_000_000);
}

#[test]
fn volume_up_never_passes_unity() {
    let mut p = Player::new(Player::gain_ppm_from_db(-10));
    for _ in 0..100 {
        p.volume_up();
        assert!(p.gain_ppm <= GAIN_UNITY_PPM);
    }
    // From unity, a step up does not apply at all.
    let mut q = Player::new(GAIN_UNITY_PPM);
    q.volume_up();
    assert_eq!(q.gain_ppm, GAIN_UNITY_PPM);
}

#[test]
fn volume_steps_are_the_fixed_ratio() {
    let mut p = Player::new(1_000_000);
    p.volume_down();
    assert_eq!(p.gain_ppm, 690_000);
    p.volume_down();
    assert_eq!(p.gain_ppm, 476_100);
    p.volume_up();
    assert_eq!(p.gain_ppm, 690_000);
    // No lower clamp: enough steps down reach silence.
    let mut q = Player::new(10);
    for _ in 0..10 {
        q.volume_down();
    }
    assert_eq!(q.gain_ppm, 0);
}

#[test]
fn pause_toggles() {
    let mut p = Player::new(1_000_000);
    assert!(!p.paused);
    p.pause();
    assert!(p.paused);
    p.pause();
    assert!(!p.paused);
    assert_eq!(p.gain_ppm, 1_000_000);
}

#[test]
fn short_streams_are_diagnostic_payloads() {
    let text = b"upstream said no".to_vec();
    match check_stream(&text) {
        Err(PlaybackError::Decode(m)) => assert_eq!(m, "upstream said no"),
        _ => panic!("expected the text payload"),
    }
    let binary = vec![0xFFu8, 0xFE, 0x00];
    match check_stream(&binary) {
        Err(PlaybackError::Decode(m)) => assert_eq!(m, "Error: invalid stream format"),
        _ => panic!("expected the fixed message"),
    }
    let audio = vec![0u8; 16384];
    assert!(check_stream(&audio).is_ok());
    let just_short = vec![0u8; 16383];
    assert!(check_stream(&just_short).is_err());
}

fn track(id: &str, duration: u32) -> Track {
    Track {
        id: id.to_string(),
        title: format!("title {id}"),
        user: User {
            name: format!("user {id}"),
        },
        duration,
    }
}

fn group(name: &str, count: usize) -> TrackGroup {
    TrackGroup {
        tracks: (0..count)
            .map(|i| OrderedTrack {
                track: track(&format!("{name}{i}"), 100),
                index: i + 1,
            })
            .collect(),
        name: name.to_string(),
    }
}

#[test]
fn pause_toggles_without_spurious_track_end() {
    let mut s = Session::new(vec![group("a", 2)]);
    assert_eq!(s.start(), Action::Start(0, 0));
    assert_eq!(s.state, LoopState::Playing);

    // Pause toggles off, then on, staying on the same track.
    assert_eq!(s.handle_event(Event::Pause), Action::TogglePause);
    assert_eq!(s.state, LoopState::Paused);
    assert_eq!((s.group_index, s.track_index), (0, 0));
    assert_eq!(s.handle_event(Event::Pause), Action::TogglePause);
    assert_eq!(s.state, LoopState::Playing);
    assert_eq!((s.group_index, s.track_index), (0, 0));
}

#[test]
fn quit_while_paused_starts_nothing() {
    let mut s = Session::new(vec![group("a", 2)]);
    s.start();
    s.handle_event(Event::Pause);
    assert_eq!(s.state, LoopState::Paused);
    assert_eq!(s.handle_event(Event::Quit), Action::Stop);
    assert_eq!(s.state, LoopState::Ended);
    // Nothing more happens after the end.
    assert_eq!(s.handle_event(Event::TrackEnd), Action::Wait);
    assert_eq!(s.state, LoopState::Ended);
}

#[test]
fn track_end_advances_through_groups() {
    let mut s = Session::new(vec![group("a", 2), group("empty", 0), group("b", 1)]);
    assert_eq!(s.start(), Action::Start(0, 0));
    assert_eq!(s.handle_event(Event::TrackEnd), Action::Start(0, 1));
    // The empty group is skipped.
    assert_eq!(s.handle_event(Event::TrackEnd), Action::Start(2, 0));
    assert_eq!(s.handle_event(Event::TrackEnd), Action::Stop);
    assert_eq!(s.state, LoopState::Ended);
}

#[test]
fn empty_queue_ends_immediately() {
    let mut s = Session::new(vec![]);
    assert_eq!(s.start(), Action::Stop);
    assert_eq!(s.state, LoopState::Ended);
    let mut t = Session::new(vec![group("empty", 0)]);
    assert_eq!(t.start(), Action::Stop);
}

#[test]
fn volume_events_keep_the_state() {
    let mut s = Session::new(vec![group("a", 1)]);
    s.start();
    assert_eq!(s.handle_event(Event::VolumeUp), Action::VolumeUp);
    assert_eq!(s.handle_event(Event::VolumeDown), Action::VolumeDown);
    assert_eq!(s.state, LoopState::Playing);
    assert_eq!((s.group_index, s.track_index), (0, 0));
}
