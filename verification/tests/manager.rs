use my_scrobbler::scrobbler::rounded_listened_secs;
use my_scrobbler::{Action, PlayerState, ScrobbleManager, Track};

const SEC: u128 = 1_000_000_000;

fn track(name: &str, artist: &str, ms: u64) -> Track {
    Track::new(name.to_string(), artist.to_string(), "Album".to_string(), ms)
}

fn is_now_playing(a: &Action, name: &str) -> bool {
    matches!(a, Action::NowPlaying(t) if t.name() == name)
}

fn is_scrobble(a: &Action, name: &str) -> bool {
    matches!(a, Action::Scrobble(t) if t.name() == name)
}

#[test]
fn new_manager_is_idle() {
    let m = ScrobbleManager::new();
    assert!(m.is_ready());
    assert!(m.current_track().is_none());
    assert!(!m.is_playing());
    assert!(!m.has_scrobbled());
    assert_eq!(m.accumulated_nanos(), 0);
}

#[test]
fn playing_a_new_track_announces_it() {
    let mut m = ScrobbleManager::new();
    let acts = m.process_track_at(track("Song", "Band", 180_000), PlayerState::Playing, 5 * SEC);
    assert_eq!(acts.len(), 1);
    assert!(is_now_playing(&acts[0], "Song"));
    assert!(m.is_playing());
    assert_eq!(m.current_track().map(|t| t.name()), Some("Song"));
}

#[test]
fn paused_new_track_is_not_announced() {
    let mut m = ScrobbleManager::new();
    let acts = m.process_track_at(track("Song", "Band", 180_000), PlayerState::Paused, 0);
    assert!(acts.is_empty());
    assert!(!m.is_playing());
    assert_eq!(m.current_track().map(|t| t.name()), Some("Song"));
}

#[test]
fn pause_and_resume_count_only_playing_time() {
    let mut m = ScrobbleManager::new();
    m.process_track_at(track("Song", "Band", 180_000), PlayerState::Playing, 0);
    let acts = m.process_track_at(track("Song", "Band", 180_000), PlayerState::Paused, 10 * SEC);
    assert_eq!(acts.len(), 1);
    assert!(matches!(acts[0], Action::Paused { accumulated_nanos } if accumulated_nanos == 10 * SEC));
    // pausing again changes nothing
    let acts = m.process_track_at(track("Song", "Band", 180_000), PlayerState::Paused, 15 * SEC);
    assert!(acts.is_empty());
    let acts = m.process_track_at(track("Song", "Band", 180_000), PlayerState::Playing, 50 * SEC);
    assert_eq!(acts.len(), 1);
    assert!(matches!(acts[0], Action::Resumed));
    // playing again changes nothing
    let acts = m.process_track_at(track("Song", "Band", 180_000), PlayerState::Playing, 55 * SEC);
    assert!(acts.is_empty());
    let acts = m.process_track_at(track("Song", "Band", 180_000), PlayerState::Paused, 70 * SEC);
    assert!(matches!(acts[0], Action::Paused { accumulated_nanos } if accumulated_nanos == 30 * SEC));
    assert_eq!(m.accumulated_nanos(), 30 * SEC);
}

#[test]
fn stopping_after_threshold_scrobbles_once() {
    let mut m = ScrobbleManager::new();
    m.process_track_at(track("Song", "Band", 60_000), PlayerState::Playing, 0);
    let acts = m.process_track_at(track("Song", "Band", 60_000), PlayerState::Stopped, 30 * SEC);
    assert_eq!(acts.len(), 1);
    assert!(is_scrobble(&acts[0], "Song"));
    assert!(!m.is_ready());
    let acts = m.scrobble_finished_at(true, 31 * SEC);
    assert!(acts.is_empty());
    assert!(m.is_ready());
    assert!(m.has_scrobbled());
    assert!(m.current_track().is_none());
    assert!(!m.is_playing());
    // a second stop asks for nothing
    let acts = m.process_track_at(track("Song", "Band", 60_000), PlayerState::Stopped, 40 * SEC);
    assert!(acts.is_empty());
}

#[test]
fn failed_scrobble_still_ends_the_play() {
    let mut m = ScrobbleManager::new();
    m.process_track_at(track("Song", "Band", 60_000), PlayerState::Playing, 0);
    let acts = m.process_track_at(track("Song", "Band", 60_000), PlayerState::Stopped, 45 * SEC);
    assert!(is_scrobble(&acts[0], "Song"));
    let acts = m.scrobble_finished_at(false, 46 * SEC);
    assert!(acts.is_empty());
    assert!(!m.has_scrobbled());
    assert!(m.current_track().is_none());
}

#[test]
fn stopping_before_threshold_skips_with_rounded_time() {
    let mut m = ScrobbleManager::new();
    m.process_track_at(track("Song", "Band", 200_000), PlayerState::Playing, 0);
    let acts = m.process_track_at(track("Song", "Band", 200_000), PlayerState::Stopped, 49 * SEC + 600_000_000);
    assert_eq!(acts.len(), 1);
    assert!(matches!(acts[0], Action::Skipped { listened_secs: 50 }));
    assert!(m.is_ready());
    assert!(m.current_track().is_none());
    assert!(!m.is_playing());
}

#[test]
fn short_tracks_are_never_scrobbled() {
    let mut m = ScrobbleManager::new();
    m.process_track_at(track("Jingle", "Band", 30_000), PlayerState::Playing, 0);
    let acts = m.process_track_at(track("Jingle", "Band", 30_000), PlayerState::Stopped, 600 * SEC);
    assert!(matches!(acts[0], Action::Skipped { listened_secs: 600 }));
}

#[test]
fn long_tracks_need_four_minutes() {
    let mut m = ScrobbleManager::new();
    m.process_track_at(track("Epic", "Band", 1_200_000), PlayerState::Playing, 0);
    let acts = m.process_track_at(track("Epic", "Band", 1_200_000), PlayerState::Stopped, 239 * SEC);
    assert!(matches!(acts[0], Action::Skipped { listened_secs: 239 }));
    m.process_track_at(track("Epic", "Band", 1_200_000), PlayerState::Playing, 300 * SEC);
    let acts = m.process_track_at(track("Epic", "Band", 1_200_000), PlayerState::Stopped, 540 * SEC);
    assert!(is_scrobble(&acts[0], "Epic"));
}

#[test]
fn next_track_waits_for_the_scrobble_outcome() {
    let mut m = ScrobbleManager::new();
    m.process_track_at(track("One", "Band", 60_000), PlayerState::Playing, 0);
    let acts = m.process_track_at(track("Two", "Band", 90_000), PlayerState::Playing, 40 * SEC);
    assert_eq!(acts.len(), 1);
    assert!(is_scrobble(&acts[0], "One"));
    assert!(!m.is_ready());
    let acts = m.scrobble_finished_at(true, 41 * SEC);
    assert_eq!(acts.len(), 1);
    assert!(is_now_playing(&acts[0], "Two"));
    assert!(m.is_playing());
    assert!(!m.has_scrobbled());
    assert_eq!(m.accumulated_nanos(), 0);
    assert_eq!(m.current_track().map(|t| t.name()), Some("Two"));
}

#[test]
fn next_track_after_skip_starts_at_once() {
    let mut m = ScrobbleManager::new();
    m.process_track_at(track("One", "Band", 200_000), PlayerState::Playing, 0);
    let acts = m.process_track_at(track("Two", "Band", 90_000), PlayerState::Playing, 10 * SEC);
    assert_eq!(acts.len(), 2);
    assert!(matches!(acts[0], Action::Skipped { listened_secs: 10 }));
    assert!(is_now_playing(&acts[1], "Two"));
    assert!(m.is_ready());
}

#[test]
fn same_name_other_album_is_the_same_track() {
    let mut m = ScrobbleManager::new();
    m.process_track_at(track("Song", "Band", 200_000), PlayerState::Playing, 0);
    let other_album = Track::new("Song".to_string(), "Band".to_string(), "Live".to_string(), 1);
    let acts = m.process_track_at(other_album, PlayerState::Paused, 5 * SEC);
    assert!(matches!(acts[0], Action::Paused { .. }));
    assert_eq!(m.current_track().map(|t| t.album()), Some("Album"));
}

#[test]
fn stop_without_track_does_nothing() {
    let mut m = ScrobbleManager::new();
    let acts = m.process_track_at(track("Song", "Band", 200_000), PlayerState::Stopped, 5 * SEC);
    assert!(acts.is_empty());
    assert!(m.current_track().is_none());
}

#[test]
fn clock_driven_process_track() {
    let mut m = ScrobbleManager::new();
    let acts = m.process_track(track("Song", "Band", 200_000), PlayerState::Playing);
    assert!(is_now_playing(&acts[0], "Song"));
    let acts = m.process_track(track("Song", "Band", 200_000), PlayerState::Stopped);
    assert!(matches!(acts[0], Action::Skipped { listened_secs: 0 }));
}

#[test]
fn clock_driven_scrobble_finished() {
    let mut m = ScrobbleManager::new();
    m.process_track_at(track("One", "Band", 60_000), PlayerState::Playing, 0);
    m.process_track_at(track("Two", "Band", 60_000), PlayerState::Paused, 40 * SEC);
    let acts = m.scrobble_finished(true);
    assert!(acts.is_empty());
    assert_eq!(m.current_track().map(|t| t.name()), Some("Two"));
    assert!(!m.is_playing());
}

#[test]
fn listened_time_rounds_to_nearest_second() {
    assert_eq!(rounded_listened_secs(0), 0);
    assert_eq!(rounded_listened_secs(499_999_999), 0);
    assert_eq!(rounded_listened_secs(500_000_000), 1);
    assert_eq!(rounded_listened_secs(1_499_999_999), 1);
    assert_eq!(rounded_listened_secs(1_500_000_000), 2);
    assert_eq!(rounded_listened_secs(u128::MAX), u64::MAX);
}

#[test]
fn listening_time_counts_only_playing_stretches() {
    let mut m = ScrobbleManager::new();
    let t = || track("Song", "Band", 600_000);
    m.process_track_at(t(), PlayerState::Paused, 0);
    m.process_track_at(t(), PlayerState::Playing, 5 * SEC);
    m.process_track_at(t(), PlayerState::Playing, 8 * SEC);
    m.process_track_at(t(), PlayerState::Paused, 12 * SEC);
    m.process_track_at(t(), PlayerState::Paused, 20 * SEC);
    m.process_track_at(t(), PlayerState::Playing, 30 * SEC);
    m.process_track_at(t(), PlayerState::Paused, 33 * SEC);
    assert_eq!(m.accumulated_nanos(), 10 * SEC);
}

#[test]
fn each_play_is_scrobbled_at_most_once() {
    let mut m = ScrobbleManager::new();
    let mut scrobbles = 0;
    let events = [
        ("A", PlayerState::Playing, 0),
        ("A", PlayerState::Paused, 100),
        ("A", PlayerState::Playing, 110),
        ("B", PlayerState::Playing, 200),
        ("B", PlayerState::Stopped, 300),
        ("B", PlayerState::Stopped, 310),
        ("A", PlayerState::Playing, 400),
        ("A", PlayerState::Stopped, 405),
    ];
    for (name, ps, secs) in events {
        let mut acts = m.process_track_at(track(name, "Band", 120_000), ps, secs * SEC);
        while acts.iter().any(|a| matches!(a, Action::Scrobble(_))) {
            scrobbles += 1;
            acts = m.scrobble_finished_at(true, secs * SEC);
        }
    }
    // A (first play) and B are scrobbled; A's second play is too short
    assert_eq!(scrobbles, 2);
}

#[test]
fn album_and_length_do_not_decide_sameness() {
    let run = |album: &str, ms: u64| {
        let mut m = ScrobbleManager::new();
        m.process_track_at(track("Song", "Band", 200_000), PlayerState::Playing, 0);
        let other = Track::new("Song".to_string(), "Band".to_string(), album.to_string(), ms);
        let acts = m.process_track_at(other, PlayerState::Paused, 7 * SEC);
        (acts.len(), m.accumulated_nanos(), m.is_playing())
    };
    assert_eq!(run("Live", 1), run("Studio", 999_999));
    assert_eq!(run("Live", 1), (1, 7 * SEC, false));
}
