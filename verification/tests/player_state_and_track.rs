use my_scrobbler::track::{MAX_THRESHOLD_NANOS, MIN_DURATION_MS};
use my_scrobbler::{PlayerState, Track};

fn track(name: &str, artist: &str, album: &str, ms: u64) -> Track {
    Track::new(name.to_string(), artist.to_string(), album.to_string(), ms)
}

#[test]
fn player_state_known_names() {
    assert_eq!(PlayerState::from_str_or_default("Stopped"), PlayerState::Stopped);
    assert_eq!(PlayerState::from_str_or_default("Playing"), PlayerState::Playing);
    assert_eq!(PlayerState::from_str_or_default("Paused"), PlayerState::Paused);
}

#[test]
fn player_state_unknown_names_are_stopped() {
    assert_eq!(PlayerState::from_str_or_default(""), PlayerState::Stopped);
    assert_eq!(PlayerState::from_str_or_default("playing"), PlayerState::Stopped);
    assert_eq!(PlayerState::from_str_or_default("Playing "), PlayerState::Stopped);
    assert_eq!(PlayerState::from_str_or_default("Fast Forwarding"), PlayerState::Stopped);
}

#[test]
fn track_getters() {
    let t = track("To Tundra", "Los Campesinos!", "No Blues", 245_000);
    assert_eq!(t.name(), "To Tundra");
    assert_eq!(t.artist(), "Los Campesinos!");
    assert_eq!(t.album(), "No Blues");
    assert_eq!(t.duration_ms(), 245_000);
}

#[test]
fn track_scrobblable_only_above_thirty_seconds() {
    assert_eq!(MIN_DURATION_MS, 30_000);
    assert!(!track("a", "b", "c", 0).is_even_scrobblable());
    assert!(!track("a", "b", "c", 30_000).is_even_scrobblable());
    assert!(track("a", "b", "c", 30_001).is_even_scrobblable());
}

#[test]
fn track_threshold_is_half_length_at_most_four_minutes() {
    assert_eq!(track("a", "b", "c", 200_000).get_threshold(), 100_000_000_000);
    assert_eq!(track("a", "b", "c", 61_001).get_threshold(), 30_500_500_000);
    assert_eq!(track("a", "b", "c", 480_000).get_threshold(), MAX_THRESHOLD_NANOS);
    assert_eq!(track("a", "b", "c", 600_000).get_threshold(), 240_000_000_000);
    assert_eq!(track("a", "b", "c", u64::MAX).get_threshold(), 240_000_000_000);
}

#[test]
fn track_equality_ignores_album_and_length() {
    let a = track("Song", "Band", "First Album", 100_000);
    let b = track("Song", "Band", "Live", 120_000);
    let c = track("Song", "Other Band", "First Album", 100_000);
    let d = track("Other Song", "Band", "First Album", 100_000);
    assert!(a.is_same(&b));
    assert!(a == b);
    assert!(!a.is_same(&c));
    assert!(a != c);
    assert!(!a.is_same(&d));
    assert!(a != d);
}

#[test]
fn track_label_and_clone() {
    let a = track("Song", "Band", "Album", 100_000);
    assert_eq!(a.label(), "Band - Song");
    let b = a.clone();
    assert_eq!(b.name(), "Song");
    assert_eq!(b.artist(), "Band");
    assert_eq!(b.album(), "Album");
    assert_eq!(b.duration_ms(), 100_000);
}

#[test]
fn track_to_scrobble_carries_artist_name_album() {
    let a = track("To Tundra", "Los Campesinos!", "No Blues", 245_000);
    let s = a.to_scrobble();
    assert_eq!(s.artist(), "Los Campesinos!");
    assert_eq!(s.track(), "To Tundra");
    assert_eq!(s.album(), "No Blues");
}

#[test]
fn player_info_defaults() {
    assert_eq!(PlayerState::from_player_info(None), PlayerState::Stopped);
    assert_eq!(PlayerState::from_player_info(Some("Paused")), PlayerState::Paused);
    assert_eq!(PlayerState::from_player_info(Some("Rewinding")), PlayerState::Stopped);
    let t = Track::from_player_info(None, None, None, 0);
    assert_eq!(t.name(), "Unknown Title");
    assert_eq!(t.artist(), "Unknown Artist");
    assert_eq!(t.album(), "");
    assert_eq!(t.duration_ms(), 0);
    let t = Track::from_player_info(
        Some("Song".to_string()),
        Some("Band".to_string()),
        Some("Album".to_string()),
        1234,
    );
    assert_eq!(t.name(), "Song");
    assert_eq!(t.artist(), "Band");
    assert_eq!(t.album(), "Album");
    assert_eq!(t.duration_ms(), 1234);
}
