use cosmic_ext_applet_now_playing::metadata::{
    now_playing_from_player_with_sources, now_playing_snapshot, should_publish,
    NowPlayingData, NowPlayingLabels, PlaybackCapabilities, PlayerDetails, TrackMetadata,
};
use cosmic_ext_applet_now_playing::player::{
    playback_state_from_player, select_player, LoopStatus, PlaybackStatus, PlayerInfo,
    PlayerSelection,
};
use cosmic_ext_applet_now_playing::window::PlaybackState;

fn no_download(_: String) -> Option<Vec<u8>> {
    None
}

fn no_measure(_: &Vec<u8>) -> Option<(u32, u32)> {
    None
}

fn labels() -> NowPlayingLabels {
    NowPlayingLabels {
        nothing_playing: "Nothing playing".to_string(),
        unknown_title: "Unknown title".to_string(),
        unknown_artist: "Unknown artist".to_string(),
    }
}

fn details(metadata: Option<TrackMetadata>) -> PlayerDetails {
    PlayerDetails {
        bus_name: "org.mpris.MediaPlayer2.spotify".to_string(),
        status: Some(PlaybackStatus::Paused),
        metadata,
        position_seconds: Some(42),
        can_seek: Some(true),
        can_go_previous: Some(false),
        can_go_next: None,
        can_shuffle: Some(true),
        can_loop: Some(true),
        shuffle: Some(true),
        volume_percent: Some(55),
        loop_status: Some(LoopStatus::Track),
    }
}

fn track() -> TrackMetadata {
    TrackMetadata {
        title: Some("Song".to_string()),
        artists: Some(vec!["Artist".to_string(), "Second".to_string()]),
        album: Some("Album".to_string()),
        length_seconds: Some(200),
        art_url: None,
    }
}

#[test]
fn builds_a_track_snapshot() {
    let sources = vec![("a".to_string(), "A".to_string())];
    let data = now_playing_from_player_with_sources(
        &details(Some(track())),
        sources.clone(),
        true,
        Some((b"/tmp/c.png".to_vec(), Some((2, 3)))),
        &labels(),
    );
    assert_eq!(data.text, "Song \u{2022} Artist");
    assert_eq!(data.title, "Song");
    assert_eq!(data.artist, "Artist");
    assert_eq!(data.album, "Album");
    assert_eq!(data.player_bus_name, "org.mpris.MediaPlayer2.spotify");
    assert_eq!(data.sources, sources);
    assert_eq!(data.duration_seconds, Some(200));
    assert_eq!(data.position_seconds, Some(42));
    assert_eq!(
        data.capabilities,
        PlaybackCapabilities { seek: true, previous: false, next: false, shuffle: true, loop_mode: true }
    );
    assert!(data.shuffle);
    assert_eq!(data.volume, Some(55));
    assert_eq!(data.loop_status, LoopStatus::Track);
    assert_eq!(data.state, PlaybackState::Paused);
    assert_eq!(data.album_art_path, Some(b"/tmp/c.png".to_vec()));
    assert_eq!(data.album_art_dimensions, Some((2, 3)));
    assert!(data.has_active_media);
}

#[test]
fn unknown_title_and_artist_use_labels_and_position_is_optional() {
    let meta = TrackMetadata { title: None, artists: Some(Vec::new()), album: None, length_seconds: None, art_url: None };
    let data = now_playing_from_player_with_sources(&details(Some(meta)), Vec::new(), false, None, &labels());
    assert_eq!(data.text, "Unknown title \u{2022} Unknown artist");
    assert_eq!(data.album, "");
    assert_eq!(data.position_seconds, None);
    assert_eq!(data.album_art_path, None);
}

#[test]
fn a_player_without_metadata_shows_nothing_playing() {
    let data = now_playing_from_player_with_sources(&details(None), vec![("a".to_string(), "A".to_string())], true, None, &labels());
    assert_eq!(data.text, "Nothing playing");
    assert_eq!(data.title, "Nothing playing");
    assert!(data.sources.is_empty());
    assert_eq!(data.state, PlaybackState::Paused);
    assert_eq!(data.loop_status, LoopStatus::NoLoop);
    assert!(!data.has_active_media);
    let none = now_playing_snapshot(
        None,
        &mut PlayerSelection::new(),
        false,
        &labels(),
        |_| details(Some(track())),
        no_download,
        no_measure,
    );
    assert_eq!(none.state, PlaybackState::Stopped);
    assert_eq!(none.text, "Nothing playing");
}

#[test]
fn playback_states() {
    let mut d = details(None);
    assert_eq!(playback_state_from_player(&d), PlaybackState::Paused);
    d.status = Some(PlaybackStatus::Playing);
    assert_eq!(playback_state_from_player(&d), PlaybackState::Playing);
    d.status = Some(PlaybackStatus::Stopped);
    assert_eq!(playback_state_from_player(&d), PlaybackState::Stopped);
    d.status = None;
    assert_eq!(playback_state_from_player(&d), PlaybackState::Unknown);
}

#[test]
fn position_alone_does_not_matter() {
    let a: NowPlayingData = now_playing_from_player_with_sources(&details(Some(track())), Vec::new(), true, None, &labels());
    let mut b = a.clone();
    b.position_seconds = Some(1);
    assert!(a.same_except_position(&b));
    assert!(b.same_except_position(&a));
    b.volume = Some(1);
    assert!(!a.same_except_position(&b));
    let mut c = a.clone();
    c.sources.push(("x".to_string(), "y".to_string()));
    assert!(!a.same_except_position(&c));
    let mut e = a.clone();
    e.album_art_path = Some(Vec::new());
    assert!(!a.same_except_position(&e));
}

#[test]
fn snapshots_compare_whole_and_covers_by_path_components() {
    let a: NowPlayingData = now_playing_from_player_with_sources(&details(Some(track())), Vec::new(), true, None, &labels());
    assert_eq!(a, a.clone());
    let mut b = a.clone();
    b.position_seconds = Some(1);
    assert_ne!(a, b);
    let mut c = a.clone();
    c.album_art_path = Some(b"/cache//art/./c.png/".to_vec());
    let mut d = a.clone();
    d.album_art_path = Some(b"/cache/art/c.png".to_vec());
    assert!(c.same_except_position(&d));
    assert_eq!(c, d);
    d.album_art_path = Some(b"cache/art/c.png".to_vec());
    assert!(!c.same_except_position(&d));
    d.album_art_path = Some(b"/cache/art/../c.png".to_vec());
    assert!(!c.same_except_position(&d));
}

fn info(bus: &str, status: Option<PlaybackStatus>, has_track: bool) -> PlayerInfo {
    PlayerInfo {
        bus_name: bus.to_string(),
        identity: bus.to_uppercase(),
        status,
        has_track,
    }
}

#[test]
fn the_snapshot_reads_the_followed_player_and_offers_every_source() {
    let players = vec![
        info("firefox", Some(PlaybackStatus::Playing), true),
        info("vlc", Some(PlaybackStatus::Paused), true),
    ];
    let mut selection = PlayerSelection::new();
    let mut read_bus = String::new();
    let data = now_playing_snapshot(
        Some(players),
        &mut selection,
        true,
        &labels(),
        |p| {
            read_bus = p.bus_name.clone();
            let mut t = track();
            t.art_url = Some("https://example.com/c.png".to_string());
            let mut d = details(Some(t));
            d.bus_name = p.bus_name;
            d
        },
        |url: String| {
            assert_eq!(url, "https://example.com/c.png");
            Some(b"/c.png".to_vec())
        },
        |path: &Vec<u8>| {
            assert_eq!(path, &b"/c.png".to_vec());
            Some((3, 4))
        },
    );
    assert_eq!(read_bus, "vlc");
    assert_eq!(data.player_bus_name, "vlc");
    assert_eq!(data.text, "Song \u{2022} Artist");
    assert_eq!(data.position_seconds, Some(42));
    assert_eq!(
        data.sources,
        vec![
            ("firefox".to_string(), "FIREFOX".to_string()),
            ("vlc".to_string(), "VLC".to_string())
        ]
    );
    assert_eq!(data.album_art_path, Some(b"/c.png".to_vec()));
    assert_eq!(data.album_art_dimensions, Some((3, 4)));
    assert!(data.has_active_media);
}

#[test]
fn a_missing_pick_is_forgotten_and_no_player_shows_nothing_playing() {
    let mut selection = PlayerSelection::new();
    select_player(&mut selection, "gone".to_string());
    let data = now_playing_snapshot(
        Some(Vec::new()),
        &mut selection,
        false,
        &labels(),
        |_| details(Some(track())),
        no_download,
        no_measure,
    );
    assert_eq!(selection.selected, None);
    assert_eq!(data.state, PlaybackState::Stopped);
    assert_eq!(data.text, "Nothing playing");
    assert!(!data.has_active_media);
    select_player(&mut selection, "vlc".to_string());
    let players = vec![info("spotify", Some(PlaybackStatus::Playing), true), info("vlc", None, false)];
    let data = now_playing_snapshot(
        Some(players),
        &mut selection,
        false,
        &labels(),
        |p| {
            let mut t = track();
            t.art_url = Some("file:///music/c%20d.png".to_string());
            let mut d = details(Some(t));
            d.bus_name = p.bus_name;
            d
        },
        |_: String| -> Option<Vec<u8>> { panic!("a local cover is not downloaded") },
        |_: &Vec<u8>| None,
    );
    assert_eq!(selection.selected, Some("vlc".to_string()));
    assert_eq!(data.player_bus_name, "vlc");
    assert_eq!(data.position_seconds, None);
    assert_eq!(data.album_art_path, Some(b"/music/c d.png".to_vec()));
    assert_eq!(data.album_art_dimensions, None);
}

#[test]
fn the_volume_is_held_within_a_hundred_percent() {
    let mut d = details(Some(track()));
    d.volume_percent = Some(140);
    let data = now_playing_from_player_with_sources(&d, Vec::new(), false, None, &labels());
    assert_eq!(data.volume, Some(100));
    d.volume_percent = Some(100);
    let data = now_playing_from_player_with_sources(&d, Vec::new(), false, None, &labels());
    assert_eq!(data.volume, Some(100));
    d.volume_percent = Some(0);
    let data = now_playing_from_player_with_sources(&d, Vec::new(), false, None, &labels());
    assert_eq!(data.volume, Some(0));
}

#[test]
fn a_snapshot_is_sent_when_something_shown_changed() {
    let a: NowPlayingData = now_playing_from_player_with_sources(&details(Some(track())), Vec::new(), true, None, &labels());
    let mut b = a.clone();
    b.position_seconds = Some(7);
    assert!(should_publish(false, None, &a));
    assert!(!should_publish(false, Some(&a), &b));
    assert!(should_publish(true, Some(&a), &b));
    b.title = "Other".to_string();
    assert!(should_publish(false, Some(&a), &b));
}
