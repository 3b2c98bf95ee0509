use cosmic_ext_applet_now_playing::metadata::{
    now_playing_snapshot, NowPlayingLabels, PlayerDetails, TrackMetadata,
};
use cosmic_ext_applet_now_playing::player::{LoopStatus, PlaybackStatus, PlayerSelection};
use cosmic_ext_applet_now_playing::window::{
    format_duration, seek_offset, Effect, Message, PlaybackState, PlayerReply, PlayerRequest,
    PopupId, Window,
};

fn no_download(_: String) -> Option<Vec<u8>> {
    None
}

fn no_measure(_: &Vec<u8>) -> Option<(u32, u32)> {
    None
}

fn labels() -> NowPlayingLabels {
    NowPlayingLabels {
        nothing_playing: "Nothing".to_string(),
        unknown_title: "?".to_string(),
        unknown_artist: "?".to_string(),
    }
}

fn details(bus: &str) -> PlayerDetails {
    PlayerDetails {
        bus_name: bus.to_string(),
        status: Some(PlaybackStatus::Playing),
        metadata: Some(TrackMetadata {
            title: Some("Other song".to_string()),
            artists: None,
            album: None,
            length_seconds: Some(90),
            art_url: None,
        }),
        position_seconds: Some(5),
        can_seek: Some(true),
        can_go_previous: None,
        can_go_next: None,
        can_shuffle: None,
        can_loop: None,
        shuffle: None,
        volume_percent: None,
        loop_status: None,
    }
}

fn showing(bus: &str) -> Window {
    let mut data = now_playing_snapshot(
        None,
        &mut PlayerSelection::new(),
        false,
        &labels(),
        |_| details("unused"),
        no_download,
        no_measure,
    );
    data.player_bus_name = bus.to_string();
    data.has_active_media = true;
    data.sources = vec![(bus.to_string(), "Spotify".to_string()), ("other".to_string(), "Other".to_string())];
    data.position_seconds = Some(65);
    data.duration_seconds = Some(60);
    data.capabilities.seek = true;
    Window::init(data)
}

#[test]
fn formats_durations() {
    assert_eq!(format_duration(0), "0:00");
    assert_eq!(format_duration(7), "0:07");
    assert_eq!(format_duration(187), "3:07");
    assert_eq!(format_duration(3600), "60:00");
    assert_eq!(format_duration(u64::MAX), "307445734561825860:15");
}

#[test]
fn seek_offsets() {
    assert_eq!(seek_offset(10, Some(4)), 6_000_000);
    assert_eq!(seek_offset(10, None), 10_000_000);
    assert_eq!(seek_offset(4, Some(10)), 0);
    assert_eq!(seek_offset(0, Some(u64::MAX)), 0);
    assert_eq!(seek_offset(u64::MAX, Some(0)), i64::MAX);
}

#[test]
fn popup_opens_and_closes() {
    let mut w = showing("bus");
    assert!(matches!(
        w.update(Message::TogglePopup { anchor_x: 1, anchor_y: 2, anchor_width: 3, anchor_height: 4 }),
        Effect::OpenPopup { anchor_x: 1, anchor_y: 2, anchor_width: 3, anchor_height: 4 }
    ));
    assert_eq!(w.popup, None);
    w.popup_opened(PopupId { id: 7 });
    assert!(matches!(w.update(Message::PopupClosed(PopupId { id: 8 })), Effect::Nothing));
    assert_eq!(w.popup, Some(PopupId { id: 7 }));
    assert!(matches!(
        w.update(Message::TogglePopup { anchor_x: 0, anchor_y: 0, anchor_width: 0, anchor_height: 0 }),
        Effect::DestroyPopup(PopupId { id: 7 })
    ));
    assert_eq!(w.popup, None);
    w.popup_opened(PopupId { id: 9 });
    assert!(matches!(w.update(Message::PopupClosed(PopupId { id: 9 })), Effect::PopupClosed));
    assert_eq!(w.popup, None);
}

#[test]
fn controls_go_to_the_followed_player() {
    let mut w = showing("bus");
    match w.update(Message::SeekTo(70)) {
        Effect::Player { bus_name, request } => {
            assert_eq!(bus_name, "bus");
            assert_eq!(request, PlayerRequest::Seek(5_000_000));
        }
        _ => panic!("expected a player request"),
    }
    match w.update(Message::SelectSource("other".to_string())) {
        Effect::Player { bus_name, request } => {
            assert_eq!(bus_name, "other");
            assert_eq!(request, PlayerRequest::ShowSource);
        }
        _ => panic!("expected a player request"),
    }
    match w.update(Message::CycleLoop) {
        Effect::Player { request, .. } => assert_eq!(request, PlayerRequest::CycleLoop),
        _ => panic!("expected a player request"),
    }
}

#[test]
fn replies_update_the_state() {
    let mut w = showing("bus");
    assert_eq!(w.playback_state, PlaybackState::Stopped);
    assert!(!w.answer(PlayerReply::PlayPause(false)));
    assert_eq!(w.playback_state, PlaybackState::Stopped);
    assert!(w.answer(PlayerReply::PlayPause(true)));
    assert_eq!(w.playback_state, PlaybackState::Playing);
    assert!(w.answer(PlayerReply::PlayPause(true)));
    assert_eq!(w.playback_state, PlaybackState::Paused);
    assert!(w.answer(PlayerReply::Shuffle(Some(true))));
    assert!(w.shuffle);
    assert!(!w.answer(PlayerReply::Loop(None)));
    assert!(w.answer(PlayerReply::Loop(Some(LoopStatus::Track))));
    assert_eq!(w.loop_status, Some(LoopStatus::Track));
    assert!(w.answer(PlayerReply::Next(true)));
    assert!(!w.answer(PlayerReply::Previous(false)));
    assert!(!w.answer(PlayerReply::Seeked));
}

#[test]
fn views_show_the_state() {
    let mut w = showing("org.mpris.MediaPlayer2.spotify");
    w.now_playing_album = "Album".to_string();
    let panel = w.view();
    assert!(panel.visible);
    assert_eq!(panel.player_icon, "spotify-launcher");
    assert_eq!(panel.transport_icon, "media-playback-start-symbolic");
    assert_eq!(panel.artist_line, "Album");
    let popup = w.view_window();
    assert_eq!(popup.progress_text, "1:05  /  1:00");
    assert_eq!(popup.slider, Some((60, 60)));
    assert_eq!(popup.loop_marker, "");
    assert!(!popup.loop_active);
    assert_eq!(popup.sources.len(), 2);
    assert_eq!(popup.sources[0].label, "\u{2022} Spotify");
    assert!(popup.sources[0].current);
    assert_eq!(popup.sources[1].label, "Other");
    assert!(!popup.sources[1].current);
    w.loop_status = Some(LoopStatus::Track);
    w.playback_state = PlaybackState::Playing;
    w.can_seek = false;
    let popup = w.view_window();
    assert_eq!(popup.loop_marker, "1");
    assert!(popup.loop_active);
    assert_eq!(popup.slider, None);
    assert_eq!(popup.transport_icon, "media-playback-pause-symbolic");
}

#[test]
fn a_picked_source_is_shown_at_once() {
    let mut w = showing("bus");
    w.popup_opened(PopupId { id: 3 });
    let mut selection = PlayerSelection::new();
    w.show_source(
        &mut selection,
        "other".to_string(),
        &labels(),
        |bus| Some(details(&bus)),
        no_download,
        no_measure,
    );
    assert_eq!(selection.selected, Some("other".to_string()));
    assert_eq!(w.popup, Some(PopupId { id: 3 }));
    assert_eq!(w.player_bus_name, "other");
    assert_eq!(w.now_playing_text, "Other song \u{2022} ?");
    assert_eq!(w.position_seconds, Some(5));
    assert_eq!(w.playback_state, PlaybackState::Playing);
    assert_eq!(
        w.sources,
        vec![("bus".to_string(), "Spotify".to_string()), ("other".to_string(), "Other".to_string())]
    );
    w.show_source(&mut selection, "gone".to_string(), &labels(), |_| None, no_download, no_measure);
    assert_eq!(selection.selected, Some("gone".to_string()));
    assert_eq!(w.player_bus_name, "other");
    assert_eq!(w.now_playing_text, "Other song \u{2022} ?");
}

#[test]
fn closing_another_popup_changes_nothing() {
    let mut w = showing("bus");
    w.popup_opened(PopupId { id: 1 });
    assert!(matches!(w.update(Message::PopupClosed(PopupId { id: 2 })), Effect::Nothing));
    assert_eq!(w.popup, Some(PopupId { id: 1 }));
    assert_eq!(w.player_bus_name, "bus");
    assert!(w.has_active_media());
    assert!(matches!(
        w.update(Message::TogglePopup { anchor_x: 0, anchor_y: 0, anchor_width: 0, anchor_height: 0 }),
        Effect::DestroyPopup(PopupId { id: 1 })
    ));
    assert!(w.has_active_media());
    assert_eq!(w.position_seconds, Some(65));
}
