use cosmic_ext_applet_now_playing::player::{
    after_write, cycle_loop_status, find_player, find_selected_or_active_from_players,
    loop_status_confirmed, player_icon_name, player_rank, player_sources_from_players,
    select_player, selected_player_slot, shuffle_confirmed, toggle_shuffle, ConfirmedWrite,
    LoopStatus, PlaybackStatus, PlayerInfo, PlayerSelection,
};

fn player(bus: &str, status: Option<PlaybackStatus>, has_track: bool) -> PlayerInfo {
    PlayerInfo {
        bus_name: format!("org.mpris.MediaPlayer2.{bus}"),
        identity: bus.to_string(),
        status,
        has_track,
    }
}

fn chosen(players: Vec<PlayerInfo>, selection: &mut PlayerSelection) -> Option<String> {
    find_selected_or_active_from_players(players, selection).map(|p| p.identity)
}

#[test]
fn ranks_music_players_before_browsers() {
    assert_eq!(player_rank("org.mpris.MediaPlayer2.spotify"), 0);
    assert_eq!(player_rank("org.mpris.MediaPlayer2.SPOTIFY"), 0);
    assert_eq!(player_rank("org.mpris.MediaPlayer2.vlc"), 1);
    assert_eq!(player_rank("org.mpris.MediaPlayer2.chromium.instance42"), 2);
    assert_eq!(player_rank("org.mpris.MediaPlayer2.firefox.instance_1_9"), 2);
    assert_eq!(player_rank("org.mpris.MediaPlayer2.Brave"), 2);
    assert_eq!(player_rank("org.mpris.MediaPlayer2.vivaldi"), 2);
    assert_eq!(player_rank(""), 1);
}

#[test]
fn icon_names_follow_the_player() {
    assert_eq!(player_icon_name("org.mpris.MediaPlayer2.spotify"), "spotify-launcher");
    assert_eq!(player_icon_name("org.mpris.MediaPlayer2.chromium.x"), "google-chrome");
    assert_eq!(player_icon_name("org.mpris.MediaPlayer2.Chrome"), "google-chrome");
    assert_eq!(player_icon_name("org.mpris.MediaPlayer2.firefox"), "firefox");
    assert_eq!(player_icon_name("org.mpris.MediaPlayer2.brave"), "audio-x-generic-symbolic");
    assert_eq!(player_icon_name("org.mpris.MediaPlayer2.vlc"), "audio-x-generic-symbolic");
}

#[test]
fn paused_spotify_with_a_track_beats_a_playing_browser() {
    let mut selection = PlayerSelection::new();
    let players = vec![
        player("chromium", Some(PlaybackStatus::Playing), true),
        player("spotify", Some(PlaybackStatus::Paused), true),
    ];
    assert_eq!(chosen(players, &mut selection), Some("spotify".to_string()));
}

#[test]
fn a_stopped_spotify_without_a_track_beats_a_playing_browser() {
    let mut selection = PlayerSelection::new();
    let players = vec![
        player("spotify", Some(PlaybackStatus::Stopped), false),
        player("firefox", Some(PlaybackStatus::Playing), true),
    ];
    assert_eq!(chosen(players, &mut selection), Some("spotify".to_string()));
}

#[test]
fn browsers_are_followed_only_when_nothing_else_is_there() {
    let mut selection = PlayerSelection::new();
    let players = vec![
        player("chromium", Some(PlaybackStatus::Playing), true),
        player("vlc", Some(PlaybackStatus::Stopped), false),
    ];
    assert_eq!(chosen(players, &mut selection), Some("vlc".to_string()));
    let players = vec![
        player("chromium", Some(PlaybackStatus::Stopped), false),
        player("firefox", Some(PlaybackStatus::Playing), true),
    ];
    assert_eq!(chosen(players, &mut selection), Some("firefox".to_string()));
}

#[test]
fn within_a_status_browsers_come_last() {
    let mut selection = PlayerSelection::new();
    let players = vec![
        player("firefox", Some(PlaybackStatus::Paused), true),
        player("vlc", Some(PlaybackStatus::Paused), true),
    ];
    assert_eq!(chosen(players, &mut selection), Some("vlc".to_string()));
}

#[test]
fn active_order_is_playing_paused_track_first() {
    let mut selection = PlayerSelection::new();
    let players = vec![
        player("a", Some(PlaybackStatus::Stopped), false),
        player("b", None, true),
        player("c", Some(PlaybackStatus::Paused), false),
        player("d", Some(PlaybackStatus::Playing), false),
    ];
    assert_eq!(chosen(players, &mut selection), Some("d".to_string()));
    let players = vec![
        player("a", Some(PlaybackStatus::Stopped), false),
        player("b", None, true),
        player("c", Some(PlaybackStatus::Paused), false),
    ];
    assert_eq!(chosen(players, &mut selection), Some("c".to_string()));
    let players = vec![
        player("a", Some(PlaybackStatus::Stopped), false),
        player("b", None, true),
    ];
    assert_eq!(chosen(players, &mut selection), Some("b".to_string()));
    let players = vec![
        player("a", Some(PlaybackStatus::Stopped), false),
        player("b", None, false),
    ];
    assert_eq!(chosen(players, &mut selection), Some("a".to_string()));
    assert_eq!(chosen(Vec::new(), &mut selection), None);
}

#[test]
fn a_picked_source_is_followed_while_it_exists() {
    let mut selection = PlayerSelection::new();
    select_player(&mut selection, "org.mpris.MediaPlayer2.firefox".to_string());
    assert_eq!(
        selected_player_slot(&selection).as_deref(),
        Some("org.mpris.MediaPlayer2.firefox")
    );
    let players = vec![
        player("spotify", Some(PlaybackStatus::Playing), true),
        player("firefox", Some(PlaybackStatus::Stopped), false),
    ];
    assert_eq!(chosen(players, &mut selection), Some("firefox".to_string()));
    assert!(selection.selected.is_some());
    let players = vec![player("spotify", Some(PlaybackStatus::Paused), true)];
    assert_eq!(chosen(players, &mut selection), Some("spotify".to_string()));
    assert!(selection.selected.is_none());
}

#[test]
fn sources_list_bus_names_and_identities() {
    let players = vec![
        player("spotify", None, false),
        player("vlc", None, false),
    ];
    assert_eq!(
        player_sources_from_players(&players),
        vec![
            ("org.mpris.MediaPlayer2.spotify".to_string(), "spotify".to_string()),
            ("org.mpris.MediaPlayer2.vlc".to_string(), "vlc".to_string()),
        ]
    );
    let names = vec!["a".to_string(), "b".to_string(), "b".to_string()];
    assert_eq!(find_player(&names, &"b".to_string()), Some(1));
    assert_eq!(find_player(&names, &"c".to_string()), None);
}

#[test]
fn shuffle_toggle_is_confirmed() {
    assert!(matches!(toggle_shuffle(Some(true)), ConfirmedWrite::Write(false)));
    assert!(matches!(toggle_shuffle(Some(false)), ConfirmedWrite::Write(true)));
    assert!(matches!(toggle_shuffle(None), ConfirmedWrite::Finished(None)));
    assert!(matches!(after_write(true, Some(true)), ConfirmedWrite::Verify(true)));
    assert!(matches!(after_write(true, Some(false)), ConfirmedWrite::Finished(None)));
    assert!(matches!(after_write(true, None), ConfirmedWrite::Finished(None)));
    assert_eq!(shuffle_confirmed(true, Some(true)), Some(true));
    assert_eq!(shuffle_confirmed(true, Some(false)), None);
    assert_eq!(shuffle_confirmed(false, None), None);
}

#[test]
fn loop_status_cycles_none_playlist_track() {
    assert!(matches!(
        cycle_loop_status(Some(LoopStatus::NoLoop)),
        ConfirmedWrite::Write(LoopStatus::Playlist)
    ));
    assert!(matches!(
        cycle_loop_status(Some(LoopStatus::Playlist)),
        ConfirmedWrite::Write(LoopStatus::Track)
    ));
    assert!(matches!(
        cycle_loop_status(Some(LoopStatus::Track)),
        ConfirmedWrite::Write(LoopStatus::NoLoop)
    ));
    assert!(matches!(cycle_loop_status(None), ConfirmedWrite::Finished(None)));
    assert_eq!(
        loop_status_confirmed(LoopStatus::Track, Some(LoopStatus::Track)),
        Some(LoopStatus::Track)
    );
    assert_eq!(loop_status_confirmed(LoopStatus::Track, Some(LoopStatus::NoLoop)), None);
}
