//! What the applet shows of the followed player: the snapshot built from
//! what was read of it, and when two snapshots differ in a way that matters.

use vstd::prelude::*;

use crate::artwork::{bytes_of, is_track_artwork, track_artwork, url_text};
use crate::path::{path_key, paths_equal};
use vstd::std_specs::cmp::PartialEqSpecImpl;
use crate::player::{
    find_selected_or_active_from_players, picked_player, playback_state_from_player,
    player_sources_from_players, preferred_or_active, spec_playback_state, LoopStatus,
    PlaybackStatus, PlayerInfo, PlayerSelection,
};
use crate::window::PlaybackState;

verus! {

broadcast use vstd::string::group_string_axioms;

/// Which controls the followed player supports.
#[derive(Clone, Copy, Debug, PartialEq, Eq, Structural)]
pub struct PlaybackCapabilities {
    pub seek: bool,
    pub previous: bool,
    pub next: bool,
    pub shuffle: bool,
    pub loop_mode: bool,
}

/// Everything the applet shows of the followed player.
#[derive(Clone, Debug)]
pub struct NowPlayingData {
    pub text: String,
    pub title: String,
    pub artist: String,
    pub album: String,
    pub player_bus_name: String,
    pub sources: Vec<(String, String)>,
    pub duration_seconds: Option<u64>,
    pub position_seconds: Option<u64>,
    pub capabilities: PlaybackCapabilities,
    pub shuffle: bool,
    pub volume: Option<u32>,
    pub loop_status: LoopStatus,
    pub state: PlaybackState,
    /// The local path of the cover, as raw bytes.
    pub album_art_path: Option<Vec<u8>>,
    pub album_art_dimensions: Option<(u32, u32)>,
    pub has_active_media: bool,
}

/// The (bus name, identity) texts of a list of sources.
pub open spec fn sources_view(s: Seq<(String, String)>) -> Seq<(Seq<char>, Seq<char>)> {
    s.map_values(|p: (String, String)| (p.0@, p.1@))
}

/// Both covers are absent, or both are paths with the same components.
pub open spec fn same_cover_path(a: Option<Vec<u8>>, b: Option<Vec<u8>>) -> bool {
    match (a, b) {
        (Some(x), Some(y)) => path_key(x@) == path_key(y@),
        (None, None) => true,
        _ => false,
    }
}

/// `a` and `b` agree on everything but the playback position.
pub open spec fn spec_same_except_position(a: NowPlayingData, b: NowPlayingData) -> bool {
    &&& a.text@ == b.text@
    &&& a.title@ == b.title@
    &&& a.artist@ == b.artist@
    &&& a.album@ == b.album@
    &&& a.player_bus_name@ == b.player_bus_name@
    &&& sources_view(a.sources@) == sources_view(b.sources@)
    &&& a.duration_seconds == b.duration_seconds
    &&& a.capabilities == b.capabilities
    &&& a.shuffle == b.shuffle
    &&& a.volume == b.volume
    &&& a.loop_status == b.loop_status
    &&& a.state == b.state
    &&& same_cover_path(a.album_art_path, b.album_art_path)
    &&& a.album_art_dimensions == b.album_art_dimensions
    &&& a.has_active_media == b.has_active_media
}

fn same_sources(a: &Vec<(String, String)>, b: &Vec<(String, String)>) -> (r: bool)
    ensures
        r == (sources_view(a@) == sources_view(b@)),
{
    if a.len() != b.len() {
        proof {
            if sources_view(a@) == sources_view(b@) {
                assert(sources_view(a@).len() == sources_view(b@).len());
            }
        }
        return false;
    }
    let mut i: usize = 0;
    while i < a.len()
        invariant
            a@.len() == b@.len(),
            i <= a@.len(),
            forall|k: int| 0 <= k < i ==> #[trigger] sources_view(a@)[k] == sources_view(b@)[k],
        decreases a@.len() - i,
    {
        if a[i].0 != b[i].0 || a[i].1 != b[i].1 {
            assert(sources_view(a@)[i as int] != sources_view(b@)[i as int]);
            return false;
        }
        i = i + 1;
    }
    assert(sources_view(a@) =~= sources_view(b@));
    true
}

fn same_path(a: &Option<Vec<u8>>, b: &Option<Vec<u8>>) -> (r: bool)
    ensures
        r == same_cover_path(*a, *b),
{
    match (a, b) {
        (Some(x), Some(y)) => paths_equal(x, y),
        (None, None) => true,
        _ => false,
    }
}

fn same_dimensions(a: Option<(u32, u32)>, b: Option<(u32, u32)>) -> (r: bool)
    ensures
        r == (a == b),
{
    match (a, b) {
        (Some(x), Some(y)) => x.0 == y.0 && x.1 == y.1,
        (None, None) => true,
        _ => false,
    }
}

fn same_number(a: Option<u64>, b: Option<u64>) -> (r: bool)
    ensures
        r == (a == b),
{
    match (a, b) {
        (Some(x), Some(y)) => x == y,
        (None, None) => true,
        _ => false,
    }
}

fn same_volume(a: Option<u32>, b: Option<u32>) -> (r: bool)
    ensures
        r == (a == b),
{
    match (a, b) {
        (Some(x), Some(y)) => x == y,
        (None, None) => true,
        _ => false,
    }
}

impl NowPlayingData {
    /// Compares the state that matters while the popup is closed. Playback
    /// position is deliberately excluded so an active player does not wake
    /// the applet once a second merely to redraw an invisible seek bar.
    pub fn same_except_position(&self, other: &Self) -> (r: bool)
        ensures
            r == spec_same_except_position(*self, *other),
    {
        self.text == other.text && self.title == other.title && self.artist == other.artist
            && self.album == other.album && self.player_bus_name == other.player_bus_name
            && same_sources(&self.sources, &other.sources) && same_number(
            self.duration_seconds,
            other.duration_seconds,
        ) && self.capabilities == other.capabilities && self.shuffle == other.shuffle
            && same_volume(self.volume, other.volume) && self.loop_status == other.loop_status
            && self.state == other.state && same_path(&self.album_art_path, &other.album_art_path)
            && same_dimensions(self.album_art_dimensions, other.album_art_dimensions)
            && self.has_active_media == other.has_active_media
    }
}

impl PartialEq for NowPlayingData {
    fn eq(&self, other: &Self) -> (r: bool) {
        self.same_except_position(other) && same_number(self.position_seconds, other.position_seconds)
    }
}

impl PartialEqSpecImpl for NowPlayingData {
    open spec fn obeys_eq_spec() -> bool {
        true
    }

    /// Two snapshots are equal when they agree on everything, the position
    /// included.
    open spec fn eq_spec(&self, other: &Self) -> bool {
        spec_same_except_position(*self, *other) && self.position_seconds == other.position_seconds
    }
}

impl Eq for NowPlayingData {}

/// Whether a new snapshot `data` is sent to the panel after `last`: always
/// the first one; later ones while the popup is open (its seek bar shows the
/// position), else only when something but the position changed.
pub fn should_publish(popup_open: bool, last: Option<&NowPlayingData>, data: &NowPlayingData) -> (r:
    bool)
    ensures
        r == match last {
            Some(previous) => popup_open || !spec_same_except_position(*previous, *data),
            None => true,
        },
{
    match last {
        Some(previous) => popup_open || !previous.same_except_position(data),
        None => true,
    }
}

/// A change of the playback position alone is not a change that matters.
pub proof fn law_position_does_not_matter(a: NowPlayingData, position: Option<u64>)
    ensures
        spec_same_except_position(a, NowPlayingData { position_seconds: position, ..a }),
{
}

/// Agreeing on everything but the position is an equivalence.
pub proof fn law_same_except_position_is_equivalence(
    a: NowPlayingData,
    b: NowPlayingData,
    c: NowPlayingData,
)
    ensures
        spec_same_except_position(a, a),
        spec_same_except_position(a, b) ==> spec_same_except_position(b, a),
        spec_same_except_position(a, b) && spec_same_except_position(b, c)
            ==> spec_same_except_position(a, c),
{
}

/// Two snapshots are the same but for the position exactly when every other
/// thing the panel shows agrees: texts, player, sources, duration, controls,
/// modes, volume, playback state, cover and whether a track is followed. So
/// a player that pauses, or changes track, is a change that is sent.
pub proof fn law_every_shown_field_matters(a: NowPlayingData, b: NowPlayingData)
    ensures
        spec_same_except_position(a, b) <==> {
            &&& a.text@ == b.text@
            &&& a.title@ == b.title@
            &&& a.artist@ == b.artist@
            &&& a.album@ == b.album@
            &&& a.player_bus_name@ == b.player_bus_name@
            &&& sources_view(a.sources@) == sources_view(b.sources@)
            &&& a.duration_seconds == b.duration_seconds
            &&& a.capabilities == b.capabilities
            &&& a.shuffle == b.shuffle
            &&& a.volume == b.volume
            &&& a.loop_status == b.loop_status
            &&& a.state == b.state
            &&& same_cover_path(a.album_art_path, b.album_art_path)
            &&& a.album_art_dimensions == b.album_art_dimensions
            &&& a.has_active_media == b.has_active_media
        },
        a.state != b.state ==> !spec_same_except_position(a, b),
{
}

/// The localised texts the snapshot uses where a player tells nothing.
pub struct NowPlayingLabels {
    pub nothing_playing: String,
    pub unknown_title: String,
    pub unknown_artist: String,
}

/// What the applet reads of the followed player's current track.
pub struct TrackMetadata {
    pub title: Option<String>,
    pub artists: Option<Vec<String>>,
    pub album: Option<String>,
    pub length_seconds: Option<u64>,
    pub art_url: Option<String>,
}

/// What the applet reads of the followed player; `None` where the player
/// did not answer (the position only when it was asked for).
pub struct PlayerDetails {
    pub bus_name: String,
    pub status: Option<PlaybackStatus>,
    pub metadata: Option<TrackMetadata>,
    pub position_seconds: Option<u64>,
    pub can_seek: Option<bool>,
    pub can_go_previous: Option<bool>,
    pub can_go_next: Option<bool>,
    pub can_shuffle: Option<bool>,
    pub can_loop: Option<bool>,
    pub shuffle: Option<bool>,
    /// The volume in percent, rounded to a whole number (the snapshot keeps
    /// it within 0..=100).
    pub volume_percent: Option<u32>,
    pub loop_status: Option<LoopStatus>,
}

/// `r` is the snapshot shown when nothing is playing, in playback state `state`.
pub open spec fn is_nothing_playing(r: NowPlayingData, labels: NowPlayingLabels, state: PlaybackState) -> bool {
    &&& r.text@ == labels.nothing_playing@
    &&& r.title@ == labels.nothing_playing@
    &&& r.artist@ == Seq::<char>::empty()
    &&& r.album@ == Seq::<char>::empty()
    &&& r.player_bus_name@ == Seq::<char>::empty()
    &&& r.sources@.len() == 0
    &&& r.duration_seconds is None
    &&& r.position_seconds is None
    &&& r.capabilities == PlaybackCapabilities {
        seek: false,
        previous: false,
        next: false,
        shuffle: false,
        loop_mode: false,
    }
    &&& !r.shuffle
    &&& r.volume is None
    &&& r.loop_status == LoopStatus::NoLoop
    &&& r.state == state
    &&& r.album_art_path is None
    &&& r.album_art_dimensions is None
    &&& !r.has_active_media
}

/// The snapshot shown when nothing is playing.
fn nothing_playing(labels: &NowPlayingLabels, state: PlaybackState) -> (r: NowPlayingData)
    ensures
        is_nothing_playing(r, *labels, state),
{
    NowPlayingData {
        text: labels.nothing_playing.clone(),
        title: labels.nothing_playing.clone(),
        artist: String::new(),
        album: String::new(),
        player_bus_name: String::new(),
        sources: Vec::new(),
        duration_seconds: None,
        position_seconds: None,
        capabilities: PlaybackCapabilities {
            seek: false,
            previous: false,
            next: false,
            shuffle: false,
            loop_mode: false,
        },
        shuffle: false,
        volume: None,
        loop_status: LoopStatus::NoLoop,
        state,
        album_art_path: None,
        album_art_dimensions: None,
        has_active_media: false,
    }
}

/// The (bus name, identity) of each player, in order.
pub open spec fn player_sources(players: Seq<PlayerInfo>) -> Seq<(Seq<char>, Seq<char>)> {
    players.map_values(|p: PlayerInfo| (p.bus_name@, p.identity@))
}

/// The player the applet follows among `players`: the picked source while it
/// is there, else the preferred or active player.
pub open spec fn followed_player(players: Seq<PlayerInfo>, selected: Option<String>) -> Option<
    PlayerInfo,
> {
    if picked_player(players, selected) is Some {
        picked_player(players, selected)
    } else {
        preferred_or_active(players)
    }
}

/// The cover URL the track of a player publishes, if any.
pub open spec fn track_art_url(details: PlayerDetails) -> Option<Seq<char>> {
    match details.metadata {
        Some(m) => match m.art_url {
            Some(u) => Some(u@),
            None => None,
        },
        None => None,
    }
}

/// `r` is the snapshot of the player read as `details`, offering `sources`,
/// with the cover of its track found by `download` and measured by `measure`
/// (see `is_track_artwork`).
pub open spec fn is_snapshot_with_cover<
    D: FnOnce(String) -> Option<Vec<u8>>,
    M: FnOnce(&Vec<u8>) -> Option<(u32, u32)>,
>(
    r: NowPlayingData,
    details: PlayerDetails,
    sources: Seq<(Seq<char>, Seq<char>)>,
    include_position: bool,
    labels: NowPlayingLabels,
    download: D,
    measure: M,
) -> bool {
    exists|a: Option<(Vec<u8>, Option<(u32, u32)>)>|
        #[trigger] is_track_artwork(track_art_url(details), download, measure, a) && is_snapshot_of(
            r,
            details,
            sources,
            include_position,
            a,
            labels,
        )
}

/// Builds the snapshot of the player read as `details`, offering `sources`;
/// the cover of its track is found with `download` and measured with
/// `measure` (see `track_artwork`).
pub fn now_playing_from_details<
    D: FnOnce(String) -> Option<Vec<u8>>,
    M: FnOnce(&Vec<u8>) -> Option<(u32, u32)>,
>(
    details: &PlayerDetails,
    sources: Vec<(String, String)>,
    include_position: bool,
    labels: &NowPlayingLabels,
    download: D,
    measure: M,
) -> (r: NowPlayingData)
    requires
        forall|u: String| call_requires(download, (u,)),
        forall|p: &Vec<u8>| call_requires(measure, (p,)),
    ensures
        is_snapshot_with_cover(
            r,
            *details,
            sources_view(sources@),
            include_position,
            *labels,
            download,
            measure,
        ),
        details.metadata is Some ==> r.sources == sources,
{
    let art_url: Option<&str> = match &details.metadata {
        Some(meta) => match &meta.art_url {
            Some(u) => Some(u.as_str()),
            None => None,
        },
        None => None,
    };
    assert(url_text(art_url) == track_art_url(*details));
    let artwork = track_artwork(art_url, download, measure);
    now_playing_from_player_with_sources(details, sources, include_position, artwork, labels)
}

/// The snapshot the panel shows, from one enumeration of the players
/// (`players`; `None` where they could not be listed): the followed player
/// is chosen (see `find_selected_or_active_from_players`), `read` reads it,
/// the cover of its track is found with `download` and measured with
/// `measure`, and the snapshot offers every listed player as a source. With
/// no player to follow, the "nothing playing" snapshot, stopped.
pub fn now_playing_snapshot<
    F: FnOnce(PlayerInfo) -> PlayerDetails,
    D: FnOnce(String) -> Option<Vec<u8>>,
    M: FnOnce(&Vec<u8>) -> Option<(u32, u32)>,
>(
    players: Option<Vec<PlayerInfo>>,
    selection: &mut PlayerSelection,
    include_position: bool,
    labels: &NowPlayingLabels,
    read: F,
    download: D,
    measure: M,
) -> (r: NowPlayingData)
    requires
        forall|p: PlayerInfo| call_requires(read, (p,)),
        forall|u: String| call_requires(download, (u,)),
        forall|p: &Vec<u8>| call_requires(measure, (p,)),
    ensures
        match players {
            None => {
                &&& is_nothing_playing(r, *labels, PlaybackState::Stopped)
                &&& *final(selection) == *old(selection)
            },
            Some(ps) => {
                &&& match followed_player(ps@, old(selection).selected) {
                    None => is_nothing_playing(r, *labels, PlaybackState::Stopped),
                    Some(p) => exists|details: PlayerDetails|
                        #[trigger] call_ensures(read, (p,), details) && is_snapshot_with_cover(
                            r,
                            details,
                            player_sources(ps@),
                            include_position,
                            *labels,
                            download,
                            measure,
                        ),
                }
                &&& picked_player(ps@, old(selection).selected) is Some ==> *final(selection)
                    == *old(selection)
                &&& picked_player(ps@, old(selection).selected) is None
                    ==> final(selection).selected is None
            },
        },
{
    match players {
        None => nothing_playing(labels, PlaybackState::Stopped),
        Some(players) => {
            let sources = player_sources_from_players(&players);
            proof {
                assert(sources_view(sources@) =~= player_sources(players@));
            }
            match find_selected_or_active_from_players(players, selection) {
                None => nothing_playing(labels, PlaybackState::Stopped),
                Some(chosen) => {
                    let details = read(chosen);
                    now_playing_from_details(
                        &details,
                        sources,
                        include_position,
                        labels,
                        download,
                        measure,
                    )
                },
            }
        },
    }
}

/// The title shown: the track's title, or the "unknown title" label.
pub open spec fn shown_title(meta: TrackMetadata, labels: NowPlayingLabels) -> Seq<char> {
    match meta.title {
        Some(t) => t@,
        None => labels.unknown_title@,
    }
}

/// The artist shown: the track's first artist, or the "unknown artist" label.
pub open spec fn shown_artist(meta: TrackMetadata, labels: NowPlayingLabels) -> Seq<char> {
    match meta.artists {
        Some(a) => if a@.len() > 0 {
            a@[0]@
        } else {
            labels.unknown_artist@
        },
        None => labels.unknown_artist@,
    }
}

/// The album shown: the track's album, or nothing.
pub open spec fn shown_album(meta: TrackMetadata) -> Seq<char> {
    match meta.album {
        Some(a) => a@,
        None => Seq::empty(),
    }
}

/// A volume in percent, held within 0..=100.
pub open spec fn clamped_volume(v: Option<u32>) -> Option<u32> {
    match v {
        Some(p) => Some(if p <= 100 { p } else { 100u32 }),
        None => None,
    }
}

/// The snapshot's volume is the player's, held within 0..=100: a volume up
/// to 100 is kept, a larger one shows as 100.
pub proof fn law_volume_within_a_hundred(v: u32)
    ensures
        clamped_volume(None) is None,
        v <= 100 ==> clamped_volume(Some(v)) == Some(v),
        v > 100 ==> clamped_volume(Some(v)) == Some(100u32),
{
}

/// The texts of a track: its title or the "unknown title" label, its first
/// artist or the "unknown artist" label, its album or nothing.
pub proof fn law_track_texts(meta: TrackMetadata, labels: NowPlayingLabels)
    ensures
        meta.title matches Some(t) ==> shown_title(meta, labels) == t@,
        meta.title is None ==> shown_title(meta, labels) == labels.unknown_title@,
        meta.artists matches Some(a) ==> (a@.len() > 0 ==> shown_artist(meta, labels) == a@[0]@),
        (meta.artists is None || meta.artists->0@.len() == 0) ==> shown_artist(meta, labels)
            == labels.unknown_artist@,
        meta.album matches Some(a) ==> shown_album(meta) == a@,
        meta.album is None ==> shown_album(meta) == Seq::<char>::empty(),
{
}

/// `r` is the snapshot of a player that publishes the track `meta` (the
/// sources it offers aside).
pub open spec fn is_track_snapshot(
    r: NowPlayingData,
    player: PlayerDetails,
    meta: TrackMetadata,
    include_position: bool,
    artwork: Option<(Vec<u8>, Option<(u32, u32)>)>,
    labels: NowPlayingLabels,
) -> bool {
    &&& r.title@ == shown_title(meta, labels)
    &&& r.artist@ == shown_artist(meta, labels)
    &&& r.text@ == shown_title(meta, labels) + " \u{2022} "@ + shown_artist(meta, labels)
    &&& r.album@ == shown_album(meta)
    &&& r.player_bus_name@ == player.bus_name@
    &&& r.duration_seconds == meta.length_seconds
    &&& r.position_seconds == if include_position {
        player.position_seconds
    } else {
        None
    }
    &&& r.capabilities == PlaybackCapabilities {
        seek: player.can_seek == Some(true),
        previous: player.can_go_previous == Some(true),
        next: player.can_go_next == Some(true),
        shuffle: player.can_shuffle == Some(true),
        loop_mode: player.can_loop == Some(true),
    }
    &&& r.shuffle == (player.shuffle == Some(true))
    &&& r.volume == clamped_volume(player.volume_percent)
    &&& r.loop_status == match player.loop_status {
        Some(l) => l,
        None => LoopStatus::NoLoop,
    }
    &&& r.state == spec_playback_state(player.status)
    &&& bytes_of(r.album_art_path) == match artwork {
        Some(a) => Some(a.0@),
        None => None,
    }
    &&& r.album_art_dimensions == match artwork {
        Some(a) => a.1,
        None => None,
    }
    &&& r.has_active_media
}

/// `r` is the snapshot built from what was read of a player (`details`,
/// and the cover found for its track, `artwork`), offering the sources
/// `sources`: a track snapshot, or "nothing playing" in the player's state
/// when it publishes no metadata.
pub open spec fn is_snapshot_of(
    r: NowPlayingData,
    details: PlayerDetails,
    sources: Seq<(Seq<char>, Seq<char>)>,
    include_position: bool,
    artwork: Option<(Vec<u8>, Option<(u32, u32)>)>,
    labels: NowPlayingLabels,
) -> bool {
    match details.metadata {
        Some(meta) => {
            &&& is_track_snapshot(r, details, meta, include_position, artwork, labels)
            &&& sources_view(r.sources@) == sources
        },
        None => is_nothing_playing(r, labels, spec_playback_state(details.status)),
    }
}

fn flag(v: Option<bool>) -> (r: bool)
    ensures
        r == (v == Some(true)),
{
    match v {
        Some(b) => b,
        None => false,
    }
}

fn text_or(v: &Option<String>, fallback: &String) -> (r: String)
    ensures
        r@ == match *v {
            Some(t) => t@,
            None => fallback@,
        },
{
    match v {
        Some(t) => t.clone(),
        None => fallback.clone(),
    }
}

/// Builds what the panel shows of `player` from what was read of it: the
/// track's title and first artist (or the "unknown" labels), the `sources`
/// to offer, the position only if `include_position`, the capabilities
/// (unknown ones off), and the cover found for the track (`artwork`: its
/// path and measured dimensions). A player that publishes no metadata gives
/// the "nothing playing" snapshot in the player's playback state.
pub fn now_playing_from_player_with_sources(
    player: &PlayerDetails,
    sources: Vec<(String, String)>,
    include_position: bool,
    artwork: Option<(Vec<u8>, Option<(u32, u32)>)>,
    labels: &NowPlayingLabels,
) -> (r: NowPlayingData)
    ensures
        is_snapshot_of(r, *player, sources_view(sources@), include_position, artwork, *labels),
        player.metadata is Some ==> r.sources == sources,
        r.volume matches Some(v) ==> v <= 100,
        r.album_art_dimensions is Some ==> r.album_art_path is Some,
{
    let playback_state = playback_state_from_player(player);
    match &player.metadata {
        None => nothing_playing(labels, playback_state),
        Some(meta) => {
            let title = text_or(&meta.title, &labels.unknown_title);
            let artist = match &meta.artists {
                Some(artists) => if artists.len() > 0 {
                    artists[0].clone()
                } else {
                    labels.unknown_artist.clone()
                },
                None => labels.unknown_artist.clone(),
            };
            let mut text = title.clone();
            text.append(" \u{2022} ");
            text.append(artist.as_str());
            let album = match &meta.album {
                Some(a) => a.clone(),
                None => String::new(),
            };
            let (album_art_path, album_art_dimensions) = match artwork {
                Some((path, dims)) => (Some(path), dims),
                None => (None, None),
            };
            NowPlayingData {
                text,
                title,
                artist,
                album,
                player_bus_name: player.bus_name.clone(),
                sources,
                duration_seconds: meta.length_seconds,
                position_seconds: if include_position {
                    player.position_seconds
                } else {
                    None
                },
                capabilities: PlaybackCapabilities {
                    seek: flag(player.can_seek),
                    previous: flag(player.can_go_previous),
                    next: flag(player.can_go_next),
                    shuffle: flag(player.can_shuffle),
                    loop_mode: flag(player.can_loop),
                },
                shuffle: flag(player.shuffle),
                volume: match player.volume_percent {
                    Some(v) => Some(
                        if v <= 100 {
                            v
                        } else {
                            100
                        },
                    ),
                    None => None,
                },
                loop_status: match player.loop_status {
                    Some(l) => l,
                    None => LoopStatus::NoLoop,
                },
                state: playback_state,
                album_art_path,
                album_art_dimensions,
                has_active_media: true,
            }
        },
    }
}

} // verus!
