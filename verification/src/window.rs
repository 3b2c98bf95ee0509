//! The applet's own state: what it shows, how it answers the user's input
//! and the player's replies, and what the panel and the popup display.

use vstd::prelude::*;

use crate::metadata::{
    is_snapshot_with_cover, now_playing_from_details, sources_view, NowPlayingData,
    NowPlayingLabels, PlayerDetails,
};
use crate::player::{
    player_icon_name, select_player, spec_player_icon_name, LoopStatus, PlayerSelection,
};
use crate::text::{
    decimal, decimal_value, digit_char, lemma_decimal_reads_back, push_decimal, push_two_digits,
    two_digits,
};

verus! {

broadcast use vstd::string::group_string_axioms;

/// What the panel believes the followed player is doing.
#[derive(Clone, Copy, Debug, PartialEq, Eq, Structural)]
pub enum PlaybackState {
    Playing,
    Paused,
    Stopped,
    Unknown,
}

impl Default for PlaybackState {
    fn default() -> (r: Self)
        ensures
            r == PlaybackState::Unknown,
    {
        PlaybackState::Unknown
    }
}

/// Names one popup surface of the applet.
#[derive(Clone, Copy, Debug, PartialEq, Eq, Structural)]
pub struct PopupId {
    pub id: u64,
}

/// How far one press of a seek button moves, in microseconds.
pub const SEEK_STEP_MICROS: i64 = 10_000_000;

/// The user's input and the applet's updates.
#[derive(Clone, Debug)]
pub enum Message {
    /// The panel card was clicked; the popup anchors to this rectangle.
    TogglePopup { anchor_x: i32, anchor_y: i32, anchor_width: i32, anchor_height: i32 },
    /// A popup was closed.
    PopupClosed(PopupId),
    /// A new snapshot of the followed player arrived.
    NowPlayingChanged(NowPlayingData),
    PreviousTrack,
    TogglePlayPause,
    NextTrack,
    /// The user picked the source on this bus.
    SelectSource(String),
    ToggleShuffle,
    CycleLoop,
    /// Seek by this many microseconds.
    Seek(i64),
    /// Seek to this second of the track.
    SeekTo(u64),
}

/// A request to the player the applet follows.
#[derive(Clone, Copy, Debug, PartialEq, Eq, Structural)]
pub enum PlayerRequest {
    Previous,
    PlayPause,
    Next,
    /// Make the picked source the followed one and show it at once.
    ShowSource,
    ToggleShuffle,
    CycleLoop,
    /// Seek by this many microseconds.
    Seek(i64),
}

/// What the applet's runtime is to do after a message.
pub enum Effect {
    Nothing,
    /// Destroy the open popup; it is now closed.
    DestroyPopup(PopupId),
    /// Open the popup anchored to the clicked card.
    OpenPopup { anchor_x: i32, anchor_y: i32, anchor_width: i32, anchor_height: i32 },
    /// The open popup was closed.
    PopupClosed,
    /// Send `request` to the player on `bus_name`.
    Player { bus_name: String, request: PlayerRequest },
}

/// A player's answer to a request.
pub enum PlayerReply {
    /// Whether the previous-track request reached the player and succeeded.
    Previous(bool),
    /// Whether the play/pause request reached the player and succeeded.
    PlayPause(bool),
    /// Whether the next-track request reached the player and succeeded.
    Next(bool),
    /// The confirmed shuffle setting, if it changed.
    Shuffle(Option<bool>),
    /// The confirmed repeat mode, if it changed.
    Loop(Option<LoopStatus>),
    /// The snapshot of the picked source, if it was found.
    Source(Option<NowPlayingData>),
    /// A seek was sent (its result is not used).
    Seeked,
}

/// The applet's state.
pub struct Window {
    pub popup: Option<PopupId>,
    pub now_playing_text: String,
    pub now_playing_title: String,
    pub now_playing_artist: String,
    pub now_playing_album: String,
    pub player_bus_name: String,
    pub sources: Vec<(String, String)>,
    pub duration_seconds: Option<u64>,
    pub position_seconds: Option<u64>,
    pub can_seek: bool,
    pub can_go_previous: bool,
    pub can_go_next: bool,
    pub can_shuffle: bool,
    pub shuffle: bool,
    pub can_loop: bool,
    pub loop_status: Option<LoopStatus>,
    pub playback_state: PlaybackState,
    /// The local path of the cover, as raw bytes.
    pub album_art_path: Option<Vec<u8>>,
    pub album_art_dimensions: Option<(u32, u32)>,
    pub has_active_media: bool,
}

/// `w` shows the snapshot `d` (its popup aside).
pub open spec fn shows(w: Window, d: NowPlayingData) -> bool {
    &&& w.now_playing_text == d.text
    &&& w.now_playing_title == d.title
    &&& w.now_playing_artist == d.artist
    &&& w.now_playing_album == d.album
    &&& w.player_bus_name == d.player_bus_name
    &&& w.sources == d.sources
    &&& w.duration_seconds == d.duration_seconds
    &&& w.position_seconds == d.position_seconds
    &&& w.can_seek == d.capabilities.seek
    &&& w.can_go_previous == d.capabilities.previous
    &&& w.can_go_next == d.capabilities.next
    &&& w.can_shuffle == d.capabilities.shuffle
    &&& w.shuffle == d.shuffle
    &&& w.can_loop == d.capabilities.loop_mode
    &&& w.loop_status == Some(d.loop_status)
    &&& w.playback_state == d.state
    &&& w.album_art_path == d.album_art_path
    &&& w.album_art_dimensions == d.album_art_dimensions
    &&& w.has_active_media == d.has_active_media
}

/// The state after a successful play/pause request, before the player confirms it.
pub open spec fn spec_after_play_pause(state: PlaybackState) -> PlaybackState {
    match state {
        PlaybackState::Playing => PlaybackState::Paused,
        _ => PlaybackState::Playing,
    }
}

/// The offset in microseconds that `SeekTo(seconds)` sends, from the shown
/// position `current` (0 if unknown): none when the target is at or before
/// the shown position, else the forward distance in microseconds, saturated
/// to `i64`.
pub open spec fn spec_seek_offset(seconds: u64, current: Option<u64>) -> i64 {
    let cur: int = match current {
        Some(c) => c as int,
        None => 0,
    };
    if seconds <= cur {
        0
    } else if (seconds - cur) * 1_000_000 > i64::MAX {
        i64::MAX
    } else {
        ((seconds - cur) * 1_000_000) as i64
    }
}

/// The offset in microseconds that seeking to `seconds` sends.
pub fn seek_offset(seconds: u64, current: Option<u64>) -> (r: i64)
    ensures
        r == spec_seek_offset(seconds, current),
{
    let cur: u64 = match current {
        Some(c) => c,
        None => 0,
    };
    if seconds <= cur {
        return 0;
    }
    let scaled: u128 = ((seconds - cur) as u128) * 1_000_000u128;
    if scaled > 9223372036854775807u128 {
        9223372036854775807i64
    } else {
        scaled as i64
    }
}

/// The request to the followed player that a control message makes, given
/// the shown position; `None` for the other messages.
pub open spec fn spec_player_request(message: Message, position: Option<u64>) -> Option<PlayerRequest> {
    match message {
        Message::PreviousTrack => Some(PlayerRequest::Previous),
        Message::TogglePlayPause => Some(PlayerRequest::PlayPause),
        Message::NextTrack => Some(PlayerRequest::Next),
        Message::ToggleShuffle => Some(PlayerRequest::ToggleShuffle),
        Message::CycleLoop => Some(PlayerRequest::CycleLoop),
        Message::Seek(offset) => Some(PlayerRequest::Seek(offset)),
        Message::SeekTo(seconds) => Some(PlayerRequest::Seek(spec_seek_offset(seconds, position))),
        _ => None,
    }
}

impl Window {
    /// The state before any snapshot: nothing shown, state unknown.
    pub fn new() -> (r: Self)
        ensures
            r.popup is None,
            r.now_playing_text@ == Seq::<char>::empty(),
            r.now_playing_title@ == Seq::<char>::empty(),
            r.now_playing_artist@ == Seq::<char>::empty(),
            r.now_playing_album@ == Seq::<char>::empty(),
            r.player_bus_name@ == Seq::<char>::empty(),
            r.sources@.len() == 0,
            r.duration_seconds is None,
            r.position_seconds is None,
            !r.can_seek && !r.can_go_previous && !r.can_go_next && !r.can_shuffle && !r.shuffle
                && !r.can_loop,
            r.loop_status is None,
            r.playback_state == PlaybackState::Unknown,
            r.album_art_path is None,
            r.album_art_dimensions is None,
            !r.has_active_media,
    {
        Window {
            popup: None,
            now_playing_text: String::new(),
            now_playing_title: String::new(),
            now_playing_artist: String::new(),
            now_playing_album: String::new(),
            player_bus_name: String::new(),
            sources: Vec::new(),
            duration_seconds: None,
            position_seconds: None,
            can_seek: false,
            can_go_previous: false,
            can_go_next: false,
            can_shuffle: false,
            shuffle: false,
            can_loop: false,
            loop_status: None,
            playback_state: PlaybackState::Unknown,
            album_art_path: None,
            album_art_dimensions: None,
            has_active_media: false,
        }
    }

    /// The applet's first state: no popup, showing the `initial` snapshot.
    pub fn init(initial: NowPlayingData) -> (r: Self)
        ensures
            r.popup is None,
            shows(r, initial),
    {
        let mut window = Window::new();
        window.apply_now_playing(initial);
        window
    }

    /// Shows the snapshot `data`; the popup is left as it is.
    pub fn apply_now_playing(&mut self, data: NowPlayingData)
        ensures
            final(self).popup == old(self).popup,
            shows(*final(self), data),
    {
        self.now_playing_text = data.text;
        self.now_playing_title = data.title;
        self.now_playing_artist = data.artist;
        self.now_playing_album = data.album;
        self.player_bus_name = data.player_bus_name;
        self.sources = data.sources;
        self.duration_seconds = data.duration_seconds;
        self.position_seconds = data.position_seconds;
        self.can_seek = data.capabilities.seek;
        self.can_go_previous = data.capabilities.previous;
        self.can_go_next = data.capabilities.next;
        self.can_shuffle = data.capabilities.shuffle;
        self.shuffle = data.shuffle;
        self.can_loop = data.capabilities.loop_mode;
        self.loop_status = Some(data.loop_status);
        self.playback_state = data.state;
        self.album_art_path = data.album_art_path;
        self.album_art_dimensions = data.album_art_dimensions;
        self.has_active_media = data.has_active_media;
    }

    /// Whether a player with a track is followed.
    pub fn has_active_media(&self) -> (r: bool)
        ensures
            r == self.has_active_media,
    {
        self.has_active_media
    }

    /// A player request to the followed player.
    fn to_player(&self, request: PlayerRequest) -> (r: Effect)
        ensures
            r matches Effect::Player { bus_name, request: q } && bus_name@ == self.player_bus_name@
                && q == request,
    {
        Effect::Player { bus_name: self.player_bus_name.clone(), request }
    }

    /// Answers a message: the panel card toggles the popup, a closed popup
    /// is forgotten, a snapshot is shown, transport and mode controls go to
    /// the followed player, a picked source is asked for its snapshot, and a
    /// seek target becomes an offset from the shown position.
    pub fn update(&mut self, message: Message) -> (r: Effect)
        ensures
            match message {
                Message::TogglePopup { anchor_x, anchor_y, anchor_width, anchor_height } => {
                    &&& *final(self) == (Window { popup: None, ..*old(self) })
                    &&& match old(self).popup {
                        Some(id) => r == Effect::DestroyPopup(id),
                        None => r == (Effect::OpenPopup {
                            anchor_x,
                            anchor_y,
                            anchor_width,
                            anchor_height,
                        }),
                    }
                },
                Message::PopupClosed(id) => if old(self).popup == Some(id) {
                    &&& r == Effect::PopupClosed
                    &&& *final(self) == (Window { popup: None, ..*old(self) })
                } else {
                    &&& r == Effect::Nothing
                    &&& *final(self) == *old(self)
                },
                Message::NowPlayingChanged(data) => {
                    &&& r == Effect::Nothing
                    &&& final(self).popup == old(self).popup
                    &&& shows(*final(self), data)
                },
                Message::SelectSource(bus) => {
                    &&& r matches Effect::Player { bus_name, request } && bus_name@ == bus@
                        && request == PlayerRequest::ShowSource
                    &&& *final(self) == *old(self)
                },
                _ => {
                    &&& r matches Effect::Player { bus_name, request } && bus_name@
                        == old(self).player_bus_name@ && Some(request) == spec_player_request(
                        message,
                        old(self).position_seconds,
                    )
                    &&& *final(self) == *old(self)
                },
            },
    {
        match message {
            Message::TogglePopup { anchor_x, anchor_y, anchor_width, anchor_height } => {
                match self.popup.take() {
                    Some(popup_id) => Effect::DestroyPopup(popup_id),
                    None => Effect::OpenPopup { anchor_x, anchor_y, anchor_width, anchor_height },
                }
            },
            Message::PopupClosed(popup_id) => {
                match self.popup {
                    Some(open) => if open == popup_id {
                        self.popup = None;
                        Effect::PopupClosed
                    } else {
                        Effect::Nothing
                    },
                    None => Effect::Nothing,
                }
            },
            Message::NowPlayingChanged(data) => {
                self.apply_now_playing(data);
                Effect::Nothing
            },
            Message::PreviousTrack => self.to_player(PlayerRequest::Previous),
            Message::TogglePlayPause => self.to_player(PlayerRequest::PlayPause),
            Message::NextTrack => self.to_player(PlayerRequest::Next),
            Message::SelectSource(bus_name) => Effect::Player {
                bus_name,
                request: PlayerRequest::ShowSource,
            },
            Message::ToggleShuffle => self.to_player(PlayerRequest::ToggleShuffle),
            Message::CycleLoop => self.to_player(PlayerRequest::CycleLoop),
            Message::Seek(offset) => self.to_player(PlayerRequest::Seek(offset)),
            Message::SeekTo(seconds) => {
                let offset = seek_offset(seconds, self.position_seconds);
                self.to_player(PlayerRequest::Seek(offset))
            },
        }
    }

    /// Records the popup that was just opened.
    pub fn popup_opened(&mut self, id: PopupId)
        ensures
            *final(self) == (Window { popup: Some(id), ..*old(self) }),
    {
        self.popup = Some(id);
    }

    /// Takes in a player's answer; says whether a refresh of the snapshot
    /// is to be asked for. A successful play/pause flips the shown state at
    /// once; a confirmed shuffle or repeat change is shown at once; the
    /// picked source's snapshot is shown.
    pub fn answer(&mut self, reply: PlayerReply) -> (refresh: bool)
        ensures
            match reply {
                PlayerReply::Previous(ok) => refresh == ok && *final(self) == *old(self),
                PlayerReply::Next(ok) => refresh == ok && *final(self) == *old(self),
                PlayerReply::PlayPause(ok) => {
                    &&& refresh == ok
                    &&& ok ==> *final(self) == (Window {
                        playback_state: spec_after_play_pause(old(self).playback_state),
                        ..*old(self)
                    })
                    &&& !ok ==> *final(self) == *old(self)
                },
                PlayerReply::Shuffle(v) => match v {
                    Some(s) => refresh && *final(self) == (Window { shuffle: s, ..*old(self) }),
                    None => !refresh && *final(self) == *old(self),
                },
                PlayerReply::Loop(v) => match v {
                    Some(l) => refresh && *final(self) == (Window {
                        loop_status: Some(l),
                        ..*old(self)
                    }),
                    None => !refresh && *final(self) == *old(self),
                },
                PlayerReply::Source(d) => !refresh && match d {
                    Some(data) => final(self).popup == old(self).popup && shows(*final(self), data),
                    None => *final(self) == *old(self),
                },
                PlayerReply::Seeked => !refresh && *final(self) == *old(self),
            },
    {
        match reply {
            PlayerReply::Previous(ok) => ok,
            PlayerReply::Next(ok) => ok,
            PlayerReply::PlayPause(ok) => {
                if ok {
                    self.playback_state = match self.playback_state {
                        PlaybackState::Playing => PlaybackState::Paused,
                        PlaybackState::Paused | PlaybackState::Stopped | PlaybackState::Unknown => {
                            PlaybackState::Playing
                        },
                    };
                }
                ok
            },
            PlayerReply::Shuffle(v) => match v {
                Some(s) => {
                    self.shuffle = s;
                    true
                },
                None => false,
            },
            PlayerReply::Loop(v) => match v {
                Some(l) => {
                    self.loop_status = Some(l);
                    true
                },
                None => false,
            },
            PlayerReply::Source(d) => {
                if let Some(data) = d {
                    self.apply_now_playing(data);
                }
                false
            },
            PlayerReply::Seeked => false,
        }
    }

    /// Follows the source on `bus_name` that the user picked, and shows it at
    /// once: `read` reads that player (`None` when it is gone), the cover of
    /// its track is found with `download` and measured with `measure`, and its
    /// snapshot, with the position and the sources shown now, replaces what is
    /// shown. A source that is gone leaves the window as it is; it stays
    /// picked either way.
    pub fn show_source<
        F: FnOnce(String) -> Option<PlayerDetails>,
        D: FnOnce(String) -> Option<Vec<u8>>,
        M: FnOnce(&Vec<u8>) -> Option<(u32, u32)>,
    >(
        &mut self,
        selection: &mut PlayerSelection,
        bus_name: String,
        labels: &NowPlayingLabels,
        read: F,
        download: D,
        measure: M,
    )
        requires
            call_requires(read, (bus_name,)),
            forall|u: String| call_requires(download, (u,)),
            forall|p: &Vec<u8>| call_requires(measure, (p,)),
        ensures
            final(selection).selected matches Some(b) && b@ == bus_name@,
            exists|out: Option<PlayerDetails>|
                #[trigger] call_ensures(read, (bus_name,), out) && match out {
                    None => *final(self) == *old(self),
                    Some(details) => {
                        &&& final(self).popup == old(self).popup
                        &&& shows_snapshot_of(
                            *final(self),
                            details,
                            sources_view(old(self).sources@),
                            true,
                            *labels,
                            download,
                            measure,
                        )
                    },
                },
    {
        select_player(selection, bus_name.clone());
        let found = read(bus_name);
        let ghost mut witness: NowPlayingData = vstd::pervasive::arbitrary();
        let data = match &found {
            None => None,
            Some(details) => {
                let sources = copy_sources(&self.sources);
                let data = now_playing_from_details(details, sources, true, labels, download, measure);
                proof {
                    witness = data;
                }
                Some(data)
            },
        };
        self.answer(PlayerReply::Source(data));
        proof {
            if found is Some {
                assert(shows(*self, witness));
            }
        }
    }
}

/// `w` shows the snapshot of the player read as `details`, offering
/// `sources`, with the cover of its track found by `download` and measured
/// by `measure`.
pub open spec fn shows_snapshot_of<
    D: FnOnce(String) -> Option<Vec<u8>>,
    M: FnOnce(&Vec<u8>) -> Option<(u32, u32)>,
>(
    w: Window,
    details: PlayerDetails,
    sources: Seq<(Seq<char>, Seq<char>)>,
    include_position: bool,
    labels: NowPlayingLabels,
    download: D,
    measure: M,
) -> bool {
    exists|d: NowPlayingData|
        #[trigger] shows(w, d) && is_snapshot_with_cover(
            d,
            details,
            sources,
            include_position,
            labels,
            download,
            measure,
        )
}

/// A copy of the sources `v`.
fn copy_sources(v: &Vec<(String, String)>) -> (r: Vec<(String, String)>)
    ensures
        sources_view(r@) == sources_view(v@),
{
    let mut r: Vec<(String, String)> = Vec::new();
    let mut i: usize = 0;
    while i < v.len()
        invariant
            i <= v@.len(),
            r@.len() == i,
            forall|k: int|
                #![trigger r@[k]]
                0 <= k < i ==> r@[k].0@ == v@[k].0@ && r@[k].1@ == v@[k].1@,
        decreases v@.len() - i,
    {
        r.push((v[i].0.clone(), v[i].1.clone()));
        i = i + 1;
    }
    assert(sources_view(r@) =~= sources_view(v@));
    r
}

/// `seconds` as minutes and two-digit seconds, such as `3:07`.
pub open spec fn spec_format_duration(seconds: u64) -> Seq<char> {
    decimal((seconds / 60) as nat) + ":"@ + two_digits((seconds % 60) as nat)
}

/// Renders a duration for the progress line.
pub fn format_duration(seconds: u64) -> (r: String)
    ensures
        r@ == spec_format_duration(seconds),
{
    let mut out = String::new();
    push_decimal(&mut out, seconds / 60);
    out.append(":");
    push_two_digits(&mut out, seconds % 60);
    out
}


/// The icon of the play/pause control: pause while playing, else play.
pub open spec fn spec_transport_icon(state: PlaybackState) -> Seq<char> {
    match state {
        PlaybackState::Playing => "media-playback-pause-symbolic"@,
        _ => "media-playback-start-symbolic"@,
    }
}

/// The icon of the play/pause control in `state`.
pub fn transport_icon(state: PlaybackState) -> (r: &'static str)
    ensures
        r@ == spec_transport_icon(state),
{
    match state {
        PlaybackState::Playing => "media-playback-pause-symbolic",
        PlaybackState::Paused | PlaybackState::Stopped | PlaybackState::Unknown => {
            "media-playback-start-symbolic"
        },
    }
}

/// The mark on the repeat control: `1` while one track repeats.
pub open spec fn spec_loop_marker(status: LoopStatus) -> Seq<char> {
    if status == LoopStatus::Track {
        "1"@
    } else {
        ""@
    }
}

fn copy_bytes(v: &Vec<u8>) -> (r: Vec<u8>)
    ensures
        r@ == v@,
{
    let mut r: Vec<u8> = Vec::new();
    let mut i: usize = 0;
    while i < v.len()
        invariant
            i <= v@.len(),
            r@ == v@.take(i as int),
        decreases v@.len() - i,
    {
        r.push(v[i]);
        i = i + 1;
        assert(r@ =~= v@.take(i as int));
    }
    assert(v@.take(i as int) =~= v@);
    r
}

fn copy_path(p: &Option<Vec<u8>>) -> (r: Option<Vec<u8>>)
    ensures
        crate::artwork::bytes_of(r) == crate::artwork::bytes_of(*p),
{
    match p {
        Some(v) => Some(copy_bytes(v)),
        None => None,
    }
}

/// What the panel card shows.
pub struct PanelView {
    /// Whether the card is shown at all (only while a track is followed).
    pub visible: bool,
    pub player_icon: &'static str,
    pub transport_icon: &'static str,
    /// The cover's path (raw bytes), if any.
    pub art_path: Option<Vec<u8>>,
    pub title: String,
    /// The artist, or the album when the artist is empty.
    pub artist_line: String,
    pub previous_enabled: bool,
    pub next_enabled: bool,
}

/// One button of the popup's source picker.
pub struct SourceButton {
    pub bus_name: String,
    /// The source's name, marked with a bullet when it is the followed one.
    pub label: String,
    /// Whether this is the followed source.
    pub current: bool,
}

/// What the popup shows.
pub struct PopupView {
    pub visible: bool,
    pub transport_icon: &'static str,
    pub art_path: Option<Vec<u8>>,
    pub title: String,
    pub artist: String,
    pub album: String,
    pub previous_enabled: bool,
    pub next_enabled: bool,
    pub seek_enabled: bool,
    /// Position and duration, such as `1:05  /  3:07`.
    pub progress_text: String,
    /// The slider's (position, duration) in seconds when it can seek; the
    /// position is capped at the duration.
    pub slider: Option<(u64, u64)>,
    pub shuffle_enabled: bool,
    pub shuffle_active: bool,
    pub loop_enabled: bool,
    pub loop_active: bool,
    pub loop_marker: &'static str,
    pub sources: Vec<SourceButton>,
}

/// The label of a source button.
pub open spec fn spec_source_label(name: Seq<char>, current: bool) -> Seq<char> {
    if current {
        "\u{2022} "@ + name
    } else {
        name
    }
}

/// The progress line for `position` of `duration` seconds (unknown ones as 0).
pub open spec fn spec_progress_text(position: Option<u64>, duration: Option<u64>) -> Seq<char> {
    let p = match position {
        Some(v) => v,
        None => 0,
    };
    let d = match duration {
        Some(v) => v,
        None => 0,
    };
    spec_format_duration(p) + "  /  "@ + spec_format_duration(d)
}

impl Window {
    /// What the panel card shows: the player's icon, the cover, the title,
    /// the artist (or the album) and the transport controls that the player
    /// supports; nothing while no track is followed.
    pub fn view(&self) -> (r: PanelView)
        ensures
            r.visible == self.has_active_media,
            r.player_icon@ == spec_player_icon_name(self.player_bus_name@),
            r.transport_icon@ == spec_transport_icon(self.playback_state),
            crate::artwork::bytes_of(r.art_path) == crate::artwork::bytes_of(self.album_art_path),
            r.title@ == self.now_playing_title@,
            r.artist_line@ == if self.now_playing_artist@.len() == 0 {
                self.now_playing_album@
            } else {
                self.now_playing_artist@
            },
            r.previous_enabled == self.can_go_previous,
            r.next_enabled == self.can_go_next,
    {
        let artist_line = if self.now_playing_artist.as_str().is_empty() {
            self.now_playing_album.clone()
        } else {
            self.now_playing_artist.clone()
        };
        PanelView {
            visible: self.has_active_media(),
            player_icon: player_icon_name(self.player_bus_name.as_str()),
            transport_icon: transport_icon(self.playback_state),
            art_path: copy_path(&self.album_art_path),
            title: self.now_playing_title.clone(),
            artist_line,
            previous_enabled: self.can_go_previous,
            next_enabled: self.can_go_next,
        }
    }

    /// What the popup shows: the source picker (the followed source marked),
    /// the cover, title, artist and album, the progress line and slider,
    /// the transport controls and the shuffle and repeat modes.
    pub fn view_window(&self) -> (r: PopupView)
        ensures
            r.visible == self.has_active_media,
            r.transport_icon@ == spec_transport_icon(self.playback_state),
            crate::artwork::bytes_of(r.art_path) == crate::artwork::bytes_of(self.album_art_path),
            r.title@ == self.now_playing_title@,
            r.artist@ == self.now_playing_artist@,
            r.album@ == self.now_playing_album@,
            r.previous_enabled == self.can_go_previous,
            r.next_enabled == self.can_go_next,
            r.seek_enabled == self.can_seek,
            r.progress_text@ == spec_progress_text(self.position_seconds, self.duration_seconds),
            r.slider == {
                let p: u64 = match self.position_seconds {
                    Some(v) => v,
                    None => 0,
                };
                let d: u64 = match self.duration_seconds {
                    Some(v) => v,
                    None => 0,
                };
                if self.can_seek && d > 0 {
                    Some((if p <= d { p } else { d }, d))
                } else {
                    None::<(u64, u64)>
                }
            },
            r.shuffle_enabled == self.can_shuffle,
            r.shuffle_active == self.shuffle,
            r.loop_enabled == self.can_loop,
            r.loop_active == (match self.loop_status {
                Some(l) => l,
                None => LoopStatus::NoLoop,
            } != LoopStatus::NoLoop),
            r.loop_marker@ == spec_loop_marker(
                match self.loop_status {
                    Some(l) => l,
                    None => LoopStatus::NoLoop,
                },
            ),
            r.sources@.len() == self.sources@.len(),
            forall|i: int|
                #![trigger r.sources@[i]]
                0 <= i < self.sources@.len() ==> {
                    &&& r.sources@[i].bus_name@ == self.sources@[i].0@
                    &&& r.sources@[i].current == (self.sources@[i].0@ == self.player_bus_name@)
                    &&& r.sources@[i].label@ == spec_source_label(
                        self.sources@[i].1@,
                        r.sources@[i].current,
                    )
                },
    {
        proof {
            reveal_strlit("1");
            reveal_strlit("");
        }
        let position = match self.position_seconds {
            Some(v) => v,
            None => 0,
        };
        let duration = match self.duration_seconds {
            Some(v) => v,
            None => 0,
        };
        let mut progress_text = format_duration(position);
        progress_text.append("  /  ");
        let total = format_duration(duration);
        progress_text.append(total.as_str());
        let slider = if self.can_seek && duration > 0 {
            Some((if position <= duration { position } else { duration }, duration))
        } else {
            None
        };
        let loop_status = match self.loop_status {
            Some(l) => l,
            None => LoopStatus::NoLoop,
        };
        let loop_marker = if loop_status == LoopStatus::Track {
            "1"
        } else {
            ""
        };
        let mut sources: Vec<SourceButton> = Vec::new();
        let mut i: usize = 0;
        while i < self.sources.len()
            invariant
                i <= self.sources@.len(),
                sources@.len() == i,
                forall|k: int|
                    #![trigger sources@[k]]
                    0 <= k < i ==> {
                        &&& sources@[k].bus_name@ == self.sources@[k].0@
                        &&& sources@[k].current == (self.sources@[k].0@ == self.player_bus_name@)
                        &&& sources@[k].label@ == spec_source_label(
                            self.sources@[k].1@,
                            sources@[k].current,
                        )
                    },
            decreases self.sources@.len() - i,
        {
            let current = self.sources[i].0 == self.player_bus_name;
            let label = if current {
                let mut l = String::new();
                l.append("\u{2022} ");
                l.append(self.sources[i].1.as_str());
                assert(l@ =~= spec_source_label(self.sources@[i as int].1@, true));
                l
            } else {
                self.sources[i].1.clone()
            };
            sources.push(SourceButton { bus_name: self.sources[i].0.clone(), label, current });
            i = i + 1;
        }
        PopupView {
            visible: self.has_active_media(),
            transport_icon: transport_icon(self.playback_state),
            art_path: copy_path(&self.album_art_path),
            title: self.now_playing_title.clone(),
            artist: self.now_playing_artist.clone(),
            album: self.now_playing_album.clone(),
            previous_enabled: self.can_go_previous,
            next_enabled: self.can_go_next,
            seek_enabled: self.can_seek,
            progress_text,
            slider,
            shuffle_enabled: self.can_shuffle,
            shuffle_active: self.shuffle,
            loop_enabled: self.can_loop,
            loop_active: loop_status != LoopStatus::NoLoop,
            loop_marker,
            sources,
        }
    }
}

/// Each control goes to the followed player as its own request: the
/// previous, play/pause and next buttons as previous, play/pause and next,
/// the mode buttons as the shuffle and repeat changes, a seek by an offset
/// as that offset, and a seek to a second as the offset from the shown
/// position; distinct controls make distinct requests.
pub proof fn law_controls_reach_the_player(position: Option<u64>, offset: i64, seconds: u64)
    ensures
        spec_player_request(Message::PreviousTrack, position) == Some(PlayerRequest::Previous),
        spec_player_request(Message::TogglePlayPause, position) == Some(PlayerRequest::PlayPause),
        spec_player_request(Message::NextTrack, position) == Some(PlayerRequest::Next),
        spec_player_request(Message::ToggleShuffle, position) == Some(
            PlayerRequest::ToggleShuffle,
        ),
        spec_player_request(Message::CycleLoop, position) == Some(PlayerRequest::CycleLoop),
        spec_player_request(Message::Seek(offset), position) == Some(PlayerRequest::Seek(offset)),
        spec_player_request(Message::SeekTo(seconds), position) == Some(
            PlayerRequest::Seek(spec_seek_offset(seconds, position)),
        ),
        PlayerRequest::Previous != PlayerRequest::Next,
        PlayerRequest::Previous != PlayerRequest::PlayPause,
        PlayerRequest::PlayPause != PlayerRequest::Next,
        PlayerRequest::ToggleShuffle != PlayerRequest::CycleLoop,
{
}

/// A seek to a second at or before the shown position (0 when unknown)
/// does not move; one after it moves forward by the difference, in
/// microseconds, saturated to `i64`; a later target never moves less.
pub proof fn law_seek_offsets(seconds: u64, later: u64, current: u64)
    ensures
        spec_seek_offset(seconds, None) == spec_seek_offset(seconds, Some(0)),
        seconds <= current ==> spec_seek_offset(seconds, Some(current)) == 0,
        current < seconds && seconds - current <= 9_223_372_036_854 ==> spec_seek_offset(
            seconds,
            Some(current),
        ) == (seconds - current) * 1_000_000,
        current < seconds && seconds - current > 9_223_372_036_854 ==> spec_seek_offset(
            seconds,
            Some(current),
        ) == i64::MAX,
        seconds <= later ==> spec_seek_offset(seconds, Some(current)) <= spec_seek_offset(
            later,
            Some(current),
        ),
{
    if seconds <= later && current < seconds {
        assert((seconds - current) * 1_000_000 <= (later - current) * 1_000_000) by (nonlinear_arith)
            requires
                current < seconds <= later,
        ;
    }
}

/// A successful play/pause shows a playing player as paused, and any other
/// as playing.
pub proof fn law_play_pause_flips(state: PlaybackState)
    ensures
        state == PlaybackState::Playing ==> spec_after_play_pause(state) == PlaybackState::Paused,
        state != PlaybackState::Playing ==> spec_after_play_pause(state) == PlaybackState::Playing,
{
}

/// The play/pause control shows the pause icon exactly while the player
/// plays, and the play icon otherwise.
pub proof fn law_transport_icon(state: PlaybackState)
    ensures
        spec_transport_icon(state) == "media-playback-pause-symbolic"@ <==> state
            == PlaybackState::Playing,
        state != PlaybackState::Playing ==> spec_transport_icon(state)
            == "media-playback-start-symbolic"@,
{
    reveal_strlit("media-playback-pause-symbolic");
    reveal_strlit("media-playback-start-symbolic");
    assert("media-playback-pause-symbolic"@[15] != "media-playback-start-symbolic"@[15]);
}

/// The repeat control carries the repeat-one mark exactly while one track
/// repeats, and no mark otherwise.
pub proof fn law_loop_marker(status: LoopStatus)
    ensures
        spec_loop_marker(status) == "1"@ <==> status == LoopStatus::Track,
        status != LoopStatus::Track ==> spec_loop_marker(status) == ""@,
{
    reveal_strlit("1");
    reveal_strlit("");
    assert("1"@.len() != ""@.len());
}

/// A rendered duration reads back as the duration: the digits before the
/// colon are the whole minutes (no leading zero), and the two digits after
/// it are the remaining seconds.
pub proof fn law_durations_read_back(seconds: u64)
    ensures
        ({
            let r = spec_format_duration(seconds);
            let minutes = r.take(r.len() - 3);
            &&& r.len() >= 4
            &&& r[r.len() - 3] == ':'
            &&& decimal_value(minutes) == seconds / 60
            &&& minutes.len() > 1 ==> minutes[0] != '0'
            &&& (r[r.len() - 2] as int - 48) * 10 + (r[r.len() - 1] as int - 48) == seconds % 60
            &&& 0 <= r[r.len() - 2] as int - 48 <= 9
            &&& 0 <= r[r.len() - 1] as int - 48 <= 9
        }),
{
    reveal_strlit(":");
    let m = (seconds / 60) as nat;
    let sec = (seconds % 60) as nat;
    lemma_decimal_reads_back(m);
    let r = spec_format_duration(seconds);
    let d = decimal(m);
    assert(r.take(r.len() - 3) =~= d);
    assert(r[r.len() - 3] == ':');
    assert(r[r.len() - 2] == digit_char(sec / 10));
    assert(r[r.len() - 1] == digit_char(sec % 10));
    assert(digit_char(sec / 10) as u32 == 48 + sec / 10);
    assert(digit_char(sec % 10) as u32 == 48 + sec % 10);
}

/// The followed source's button carries a bullet and a space before its
/// name; every other button shows the bare name.
pub proof fn law_source_labels(name: Seq<char>, current: bool)
    ensures
        current ==> spec_source_label(name, current) == seq!['\u{2022}', ' '] + name,
        !current ==> spec_source_label(name, current) == name,
{
    reveal_strlit("\u{2022} ");
    assert("\u{2022} "@ =~= seq!['\u{2022}', ' ']);
}

} // verus!
