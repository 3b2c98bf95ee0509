//! Which MPRIS player the applet follows, and what it asks of it.

use vstd::prelude::*;

use crate::text::{
    ascii_bytes, contains_bytes, contains_ignoring_ascii_case, first_match, is_first_match,
    lemma_first_match_at, lemma_first_match_exists, lemma_first_match_none, literal_bytes,
    lowercase_bytes, utf8_bytes,
};
use crate::metadata::PlayerDetails;
use crate::window::PlaybackState;

verus! {

/// A player's own report of its playback, as MPRIS names it.
#[derive(Clone, Copy, Debug, PartialEq, Eq, Structural)]
pub enum PlaybackStatus {
    Playing,
    Paused,
    Stopped,
}

/// A player's repeat mode, as MPRIS names it.
#[derive(Clone, Copy, Debug, PartialEq, Eq, Structural)]
pub enum LoopStatus {
    NoLoop,
    Track,
    Playlist,
}

/// `word` occurs in the ASCII lower-cased bus name.
pub open spec fn mentions(bus_name: Seq<char>, word: Seq<char>) -> bool {
    contains_bytes(lowercase_bytes(utf8_bytes(bus_name)), ascii_bytes(word))
}

/// 0 for a dedicated music player, 2 for a web browser, 1 for anything else.
pub open spec fn spec_player_rank(bus_name: Seq<char>) -> u8 {
    if mentions(bus_name, "spotify"@) {
        0
    } else if mentions(bus_name, "chromium"@) || mentions(bus_name, "chrome"@) || mentions(
        bus_name,
        "firefox"@,
    ) || mentions(bus_name, "brave"@) || mentions(bus_name, "vivaldi"@) {
        2
    } else {
        1
    }
}

/// The icon name the panel shows for a player.
pub open spec fn spec_player_icon_name(bus_name: Seq<char>) -> Seq<char> {
    if mentions(bus_name, "spotify"@) {
        "spotify-launcher"@
    } else if mentions(bus_name, "chromium"@) || mentions(bus_name, "chrome"@) {
        "google-chrome"@
    } else if mentions(bus_name, "firefox"@) {
        "firefox"@
    } else {
        "audio-x-generic-symbolic"@
    }
}

/// Whether the ASCII word `word` occurs in the bus name, ignoring ASCII case.
fn bus_mentions(bus_name: &str, word: &str) -> (r: bool)
    requires
        vstd::string::is_ascii(word),
    ensures
        r == mentions(bus_name@, word@),
{
    contains_ignoring_ascii_case(bus_name.as_bytes(), literal_bytes(word))
}

/// 0 = preferred music player, 1 = anything else, 2 = a browser.
pub fn player_rank(bus_name: &str) -> (r: u8)
    ensures
        r == spec_player_rank(bus_name@),
{
    proof {
        reveal_strlit("spotify");
        reveal_strlit("chromium");
        reveal_strlit("chrome");
        reveal_strlit("firefox");
        reveal_strlit("brave");
        reveal_strlit("vivaldi");
    }
    if bus_mentions(bus_name, "spotify") {
        0
    } else if bus_mentions(bus_name, "chromium") || bus_mentions(bus_name, "chrome")
        || bus_mentions(bus_name, "firefox") || bus_mentions(bus_name, "brave")
        || bus_mentions(bus_name, "vivaldi") {
        2
    } else {
        1
    }
}

/// The icon the panel shows beside the track of the player on `bus_name`.
pub fn player_icon_name(bus_name: &str) -> (r: &'static str)
    ensures
        r@ == spec_player_icon_name(bus_name@),
{
    proof {
        reveal_strlit("spotify");
        reveal_strlit("chromium");
        reveal_strlit("chrome");
        reveal_strlit("firefox");
    }
    if bus_mentions(bus_name, "spotify") {
        "spotify-launcher"
    } else if bus_mentions(bus_name, "chromium") || bus_mentions(bus_name, "chrome") {
        "google-chrome"
    } else if bus_mentions(bus_name, "firefox") {
        "firefox"
    } else {
        "audio-x-generic-symbolic"
    }
}


/// What the applet reads of one player while choosing which one to follow:
/// its bus name and identity, its playback status (`None` when the player
/// did not answer) and whether it publishes non-empty track metadata.
pub struct PlayerInfo {
    pub bus_name: String,
    pub identity: String,
    pub status: Option<PlaybackStatus>,
    pub has_track: bool,
}

/// The source the user picked in the popup, if any.
pub struct PlayerSelection {
    pub selected: Option<String>,
}

impl PlayerSelection {
    /// No source picked yet: the applet follows the active player.
    pub fn new() -> (r: Self)
        ensures
            r.selected is None,
    {
        PlayerSelection { selected: None }
    }
}

/// The slot that holds the source the user picked.
pub fn selected_player_slot(selection: &PlayerSelection) -> (r: &Option<String>)
    ensures
        *r == selection.selected,
{
    &selection.selected
}

/// Remembers `bus_name` as the source the user picked.
pub fn select_player(selection: &mut PlayerSelection, bus_name: String)
    ensures
        final(selection).selected == Some(bus_name),
{
    selection.selected = Some(bus_name);
}

/// The player on the bus `bus_name`.
pub open spec fn on_bus(bus_name: Seq<char>) -> spec_fn(PlayerInfo) -> bool {
    |p: PlayerInfo| p.bus_name@ == bus_name
}

/// The properties by which the applet looks for a player.
#[derive(Clone, Copy, Debug, PartialEq, Eq, Structural)]
pub enum Criterion {
    /// A preferred music player that has a track loaded.
    PreferredWithTrack,
    /// A player that is playing.
    Playing,
    /// A player that is paused.
    Paused,
    /// A player that has a track loaded.
    WithTrack,
}

/// Whether `p` has the property `c`.
pub open spec fn meets(c: Criterion) -> spec_fn(PlayerInfo) -> bool {
    |p: PlayerInfo|
        match c {
            Criterion::PreferredWithTrack => spec_player_rank(p.bus_name@) == 0 && p.has_track,
            Criterion::Playing => p.status == Some(PlaybackStatus::Playing),
            Criterion::Paused => p.status == Some(PlaybackStatus::Paused),
            Criterion::WithTrack => p.has_track,
        }
}

/// The players of `s` of rank `r`, in their order in `s`.
pub open spec fn with_rank(s: Seq<PlayerInfo>, r: u8) -> Seq<PlayerInfo>
    decreases s.len(),
{
    if s.len() == 0 {
        Seq::empty()
    } else if spec_player_rank(s.last().bus_name@) == r {
        with_rank(s.drop_last(), r).push(s.last())
    } else {
        with_rank(s.drop_last(), r)
    }
}

/// The players the applet may follow when no source is picked: the players
/// that are not browsers, ordered by rank (players of one rank keep their
/// order); browsers only when there is nothing else.
pub open spec fn candidates(s: Seq<PlayerInfo>) -> Seq<PlayerInfo> {
    let others = with_rank(s, 0) + with_rank(s, 1);
    if others.len() > 0 {
        others
    } else {
        with_rank(s, 2)
    }
}

/// MPRIS' active-player preference over `s`: the first playing player, else
/// the first paused one, else the first with a track, else the first player.
pub open spec fn active_player(s: Seq<PlayerInfo>) -> Option<PlayerInfo> {
    if first_match(s, meets(Criterion::Playing)) is Some {
        first_match(s, meets(Criterion::Playing))
    } else if first_match(s, meets(Criterion::Paused)) is Some {
        first_match(s, meets(Criterion::Paused))
    } else if first_match(s, meets(Criterion::WithTrack)) is Some {
        first_match(s, meets(Criterion::WithTrack))
    } else if s.len() > 0 {
        Some(s[0])
    } else {
        None
    }
}

/// The player followed when no picked source applies: a preferred music
/// player with a track wins; otherwise the active-player preference over the
/// candidates, so that a browser is followed only when no other player is there.
pub open spec fn preferred_or_active(players: Seq<PlayerInfo>) -> Option<PlayerInfo> {
    let c = candidates(players);
    if first_match(c, meets(Criterion::PreferredWithTrack)) is Some {
        first_match(c, meets(Criterion::PreferredWithTrack))
    } else {
        active_player(c)
    }
}

/// The picked source among `players`, if one is picked and still present.
pub open spec fn picked_player(players: Seq<PlayerInfo>, selected: Option<String>) -> Option<
    PlayerInfo,
> {
    match selected {
        Some(b) => first_match(players, on_bus(b@)),
        None => None,
    }
}

/// The items of `s` at the indices `idx`, in that order.
pub open spec fn pick(s: Seq<PlayerInfo>, idx: Seq<usize>) -> Seq<PlayerInfo> {
    idx.map_values(|k: usize| s[k as int])
}

/// Whether `p` has the property `c`.
fn player_meets(p: &PlayerInfo, rank: u8, c: Criterion) -> (r: bool)
    requires
        rank == spec_player_rank(p.bus_name@),
    ensures
        r == meets(c)(*p),
{
    match c {
        Criterion::PreferredWithTrack => rank == 0 && p.has_track,
        Criterion::Playing => match p.status {
            Some(PlaybackStatus::Playing) => true,
            _ => false,
        },
        Criterion::Paused => match p.status {
            Some(PlaybackStatus::Paused) => true,
            _ => false,
        },
        Criterion::WithTrack => p.has_track,
    }
}

/// The position in `order` of the first listed player with property `c`.
fn first_in_order(players: &Vec<PlayerInfo>, ranks: &Vec<u8>, order: &Vec<usize>, c: Criterion) -> (r:
    Option<usize>)
    requires
        ranks@.len() == players@.len(),
        forall|k: int|
            0 <= k < players@.len() ==> #[trigger] ranks@[k] == spec_player_rank(
                players@[k].bus_name@,
            ),
        forall|j: int| 0 <= j < order@.len() ==> #[trigger] order@[j] < players@.len(),
    ensures
        match r {
            Some(j) => is_first_match(pick(players@, order@), meets(c), j as int),
            None => first_match(pick(players@, order@), meets(c)) is None,
        },
{
    let ghost ranked = pick(players@, order@);
    let mut j: usize = 0;
    while j < order.len()
        invariant
            ranked == pick(players@, order@),
            ranks@.len() == players@.len(),
            forall|k: int|
                0 <= k < players@.len() ==> #[trigger] ranks@[k] == spec_player_rank(
                    players@[k].bus_name@,
                ),
            forall|i: int| 0 <= i < order@.len() ==> #[trigger] order@[i] < players@.len(),
            j <= order@.len(),
            forall|i: int| 0 <= i < j ==> !meets(c)(#[trigger] ranked[i]),
        decreases order@.len() - j,
    {
        let k = order[j];
        if player_meets(&players[k], ranks[k], c) {
            assert(ranked[j as int] == players@[k as int]);
            return Some(j);
        }
        assert(ranked[j as int] == players@[k as int]);
        j = j + 1;
    }
    proof {
        lemma_first_match_none(ranked, meets(c));
    }
    None
}

/// The index of the first player on the bus `bus_name`.
fn position_on_bus(players: &Vec<PlayerInfo>, bus_name: &String) -> (r: Option<usize>)
    ensures
        match r {
            Some(i) => is_first_match(players@, on_bus(bus_name@), i as int),
            None => first_match(players@, on_bus(bus_name@)) is None,
        },
{
    let mut i: usize = 0;
    while i < players.len()
        invariant
            i <= players@.len(),
            forall|j: int| 0 <= j < i ==> !on_bus(bus_name@)(#[trigger] players@[j]),
        decreases players@.len() - i,
    {
        if players[i].bus_name == *bus_name {
            return Some(i);
        }
        i = i + 1;
    }
    proof {
        lemma_first_match_none(players@, on_bus(bus_name@));
    }
    None
}

/// The index of the first bus name in `bus_names` equal to `bus_name`.
pub fn find_player(bus_names: &Vec<String>, bus_name: &String) -> (r: Option<usize>)
    ensures
        match r {
            Some(i) => i < bus_names@.len() && bus_names@[i as int]@ == bus_name@ && forall|j: int|
                0 <= j < i ==> #[trigger] bus_names@[j]@ != bus_name@,
            None => forall|j: int| 0 <= j < bus_names@.len() ==> #[trigger] bus_names@[j]@ != bus_name@,
        },
{
    let mut i: usize = 0;
    while i < bus_names.len()
        invariant
            i <= bus_names@.len(),
            forall|j: int| 0 <= j < i ==> #[trigger] bus_names@[j]@ != bus_name@,
        decreases bus_names@.len() - i,
    {
        if bus_names[i] == *bus_name {
            return Some(i);
        }
        i = i + 1;
    }
    None
}


/// Appends to `order` the indices of the players of rank `r`, in their order.
fn append_rank(players: &Vec<PlayerInfo>, ranks: &Vec<u8>, order: &mut Vec<usize>, r: u8)
    requires
        ranks@.len() == players@.len(),
        forall|k: int|
            0 <= k < players@.len() ==> #[trigger] ranks@[k] == spec_player_rank(
                players@[k].bus_name@,
            ),
        forall|j: int| 0 <= j < old(order)@.len() ==> #[trigger] old(order)@[j] < players@.len(),
    ensures
        pick(players@, final(order)@) == pick(players@, old(order)@) + with_rank(players@, r),
        forall|j: int| 0 <= j < final(order)@.len() ==> #[trigger] final(order)@[j] < players@.len(),
{
    let ghost start = order@;
    let mut i: usize = 0;
    while i < players.len()
        invariant
            ranks@.len() == players@.len(),
            forall|k: int|
                0 <= k < players@.len() ==> #[trigger] ranks@[k] == spec_player_rank(
                    players@[k].bus_name@,
                ),
            i <= players@.len(),
            pick(players@, order@) == pick(players@, start) + with_rank(players@.take(i as int), r),
            forall|j: int| 0 <= j < order@.len() ==> #[trigger] order@[j] < players@.len(),
        decreases players@.len() - i,
    {
        let ghost before = order@;
        assert(players@.take(i + 1).drop_last() =~= players@.take(i as int));
        assert(players@.take(i + 1).last() == players@[i as int]);
        if ranks[i] == r {
            order.push(i);
            assert(pick(players@, order@) =~= pick(players@, before).push(players@[i as int]));
        }
        i = i + 1;
    }
    assert(players@.take(players@.len() as int) =~= players@);
}

/// The indices of the candidates among `players`, in candidate order.
fn candidate_order(players: &Vec<PlayerInfo>, ranks: &Vec<u8>) -> (order: Vec<usize>)
    requires
        ranks@.len() == players@.len(),
        forall|k: int|
            0 <= k < players@.len() ==> #[trigger] ranks@[k] == spec_player_rank(
                players@[k].bus_name@,
            ),
    ensures
        pick(players@, order@) == candidates(players@),
        forall|j: int| 0 <= j < order@.len() ==> #[trigger] order@[j] < players@.len(),
{
    let mut order: Vec<usize> = Vec::new();
    assert(pick(players@, order@) =~= Seq::empty());
    append_rank(players, ranks, &mut order, 0);
    append_rank(players, ranks, &mut order, 1);
    assert(pick(players@, order@) =~= with_rank(players@, 0) + with_rank(players@, 1));
    if order.len() > 0 {
        return order;
    }
    let mut browsers: Vec<usize> = Vec::new();
    assert(pick(players@, browsers@) =~= Seq::empty());
    append_rank(players, ranks, &mut browsers, 2);
    assert(pick(players@, browsers@) =~= with_rank(players@, 2));
    browsers
}

/// Selects the explicitly chosen source when it still exists; otherwise
/// forgets the choice and follows the preference: a preferred music player
/// with a track, else MPRIS' active-player order (playing, paused, with a
/// track, first player) over the players that are not browsers, ordered by
/// rank; browsers only when nothing else is available.
pub fn find_selected_or_active_from_players(
    players: Vec<PlayerInfo>,
    selection: &mut PlayerSelection,
) -> (r: Option<PlayerInfo>)
    ensures
        picked_player(players@, old(selection).selected) is Some ==> {
            &&& r == picked_player(players@, old(selection).selected)
            &&& *final(selection) == *old(selection)
        },
        picked_player(players@, old(selection).selected) is None ==> {
            &&& r == preferred_or_active(players@)
            &&& final(selection).selected is None
        },
{
    let mut players = players;
    let ghost all = players@;
    let found = match &selection.selected {
        Some(bus_name) => position_on_bus(&players, bus_name),
        None => None,
    };
    if let Some(i) = found {
        proof {
            lemma_first_match_at(all, on_bus(selection.selected->0@), i as int);
        }
        return Some(players.remove(i));
    }
    selection.selected = None;

    let mut ranks: Vec<u8> = Vec::new();
    let mut i: usize = 0;
    while i < players.len()
        invariant
            i <= players@.len(),
            ranks@.len() == i,
            forall|k: int|
                0 <= k < i ==> #[trigger] ranks@[k] == spec_player_rank(players@[k].bus_name@),
        decreases players@.len() - i,
    {
        ranks.push(player_rank(players[i].bus_name.as_str()));
        i = i + 1;
    }
    let order = candidate_order(&players, &ranks);
    let ghost ranked = pick(players@, order@);
    assert(ranked == candidates(all));

    if let Some(j) = first_in_order(&players, &ranks, &order, Criterion::PreferredWithTrack) {
        proof {
            lemma_first_match_at(ranked, meets(Criterion::PreferredWithTrack), j as int);
        }
        return Some(players.remove(order[j]));
    }
    if let Some(j) = first_in_order(&players, &ranks, &order, Criterion::Playing) {
        proof {
            lemma_first_match_at(ranked, meets(Criterion::Playing), j as int);
        }
        return Some(players.remove(order[j]));
    }
    if let Some(j) = first_in_order(&players, &ranks, &order, Criterion::Paused) {
        proof {
            lemma_first_match_at(ranked, meets(Criterion::Paused), j as int);
        }
        return Some(players.remove(order[j]));
    }
    if let Some(j) = first_in_order(&players, &ranks, &order, Criterion::WithTrack) {
        proof {
            lemma_first_match_at(ranked, meets(Criterion::WithTrack), j as int);
        }
        return Some(players.remove(order[j]));
    }
    if order.len() > 0 {
        return Some(players.remove(order[0]));
    }
    None
}

/// The (bus name, identity) of every player, in order: the sources the popup offers.
pub fn player_sources_from_players(players: &Vec<PlayerInfo>) -> (r: Vec<(String, String)>)
    ensures
        r@.len() == players@.len(),
        forall|i: int|
            #![trigger r@[i]]
            0 <= i < players@.len() ==> r@[i].0@ == players@[i].bus_name@ && r@[i].1@
                == players@[i].identity@,
{
    let mut r: Vec<(String, String)> = Vec::new();
    let mut i: usize = 0;
    while i < players.len()
        invariant
            i <= players@.len(),
            r@.len() == i,
            forall|k: int|
                #![trigger r@[k]]
                0 <= k < i ==> r@[k].0@ == players@[k].bus_name@ && r@[k].1@
                    == players@[k].identity@,
        decreases players@.len() - i,
    {
        r.push((players[i].bus_name.clone(), players[i].identity.clone()));
        i = i + 1;
    }
    r
}


/// A write to a player's property that is only believed once read back:
/// some players advertise a writable property but silently keep the old value.
pub enum ConfirmedWrite<T> {
    /// Write this value.
    Write(T),
    /// The write was accepted; read the property back and compare with this value.
    Verify(T),
    /// Done: the confirmed new value, or `None` if the change did not happen.
    Finished(Option<T>),
}

/// The shuffle setting after a toggle.
pub open spec fn spec_toggled(shuffle: bool) -> bool {
    !shuffle
}

/// The repeat mode that follows `status`: none, playlist, track, none again.
pub open spec fn spec_next_loop_status(status: LoopStatus) -> LoopStatus {
    match status {
        LoopStatus::NoLoop => LoopStatus::Playlist,
        LoopStatus::Playlist => LoopStatus::Track,
        LoopStatus::Track => LoopStatus::NoLoop,
    }
}

/// Starts toggling shuffle from the setting read from the player (`None` if
/// it could not be read, which ends the toggle).
pub fn toggle_shuffle(current: Option<bool>) -> (r: ConfirmedWrite<bool>)
    ensures
        match current {
            Some(c) => r == ConfirmedWrite::Write(spec_toggled(c)),
            None => r == ConfirmedWrite::<bool>::Finished(None),
        },
{
    match current {
        Some(c) => ConfirmedWrite::Write(!c),
        None => ConfirmedWrite::Finished(None),
    }
}

/// Starts cycling the repeat mode from the mode read from the player
/// (`None` if it could not be read, which ends the cycle).
pub fn cycle_loop_status(current: Option<LoopStatus>) -> (r: ConfirmedWrite<LoopStatus>)
    ensures
        match current {
            Some(c) => r == ConfirmedWrite::Write(spec_next_loop_status(c)),
            None => r == ConfirmedWrite::<LoopStatus>::Finished(None),
        },
{
    match current {
        Some(LoopStatus::NoLoop) => ConfirmedWrite::Write(LoopStatus::Playlist),
        Some(LoopStatus::Playlist) => ConfirmedWrite::Write(LoopStatus::Track),
        Some(LoopStatus::Track) => ConfirmedWrite::Write(LoopStatus::NoLoop),
        None => ConfirmedWrite::Finished(None),
    }
}

/// Goes on after writing `target`: `changed` is the player's answer to the
/// write (`None` if it failed); only a write that changed the property is
/// read back.
pub fn after_write<T>(target: T, changed: Option<bool>) -> (r: ConfirmedWrite<T>)
    ensures
        changed == Some(true) ==> r == ConfirmedWrite::Verify(target),
        changed != Some(true) ==> r == ConfirmedWrite::<T>::Finished(None),
{
    match changed {
        Some(true) => ConfirmedWrite::Verify(target),
        _ => ConfirmedWrite::Finished(None),
    }
}

/// Ends a shuffle toggle: the new setting if the player reports `target`.
pub fn shuffle_confirmed(target: bool, actual: Option<bool>) -> (r: Option<bool>)
    ensures
        r == if actual == Some(target) {
            Some(target)
        } else {
            None::<bool>
        },
{
    match actual {
        Some(a) => if a == target {
            Some(a)
        } else {
            None
        },
        None => None,
    }
}

/// Ends a repeat-mode cycle: the new mode if the player reports `target`.
pub fn loop_status_confirmed(target: LoopStatus, actual: Option<LoopStatus>) -> (r: Option<
    LoopStatus,
>)
    ensures
        r == if actual == Some(target) {
            Some(target)
        } else {
            None::<LoopStatus>
        },
{
    match actual {
        Some(a) => if a == target {
            Some(a)
        } else {
            None
        },
        None => None,
    }
}

/// Cycling the repeat mode three times comes back to where it started, and
/// every mode is reached on the way.
pub proof fn law_loop_cycle_returns(status: LoopStatus)
    ensures
        spec_next_loop_status(spec_next_loop_status(spec_next_loop_status(status))) == status,
        spec_next_loop_status(status) != status,
        spec_next_loop_status(spec_next_loop_status(status)) != status,
{
}

/// Toggling shuffle twice comes back to where it started.
pub proof fn law_shuffle_toggle_returns(shuffle: bool)
    ensures
        spec_toggled(spec_toggled(shuffle)) == shuffle,
        spec_toggled(shuffle) != shuffle,
{
}


/// Every player listed with rank `r` has rank `r` and is one of `s`.
proof fn lemma_with_rank_members(s: Seq<PlayerInfo>, r: u8)
    ensures
        forall|k: int|
            #![trigger with_rank(s, r)[k]]
            0 <= k < with_rank(s, r).len() ==> spec_player_rank(with_rank(s, r)[k].bus_name@)
                == r && s.contains(with_rank(s, r)[k]),
    decreases s.len(),
{
    if s.len() > 0 {
        let rest = s.drop_last();
        lemma_with_rank_members(rest, r);
        assert forall|k: int| 0 <= k < with_rank(s, r).len() implies spec_player_rank(
            #[trigger] with_rank(s, r)[k].bus_name@,
        ) == r && s.contains(with_rank(s, r)[k]) by {
            if k < with_rank(rest, r).len() {
                assert(with_rank(s, r)[k] == with_rank(rest, r)[k]);
                assert(rest.contains(with_rank(rest, r)[k]));
                let j = choose|j: int| 0 <= j < rest.len() && rest[j] == with_rank(rest, r)[k];
                assert(s[j] == rest[j]);
            } else {
                assert(with_rank(s, r)[k] == s.last());
                assert(s[s.len() - 1] == s.last());
            }
        }
    }
}

/// Every player of `s` with rank `r` is listed by `with_rank(s, r)`.
proof fn lemma_with_rank_complete(s: Seq<PlayerInfo>, r: u8, i: int)
    requires
        0 <= i < s.len(),
        spec_player_rank(s[i].bus_name@) == r,
    ensures
        with_rank(s, r).contains(s[i]),
    decreases s.len(),
{
    let rest = s.drop_last();
    if i < s.len() - 1 {
        assert(rest[i] == s[i]);
        lemma_with_rank_complete(rest, r, i);
        let k = choose|k: int| 0 <= k < with_rank(rest, r).len() && with_rank(rest, r)[k] == s[i];
        assert(with_rank(s, r)[k] == s[i]);
    } else {
        assert(s.last() == s[i]);
        assert(with_rank(s, r)[with_rank(s, r).len() - 1] == s[i]);
    }
}

/// Ranks of every player sum up: each player of `s` is listed once in `by_rank(s)`.
proof fn lemma_with_rank_lengths(s: Seq<PlayerInfo>)
    ensures
        with_rank(s, 0).len() + with_rank(s, 1).len() + with_rank(s, 2).len() == s.len(),
    decreases s.len(),
{
    if s.len() > 0 {
        lemma_with_rank_lengths(s.drop_last());
    }
}

/// The candidates are players, in order of rank, and include every player
/// of their class: every player that is not a browser, or every player when
/// all are browsers.
proof fn lemma_candidates(s: Seq<PlayerInfo>)
    ensures
        candidates(s).len() > 0 <==> s.len() > 0,
        forall|k: int| 0 <= k < candidates(s).len() ==> s.contains(#[trigger] candidates(s)[k]),
        forall|i: int|
            0 <= i < s.len() && in_class(s, s[i]) ==> candidates(s).contains(#[trigger] s[i]),
        forall|a: int, b: int|
            0 <= a < b < candidates(s).len() ==> spec_player_rank(#[trigger] candidates(s)[a].bus_name@)
                <= spec_player_rank(#[trigger] candidates(s)[b].bus_name@),
        forall|k: int|
            0 <= k < candidates(s).len() ==> (spec_player_rank(#[trigger] candidates(s)[k].bus_name@)
                == 2 <==> (with_rank(s, 0) + with_rank(s, 1)).len() == 0),
{
    let z = with_rank(s, 0);
    let o = with_rank(s, 1);
    let t = with_rank(s, 2);
    let others = z + o;
    let c = candidates(s);
    lemma_with_rank_lengths(s);
    lemma_with_rank_members(s, 0);
    lemma_with_rank_members(s, 1);
    lemma_with_rank_members(s, 2);
    assert forall|k: int| 0 <= k < c.len() implies s.contains(#[trigger] c[k]) && spec_player_rank(
        c[k].bus_name@,
    ) == if others.len() == 0 {
        2u8
    } else if k < z.len() {
        0u8
    } else {
        1u8
    } by {
        if others.len() == 0 {
            assert(c[k] == t[k]);
        } else if k < z.len() {
            assert(c[k] == z[k]);
        } else {
            assert(c[k] == o[k - z.len()]);
        }
    }
    assert forall|i: int| 0 <= i < s.len() && in_class(s, s[i]) implies c.contains(#[trigger] s[i]) by {
        let r = spec_player_rank(s[i].bus_name@);
        lemma_with_rank_complete(s, r, i);
        if others.len() == 0 {
            let k = choose|k: int| 0 <= k < t.len() && t[k] == s[i];
            if r == 0 {
                let k0 = choose|k: int| 0 <= k < z.len() && z[k] == s[i];
                assert(z.len() > 0);
            } else if r == 1 {
                let k0 = choose|k: int| 0 <= k < o.len() && o[k] == s[i];
                assert(o.len() > 0);
            }
            assert(c[k] == s[i]);
        } else if r == 0 {
            let k = choose|k: int| 0 <= k < z.len() && z[k] == s[i];
            assert(c[k] == s[i]);
        } else {
            let k = choose|k: int| 0 <= k < o.len() && o[k] == s[i];
            assert(c[k + z.len()] == s[i]);
        }
    }
    if s.len() > 0 && others.len() == 0 {
        assert(t.len() > 0);
    }
}

/// `q` is of the class the applet follows among `s`: not a browser, unless
/// every player of `s` is one.
pub open spec fn in_class(s: Seq<PlayerInfo>, q: PlayerInfo) -> bool {
    (with_rank(s, 0) + with_rank(s, 1)).len() > 0 ==> spec_player_rank(q.bus_name@) != 2
}

/// A picked source that is still present is followed: the player on its bus.
pub proof fn law_picked_source_is_followed(players: Seq<PlayerInfo>, bus_name: String, i: int)
    requires
        0 <= i < players.len(),
        players[i].bus_name@ == bus_name@,
    ensures
        picked_player(players, Some(bus_name)) is Some,
        picked_player(players, Some(bus_name))->0.bus_name@ == bus_name@,
        players.contains(picked_player(players, Some(bus_name))->0),
{
    lemma_first_match_exists(players, on_bus(bus_name@), i);
    let k = choose|k: int| 0 <= k <= i && is_first_match(players, on_bus(bus_name@), k);
    lemma_first_match_at(players, on_bus(bus_name@), k);
}

/// The result of a first match over the candidates is a candidate.
proof fn lemma_match_is_candidate(players: Seq<PlayerInfo>)
    ensures
        forall|c: Criterion| #[trigger] first_match(candidates(players), meets(c)) is Some
            ==> exists|k: int| is_first_match(candidates(players), meets(c), k)
            && first_match(candidates(players), meets(c)) == Some(candidates(players)[k]),
{
    let cs = candidates(players);
    assert forall|c: Criterion| #[trigger] first_match(cs, meets(c)) is Some implies exists|k: int|
        is_first_match(cs, meets(c), k) && first_match(cs, meets(c)) == Some(cs[k]) by {
        let k = choose|k: int| is_first_match(cs, meets(c), k);
        lemma_first_match_at(cs, meets(c), k);
    }
}

/// Some player is followed whenever there is one, and it is one of them.
pub proof fn law_a_present_player_is_followed(players: Seq<PlayerInfo>)
    ensures
        preferred_or_active(players) is Some <==> players.len() > 0,
        preferred_or_active(players) is Some ==> players.contains(preferred_or_active(players)->0),
{
    lemma_candidates(players);
    lemma_match_is_candidate(players);
    let cs = candidates(players);
    let r = preferred_or_active(players);
    if r is Some {
        let k = choose|k: int| 0 <= k < cs.len() && cs[k] == r->0;
        assert(cs.contains(r->0)) by {
            if first_match(cs, meets(Criterion::PreferredWithTrack)) is Some {
            } else if first_match(cs, meets(Criterion::Playing)) is Some {
            } else if first_match(cs, meets(Criterion::Paused)) is Some {
            } else if first_match(cs, meets(Criterion::WithTrack)) is Some {
            } else {
                assert(cs[0] == r->0);
            }
        }
        let k = choose|k: int| 0 <= k < cs.len() && cs[k] == r->0;
        assert(players.contains(cs[k]));
    }
}

/// The followed player, when no source is picked, is a browser only if
/// every player is a browser.
pub proof fn law_browsers_only_when_nothing_else(players: Seq<PlayerInfo>, i: int)
    requires
        0 <= i < players.len(),
        spec_player_rank(players[i].bus_name@) != 2,
    ensures
        preferred_or_active(players) is Some,
        spec_player_rank(preferred_or_active(players)->0.bus_name@) != 2,
{
    lemma_candidates(players);
    lemma_match_is_candidate(players);
    lemma_with_rank_complete(players, spec_player_rank(players[i].bus_name@), i);
    let z = with_rank(players, 0);
    let o = with_rank(players, 1);
    if spec_player_rank(players[i].bus_name@) == 0 {
        let k = choose|k: int| 0 <= k < z.len() && z[k] == players[i];
    } else {
        let k = choose|k: int| 0 <= k < o.len() && o[k] == players[i];
    }
    assert((z + o).len() > 0);
    let cs = candidates(players);
    assert(cs.contains(players[i]));
    let r = preferred_or_active(players);
    assert(cs.contains(r->0)) by {
        if first_match(cs, meets(Criterion::PreferredWithTrack)) is Some {
        } else if first_match(cs, meets(Criterion::Playing)) is Some {
        } else if first_match(cs, meets(Criterion::Paused)) is Some {
        } else if first_match(cs, meets(Criterion::WithTrack)) is Some {
        } else {
            assert(cs[0] == r->0);
        }
    }
}

/// A dedicated music player that has a track loaded is followed, even when
/// paused, unless the user picked another source that is still present.
pub proof fn law_preferred_player_with_track_wins(players: Seq<PlayerInfo>, i: int)
    requires
        0 <= i < players.len(),
        spec_player_rank(players[i].bus_name@) == 0,
        players[i].has_track,
    ensures
        preferred_or_active(players) is Some,
        spec_player_rank(preferred_or_active(players)->0.bus_name@) == 0,
        preferred_or_active(players)->0.has_track,
{
    lemma_candidates(players);
    lemma_with_rank_complete(players, 0, i);
    let z = with_rank(players, 0);
    let k0 = choose|k: int| 0 <= k < z.len() && z[k] == players[i];
    let cs = candidates(players);
    assert(cs.contains(players[i]));
    let pred = meets(Criterion::PreferredWithTrack);
    let k = choose|k: int| 0 <= k < cs.len() && cs[k] == players[i];
    assert(pred(cs[k]));
    lemma_first_match_exists(cs, pred, k);
    let f = choose|f: int| 0 <= f <= k && is_first_match(cs, pred, f);
    lemma_first_match_at(cs, pred, f);
}

/// How far a player is from playing: playing, paused, with a track, or neither.
pub open spec fn playback_tier(p: PlayerInfo) -> int {
    if p.status == Some(PlaybackStatus::Playing) {
        0
    } else if p.status == Some(PlaybackStatus::Paused) {
        1
    } else if p.has_track {
        2
    } else {
        3
    }
}

/// Without a preferred player that has a track, the followed player is,
/// among the players of the followed class, the one closest to playing, and
/// among those the one with the best rank: no player of that class is in a
/// better tier, and none in the same tier has a better rank.
pub proof fn law_closest_to_playing_is_followed(players: Seq<PlayerInfo>, q: PlayerInfo)
    requires
        players.contains(q),
        in_class(players, q),
        forall|j: int|
            0 <= j < players.len() ==> !(spec_player_rank(#[trigger] players[j].bus_name@) == 0
                && players[j].has_track),
    ensures
        preferred_or_active(players) is Some,
        playback_tier(q) >= playback_tier(preferred_or_active(players)->0),
        playback_tier(q) == playback_tier(preferred_or_active(players)->0) ==> spec_player_rank(
            q.bus_name@,
        ) >= spec_player_rank(preferred_or_active(players)->0.bus_name@),
{
    lemma_candidates(players);
    let ranked = candidates(players);
    let qi = choose|j: int| 0 <= j < players.len() && players[j] == q;
    assert(ranked.contains(players[qi]));
    let preferred = meets(Criterion::PreferredWithTrack);
    if first_match(ranked, preferred) is Some {
        let f = choose|f: int| is_first_match(ranked, preferred, f);
        assert(players.contains(ranked[f]));
        let j = choose|j: int| 0 <= j < players.len() && players[j] == ranked[f];
        assert(!(spec_player_rank(players[j].bus_name@) == 0 && players[j].has_track));
    }
    let k = choose|k: int| 0 <= k < ranked.len() && ranked[k] == q;
    let playing = meets(Criterion::Playing);
    let paused = meets(Criterion::Paused);
    let with_track = meets(Criterion::WithTrack);
    if first_match(ranked, playing) is Some {
        let f = choose|f: int| is_first_match(ranked, playing, f);
        lemma_first_match_at(ranked, playing, f);
        if playback_tier(q) == 0 && spec_player_rank(q.bus_name@) < spec_player_rank(ranked[f].bus_name@) {
            if f < k {
                assert(spec_player_rank(ranked[f].bus_name@) <= spec_player_rank(ranked[k].bus_name@));
            }
            assert(!playing(ranked[k]));
        }
    } else if first_match(ranked, paused) is Some {
        let f = choose|f: int| is_first_match(ranked, paused, f);
        lemma_first_match_at(ranked, paused, f);
        if playing(q) {
            lemma_first_match_exists(ranked, playing, k);
        }
        if playback_tier(q) == 1 && spec_player_rank(q.bus_name@) < spec_player_rank(ranked[f].bus_name@) {
            if f < k {
                assert(spec_player_rank(ranked[f].bus_name@) <= spec_player_rank(ranked[k].bus_name@));
            }
            assert(!paused(ranked[k]));
        }
    } else if first_match(ranked, with_track) is Some {
        let f = choose|f: int| is_first_match(ranked, with_track, f);
        lemma_first_match_at(ranked, with_track, f);
        if playing(q) {
            lemma_first_match_exists(ranked, playing, k);
        }
        if paused(q) {
            lemma_first_match_exists(ranked, paused, k);
        }
        if playing(ranked[f]) {
            lemma_first_match_exists(ranked, playing, f);
        }
        if paused(ranked[f]) {
            lemma_first_match_exists(ranked, paused, f);
        }
        if playback_tier(q) == 2 && spec_player_rank(q.bus_name@) < spec_player_rank(ranked[f].bus_name@) {
            if f < k {
                assert(spec_player_rank(ranked[f].bus_name@) <= spec_player_rank(ranked[k].bus_name@));
            }
            assert(!with_track(ranked[k]));
        }
    } else {
        if playing(q) {
            lemma_first_match_exists(ranked, playing, k);
        }
        if paused(q) {
            lemma_first_match_exists(ranked, paused, k);
        }
        if with_track(q) {
            lemma_first_match_exists(ranked, with_track, k);
        }
        if playing(ranked[0]) {
            lemma_first_match_exists(ranked, playing, 0);
        }
        if paused(ranked[0]) {
            lemma_first_match_exists(ranked, paused, 0);
        }
        if with_track(ranked[0]) {
            lemma_first_match_exists(ranked, with_track, 0);
        }
        if k > 0 {
            assert(spec_player_rank(ranked[0].bus_name@) <= spec_player_rank(ranked[k].bus_name@));
        }
    }
}

/// The panel's playback state for a reported playback status.
pub open spec fn spec_playback_state(status: Option<PlaybackStatus>) -> PlaybackState {
    match status {
        Some(PlaybackStatus::Playing) => PlaybackState::Playing,
        Some(PlaybackStatus::Paused) => PlaybackState::Paused,
        Some(PlaybackStatus::Stopped) => PlaybackState::Stopped,
        None => PlaybackState::Unknown,
    }
}

/// The panel's playback state for what the player reported.
pub fn playback_state_from_player(player: &PlayerDetails) -> (r: PlaybackState)
    ensures
        r == spec_playback_state(player.status),
{
    match player.status {
        Some(PlaybackStatus::Playing) => PlaybackState::Playing,
        Some(PlaybackStatus::Paused) => PlaybackState::Paused,
        Some(PlaybackStatus::Stopped) => PlaybackState::Stopped,
        None => PlaybackState::Unknown,
    }
}

/// The bus name mentions one of the web browsers.
pub open spec fn names_a_browser(bus_name: Seq<char>) -> bool {
    ||| mentions(bus_name, "chromium"@)
    ||| mentions(bus_name, "chrome"@)
    ||| mentions(bus_name, "firefox"@)
    ||| mentions(bus_name, "brave"@)
    ||| mentions(bus_name, "vivaldi"@)
}

/// Spotify ranks first; Chromium, Chrome, Firefox, Brave and Vivaldi rank
/// last; every other player ranks in between.
pub proof fn law_player_ranks(bus_name: Seq<char>)
    ensures
        mentions(bus_name, "spotify"@) ==> spec_player_rank(bus_name) == 0,
        !mentions(bus_name, "spotify"@) && names_a_browser(bus_name) ==> spec_player_rank(bus_name)
            == 2,
        !mentions(bus_name, "spotify"@) && !names_a_browser(bus_name) ==> spec_player_rank(
            bus_name,
        ) == 1,
{
}

/// With no source picked, a player that is not a browser (or is Spotify)
/// wins over every browser tab: the followed player is a browser only when
/// every player is one.
pub proof fn law_a_browser_tab_gives_way(players: Seq<PlayerInfo>, i: int)
    requires
        0 <= i < players.len(),
        mentions(players[i].bus_name@, "spotify"@) || !names_a_browser(players[i].bus_name@),
    ensures
        preferred_or_active(players) matches Some(p) && (mentions(p.bus_name@, "spotify"@)
            || !names_a_browser(p.bus_name@)),
{
    law_player_ranks(players[i].bus_name@);
    law_browsers_only_when_nothing_else(players, i);
    law_player_ranks(preferred_or_active(players)->0.bus_name@);
}

/// The panel's icon: Spotify's for Spotify, Chrome's for Chromium and
/// Chrome, Firefox's for Firefox, a generic audio icon for anything else.
pub proof fn law_player_icons(bus_name: Seq<char>)
    ensures
        mentions(bus_name, "spotify"@) ==> spec_player_icon_name(bus_name) == "spotify-launcher"@,
        !mentions(bus_name, "spotify"@) && (mentions(bus_name, "chromium"@) || mentions(
            bus_name,
            "chrome"@,
        )) ==> spec_player_icon_name(bus_name) == "google-chrome"@,
        !mentions(bus_name, "spotify"@) && !mentions(bus_name, "chromium"@) && !mentions(
            bus_name,
            "chrome"@,
        ) && mentions(bus_name, "firefox"@) ==> spec_player_icon_name(bus_name) == "firefox"@,
        !mentions(bus_name, "spotify"@) && !mentions(bus_name, "chromium"@) && !mentions(
            bus_name,
            "chrome"@,
        ) && !mentions(bus_name, "firefox"@) ==> spec_player_icon_name(bus_name)
            == "audio-x-generic-symbolic"@,
{
}

/// Toggling shuffle turns it off when on and on when off; the repeat mode
/// cycles none, playlist, track, none.
pub proof fn law_mode_steps(shuffle: bool)
    ensures
        spec_toggled(shuffle) != shuffle,
        spec_next_loop_status(LoopStatus::NoLoop) == LoopStatus::Playlist,
        spec_next_loop_status(LoopStatus::Playlist) == LoopStatus::Track,
        spec_next_loop_status(LoopStatus::Track) == LoopStatus::NoLoop,
{
}

/// A playing, paused or stopped player is shown as such; one whose status
/// could not be read is shown in an unknown state.
pub proof fn law_playback_states(status: Option<PlaybackStatus>)
    ensures
        status == Some(PlaybackStatus::Playing) <==> spec_playback_state(status)
            == PlaybackState::Playing,
        status == Some(PlaybackStatus::Paused) <==> spec_playback_state(status)
            == PlaybackState::Paused,
        status == Some(PlaybackStatus::Stopped) <==> spec_playback_state(status)
            == PlaybackState::Stopped,
        status is None <==> spec_playback_state(status) == PlaybackState::Unknown,
{
}

} // verus!
