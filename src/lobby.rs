use vstd::prelude::*;
use std::collections::HashMap;

use crate::game_state::{collected, GameState, SpatulaTier};
use crate::{LobbyId, PlayerId, Room, Spatula, FINAL_SPATULA, MAIN_MENU, MAX_PLAYERS};

verus! {

broadcast use vstd::std_specs::hash::group_hash_axioms;

/// The lab door's cost when a lobby is created.
pub const DEFAULT_LAB_DOOR_COST: u32 = 75;

/// Whether a lobby is gathering players or playing a round.
#[derive(Debug, Clone, Copy, PartialEq, Eq, Structural)]
pub enum GamePhase {
    Lobby,
    Playing,
}

/// Settings of a lobby, chosen by its host.
#[derive(Debug, Clone, Copy, PartialEq, Eq, Structural)]
pub struct LobbyOptions {
    pub lab_door_cost: u32,
}

impl Default for LobbyOptions {
    fn default() -> (r: LobbyOptions)
        ensures
            r.lab_door_cost == DEFAULT_LAB_DOOR_COST,
    {
        LobbyOptions { lab_door_cost: DEFAULT_LAB_DOOR_COST }
    }
}

/// A display color.
#[derive(Debug, Clone, Copy, PartialEq, Eq, Structural)]
pub struct Color {
    pub r: u8,
    pub g: u8,
    pub b: u8,
}

/// Settings of one player. The color is assigned by the server.
#[derive(Debug, Clone)]
pub struct PlayerOptions {
    pub name: String,
    pub color: Color,
}

/// A member of a lobby.
#[derive(Debug, Clone)]
pub struct Player {
    pub id: PlayerId,
    pub options: PlayerOptions,
    pub current_room: Option<Room>,
}

/// Errors that a request can end in.
#[derive(Debug, Clone, PartialEq, Eq)]
pub enum ProtocolError {
    InvalidLobbyId(LobbyId),
    InvalidPlayerId(PlayerId),
    InvalidMessage,
    VersionMismatch(String, String),
    Disconnected,
}

/// The color given to the member who joins at `slot`.
pub open spec fn slot_color(slot: int) -> Color {
    if slot == 0 {
        Color { r: 0xff, g: 0x00, b: 0x00 }
    } else if slot == 1 {
        Color { r: 0x00, g: 0x00, b: 0xff }
    } else if slot == 2 {
        Color { r: 0x00, g: 0xff, b: 0x00 }
    } else if slot == 3 {
        Color { r: 0xff, g: 0xff, b: 0x00 }
    } else if slot == 4 {
        Color { r: 0xff, g: 0x00, b: 0xff }
    } else {
        Color { r: 0x00, g: 0xff, b: 0xff }
    }
}

fn color_for_slot(slot: usize) -> (r: Color)
    ensures
        r == slot_color(slot as int),
{
    if slot == 0 {
        Color { r: 0xff, g: 0x00, b: 0x00 }
    } else if slot == 1 {
        Color { r: 0x00, g: 0x00, b: 0xff }
    } else if slot == 2 {
        Color { r: 0x00, g: 0xff, b: 0x00 }
    } else if slot == 3 {
        Color { r: 0xff, g: 0xff, b: 0x00 }
    } else if slot == 4 {
        Color { r: 0xff, g: 0x00, b: 0xff }
    } else {
        Color { r: 0x00, g: 0xff, b: 0xff }
    }
}

/// One report that `player` collected `spat`, as the lobby takes it: no
/// change at an exhausted collectible; else the collection is recorded, and
/// when `spat` is the final collectible the round ends with all progress
/// cleared.
pub open spec fn item_step(before: SharedLobby, after: SharedLobby, player: PlayerId, spat: Spatula) -> bool {
    if before.game_state.tier_of(spat) == SpatulaTier::Terminal {
        after == before
    } else {
        &&& after.players@ == before.players@
        &&& after.host_id == before.host_id
        &&& after.lobby_id == before.lobby_id
        &&& after.options == before.options
        &&& if spat == FINAL_SPATULA {
            after.game_phase == GamePhase::Lobby && after.game_state.is_empty()
        } else {
            after.game_phase == before.game_phase && collected(before.game_state, after.game_state, player, spat)
        }
    }
}

/// Collecting the final collectible at any tier short of exhaustion ends
/// the round: the lobby is back to gathering and all progress is cleared.
pub proof fn lemma_final_collectible_ends_round(before: SharedLobby, after: SharedLobby, player: PlayerId)
    requires
        item_step(before, after, player, FINAL_SPATULA),
        before.game_state.tier_of(FINAL_SPATULA) != SpatulaTier::Terminal,
    ensures
        after.game_phase == GamePhase::Lobby,
        after.game_state.is_empty(),
        forall|s: Spatula| after.game_state.tier_of(s) == SpatulaTier::Golden
            && after.game_state.collectors_of(s) == Seq::<Option<PlayerId>>::empty(),
        forall|p: PlayerId| after.game_state.score_of(p) == 0,
{
}

/// A lobby can start only when all are in the main menu: one member that
/// has reported no room, or a room other than the main menu, prevents it.
pub proof fn lemma_one_unready_member_blocks_start(l: SharedLobby, i: int)
    requires
        0 <= i < l.players@.len(),
        l.players@[i].current_room != Some(MAIN_MENU),
    ensures
        !l.all_in_main_menu(),
{
}

/// The canonical state of one lobby, as every member sees it.
#[derive(Debug, Clone)]
pub struct SharedLobby {
    pub lobby_id: LobbyId,
    pub host_id: Option<PlayerId>,
    pub players: Vec<Player>,
    pub game_phase: GamePhase,
    pub options: LobbyOptions,
    pub game_state: GameState,
}

impl SharedLobby {
    /// The members' ids, oldest first.
    pub open spec fn ids(&self) -> Seq<PlayerId> {
        self.players@.map_values(|p: Player| p.id)
    }

    pub open spec fn has_player(&self, p: PlayerId) -> bool {
        self.ids().contains(p)
    }

    /// Member ids are distinct, the lobby is not over-full, a lobby with
    /// members has the oldest one or another member as host, and an empty
    /// lobby has none.
    pub open spec fn wf(&self) -> bool {
        &&& self.ids().no_duplicates()
        &&& self.players@.len() <= MAX_PLAYERS
        &&& self.game_state.wf()
        &&& match self.host_id {
            Some(h) => self.has_player(h),
            None => self.players@.len() == 0,
        }
    }

    /// True when every member last reported the main menu.
    pub open spec fn all_in_main_menu(&self) -> bool {
        forall|i: int|
            0 <= i < self.players@.len() ==> #[trigger] self.players@[i].current_room == Some(
                MAIN_MENU,
            )
    }

    pub fn new(options: LobbyOptions, lobby_id: LobbyId) -> (r: SharedLobby)
        ensures
            r.wf(),
            r.lobby_id == lobby_id,
            r.options == options,
            r.host_id == Option::<PlayerId>::None,
            r.players@.len() == 0,
            r.game_phase == GamePhase::Lobby,
            r.game_state.is_empty(),
    {
        SharedLobby {
            lobby_id,
            host_id: None,
            players: Vec::new(),
            game_phase: GamePhase::Lobby,
            options,
            game_state: GameState::default(),
        }
    }

    /// Index of the member with id `p`.
    pub fn find_player(&self, p: PlayerId) -> (r: Option<usize>)
        ensures
            match r {
                Some(i) => i < self.players@.len() && self.players@[i as int].id == p && forall|j: int|
                    0 <= j < i ==> self.players@[j].id != p,
                None => !self.has_player(p),
            },
    {
        let mut i: usize = 0;
        while i < self.players.len()
            invariant
                i <= self.players@.len(),
                forall|j: int| 0 <= j < i ==> self.players@[j].id != p,
            decreases self.players@.len() - i,
        {
            if self.players[i].id == p {
                return Some(i);
            }
            i += 1;
        }
        proof {
            if self.has_player(p) {
                let j = self.ids().index_of(p);
                assert(self.ids()[j] == p);
            }
        }
        None
    }

    /// True iff every member's last-reported room is the main menu.
    pub fn can_start(&self) -> (r: bool)
        ensures
            r == self.all_in_main_menu(),
    {
        let mut i: usize = 0;
        while i < self.players.len()
            invariant
                i <= self.players@.len(),
                forall|j: int|
                    0 <= j < i ==> #[trigger] self.players@[j].current_room == Some(MAIN_MENU),
            decreases self.players@.len() - i,
        {
            if self.players[i].current_room != Some(MAIN_MENU) {
                return false;
            }
            i += 1;
        }
        true
    }

    /// Starts a round.
    pub fn start_game(&mut self)
        ensures
            final(self).game_phase == GamePhase::Playing,
            final(self).players@ == old(self).players@,
            final(self).host_id == old(self).host_id,
            final(self).lobby_id == old(self).lobby_id,
            final(self).options == old(self).options,
            final(self).game_state == old(self).game_state,
    {
        self.game_phase = GamePhase::Playing;
    }

    /// Ends the round: back to gathering, with all progress cleared.
    pub fn stop_game(&mut self)
        requires
            old(self).wf(),
        ensures
            final(self).wf(),
            final(self).game_phase == GamePhase::Lobby,
            final(self).game_state.is_empty(),
            final(self).players@ == old(self).players@,
            final(self).host_id == old(self).host_id,
            final(self).lobby_id == old(self).lobby_id,
            final(self).options == old(self).options,
    {
        self.game_phase = GamePhase::Lobby;
        self.game_state.reset_state();
    }

    /// Adds an unaffiliated registered player to the lobby and marks it
    /// affiliated in `registry`. The first member becomes host. Fails with
    /// `InvalidPlayerId` if the player is unknown, and with `InvalidMessage`
    /// if it is already in a lobby, a round is under way or the lobby is full.
    pub fn add_player(
        &mut self,
        registry: &mut HashMap<PlayerId, Option<LobbyId>>,
        player_id: PlayerId,
    ) -> (r: Result<(), ProtocolError>)
        requires
            old(self).wf(),
            forall|q: PlayerId|
                #[trigger] old(self).has_player(q) ==> old(registry)@.contains_key(q)
                    && old(registry)@[q] == Some(old(self).lobby_id),
        ensures
            final(self).wf(),
            final(self).lobby_id == old(self).lobby_id,
            final(self).game_phase == old(self).game_phase,
            final(self).options == old(self).options,
            final(self).game_state == old(self).game_state,
            !old(registry)@.contains_key(player_id) ==> r == Err::<(), ProtocolError>(
                ProtocolError::InvalidPlayerId(player_id),
            ),
            old(registry)@.contains_key(player_id) && old(registry)@[player_id] is Some ==> r
                == Err::<(), ProtocolError>(ProtocolError::InvalidMessage),
            old(registry)@.contains_key(player_id) && old(registry)@[player_id] == Option::<
                LobbyId,
            >::None ==> {
                if old(self).game_phase == GamePhase::Playing || old(self).players@.len()
                    >= MAX_PLAYERS {
                    r == Err::<(), ProtocolError>(ProtocolError::InvalidMessage)
                } else {
                    r == Ok::<(), ProtocolError>(())
                }
            },
            r is Err ==> *final(registry) == *old(registry) && *final(self) == *old(self),
            r is Ok ==> {
                &&& final(registry)@ == old(registry)@.insert(player_id, Some(old(self).lobby_id))
                &&& final(self).ids() == old(self).ids().push(player_id)
                &&& final(self).players@.drop_last() == old(self).players@
                &&& final(self).players@.last().current_room == Option::<Room>::None
                &&& final(self).players@.last().options.color == slot_color(
                    old(self).players@.len() as int,
                )
                &&& final(self).host_id == match old(self).host_id {
                    Some(h) => Some(h),
                    None => Some(player_id),
                }
            },
    {
        let affiliation = match registry.get(&player_id) {
            Some(a) => *a,
            None => {
                return Err(ProtocolError::InvalidPlayerId(player_id));
            },
        };
        if affiliation.is_some() {
            return Err(ProtocolError::InvalidMessage);
        }
        if self.game_phase == GamePhase::Playing || self.players.len() >= MAX_PLAYERS {
            return Err(ProtocolError::InvalidMessage);
        }
        assert(!old(self).has_player(player_id));
        let color = color_for_slot(self.players.len());
        let player = Player {
            id: player_id,
            options: PlayerOptions { name: String::new(), color },
            current_room: None,
        };
        self.players.push(player);
        proof {
            assert(self.players@.drop_last() =~= old(self).players@);
            assert(self.ids() =~= old(self).ids().push(player_id));
            if let Some(h) = self.host_id {
                assert(old(self).ids().contains(h));
                let j = old(self).ids().index_of(h);
                assert(self.ids()[j] == h);
            }
        }
        if self.host_id.is_none() {
            self.host_id = Some(player_id);
            assert(self.ids()[self.ids().len() - 1] == player_id);
        }
        registry.insert(player_id, Some(self.lobby_id));
        Ok(())
    }

    /// Removes a member and returns how many remain. When the host leaves,
    /// the oldest remaining member becomes host.
    pub fn rem_player(&mut self, player_id: PlayerId) -> (r: usize)
        requires
            old(self).wf(),
        ensures
            final(self).wf(),
            r == final(self).players@.len(),
            final(self).lobby_id == old(self).lobby_id,
            final(self).game_phase == old(self).game_phase,
            final(self).options == old(self).options,
            final(self).game_state == old(self).game_state,
            !final(self).has_player(player_id),
            forall|q: PlayerId|
                q != player_id ==> (#[trigger] final(self).has_player(q) == old(self).has_player(q)),
            old(self).has_player(player_id) ==> r == old(self).players@.len() - 1,
            !old(self).has_player(player_id) ==> final(self).players@ == old(self).players@
                && final(self).host_id == old(self).host_id,
            old(self).has_player(player_id) ==> final(self).ids() == old(self).ids().remove(
                old(self).ids().index_of(player_id),
            ),
            final(self).host_id == if old(self).host_id == Some(player_id) {
                if final(self).players@.len() > 0 {
                    Some(final(self).players@[0].id)
                } else {
                    None
                }
            } else {
                old(self).host_id
            },
    {
        let idx = self.find_player(player_id);
        match idx {
            None => {
                proof {
                    assert forall|q: PlayerId| #[trigger] self.has_player(q) == old(self).has_player(q) by {}
                }
                self.players.len()
            },
            Some(i) => {
                let ghost old_ids = self.ids();
                self.players.remove(i);
                if self.host_id == Some(player_id) {
                    if self.players.len() > 0 {
                        self.host_id = Some(self.players[0].id);
                        assert(self.ids()[0] == self.players@[0].id);
                    } else {
                        self.host_id = None;
                    }
                }
                proof {
                    assert(old_ids[i as int] == player_id);
                    assert(old_ids.index_of(player_id) == i as int);
                    assert(self.ids() =~= old_ids.remove(i as int));
                    assert forall|a: int, b: int|
                        0 <= a < self.ids().len() && 0 <= b < self.ids().len() && a != b implies
                        self.ids()[a] != self.ids()[b] by {
                        let oa = if a < i { a } else { a + 1 };
                        let ob = if b < i { b } else { b + 1 };
                        assert(old_ids[oa] != old_ids[ob]);
                    }
                    assert forall|q: PlayerId| q != player_id implies #[trigger] self.has_player(q) == old(self).has_player(q) by {
                        if old_ids.contains(q) {
                            let j = old_ids.index_of(q);
                            assert(j != i);
                            if j < i {
                                assert(self.ids()[j] == q);
                            } else {
                                assert(self.ids()[j - 1] == q);
                            }
                        }
                        if self.ids().contains(q) {
                            let j = self.ids().index_of(q);
                            if j < i {
                                assert(old_ids[j] == q);
                            } else {
                                assert(old_ids[j + 1] == q);
                            }
                        }
                    }
                    if self.ids().contains(player_id) {
                        let j = self.ids().index_of(player_id);
                        if j < i {
                            assert(old_ids[j] == player_id);
                        } else {
                            assert(old_ids[j + 1] == player_id);
                        }
                    }
                }
                self.players.len()
            },
        }
    }

    /// Sets the room that member `i` last reported.
    pub fn set_room(&mut self, i: usize, room: Option<Room>)
        requires
            i < old(self).players@.len(),
        ensures
            old(self).wf() ==> final(self).wf(),
            final(self).players@.len() == old(self).players@.len(),
            final(self).players@[i as int].current_room == room,
            final(self).players@[i as int].id == old(self).players@[i as int].id,
            final(self).players@[i as int].options == old(self).players@[i as int].options,
            forall|j: int|
                0 <= j < old(self).players@.len() && j != i ==> #[trigger] final(self).players@[j]
                    == old(self).players@[j],
            final(self).ids() == old(self).ids(),
            final(self).host_id == old(self).host_id,
            final(self).lobby_id == old(self).lobby_id,
            final(self).game_phase == old(self).game_phase,
            final(self).options == old(self).options,
            final(self).game_state == old(self).game_state,
    {
        let mut p = self.players.remove(i);
        p.current_room = room;
        self.players.insert(i, p);
        proof {
            assert(self.ids() =~= old(self).ids());
        }
    }

    /// Replaces member `i`'s options, keeping the color the server gave it.
    pub fn set_player_options(&mut self, i: usize, options: PlayerOptions)
        requires
            old(self).wf(),
            i < old(self).players@.len(),
        ensures
            final(self).wf(),
            final(self).players@.len() == old(self).players@.len(),
            final(self).players@[i as int].options.name == options.name,
            final(self).players@[i as int].options.color == old(self).players@[i as int].options.color,
            final(self).players@[i as int].id == old(self).players@[i as int].id,
            final(self).players@[i as int].current_room == old(self).players@[i as int].current_room,
            forall|j: int|
                0 <= j < old(self).players@.len() && j != i ==> #[trigger] final(self).players@[j]
                    == old(self).players@[j],
            final(self).ids() == old(self).ids(),
            final(self).host_id == old(self).host_id,
            final(self).lobby_id == old(self).lobby_id,
            final(self).game_phase == old(self).game_phase,
            final(self).options == old(self).options,
            final(self).game_state == old(self).game_state,
    {
        let mut p = self.players.remove(i);
        p.options = PlayerOptions { name: options.name, color: p.options.color };
        self.players.insert(i, p);
        proof {
            assert(self.ids() =~= old(self).ids());
        }
    }

    /// Runs the collection engine for a report that `player` collected
    /// `spat`, and ends the round when the final collectible was taken.
    /// Returns whether the lobby changed.
    pub fn item_collected(&mut self, player: PlayerId, spat: Spatula) -> (changed: bool)
        requires
            old(self).wf(),
        ensures
            final(self).wf(),
            changed == (old(self).game_state.tier_of(spat) != SpatulaTier::Terminal),
            item_step(*old(self), *final(self), player, spat),
    {
        let changed = self.game_state.collect(player, spat);
        if changed && spat == FINAL_SPATULA {
            self.stop_game();
        }
        changed
    }
}

} // verus!
