use vstd::prelude::*;
use vstd::string::StrSliceExecFns;

use crate::game_state::{collected, SpatulaTier};
use crate::lobby::{GamePhase, LobbyOptions, PlayerOptions, ProtocolError, SharedLobby};
use crate::state::{join_outcome, joined, left, lobby_of, replaced, State};
use crate::{LobbyId, PlayerId, Room, Spatula, FINAL_SPATULA};

verus! {

broadcast use vstd::std_specs::hash::group_hash_axioms;

/// The protocol version that this server speaks.
pub const VERSION: &'static str = "0.1.0";

/// Something a player can collect.
#[derive(Debug, Clone, Copy, PartialEq, Eq, Structural)]
pub enum Item {
    Spatula(Spatula),
}

/// The messages of the protocol, in both directions.
#[derive(Debug, Clone)]
pub enum Message {
    Version { version: String },
    ConnectionAccept { player_id: PlayerId },
    GameHost,
    GameJoin { lobby_id: LobbyId },
    GameBegin,
    GameLeave,
    PlayerOptions { options: PlayerOptions },
    GameOptions { options: LobbyOptions },
    GameCurrentRoom { room: Option<Room> },
    GameItemCollected { item: Item },
    GameLobbyInfo { lobby: SharedLobby },
    Error { error: ProtocolError },
}

/// What the connection must do after a request was handled.
#[derive(Debug, Clone)]
pub enum Effect {
    /// Send this message back to the player.
    Reply(Message),
    /// Subscribe the connection to this lobby's broadcasts.
    Joined(LobbyId),
    /// Send this lobby's snapshot to all of its members.
    Broadcast(LobbyId),
    /// Drop the lobby subscription; broadcast to the lobby, if it is still live.
    Left(Option<LobbyId>),
    /// Nothing to send.
    Quiet,
}

/// How the connection answers a request that failed.
#[derive(Debug, Clone, Copy, PartialEq, Eq, Structural)]
pub enum ErrorAction {
    /// Report the error to the player and keep the connection.
    Report,
    /// Report the error to the player, then close the connection.
    ReportAndClose,
    /// Close the connection without a word.
    CloseSilently,
    /// Log the error and close the connection; the player is told nothing.
    Close,
}

/// The answer to a failed request.
pub open spec fn error_action(e: ProtocolError) -> ErrorAction {
    match e {
        ProtocolError::InvalidLobbyId(_) => ErrorAction::Report,
        ProtocolError::InvalidMessage => ErrorAction::Report,
        ProtocolError::VersionMismatch(_, _) => ErrorAction::ReportAndClose,
        ProtocolError::Disconnected => ErrorAction::CloseSilently,
        ProtocolError::InvalidPlayerId(_) => ErrorAction::Close,
    }
}

/// Sorts a failed request: protocol violations are reported, a version
/// mismatch is reported and closes, a disconnect closes silently, and
/// anything else is an internal fault that closes the connection.
pub fn classify_error(e: &ProtocolError) -> (r: ErrorAction)
    ensures
        r == error_action(*e),
{
    match e {
        ProtocolError::InvalidLobbyId(_) => ErrorAction::Report,
        ProtocolError::InvalidMessage => ErrorAction::Report,
        ProtocolError::VersionMismatch(_, _) => ErrorAction::ReportAndClose,
        ProtocolError::Disconnected => ErrorAction::CloseSilently,
        ProtocolError::InvalidPlayerId(_) => ErrorAction::Close,
    }
}

/// Whether two strings hold the same characters.
pub fn same_text(a: &str, b: &str) -> (r: bool)
    ensures
        r == (a@ == b@),
{
    let n = a.unicode_len();
    if n != b.unicode_len() {
        return false;
    }
    let mut i: usize = 0;
    while i < n
        invariant
            n == a@.len(),
            n == b@.len(),
            i <= n,
            forall|j: int| 0 <= j < i ==> a@[j] == b@[j],
        decreases n - i,
    {
        if a.get_char(i) != b.get_char(i) {
            return false;
        }
        i += 1;
    }
    assert(a@ =~= b@);
    true
}

/// The result of a request from player `p`, whose handshake was accepted,
/// and how it takes the registry from `before` to `after`.
pub open spec fn request_handled(
    before: State,
    after: State,
    p: PlayerId,
    incoming: Message,
    r: Result<Effect, ProtocolError>,
) -> bool {
    let unchanged = after.players@ == before.players@ && after.lobbies@ == before.lobbies@;
    match incoming {
        Message::GameHost => if before.players@.contains_key(p) && before.players@[p] == Option::<
            LobbyId,
        >::None {
            match r {
                Ok(Effect::Joined(l)) => {
                    &&& !before.lobbies@.contains_key(l)
                    &&& after.players@ == before.players@.insert(p, Some(l))
                    &&& after.lobbies@.dom() == before.lobbies@.dom().insert(l)
                    &&& forall|m: LobbyId| m != l && #[trigger] before.lobbies@.contains_key(m)
                        ==> after.lobbies@[m] == before.lobbies@[m]
                    &&& after.lobbies@[l].ids() == seq![p]
                    &&& after.lobbies@[l].host_id == Some(p)
                    &&& after.lobbies@[l].game_phase == GamePhase::Lobby
                    &&& after.lobbies@[l].game_state.is_empty()
                },
                _ => false,
            }
        } else if !before.players@.contains_key(p) {
            r == Err::<Effect, ProtocolError>(ProtocolError::InvalidPlayerId(p)) && unchanged
        } else {
            r == Err::<Effect, ProtocolError>(ProtocolError::InvalidMessage) && unchanged
        },
        Message::GameJoin { lobby_id } => match join_outcome(before, p, lobby_id) {
            Ok(_) => r == Ok::<Effect, ProtocolError>(Effect::Joined(lobby_id)) && joined(
                before,
                after,
                p,
                lobby_id,
            ),
            Err(e) => r == Err::<Effect, ProtocolError>(e) && unchanged,
        },
        Message::GameBegin => match lobby_of(before, p) {
            Ok(l) => if before.lobbies@[l].host_id == Some(p) {
                &&& r == Ok::<Effect, ProtocolError>(Effect::Broadcast(l))
                &&& replaced(before, after, l)
                &&& after.lobbies@[l].game_phase == GamePhase::Playing
                &&& after.lobbies@[l].game_state == before.lobbies@[l].game_state
                &&& after.lobbies@[l].players@ == before.lobbies@[l].players@
                &&& after.lobbies@[l].options == before.lobbies@[l].options
            } else {
                r == Err::<Effect, ProtocolError>(ProtocolError::InvalidMessage) && unchanged
            },
            Err(e) => r == Err::<Effect, ProtocolError>(e) && unchanged,
        },
        Message::GameLeave => {
            &&& left(before, after, p)
            &&& r == Ok::<Effect, ProtocolError>(
                Effect::Left(
                    match lobby_of(before, p) {
                        Ok(l) => if before.lobbies@[l].players@.len() == 1 {
                            None
                        } else {
                            Some(l)
                        },
                        Err(_) => None,
                    },
                ),
            )
        },
        Message::PlayerOptions { options } => match lobby_of(before, p) {
            Ok(l) => {
                let (lb, la) = (before.lobbies@[l], after.lobbies@[l]);
                &&& r == Ok::<Effect, ProtocolError>(Effect::Broadcast(l))
                &&& replaced(before, after, l)
                &&& la.players@.len() == lb.players@.len()
                &&& forall|i: int| 0 <= i < lb.players@.len() ==> if #[trigger] lb.players@[i].id == p {
                    &&& la.players@[i].options.name == options.name
                    &&& la.players@[i].options.color == lb.players@[i].options.color
                    &&& la.players@[i].current_room == lb.players@[i].current_room
                } else {
                    la.players@[i] == lb.players@[i]
                }
                &&& la.game_phase == lb.game_phase
                &&& la.options == lb.options
                &&& la.game_state == lb.game_state
            },
            Err(e) => r == Err::<Effect, ProtocolError>(e) && unchanged,
        },
        Message::GameOptions { options } => match lobby_of(before, p) {
            Ok(l) => if before.lobbies@[l].host_id == Some(p) {
                &&& r == Ok::<Effect, ProtocolError>(Effect::Broadcast(l))
                &&& replaced(before, after, l)
                &&& after.lobbies@[l].options == options
                &&& after.lobbies@[l].game_phase == before.lobbies@[l].game_phase
                &&& after.lobbies@[l].game_state == before.lobbies@[l].game_state
                &&& after.lobbies@[l].players@ == before.lobbies@[l].players@
            } else {
                r == Err::<Effect, ProtocolError>(ProtocolError::InvalidMessage) && unchanged
            },
            Err(e) => r == Err::<Effect, ProtocolError>(e) && unchanged,
        },
        Message::GameCurrentRoom { room } => match lobby_of(before, p) {
            Ok(l) => {
                &&& r == Ok::<Effect, ProtocolError>(Effect::Broadcast(l))
                &&& replaced(before, after, l)
                &&& after.lobbies@[l].players@.len() == before.lobbies@[l].players@.len()
                &&& forall|i: int| 0 <= i < before.lobbies@[l].players@.len() ==> if #[trigger] before.lobbies@[l].players@[i].id == p {
                    after.lobbies@[l].players@[i].current_room == room
                        && after.lobbies@[l].players@[i].options == before.lobbies@[l].players@[i].options
                } else {
                    after.lobbies@[l].players@[i] == before.lobbies@[l].players@[i]
                }
                &&& after.lobbies@[l].game_phase == before.lobbies@[l].game_phase
                &&& after.lobbies@[l].options == before.lobbies@[l].options
                &&& after.lobbies@[l].game_state == before.lobbies@[l].game_state
            },
            Err(e) => r == Err::<Effect, ProtocolError>(e) && unchanged,
        },
        Message::GameItemCollected { item } => match item {
            Item::Spatula(spat) => match lobby_of(before, p) {
                Ok(l) => {
                    let (lb, la) = (before.lobbies@[l], after.lobbies@[l]);
                    if lb.game_state.tier_of(spat) == SpatulaTier::Terminal {
                        r == Ok::<Effect, ProtocolError>(Effect::Quiet) && unchanged
                    } else {
                        &&& r == Ok::<Effect, ProtocolError>(Effect::Broadcast(l))
                        &&& replaced(before, after, l)
                        &&& spat == FINAL_SPATULA ==> la.game_phase == GamePhase::Lobby
                            && la.game_state.is_empty()
                        &&& spat != FINAL_SPATULA ==> la.game_phase == lb.game_phase && collected(
                            lb.game_state,
                            la.game_state,
                            p,
                            spat,
                        )
                    }
                },
                Err(e) => r == Err::<Effect, ProtocolError>(e) && unchanged,
            },
        },
        _ => r == Err::<Effect, ProtocolError>(ProtocolError::InvalidMessage) && unchanged,
    }
}

/// One connection's view of its player: its id, and whether the version
/// handshake has been accepted.
pub struct Client {
    pub player_id: PlayerId,
    pub accepted: bool,
}

impl Client {
    /// Registers a new player for a new connection.
    pub fn new(state: &mut State) -> (r: Client)
        requires
            old(state).wf(),
            old(state).players@.len() < u32::MAX,
        ensures
            old(state).no_empty_lobbies() ==> final(state).no_empty_lobbies(),
            final(state).wf(),
            !r.accepted,
            !old(state).players@.contains_key(r.player_id),
            final(state).players@ == old(state).players@.insert(r.player_id, None),
            final(state).lobbies@ == old(state).lobbies@,
    {
        let player_id = state.add_player();
        Client { player_id, accepted: false }
    }

    /// Cleanup when the connection ends, however it ends: the player leaves
    /// its lobby and is unregistered. Returns the lobby to broadcast to.
    pub fn close(&self, state: &mut State) -> (r: Option<LobbyId>)
        requires
            old(state).wf(),
        ensures
            old(state).no_empty_lobbies() ==> final(state).no_empty_lobbies(),
            final(state).wf(),
            !final(state).players@.contains_key(self.player_id),
            exists|mid: State|
                left(*old(state), mid, self.player_id) && final(state).players@
                    == mid.players@.remove(self.player_id) && final(state).lobbies@ == mid.lobbies@,
            r == match lobby_of(*old(state), self.player_id) {
                Ok(l) => if old(state).lobbies@[l].players@.len() == 1 {
                    None
                } else {
                    Some(l)
                },
                Err(_) => None,
            },
    {
        state.remove_player(self.player_id)
    }

    /// Handles one request of the player. Until the version handshake has
    /// been accepted every other request is refused; afterwards a second
    /// handshake is. Returns what the connection must do next, or the error
    /// to classify with `classify_error`.
    pub fn process_incoming(&mut self, state: &mut State, incoming: Message) -> (r: Result<Effect, ProtocolError>)
        requires
            old(state).wf(),
            old(state).lobbies@.len() < u32::MAX,
        ensures
            old(state).no_empty_lobbies() ==> final(state).no_empty_lobbies(),
            final(state).wf(),
            final(self).player_id == old(self).player_id,
            final(self).accepted == (old(self).accepted || r is Ok),
            r is Err ==> final(state).players@ == old(state).players@ && final(state).lobbies@
                == old(state).lobbies@,
            !old(self).accepted ==> match incoming {
                Message::Version { version } => if version@ == VERSION@ {
                    r == Ok::<Effect, ProtocolError>(
                        Effect::Reply(Message::ConnectionAccept { player_id: old(self).player_id }),
                    ) && final(state).players@ == old(state).players@ && final(state).lobbies@
                        == old(state).lobbies@
                } else {
                    match r {
                        Err(ProtocolError::VersionMismatch(got, want)) => got@ == version@ && want@
                            == VERSION@,
                        _ => false,
                    }
                },
                _ => r == Err::<Effect, ProtocolError>(ProtocolError::InvalidMessage),
            },
            old(self).accepted ==> request_handled(*old(state), *final(state), old(self).player_id, incoming, r),
    {
        let p = self.player_id;
        if !self.accepted {
            return match incoming {
                Message::Version { version } => {
                    if same_text(version.as_str(), VERSION) {
                        self.accepted = true;
                        Ok(Effect::Reply(Message::ConnectionAccept { player_id: p }))
                    } else {
                        Err(ProtocolError::VersionMismatch(version, VERSION.to_string()))
                    }
                },
                _ => Err(ProtocolError::InvalidMessage),
            };
        }
        match incoming {
            Message::GameHost => match state.host_lobby(p) {
                Ok(l) => Ok(Effect::Joined(l)),
                Err(e) => Err(e),
            },
            Message::GameJoin { lobby_id } => match state.join_lobby(p, lobby_id) {
                Ok(()) => Ok(Effect::Joined(lobby_id)),
                Err(e) => Err(e),
            },
            Message::GameBegin => match state.start_game(p) {
                Ok(l) => Ok(Effect::Broadcast(l)),
                Err(e) => Err(e),
            },
            Message::GameLeave => Ok(Effect::Left(state.leave_lobby(p))),
            Message::PlayerOptions { options } => match state.set_player_options(p, options) {
                Ok(l) => Ok(Effect::Broadcast(l)),
                Err(e) => Err(e),
            },
            Message::GameOptions { options } => match state.set_game_options(p, options) {
                Ok(l) => Ok(Effect::Broadcast(l)),
                Err(e) => Err(e),
            },
            Message::GameCurrentRoom { room } => match state.set_current_room(p, room) {
                Ok(l) => Ok(Effect::Broadcast(l)),
                Err(e) => Err(e),
            },
            Message::GameItemCollected { item } => match item {
                Item::Spatula(spat) => match state.item_collected(p, spat) {
                    Ok(Some(l)) => Ok(Effect::Broadcast(l)),
                    Ok(None) => Ok(Effect::Quiet),
                    Err(e) => Err(e),
                },
            },
            _ => Err(ProtocolError::InvalidMessage),
        }
    }
}

} // verus!
