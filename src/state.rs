use vstd::prelude::*;
use std::collections::HashMap;

use crate::game_state::{collected, SpatulaTier};
use crate::lobby::{GamePhase, LobbyOptions, PlayerOptions, ProtocolError, SharedLobby, DEFAULT_LAB_DOOR_COST};
use crate::{LobbyId, PlayerId, Room, Spatula, FINAL_SPATULA, MAX_PLAYERS};

verus! {

broadcast use vstd::std_specs::hash::group_hash_axioms;

/// Registered players, each with the lobby it is in, if any.
pub type PlayerMap = HashMap<PlayerId, Option<LobbyId>>;

/// Live lobbies by id.
pub type LobbyMap = HashMap<LobbyId, SharedLobby>;

/// How many random identifiers are drawn before the lowest free one is taken.
pub const RANDOM_TRIES: u32 = 16;

/// Relies on rand::thread_rng and rand::Rng::gen: a random u32, of which
/// nothing is promised.
#[verifier::external_body]
fn random_u32() -> (r: u32) {
    rand::Rng::gen::<u32>(&mut rand::thread_rng())
}

/// An identifier that is not a key of `m`: random draws first, then, should
/// all of them collide, the lowest free value.
fn fresh_id<V>(m: &HashMap<u32, V>) -> (r: u32)
    requires
        m@.len() < u32::MAX,
    ensures
        !m@.contains_key(r),
{
    let mut tries: u32 = 0;
    while tries < RANDOM_TRIES
        invariant
            tries <= RANDOM_TRIES,
        decreases RANDOM_TRIES - tries,
    {
        let c = random_u32();
        if !m.contains_key(&c) {
            return c;
        }
        tries += 1;
    }
    let mut c: u32 = 0;
    let ghost mut seen = Set::<u32>::empty();
    loop
        invariant
            m@.dom().finite(),
            m@.len() < u32::MAX,
            c <= m@.len(),
            seen.finite(),
            seen.len() == c,
            forall|k: u32| #[trigger] seen.contains(k) <==> k < c,
            seen.subset_of(m@.dom()),
        decreases m@.len() - c,
    {
        if !m.contains_key(&c) {
            return c;
        }
        proof {
            assert(!seen.contains(c));
            seen = seen.insert(c);
            vstd::set_lib::lemma_len_subset(seen, m@.dom());
        }
        c += 1;
    }
}

/// The server's registry of players and lobbies.
pub struct State {
    pub players: PlayerMap,
    pub lobbies: LobbyMap,
}

/// What `get_lobby` answers for player `p`.
pub open spec fn lobby_of(s: State, p: PlayerId) -> Result<LobbyId, ProtocolError> {
    if !s.players@.contains_key(p) {
        Err(ProtocolError::InvalidPlayerId(p))
    } else {
        match s.players@[p] {
            Some(l) => Ok(l),
            None => Err(ProtocolError::InvalidMessage),
        }
    }
}

/// What joining lobby `l` answers for player `p`.
pub open spec fn join_outcome(s: State, p: PlayerId, l: LobbyId) -> Result<(), ProtocolError> {
    if !s.lobbies@.contains_key(l) {
        Err(ProtocolError::InvalidLobbyId(l))
    } else if !s.players@.contains_key(p) {
        Err(ProtocolError::InvalidPlayerId(p))
    } else if s.players@[p] is Some {
        Err(ProtocolError::InvalidMessage)
    } else if s.lobbies@[l].game_phase == GamePhase::Playing || s.lobbies@[l].players@.len() >= MAX_PLAYERS {
        Err(ProtocolError::InvalidMessage)
    } else {
        Ok(())
    }
}

/// `after` is `before` with player `p` added to lobby `l` as its newest
/// member, and nothing else changed but the host of a lobby that had none.
pub open spec fn joined(before: State, after: State, p: PlayerId, l: LobbyId) -> bool {
    &&& after.players@ == before.players@.insert(p, Some(l))
    &&& after.lobbies@.dom() == before.lobbies@.dom()
    &&& forall|m: LobbyId| m != l && #[trigger] before.lobbies@.contains_key(m)
        ==> after.lobbies@[m] == before.lobbies@[m]
    &&& after.lobbies@[l].ids() == before.lobbies@[l].ids().push(p)
    &&& after.lobbies@[l].host_id == match before.lobbies@[l].host_id {
        Some(h) => Some(h),
        None => Some(p),
    }
    &&& after.lobbies@[l].game_phase == before.lobbies@[l].game_phase
    &&& after.lobbies@[l].options == before.lobbies@[l].options
    &&& after.lobbies@[l].game_state == before.lobbies@[l].game_state
}

/// `after` is `before` with player `p` out of its lobby: `p` is marked as
/// in no lobby, and the lobby, if it has members left, lists them all but
/// `p`; else it is gone. A player in no lobby changes nothing.
pub open spec fn left(before: State, after: State, p: PlayerId) -> bool {
    match lobby_of(before, p) {
        Ok(l) => {
            &&& after.players@ == before.players@.insert(p, None)
            &&& if before.lobbies@[l].players@.len() == 1 {
                after.lobbies@ == before.lobbies@.remove(l)
            } else {
                &&& after.lobbies@.dom() == before.lobbies@.dom()
                &&& forall|m: LobbyId| m != l && #[trigger] before.lobbies@.contains_key(m)
                    ==> after.lobbies@[m] == before.lobbies@[m]
                &&& after.lobbies@[l].players@.len() == before.lobbies@[l].players@.len() - 1
                &&& forall|q: PlayerId| #[trigger] after.lobbies@[l].has_player(q)
                    == (before.lobbies@[l].has_player(q) && q != p)
                &&& after.lobbies@[l].game_phase == before.lobbies@[l].game_phase
                &&& after.lobbies@[l].options == before.lobbies@[l].options
                &&& after.lobbies@[l].game_state == before.lobbies@[l].game_state
            }
        },
        Err(_) => after.players@ == before.players@ && after.lobbies@ == before.lobbies@,
    }
}

/// `after` differs from `before` at most in lobby `l`, which keeps its
/// members, in order, and its host.
pub open spec fn replaced(before: State, after: State, l: LobbyId) -> bool {
    &&& after.players@ == before.players@
    &&& before.lobbies@.contains_key(l)
    &&& after.lobbies@ == before.lobbies@.insert(l, after.lobbies@[l])
    &&& after.lobbies@[l].lobby_id == l
    &&& after.lobbies@[l].ids() == before.lobbies@[l].ids()
    &&& after.lobbies@[l].host_id == before.lobbies@[l].host_id
}

/// `after` is `before` with a new unaffiliated player `id`, which differs
/// from every registered player.
pub open spec fn player_added(before: State, after: State, id: PlayerId) -> bool {
    &&& !before.players@.contains_key(id)
    &&& after.players@ == before.players@.insert(id, None)
    &&& after.lobbies@ == before.lobbies@
}

/// `after` is `before` with a new lobby `id`, which differs from every live
/// lobby.
pub open spec fn lobby_added(before: State, after: State, id: LobbyId) -> bool {
    &&& !before.lobbies@.contains_key(id)
    &&& after.players@ == before.players@
    &&& after.lobbies@.dom() == before.lobbies@.dom().insert(id)
}

/// A step that registers nobody and creates no lobby.
pub open spec fn shrinks_or_keeps(before: State, after: State) -> bool {
    &&& after.players@.dom().subset_of(before.players@.dom())
    &&& after.lobbies@.dom().subset_of(before.lobbies@.dom())
}

/// Over any run of registrations, new lobbies and departures in any order,
/// every identifier handed out differs from all identifiers live at that
/// moment, and is live right after.
pub proof fn lemma_ids_never_collide(trace: Seq<State>, new_players: Seq<Option<PlayerId>>, new_lobbies: Seq<Option<LobbyId>>)
    requires
        trace.len() == new_players.len() + 1,
        new_lobbies.len() == new_players.len(),
        forall|i: int| 0 <= i < new_players.len() ==> match (#[trigger] new_players[i], new_lobbies[i]) {
            (Some(p), None) => player_added(trace[i], trace[i + 1], p),
            (None, Some(l)) => lobby_added(trace[i], trace[i + 1], l),
            (None, None) => shrinks_or_keeps(trace[i], trace[i + 1]),
            (Some(_), Some(_)) => false,
        },
    ensures
        forall|i: int| 0 <= i < new_players.len() && (#[trigger] new_players[i]) is Some ==> {
            let q = new_players[i]->0;
            &&& !trace[i].players@.contains_key(q)
            &&& trace[i + 1].players@.contains_key(q)
            &&& forall|o: PlayerId| #[trigger] trace[i].players@.contains_key(o) ==> o != q
        },
        forall|i: int| 0 <= i < new_lobbies.len() && (#[trigger] new_lobbies[i]) is Some ==> {
            let q = new_lobbies[i]->0;
            &&& !trace[i].lobbies@.contains_key(q)
            &&& trace[i + 1].lobbies@.contains_key(q)
            &&& forall|o: LobbyId| #[trigger] trace[i].lobbies@.contains_key(o) ==> o != q
        },
{
    assert forall|i: int| 0 <= i < new_players.len() && (#[trigger] new_players[i]) is Some
        implies trace[i + 1].players@.contains_key(new_players[i]->0) by {
        assert(new_lobbies[i] is None);
    }
    assert forall|i: int| 0 <= i < new_lobbies.len() && (#[trigger] new_lobbies[i]) is Some
        implies !trace[i].lobbies@.contains_key(new_lobbies[i]->0) && trace[i + 1].lobbies@.contains_key(new_lobbies[i]->0) by {
        assert(new_players[i] is None);
        assert(lobby_added(trace[i], trace[i + 1], new_lobbies[i]->0));
        assert(trace[i + 1].lobbies@.dom().contains(new_lobbies[i]->0));
    }
}

/// Members of lobby `l` in `s`; a lobby that is gone has none.
pub open spec fn lobby_size(s: State, l: LobbyId) -> int {
    if s.lobbies@.contains_key(l) {
        s.lobbies@[l].players@.len() as int
    } else {
        0
    }
}

/// How many of the first `i` steps are joins.
pub open spec fn count_joins(kinds: Seq<bool>, i: int) -> int
    decreases i,
{
    if i <= 0 {
        0
    } else {
        count_joins(kinds, i - 1) + if kinds[i - 1] { 1int } else { 0int }
    }
}

/// A successful join of `p` to lobby `l`, or `p` leaving lobby `l`.
pub open spec fn membership_step(before: State, after: State, l: LobbyId, p: PlayerId, is_join: bool) -> bool {
    if is_join {
        join_outcome(before, p, l) is Ok && joined(before, after, p, l)
    } else {
        lobby_of(before, p) == Ok::<LobbyId, ProtocolError>(l) && left(before, after, p)
    }
}

proof fn lemma_membership_step(before: State, after: State, l: LobbyId, p: PlayerId, is_join: bool)
    requires
        before.wf(),
        membership_step(before, after, l, p, is_join),
        before.lobbies@.contains_key(l) <==> lobby_size(before, l) > 0,
    ensures
        before.lobbies@.contains_key(l),
        lobby_size(after, l) == lobby_size(before, l) + if is_join { 1int } else { -1int },
        after.lobbies@.contains_key(l) <==> lobby_size(after, l) > 0,
{
    if is_join {
        assert(after.lobbies@[l].ids().len() == before.lobbies@[l].ids().len() + 1);
        assert(after.lobbies@.dom().contains(l));
    } else {
        assert(before.players@.contains_key(p) && before.players@[p] is Some);
        assert(before.lobbies@[l].has_player(p));
        if before.lobbies@[l].players@.len() != 1 {
            assert(after.lobbies@.dom().contains(l));
        }
    }
}

/// A lobby that its members join and leave, in any order, has as many
/// members as it started with plus the joins less the leaves, and is live
/// exactly while that number is above zero: after as many leaves as joins
/// (its host's founding counts as one) it is gone, and with one leave fewer
/// it persists with a single member.
pub proof fn lemma_lobby_lives_while_occupied(
    trace: Seq<State>,
    l: LobbyId,
    players: Seq<PlayerId>,
    kinds: Seq<bool>,
)
    requires
        trace.len() == kinds.len() + 1,
        players.len() == kinds.len(),
        forall|i: int| 0 <= i < trace.len() ==> #[trigger] trace[i].wf(),
        trace[0].lobbies@.contains_key(l),
        trace[0].lobbies@[l].players@.len() > 0,
        forall|i: int| 0 <= i < kinds.len() ==> membership_step(trace[i], #[trigger] trace[i + 1], l, players[i], kinds[i]),
    ensures
        forall|i: int| 0 <= i < trace.len() ==> #[trigger] lobby_size(trace[i], l)
            == lobby_size(trace[0], l) + 2 * count_joins(kinds, i) - i,
        forall|i: int| 0 <= i < trace.len() ==> (#[trigger] trace[i].lobbies@.contains_key(l) <==> lobby_size(trace[i], l) > 0),
        lobby_size(trace[0], l) + 2 * count_joins(kinds, kinds.len() as int) - kinds.len() == 0
            ==> !trace[kinds.len() as int].lobbies@.contains_key(l),
        lobby_size(trace[0], l) + 2 * count_joins(kinds, kinds.len() as int) - kinds.len() == 1
            ==> trace[kinds.len() as int].lobbies@.contains_key(l)
            && trace[kinds.len() as int].lobbies@[l].players@.len() == 1,
    decreases kinds.len(),
{
    let n = kinds.len() as int;
    if n > 0 {
        let t = trace.drop_last();
        let k = kinds.drop_last();
        assert forall|i: int| 0 <= i < k.len() implies membership_step(t[i], #[trigger] t[i + 1], l, players.drop_last()[i], k[i]) by {
            assert(membership_step(trace[i], trace[i + 1], l, players[i], kinds[i]));
        }
        assert forall|i: int| 0 <= i < t.len() implies #[trigger] t[i].wf() by {
            assert(trace[i].wf());
        }
        lemma_lobby_lives_while_occupied(t, l, players.drop_last(), k);
        assert forall|i: int| 0 <= i <= n - 1 implies count_joins(k, i) == count_joins(kinds, i) by {
            lemma_count_joins_prefix(kinds, i);
        }
        assert(t[n - 1] == trace[n - 1]);
        assert(lobby_size(t[n - 1], l) == lobby_size(t[0], l) + 2 * count_joins(k, n - 1) - (n - 1));
        assert(t[n - 1].lobbies@.contains_key(l) <==> lobby_size(t[n - 1], l) > 0);
        assert(trace[n - 1].wf());
        assert(membership_step(trace[n - 1], trace[n], l, players[n - 1], kinds[n - 1]));
        lemma_membership_step(trace[n - 1], trace[n], l, players[n - 1], kinds[n - 1]);
        assert forall|i: int| 0 <= i < trace.len() implies #[trigger] lobby_size(trace[i], l)
            == lobby_size(trace[0], l) + 2 * count_joins(kinds, i) - i
            && (trace[i].lobbies@.contains_key(l) <==> lobby_size(trace[i], l) > 0) by {
            if i < n {
                assert(t[i] == trace[i]);
                assert(lobby_size(t[i], l) == lobby_size(t[0], l) + 2 * count_joins(k, i) - i);
                assert(t[i].lobbies@.contains_key(l) <==> lobby_size(t[i], l) > 0);
            }
        }
    }
}

proof fn lemma_count_joins_prefix(kinds: Seq<bool>, i: int)
    requires
        0 <= i < kinds.len(),
    ensures
        count_joins(kinds.drop_last(), i) == count_joins(kinds, i),
    decreases i,
{
    if i > 0 {
        lemma_count_joins_prefix(kinds, i - 1);
    }
}

impl State {
    /// No lobby persists without members.
    pub open spec fn no_empty_lobbies(&self) -> bool {
        forall|l: LobbyId| #[trigger] self.lobbies@.contains_key(l) ==> self.lobbies@[l].players@.len() > 0
    }

    /// Every lobby is well formed and filed under its own id, and a player
    /// is marked as in lobby `l` exactly when `l` lists it as a member.
    pub open spec fn wf(&self) -> bool {
        &&& forall|l: LobbyId| #[trigger]
            self.lobbies@.contains_key(l) ==> self.lobbies@[l].wf() && self.lobbies@[l].lobby_id == l
        &&& forall|p: PlayerId, l: LobbyId|
            #![trigger self.lobbies@[l].has_player(p)]
            self.lobbies@.contains_key(l) && self.lobbies@[l].has_player(p)
                ==> self.players@.contains_key(p) && self.players@[p] == Some(l)
        &&& forall|p: PlayerId| #[trigger]
            self.players@.contains_key(p) && self.players@[p] is Some ==> {
                let l = self.players@[p]->0;
                self.lobbies@.contains_key(l) && self.lobbies@[l].has_player(p)
            }
    }

    pub fn new() -> (r: State)
        ensures
            r.wf(),
            r.players@ == Map::<PlayerId, Option<LobbyId>>::empty(),
            r.lobbies@ == Map::<LobbyId, SharedLobby>::empty(),
    {
        State { players: HashMap::new(), lobbies: HashMap::new() }
    }

    /// Registers a new unaffiliated player under an id that no live player has.
    pub fn add_player(&mut self) -> (r: PlayerId)
        requires
            old(self).wf(),
            old(self).players@.len() < u32::MAX,
        ensures
            old(self).no_empty_lobbies() ==> final(self).no_empty_lobbies(),
            final(self).wf(),
            player_added(*old(self), *final(self), r),
    {
        let player_id = self.gen_player_id();
        self.players.insert(player_id, None);
        player_id
    }

    /// Creates an empty lobby with default options under an id that no live
    /// lobby has.
    pub fn add_lobby(&mut self) -> (r: LobbyId)
        requires
            old(self).wf(),
            old(self).lobbies@.len() < u32::MAX,
        ensures
            final(self).wf(),
            lobby_added(*old(self), *final(self), r),
            forall|l: LobbyId| l != r && #[trigger] old(self).lobbies@.contains_key(l)
                ==> final(self).lobbies@[l] == old(self).lobbies@[l],
            final(self).lobbies@[r].lobby_id == r,
            final(self).lobbies@[r].players@.len() == 0,
            final(self).lobbies@[r].host_id == Option::<PlayerId>::None,
            final(self).lobbies@[r].game_phase == GamePhase::Lobby,
            final(self).lobbies@[r].options.lab_door_cost == DEFAULT_LAB_DOOR_COST,
            final(self).lobbies@[r].game_state.is_empty(),
    {
        let lobby_id = self.gen_lobby_id();
        self.lobbies.insert(lobby_id, SharedLobby::new(LobbyOptions::default(), lobby_id));
        proof {
            assert(self.lobbies@.dom() =~= old(self).lobbies@.dom().insert(lobby_id));
        }
        lobby_id
    }

    /// The lobby that player `p` is in. Fails with `InvalidPlayerId` for an
    /// unknown player and with `InvalidMessage` for one in no lobby.
    pub fn get_lobby(&self, p: PlayerId) -> (r: Result<LobbyId, ProtocolError>)
        requires
            self.wf(),
        ensures
            r == lobby_of(*self, p),
            r is Ok ==> self.lobbies@.contains_key(r->Ok_0) && self.lobbies@[r->Ok_0].has_player(p),
    {
        match self.players.get(&p) {
            None => Err(ProtocolError::InvalidPlayerId(p)),
            Some(a) => match *a {
                None => Err(ProtocolError::InvalidMessage),
                Some(l) => Ok(l),
            },
        }
    }

    /// Adds player `p` to lobby `l`: `InvalidLobbyId` if there is no such
    /// lobby, else as `SharedLobby::add_player` decides.
    pub fn join_lobby(&mut self, p: PlayerId, l: LobbyId) -> (r: Result<(), ProtocolError>)
        requires
            old(self).wf(),
        ensures
            old(self).no_empty_lobbies() ==> final(self).no_empty_lobbies(),
            final(self).wf(),
            r == join_outcome(*old(self), p, l),
            r is Err ==> final(self).players@ == old(self).players@ && final(self).lobbies@ == old(self).lobbies@,
            r is Ok ==> joined(*old(self), *final(self), p, l),
    {
        let mut lobby = match self.lobbies.remove(&l) {
            Some(x) => x,
            None => {
                return Err(ProtocolError::InvalidLobbyId(l));
            },
        };
        let ghost before = *old(self);
        proof {
            assert forall|q: PlayerId| #[trigger] lobby.has_player(q) implies self.players@.contains_key(q)
                && self.players@[q] == Some(lobby.lobby_id) by {
                assert(before.lobbies@[l].has_player(q));
            }
        }
        let res = lobby.add_player(&mut self.players, p);
        let ghost after_lobby = lobby;
        self.lobbies.insert(l, lobby);
        proof {
            if res is Err {
                assert(self.lobbies@ =~= before.lobbies@);
            } else {
                assert(self.lobbies@ == before.lobbies@.insert(l, after_lobby));
                assert forall|q: PlayerId| #[trigger] after_lobby.has_player(q) == (before.lobbies@[l].has_player(q) || q == p) by {
                    assert(after_lobby.ids() == before.lobbies@[l].ids().push(p));
                    if before.lobbies@[l].has_player(q) {
                        let j = before.lobbies@[l].ids().index_of(q);
                        assert(after_lobby.ids()[j] == q);
                    }
                    if after_lobby.has_player(q) && q != p {
                        let j = after_lobby.ids().index_of(q);
                        assert(before.lobbies@[l].ids()[j] == q);
                    }
                    assert(after_lobby.ids()[after_lobby.ids().len() - 1] == p);
                }
                assert forall|q: PlayerId, m: LobbyId|
                    self.lobbies@.contains_key(m) && #[trigger] self.lobbies@[m].has_player(q)
                    implies self.players@.contains_key(q) && self.players@[q] == Some(m) by {
                    if m != l && q == p {
                        assert(before.lobbies@[m].has_player(p));
                    }
                }
                assert forall|q: PlayerId| #[trigger] self.players@.contains_key(q) && self.players@[q] is Some
                    implies self.lobbies@.contains_key(self.players@[q]->0) && self.lobbies@[self.players@[q]->0].has_player(q) by {
                }
            }
        }
        res
    }

    /// Creates a lobby and makes player `p` its host. Fails, creating
    /// nothing, with `InvalidPlayerId` for an unknown player and with
    /// `InvalidMessage` for one already in a lobby.
    pub fn host_lobby(&mut self, p: PlayerId) -> (r: Result<LobbyId, ProtocolError>)
        requires
            old(self).wf(),
            old(self).lobbies@.len() < u32::MAX,
        ensures
            old(self).no_empty_lobbies() ==> final(self).no_empty_lobbies(),
            final(self).wf(),
            !old(self).players@.contains_key(p)
                ==> r == Err::<LobbyId, ProtocolError>(ProtocolError::InvalidPlayerId(p)),
            old(self).players@.contains_key(p) && old(self).players@[p] is Some
                ==> r == Err::<LobbyId, ProtocolError>(ProtocolError::InvalidMessage),
            r is Err ==> final(self).players@ == old(self).players@ && final(self).lobbies@ == old(self).lobbies@,
            old(self).players@.contains_key(p) && old(self).players@[p] == Option::<LobbyId>::None
                ==> r is Ok,
            r is Ok ==> {
                let l = r->Ok_0;
                &&& !old(self).lobbies@.contains_key(l)
                &&& final(self).players@ == old(self).players@.insert(p, Some(l))
                &&& final(self).lobbies@.dom() == old(self).lobbies@.dom().insert(l)
                &&& forall|m: LobbyId| m != l && #[trigger] old(self).lobbies@.contains_key(m)
                    ==> final(self).lobbies@[m] == old(self).lobbies@[m]
                &&& final(self).lobbies@[l].ids() == seq![p]
                &&& final(self).lobbies@[l].host_id == Some(p)
                &&& final(self).lobbies@[l].game_phase == GamePhase::Lobby
                &&& final(self).lobbies@[l].game_state.is_empty()
            },
    {
        match self.players.get(&p) {
            Some(a) => {
                if a.is_some() {
                    return Err(ProtocolError::InvalidMessage);
                }
            },
            None => {
                return Err(ProtocolError::InvalidPlayerId(p));
            },
        }
        let l = self.add_lobby();
        let ghost mid = *self;
        let res = self.join_lobby(p, l);
        proof {
            assert(mid.lobbies@[l].ids() =~= Seq::<PlayerId>::empty());
            assert(res is Ok);
            assert(self.lobbies@[l].ids() =~= seq![p]);
            assert forall|m: LobbyId| m != l && #[trigger] old(self).lobbies@.contains_key(m)
                implies self.lobbies@[m] == old(self).lobbies@[m] by {
                assert(mid.lobbies@.contains_key(m));
            }
            assert(self.lobbies@.dom() =~= old(self).lobbies@.dom().insert(l));
        }
        match res {
            Ok(()) => Ok(l),
            Err(e) => Err(e),
        }
    }

    /// Takes player `p` out of its lobby, if it is in one, and removes that
    /// lobby when `p` was its last member. Returns the lobby that is still
    /// live and has changed.
    pub fn leave_lobby(&mut self, p: PlayerId) -> (r: Option<LobbyId>)
        requires
            old(self).wf(),
        ensures
            old(self).no_empty_lobbies() ==> final(self).no_empty_lobbies(),
            final(self).wf(),
            left(*old(self), *final(self), p),
            r == match lobby_of(*old(self), p) {
                Ok(l) => if old(self).lobbies@[l].players@.len() == 1 { None } else { Some(l) },
                Err(_) => None,
            },
    {
        let l = match self.players.get(&p) {
            Some(a) => match *a {
                Some(l) => l,
                None => {
                    return None;
                },
            },
            None => {
                return None;
            },
        };
        let ghost before = *old(self);
        self.players.insert(p, None);
        let mut lobby = match self.lobbies.remove(&l) {
            Some(x) => x,
            None => {
                assert(false);
                return None;
            },
        };
        let n = lobby.rem_player(p);
        if n == 0 {
            proof {
                assert(self.lobbies@ == before.lobbies@.remove(l));
                assert forall|q: PlayerId, m: LobbyId|
                    self.lobbies@.contains_key(m) && #[trigger] self.lobbies@[m].has_player(q)
                    implies self.players@.contains_key(q) && self.players@[q] == Some(m) by {
                    if q == p {
                        assert(before.lobbies@[m].has_player(p));
                    }
                }
                assert forall|q: PlayerId| #[trigger] self.players@.contains_key(q) && self.players@[q] is Some
                    implies self.lobbies@.contains_key(self.players@[q]->0) && self.lobbies@[self.players@[q]->0].has_player(q) by {
                    let m = before.players@[q]->0;
                    if m == l {
                        assert(before.lobbies@[l].has_player(q));
                        assert(lobby.has_player(q));
                        assert(lobby.players@.len() > 0);
                    }
                }
            }
            None
        } else {
            let ghost after_lobby = lobby;
            self.lobbies.insert(l, lobby);
            proof {
                assert(self.lobbies@ == before.lobbies@.insert(l, after_lobby));
                assert forall|q: PlayerId, m: LobbyId|
                    self.lobbies@.contains_key(m) && #[trigger] self.lobbies@[m].has_player(q)
                    implies self.players@.contains_key(q) && self.players@[q] == Some(m) by {
                    if q == p && m != l {
                        assert(before.lobbies@[m].has_player(p));
                    }
                    if m == l {
                        assert(before.lobbies@[l].has_player(q));
                    }
                }
                assert forall|q: PlayerId| #[trigger] self.players@.contains_key(q) && self.players@[q] is Some
                    implies self.lobbies@.contains_key(self.players@[q]->0) && self.lobbies@[self.players@[q]->0].has_player(q) by {
                    assert(before.lobbies@[before.players@[q]->0].has_player(q));
                }
            }
            Some(l)
        }
    }

    /// Unregisters player `p` after taking it out of its lobby. Returns the
    /// lobby that is still live and has changed.
    pub fn remove_player(&mut self, p: PlayerId) -> (r: Option<LobbyId>)
        requires
            old(self).wf(),
        ensures
            old(self).no_empty_lobbies() ==> final(self).no_empty_lobbies(),
            final(self).wf(),
            !final(self).players@.contains_key(p),
            exists|mid: State| left(*old(self), mid, p) && final(self).players@ == mid.players@.remove(p)
                && final(self).lobbies@ == mid.lobbies@,
            r == match lobby_of(*old(self), p) {
                Ok(l) => if old(self).lobbies@[l].players@.len() == 1 { None } else { Some(l) },
                Err(_) => None,
            },
    {
        let r = self.leave_lobby(p);
        let ghost mid = *self;
        self.players.remove(&p);
        proof {
            assert forall|q: PlayerId, m: LobbyId|
                self.lobbies@.contains_key(m) && #[trigger] self.lobbies@[m].has_player(q)
                implies self.players@.contains_key(q) && self.players@[q] == Some(m) by {
                assert(mid.lobbies@[m].has_player(q));
            }
            assert(left(*old(self), mid, p));
        }
        r
    }

    /// Starts the round of player `p`'s lobby; only its host may.
    pub fn start_game(&mut self, p: PlayerId) -> (r: Result<LobbyId, ProtocolError>)
        requires
            old(self).wf(),
        ensures
            old(self).no_empty_lobbies() ==> final(self).no_empty_lobbies(),
            final(self).wf(),
            r is Err ==> final(self).players@ == old(self).players@ && final(self).lobbies@ == old(self).lobbies@,
            lobby_of(*old(self), p) is Err ==> r == lobby_of(*old(self), p),
            lobby_of(*old(self), p) is Ok ==> {
                let l = lobby_of(*old(self), p)->Ok_0;
                if old(self).lobbies@[l].host_id != Some(p) {
                    r == Err::<LobbyId, ProtocolError>(ProtocolError::InvalidMessage)
                } else {
                    &&& r == Ok::<LobbyId, ProtocolError>(l)
                    &&& replaced(*old(self), *final(self), l)
                    &&& final(self).lobbies@[l].game_phase == GamePhase::Playing
                    &&& final(self).lobbies@[l].options == old(self).lobbies@[l].options
                    &&& final(self).lobbies@[l].game_state == old(self).lobbies@[l].game_state
                    &&& final(self).lobbies@[l].players@ == old(self).lobbies@[l].players@
                }
            },
    {
        let l = match self.get_lobby(p) {
            Ok(l) => l,
            Err(e) => {
                return Err(e);
            },
        };
        let mut lobby = match self.lobbies.remove(&l) {
            Some(x) => x,
            None => {
                assert(false);
                return Err(ProtocolError::InvalidLobbyId(l));
            },
        };
        if lobby.host_id != Some(p) {
            self.lobbies.insert(l, lobby);
            assert(self.lobbies@ =~= old(self).lobbies@);
            return Err(ProtocolError::InvalidMessage);
        }
        lobby.start_game();
        self.put_back(l, lobby, Ghost(*old(self)));
        Ok(l)
    }

    /// Replaces the options of player `p`'s lobby; only its host may.
    pub fn set_game_options(&mut self, p: PlayerId, options: LobbyOptions) -> (r: Result<LobbyId, ProtocolError>)
        requires
            old(self).wf(),
        ensures
            old(self).no_empty_lobbies() ==> final(self).no_empty_lobbies(),
            final(self).wf(),
            r is Err ==> final(self).players@ == old(self).players@ && final(self).lobbies@ == old(self).lobbies@,
            lobby_of(*old(self), p) is Err ==> r == lobby_of(*old(self), p),
            lobby_of(*old(self), p) is Ok ==> {
                let l = lobby_of(*old(self), p)->Ok_0;
                if old(self).lobbies@[l].host_id != Some(p) {
                    r == Err::<LobbyId, ProtocolError>(ProtocolError::InvalidMessage)
                } else {
                    &&& r == Ok::<LobbyId, ProtocolError>(l)
                    &&& replaced(*old(self), *final(self), l)
                    &&& final(self).lobbies@[l].options == options
                    &&& final(self).lobbies@[l].game_phase == old(self).lobbies@[l].game_phase
                    &&& final(self).lobbies@[l].game_state == old(self).lobbies@[l].game_state
                    &&& final(self).lobbies@[l].players@ == old(self).lobbies@[l].players@
                }
            },
    {
        let l = match self.get_lobby(p) {
            Ok(l) => l,
            Err(e) => {
                return Err(e);
            },
        };
        let mut lobby = match self.lobbies.remove(&l) {
            Some(x) => x,
            None => {
                assert(false);
                return Err(ProtocolError::InvalidLobbyId(l));
            },
        };
        if lobby.host_id != Some(p) {
            self.lobbies.insert(l, lobby);
            assert(self.lobbies@ =~= old(self).lobbies@);
            return Err(ProtocolError::InvalidMessage);
        }
        lobby.options = options;
        self.put_back(l, lobby, Ghost(*old(self)));
        Ok(l)
    }

    /// Records the room that player `p` reports.
    pub fn set_current_room(&mut self, p: PlayerId, room: Option<Room>) -> (r: Result<LobbyId, ProtocolError>)
        requires
            old(self).wf(),
        ensures
            old(self).no_empty_lobbies() ==> final(self).no_empty_lobbies(),
            final(self).wf(),
            r is Err ==> final(self).players@ == old(self).players@ && final(self).lobbies@ == old(self).lobbies@,
            lobby_of(*old(self), p) is Err ==> r == lobby_of(*old(self), p),
            lobby_of(*old(self), p) is Ok ==> {
                let l = lobby_of(*old(self), p)->Ok_0;
                let (lb, la) = (old(self).lobbies@[l], final(self).lobbies@[l]);
                &&& r == Ok::<LobbyId, ProtocolError>(l)
                &&& replaced(*old(self), *final(self), l)
                &&& la.players@.len() == lb.players@.len()
                &&& forall|i: int| 0 <= i < lb.players@.len() ==> if #[trigger] lb.players@[i].id == p {
                    la.players@[i].current_room == room && la.players@[i].options == lb.players@[i].options
                } else {
                    la.players@[i] == lb.players@[i]
                }
                &&& la.game_phase == lb.game_phase
                &&& la.options == lb.options
                &&& la.game_state == lb.game_state
            },
    {
        let l = match self.get_lobby(p) {
            Ok(l) => l,
            Err(e) => {
                return Err(e);
            },
        };
        let mut lobby = match self.lobbies.remove(&l) {
            Some(x) => x,
            None => {
                assert(false);
                return Err(ProtocolError::InvalidLobbyId(l));
            },
        };
        let i = match lobby.find_player(p) {
            Some(i) => i,
            None => {
                assert(false);
                return Err(ProtocolError::InvalidPlayerId(p));
            },
        };
        lobby.set_room(i, room);
        proof {
            let lb = old(self).lobbies@[l];
            assert forall|j: int| 0 <= j < lb.players@.len() && #[trigger] lb.players@[j].id == p implies j == i by {
                assert(lb.ids()[j] == lb.ids()[i as int]);
            }
        }
        self.put_back(l, lobby, Ghost(*old(self)));
        Ok(l)
    }

    /// Replaces player `p`'s options, keeping the color the server gave it.
    pub fn set_player_options(&mut self, p: PlayerId, options: PlayerOptions) -> (r: Result<LobbyId, ProtocolError>)
        requires
            old(self).wf(),
        ensures
            old(self).no_empty_lobbies() ==> final(self).no_empty_lobbies(),
            final(self).wf(),
            r is Err ==> final(self).players@ == old(self).players@ && final(self).lobbies@ == old(self).lobbies@,
            lobby_of(*old(self), p) is Err ==> r == lobby_of(*old(self), p),
            lobby_of(*old(self), p) is Ok ==> {
                let l = lobby_of(*old(self), p)->Ok_0;
                let (lb, la) = (old(self).lobbies@[l], final(self).lobbies@[l]);
                &&& r == Ok::<LobbyId, ProtocolError>(l)
                &&& replaced(*old(self), *final(self), l)
                &&& la.players@.len() == lb.players@.len()
                &&& forall|i: int| 0 <= i < lb.players@.len() ==> if #[trigger] lb.players@[i].id == p {
                    &&& la.players@[i].options.name == options.name
                    &&& la.players@[i].options.color == lb.players@[i].options.color
                    &&& la.players@[i].current_room == lb.players@[i].current_room
                } else {
                    la.players@[i] == lb.players@[i]
                }
                &&& la.game_phase == lb.game_phase
                &&& la.options == lb.options
                &&& la.game_state == lb.game_state
            },
    {
        let l = match self.get_lobby(p) {
            Ok(l) => l,
            Err(e) => {
                return Err(e);
            },
        };
        let mut lobby = match self.lobbies.remove(&l) {
            Some(x) => x,
            None => {
                assert(false);
                return Err(ProtocolError::InvalidLobbyId(l));
            },
        };
        let i = match lobby.find_player(p) {
            Some(i) => i,
            None => {
                assert(false);
                return Err(ProtocolError::InvalidPlayerId(p));
            },
        };
        lobby.set_player_options(i, options);
        proof {
            let lb = old(self).lobbies@[l];
            assert forall|j: int| 0 <= j < lb.players@.len() && #[trigger] lb.players@[j].id == p implies j == i by {
                assert(lb.ids()[j] == lb.ids()[i as int]);
            }
        }
        self.put_back(l, lobby, Ghost(*old(self)));
        Ok(l)
    }

    /// Runs the collection engine on player `p`'s report that it collected
    /// `spat`. Returns the lobby when it changed.
    pub fn item_collected(&mut self, p: PlayerId, spat: Spatula) -> (r: Result<Option<LobbyId>, ProtocolError>)
        requires
            old(self).wf(),
        ensures
            old(self).no_empty_lobbies() ==> final(self).no_empty_lobbies(),
            final(self).wf(),
            r is Err ==> final(self).players@ == old(self).players@ && final(self).lobbies@ == old(self).lobbies@,
            lobby_of(*old(self), p) is Err ==> r == match lobby_of(*old(self), p) {
                Err(e) => Err::<Option<LobbyId>, ProtocolError>(e),
                Ok(_) => Err(ProtocolError::InvalidMessage),
            },
            lobby_of(*old(self), p) is Ok ==> {
                let l = lobby_of(*old(self), p)->Ok_0;
                let (lb, la) = (old(self).lobbies@[l], final(self).lobbies@[l]);
                if lb.game_state.tier_of(spat) == SpatulaTier::Terminal {
                    &&& r == Ok::<Option<LobbyId>, ProtocolError>(None)
                    &&& final(self).players@ == old(self).players@
                    &&& final(self).lobbies@ == old(self).lobbies@
                } else {
                    &&& r == Ok::<Option<LobbyId>, ProtocolError>(Some(l))
                    &&& replaced(*old(self), *final(self), l)
                    &&& la.players@ == lb.players@
                    &&& la.options == lb.options
                    &&& spat == FINAL_SPATULA ==> la.game_phase == GamePhase::Lobby && la.game_state.is_empty()
                    &&& spat != FINAL_SPATULA ==> la.game_phase == lb.game_phase
                        && collected(lb.game_state, la.game_state, p, spat)
                }
            },
    {
        let l = match self.get_lobby(p) {
            Ok(l) => l,
            Err(e) => {
                return Err(e);
            },
        };
        let mut lobby = match self.lobbies.remove(&l) {
            Some(x) => x,
            None => {
                assert(false);
                return Err(ProtocolError::InvalidLobbyId(l));
            },
        };
        let changed = lobby.item_collected(p, spat);
        if !changed {
            self.lobbies.insert(l, lobby);
            assert(self.lobbies@ =~= old(self).lobbies@);
            return Ok(None);
        }
        self.put_back(l, lobby, Ghost(*old(self)));
        Ok(Some(l))
    }

    /// Files a changed lobby back under its id, where it was taken from.
    fn put_back(&mut self, l: LobbyId, lobby: SharedLobby, Ghost(before): Ghost<State>)
        requires
            before.wf(),
            before.lobbies@.contains_key(l),
            old(self).players@ == before.players@,
            old(self).lobbies@ == before.lobbies@.remove(l),
            lobby.wf(),
            lobby.lobby_id == l,
            lobby.ids() == before.lobbies@[l].ids(),
            lobby.host_id == before.lobbies@[l].host_id,
        ensures
            final(self).wf(),
            replaced(before, *final(self), l),
            final(self).lobbies@[l] == lobby,
    {
        self.lobbies.insert(l, lobby);
        proof {
            assert(self.lobbies@ =~= before.lobbies@.insert(l, lobby));
            assert forall|q: PlayerId, m: LobbyId|
                self.lobbies@.contains_key(m) && #[trigger] self.lobbies@[m].has_player(q)
                implies self.players@.contains_key(q) && self.players@[q] == Some(m) by {
                assert(before.lobbies@[m].has_player(q));
            }
            assert forall|q: PlayerId| #[trigger] self.players@.contains_key(q) && self.players@[q] is Some
                implies self.lobbies@.contains_key(self.players@[q]->0) && self.lobbies@[self.players@[q]->0].has_player(q) by {
                assert(before.lobbies@[before.players@[q]->0].has_player(q));
            }
        }
    }

    fn gen_player_id(&self) -> (r: PlayerId)
        requires
            self.players@.len() < u32::MAX,
        ensures
            !self.players@.contains_key(r),
    {
        fresh_id(&self.players)
    }

    fn gen_lobby_id(&self) -> (r: LobbyId)
        requires
            self.lobbies@.len() < u32::MAX,
        ensures
            !self.lobbies@.contains_key(r),
    {
        fresh_id(&self.lobbies)
    }
}

} // verus!
