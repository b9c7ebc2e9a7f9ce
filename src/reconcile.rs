use vstd::prelude::*;
use std::collections::HashSet;

use crate::game_state::SpatulaTier;
use crate::lobby::{GamePhase, SharedLobby};
use crate::session::{Item, Message};
use crate::{PlayerId, Room, Spatula, CHUM_BUCKET};

verus! {

broadcast use vstd::std_specs::hash::group_hash_axioms;

/// Why a call into the running game failed.
#[derive(Debug, Clone, Copy, PartialEq, Eq, Structural)]
pub enum InterfaceError {
    /// The game process is not there, or could not be attached to.
    Unhooked,
    /// The game is in a state the call did not expect.
    Other,
}

/// What the client can ask of, and do to, the locally running game. An
/// adapter outside this library implements it; any call may fail.
pub trait GameInterface {
    fn is_loading(&self) -> Result<bool, InterfaceError>;

    fn get_current_level(&self) -> Result<Room, InterfaceError>;

    fn set_lab_door(&self, cost: u32) -> Result<(), InterfaceError>;

    fn collect_spatula(&self, spat: Spatula) -> Result<(), InterfaceError>;

    fn mark_task_complete(&self, spat: Spatula) -> Result<(), InterfaceError>;

    fn is_spatula_being_collected(&self, spat: Spatula) -> Result<bool, InterfaceError>;
}

/// What one tick does for one collectible.
#[derive(Debug, Clone, Copy, PartialEq, Eq, Structural)]
pub struct KindPlan {
    /// Force the collectible collected in the game.
    pub collect: bool,
    /// Mark its task complete in the game, to show canonical progress.
    pub mark_complete: bool,
    /// Report it to the server and add it to the local cache.
    pub report: bool,
}

/// What one tick does, given what the game answered.
#[derive(Debug, Clone)]
pub struct TickPlan {
    /// The room to report, when it changed.
    pub room_report: Option<Room>,
    /// The door cost to force in the game.
    pub door_cost: Option<u32>,
    /// One entry per catalogue entry while playing; none otherwise.
    pub kinds: Vec<KindPlan>,
}

/// The room that member `p` last reported, by its first record; `None` for
/// a non-member.
pub open spec fn player_room(lobby: SharedLobby, p: PlayerId) -> Option<Room> {
    if exists|i: int| 0 <= i < lobby.players@.len() && lobby.players@[i].id == p {
        let i = choose|i: int|
            0 <= i < lobby.players@.len() && lobby.players@[i].id == p && forall|j: int|
                0 <= j < i ==> lobby.players@[j].id != p;
        lobby.players@[i].current_room
    } else {
        None
    }
}

/// A room report exactly when the room differs from the last one reported.
pub open spec fn room_report(lobby: SharedLobby, p: PlayerId, room: Room) -> Option<Room> {
    if player_room(lobby, p) != Some(room) {
        Some(room)
    } else {
        None
    }
}

/// The door cost is forced while playing in the door's room.
pub open spec fn door_cost(lobby: SharedLobby, room: Room) -> Option<u32> {
    if lobby.game_phase == GamePhase::Playing && room == CHUM_BUCKET {
        Some(lobby.options.lab_door_cost)
    } else {
        None
    }
}

/// The plan for one collectible `entry` (kind and its room), with the
/// player in `room` and `cached` already reported: a cached kind is
/// collected again; a kind past its first tier has its task marked
/// complete, and an exhausted one is collected when the player is in its
/// room; any other kind is reported when the player is in its room and the
/// game says it is being collected.
pub open spec fn kind_plan(
    lobby: SharedLobby,
    room: Room,
    cached: Set<Spatula>,
    entry: (Spatula, Room),
    collecting: bool,
) -> KindPlan {
    let tier = lobby.game_state.tier_of(entry.0);
    if cached.contains(entry.0) {
        KindPlan { collect: true, mark_complete: false, report: false }
    } else if tier == SpatulaTier::Terminal {
        KindPlan { collect: room == entry.1, mark_complete: true, report: false }
    } else {
        KindPlan {
            collect: false,
            mark_complete: tier != SpatulaTier::Golden,
            report: room == entry.1 && collecting,
        }
    }
}

/// The game's answer for entry `i`; a missing answer is "no".
pub open spec fn answer(collecting: Seq<bool>, i: int) -> bool {
    0 <= i < collecting.len() && collecting[i]
}

/// The local cache after the first `i` catalogue entries.
pub open spec fn cache_after(
    lobby: SharedLobby,
    room: Room,
    catalog: Seq<(Spatula, Room)>,
    cached: Set<Spatula>,
    collecting: Seq<bool>,
    i: int,
) -> Set<Spatula>
    decreases i,
{
    if i <= 0 {
        cached
    } else {
        let c = cache_after(lobby, room, catalog, cached, collecting, i - 1);
        if kind_plan(lobby, room, c, catalog[i - 1], answer(collecting, i - 1)).report {
            c.insert(catalog[i - 1].0)
        } else {
            c
        }
    }
}

/// The collection reports for the first `i` catalogue entries, in order.
pub open spec fn reports_after(
    lobby: SharedLobby,
    room: Room,
    catalog: Seq<(Spatula, Room)>,
    cached: Set<Spatula>,
    collecting: Seq<bool>,
    i: int,
) -> Seq<Message>
    decreases i,
{
    if i <= 0 {
        Seq::empty()
    } else {
        let prev = reports_after(lobby, room, catalog, cached, collecting, i - 1);
        let c = cache_after(lobby, room, catalog, cached, collecting, i - 1);
        if kind_plan(lobby, room, c, catalog[i - 1], answer(collecting, i - 1)).report {
            prev.push(Message::GameItemCollected { item: Item::Spatula(catalog[i - 1].0) })
        } else {
            prev
        }
    }
}

/// The messages of one tick: the room report, if any, then, while playing,
/// the collection reports.
pub open spec fn tick_messages(
    lobby: SharedLobby,
    p: PlayerId,
    room: Room,
    catalog: Seq<(Spatula, Room)>,
    cached: Set<Spatula>,
    collecting: Seq<bool>,
) -> Seq<Message> {
    let head = match room_report(lobby, p, room) {
        Some(r) => seq![Message::GameCurrentRoom { room: Some(r) }],
        None => Seq::empty(),
    };
    if lobby.game_phase == GamePhase::Playing {
        head + reports_after(lobby, room, catalog, cached, collecting, catalog.len() as int)
    } else {
        head
    }
}

/// The local cache after one tick.
pub open spec fn tick_cache(
    lobby: SharedLobby,
    room: Room,
    catalog: Seq<(Spatula, Room)>,
    cached: Set<Spatula>,
    collecting: Seq<bool>,
) -> Set<Spatula> {
    if lobby.game_phase == GamePhase::Playing {
        cache_after(lobby, room, catalog, cached, collecting, catalog.len() as int)
    } else {
        cached
    }
}

/// A collectible already in the local cache is never reported again, on any
/// tick, whatever the game answers.
pub proof fn lemma_cached_kind_never_reported(
    lobby: SharedLobby,
    room: Room,
    catalog: Seq<(Spatula, Room)>,
    cached: Set<Spatula>,
    collecting: Seq<bool>,
    k: Spatula,
    i: int,
)
    requires
        cached.contains(k),
    ensures
        cache_after(lobby, room, catalog, cached, collecting, i).contains(k),
        !reports_after(lobby, room, catalog, cached, collecting, i).contains(
            Message::GameItemCollected { item: Item::Spatula(k) },
        ),
    decreases i,
{
    if i > 0 {
        lemma_cached_kind_never_reported(lobby, room, catalog, cached, collecting, k, i - 1);
        let prev = reports_after(lobby, room, catalog, cached, collecting, i - 1);
        let c = cache_after(lobby, room, catalog, cached, collecting, i - 1);
        if kind_plan(lobby, room, c, catalog[i - 1], answer(collecting, i - 1)).report {
            let m = Message::GameItemCollected { item: Item::Spatula(k) };
            let now = prev.push(Message::GameItemCollected { item: Item::Spatula(catalog[i - 1].0) });
            assert(catalog[i - 1].0 != k);
            if now.contains(m) {
                let j = choose|j: int| 0 <= j < now.len() && now[j] == m;
                if j < prev.len() {
                    assert(prev[j] == m);
                }
            }
        }
    }
}

/// Whether `v` holds `k`.
fn vec_contains(v: &Vec<Spatula>, k: Spatula) -> (r: bool)
    ensures
        r == v@.contains(k),
{
    let mut i: usize = 0;
    while i < v.len()
        invariant
            i <= v@.len(),
            forall|j: int| 0 <= j < i ==> v@[j] != k,
        decreases v@.len() - i,
    {
        if v[i] == k {
            return true;
        }
        i += 1;
    }
    false
}

/// Plans one tick for local player `player_id`, now in `room`, given the
/// catalogue of collectibles with their rooms, the kinds already reported,
/// and the game's answer for each entry on whether it is being collected.
pub fn plan_tick(
    lobby: &SharedLobby,
    player_id: PlayerId,
    room: Room,
    catalog: &Vec<(Spatula, Room)>,
    cached: &HashSet<Spatula>,
    collecting: &Vec<bool>,
) -> (p: TickPlan)
    ensures
        p.room_report == room_report(*lobby, player_id, room),
        p.door_cost == door_cost(*lobby, room),
        p.kinds@.len() == if lobby.game_phase == GamePhase::Playing { catalog@.len() } else { 0 },
        forall|i: int|
            0 <= i < p.kinds@.len() ==> #[trigger] p.kinds@[i] == kind_plan(
                *lobby,
                room,
                cache_after(*lobby, room, catalog@, cached@, collecting@, i),
                catalog@[i],
                answer(collecting@, i),
            ),
{
    let current = match lobby.find_player(player_id) {
        Some(i) => {
            proof {
                let w = choose|w: int|
                    0 <= w < lobby.players@.len() && lobby.players@[w].id == player_id && forall|j: int|
                        0 <= j < w ==> lobby.players@[j].id != player_id;
                assert(w == i as int);
            }
            lobby.players[i].current_room
        },
        None => {
            proof {
                assert forall|w: int| 0 <= w < lobby.players@.len() implies lobby.players@[w].id != player_id by {
                    assert(lobby.ids()[w] == lobby.players@[w].id);
                }
            }
            None
        },
    };
    let room_report = if current != Some(room) {
        Some(room)
    } else {
        None
    };
    let playing = lobby.game_phase == GamePhase::Playing;
    let door_cost = if playing && room == CHUM_BUCKET {
        Some(lobby.options.lab_door_cost)
    } else {
        None
    };
    let mut kinds: Vec<KindPlan> = Vec::new();
    if !playing {
        return TickPlan { room_report, door_cost, kinds };
    }
    let mut reported: Vec<Spatula> = Vec::new();
    let mut i: usize = 0;
    while i < catalog.len()
        invariant
            i <= catalog@.len(),
            kinds@.len() == i,
            forall|j: int|
                0 <= j < i ==> #[trigger] kinds@[j] == kind_plan(
                    *lobby,
                    room,
                    cache_after(*lobby, room, catalog@, cached@, collecting@, j),
                    catalog@[j],
                    answer(collecting@, j),
                ),
            forall|k: Spatula|
                #[trigger] cache_after(*lobby, room, catalog@, cached@, collecting@, i as int).contains(k)
                    <==> cached@.contains(k) || reported@.contains(k),
        decreases catalog@.len() - i,
    {
        let (spat, spat_room) = catalog[i];
        let is_cached = cached.contains(&spat) || vec_contains(&reported, spat);
        let tier = match lobby.game_state.spatulas.get(&spat) {
            Some(st) => st.tier,
            None => SpatulaTier::Golden,
        };
        let answer_i = i < collecting.len() && collecting[i];
        let plan = if is_cached {
            KindPlan { collect: true, mark_complete: false, report: false }
        } else if tier == SpatulaTier::Terminal {
            KindPlan { collect: room == spat_room, mark_complete: true, report: false }
        } else {
            KindPlan {
                collect: false,
                mark_complete: tier != SpatulaTier::Golden,
                report: room == spat_room && answer_i,
            }
        };
        let ghost c = cache_after(*lobby, room, catalog@, cached@, collecting@, i as int);
        proof {
            assert(is_cached == c.contains(spat));
            assert(plan == kind_plan(*lobby, room, c, catalog@[i as int], answer(collecting@, i as int)));
        }
        let ghost old_rep = reported@;
        if plan.report {
            reported.push(spat);
        }
        kinds.push(plan);
        proof {
            assert forall|k: Spatula|
                #[trigger] cache_after(*lobby, room, catalog@, cached@, collecting@, i + 1).contains(k)
                    <==> cached@.contains(k) || reported@.contains(k) by {
                if plan.report {
                    assert(reported@ == old_rep.push(spat));
                    assert(reported@[old_rep.len() as int] == spat);
                    if reported@.contains(k) && k != spat {
                        let j = choose|j: int| 0 <= j < reported@.len() && reported@[j] == k;
                        assert(old_rep[j] == k);
                    }
                    if old_rep.contains(k) {
                        let j = choose|j: int| 0 <= j < old_rep.len() && old_rep[j] == k;
                        assert(reported@[j] == k);
                    }
                }
            }
        }
        i += 1;
    }
    TickPlan { room_report, door_cost, kinds }
}

/// The client's reconciliation of the canonical lobby with the local game.
pub trait GameStateExt: Sized {
    /// One tick, for the local player `player_id`. `catalog` lists every
    /// collectible with the room it is in; `local_spat_state` holds the
    /// collectibles already reported. Reports go to the end of `outbox`.
    /// Nothing changes while the game is loading or when the player is not
    /// a member; otherwise, on success, the lobby, the outbox and the cache
    /// are what `plan_tick` gives for the room and the collection answers
    /// that the game returned.
    fn update<T: GameInterface>(
        &mut self,
        player_id: PlayerId,
        game: &T,
        catalog: &Vec<(Spatula, Room)>,
        outbox: &mut Vec<Message>,
        local_spat_state: &mut HashSet<Spatula>,
    ) -> (r: Result<(), InterfaceError>)
        ensures
            old(self).lobby_wf() ==> final(self).lobby_wf(),
            final(self).same_but_rooms(*old(self), player_id),
            !old(self).has_member(player_id) ==> *final(self) == *old(self) && final(outbox)@ == old(
                outbox,
            )@ && final(local_spat_state)@ == old(local_spat_state)@,
            r is Ok ==> (*final(self) == *old(self) && final(outbox)@ == old(outbox)@
                && final(local_spat_state)@ == old(local_spat_state)@) || exists|
                room: Room,
                collecting: Seq<bool>,
            |
                final(self).tick_done(
                    *old(self),
                    player_id,
                    catalog@,
                    room,
                    collecting,
                    old(local_spat_state)@,
                    final(local_spat_state)@,
                    old(outbox)@,
                    final(outbox)@,
                ),
    ;

    /// True iff every member last reported the main menu.
    fn can_start(&self) -> (r: bool)
        ensures
            r == self.lobby_ready(),
    ;

    spec fn lobby_wf(&self) -> bool;

    spec fn has_member(&self, p: PlayerId) -> bool;

    spec fn lobby_ready(&self) -> bool;

    spec fn same_but_rooms(&self, before: Self, player_id: PlayerId) -> bool;

    spec fn tick_done(
        &self,
        before: Self,
        player_id: PlayerId,
        catalog: Seq<(Spatula, Room)>,
        room: Room,
        collecting: Seq<bool>,
        cache_before: Set<Spatula>,
        cache_after: Set<Spatula>,
        out_before: Seq<Message>,
        out_after: Seq<Message>,
    ) -> bool;
}

impl GameStateExt for SharedLobby {
    open spec fn lobby_wf(&self) -> bool {
        self.wf()
    }

    open spec fn has_member(&self, p: PlayerId) -> bool {
        self.has_player(p)
    }

    open spec fn lobby_ready(&self) -> bool {
        self.all_in_main_menu()
    }

    /// Only the local player's last-reported room may differ.
    open spec fn same_but_rooms(&self, before: SharedLobby, player_id: PlayerId) -> bool {
        &&& self.players@.len() == before.players@.len()
        &&& forall|i: int|
            0 <= i < before.players@.len() ==> if #[trigger] before.players@[i].id == player_id {
                self.players@[i].id == player_id && self.players@[i].options == before.players@[i].options
            } else {
                self.players@[i] == before.players@[i]
            }
        &&& self.ids() == before.ids()
        &&& self.host_id == before.host_id
        &&& self.lobby_id == before.lobby_id
        &&& self.game_phase == before.game_phase
        &&& self.options == before.options
        &&& self.game_state == before.game_state
    }

    /// The tick ran to its end with the player in `room` and the game's
    /// answers `collecting`: the player's room is `room`, the outbox gained
    /// the tick's messages, and the cache is the tick's cache.
    open spec fn tick_done(
        &self,
        before: SharedLobby,
        player_id: PlayerId,
        catalog: Seq<(Spatula, Room)>,
        room: Room,
        collecting: Seq<bool>,
        cache_before: Set<Spatula>,
        cache_after: Set<Spatula>,
        out_before: Seq<Message>,
        out_after: Seq<Message>,
    ) -> bool {
        &&& player_room(*self, player_id) == Some(room)
        &&& out_after == out_before + tick_messages(before, player_id, room, catalog, cache_before, collecting)
        &&& cache_after == tick_cache(before, room, catalog, cache_before, collecting)
    }

    fn update<T: GameInterface>(
        &mut self,
        player_id: PlayerId,
        game: &T,
        catalog: &Vec<(Spatula, Room)>,
        outbox: &mut Vec<Message>,
        local_spat_state: &mut HashSet<Spatula>,
    ) -> (r: Result<(), InterfaceError>) {
        match game.is_loading() {
            Ok(true) => {
                return Ok(());
            },
            Ok(false) => {},
            Err(e) => {
                return Err(e);
            },
        }
        let idx = match self.find_player(player_id) {
            Some(i) => i,
            None => {
                return Err(InterfaceError::Other);
            },
        };
        assert(old(self).ids()[idx as int] == player_id);
        let room = match game.get_current_level() {
            Ok(r) => r,
            Err(e) => {
                return Err(e);
            },
        };
        let playing = self.game_phase == GamePhase::Playing;
        let mut collecting: Vec<bool> = Vec::new();
        if playing {
            let mut k: usize = 0;
            while k < catalog.len()
                invariant
                    k <= catalog@.len(),
                decreases catalog@.len() - k,
            {
                let (spat, spat_room) = catalog[k];
                let exhausted = match self.game_state.spatulas.get(&spat) {
                    Some(st) => st.tier == SpatulaTier::Terminal,
                    None => false,
                };
                let mut answer = false;
                if room == spat_room && !exhausted && !local_spat_state.contains(&spat) {
                    answer = match game.is_spatula_being_collected(spat) {
                        Ok(b) => b,
                        Err(e) => {
                            return Err(e);
                        },
                    };
                }
                collecting.push(answer);
                k += 1;
            }
        }
        let plan = plan_tick(self, player_id, room, catalog, local_spat_state, &collecting);
        let ghost before = *old(self);
        let ghost cached0 = old(local_spat_state)@;
        let ghost msgs = tick_messages(before, player_id, room, catalog@, cached0, collecting@);
        proof {
            let w = choose|w: int|
                0 <= w < before.players@.len() && before.players@[w].id == player_id && forall|j: int|
                    0 <= j < w ==> before.players@[j].id != player_id;
            assert(w == idx as int);
        }
        if let Some(r) = plan.room_report {
            self.set_room(idx, Some(r));
            outbox.push(Message::GameCurrentRoom { room: Some(r) });
        }
        let ghost head = old(outbox)@ + match room_report(before, player_id, room) {
            Some(r) => seq![Message::GameCurrentRoom { room: Some(r) }],
            None => Seq::<Message>::empty(),
        };
        proof {
            let w = choose|w: int|
                0 <= w < self.players@.len() && self.players@[w].id == player_id && forall|j: int|
                    0 <= j < w ==> self.players@[j].id != player_id;
            assert(self.players@[idx as int].id == player_id);
            assert(w == idx as int);
            assert(player_room(*self, player_id) == Some(room));
            assert(outbox@ =~= head);
        }
        if !playing {
            proof {
                assert(outbox@ =~= old(outbox)@ + msgs);
                assert(self.tick_done(before, player_id, catalog@, room, collecting@, cached0, local_spat_state@, old(outbox)@, outbox@));
            }
            return Ok(());
        }
        if let Some(cost) = plan.door_cost {
            match game.set_lab_door(cost) {
                Ok(()) => {},
                Err(e) => {
                    return Err(e);
                },
            }
        }
        let mut i: usize = 0;
        while i < plan.kinds.len()
            invariant
                plan.kinds@.len() == catalog@.len(),
                i <= catalog@.len(),
                forall|j: int|
                    0 <= j < plan.kinds@.len() ==> #[trigger] plan.kinds@[j] == kind_plan(
                        before,
                        room,
                        cache_after(before, room, catalog@, cached0, collecting@, j),
                        catalog@[j],
                        answer(collecting@, j),
                    ),
                outbox@ == head + reports_after(before, room, catalog@, cached0, collecting@, i as int),
                local_spat_state@ == cache_after(before, room, catalog@, cached0, collecting@, i as int),
                before.game_phase == GamePhase::Playing,
                before == *old(self),
                old(self).wf() ==> self.wf(),
                self.same_but_rooms(*old(self), player_id),
                old(self).has_player(player_id),
                player_room(*self, player_id) == Some(room),
            decreases catalog@.len() - i,
        {
            let kp = plan.kinds[i];
            let spat = catalog[i].0;
            if kp.mark_complete {
                match game.mark_task_complete(spat) {
                    Ok(()) => {},
                    Err(e) => {
                        return Err(e);
                    },
                }
            }
            if kp.collect {
                match game.collect_spatula(spat) {
                    Ok(()) => {},
                    Err(e) => {
                        return Err(e);
                    },
                }
            }
            let ghost prev_reports = reports_after(before, room, catalog@, cached0, collecting@, i as int);
            let ghost c = cache_after(before, room, catalog@, cached0, collecting@, i as int);
            proof {
                assert(kp == kind_plan(before, room, c, catalog@[i as int], answer(collecting@, i as int)));
            }
            if kp.report {
                local_spat_state.insert(spat);
                outbox.push(Message::GameItemCollected { item: Item::Spatula(spat) });
                proof {
                    let m = Message::GameItemCollected { item: Item::Spatula(spat) };
                    assert(reports_after(before, room, catalog@, cached0, collecting@, i + 1) == prev_reports.push(m));
                    assert(head + prev_reports.push(m) =~= (head + prev_reports).push(m));
                    assert(local_spat_state@ == c.insert(spat));
                }
            } else {
                proof {
                    assert(reports_after(before, room, catalog@, cached0, collecting@, i + 1) == prev_reports);
                }
            }
            i += 1;
        }
        proof {
            assert(outbox@ =~= old(outbox)@ + msgs);
            assert(self.tick_done(before, player_id, catalog@, room, collecting@, cached0, local_spat_state@, old(outbox)@, outbox@));
        }
        Ok(())
    }

    fn can_start(&self) -> (r: bool) {
        SharedLobby::can_start(self)
    }
}

} // verus!
