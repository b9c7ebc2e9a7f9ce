use vstd::prelude::*;
use std::collections::HashMap;

use crate::{PlayerId, Spatula};

verus! {

broadcast use vstd::std_specs::hash::group_hash_axioms;

/// Points for a collection at the first tier.
pub const GOLDEN_POINTS: u32 = 3;

/// Points for a collection at the second tier.
pub const SILVER_POINTS: u32 = 2;

/// Points for a collection at the third tier.
pub const BRONZE_POINTS: u32 = 1;

/// The stage of one collectible: three collectible stages, then exhausted.
#[derive(Debug, Clone, Copy, PartialEq, Eq, Structural)]
pub enum SpatulaTier {
    Golden,
    Silver,
    Bronze,
    Terminal,
}

impl SpatulaTier {
    /// Position of the tier in the order `Golden < Silver < Bronze < Terminal`.
    pub open spec fn ordinal(self) -> nat {
        match self {
            SpatulaTier::Golden => 0,
            SpatulaTier::Silver => 1,
            SpatulaTier::Bronze => 2,
            SpatulaTier::Terminal => 3,
        }
    }

    /// The tier whose ordinal is `v`; every value past the stages is exhausted.
    pub open spec fn of_ordinal(v: int) -> SpatulaTier {
        if v == 0 {
            SpatulaTier::Golden
        } else if v == 1 {
            SpatulaTier::Silver
        } else if v == 2 {
            SpatulaTier::Bronze
        } else {
            SpatulaTier::Terminal
        }
    }

    /// Points earned by collecting at this tier.
    pub open spec fn points(self) -> u32 {
        match self {
            SpatulaTier::Golden => GOLDEN_POINTS,
            SpatulaTier::Silver => SILVER_POINTS,
            SpatulaTier::Bronze => BRONZE_POINTS,
            SpatulaTier::Terminal => 0,
        }
    }

    /// The tier after one collection; exhaustion is final.
    pub open spec fn next(self) -> SpatulaTier {
        match self {
            SpatulaTier::Golden => SpatulaTier::Silver,
            SpatulaTier::Silver => SpatulaTier::Bronze,
            SpatulaTier::Bronze => SpatulaTier::Terminal,
            SpatulaTier::Terminal => SpatulaTier::Terminal,
        }
    }

    /// Display color of the tier.
    pub open spec fn color(self) -> (u8, u8, u8) {
        match self {
            SpatulaTier::Golden => (0xd4, 0xaf, 0x37),
            SpatulaTier::Silver => (0xc0, 0xc0, 0xc0),
            SpatulaTier::Bronze => (0xcd, 0x7f, 0x32),
            SpatulaTier::Terminal => (0, 0, 0),
        }
    }

    pub fn get_color(&mut self) -> (r: (u8, u8, u8))
        ensures
            *final(self) == *old(self),
            r == old(self).color(),
    {
        match self {
            SpatulaTier::Golden => (0xd4, 0xaf, 0x37),
            SpatulaTier::Silver => (0xc0, 0xc0, 0xc0),
            SpatulaTier::Bronze => (0xcd, 0x7f, 0x32),
            _ => (0, 0, 0),
        }
    }

    /// The transition table: points for collecting now, and the tier after.
    pub fn transition(&self) -> (r: (u32, SpatulaTier))
        ensures
            r == (self.points(), self.next()),
    {
        match self {
            SpatulaTier::Golden => (GOLDEN_POINTS, SpatulaTier::Silver),
            SpatulaTier::Silver => (SILVER_POINTS, SpatulaTier::Bronze),
            SpatulaTier::Bronze => (BRONZE_POINTS, SpatulaTier::Terminal),
            SpatulaTier::Terminal => (0, SpatulaTier::Terminal),
        }
    }
}

impl From<i32> for SpatulaTier {
    fn from(v: i32) -> (r: SpatulaTier) {
        if v == 0 {
            SpatulaTier::Golden
        } else if v == 1 {
            SpatulaTier::Silver
        } else if v == 2 {
            SpatulaTier::Bronze
        } else {
            SpatulaTier::Terminal
        }
    }
}

impl vstd::std_specs::convert::FromSpecImpl<i32> for SpatulaTier {
    open spec fn obeys_from_spec() -> bool {
        true
    }

    open spec fn from_spec(v: i32) -> SpatulaTier {
        SpatulaTier::of_ordinal(v as int)
    }
}

/// Progress of one collectible: its tier and who collected each earlier tier.
#[derive(Debug, Clone)]
pub struct SpatulaState {
    pub tier: SpatulaTier,
    pub collection_vec: Vec<Option<PlayerId>>,
}

impl SpatulaState {
    /// One collector is recorded per tier already passed.
    pub open spec fn wf(&self) -> bool {
        self.collection_vec@.len() == self.tier.ordinal()
    }
}

impl Default for SpatulaState {
    fn default() -> (r: SpatulaState)
        ensures
            r.tier == SpatulaTier::Golden,
            r.collection_vec@ == Seq::<Option<PlayerId>>::empty(),
    {
        SpatulaState { tier: SpatulaTier::Golden, collection_vec: Vec::new() }
    }
}

/// The shared progress of one round: each collectible's state and each player's score.
#[derive(Debug, Clone)]
pub struct GameState {
    pub spatulas: HashMap<Spatula, SpatulaState>,
    pub scores: HashMap<PlayerId, u32>,
}

impl GameState {
    pub open spec fn wf(&self) -> bool {
        forall|s: Spatula| #[trigger] self.spatulas@.contains_key(s) ==> self.spatulas@[s].wf()
    }

    /// Tier of a collectible; one never reported is at the first tier.
    pub open spec fn tier_of(&self, s: Spatula) -> SpatulaTier {
        if self.spatulas@.contains_key(s) {
            self.spatulas@[s].tier
        } else {
            SpatulaTier::Golden
        }
    }

    /// Who collected each passed tier of a collectible, in tier order.
    pub open spec fn collectors_of(&self, s: Spatula) -> Seq<Option<PlayerId>> {
        if self.spatulas@.contains_key(s) {
            self.spatulas@[s].collection_vec@
        } else {
            Seq::empty()
        }
    }

    /// A player's score; one who never scored has zero.
    pub open spec fn score_of(&self, p: PlayerId) -> u32 {
        if self.scores@.contains_key(p) {
            self.scores@[p]
        } else {
            0
        }
    }

    /// Nothing collected and nobody scored.
    pub open spec fn is_empty(&self) -> bool {
        self.spatulas@ == Map::<Spatula, SpatulaState>::empty()
            && self.scores@ == Map::<PlayerId, u32>::empty()
    }

    pub fn reset_state(&mut self)
        ensures
            final(self).is_empty(),
    {
        self.spatulas.clear();
        self.scores.clear();
    }

    /// Records that `player` collected `spat`. Returns whether anything changed:
    /// an exhausted collectible is left as it is; otherwise the player is
    /// appended to its collectors, earns the tier's points (saturating), and
    /// the tier advances one step.
    pub fn collect(&mut self, player: PlayerId, spat: Spatula) -> (changed: bool)
        requires
            old(self).wf(),
        ensures
            final(self).wf(),
            changed == (old(self).tier_of(spat) != SpatulaTier::Terminal),
            collect_step(*old(self), *final(self), player, spat),
    {
        let tier = match self.spatulas.get(&spat) {
            Some(s) => s.tier,
            None => SpatulaTier::Golden,
        };
        if tier == SpatulaTier::Terminal {
            return false;
        }
        let (points, next) = tier.transition();
        let mut st = match self.spatulas.remove(&spat) {
            Some(s) => s,
            None => SpatulaState::default(),
        };
        st.collection_vec.push(Some(player));
        st.tier = next;
        self.spatulas.insert(spat, st);

        let score = match self.scores.get(&player) {
            Some(v) => *v,
            None => 0,
        };
        self.scores.insert(player, score.saturating_add(points));
        true
    }
}

/// `after` is `before` with one collection of `spat` by `player` recorded:
/// the tier advanced one step, the player appended to the collectors, the
/// tier's points added to the player's score (saturating), all else kept.
pub open spec fn collected(before: GameState, after: GameState, player: PlayerId, spat: Spatula) -> bool {
    &&& after.tier_of(spat) == before.tier_of(spat).next()
    &&& after.collectors_of(spat) == before.collectors_of(spat).push(Some(player))
    &&& after.score_of(player) as int == vstd::math::min(
        before.score_of(player) + before.tier_of(spat).points(),
        u32::MAX as int,
    )
    &&& forall|s: Spatula|
        s != spat ==> #[trigger] after.spatulas@.contains_key(s) == before.spatulas@.contains_key(s)
            && after.spatulas@[s] == before.spatulas@[s]
    &&& forall|p: PlayerId|
        p != player ==> #[trigger] after.scores@.contains_key(p) == before.scores@.contains_key(p)
            && after.scores@[p] == before.scores@[p]
}

/// One report that `player` collected `spat`: nothing changes at an
/// exhausted collectible; otherwise the collection is recorded.
pub open spec fn collect_step(before: GameState, after: GameState, player: PlayerId, spat: Spatula) -> bool {
    if before.tier_of(spat) == SpatulaTier::Terminal {
        after == before
    } else {
        collected(before, after, player, spat)
    }
}

/// Reports of an exhausted collectible, however many and by whomever, leave
/// every score and every list of collectors as they were.
pub proof fn lemma_exhausted_is_idempotent(
    states: Seq<GameState>,
    players: Seq<PlayerId>,
    spat: Spatula,
)
    requires
        states.len() == players.len() + 1,
        states[0].tier_of(spat) == SpatulaTier::Terminal,
        forall|i: int| 0 <= i < players.len() ==> collect_step(states[i], #[trigger] states[i + 1], players[i], spat),
    ensures
        forall|i: int| 0 <= i < states.len() ==> #[trigger] states[i] == states[0],
    decreases players.len(),
{
    if players.len() > 0 {
        let n = players.len() - 1;
        lemma_exhausted_is_idempotent(states.drop_last(), players.drop_last(), spat);
        assert(states.drop_last()[n] == states[0]);
        assert(collect_step(states[n], states[n + 1], players[n], spat));
        assert forall|i: int| 0 <= i < states.len() implies #[trigger] states[i] == states[0] by {
            if i < states.len() - 1 {
                assert(states.drop_last()[i] == states[i]);
            }
        }
    }
}

/// A collection at a tier that is not exhausted adds exactly that tier's
/// points to the collector's score, unless the score would pass the largest
/// `u32`, and moves the tier exactly one step on.
pub proof fn lemma_collection_scores_tier(before: GameState, after: GameState, player: PlayerId, spat: Spatula)
    requires
        before.wf(),
        collect_step(before, after, player, spat),
        before.tier_of(spat) != SpatulaTier::Terminal,
        before.score_of(player) + before.tier_of(spat).points() <= u32::MAX,
    ensures
        after.score_of(player) == before.score_of(player) + before.tier_of(spat).points(),
        after.tier_of(spat).ordinal() == before.tier_of(spat).ordinal() + 1,
        after.collectors_of(spat)[before.tier_of(spat).ordinal() as int] == Some(player),
{
    assert(before.score_of(player) + before.tier_of(spat).points() <= u32::MAX as int);
    assert(before.collectors_of(spat).len() == before.tier_of(spat).ordinal());
}

impl Default for GameState {
    fn default() -> (r: GameState)
        ensures
            r.is_empty(),
    {
        GameState { spatulas: HashMap::new(), scores: HashMap::new() }
    }
}

} // verus!
