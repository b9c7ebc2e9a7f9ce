use clash_core::game_state::{GameState, SpatulaState, SpatulaTier, BRONZE_POINTS, GOLDEN_POINTS, SILVER_POINTS};
use clash_core::lobby::{GamePhase, LobbyOptions, SharedLobby};
use clash_core::FINAL_SPATULA;
use std::collections::HashMap;

#[test]
fn tier_colors() {
    let mut t = SpatulaTier::Golden;
    assert_eq!(t.get_color(), (0xd4, 0xaf, 0x37));
    assert_eq!(t, SpatulaTier::Golden);
    assert_eq!(SpatulaTier::Silver.get_color(), (0xc0, 0xc0, 0xc0));
    assert_eq!(SpatulaTier::Bronze.get_color(), (0xcd, 0x7f, 0x32));
    assert_eq!(SpatulaTier::Terminal.get_color(), (0, 0, 0));
}

#[test]
fn tier_from_integer() {
    assert_eq!(SpatulaTier::from(0), SpatulaTier::Golden);
    assert_eq!(SpatulaTier::from(1), SpatulaTier::Silver);
    assert_eq!(SpatulaTier::from(2), SpatulaTier::Bronze);
    assert_eq!(SpatulaTier::from(3), SpatulaTier::Terminal);
    assert_eq!(SpatulaTier::from(-1), SpatulaTier::Terminal);
}

#[test]
fn tier_transition_table() {
    assert_eq!(SpatulaTier::Golden.transition(), (GOLDEN_POINTS, SpatulaTier::Silver));
    assert_eq!(SpatulaTier::Silver.transition(), (SILVER_POINTS, SpatulaTier::Bronze));
    assert_eq!(SpatulaTier::Bronze.transition(), (BRONZE_POINTS, SpatulaTier::Terminal));
    assert_eq!(SpatulaTier::Terminal.transition(), (0, SpatulaTier::Terminal));
}

#[test]
fn defaults_are_empty() {
    let s = SpatulaState::default();
    assert_eq!(s.tier, SpatulaTier::Golden);
    assert!(s.collection_vec.is_empty());
    let g = GameState::default();
    assert!(g.spatulas.is_empty());
    assert!(g.scores.is_empty());
}

#[test]
fn first_collection_scores_golden() {
    let mut g = GameState::default();
    assert!(g.collect(7, 5));
    assert_eq!(g.scores.get(&7), Some(&3));
    let st = g.spatulas.get(&5).unwrap();
    assert_eq!(st.tier, SpatulaTier::Silver);
    assert_eq!(st.collection_vec, vec![Some(7)]);
}

#[test]
fn tiers_advance_and_score_each_step() {
    let mut g = GameState::default();
    assert!(g.collect(1, 5));
    assert!(g.collect(2, 5));
    assert!(g.collect(1, 5));
    assert_eq!(g.scores.get(&1), Some(&(GOLDEN_POINTS + BRONZE_POINTS)));
    assert_eq!(g.scores.get(&2), Some(&SILVER_POINTS));
    let st = g.spatulas.get(&5).unwrap();
    assert_eq!(st.tier, SpatulaTier::Terminal);
    assert_eq!(st.collection_vec, vec![Some(1), Some(2), Some(1)]);
}

#[test]
fn exhausted_collectible_is_idempotent() {
    let mut g = GameState::default();
    for p in 1..=3 {
        assert!(g.collect(p, 9));
    }
    let scores: HashMap<u32, u32> = g.scores.clone();
    let list = g.spatulas.get(&9).unwrap().collection_vec.clone();
    for _ in 0..5 {
        assert!(!g.collect(4, 9));
        assert!(!g.collect(1, 9));
    }
    assert_eq!(g.scores, scores);
    assert_eq!(g.spatulas.get(&9).unwrap().collection_vec, list);
    assert_eq!(g.spatulas.get(&9).unwrap().tier, SpatulaTier::Terminal);
}

#[test]
fn score_saturates_at_the_top() {
    let mut g = GameState::default();
    g.scores.insert(3, u32::MAX - 1);
    assert!(g.collect(3, 1));
    assert_eq!(g.scores.get(&3), Some(&u32::MAX));
}

#[test]
fn reset_clears_everything() {
    let mut g = GameState::default();
    g.collect(1, 2);
    g.reset_state();
    assert!(g.spatulas.is_empty());
    assert!(g.scores.is_empty());
}

#[test]
fn final_collectible_ends_round_from_golden() {
    let mut lobby = SharedLobby::new(LobbyOptions::default(), 1);
    lobby.start_game();
    lobby.game_state.collect(2, 4);
    assert!(lobby.item_collected(1, FINAL_SPATULA));
    assert_eq!(lobby.game_phase, GamePhase::Lobby);
    assert!(lobby.game_state.spatulas.is_empty());
    assert!(lobby.game_state.scores.is_empty());
}

#[test]
fn final_collectible_from_bronze_tier() {
    let mut lobby = SharedLobby::new(LobbyOptions::default(), 1);
    lobby.game_state.collect(1, FINAL_SPATULA);
    lobby.game_state.collect(1, FINAL_SPATULA);
    lobby.start_game();
    assert!(lobby.item_collected(2, FINAL_SPATULA));
    assert_eq!(lobby.game_phase, GamePhase::Lobby);
    assert!(lobby.game_state.spatulas.is_empty());
}

#[test]
fn final_collectible_from_silver_tier() {
    let mut lobby = SharedLobby::new(LobbyOptions::default(), 1);
    lobby.start_game();
    lobby.game_state.collect(1, FINAL_SPATULA);
    assert_eq!(lobby.game_state.spatulas.get(&FINAL_SPATULA).unwrap().tier, SpatulaTier::Silver);
    assert!(lobby.item_collected(2, FINAL_SPATULA));
    assert_eq!(lobby.game_phase, GamePhase::Lobby);
    assert!(lobby.game_state.spatulas.is_empty());
    assert!(lobby.game_state.scores.is_empty());
}

#[test]
fn ordinary_collectible_keeps_round_going() {
    let mut lobby = SharedLobby::new(LobbyOptions::default(), 1);
    lobby.start_game();
    assert!(lobby.item_collected(1, 3));
    assert_eq!(lobby.game_phase, GamePhase::Playing);
    assert_eq!(lobby.game_state.scores.get(&1), Some(&GOLDEN_POINTS));
}
