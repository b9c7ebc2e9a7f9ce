use clash_core::lobby::{GamePhase, ProtocolError, DEFAULT_LAB_DOOR_COST};
use clash_core::state::State;
use std::collections::HashSet;

#[test]
fn new_registry_is_empty() {
    let s = State::new();
    assert!(s.players.is_empty());
    assert!(s.lobbies.is_empty());
}

#[test]
fn ids_never_collide_under_churn() {
    let mut s = State::new();
    let mut live: Vec<u32> = Vec::new();
    for round in 0..200u32 {
        let id = s.add_player();
        assert!(!live.contains(&id));
        live.push(id);
        if round % 3 == 0 {
            let gone = live.remove(0);
            s.remove_player(gone);
        }
    }
    let set: HashSet<u32> = live.iter().copied().collect();
    assert_eq!(set.len(), live.len());
    assert_eq!(s.players.len(), live.len());
    let mut lobbies: HashSet<u32> = HashSet::new();
    for _ in 0..50 {
        let l = s.add_lobby();
        assert!(lobbies.insert(l));
    }
    assert_eq!(s.lobbies.len(), 50);
}

#[test]
fn new_lobby_has_defaults() {
    let mut s = State::new();
    let l = s.add_lobby();
    let lobby = s.lobbies.get(&l).unwrap();
    assert_eq!(lobby.lobby_id, l);
    assert!(lobby.players.is_empty());
    assert_eq!(lobby.host_id, None);
    assert_eq!(lobby.game_phase, GamePhase::Lobby);
    assert_eq!(lobby.options.lab_door_cost, DEFAULT_LAB_DOOR_COST);
}

#[test]
fn lobby_gone_after_as_many_leaves_as_joins() {
    let mut s = State::new();
    let host = s.add_player();
    let a = s.add_player();
    let b = s.add_player();
    let l = s.host_lobby(host).unwrap();
    s.join_lobby(a, l).unwrap();
    s.join_lobby(b, l).unwrap();
    assert_eq!(s.lobbies.get(&l).unwrap().players.len(), 3);
    assert_eq!(s.leave_lobby(a), Some(l));
    assert_eq!(s.leave_lobby(host), Some(l));
    assert_eq!(s.lobbies.get(&l).unwrap().players.len(), 1);
    assert_eq!(s.lobbies.get(&l).unwrap().host_id, Some(b));
    assert_eq!(s.leave_lobby(b), None);
    assert!(!s.lobbies.contains_key(&l));
    assert_eq!(s.players.get(&b), Some(&None));
}

#[test]
fn one_leave_short_keeps_lobby_with_one() {
    let mut s = State::new();
    let host = s.add_player();
    let a = s.add_player();
    let l = s.host_lobby(host).unwrap();
    s.join_lobby(a, l).unwrap();
    s.leave_lobby(host);
    let lobby = s.lobbies.get(&l).unwrap();
    assert_eq!(lobby.players.len(), 1);
    assert_eq!(lobby.players[0].id, a);
    assert_eq!(lobby.host_id, Some(a));
}

#[test]
fn join_missing_lobby_is_invalid_lobby_id() {
    let mut s = State::new();
    let p = s.add_player();
    let l = s.add_lobby();
    let missing = l.wrapping_add(1);
    assert_eq!(s.join_lobby(p, missing), Err(ProtocolError::InvalidLobbyId(missing)));
}

#[test]
fn join_while_affiliated_is_invalid_message() {
    let mut s = State::new();
    let p = s.add_player();
    let l = s.host_lobby(p).unwrap();
    assert_eq!(s.join_lobby(p, l), Err(ProtocolError::InvalidMessage));
    assert_eq!(s.host_lobby(p), Err(ProtocolError::InvalidMessage));
    let unknown = p.wrapping_add(1);
    assert_eq!(s.host_lobby(unknown), Err(ProtocolError::InvalidPlayerId(unknown)));
    assert_eq!(s.lobbies.len(), 1);
}

#[test]
fn join_playing_lobby_is_refused() {
    let mut s = State::new();
    let host = s.add_player();
    let a = s.add_player();
    let l = s.host_lobby(host).unwrap();
    assert_eq!(s.start_game(host), Ok(l));
    assert_eq!(s.join_lobby(a, l), Err(ProtocolError::InvalidMessage));
}

#[test]
fn full_lobby_is_refused() {
    let mut s = State::new();
    let host = s.add_player();
    let l = s.host_lobby(host).unwrap();
    for _ in 1..clash_core::MAX_PLAYERS {
        let p = s.add_player();
        s.join_lobby(p, l).unwrap();
    }
    let late = s.add_player();
    assert_eq!(s.join_lobby(late, l), Err(ProtocolError::InvalidMessage));
}

#[test]
fn only_host_starts_or_sets_options() {
    let mut s = State::new();
    let host = s.add_player();
    let a = s.add_player();
    let l = s.host_lobby(host).unwrap();
    s.join_lobby(a, l).unwrap();
    assert_eq!(s.start_game(a), Err(ProtocolError::InvalidMessage));
    let opts = clash_core::lobby::LobbyOptions { lab_door_cost: 40 };
    assert_eq!(s.set_game_options(a, opts), Err(ProtocolError::InvalidMessage));
    assert_eq!(s.set_game_options(host, opts), Ok(l));
    assert_eq!(s.lobbies.get(&l).unwrap().options.lab_door_cost, 40);
}

#[test]
fn unaffiliated_and_unknown_players() {
    let mut s = State::new();
    let p = s.add_player();
    assert_eq!(s.get_lobby(p), Err(ProtocolError::InvalidMessage));
    let unknown = p.wrapping_add(1);
    assert_eq!(s.get_lobby(unknown), Err(ProtocolError::InvalidPlayerId(unknown)));
    assert_eq!(s.leave_lobby(p), None);
}

#[test]
fn player_color_is_kept() {
    let mut s = State::new();
    let p = s.add_player();
    s.host_lobby(p).unwrap();
    let color = s.lobbies.values().next().unwrap().players[0].options.color;
    let opts = clash_core::lobby::PlayerOptions {
        name: String::from("Patrick"),
        color: clash_core::lobby::Color { r: 1, g: 2, b: 3 },
    };
    s.set_player_options(p, opts).unwrap();
    let player = &s.lobbies.values().next().unwrap().players[0];
    assert_eq!(player.options.name, "Patrick");
    assert_eq!(player.options.color, color);
}
