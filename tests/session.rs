use clash_core::game_state::{SpatulaTier, GOLDEN_POINTS};
use clash_core::lobby::{GamePhase, ProtocolError};
use clash_core::session::{classify_error, same_text, Effect, ErrorAction, Item, Message, Client, VERSION};
use clash_core::state::State;

fn connect(state: &mut State) -> Client {
    let mut s = Client::new(state);
    let r = s.process_incoming(state, Message::Version { version: VERSION.to_string() });
    match r {
        Ok(Effect::Reply(Message::ConnectionAccept { player_id })) => assert_eq!(player_id, s.player_id),
        _ => panic!("handshake refused"),
    }
    s
}

#[test]
fn host_join_begin_collect_scenario() {
    let mut state = State::new();
    let mut host = connect(&mut state);
    let mut guest = connect(&mut state);
    let l = match host.process_incoming(&mut state, Message::GameHost) {
        Ok(Effect::Joined(l)) => l,
        _ => panic!("host failed"),
    };
    match guest.process_incoming(&mut state, Message::GameJoin { lobby_id: l }) {
        Ok(Effect::Joined(j)) => assert_eq!(j, l),
        _ => panic!("join failed"),
    }
    match host.process_incoming(&mut state, Message::GameBegin) {
        Ok(Effect::Broadcast(b)) => assert_eq!(b, l),
        _ => panic!("begin failed"),
    }
    assert_eq!(state.lobbies.get(&l).unwrap().game_phase, GamePhase::Playing);
    let k = 12;
    match guest.process_incoming(&mut state, Message::GameItemCollected { item: Item::Spatula(k) }) {
        Ok(Effect::Broadcast(b)) => assert_eq!(b, l),
        _ => panic!("collection failed"),
    }
    let lobby = state.lobbies.get(&l).unwrap();
    assert_eq!(lobby.game_state.scores.get(&guest.player_id), Some(&GOLDEN_POINTS));
    let st = lobby.game_state.spatulas.get(&k).unwrap();
    assert_eq!(st.tier, SpatulaTier::Silver);
    assert_eq!(st.collection_vec[0], Some(guest.player_id));
}

#[test]
fn requests_before_handshake_are_refused() {
    let mut state = State::new();
    let mut s = Client::new(&mut state);
    assert_eq!(s.process_incoming(&mut state, Message::GameHost).err(), Some(ProtocolError::InvalidMessage));
    assert!(!s.accepted);
    assert!(state.lobbies.is_empty());
}

#[test]
fn version_mismatch_is_reported() {
    let mut state = State::new();
    let mut s = Client::new(&mut state);
    let r = s.process_incoming(&mut state, Message::Version { version: String::from("0.0.0-old") });
    assert_eq!(
        r.err(),
        Some(ProtocolError::VersionMismatch(String::from("0.0.0-old"), VERSION.to_string()))
    );
    assert!(!s.accepted);
}

#[test]
fn second_handshake_is_invalid() {
    let mut state = State::new();
    let mut s = connect(&mut state);
    let r = s.process_incoming(&mut state, Message::Version { version: VERSION.to_string() });
    assert_eq!(r.err(), Some(ProtocolError::InvalidMessage));
}

#[test]
fn server_only_messages_are_invalid() {
    let mut state = State::new();
    let mut s = connect(&mut state);
    let r = s.process_incoming(&mut state, Message::ConnectionAccept { player_id: 1 });
    assert_eq!(r.err(), Some(ProtocolError::InvalidMessage));
}

#[test]
fn exhausted_collection_is_quiet() {
    let mut state = State::new();
    let mut host = connect(&mut state);
    host.process_incoming(&mut state, Message::GameHost).unwrap();
    host.process_incoming(&mut state, Message::GameBegin).unwrap();
    for _ in 0..3 {
        match host.process_incoming(&mut state, Message::GameItemCollected { item: Item::Spatula(2) }) {
            Ok(Effect::Broadcast(_)) => {}
            _ => panic!("expected a broadcast"),
        }
    }
    match host.process_incoming(&mut state, Message::GameItemCollected { item: Item::Spatula(2) }) {
        Ok(Effect::Quiet) => {}
        _ => panic!("expected no change"),
    }
}

#[test]
fn room_report_and_leave() {
    let mut state = State::new();
    let mut host = connect(&mut state);
    let mut guest = connect(&mut state);
    let l = match host.process_incoming(&mut state, Message::GameHost) {
        Ok(Effect::Joined(l)) => l,
        _ => panic!("host failed"),
    };
    guest.process_incoming(&mut state, Message::GameJoin { lobby_id: l }).unwrap();
    guest.process_incoming(&mut state, Message::GameCurrentRoom { room: Some(clash_core::MAIN_MENU) }).unwrap();
    let lobby = state.lobbies.get(&l).unwrap();
    assert_eq!(lobby.players[1].current_room, Some(clash_core::MAIN_MENU));
    match guest.process_incoming(&mut state, Message::GameLeave) {
        Ok(Effect::Left(Some(x))) => assert_eq!(x, l),
        _ => panic!("leave failed"),
    }
    match host.process_incoming(&mut state, Message::GameLeave) {
        Ok(Effect::Left(None)) => {}
        _ => panic!("leave failed"),
    }
    assert!(state.lobbies.is_empty());
}

#[test]
fn close_cleans_up() {
    let mut state = State::new();
    let mut host = connect(&mut state);
    host.process_incoming(&mut state, Message::GameHost).unwrap();
    assert_eq!(host.close(&mut state), None);
    assert!(state.lobbies.is_empty());
    assert!(state.players.is_empty());
}

#[test]
fn error_classification() {
    assert_eq!(classify_error(&ProtocolError::InvalidLobbyId(3)), ErrorAction::Report);
    assert_eq!(classify_error(&ProtocolError::InvalidMessage), ErrorAction::Report);
    assert_eq!(
        classify_error(&ProtocolError::VersionMismatch(String::new(), String::new())),
        ErrorAction::ReportAndClose
    );
    assert_eq!(classify_error(&ProtocolError::Disconnected), ErrorAction::CloseSilently);
    assert_eq!(classify_error(&ProtocolError::InvalidPlayerId(3)), ErrorAction::Close);
}

#[test]
fn text_comparison() {
    assert!(same_text("0.1.0", "0.1.0"));
    assert!(!same_text("0.1.0", "0.1.1"));
    assert!(!same_text("0.1", "0.1.0"));
    assert!(same_text("", ""));
}

#[test]
fn affiliated_host_or_join_keeps_connection() {
    let mut state = State::new();
    let mut host = connect(&mut state);
    let l = match host.process_incoming(&mut state, Message::GameHost) {
        Ok(Effect::Joined(l)) => l,
        _ => panic!("host failed"),
    };
    let e = host.process_incoming(&mut state, Message::GameHost).err().unwrap();
    assert_eq!(e, ProtocolError::InvalidMessage);
    assert_eq!(classify_error(&e), ErrorAction::Report);
    let e = host.process_incoming(&mut state, Message::GameJoin { lobby_id: l }).err().unwrap();
    assert_eq!(e, ProtocolError::InvalidMessage);
    assert_eq!(state.lobbies.len(), 1);
}
