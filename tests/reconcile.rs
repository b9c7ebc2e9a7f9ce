use clash_core::game_state::SpatulaTier;
use clash_core::lobby::{LobbyOptions, SharedLobby, DEFAULT_LAB_DOOR_COST};
use clash_core::reconcile::{plan_tick, GameInterface, GameStateExt, InterfaceError, KindPlan};
use clash_core::session::{Item, Message};
use clash_core::{CHUM_BUCKET, MAIN_MENU};
use std::cell::RefCell;
use std::collections::{HashMap, HashSet};

struct FakeGame {
    loading: bool,
    room: u32,
    collecting: HashSet<u32>,
    door: RefCell<Option<u32>>,
    collected: RefCell<Vec<u32>>,
    marked: RefCell<Vec<u32>>,
}

impl FakeGame {
    fn new(room: u32) -> FakeGame {
        FakeGame {
            loading: false,
            room,
            collecting: HashSet::new(),
            door: RefCell::new(None),
            collected: RefCell::new(Vec::new()),
            marked: RefCell::new(Vec::new()),
        }
    }
}

impl GameInterface for FakeGame {
    fn is_loading(&self) -> Result<bool, InterfaceError> {
        Ok(self.loading)
    }
    fn get_current_level(&self) -> Result<u32, InterfaceError> {
        Ok(self.room)
    }
    fn set_lab_door(&self, cost: u32) -> Result<(), InterfaceError> {
        *self.door.borrow_mut() = Some(cost);
        Ok(())
    }
    fn collect_spatula(&self, spat: u32) -> Result<(), InterfaceError> {
        self.collected.borrow_mut().push(spat);
        Ok(())
    }
    fn mark_task_complete(&self, spat: u32) -> Result<(), InterfaceError> {
        self.marked.borrow_mut().push(spat);
        Ok(())
    }
    fn is_spatula_being_collected(&self, spat: u32) -> Result<bool, InterfaceError> {
        Ok(self.collecting.contains(&spat))
    }
}

fn playing_lobby(me: u32) -> SharedLobby {
    let mut registry: HashMap<u32, Option<u32>> = HashMap::new();
    registry.insert(me, None);
    let mut lobby = SharedLobby::new(LobbyOptions::default(), 1);
    lobby.add_player(&mut registry, me).unwrap();
    lobby.start_game();
    lobby
}

fn item_reports(outbox: &[Message]) -> Vec<u32> {
    outbox
        .iter()
        .filter_map(|m| match m {
            Message::GameItemCollected { item: Item::Spatula(k) } => Some(*k),
            _ => None,
        })
        .collect()
}

#[test]
fn cached_collectible_is_never_reported_again() {
    let me = 4;
    let mut lobby = playing_lobby(me);
    let mut game = FakeGame::new(20);
    game.collecting.insert(7);
    let catalog = vec![(7u32, 20u32), (8, 21)];
    let mut outbox = Vec::new();
    let mut cache = HashSet::new();
    lobby.update(me, &game, &catalog, &mut outbox, &mut cache).unwrap();
    assert_eq!(item_reports(&outbox), vec![7]);
    assert!(cache.contains(&7));
    for _ in 0..5 {
        lobby.update(me, &game, &catalog, &mut outbox, &mut cache).unwrap();
    }
    assert_eq!(item_reports(&outbox), vec![7]);
    assert!(game.collected.borrow().iter().filter(|k| **k == 7).count() >= 5);
}

#[test]
fn room_change_reported_once() {
    let me = 4;
    let mut lobby = playing_lobby(me);
    let game = FakeGame::new(MAIN_MENU);
    let catalog: Vec<(u32, u32)> = Vec::new();
    let mut outbox = Vec::new();
    let mut cache = HashSet::new();
    lobby.update(me, &game, &catalog, &mut outbox, &mut cache).unwrap();
    lobby.update(me, &game, &catalog, &mut outbox, &mut cache).unwrap();
    assert_eq!(outbox.len(), 1);
    match &outbox[0] {
        Message::GameCurrentRoom { room } => assert_eq!(*room, Some(MAIN_MENU)),
        _ => panic!("expected a room report"),
    }
    assert_eq!(lobby.players[0].current_room, Some(MAIN_MENU));
}

#[test]
fn loading_skips_the_tick() {
    let me = 4;
    let mut lobby = playing_lobby(me);
    let mut game = FakeGame::new(20);
    game.loading = true;
    game.collecting.insert(7);
    let catalog = vec![(7u32, 20u32)];
    let mut outbox = Vec::new();
    let mut cache = HashSet::new();
    lobby.update(me, &game, &catalog, &mut outbox, &mut cache).unwrap();
    assert!(outbox.is_empty());
    assert!(cache.is_empty());
}

#[test]
fn lab_door_and_exhausted_sync() {
    let me = 4;
    let mut lobby = playing_lobby(me);
    for p in 0..3 {
        lobby.game_state.collect(p, 9);
    }
    lobby.game_state.collect(1, 10);
    assert_eq!(lobby.game_state.spatulas.get(&9).unwrap().tier, SpatulaTier::Terminal);
    let mut game = FakeGame::new(CHUM_BUCKET);
    game.collecting.insert(9);
    let catalog = vec![(9u32, CHUM_BUCKET), (10, 50)];
    let mut outbox = Vec::new();
    let mut cache = HashSet::new();
    lobby.update(me, &game, &catalog, &mut outbox, &mut cache).unwrap();
    assert_eq!(*game.door.borrow(), Some(lobby.options.lab_door_cost));
    assert_eq!(*game.collected.borrow(), vec![9]);
    assert_eq!(*game.marked.borrow(), vec![9, 10]);
    assert!(item_reports(&outbox).is_empty());
}

#[test]
fn unknown_local_player_fails() {
    let mut lobby = playing_lobby(4);
    let game = FakeGame::new(20);
    let catalog: Vec<(u32, u32)> = Vec::new();
    let mut outbox = Vec::new();
    let mut cache = HashSet::new();
    assert_eq!(lobby.update(5, &game, &catalog, &mut outbox, &mut cache), Err(InterfaceError::Other));
}

#[test]
fn can_start_needs_everyone_in_main_menu() {
    let mut registry: HashMap<u32, Option<u32>> = HashMap::new();
    registry.insert(1, None);
    registry.insert(2, None);
    let mut lobby = SharedLobby::new(LobbyOptions::default(), 1);
    assert!(SharedLobby::can_start(&lobby));
    lobby.add_player(&mut registry, 1).unwrap();
    lobby.add_player(&mut registry, 2).unwrap();
    assert!(!GameStateExt::can_start(&lobby));
    lobby.set_room(0, Some(MAIN_MENU));
    assert!(!SharedLobby::can_start(&lobby));
    lobby.set_room(1, Some(CHUM_BUCKET));
    assert!(!SharedLobby::can_start(&lobby));
    lobby.set_room(1, Some(MAIN_MENU));
    assert!(SharedLobby::can_start(&lobby));
    assert!(GameStateExt::can_start(&lobby));
}

fn kp(collect: bool, mark_complete: bool, report: bool) -> KindPlan {
    KindPlan { collect, mark_complete, report }
}

#[test]
fn plan_tick_covers_every_rule() {
    let me = 4;
    let mut lobby = playing_lobby(me);
    for p in 0..3 {
        lobby.game_state.collect(p, 9);
    }
    lobby.game_state.collect(1, 10);
    let catalog = vec![(9u32, CHUM_BUCKET), (10, 50), (11, CHUM_BUCKET), (12, CHUM_BUCKET), (13, 50)];
    let mut cached = HashSet::new();
    cached.insert(12u32);
    let collecting = vec![true, true, true, true, true];
    let plan = plan_tick(&lobby, me, CHUM_BUCKET, &catalog, &cached, &collecting);
    assert_eq!(plan.room_report, Some(CHUM_BUCKET));
    assert_eq!(plan.door_cost, Some(DEFAULT_LAB_DOOR_COST));
    assert_eq!(
        plan.kinds,
        vec![kp(true, true, false), kp(false, true, false), kp(false, false, true), kp(true, false, false), kp(false, false, false)]
    );
}

#[test]
fn plan_tick_same_room_not_playing() {
    let me = 4;
    let mut lobby = playing_lobby(me);
    lobby.stop_game();
    lobby.set_room(0, Some(CHUM_BUCKET));
    let catalog = vec![(11u32, CHUM_BUCKET)];
    let plan = plan_tick(&lobby, me, CHUM_BUCKET, &catalog, &HashSet::new(), &vec![true]);
    assert_eq!(plan.room_report, None);
    assert_eq!(plan.door_cost, None);
    assert!(plan.kinds.is_empty());
}

#[test]
fn plan_tick_reports_a_repeated_entry_once() {
    let me = 4;
    let lobby = playing_lobby(me);
    let catalog = vec![(11u32, 20u32), (11, 20)];
    let plan = plan_tick(&lobby, me, 20, &catalog, &HashSet::new(), &vec![true, true]);
    assert_eq!(plan.kinds, vec![kp(false, false, true), kp(true, false, false)]);
}

#[test]
fn non_member_changes_nothing() {
    let mut lobby = playing_lobby(4);
    let mut game = FakeGame::new(20);
    game.collecting.insert(7);
    let catalog = vec![(7u32, 20u32)];
    let mut outbox = Vec::new();
    let mut cache = HashSet::new();
    assert!(lobby.update(5, &game, &catalog, &mut outbox, &mut cache).is_err());
    assert!(outbox.is_empty());
    assert!(cache.is_empty());
    assert_eq!(lobby.players[0].current_room, None);
}
