use vstd::prelude::*;

pub mod game_state;
pub mod lobby;
pub mod state;
pub mod session;
pub mod reconcile;

verus! {

/// Identifies a connected player.
pub type PlayerId = u32;

/// Identifies a lobby.
pub type LobbyId = u32;

/// A collectible kind, by its number in the game's catalogue.
pub type Spatula = u32;

/// A location of the game, by its number.
pub type Room = u32;

/// The most players that one lobby holds.
pub const MAX_PLAYERS: usize = 6;

/// The room that every player must be in before a game can start.
pub const MAIN_MENU: Room = 0;

/// The room whose door cost follows the lobby's options.
pub const CHUM_BUCKET: Room = 1;

/// The collectible whose collection ends the round.
pub const FINAL_SPATULA: Spatula = 99;

} // verus!
