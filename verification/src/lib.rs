//! Rules engine for the tile-drafting board game Azul: the tile colors, the
//! player walls as bitboards, the factories, moves and move lists, the game
//! state with its text notation, and the feature encodings used by the
//! search players.

pub mod bits;
pub mod tile_color;
pub mod player;
pub mod wall;
pub mod pattern;
pub mod rng;
pub mod factories;
pub mod text;
pub mod move_;
pub mod move_list;
pub mod game_state;
pub mod notation;
pub mod playout;
pub mod encoding;
pub mod consistency;
pub mod formatting;
pub mod heuristic;
pub mod time_control;
pub mod edge;
pub mod players;
pub mod events;
pub mod integrity_report;
pub mod search_worker;
pub mod human_input;
pub mod snapshot;

pub use tile_color::{TileColor, NUM_TILE_COLORS};
pub use player::{PlayerMarker, NUM_PLAYERS};
