//! Filler: a two-player territory-claiming board game.
//!
//! Players alternately place polyomino pieces on a shared grid. A placement
//! must stay in bounds, must not touch the opponent's territory, and must
//! overlap the placing player's own territory in exactly one cell (unless the
//! player owns no cell yet). The game ends when the active player has no legal
//! placement for the piece just drawn; the player owning more cells wins.
#![verifier::loop_isolation(false)]

pub mod ai;
pub mod engine;
pub mod game;
pub mod piece;
pub mod player;
pub mod protocol;
pub mod rules;
pub mod utils;
pub mod visualizer;
mod text;
