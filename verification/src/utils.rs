//! Match configuration: who plays, on what board, and with which options.
//! The interactive setup dialogue and the turn loop around it live outside
//! the library.

use vstd::prelude::*;
use crate::ai::AIDifficulty;

verus! {

/// Who sits at each seat.
#[derive(Debug, Clone)]
pub enum GameMode {
    HumanVsAI,
    AIVsAI,
    HumanVsHuman,
}

/// Everything a match needs to start.
pub struct GameConfig {
    pub mode: GameMode,
    pub board_width: usize,
    pub board_height: usize,
    pub ai_difficulty: AIDifficulty,
    pub show_animations: bool,
    pub player1_name: String,
    pub player2_name: String,
    pub enable_replay: bool,
}

impl Default for GameConfig {
    /// The stock setup: a person against the greedy engine on a 15 by 10
    /// board, with animations on and replay recording off.
    fn default() -> (r: GameConfig)
        ensures
            r.mode is HumanVsAI,
            r.board_width == 15,
            r.board_height == 10,
            r.ai_difficulty is Medium,
            r.show_animations,
            !r.enable_replay,
    {
        GameConfig {
            mode: GameMode::HumanVsAI,
            board_width: 15,
            board_height: 10,
            ai_difficulty: AIDifficulty::Medium,
            show_animations: true,
            player1_name: String::from_str("Player 1"),
            player2_name: String::from_str("AI"),
            enable_replay: false,
        }
    }
}

} // verus!
