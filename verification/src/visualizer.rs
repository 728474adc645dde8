//! Presentation settings and the replay record. The rendering itself, the
//! animation timing, and the replay playback controls live outside the
//! library; these types carry the data they work from.

use vstd::prelude::*;
use crate::engine::GameState;
use crate::piece::Piece;

verus! {

/// How the match should be shown: whether to animate, how long to pause
/// between animation frames, and whether to clear the screen between turns.
pub struct GameVisualizer {
    pub show_animations: bool,
    pub animation_delay_ms: u64,
    pub clear_screen: bool,
}

impl GameVisualizer {
    /// The stock presentation: animations on, half a second per frame, and a
    /// cleared screen between turns.
    pub fn new() -> (r: GameVisualizer)
        ensures
            r.show_animations,
            r.animation_delay_ms == 500,
            r.clear_screen,
    {
        GameVisualizer { show_animations: true, animation_delay_ms: 500, clear_screen: true }
    }

    pub fn with_settings(show_animations: bool, animation_delay_ms: u64, clear_screen: bool) -> (r:
        GameVisualizer)
        ensures
            r.show_animations == show_animations,
            r.animation_delay_ms == animation_delay_ms,
            r.clear_screen == clear_screen,
    {
        GameVisualizer { show_animations, animation_delay_ms, clear_screen }
    }
}

/// One recorded turn: who moved, with which piece, where (or that no move
/// was possible), and the match state after the turn.
pub struct ReplayMove {
    pub player: u8,
    pub piece: Piece,
    pub position: Option<(usize, usize)>,
    pub game_state: GameState,
}

/// The recorded turns of a match, in order, with a playback cursor.
pub struct GameReplay {
    pub moves: Vec<ReplayMove>,
    pub current_move: usize,
}

impl GameReplay {
    pub fn new() -> (r: GameReplay)
        ensures
            r.moves@.len() == 0,
            r.current_move == 0,
    {
        GameReplay { moves: Vec::new(), current_move: 0 }
    }

    /// Appends one turn to the record.
    pub fn add_move(
        &mut self,
        player: u8,
        piece: Piece,
        position: Option<(usize, usize)>,
        game_state: GameState,
    )
        ensures
            final(self).moves@.len() == old(self).moves@.len() + 1,
            final(self).moves@[old(self).moves@.len() as int].player == player,
            final(self).moves@[old(self).moves@.len() as int].position == position,
            forall|i: int|
                0 <= i < old(self).moves@.len() ==> final(self).moves@[i] == old(self).moves@[i],
            final(self).current_move == old(self).current_move,
    {
        self.moves.push(ReplayMove { player, piece, position, game_state });
    }
}

} // verus!
