//! A game in progress: the board, the cell that is selected, and the moves
//! that key presses and clicks stand for.

use crate::pos::GamePos;
use crate::puzzle::CellState;
use crate::puzzle::Puzzle;
use vstd::prelude::*;

verus! {

/// A move of the player.
pub enum GameAction {
    /// Select a cell.
    SetActiveCell(GamePos),
    /// Enter a digit as the guess for the selected cell.
    GuessInput(u8),
    /// Flip the pencil mark of a digit in the selected cell.
    PencilmarkInput(u8),
    /// Clear the selected cell.
    DeleteCell,
}

impl GameAction {
    /// The move names a cell on the board, or a digit from 1 to 9.
    pub open spec fn wf(self) -> bool {
        match self {
            GameAction::SetActiveCell(pos) => pos.on_board(),
            GameAction::GuessInput(val) => 1 <= val <= 9,
            GameAction::PencilmarkInput(val) => 1 <= val <= 9,
            GameAction::DeleteCell => true,
        }
    }

    /// The move that a key stands for. The codes 48 to 57 give a digit by
    /// their distance from 48, the codes 97 to 105 by their distance from 97;
    /// with shift held the digit is pencilled, otherwise guessed. Code 8,
    /// backspace, clears. Other keys stand for nothing.
    pub open spec fn spec_from_key(key_code: u32, shift: bool) -> Option<GameAction> {
        if 48 <= key_code <= 57 {
            Some(Self::digit_input((key_code - 48) as u8, shift))
        } else if 97 <= key_code <= 105 {
            Some(Self::digit_input((key_code - 97) as u8, shift))
        } else if key_code == 8 {
            Some(GameAction::DeleteCell)
        } else {
            None
        }
    }

    /// The move that enters `val`: a pencil mark with shift held, else a guess.
    pub open spec fn digit_input(val: u8, shift: bool) -> GameAction {
        if shift {
            GameAction::PencilmarkInput(val)
        } else {
            GameAction::GuessInput(val)
        }
    }

    /// Whether the move names a cell on the board, or a digit from 1 to 9.
    pub fn is_wf(&self) -> (ok: bool)
        ensures
            ok == self.wf(),
    {
        match self {
            GameAction::SetActiveCell(pos) => pos.is_on_board(),
            GameAction::GuessInput(val) => 1 <= *val && *val <= 9,
            GameAction::PencilmarkInput(val) => 1 <= *val && *val <= 9,
            GameAction::DeleteCell => true,
        }
    }

    /// The move that a key press stands for, if any.
    pub fn from_key(key_code: u32, shift: bool) -> (action: Option<GameAction>)
        ensures
            action == Self::spec_from_key(key_code, shift),
    {
        if 48 <= key_code && key_code <= 57 {
            let val = (key_code - 48) as u8;
            if shift {
                Some(GameAction::PencilmarkInput(val))
            } else {
                Some(GameAction::GuessInput(val))
            }
        } else if 97 <= key_code && key_code <= 105 {
            let val = (key_code - 97) as u8;
            if shift {
                Some(GameAction::PencilmarkInput(val))
            } else {
                Some(GameAction::GuessInput(val))
            }
        } else if key_code == 8 {
            Some(GameAction::DeleteCell)
        } else {
            None
        }
    }
}

/// The board together with the cell that the player has selected.
#[derive(PartialEq)]
pub struct GameState {
    pub puzzle: Puzzle,
    pub active_cell: Option<GamePos>,
}

impl Clone for GameState {
    fn clone(&self) -> (copy: GameState)
        ensures
            copy == *self,
    {
        GameState { puzzle: self.puzzle.clone(), active_cell: self.active_cell }
    }
}

impl GameState {
    /// A selected cell lies on the board.
    pub open spec fn wf(self) -> bool {
        match self.active_cell {
            Some(pos) => pos.on_board(),
            None => true,
        }
    }

    /// The cells of the board after the move: a digit or a deletion edits the
    /// selected cell, and nothing without a selection; selecting edits nothing.
    pub open spec fn cells_after(self, action: GameAction) -> Seq<CellState> {
        match (action, self.active_cell) {
            (GameAction::GuessInput(val), Some(pos)) => Puzzle::after_guess(self.puzzle@, pos, val),
            (GameAction::PencilmarkInput(val), Some(pos)) => Puzzle::after_toggle(
                self.puzzle@,
                pos,
                val as int,
            ),
            (GameAction::DeleteCell, Some(pos)) => Puzzle::after_clear(self.puzzle@, pos),
            _ => self.puzzle@,
        }
    }

    /// The selection after the move: only selecting changes it.
    pub open spec fn active_after(self, action: GameAction) -> Option<GamePos> {
        match action {
            GameAction::SetActiveCell(pos) => Some(pos),
            _ => self.active_cell,
        }
    }

    /// Whether `reduce` can be called with this move in this state.
    pub fn accepts(&self, action: &GameAction) -> (ok: bool)
        ensures
            ok == (self.wf() && action.wf()),
    {
        let selection_ok = match self.active_cell {
            Some(pos) => pos.is_on_board(),
            None => true,
        };
        selection_ok && action.is_wf()
    }

    /// The state that the move leads to. The state itself is left as it is.
    pub fn reduce(&self, action: GameAction) -> (next: GameState)
        requires
            self.wf(),
            action.wf(),
        ensures
            next.wf(),
            next.puzzle@ == self.cells_after(action),
            next.active_cell == self.active_after(action),
            self.puzzle.wf() ==> next.puzzle.wf(),
    {
        let mut state = self.clone();

        match action {
            GameAction::SetActiveCell(pos) => state.active_cell = Some(pos),
            GameAction::GuessInput(val) => if let Some(pos) = state.active_cell {
                state.puzzle.set_guess(&pos, val);
            },
            GameAction::PencilmarkInput(val) => if let Some(pos) = state.active_cell {
                state.puzzle.toggle_candidate(&pos, val as usize);
            },
            GameAction::DeleteCell => if let Some(pos) = state.active_cell {
                state.puzzle.clear(&pos)
            },
        }

        state
    }
}

} // verus!
