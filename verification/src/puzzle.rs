//! The cells of the board, the edits a player can make, and the detection of
//! digits that clash.

use crate::pos::GamePos;
use vstd::array::spec_array_fill_for_copy_type;
use vstd::array::spec_array_update;
use vstd::prelude::*;

verus! {

/// What a cell of the board holds.
#[derive(PartialEq, Clone, Copy, Debug)]
pub enum CellState {
    /// A digit given by the puzzle. It never changes.
    Clue(u8),
    /// A digit entered by the player.
    Guess(u8),
    /// The digits pencilled in as candidates: digit `d` is marked when the
    /// entry at `d - 1` is set.
    Pencilmarks([bool; 9]),
}

impl CellState {
    /// A cell with no digit and no pencil mark.
    pub open spec fn blank() -> CellState {
        CellState::Pencilmarks(spec_array_fill_for_copy_type::<bool, 9>(false))
    }

    /// The digit that the cell shows, if it shows one.
    pub open spec fn digit(self) -> Option<u8> {
        match self {
            CellState::Clue(v) => Some(v),
            CellState::Guess(v) => Some(v),
            CellState::Pencilmarks(_) => None,
        }
    }

    /// The pencil marks of the cell; a cell that shows a digit has none.
    pub open spec fn marks(self) -> [bool; 9] {
        match self {
            CellState::Pencilmarks(m) => m,
            _ => spec_array_fill_for_copy_type::<bool, 9>(false),
        }
    }

    /// A digit shown by the cell is one of 1 to 9.
    pub open spec fn wf(self) -> bool {
        match self.digit() {
            Some(v) => 1 <= v <= 9,
            None => true,
        }
    }

    /// Whether both cells show a digit, and the same one.
    pub open spec fn spec_conflicts_with(self, other: CellState) -> bool {
        self.digit() is Some && self.digit() == other.digit()
    }

    /// The cell after it is cleared.
    pub open spec fn cleared(self) -> CellState {
        if self is Clue {
            self
        } else {
            Self::blank()
        }
    }

    /// The cell after `value` is entered as a guess.
    pub open spec fn with_guess(self, value: u8) -> CellState {
        if self is Clue {
            self
        } else {
            CellState::Guess(value)
        }
    }

    /// The cell after the pencil mark of `digit` is flipped.
    pub open spec fn toggled(self, digit: int) -> CellState {
        if self is Clue {
            self
        } else {
            let m = self.marks();
            CellState::Pencilmarks(spec_array_update(m, digit - 1, !m[digit - 1]))
        }
    }

    /// Whether both cells show a digit, and the same one. Whether a digit is
    /// a clue or a guess makes no difference.
    pub fn conflicts_with(self, other: CellState) -> (conflict: bool)
        ensures
            conflict == self.spec_conflicts_with(other),
    {
        let my_value = match self {
            CellState::Clue(v) => v,
            CellState::Guess(v) => v,
            CellState::Pencilmarks(_) => return false,
        };

        let their_value = match other {
            CellState::Clue(v) => v,
            CellState::Guess(v) => v,
            CellState::Pencilmarks(_) => return false,
        };

        return my_value == their_value;
    }
}

/// What is needed to draw one cell: where it is, what it holds, and whether
/// its digit clashes with another.
pub struct Cell {
    pub pos: GamePos,
    pub state: CellState,
    pub error: bool,
}

impl Cell {
    /// The position of the cell with row-major index `idx`.
    pub open spec fn spec_pos_at_index(idx: int) -> GamePos {
        GamePos { row: (idx / 9) as i32, col: (idx % 9) as i32 }
    }

    /// The position of the cell with row-major index `idx`.
    pub fn pos_at_index(idx: i32) -> (pos: GamePos)
        requires
            0 <= idx,
        ensures
            pos == Self::spec_pos_at_index(idx as int),
            idx <= 80 ==> pos.on_board() && pos.index() == idx,
    {
        let row = idx / 9;
        let col = idx % 9;

        GamePos::at(row, col)
    }

    /// The snapshot of the cell with row-major index `idx`.
    pub fn from_index(idx: i32, state: CellState, error: bool) -> (cell: Cell)
        requires
            0 <= idx,
        ensures
            cell.pos == Self::spec_pos_at_index(idx as int),
            cell.state == state,
            cell.error == error,
    {
        Cell { pos: Self::pos_at_index(idx), state, error }
    }
}

/// The 81 cells of a board, row by row.
#[derive(PartialEq, Debug)]
pub struct Puzzle {
    cells: [CellState; 81],
}

impl Clone for Puzzle {
    fn clone(&self) -> (copy: Puzzle)
        ensures
            copy == *self,
    {
        Puzzle { cells: self.cells }
    }
}

impl View for Puzzle {
    type V = Seq<CellState>;

    /// The cells in row-major order.
    closed spec fn view(&self) -> Seq<CellState> {
        self.cells@
    }
}

impl Puzzle {
    /// The cell that a digit of the input becomes: a clue, or blank for 0.
    pub open spec fn initial_state(digit: u8) -> CellState {
        if digit > 0 {
            CellState::Clue(digit)
        } else {
            CellState::blank()
        }
    }

    /// Every digit on the board is one of 1 to 9.
    pub open spec fn wf(self) -> bool {
        forall|i: int| 0 <= i < 81 ==> (#[trigger] self@[i]).wf()
    }

    /// What the cell at `pos` holds.
    pub open spec fn spec_state_at(self, pos: GamePos) -> CellState {
        self@[pos.index()]
    }

    /// Whether the cell at `pos` shows a digit that a cell of the same row or
    /// column shows too.
    pub open spec fn spec_is_error(self, pos: GamePos) -> bool {
        let others = pos.spec_conflict_candidates();
        exists|i: int|
            0 <= i < others.len() && self.spec_state_at(#[trigger] others[i]).spec_conflicts_with(
                self.spec_state_at(pos),
            )
    }

    /// The cells after the cell at `pos` is cleared.
    pub open spec fn after_clear(cells: Seq<CellState>, pos: GamePos) -> Seq<CellState> {
        cells.update(pos.index(), cells[pos.index()].cleared())
    }

    /// The cells after `value` is entered as a guess at `pos`.
    pub open spec fn after_guess(cells: Seq<CellState>, pos: GamePos, value: u8) -> Seq<
        CellState,
    > {
        cells.update(pos.index(), cells[pos.index()].with_guess(value))
    }

    /// The cells after the pencil mark of `digit` is flipped at `pos`.
    pub open spec fn after_toggle(cells: Seq<CellState>, pos: GamePos, digit: int) -> Seq<
        CellState,
    > {
        cells.update(pos.index(), cells[pos.index()].toggled(digit))
    }

    /// The snapshot of every cell, in row-major order.
    pub open spec fn spec_cells(self) -> Seq<Cell> {
        Seq::new(
            81,
            |i: int|
                Cell {
                    pos: Cell::spec_pos_at_index(i),
                    state: self@[i],
                    error: self.spec_is_error(Cell::spec_pos_at_index(i)),
                },
        )
    }

    /// A board always has 81 cells.
    pub proof fn lemma_len(self)
        ensures
            self@.len() == 81,
    {
    }

    /// Sets up a board from its 81 digits in row-major order: 0 leaves a cell
    /// blank, 1 to 9 is a clue.
    pub fn from(input: [u8; 81]) -> (puzzle: Puzzle)
        requires
            forall|i: int| 0 <= i < 81 ==> input[i] <= 9,
        ensures
            puzzle@.len() == 81,
            forall|i: int| 0 <= i < 81 ==> #[trigger] puzzle@[i] == Self::initial_state(input[i]),
            forall|pos: GamePos|
                pos.on_board() ==> #[trigger] puzzle.spec_state_at(pos) == Self::initial_state(
                    input[pos.index()],
                ),
            puzzle.wf(),
    {
        let mut cells = [CellState::Pencilmarks([false; 9]);81];

        let mut idx: usize = 0;
        while idx < 81
            invariant
                idx <= 81,
                forall|i: int| 0 <= i < idx ==> #[trigger] cells[i] == Self::initial_state(input[i]),
                forall|i: int| idx <= i < 81 ==> #[trigger] cells[i] == CellState::blank(),
            decreases 81 - idx,
        {
            let value = input[idx];
            if value > 0 {
                cells[idx] = CellState::Clue(value);
            }
            idx += 1;
        }

        Puzzle { cells }
    }

    /// What the cell at `pos` holds.
    pub fn state_at(&self, pos: &GamePos) -> (state: CellState)
        requires
            pos.on_board(),
        ensures
            state == self.spec_state_at(*pos),
    {
        self.cells[Self::idx_of(pos)]
    }

    /// Replaces what the cell at `pos` holds.
    fn set_state_at(&mut self, pos: &GamePos, state: CellState)
        requires
            pos.on_board(),
        ensures
            final(self)@ == old(self)@.update(pos.index(), state),
    {
        self.cells[Self::idx_of(pos)] = state;
    }

    /// Lends out the cell at `pos` for an edit.
    fn state_at_mut(&mut self, pos: &GamePos) -> (state: &mut CellState)
        requires
            pos.on_board(),
        ensures
            *state == old(self).spec_state_at(*pos),
            final(self)@ == old(self)@.update(pos.index(), *final(state)),
    {
        &mut self.cells[Self::idx_of(pos)]
    }

    /// The row-major index of `pos`.
    fn idx_of(pos: &GamePos) -> (idx: usize)
        requires
            pos.on_board(),
        ensures
            idx == pos.index(),
            idx < 81,
    {
        ((pos.row * 9) + pos.col) as usize
    }

    /// Whether the cell at `pos` shows a digit that another cell of its row or
    /// column shows too. A cell with pencil marks is never in error.
    pub fn is_error(&self, pos: GamePos) -> (error: bool)
        requires
            pos.on_board(),
        ensures
            error == self.spec_is_error(pos),
    {
        let my_cell = self.state_at(&pos);
        let mut others = pos.conflict_candidates();
        let ghost all = pos.spec_conflict_candidates();
        let ghost mut seen: int = 0;

        loop
            invariant
                pos.on_board(),
                others.wf(),
                all == pos.spec_conflict_candidates(),
                0 <= seen <= all.len(),
                others.remaining() == all.skip(seen),
                my_cell == self.spec_state_at(pos),
                forall|j: int|
                    0 <= j < seen ==> !self.spec_state_at(#[trigger] all[j]).spec_conflicts_with(
                        my_cell,
                    ),
            decreases all.len() - seen,
        {
            match others.next() {
                Some(other) => {
                    assert(other == all[seen]);
                    if self.state_at(&other).conflicts_with(my_cell) {
                        return true;
                    }
                    proof {
                        assert(all.skip(seen).skip(1) =~= all.skip(seen + 1));
                        seen = seen + 1;
                    }
                },
                None => {
                    return false;
                },
            }
        }
    }

    /// Removes the guess or the pencil marks of the cell at `pos`. A clue stays.
    pub fn clear(&mut self, pos: &GamePos)
        requires
            pos.on_board(),
        ensures
            final(self)@ == Self::after_clear(old(self)@, *pos),
            old(self).spec_state_at(*pos) is Clue ==> final(self)@ == old(self)@,
            old(self).wf() ==> final(self).wf(),
    {
        if let CellState::Clue(_) = self.state_at(pos) {
            assert(self@ =~= Self::after_clear(self@, *pos));
            return ;
        }
        self.set_state_at(pos, CellState::Pencilmarks([false;9]));
    }

    /// Enters `candidate` as the guess for the cell at `pos`, dropping its
    /// pencil marks. A clue stays.
    pub fn set_guess(&mut self, pos: &GamePos, candidate: u8)
        requires
            pos.on_board(),
            1 <= candidate <= 9,
        ensures
            final(self)@ == Self::after_guess(old(self)@, *pos, candidate),
            old(self).spec_state_at(*pos) is Clue ==> final(self)@ == old(self)@,
            old(self).wf() ==> final(self).wf(),
    {
        if let CellState::Clue(_) = self.state_at(pos) {
            assert(self@ =~= Self::after_guess(self@, *pos, candidate));
            return ;
        }
        self.set_state_at(pos, CellState::Guess(candidate));
    }

    /// Flips the pencil mark of `candidate` in the cell at `pos`. A guess there
    /// is dropped first, so that the mark is then the only one. A clue stays.
    pub fn toggle_candidate(&mut self, pos: &GamePos, candidate: usize)
        requires
            pos.on_board(),
            1 <= candidate <= 9,
        ensures
            final(self)@ == Self::after_toggle(old(self)@, *pos, candidate as int),
            old(self).spec_state_at(*pos) is Clue ==> final(self)@ == old(self)@,
            old(self).wf() ==> final(self).wf(),
    {
        if let CellState::Guess(_) = self.state_at(pos) {
            self.set_state_at(pos, CellState::Pencilmarks([false;9]));
        }
        match self.state_at_mut(pos) {
            CellState::Clue(_) => {},
            CellState::Pencilmarks(candidates) => {
                let current_value = candidates[candidate - 1];

                candidates[candidate - 1] = !current_value;
            },
            CellState::Guess(_) => {
                // A guess was replaced by blank pencil marks above.
                assert(false);
            },
        }
        assert(self@ =~= Self::after_toggle(old(self)@, *pos, candidate as int));
    }

    /// A cursor over the snapshots of all cells, from the top left, row by row.
    pub fn iter_cells(&self) -> (it: CellIter<'_>)
        ensures
            it.wf(),
            it.remaining() == self.spec_cells(),
    {
        let it = CellIter { puzzle: &self, index: 0 };
        assert(it.remaining() =~= self.spec_cells());
        it
    }

    /// The snapshots come in row-major order: the `i`-th is the cell at index
    /// `i`, with what it holds and whether it is in error on this board.
    pub proof fn lemma_cells_in_index_order(self)
        ensures
            self.spec_cells().len() == 81,
            forall|i: int|
                0 <= i < 81 ==> {
                    let cell = #[trigger] self.spec_cells()[i];
                    &&& cell.pos == Cell::spec_pos_at_index(i)
                    &&& cell.pos.on_board()
                    &&& cell.pos.index() == i
                    &&& cell.state == self.spec_state_at(cell.pos)
                    &&& cell.error == self.spec_is_error(cell.pos)
                },
    {
    }

    /// Clearing, guessing and pencilling leave a board unchanged where the
    /// cell is a clue.
    pub proof fn lemma_clue_is_kept(cells: Seq<CellState>, pos: GamePos, value: u8, digit: int)
        requires
            cells.len() == 81,
            pos.on_board(),
            cells[pos.index()] is Clue,
        ensures
            Self::after_clear(cells, pos) == cells,
            Self::after_guess(cells, pos, value) == cells,
            Self::after_toggle(cells, pos, digit) == cells,
    {
        assert(Self::after_clear(cells, pos) =~= cells);
        assert(Self::after_guess(cells, pos, value) =~= cells);
        assert(Self::after_toggle(cells, pos, digit) =~= cells);
    }

    /// Flipping the same pencil mark twice in a cell that holds pencil marks
    /// gives the board back as it was.
    pub proof fn lemma_toggle_twice(cells: Seq<CellState>, pos: GamePos, digit: int)
        requires
            cells.len() == 81,
            pos.on_board(),
            1 <= digit <= 9,
            cells[pos.index()] is Pencilmarks,
        ensures
            Self::after_toggle(Self::after_toggle(cells, pos, digit), pos, digit) == cells,
    {
        let before = cells[pos.index()];
        let twice = before.toggled(digit).toggled(digit);
        assert(twice.marks() =~= before.marks());
        assert(Self::after_toggle(Self::after_toggle(cells, pos, digit), pos, digit) =~= cells);
    }

    /// A guess wipes the pencil marks: flipping the mark of `digit` right
    /// after a guess leaves exactly that mark set. A clue takes neither edit,
    /// so this holds of the other cells only.
    pub proof fn lemma_guess_then_toggle(cells: Seq<CellState>, pos: GamePos, value: u8, digit: int)
        requires
            cells.len() == 81,
            pos.on_board(),
            1 <= digit <= 9,
            !(cells[pos.index()] is Clue),
        ensures
            ({
                let after = Self::after_toggle(Self::after_guess(cells, pos, value), pos, digit);
                &&& after[pos.index()] is Pencilmarks
                &&& forall|i: int|
                    0 <= i < 9 ==> #[trigger] after[pos.index()].marks()[i] == (i == digit - 1)
                &&& forall|j: int| 0 <= j < 81 && j != pos.index() ==> after[j] == cells[j]
            }),
    {
    }

    /// A clash is mutual: where the cell at `p` clashes with one of its
    /// candidates `q`, `p` is a candidate of `q`, and both cells are in error.
    pub proof fn lemma_is_error_symmetric(self, p: GamePos, q: GamePos)
        requires
            p.on_board(),
            p.spec_conflict_candidates().contains(q),
            self.spec_state_at(p).spec_conflicts_with(self.spec_state_at(q)),
        ensures
            q.spec_conflict_candidates().contains(p),
            self.spec_is_error(p),
            self.spec_is_error(q),
    {
        GamePos::lemma_conflict_candidates(p, q);
        GamePos::lemma_conflict_candidates(q, p);
        let at_p = p.spec_conflict_candidates();
        let i = choose|i: int| 0 <= i < at_p.len() && at_p[i] == q;
        assert(self.spec_state_at(at_p[i]).spec_conflicts_with(self.spec_state_at(p)));
        let at_q = q.spec_conflict_candidates();
        let j = choose|j: int| 0 <= j < at_q.len() && at_q[j] == p;
        assert(self.spec_state_at(at_q[j]).spec_conflicts_with(self.spec_state_at(q)));
    }
}

/// A cursor over the snapshots of all cells of a board, in row-major order.
pub struct CellIter<'a> {
    puzzle: &'a Puzzle,
    index: usize,
}

impl<'a> CellIter<'a> {
    /// The cursor has yielded at most the 81 cells of the board.
    pub closed spec fn wf(self) -> bool {
        self.index <= 81
    }

    /// The snapshots that the cursor has yet to yield, in order.
    pub closed spec fn remaining(self) -> Seq<Cell> {
        self.puzzle.spec_cells().skip(self.index as int)
    }

    /// Yields the snapshot of the next cell, or `None` after the last.
    pub fn next(&mut self) -> (item: Option<Cell>)
        requires
            old(self).wf(),
        ensures
            final(self).wf(),
            old(self).remaining().len() == 0 ==> item is None && final(self).remaining().len() == 0,
            old(self).remaining().len() > 0 ==> item == Some(old(self).remaining()[0])
                && final(self).remaining() == old(self).remaining().skip(1),
    {
        let this_idx = self.index;

        if this_idx <= 80 {
            let ghost before = *self;
            self.index += 1;
            assert(self.remaining() =~= before.remaining().skip(1));

            let cell_state = self.puzzle.cells[this_idx];
            let cell = Cell::from_index(
                this_idx as i32,
                cell_state,
                self.puzzle.is_error(Cell::pos_at_index(this_idx as i32)),
            );

            Some(cell)
        } else {
            None
        }
    }

    /// Runs the cursor to its end and returns what it yielded.
    pub fn collect(self) -> (items: Vec<Cell>)
        requires
            self.wf(),
        ensures
            items@ == self.remaining(),
    {
        let mut it = self;
        let mut items: Vec<Cell> = Vec::new();
        loop
            invariant
                it.wf(),
                items@ + it.remaining() == self.remaining(),
            ensures
                items@ == self.remaining(),
            decreases it.remaining().len(),
        {
            let ghost rest = it.remaining();
            match it.next() {
                Some(cell) => {
                    items.push(cell);
                    assert(items@ + it.remaining() =~= self.remaining()) by {
                        assert(rest =~= seq![cell] + rest.skip(1));
                    }
                },
                None => {
                    assert(it.remaining() =~= Seq::empty());
                    assert(items@ =~= items@ + it.remaining());
                    break ;
                },
            }
        }
        items
    }
}

} // verus!
