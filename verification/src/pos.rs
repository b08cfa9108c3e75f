//! Positions on the board and the cursors that walk along its rows and columns.

use vstd::prelude::*;

verus! {

/// A position on a sudoku board, with zero-indexed row and column.
#[derive(PartialEq, Eq, Clone, Copy, Debug, Structural)]
pub struct GamePos {
    pub col: i32,
    pub row: i32,
}

impl GamePos {
    /// Whether both coordinates lie on the 9x9 board.
    pub open spec fn on_board(self) -> bool {
        0 <= self.row <= 8 && 0 <= self.col <= 8
    }

    /// The row-major index of the position.
    pub open spec fn index(self) -> int {
        self.row * 9 + self.col
    }

    /// Whether the two positions share a row or a column.
    pub open spec fn spec_aligned_with(self, other: GamePos) -> bool {
        other.col == self.col || other.row == self.row
    }

    /// The positions of the same row to the right, nearest first.
    pub open spec fn right_of(self) -> Seq<GamePos> {
        Seq::new(
            (8 - self.col) as nat,
            |i: int| GamePos { row: self.row, col: (self.col + 1 + i) as i32 },
        )
    }

    /// The positions of the same row to the left, nearest first.
    pub open spec fn left_of(self) -> Seq<GamePos> {
        Seq::new(
            self.col as nat,
            |i: int| GamePos { row: self.row, col: (self.col - 1 - i) as i32 },
        )
    }

    /// The positions of the same column above, nearest first.
    pub open spec fn above(self) -> Seq<GamePos> {
        Seq::new(
            self.row as nat,
            |i: int| GamePos { row: (self.row - 1 - i) as i32, col: self.col },
        )
    }

    /// The positions of the same column below, nearest first.
    pub open spec fn below(self) -> Seq<GamePos> {
        Seq::new(
            (8 - self.row) as nat,
            |i: int| GamePos { row: (self.row + 1 + i) as i32, col: self.col },
        )
    }

    /// The eight other positions of the same row, by increasing column.
    pub open spec fn others_in_row(self) -> Seq<GamePos> {
        Seq::new(
            8,
            |i: int| GamePos { row: self.row, col: (if i < self.col { i } else { i + 1 }) as i32 },
        )
    }

    /// The eight other positions of the same column, by increasing row.
    pub open spec fn others_in_col(self) -> Seq<GamePos> {
        Seq::new(
            8,
            |i: int| GamePos { row: (if i < self.row { i } else { i + 1 }) as i32, col: self.col },
        )
    }

    /// The positions whose digit may clash with the digit here: the others of
    /// the column, then the others of the row. Positions that only share the
    /// 3x3 block are not among them.
    pub open spec fn spec_conflict_candidates(self) -> Seq<GamePos> {
        self.others_in_col() + self.others_in_row()
    }

    /// The conflict candidates of a position on the board are exactly the
    /// other positions on the board that share its row or its column.
    pub proof fn lemma_conflict_candidates(p: GamePos, q: GamePos)
        requires
            p.on_board(),
        ensures
            p.spec_conflict_candidates().contains(q) <==> q.on_board() && q != p
                && p.spec_aligned_with(q),
    {
        let all = p.spec_conflict_candidates();
        if q.on_board() && q != p && p.spec_aligned_with(q) {
            if q.col == p.col {
                let i: int = if q.row < p.row { q.row as int } else { q.row - 1 };
                assert(all[i] == q);
            } else {
                let i: int = if q.col < p.col { q.col as int } else { q.col - 1 };
                assert(all[8 + i] == q);
            }
        }
        if all.contains(q) {
            let i = choose|i: int| 0 <= i < all.len() && all[i] == q;
            if i < 8 {
                assert(q == p.others_in_col()[i]);
            } else {
                assert(q == p.others_in_row()[i - 8]);
            }
        }
    }

    /// The position at `row` and `col`. Neither is checked against the board.
    pub fn at(row: i32, col: i32) -> (pos: GamePos)
        ensures
            pos.row == row,
            pos.col == col,
    {
        GamePos { row, col }
    }

    /// Whether both coordinates lie on the 9x9 board.
    pub fn is_on_board(&self) -> (ok: bool)
        ensures
            ok == self.on_board(),
    {
        0 <= self.row && self.row <= 8 && 0 <= self.col && self.col <= 8
    }

    /// Whether the two positions share a row or a column.
    pub fn aligned_with(&self, other: GamePos) -> (aligned: bool)
        ensures
            aligned == self.spec_aligned_with(other),
    {
        other.col == self.col || other.row == self.row
    }

    /// Walks the row to the right of this position, up to column 8.
    pub fn iter_right(&self) -> (it: GamePosIter)
        requires
            self.on_board(),
        ensures
            it.wf(),
            it.remaining() == self.right_of(),
    {
        let it = GamePosIter { pos: *self, kind: GamePosIterKind::Row, inc: true, skip: None };
        assert(it.remaining() =~= self.right_of());
        it
    }

    /// Walks the row to the left of this position, down to column 0.
    pub fn iter_left(&self) -> (it: GamePosIter)
        requires
            self.on_board(),
        ensures
            it.wf(),
            it.remaining() == self.left_of(),
    {
        let it = GamePosIter { pos: *self, kind: GamePosIterKind::Row, inc: false, skip: None };
        assert(it.remaining() =~= self.left_of());
        it
    }

    /// Walks the column above this position, up to row 0.
    pub fn iter_up(&self) -> (it: GamePosIter)
        requires
            self.on_board(),
        ensures
            it.wf(),
            it.remaining() == self.above(),
    {
        let it = GamePosIter { pos: *self, kind: GamePosIterKind::Col, inc: false, skip: None };
        assert(it.remaining() =~= self.above());
        it
    }

    /// Walks the column below this position, down to row 8.
    pub fn iter_down(&self) -> (it: GamePosIter)
        requires
            self.on_board(),
        ensures
            it.wf(),
            it.remaining() == self.below(),
    {
        let it = GamePosIter { pos: *self, kind: GamePosIterKind::Col, inc: true, skip: None };
        assert(it.remaining() =~= self.below());
        it
    }

    /// Walks the whole column from row 0 to row 8, passing over this position.
    pub fn iter_others_in_col(&self) -> (it: GamePosIter)
        requires
            self.on_board(),
        ensures
            it.wf(),
            it.remaining() == self.others_in_col(),
    {
        let it = GamePosIter {
            pos: GamePos { col: self.col, row: -1 },
            kind: GamePosIterKind::Col,
            inc: true,
            skip: Some(*self),
        };
        assert(it.remaining() =~= self.others_in_col());
        it
    }

    /// Walks the whole row from column 0 to column 8, passing over this position.
    pub fn iter_others_in_row(&self) -> (it: GamePosIter)
        requires
            self.on_board(),
        ensures
            it.wf(),
            it.remaining() == self.others_in_row(),
    {
        let it = GamePosIter {
            pos: GamePos { col: -1, row: self.row },
            kind: GamePosIterKind::Row,
            inc: true,
            skip: Some(*self),
        };
        assert(it.remaining() =~= self.others_in_row());
        it
    }

    /// Walks the positions whose digit may clash with the digit here: the
    /// others of the column, then the others of the row.
    pub fn conflict_candidates(&self) -> (it: ConflictIter)
        requires
            self.on_board(),
        ensures
            it.wf(),
            it.remaining() == self.spec_conflict_candidates(),
    {
        ConflictIter { col: self.iter_others_in_col(), row: self.iter_others_in_row() }
    }
}

enum GamePosIterKind {
    Row,
    Col,
}

/// A cursor that walks along one row or one column towards the edge of the
/// board, optionally passing over one position without yielding it.
pub struct GamePosIter {
    kind: GamePosIterKind,
    pos: GamePos,
    inc: bool,
    skip: Option<GamePos>,
}

impl GamePosIter {
    /// The coordinate that the cursor changes as it moves.
    spec fn coord(self) -> int {
        match self.kind {
            GamePosIterKind::Row => self.pos.col as int,
            GamePosIterKind::Col => self.pos.row as int,
        }
    }

    /// The position on the cursor's line whose moving coordinate is `c`.
    spec fn place(self, c: int) -> GamePos {
        match self.kind {
            GamePosIterKind::Row => GamePos { row: self.pos.row, col: c as i32 },
            GamePosIterKind::Col => GamePos { row: c as i32, col: self.pos.col },
        }
    }

    /// How many positions lie between the cursor and the edge it moves to.
    pub closed spec fn ahead(self) -> nat {
        if self.inc {
            (8 - self.coord()) as nat
        } else {
            self.coord() as nat
        }
    }

    /// The moving coordinate of the skipped position, while it is still to come.
    spec fn gap(self) -> Option<int> {
        match self.skip {
            Some(s) => {
                let c = match self.kind {
                    GamePosIterKind::Row => s.col as int,
                    GamePosIterKind::Col => s.row as int,
                };
                if s == self.place(c) && self.coord() < c <= 8 {
                    Some(c)
                } else {
                    None
                }
            },
            None => None,
        }
    }

    /// The moving coordinate of the `i`-th position still to be yielded.
    spec fn coord_at(self, i: int) -> int {
        if self.inc {
            let raw = self.coord() + 1 + i;
            match self.gap() {
                Some(c) => if raw >= c { raw + 1 } else { raw },
                None => raw,
            }
        } else {
            self.coord() - 1 - i
        }
    }

    /// The cursor stands on its line, at most one step off the board, and only
    /// a cursor that moves by increasing coordinate passes a position over.
    pub closed spec fn wf(self) -> bool {
        &&& self.inc ==> -1 <= self.coord() <= 8
        &&& !self.inc ==> 0 <= self.coord() <= 8
        &&& self.skip is Some ==> self.inc
    }

    /// The positions that the cursor has yet to yield, in order.
    pub closed spec fn remaining(self) -> Seq<GamePos> {
        let n = if self.gap() is Some { self.ahead() - 1 } else { self.ahead() as int };
        Seq::new(n as nat, |i: int| self.place(self.coord_at(i)))
    }

    /// The change of the moving coordinate in one step.
    fn step(&self) -> (d: i32)
        ensures
            d == if self.inc { 1i32 } else { -1i32 },
    {
        if self.inc {
            1
        } else {
            -1
        }
    }

    /// Yields the next position of the walk, or `None` at the edge of the board.
    pub fn next(&mut self) -> (item: Option<GamePos>)
        requires
            old(self).wf(),
        ensures
            final(self).wf(),
            old(self).remaining().len() == 0 ==> item is None && final(self).remaining().len() == 0,
            old(self).remaining().len() > 0 ==> item == Some(old(self).remaining()[0])
                && final(self).remaining() == old(self).remaining().skip(1),
        decreases old(self).ahead(),
    {
        let end: i32 = if self.inc { 8 } else { 0 };
        let ghost before = *self;

        match &self.kind {
            GamePosIterKind::Row => if self.pos.col == end {
                None
            } else {
                self.pos.col += self.step();
                if self.skip == Some(self.pos) {
                    assert(self.remaining() =~= before.remaining());
                    self.next()
                } else {
                    assert(self.remaining() =~= before.remaining().skip(1));
                    Some(self.pos)
                }
            },
            GamePosIterKind::Col => if self.pos.row == end {
                None
            } else {
                self.pos.row += self.step();
                if self.skip == Some(self.pos) {
                    assert(self.remaining() =~= before.remaining());
                    self.next()
                } else {
                    assert(self.remaining() =~= before.remaining().skip(1));
                    Some(self.pos)
                }
            },
        }
    }

    /// Runs the walk to its end and returns what it yielded.
    pub fn collect(self) -> (items: Vec<GamePos>)
        requires
            self.wf(),
        ensures
            items@ == self.remaining(),
    {
        let mut it = self;
        let mut items: Vec<GamePos> = Vec::new();
        loop
            invariant
                it.wf(),
                items@ + it.remaining() == self.remaining(),
            ensures
                items@ == self.remaining(),
            decreases it.remaining().len(),
        {
            let ghost rest = it.remaining();
            match it.next() {
                Some(p) => {
                    items.push(p);
                    assert(items@ + it.remaining() =~= self.remaining()) by {
                        assert(rest =~= seq![p] + rest.skip(1));
                    }
                },
                None => {
                    assert(it.remaining() =~= Seq::empty());
                    assert(items@ =~= items@ + it.remaining());
                    break ;
                },
            }
        }
        items
    }
}

/// A cursor over the conflict candidates of a position: a walk down its
/// column followed by a walk along its row.
pub struct ConflictIter {
    col: GamePosIter,
    row: GamePosIter,
}

impl ConflictIter {
    /// Both walks are well formed.
    pub closed spec fn wf(self) -> bool {
        self.col.wf() && self.row.wf()
    }

    /// The positions that the cursor has yet to yield, in order.
    pub closed spec fn remaining(self) -> Seq<GamePos> {
        self.col.remaining() + self.row.remaining()
    }

    /// Yields the next candidate, or `None` when both walks are done.
    pub fn next(&mut self) -> (item: Option<GamePos>)
        requires
            old(self).wf(),
        ensures
            final(self).wf(),
            old(self).remaining().len() == 0 ==> item is None && final(self).remaining().len() == 0,
            old(self).remaining().len() > 0 ==> item == Some(old(self).remaining()[0])
                && final(self).remaining() == old(self).remaining().skip(1),
    {
        let ghost before = *self;
        match self.col.next() {
            Some(p) => {
                assert(self.remaining() =~= before.remaining().skip(1));
                Some(p)
            },
            None => {
                assert(before.remaining() =~= before.row.remaining());
                let item = self.row.next();
                assert(self.remaining() =~= self.row.remaining());
                item
            },
        }
    }

    /// Runs both walks to their end and returns what they yielded.
    pub fn collect(self) -> (items: Vec<GamePos>)
        requires
            self.wf(),
        ensures
            items@ == self.remaining(),
    {
        let mut it = self;
        let mut items: Vec<GamePos> = Vec::new();
        loop
            invariant
                it.wf(),
                items@ + it.remaining() == self.remaining(),
            ensures
                items@ == self.remaining(),
            decreases it.remaining().len(),
        {
            let ghost rest = it.remaining();
            match it.next() {
                Some(p) => {
                    items.push(p);
                    assert(items@ + it.remaining() =~= self.remaining()) by {
                        assert(rest =~= seq![p] + rest.skip(1));
                    }
                },
                None => {
                    assert(it.remaining() =~= Seq::empty());
                    assert(items@ =~= items@ + it.remaining());
                    break ;
                },
            }
        }
        items
    }
}

/// The number of a 3x3 block: blocks are counted row by row from the top
/// left, 0 to 8.
pub struct BlockId(pub u8);

impl BlockId {
    /// The block that holds `pos`.
    pub open spec fn spec_of_pos(pos: GamePos) -> BlockId {
        BlockId((pos.col / 3 + (pos.row / 3) * 3) as u8)
    }

    /// The top-left position of the block.
    pub open spec fn spec_origin(self) -> GamePos {
        GamePos { row: (self.0 / 3 * 3) as i32, col: (self.0 % 3 * 3) as i32 }
    }

    /// The nine positions of the block, row by row from its origin.
    pub open spec fn cells(self) -> Seq<GamePos> {
        Seq::new(
            9,
            |i: int|
                GamePos {
                    row: (self.spec_origin().row + i / 3) as i32,
                    col: (self.spec_origin().col + i % 3) as i32,
                },
        )
    }

    /// The block that holds `pos`.
    pub fn of_pos(pos: &GamePos) -> (id: BlockId)
        requires
            pos.on_board(),
        ensures
            id == Self::spec_of_pos(*pos),
            id.0 <= 8,
    {
        let inner: u8 = ((pos.col / 3) + ((pos.row / 3) * 3)) as u8;

        BlockId(inner)
    }

    /// The top-left position of the block.
    pub fn origin(&self) -> (pos: GamePos)
        ensures
            pos == self.spec_origin(),
    {
        let row: u8 = self.0 / 3 * 3;
        let col: u8 = self.0 % 3 * 3;
        GamePos { row: row as i32, col: col as i32 }
    }

    /// Every position of a block lies on the board and in that block, and a
    /// position on the board is one of the nine positions of its own block.
    pub proof fn lemma_block_cells(pos: GamePos)
        requires
            pos.on_board(),
        ensures
            Self::spec_of_pos(pos).cells().contains(pos),
            forall|i: int|
                0 <= i < 9 ==> {
                    let c = #[trigger] Self::spec_of_pos(pos).cells()[i];
                    c.on_board() && Self::spec_of_pos(c) == Self::spec_of_pos(pos)
                },
    {
        let b = Self::spec_of_pos(pos);
        let k = (pos.row % 3) * 3 + pos.col % 3;
        assert(b.cells()[k] == pos);
    }
}

/// A cursor over the nine positions of one block.
pub struct BlockIter {
    block_id: BlockId,
    next: u8,
}

impl BlockIter {
    /// The cursor has yielded at most the nine positions of its block.
    pub closed spec fn wf(self) -> bool {
        self.next <= 9
    }

    /// The positions that the cursor has yet to yield, in order.
    pub closed spec fn remaining(self) -> Seq<GamePos> {
        self.block_id.cells().skip(self.next as int)
    }

    /// A cursor at the start of the block that holds `pos`.
    pub fn containing(pos: &GamePos) -> (it: BlockIter)
        requires
            pos.on_board(),
        ensures
            it.wf(),
            it.remaining() == BlockId::spec_of_pos(*pos).cells(),
    {
        let it = BlockIter { block_id: BlockId::of_pos(pos), next: 0 };
        assert(it.remaining() =~= BlockId::spec_of_pos(*pos).cells());
        it
    }

    /// Yields the next position of the block, or `None` after the ninth.
    pub fn next(&mut self) -> (item: Option<GamePos>)
        requires
            old(self).wf(),
        ensures
            final(self).wf(),
            old(self).remaining().len() == 0 ==> item is None && final(self).remaining().len() == 0,
            old(self).remaining().len() > 0 ==> item == Some(old(self).remaining()[0])
                && final(self).remaining() == old(self).remaining().skip(1),
    {
        if self.next == 9 {
            None
        } else {
            let ghost before = *self;
            let d_row: u8 = self.next / 3;
            let d_col: u8 = self.next % 3;

            self.next += 1;
            assert(self.remaining() =~= before.remaining().skip(1));
            Some(
                GamePos {
                    row: self.block_id.origin().row + d_row as i32,
                    col: self.block_id.origin().col + d_col as i32,
                },
            )
        }
    }

    /// Runs the cursor to its end and returns what it yielded.
    pub fn collect(self) -> (items: Vec<GamePos>)
        requires
            self.wf(),
        ensures
            items@ == self.remaining(),
    {
        let mut it = self;
        let mut items: Vec<GamePos> = Vec::new();
        loop
            invariant
                it.wf(),
                items@ + it.remaining() == self.remaining(),
            ensures
                items@ == self.remaining(),
            decreases it.remaining().len(),
        {
            let ghost rest = it.remaining();
            match it.next() {
                Some(p) => {
                    items.push(p);
                    assert(items@ + it.remaining() =~= self.remaining()) by {
                        assert(rest =~= seq![p] + rest.skip(1));
                    }
                },
                None => {
                    assert(it.remaining() =~= Seq::empty());
                    assert(items@ =~= items@ + it.remaining());
                    break ;
                },
            }
        }
        items
    }
}

} // verus!
