use sudoku::pos::GamePos;
use sudoku::puzzle::{Cell, CellState, Puzzle};

fn a_test_puzzle() -> Puzzle {
    Puzzle::from([
        // NYTimes Medium Jan 2, 2021
        0, 3, 0, 0, 1, 0, 0, 5, 4,
        0, 0, 0, 7, 8, 0, 0, 0, 3,
        7, 0, 2, 0, 0, 0, 0, 6, 0,
        4, 1, 0, 0, 5, 0, 0, 8, 0,
        0, 0, 3, 0, 0, 2, 9, 0, 0,
        0, 0, 0, 0, 0, 3, 0, 4, 6,
        0, 0, 0, 0, 0, 0, 0, 0, 0,
        0, 5, 0, 4, 0, 0, 0, 0, 0,
        9, 0, 0, 0, 0, 0, 0, 3, 0,
    ])
}

const BOARD: [u8; 81] = [
    0, 3, 0, 0, 1, 0, 0, 5, 4,
    0, 0, 0, 7, 8, 0, 0, 0, 3,
    7, 0, 2, 0, 0, 0, 0, 6, 0,
    4, 1, 0, 0, 5, 0, 0, 8, 0,
    0, 0, 3, 0, 0, 2, 9, 0, 0,
    0, 0, 0, 0, 0, 3, 0, 4, 6,
    0, 0, 0, 0, 0, 0, 0, 0, 0,
    0, 5, 0, 4, 0, 0, 0, 0, 0,
    9, 0, 0, 0, 0, 0, 0, 3, 0,
];

fn marks_of(digits: &[usize]) -> CellState {
    let mut marks = [false; 9];
    for d in digits {
        marks[d - 1] = true;
    }
    CellState::Pencilmarks(marks)
}

#[test]
fn test_is_error_duplicate_guess_row() {
    let mut puzzle = a_test_puzzle();

    puzzle.set_guess(&GamePos::at(0, 0), 5);

    assert_eq!(true, puzzle.is_error(GamePos::at(0, 0)));
    assert_eq!(true, puzzle.is_error(GamePos::at(0, 7)));
}

#[test]
fn construction_makes_clues_and_blank_cells() {
    let puzzle = a_test_puzzle();
    for idx in 0..81 {
        let pos = Cell::pos_at_index(idx);
        let digit = BOARD[idx as usize];
        let expected = if digit > 0 {
            CellState::Clue(digit)
        } else {
            CellState::Pencilmarks([false; 9])
        };
        assert_eq!(expected, puzzle.state_at(&pos));
    }
}

#[test]
fn construction_of_an_empty_and_a_full_board() {
    let empty = Puzzle::from([0; 81]);
    let full = Puzzle::from([9; 81]);
    for idx in 0..81 {
        let pos = Cell::pos_at_index(idx);
        assert_eq!(CellState::Pencilmarks([false; 9]), empty.state_at(&pos));
        assert_eq!(CellState::Clue(9), full.state_at(&pos));
        assert!(!empty.is_error(pos));
        assert!(full.is_error(pos));
    }
}

#[test]
fn guess_clashes_with_clue_in_row() {
    let mut puzzle = a_test_puzzle();
    assert_eq!(CellState::Pencilmarks([false; 9]), puzzle.state_at(&GamePos::at(0, 0)));
    assert_eq!(CellState::Clue(3), puzzle.state_at(&GamePos::at(0, 1)));
    assert_eq!(CellState::Clue(5), puzzle.state_at(&GamePos::at(0, 7)));
    assert!(!puzzle.is_error(GamePos::at(0, 0)));
    assert!(!puzzle.is_error(GamePos::at(0, 7)));

    puzzle.set_guess(&GamePos::at(0, 0), 5);

    assert_eq!(CellState::Guess(5), puzzle.state_at(&GamePos::at(0, 0)));
    assert!(puzzle.is_error(GamePos::at(0, 0)));
    assert!(puzzle.is_error(GamePos::at(0, 7)));
    assert!(!puzzle.is_error(GamePos::at(0, 1)));
}

#[test]
fn toggle_on_a_blank_cell_marks_one_digit() {
    let mut puzzle = a_test_puzzle();
    puzzle.toggle_candidate(&GamePos::at(0, 0), 3);
    assert_eq!(
        CellState::Pencilmarks([false, false, true, false, false, false, false, false, false]),
        puzzle.state_at(&GamePos::at(0, 0))
    );
}

#[test]
fn conflict_candidates_of_row_four_column_two() {
    let candidates = GamePos::at(4, 2).conflict_candidates().collect();
    assert!(candidates.contains(&GamePos::at(4, 8)));
    assert!(candidates.contains(&GamePos::at(8, 2)));
    assert!(!candidates.contains(&GamePos::at(4, 2)));
}

#[test]
fn clues_take_no_edit() {
    let untouched = a_test_puzzle();
    for idx in 0..81 {
        let pos = Cell::pos_at_index(idx);
        if BOARD[idx as usize] == 0 {
            continue;
        }
        let mut puzzle = untouched.clone();
        puzzle.set_guess(&pos, 7);
        assert_eq!(untouched, puzzle);
        puzzle.clear(&pos);
        assert_eq!(untouched, puzzle);
        for digit in 1..=9 {
            puzzle.toggle_candidate(&pos, digit);
            assert_eq!(untouched, puzzle);
        }
        assert_eq!(CellState::Clue(BOARD[idx as usize]), puzzle.state_at(&pos));
    }
}

#[test]
fn toggling_twice_gives_the_marks_back() {
    let pos = GamePos::at(6, 4);
    for digit in 1..=9 {
        let mut puzzle = a_test_puzzle();
        puzzle.toggle_candidate(&pos, 2);
        puzzle.toggle_candidate(&pos, 9);
        let before = puzzle.clone();
        puzzle.toggle_candidate(&pos, digit);
        assert_ne!(before, puzzle);
        puzzle.toggle_candidate(&pos, digit);
        assert_eq!(before, puzzle);
    }
}

#[test]
fn toggle_flips_marks_one_by_one() {
    let pos = GamePos::at(8, 8);
    let mut puzzle = a_test_puzzle();
    puzzle.toggle_candidate(&pos, 1);
    assert_eq!(marks_of(&[1]), puzzle.state_at(&pos));
    puzzle.toggle_candidate(&pos, 9);
    assert_eq!(marks_of(&[1, 9]), puzzle.state_at(&pos));
    puzzle.toggle_candidate(&pos, 5);
    assert_eq!(marks_of(&[1, 5, 9]), puzzle.state_at(&pos));
    puzzle.toggle_candidate(&pos, 1);
    assert_eq!(marks_of(&[5, 9]), puzzle.state_at(&pos));
}

#[test]
fn a_guess_discards_the_marks() {
    let pos = GamePos::at(6, 0);
    for digit in 1..=9 {
        let mut puzzle = a_test_puzzle();
        puzzle.toggle_candidate(&pos, 4);
        puzzle.toggle_candidate(&pos, 6);
        puzzle.set_guess(&pos, 8);
        assert_eq!(CellState::Guess(8), puzzle.state_at(&pos));
        puzzle.toggle_candidate(&pos, digit);
        assert_eq!(marks_of(&[digit]), puzzle.state_at(&pos));
    }
}

#[test]
fn a_guess_replaces_a_guess() {
    let pos = GamePos::at(6, 0);
    let mut puzzle = a_test_puzzle();
    puzzle.set_guess(&pos, 8);
    puzzle.set_guess(&pos, 1);
    assert_eq!(CellState::Guess(1), puzzle.state_at(&pos));
}

#[test]
fn clear_resets_guesses_and_marks() {
    let pos = GamePos::at(6, 6);
    let mut puzzle = a_test_puzzle();
    let untouched = puzzle.clone();

    puzzle.set_guess(&pos, 2);
    puzzle.clear(&pos);
    assert_eq!(CellState::Pencilmarks([false; 9]), puzzle.state_at(&pos));
    assert_eq!(untouched, puzzle);

    puzzle.toggle_candidate(&pos, 2);
    puzzle.toggle_candidate(&pos, 3);
    puzzle.clear(&pos);
    assert_eq!(untouched, puzzle);

    puzzle.clear(&pos);
    assert_eq!(untouched, puzzle);
}

#[test]
fn edits_touch_one_cell_only() {
    let pos = GamePos::at(6, 6);
    let mut puzzle = a_test_puzzle();
    puzzle.set_guess(&pos, 2);
    puzzle.toggle_candidate(&GamePos::at(6, 7), 2);
    let untouched = a_test_puzzle();
    for idx in 0..81 {
        let other = Cell::pos_at_index(idx);
        if other != pos && other != GamePos::at(6, 7) {
            assert_eq!(untouched.state_at(&other), puzzle.state_at(&other));
        }
    }
}

#[test]
fn conflicts_with_compares_digits_only() {
    let marks = CellState::Pencilmarks([true; 9]);
    assert!(CellState::Clue(5).conflicts_with(CellState::Guess(5)));
    assert!(CellState::Guess(5).conflicts_with(CellState::Clue(5)));
    assert!(CellState::Guess(5).conflicts_with(CellState::Guess(5)));
    assert!(CellState::Clue(5).conflicts_with(CellState::Clue(5)));
    assert!(!CellState::Clue(5).conflicts_with(CellState::Guess(6)));
    assert!(!CellState::Clue(5).conflicts_with(marks));
    assert!(!marks.conflicts_with(CellState::Clue(5)));
    assert!(!marks.conflicts_with(marks));
}

#[test]
fn is_error_in_a_column() {
    let mut puzzle = a_test_puzzle();
    // Column 0 holds the clues 7, 4 and 9.
    puzzle.set_guess(&GamePos::at(6, 0), 4);
    assert!(puzzle.is_error(GamePos::at(6, 0)));
    assert!(puzzle.is_error(GamePos::at(3, 0)));
    assert!(!puzzle.is_error(GamePos::at(2, 0)));
}

#[test]
fn is_error_ignores_the_block() {
    let mut puzzle = a_test_puzzle();
    // (0, 2) shares its block with the clue 7 at (2, 0), but neither row nor column.
    puzzle.set_guess(&GamePos::at(0, 2), 7);
    assert!(!puzzle.is_error(GamePos::at(0, 2)));
    assert!(!puzzle.is_error(GamePos::at(2, 0)));
    // The clue 3 at (1, 8) is in the same row.
    puzzle.set_guess(&GamePos::at(1, 0), 3);
    assert!(puzzle.is_error(GamePos::at(1, 0)));
    assert!(puzzle.is_error(GamePos::at(1, 8)));
}

#[test]
fn is_error_never_holds_of_pencil_marks() {
    let mut puzzle = a_test_puzzle();
    puzzle.toggle_candidate(&GamePos::at(0, 0), 5);
    puzzle.toggle_candidate(&GamePos::at(0, 0), 3);
    assert!(!puzzle.is_error(GamePos::at(0, 0)));
    assert!(!puzzle.is_error(GamePos::at(0, 7)));
    assert!(!puzzle.is_error(GamePos::at(0, 1)));
}

#[test]
fn is_error_is_mutual() {
    let mut puzzle = a_test_puzzle();
    puzzle.set_guess(&GamePos::at(0, 0), 5);
    puzzle.set_guess(&GamePos::at(6, 0), 5);
    puzzle.set_guess(&GamePos::at(6, 6), 1);
    for idx in 0..81 {
        let p = Cell::pos_at_index(idx);
        let clashing: Vec<GamePos> = p
            .conflict_candidates()
            .collect()
            .into_iter()
            .filter(|q| puzzle.state_at(&p).conflicts_with(puzzle.state_at(q)))
            .collect();
        assert_eq!(!clashing.is_empty(), puzzle.is_error(p));
        for q in clashing {
            assert!(q.conflict_candidates().collect().contains(&p));
            assert!(puzzle.is_error(q));
        }
    }
}

#[test]
fn pos_at_index_is_row_major() {
    assert_eq!(GamePos::at(0, 0), Cell::pos_at_index(0));
    assert_eq!(GamePos::at(0, 8), Cell::pos_at_index(8));
    assert_eq!(GamePos::at(1, 0), Cell::pos_at_index(9));
    assert_eq!(GamePos::at(4, 2), Cell::pos_at_index(38));
    assert_eq!(GamePos::at(8, 8), Cell::pos_at_index(80));
    for idx in 0..81 {
        let pos = Cell::pos_at_index(idx);
        assert_eq!(idx, pos.row * 9 + pos.col);
    }
}

#[test]
fn from_index_keeps_state_and_error() {
    let cell = Cell::from_index(38, CellState::Guess(4), true);
    assert_eq!(GamePos::at(4, 2), cell.pos);
    assert_eq!(CellState::Guess(4), cell.state);
    assert!(cell.error);

    let cell = Cell::from_index(0, CellState::Clue(1), false);
    assert_eq!(GamePos::at(0, 0), cell.pos);
    assert_eq!(CellState::Clue(1), cell.state);
    assert!(!cell.error);
}

#[test]
fn iter_cells_yields_every_cell_in_order() {
    let mut puzzle = a_test_puzzle();
    puzzle.set_guess(&GamePos::at(0, 0), 5);
    puzzle.toggle_candidate(&GamePos::at(8, 8), 7);

    let cells = puzzle.iter_cells().collect();
    assert_eq!(81, cells.len());
    for (idx, cell) in cells.iter().enumerate() {
        assert_eq!(Cell::pos_at_index(idx as i32), cell.pos);
        assert_eq!(puzzle.state_at(&cell.pos), cell.state);
        assert_eq!(puzzle.is_error(cell.pos), cell.error);
    }
    assert!(cells[0].error);
    assert!(cells[7].error);
    assert!(!cells[1].error);
    assert_eq!(CellState::Guess(5), cells[0].state);
    assert_eq!(marks_of(&[7]), cells[80].state);
}

#[test]
fn iter_cells_next_stays_none_after_the_end() {
    let puzzle = a_test_puzzle();
    let mut it = puzzle.iter_cells();
    let mut count = 0;
    while let Some(cell) = it.next() {
        assert_eq!(Cell::pos_at_index(count), cell.pos);
        count += 1;
    }
    assert_eq!(81, count);
    assert!(it.next().is_none());
    assert!(it.next().is_none());
}

#[test]
fn iter_cells_sees_the_current_board() {
    let mut puzzle = a_test_puzzle();
    assert!(puzzle.iter_cells().collect().iter().all(|cell| !cell.error));
    puzzle.set_guess(&GamePos::at(0, 0), 5);
    let flagged: Vec<GamePos> =
        puzzle.iter_cells().collect().iter().filter(|cell| cell.error).map(|cell| cell.pos).collect();
    assert_eq!(vec![GamePos::at(0, 0), GamePos::at(0, 7)], flagged);
    puzzle.clear(&GamePos::at(0, 0));
    assert!(puzzle.iter_cells().collect().iter().all(|cell| !cell.error));
}
