use match3::BaseColor;
use match3::Direction;
use match3::Grid;
use match3::SwapError;

fn color(i: u8) -> BaseColor {
    match i {
        0 => BaseColor::Blue,
        1 => BaseColor::Pink,
        2 => BaseColor::Green,
        _ => BaseColor::Yellow,
    }
}

/// An inert 7x7 board: no run anywhere, and no single swap yields one.
fn inert_board() -> Grid {
    let mut g = Grid::new(7, 7);
    for r in 0..7 {
        for c in 0..7 {
            g.set_piece(r, c, color(((2 * r + c) % 4) as u8));
        }
    }
    g
}

fn small_board() -> Grid {
    let mut g = Grid::new(2, 2);
    g.set_piece(0, 0, BaseColor::Blue);
    g.set_piece(0, 1, BaseColor::Green);
    g.set_piece(1, 0, BaseColor::Yellow);
    g.set_piece(1, 1, BaseColor::Pink);
    g
}

#[test]
fn attempt_swap_exchanges_pieces_and_handles() {
    let mut g = small_board();
    let h00 = g.entities[0][0];
    let h01 = g.entities[0][1];
    let rec = g.attempt_swap(0, 0, Direction::Right).expect("swap of two filled cells succeeds");
    assert_eq!(rec.pos1, (0, 0));
    assert_eq!(rec.pos2, (0, 1));
    assert_eq!(rec.direction, Direction::Right);
    let p00 = g.cell_at(0, 0).unwrap();
    let p01 = g.cell_at(0, 1).unwrap();
    assert_eq!(p00.color, BaseColor::Green);
    assert_eq!(p01.color, BaseColor::Blue);
    // coordinates travel with the array slot
    assert_eq!((p00.row, p00.col), (0, 0));
    assert_eq!((p01.row, p01.col), (0, 1));
    // presentation handles travel with the pieces
    assert_eq!(g.entities[0][0], h01);
    assert_eq!(g.entities[0][1], h00);
    // the other cells are untouched
    assert_eq!(g.cell_at(1, 0).unwrap().color, BaseColor::Yellow);
    assert_eq!(g.cell_at(1, 1).unwrap().color, BaseColor::Pink);
}

#[test]
fn attempt_swap_out_of_bounds_is_rejected() {
    let mut g = small_board();
    let before = g.clone();
    assert_eq!(g.attempt_swap(0, 0, Direction::Left), Err(SwapError::OutOfBounds));
    assert_eq!(g.attempt_swap(0, 0, Direction::Down), Err(SwapError::OutOfBounds));
    assert_eq!(g.attempt_swap(1, 1, Direction::Up), Err(SwapError::OutOfBounds));
    assert_eq!(g.attempt_swap(1, 1, Direction::Right), Err(SwapError::OutOfBounds));
    assert_eq!(g.attempt_swap(9, 0, Direction::Right), Err(SwapError::OutOfBounds));
    assert_eq!(g, before);
}

#[test]
fn attempt_swap_empty_cell_is_a_no_op() {
    let mut g = Grid::new(2, 2);
    g.set_piece(0, 0, BaseColor::Blue);
    let before = g.clone();
    assert_eq!(g.attempt_swap(0, 0, Direction::Right), Err(SwapError::EmptyCell));
    assert_eq!(g.attempt_swap(1, 0, Direction::Right), Err(SwapError::EmptyCell));
    assert_eq!(g, before);
}

#[test]
fn swap_then_swap_back_is_identity() {
    let mut g = inert_board();
    let before = g.clone();
    let rec = g.attempt_swap(3, 3, Direction::Right).unwrap();
    assert_ne!(g, before, "the two endpoints hold different colors, so the swap shows");
    // swap-back re-invokes the same routine from the second endpoint with
    // the inverse direction
    g.attempt_swap(rec.pos2.0, rec.pos2.1, rec.direction.inverse()).unwrap();
    assert_eq!(g, before);
}

#[test]
fn swap_back_restores_matched_flags_and_tags() {
    // a board with a flagged run: the matched flags travel with the pieces
    // and are restored byte for byte by the swap-back
    let mut g = Grid::new(5, 5);
    let rows: [[u8; 5]; 5] = [
        [0, 1, 2, 3, 0],
        [2, 3, 0, 1, 2],
        [0, 2, 2, 2, 0],
        [2, 3, 0, 1, 2],
        [0, 1, 2, 3, 0],
    ];
    for r in 0..5 {
        for c in 0..5 {
            g.set_piece(r, c, color(rows[r][c]));
        }
    }
    g.find_match();
    assert!(g.cell_at(2, 1).unwrap().matched);
    let before = g.clone();
    let rec = g.attempt_swap(2, 1, Direction::Up).unwrap();
    assert!(g.cell_at(3, 1).unwrap().matched, "the flag moved with the piece");
    assert!(!g.cell_at(2, 1).unwrap().matched);
    g.attempt_swap(rec.pos2.0, rec.pos2.1, rec.direction.inverse()).unwrap();
    assert_eq!(g, before);
}

#[test]
fn attempt_swap_is_deterministic() {
    let mut a = inert_board();
    let mut b = inert_board();
    assert_eq!(a, b);
    let ra = a.attempt_swap(4, 2, Direction::Up).unwrap();
    let rb = b.attempt_swap(4, 2, Direction::Up).unwrap();
    assert_eq!(a, b);
    assert_eq!(ra.pos1, rb.pos1);
    assert_eq!(ra.pos2, rb.pos2);
    assert_eq!(ra.direction, rb.direction);
}

#[test]
fn direction_inverse_pairs() {
    assert_eq!(Direction::Up.inverse(), Direction::Down);
    assert_eq!(Direction::Down.inverse(), Direction::Up);
    assert_eq!(Direction::Left.inverse(), Direction::Right);
    assert_eq!(Direction::Right.inverse(), Direction::Left);
}
