use match3::BaseColor;
use match3::BasePiece;
use match3::Grid;

fn piece(row: usize, col: usize, color: BaseColor, matched: bool) -> BasePiece {
    BasePiece { row, col, color, matched }
}

#[test]
fn collapse_moves_each_piece_down_by_its_holes() {
    let mut g = Grid::new(3, 5);
    // column 1, bottom-up: hole, Blue, hole, Green, Yellow
    g.put(1, 1, Some(piece(1, 1, BaseColor::Blue, false)), Some(11));
    g.put(3, 1, Some(piece(3, 1, BaseColor::Green, false)), Some(12));
    g.put(4, 1, Some(piece(4, 1, BaseColor::Yellow, false)), Some(13));
    g.collapse_column();
    // one hole below Blue, two below Green and Yellow: each piece drops by
    // exactly that many rows, keeping the order Blue, Green, Yellow
    let p0 = g.cell_at(0, 1).unwrap();
    let p1 = g.cell_at(1, 1).unwrap();
    let p2 = g.cell_at(2, 1).unwrap();
    assert_eq!(p0.color, BaseColor::Blue);
    assert_eq!(p1.color, BaseColor::Green);
    assert_eq!(p2.color, BaseColor::Yellow);
    // coordinate tags follow the pieces
    assert_eq!((p0.row, p0.col), (0, 1));
    assert_eq!((p1.row, p1.col), (1, 1));
    assert_eq!((p2.row, p2.col), (2, 1));
    // handles travel with their pieces
    assert_eq!(g.entities[0][1], Some(11));
    assert_eq!(g.entities[1][1], Some(12));
    assert_eq!(g.entities[2][1], Some(13));
    // the vacated rows are empty
    assert!(g.cell_at(3, 1).is_none());
    assert!(g.cell_at(4, 1).is_none());
    assert!(g.entities[3][1].is_none());
}

#[test]
fn collapse_clears_matched_only_on_moved_pieces() {
    let mut g = Grid::new(2, 4);
    // column 0: a matched piece already at the bottom does not move and
    // keeps its flag
    g.put(0, 0, Some(piece(0, 0, BaseColor::Pink, true)), Some(1));
    // column 1: a matched piece above a hole moves and loses its flag
    g.put(2, 1, Some(piece(2, 1, BaseColor::Green, true)), Some(2));
    g.collapse_column();
    assert!(g.cell_at(0, 0).unwrap().matched);
    let moved = g.cell_at(0, 1).unwrap();
    assert_eq!(moved.color, BaseColor::Green);
    assert!(!moved.matched);
    assert!(g.cell_at(2, 1).is_none());
}

#[test]
fn collapse_on_settled_board_changes_nothing() {
    let mut g = Grid::new(3, 3);
    g.set_piece(0, 0, BaseColor::Blue);
    g.set_piece(1, 0, BaseColor::Green);
    g.set_piece(0, 2, BaseColor::Yellow);
    g.collapse_column();
    let settled = g.clone();
    g.collapse_column();
    assert_eq!(g, settled);
}

#[test]
fn collapse_leaves_full_columns_alone() {
    let mut g = Grid::new(2, 3);
    for r in 0..3 {
        g.set_piece(r, 0, BaseColor::Blue);
        g.set_piece(r, 1, BaseColor::Green);
    }
    let before = g.clone();
    g.collapse_column();
    assert_eq!(g, before);
}

#[test]
fn collapse_then_refill_completes_a_column() {
    let mut g = Grid::new(1, 4);
    g.put(1, 0, Some(piece(1, 0, BaseColor::Blue, false)), Some(7));
    g.put(3, 0, Some(piece(3, 0, BaseColor::Pink, false)), Some(8));
    g.collapse_column();
    assert_eq!(g.cell_at(0, 0).unwrap().color, BaseColor::Blue);
    assert_eq!(g.cell_at(1, 0).unwrap().color, BaseColor::Pink);
    assert!(g.cell_at(2, 0).is_none());
    g.refill_columns();
    // the compacted column's top was empty, so refill completes it
    assert!(g.cell_at(2, 0).is_some());
    assert!(g.cell_at(3, 0).is_some());
    // the settled pieces were not touched
    assert_eq!(g.entities[0][0], Some(7));
    assert_eq!(g.entities[1][0], Some(8));
}
