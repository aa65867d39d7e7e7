use match3::BaseColor;
use match3::Grid;
use match3::base_colors;
use match3::remove_index;

fn color(i: u8) -> BaseColor {
    match i {
        0 => BaseColor::Blue,
        1 => BaseColor::Pink,
        2 => BaseColor::Green,
        _ => BaseColor::Yellow,
    }
}

#[test]
fn remove_index_middle() {
    assert_eq!(remove_index(&[1, 2, 3, 4], 1), vec![1, 3, 4]);
}

#[test]
fn remove_index_first() {
    assert_eq!(remove_index(&[10, 20, 30], 0), vec![20, 30]);
}

#[test]
fn remove_index_last() {
    assert_eq!(remove_index(&[10, 20, 30], 2), vec![10, 20]);
}

#[test]
fn remove_index_singleton() {
    assert_eq!(remove_index(&[5], 0), Vec::<i32>::new());
}

#[test]
fn base_colors_order() {
    assert_eq!(
        base_colors(),
        vec![BaseColor::Blue, BaseColor::Pink, BaseColor::Green, BaseColor::Yellow]
    );
}

#[test]
fn new_grid_is_empty() {
    let g = Grid::new(7, 7);
    assert_eq!(g.width, 7);
    assert_eq!(g.height, 7);
    for r in 0..7 {
        for c in 0..7 {
            assert!(g.cell_at(r, c).is_none());
            assert!(g.entities[r][c].is_none());
        }
    }
}

#[test]
fn setup_grid_fills_every_cell() {
    let g = Grid::setup_grid(7, 7);
    for r in 0..7 {
        for c in 0..7 {
            let p = g.cell_at(r, c).expect("generated board has a piece in every cell");
            assert_eq!(p.row, r);
            assert_eq!(p.col, c);
            assert!(!p.matched);
            assert!(base_colors().contains(&p.color));
            assert!(g.entities[r][c].is_some());
        }
    }
}

#[test]
fn setup_grid_never_starts_matched() {
    // generation forbids a pre-existing three-in-a-row; exercise the random
    // draws a few times
    for _ in 0..8 {
        let g = Grid::setup_grid(7, 7);
        for r in 0..7 {
            for c in 0..7 {
                assert!(!g.in_run(r, c), "cell ({r}, {c}) is part of a run at generation time");
                assert!(!g.is_matched_at(r, c));
            }
        }
    }
}

#[test]
fn refill_on_empty_board_never_starts_matched() {
    let mut g = Grid::new(7, 7);
    g.refill_columns();
    for r in 0..7 {
        for c in 0..7 {
            assert!(g.cell_at(r, c).is_some());
            assert!(!g.in_run(r, c));
        }
    }
}

#[test]
fn refill_fills_only_eligible_columns() {
    let mut g = Grid::new(4, 3);
    // column 1 is full and must stay untouched
    g.set_piece(0, 1, color(0));
    g.set_piece(1, 1, color(2));
    g.set_piece(2, 1, color(0));
    // column 2 is missing only its last-scanned row: eligible
    g.set_piece(0, 2, color(1));
    g.set_piece(1, 2, color(3));
    // column 3 has a hole below a filled top row: not eligible
    g.set_piece(0, 3, color(2));
    g.set_piece(2, 3, color(1));
    let before_col1: Vec<_> = (0..3).map(|r| g.cell_at(r, 1)).collect();
    g.refill_columns();
    // column 0 (empty, eligible) is now full
    for r in 0..3 {
        assert!(g.cell_at(r, 0).is_some());
    }
    // column 1 unchanged
    for r in 0..3 {
        assert_eq!(g.cell_at(r, 1), before_col1[r]);
    }
    // column 2 completed
    assert!(g.cell_at(2, 2).is_some());
    assert_eq!(g.cell_at(0, 2).unwrap().color, color(1));
    assert_eq!(g.cell_at(1, 2).unwrap().color, color(3));
    // column 3 keeps its hole
    assert!(g.cell_at(1, 3).is_none());
    assert_eq!(g.cell_at(0, 3).unwrap().color, color(2));
    assert_eq!(g.cell_at(2, 3).unwrap().color, color(1));
}

#[test]
fn set_piece_and_clear_cell_round() {
    let mut g = Grid::new(3, 3);
    g.set_piece(1, 2, BaseColor::Pink);
    let p = g.cell_at(1, 2).unwrap();
    assert_eq!(p.color, BaseColor::Pink);
    assert_eq!((p.row, p.col), (1, 2));
    assert!(g.entities[1][2].is_some());
    g.clear_cell(1, 2);
    assert!(g.cell_at(1, 2).is_none());
    assert!(g.entities[1][2].is_none());
}
