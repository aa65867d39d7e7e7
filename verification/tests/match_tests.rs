use match3::BaseColor;
use match3::Grid;

fn color(i: u8) -> BaseColor {
    match i {
        0 => BaseColor::Blue,
        1 => BaseColor::Pink,
        2 => BaseColor::Green,
        _ => BaseColor::Yellow,
    }
}

fn board(rows: &[&[u8]]) -> Grid {
    let height = rows.len();
    let width = rows[0].len();
    let mut g = Grid::new(width, height);
    for (r, row) in rows.iter().enumerate() {
        for (c, &i) in row.iter().enumerate() {
            g.set_piece(r, c, color(i));
        }
    }
    g
}

fn flagged_cells(g: &Grid) -> Vec<(usize, usize)> {
    let mut out = Vec::new();
    for r in 0..g.height {
        for c in 0..g.width {
            if let Some(p) = g.cell_at(r, c) {
                if p.matched {
                    out.push((r, c));
                }
            }
        }
    }
    out
}

#[test]
fn horizontal_three_run_flags_all_three() {
    let mut g = board(&[
        &[0, 1, 2, 3, 0],
        &[2, 3, 0, 1, 2],
        &[0, 2, 2, 2, 0],
        &[2, 3, 0, 1, 2],
        &[0, 1, 2, 3, 0],
    ]);
    g.find_match();
    // flagging only the middle cell would be insufficient: all three cells
    // of the run carry the flag
    assert_eq!(flagged_cells(&g), vec![(2, 1), (2, 2), (2, 3)]);
}

#[test]
fn vertical_three_run_flags_all_three() {
    let mut g = board(&[
        &[0, 1, 2, 3, 0],
        &[2, 3, 0, 0, 2],
        &[0, 1, 2, 0, 0],
        &[2, 3, 0, 0, 2],
        &[0, 1, 2, 3, 0],
    ]);
    g.find_match();
    assert_eq!(flagged_cells(&g), vec![(1, 3), (2, 3), (3, 3)]);
}

#[test]
fn four_run_flags_all_four() {
    let mut g = board(&[
        &[0, 1, 2, 0, 1, 2],
        &[1, 2, 1, 3, 1, 0],
        &[0, 3, 3, 3, 3, 0],
        &[3, 2, 3, 1, 2, 2],
        &[0, 2, 0, 2, 3, 3],
    ]);
    g.find_match();
    // every interior cell of the longer run satisfies the three-window rule,
    // so the whole run is flagged
    assert_eq!(flagged_cells(&g), vec![(2, 1), (2, 2), (2, 3), (2, 4)]);
}

#[test]
fn no_run_flags_nothing() {
    let mut g = board(&[
        &[0, 1, 2, 3, 0],
        &[2, 3, 0, 1, 2],
        &[0, 1, 2, 3, 0],
        &[2, 3, 0, 1, 2],
        &[0, 1, 2, 3, 0],
    ]);
    g.find_match();
    assert_eq!(flagged_cells(&g), Vec::<(usize, usize)>::new());
}

#[test]
fn empty_cells_break_runs() {
    let mut g = board(&[
        &[0, 1, 2, 3, 0],
        &[2, 3, 0, 1, 2],
        &[0, 2, 2, 2, 0],
        &[2, 3, 0, 1, 2],
        &[0, 1, 2, 3, 0],
    ]);
    g.clear_cell(2, 2);
    g.find_match();
    assert_eq!(flagged_cells(&g), Vec::<(usize, usize)>::new());
}

#[test]
fn is_matched_at_is_the_centered_window_rule() {
    let g = {
        let mut g = board(&[
            &[0, 1, 2, 3, 0],
            &[2, 3, 0, 1, 2],
            &[0, 2, 2, 2, 0],
            &[2, 3, 0, 1, 2],
            &[0, 1, 2, 3, 0],
        ]);
        g.find_match();
        g
    };
    // only the middle of the run is the center of a three-cell window,
    assert!(g.is_matched_at(2, 2));
    assert!(!g.is_matched_at(2, 1));
    assert!(!g.is_matched_at(2, 3));
    // yet every cell of the run lies inside one
    assert!(g.in_run(2, 1));
    assert!(g.in_run(2, 2));
    assert!(g.in_run(2, 3));
    assert!(!g.in_run(2, 0));
    assert!(!g.in_run(1, 2));
}

#[test]
fn find_match_preserves_colors_and_handles() {
    let mut g = board(&[
        &[0, 1, 2, 3, 0],
        &[2, 3, 0, 1, 2],
        &[0, 2, 2, 2, 0],
        &[2, 3, 0, 1, 2],
        &[0, 1, 2, 3, 0],
    ]);
    let before = g.clone();
    g.find_match();
    for r in 0..5 {
        for c in 0..5 {
            assert_eq!(g.cell_at(r, c).unwrap().color, before.cell_at(r, c).unwrap().color);
            assert_eq!(g.entities[r][c], before.entities[r][c]);
        }
    }
}
