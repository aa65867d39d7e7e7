use match3::AIMoveCount;
use match3::AIMoveTimer;
use match3::AIScore;
use match3::BaseColor;
use match3::BasePiece;
use match3::CollapseTimer;
use match3::CurrentPlayerTurn;
use match3::DestroyPieceTimer;
use match3::Direction;
use match3::GameSession;
use match3::Grid;
use match3::IntervalTimer;
use match3::PieceController;
use match3::PlayerMoveCount;
use match3::PlayerScore;
use match3::RefillColumnTimer;
use match3::SwapBackInfo;
use match3::Touch;

fn color(i: u8) -> BaseColor {
    match i {
        0 => BaseColor::Blue,
        1 => BaseColor::Pink,
        2 => BaseColor::Green,
        _ => BaseColor::Yellow,
    }
}

fn board(rows: &[[u8; 7]; 7]) -> Grid {
    let mut g = Grid::new(7, 7);
    for r in 0..7 {
        for c in 0..7 {
            g.set_piece(r, c, color(rows[r][c]));
        }
    }
    g
}

/// No run anywhere and no single swap yields one.
const INERT: [[u8; 7]; 7] = [
    [0, 1, 2, 3, 0, 1, 2],
    [2, 3, 0, 1, 2, 3, 0],
    [0, 1, 2, 3, 0, 1, 2],
    [2, 3, 0, 1, 2, 3, 0],
    [0, 1, 2, 3, 0, 1, 2],
    [2, 3, 0, 1, 2, 3, 0],
    [0, 1, 2, 3, 0, 1, 2],
];

/// Like `INERT`, but swapping (2, 2) with (2, 3) yields a match.
const ONE_SWAP: [[u8; 7]; 7] = [
    [0, 1, 2, 3, 0, 1, 2],
    [2, 3, 0, 1, 2, 3, 0],
    [0, 1, 2, 0, 0, 1, 2],
    [2, 3, 0, 1, 2, 3, 0],
    [0, 1, 2, 3, 0, 1, 2],
    [2, 3, 0, 1, 2, 3, 0],
    [0, 1, 2, 3, 0, 1, 2],
];

fn session_with(grid: Grid) -> GameSession {
    GameSession {
        grid,
        info: SwapBackInfo::new(),
        touch: Touch { first: (0, 0), last: (0, 0) },
        controller: PieceController { controlling: false },
        player_moves: PlayerMoveCount(0),
        ai_moves: AIMoveCount(0),
        player_score: PlayerScore(0),
        ai_score: AIScore(0),
        collapse_timer: CollapseTimer(IntervalTimer::new(1000)),
        destroy_timer: DestroyPieceTimer(IntervalTimer::new(800)),
        refill_timer: RefillColumnTimer(IntervalTimer::new(1400)),
        ai_timer: AIMoveTimer(IntervalTimer::new(3000)),
        turn: CurrentPlayerTurn::Player,
        pending: Vec::new(),
    }
}

#[test]
fn interval_timer_fires_on_its_cadence() {
    let mut t = IntervalTimer::new(10);
    assert!(!t.tick(4));
    assert_eq!(t.elapsed, 4);
    assert!(t.tick(6));
    assert_eq!(t.elapsed, 0);
    assert!(t.tick(25));
    assert_eq!(t.elapsed, 5);
    assert!(!t.tick(4));
    assert_eq!(t.elapsed, 9);
}

#[test]
fn new_session_starts_clean() {
    let s = GameSession::new();
    assert_eq!(s.grid.width, 7);
    assert_eq!(s.grid.height, 7);
    assert!(!s.info.armed);
    assert_eq!(s.player_moves.0, 0);
    assert_eq!(s.ai_moves.0, 0);
    assert_eq!(s.player_score.0, 0);
    assert_eq!(s.ai_score.0, 0);
    assert_eq!(s.turn, CurrentPlayerTurn::Player);
    assert!(s.pending.is_empty());
    for r in 0..7 {
        assert!(!s.grid.in_run(0, r));
    }
}

#[test]
fn gesture_takes_dominant_row_axis() {
    let mut s = session_with(board(&INERT));
    // two rows up, one column over: the row displacement dominates
    s.pointer_pressed(2, 2);
    s.pointer_released(4, 3);
    assert_eq!(s.pending.len(), 1);
    assert_eq!(s.pending[0].row, 2);
    assert_eq!(s.pending[0].column, 2);
    assert_eq!(s.pending[0].direction, Direction::Up);
}

#[test]
fn gesture_takes_dominant_column_axis() {
    let mut s = session_with(board(&INERT));
    // one row up but three columns over: the column displacement dominates
    s.pointer_pressed(1, 1);
    s.pointer_released(2, 4);
    assert_eq!(s.pending.len(), 1);
    assert_eq!(s.pending[0].row, 1);
    assert_eq!(s.pending[0].column, 1);
    assert_eq!(s.pending[0].direction, Direction::Right);
}

#[test]
fn gesture_tie_prefers_row_axis() {
    let mut s = session_with(board(&INERT));
    // equal displacement on both axes: the row axis wins the tie
    s.pointer_pressed(2, 2);
    s.pointer_released(3, 3);
    assert_eq!(s.pending.len(), 1);
    assert_eq!(s.pending[0].direction, Direction::Up);
}

#[test]
fn gesture_dominant_axis_keeps_sign() {
    let mut s = session_with(board(&INERT));
    // three rows down, one column left: downward wins
    s.pointer_pressed(5, 4);
    s.pointer_released(2, 3);
    assert_eq!(s.pending.len(), 1);
    assert_eq!(s.pending[0].direction, Direction::Down);
}

#[test]
fn gesture_column_axis_when_rows_equal() {
    let mut s = session_with(board(&INERT));
    s.pointer_pressed(4, 5);
    s.pointer_released(4, 2);
    assert_eq!(s.pending.len(), 1);
    assert_eq!(s.pending[0].direction, Direction::Left);
}

#[test]
fn gesture_zero_displacement_yields_no_intent() {
    let mut s = session_with(board(&INERT));
    s.pointer_pressed(3, 3);
    s.pointer_released(3, 3);
    assert!(s.pending.is_empty());
    assert!(!s.controller.controlling);
}

#[test]
fn gesture_outside_grid_is_ignored() {
    let mut s = session_with(board(&INERT));
    s.pointer_pressed(-1, 3);
    assert!(!s.controller.controlling);
    s.pointer_released(2, 3);
    assert!(s.pending.is_empty());
    // press inside, release outside: nothing is queued either
    s.pointer_pressed(2, 2);
    assert!(s.controller.controlling);
    s.pointer_released(7, 2);
    assert!(s.pending.is_empty());
    assert!(s.controller.controlling);
}

#[test]
fn pointer_input_ignored_on_ai_turn() {
    let mut s = session_with(board(&INERT));
    s.set_turn(CurrentPlayerTurn::AI);
    s.pointer_pressed(2, 2);
    assert!(!s.controller.controlling);
    s.pointer_released(2, 3);
    assert!(s.pending.is_empty());
}

#[test]
fn second_swap_rejected_while_one_is_in_flight() {
    let mut s = session_with(board(&INERT));
    s.info.armed = true;
    let before = s.grid.clone();
    s.pointer_pressed(2, 2);
    s.pointer_released(2, 3);
    s.tick(0);
    assert_eq!(s.grid, before, "an armed undo slot back-pressures new swaps");
    assert!(s.info.armed);
}

#[test]
fn unproductive_swap_is_rolled_back() {
    // end-to-end: swap (3,3) with (3,4); neither endpoint's color completes
    // a window, so the destroy cadence fires a swap-back and both cells are
    // restored, with scoring untouched
    let mut s = session_with(board(&INERT));
    let before = s.grid.clone();
    s.pointer_pressed(3, 3);
    s.pointer_released(3, 4);
    s.tick(800);
    assert_eq!(s.grid, before);
    assert!(!s.info.armed);
    assert_eq!(s.player_score.0, 0);
    assert_eq!(s.ai_score.0, 0);
    assert_eq!(s.player_moves.0, 0);
    assert_eq!(s.ai_moves.0, 0);
    assert!(s.pending.is_empty());
}

#[test]
fn swap_back_event_carries_inverse_direction() {
    let mut g = board(&INERT);
    let mut info = SwapBackInfo::new();
    let ev = match3::SwapPiecesEvent { row: 3, column: 3, direction: Direction::Right };
    let rec = g.swap_pieces(&ev, &mut info).expect("both cells are filled");
    assert_eq!(rec.pos2, (3, 4));
    assert!(info.armed);
    g.find_match();
    let back = BasePiece::destroy_match(&mut g, &mut info)
        .expect("no match was produced, so a swap-back is raised");
    assert_eq!(back.row, 3);
    assert_eq!(back.column, 4);
    assert_eq!(back.direction, Direction::Left);
    assert!(info.armed, "the slot is disarmed by the swap-back itself");
    g.swap_back(&back, &mut info);
    assert!(!info.armed);
    assert_eq!(g, board(&INERT));
}

#[test]
fn productive_swap_destroys_and_disarms() {
    let mut g = board(&ONE_SWAP);
    let mut info = SwapBackInfo::new();
    let ev = match3::SwapPiecesEvent { row: 2, column: 2, direction: Direction::Right };
    g.swap_pieces(&ev, &mut info).unwrap();
    g.find_match();
    let back = BasePiece::destroy_match(&mut g, &mut info);
    assert_eq!(back, None, "a productive swap is accepted, no rollback");
    assert!(!info.armed);
    // the matched column run (1,2), (2,2), (3,2) is gone, pieces and handles
    for r in [1, 2, 3] {
        assert!(g.cell_at(r, 2).is_none());
        assert!(g.entities[r][2].is_none());
    }
    // untouched neighbors stay
    assert!(g.cell_at(0, 2).is_some());
    assert!(g.cell_at(2, 3).is_some());
}

#[test]
fn ai_turn_issues_swap_and_scores() {
    let mut s = session_with(board(&ONE_SWAP));
    s.set_turn(CurrentPlayerTurn::AI);
    s.tick(3000);
    assert_eq!(s.ai_moves.0, 1);
    assert_eq!(s.ai_score.0, 1);
    assert_eq!(s.player_score.0, 0);
    assert!(s.pending.is_empty());
    assert!(!s.info.armed, "the swap produced a match and the destroy phase accepted it");
}

#[test]
fn ai_timer_below_cadence_does_nothing() {
    let mut s = session_with(board(&ONE_SWAP));
    s.set_turn(CurrentPlayerTurn::AI);
    s.tick(700);
    assert_eq!(s.ai_moves.0, 0);
    assert_eq!(s.ai_score.0, 0);
}
