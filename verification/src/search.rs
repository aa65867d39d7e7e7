use vstd::prelude::*;

use crate::grid::Grid;
use crate::matching::color_at;
use crate::piece::BaseColor;
use crate::resources::AIMoveCount;
use crate::resources::AIScore;
use crate::resources::SwapPiecesEvent;
use crate::resources::inc_sat;
use crate::resources::bump;
use crate::swap::Direction;

verus! {

/// The color seen at `(r, c)` after hypothetically exchanging the pieces at
/// `(r1, c1)` and `(r2, c2)`; nothing is exchanged when either cell holds no
/// piece.
pub open spec fn swapped_color(
    g: Grid,
    r1: int,
    c1: int,
    r2: int,
    c2: int,
    r: int,
    c: int,
) -> Option<BaseColor> {
    if color_at(g, r1, c1) is Some && color_at(g, r2, c2) is Some {
        if r == r1 && c == c1 {
            color_at(g, r2, c2)
        } else if r == r2 && c == c2 {
            color_at(g, r1, c1)
        } else {
            color_at(g, r, c)
        }
    } else {
        color_at(g, r, c)
    }
}

/// Three same-colored cells in a row starting at `(r, c0)`, on the
/// hypothetically swapped board.
pub open spec fn mono_h_sw(g: Grid, r1: int, c1: int, r2: int, c2: int, r: int, c0: int) -> bool {
    &&& swapped_color(g, r1, c1, r2, c2, r, c0) is Some
    &&& swapped_color(g, r1, c1, r2, c2, r, c0 + 1) == swapped_color(g, r1, c1, r2, c2, r, c0)
    &&& swapped_color(g, r1, c1, r2, c2, r, c0 + 2) == swapped_color(g, r1, c1, r2, c2, r, c0)
}

/// Three same-colored cells in a column starting at `(r0, c)`, on the
/// hypothetically swapped board.
pub open spec fn mono_v_sw(g: Grid, r1: int, c1: int, r2: int, c2: int, r0: int, c: int) -> bool {
    &&& swapped_color(g, r1, c1, r2, c2, r0, c) is Some
    &&& swapped_color(g, r1, c1, r2, c2, r0 + 1, c) == swapped_color(g, r1, c1, r2, c2, r0, c)
    &&& swapped_color(g, r1, c1, r2, c2, r0 + 2, c) == swapped_color(g, r1, c1, r2, c2, r0, c)
}

/// `(r, c)` is the center of a three-cell window on the hypothetically
/// swapped board.
pub open spec fn centered_sw(g: Grid, r1: int, c1: int, r2: int, c2: int, r: int, c: int) -> bool {
    mono_h_sw(g, r1, c1, r2, c2, r, c - 1) || mono_v_sw(g, r1, c1, r2, c2, r - 1, c)
}

/// Hypothetically swapping `(r1, c1)` with `(r2, c2)` leaves one of the two
/// endpoints at the center of a three-cell window.
pub open spec fn hyp_yields(g: Grid, r1: int, c1: int, r2: int, c2: int) -> bool {
    centered_sw(g, r1, c1, r2, c2, r1, c1) || centered_sw(g, r1, c1, r2, c2, r2, c2)
}

/// The candidate tried at cell `(r, c)`: its rightward swap, or (with
/// `vertical`) the swap with the next row in scan order.
pub open spec fn cand_yields(g: Grid, r: int, c: int, vertical: bool) -> bool {
    if vertical {
        hyp_yields(g, r, c, r + 1, c)
    } else {
        hyp_yields(g, r, c, r, c + 1)
    }
}

/// The search tries cells row-major and, within a cell, the rightward swap
/// before the vertical one.
pub open spec fn cand_before(r1: int, c1: int, v1: bool, r2: int, c2: int, v2: bool) -> bool {
    ||| r1 < r2
    ||| (r1 == r2 && c1 < c2)
    ||| (r1 == r2 && c1 == c2 && !v1 && v2)
}

/// The cells whose candidates the search visits: all but the last row and
/// column.
pub open spec fn cand_in_range(g: Grid, r: int, c: int) -> bool {
    0 <= r < g.height - 1 && 0 <= c < g.width - 1
}

impl Grid {
    /// The color at `(r, c)` once `(r1, c1)` and `(r2, c2)` are exchanged.
    fn swapped_color_of(
        &self,
        r1: usize,
        c1: usize,
        r2: usize,
        c2: usize,
        r: usize,
        c: usize,
    ) -> (o: Option<BaseColor>)
        requires
            self.wf(),
        ensures
            o == swapped_color(*self, r1 as int, c1 as int, r2 as int, c2 as int, r as int, c as int),
    {
        let a = self.color_of(r1, c1);
        let b = self.color_of(r2, c2);
        if a.is_some() && b.is_some() {
            if r == r1 && c == c1 {
                b
            } else if r == r2 && c == c2 {
                a
            } else {
                self.color_of(r, c)
            }
        } else {
            self.color_of(r, c)
        }
    }

    /// `mono_h_sw` on the hypothetically swapped board.
    fn mono_h_sw_at(&self, r1: usize, c1: usize, r2: usize, c2: usize, r: usize, c0: usize) -> (b:
        bool)
        requires
            self.wf(),
            self.in_bounds(r1 as int, c1 as int),
            self.in_bounds(r2 as int, c2 as int),
        ensures
            b == mono_h_sw(*self, r1 as int, c1 as int, r2 as int, c2 as int, r as int, c0 as int),
    {
        match self.swapped_color_of(r1, c1, r2, c2, r, c0) {
            None => false,
            Some(x) => {
                proof {
                    assert(c0 < self.width);
                }
                if c0 + 1 < self.width {
                    match (
                        self.swapped_color_of(r1, c1, r2, c2, r, c0 + 1),
                        self.swapped_color_of(r1, c1, r2, c2, r, c0 + 2),
                    ) {
                        (Some(a), Some(b)) => a == x && b == x,
                        _ => false,
                    }
                } else {
                    proof {
                        assert(color_at(*self, r as int, c0 as int + 1) is None);
                        assert(swapped_color(
                            *self,
                            r1 as int,
                            c1 as int,
                            r2 as int,
                            c2 as int,
                            r as int,
                            c0 as int + 1,
                        ) is None);
                    }
                    false
                }
            },
        }
    }

    /// `mono_v_sw` on the hypothetically swapped board.
    fn mono_v_sw_at(&self, r1: usize, c1: usize, r2: usize, c2: usize, r0: usize, c: usize) -> (b:
        bool)
        requires
            self.wf(),
            self.in_bounds(r1 as int, c1 as int),
            self.in_bounds(r2 as int, c2 as int),
        ensures
            b == mono_v_sw(*self, r1 as int, c1 as int, r2 as int, c2 as int, r0 as int, c as int),
    {
        match self.swapped_color_of(r1, c1, r2, c2, r0, c) {
            None => false,
            Some(x) => {
                proof {
                    assert(r0 < self.height);
                }
                if r0 + 1 < self.height {
                    match (
                        self.swapped_color_of(r1, c1, r2, c2, r0 + 1, c),
                        self.swapped_color_of(r1, c1, r2, c2, r0 + 2, c),
                    ) {
                        (Some(a), Some(b)) => a == x && b == x,
                        _ => false,
                    }
                } else {
                    proof {
                        assert(color_at(*self, r0 as int + 1, c as int) is None);
                        assert(swapped_color(
                            *self,
                            r1 as int,
                            c1 as int,
                            r2 as int,
                            c2 as int,
                            r0 as int + 1,
                            c as int,
                        ) is None);
                    }
                    false
                }
            },
        }
    }

    /// Whether hypothetically swapping `(r1, c1)` with `(r2, c2)` leaves
    /// either endpoint at the center of a three-cell window; the live board
    /// is never touched.
    fn hyp_yields_at(&self, r1: usize, c1: usize, r2: usize, c2: usize) -> (b: bool)
        requires
            self.wf(),
            self.in_bounds(r1 as int, c1 as int),
            self.in_bounds(r2 as int, c2 as int),
        ensures
            b == hyp_yields(*self, r1 as int, c1 as int, r2 as int, c2 as int),
    {
        let mut b = if c1 >= 1 {
            self.mono_h_sw_at(r1, c1, r2, c2, r1, c1 - 1)
        } else {
            false
        };
        if !b && r1 >= 1 {
            b = self.mono_v_sw_at(r1, c1, r2, c2, r1 - 1, c1);
        }
        if !b && c2 >= 1 {
            b = self.mono_h_sw_at(r1, c1, r2, c2, r2, c2 - 1);
        }
        if !b && r2 >= 1 {
            b = self.mono_v_sw_at(r1, c1, r2, c2, r2 - 1, c2);
        }
        proof {
            if c1 == 0 {
                assert(swapped_color(
                    *self,
                    r1 as int,
                    c1 as int,
                    r2 as int,
                    c2 as int,
                    r1 as int,
                    c1 as int - 1,
                ) is None);
            }
            if r1 == 0 {
                assert(swapped_color(
                    *self,
                    r1 as int,
                    c1 as int,
                    r2 as int,
                    c2 as int,
                    r1 as int - 1,
                    c1 as int,
                ) is None);
            }
            if c2 == 0 {
                assert(swapped_color(
                    *self,
                    r1 as int,
                    c1 as int,
                    r2 as int,
                    c2 as int,
                    r2 as int,
                    c2 as int - 1,
                ) is None);
            }
            if r2 == 0 {
                assert(swapped_color(
                    *self,
                    r1 as int,
                    c1 as int,
                    r2 as int,
                    c2 as int,
                    r2 as int - 1,
                    c2 as int,
                ) is None);
            }
        }
        b
    }
}

/// The hypothetical evaluation agrees with the match detector: on the board
/// a committed swap would produce, the centered-window predicate holds
/// exactly where `centered_sw` says it does on the unswapped board.
pub proof fn lemma_hyp_matches_detector(
    pre: Grid,
    post: Grid,
    r1: int,
    c1: int,
    r2: int,
    c2: int,
    r: int,
    c: int,
)
    requires
        pre.wf(),
        pre.swap_ok(r1, c1, r2, c2),
        crate::swap::swap_applied(pre, post, r1, c1, r2, c2),
    ensures
        crate::matching::centered_at(post, r, c) == centered_sw(pre, r1, c1, r2, c2, r, c),
{
    assert forall|rr: int, cc: int|
        color_at(post, rr, cc) == swapped_color(pre, r1, c1, r2, c2, rr, cc) by {
        if rr == r1 && cc == c1 {
        } else if rr == r2 && cc == c2 {
        } else if pre.in_bounds(rr, cc) {
            assert(post.at(rr, cc) == pre.at(rr, cc));
        }
    }
}

/// What the search's outcome means over the board alone: `Some(ev)` names
/// the scan-order-first candidate that yields a hypothetical match, and
/// `None` says no candidate does.
pub open spec fn search_result_ok(g: Grid, r: Option<SwapPiecesEvent>) -> bool {
    match r {
        Some(ev) => {
            let vertical = (ev.direction == Direction::Up);
            &&& ev.direction == Direction::Right || ev.direction == Direction::Up
            &&& cand_in_range(g, ev.row as int, ev.column as int)
            &&& cand_yields(g, ev.row as int, ev.column as int, vertical)
            &&& forall|r2: int, c2: int, v2: bool|
                cand_in_range(g, r2, c2) && cand_before(
                    r2,
                    c2,
                    v2,
                    ev.row as int,
                    ev.column as int,
                    vertical,
                ) ==> !cand_yields(g, r2, c2, v2)
        },
        None => forall|r2: int, c2: int, v2: bool|
            cand_in_range(g, r2, c2) ==> !cand_yields(g, r2, c2, v2),
    }
}

/// The automated opponent.
pub struct AI;

impl AI {
    /// Tries, for every cell in row-major order except the last row and
    /// column, a hypothetical rightward swap and then a hypothetical
    /// vertical swap, and issues the first candidate that yields a match as
    /// a real swap intent, bumping the opponent's move and score counters by
    /// one; greedy, with no lookahead. Returns `None`, leaving the counters
    /// alone, when no single swap yields a match.
    pub fn find_possible_match(
        grid: &Grid,
        ai_moves: &mut AIMoveCount,
        ai_score: &mut AIScore,
    ) -> (r: Option<SwapPiecesEvent>)
        requires
            grid.wf(),
        ensures
            search_result_ok(*grid, r),
            r is Some ==> final(ai_moves).0 == inc_sat(old(ai_moves).0) && final(ai_score).0
                == inc_sat(old(ai_score).0),
            r is None ==> *final(ai_moves) == *old(ai_moves) && *final(ai_score) == *old(
                ai_score,
            ),
    {
        if grid.height == 0 || grid.width == 0 {
            return None;
        }
        let mut row: usize = 0;
        while row + 1 < grid.height
            invariant
                grid.wf(),
                0 < grid.width,
                row < grid.height,
                *ai_moves == *old(ai_moves),
                *ai_score == *old(ai_score),
                forall|r2: int, c2: int, v2: bool|
                    cand_in_range(*grid, r2, c2) && r2 < row ==> !cand_yields(*grid, r2, c2, v2),
            decreases grid.height - row,
        {
            let mut col: usize = 0;
            while col + 1 < grid.width
                invariant
                    grid.wf(),
                    row + 1 < grid.height,
                    0 < grid.width,
                    col < grid.width,
                    *ai_moves == *old(ai_moves),
                    *ai_score == *old(ai_score),
                    forall|r2: int, c2: int, v2: bool|
                        cand_in_range(*grid, r2, c2) && r2 < row ==> !cand_yields(
                            *grid,
                            r2,
                            c2,
                            v2,
                        ),
                    forall|c2: int, v2: bool|
                        cand_in_range(*grid, row as int, c2) && c2 < col ==> !cand_yields(
                            *grid,
                            row as int,
                            c2,
                            v2,
                        ),
                decreases grid.width - col,
            {
                if grid.hyp_yields_at(row, col, row, col + 1) {
                    ai_moves.0 = bump(ai_moves.0);
                    ai_score.0 = bump(ai_score.0);
                    return Some(
                        SwapPiecesEvent { row, column: col, direction: Direction::Right },
                    );
                }
                if grid.hyp_yields_at(row, col, row + 1, col) {
                    ai_moves.0 = bump(ai_moves.0);
                    ai_score.0 = bump(ai_score.0);
                    return Some(SwapPiecesEvent { row, column: col, direction: Direction::Up });
                }
                col = col + 1;
            }
            row = row + 1;
        }
        None
    }
}

} // verus!
