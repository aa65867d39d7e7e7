use vstd::prelude::*;

use crate::grid::Grid;
use crate::piece::BaseColor;
use crate::piece::BasePiece;

verus! {

/// The color of the piece at `(r, c)`, or `None` for an empty or
/// out-of-range cell.
pub open spec fn color_at(g: Grid, r: int, c: int) -> Option<BaseColor> {
    if g.in_bounds(r, c) {
        match g.at(r, c) {
            Some(p) => Some(p.color),
            None => None,
        }
    } else {
        None
    }
}

/// Cells `(r, c0)`, `(r, c0+1)`, `(r, c0+2)` are filled with one color.
pub open spec fn mono_h(g: Grid, r: int, c0: int) -> bool {
    &&& color_at(g, r, c0) is Some
    &&& color_at(g, r, c0 + 1) == color_at(g, r, c0)
    &&& color_at(g, r, c0 + 2) == color_at(g, r, c0)
}

/// Cells `(r0, c)`, `(r0+1, c)`, `(r0+2, c)` are filled with one color.
pub open spec fn mono_v(g: Grid, r0: int, c: int) -> bool {
    &&& color_at(g, r0, c) is Some
    &&& color_at(g, r0 + 1, c) == color_at(g, r0, c)
    &&& color_at(g, r0 + 2, c) == color_at(g, r0, c)
}

/// The cell `(r, c)` lies inside some axis-aligned window of three
/// same-colored filled cells: the match detector's flagging rule.
pub open spec fn part_of_run(g: Grid, r: int, c: int) -> bool {
    ||| mono_h(g, r, c - 2)
    ||| mono_h(g, r, c - 1)
    ||| mono_h(g, r, c)
    ||| mono_v(g, r - 2, c)
    ||| mono_v(g, r - 1, c)
    ||| mono_v(g, r, c)
}

/// The cell `(r, c)` is the center of a three-cell window: the cheaper
/// predicate the opponent search evaluates on a hypothetical board.
pub open spec fn centered_at(g: Grid, r: int, c: int) -> bool {
    mono_h(g, r, c - 1) || mono_v(g, r - 1, c)
}

/// A horizontal run: every cell of row `r` in columns `lo..=hi` is filled
/// with `color`.
pub open spec fn h_run(g: Grid, r: int, lo: int, hi: int, color: BaseColor) -> bool {
    lo <= hi && forall|c: int| lo <= c <= hi ==> color_at(g, r, c) == Some(color)
}

/// A vertical run: every cell of column `c` in rows `lo..=hi` is filled
/// with `color`.
pub open spec fn v_run(g: Grid, c: int, lo: int, hi: int, color: BaseColor) -> bool {
    lo <= hi && forall|r: int| lo <= r <= hi ==> color_at(g, r, c) == Some(color)
}

/// Every cell of a contiguous same-colored run of three or more cells is
/// flagged by the match detector's rule.
pub proof fn lemma_run_implies_flagged_h(g: Grid, r: int, lo: int, hi: int, color: BaseColor, c: int)
    requires
        h_run(g, r, lo, hi, color),
        hi - lo >= 2,
        lo <= c <= hi,
    ensures
        part_of_run(g, r, c),
{
    let c0 = if c + 2 <= hi {
        c
    } else {
        hi - 2
    };
    assert(color_at(g, r, c0) == Some(color));
    assert(color_at(g, r, c0 + 1) == Some(color));
    assert(color_at(g, r, c0 + 2) == Some(color));
    assert(mono_h(g, r, c0));
}

/// Vertical counterpart of `lemma_run_implies_flagged_h`.
pub proof fn lemma_run_implies_flagged_v(g: Grid, c: int, lo: int, hi: int, color: BaseColor, r: int)
    requires
        v_run(g, c, lo, hi, color),
        hi - lo >= 2,
        lo <= r <= hi,
    ensures
        part_of_run(g, r, c),
{
    let r0 = if r + 2 <= hi {
        r
    } else {
        hi - 2
    };
    assert(color_at(g, r0, c) == Some(color));
    assert(color_at(g, r0 + 1, c) == Some(color));
    assert(color_at(g, r0 + 2, c) == Some(color));
    assert(mono_v(g, r0, c));
}

/// A flagged cell lies inside some same-colored run of three cells: the
/// converse direction of the flagging rule.
pub proof fn lemma_flagged_implies_run(g: Grid, r: int, c: int)
    requires
        part_of_run(g, r, c),
    ensures
        exists|lo: int, hi: int, color: BaseColor|
            hi - lo >= 2 && ((lo <= c <= hi && h_run(g, r, lo, hi, color)) || (lo <= r <= hi
                && v_run(g, c, lo, hi, color))),
{
    if mono_h(g, r, c - 2) {
        let color = color_at(g, r, c - 2).unwrap();
        assert(h_run(g, r, c - 2, c, color));
    } else if mono_h(g, r, c - 1) {
        let color = color_at(g, r, c - 1).unwrap();
        assert(h_run(g, r, c - 1, c + 1, color));
    } else if mono_h(g, r, c) {
        let color = color_at(g, r, c).unwrap();
        assert(h_run(g, r, c, c + 2, color));
    } else if mono_v(g, r - 2, c) {
        let color = color_at(g, r - 2, c).unwrap();
        assert(v_run(g, c, r - 2, r, color));
    } else if mono_v(g, r - 1, c) {
        let color = color_at(g, r - 1, c).unwrap();
        assert(v_run(g, c, r - 1, r + 1, color));
    } else {
        let color = color_at(g, r, c).unwrap();
        assert(v_run(g, c, r, r + 2, color));
    }
}

impl Grid {
    /// The color at `(r, c)`, `None` for an empty or out-of-range cell.
    pub fn color_of(&self, r: usize, c: usize) -> (o: Option<BaseColor>)
        requires
            self.wf(),
        ensures
            o == color_at(*self, r as int, c as int),
    {
        if r < self.height && c < self.width {
            match self.cell[r][c] {
                Some(p) => Some(p.color),
                None => None,
            }
        } else {
            None
        }
    }

    /// Whether the three cells starting at `(r, c0)` rightward share a color.
    fn mono_h_at(&self, r: usize, c0: usize) -> (b: bool)
        requires
            self.wf(),
        ensures
            b == mono_h(*self, r as int, c0 as int),
    {
        match self.color_of(r, c0) {
            None => false,
            Some(x) => {
                if c0 + 1 < self.width {
                    match (self.color_of(r, c0 + 1), self.color_of(r, c0 + 2)) {
                        (Some(a), Some(b)) => a == x && b == x,
                        _ => false,
                    }
                } else {
                    false
                }
            },
        }
    }

    /// Whether the three cells starting at `(r0, c)` upward share a color.
    fn mono_v_at(&self, r0: usize, c: usize) -> (b: bool)
        requires
            self.wf(),
        ensures
            b == mono_v(*self, r0 as int, c as int),
    {
        match self.color_of(r0, c) {
            None => false,
            Some(x) => {
                if r0 + 1 < self.height {
                    match (self.color_of(r0 + 1, c), self.color_of(r0 + 2, c)) {
                        (Some(a), Some(b)) => a == x && b == x,
                        _ => false,
                    }
                } else {
                    false
                }
            },
        }
    }

    /// Whether `(row, col)` is the center of a three-in-a-row window: the
    /// predicate the opponent search asks of a hypothetical board.
    pub fn is_matched_at(&self, row: usize, col: usize) -> (b: bool)
        requires
            self.wf(),
        ensures
            b == centered_at(*self, row as int, col as int),
    {
        let h = if col >= 1 {
            self.mono_h_at(row, col - 1)
        } else {
            false
        };
        let v = if row >= 1 {
            self.mono_v_at(row - 1, col)
        } else {
            false
        };
        proof {
            if col == 0 {
                assert(color_at(*self, row as int, col as int - 1) is None);
            }
            if row == 0 {
                assert(color_at(*self, row as int - 1, col as int) is None);
            }
        }
        h || v
    }

    /// Whether `(row, col)` lies inside any three-in-a-row window.
    pub fn in_run(&self, row: usize, col: usize) -> (b: bool)
        requires
            self.wf(),
        ensures
            b == part_of_run(*self, row as int, col as int),
    {
        let mut b = self.mono_h_at(row, col);
        if !b && col >= 1 {
            b = self.mono_h_at(row, col - 1);
        }
        if !b && col >= 2 {
            b = self.mono_h_at(row, col - 2);
        }
        if !b {
            b = self.mono_v_at(row, col);
        }
        if !b && row >= 1 {
            b = self.mono_v_at(row - 1, col);
        }
        if !b && row >= 2 {
            b = self.mono_v_at(row - 2, col);
        }
        proof {
            if col < 1 {
                assert(color_at(*self, row as int, col as int - 1) is None);
            }
            if col < 2 {
                assert(color_at(*self, row as int, col as int - 2) is None);
            }
            if row < 1 {
                assert(color_at(*self, row as int - 1, col as int) is None);
            }
            if row < 2 {
                assert(color_at(*self, row as int - 2, col as int) is None);
            }
        }
        b
    }

    /// Scans the whole board and sets `matched` on every piece that lies
    /// inside a three-in-a-row window; colors, handles and every other cell
    /// are left untouched. Flagged pieces are not destroyed here: destruction
    /// is a separate phase.
    pub fn find_match(&mut self)
        requires
            old(self).wf(),
        ensures
            final(self).wf(),
            match_phase_rel(*old(self), *final(self)),
    {
        let ghost g0 = *self;
        let mut flags: Vec<Vec<bool>> = Vec::new();
        let mut r: usize = 0;
        while r < self.height
            invariant
                *self == g0,
                self.wf(),
                r <= self.height,
                flags@.len() == r,
                forall|i: int| 0 <= i < r ==> (#[trigger] flags@[i])@.len() == self.width,
                forall|i: int, j: int|
                    0 <= i < r && 0 <= j < self.width ==> (#[trigger] flags@[i]@[j])
                        == part_of_run(g0, i, j),
            decreases self.height - r,
        {
            let mut row_flags: Vec<bool> = Vec::new();
            let mut c: usize = 0;
            while c < self.width
                invariant
                    *self == g0,
                    self.wf(),
                    r < self.height,
                    c <= self.width,
                    row_flags@.len() == c,
                    forall|j: int|
                        0 <= j < c ==> (#[trigger] row_flags@[j]) == part_of_run(g0, r as int, j),
                decreases self.width - c,
            {
                row_flags.push(self.in_run(r, c));
                c = c + 1;
            }
            flags.push(row_flags);
            r = r + 1;
        }
        let mut r: usize = 0;
        while r < self.height
            invariant
                self.wf(),
                self.width == g0.width,
                self.height == g0.height,
                self.next_handle == g0.next_handle,
                r <= self.height,
                flags@.len() == self.height,
                forall|i: int| 0 <= i < self.height ==> (#[trigger] flags@[i])@.len() == self.width,
                forall|i: int, j: int|
                    0 <= i < self.height && 0 <= j < self.width ==> (#[trigger] flags@[i]@[j])
                        == part_of_run(g0, i, j),
                forall|i: int, j: int|
                    g0.in_bounds(i, j) ==> #[trigger] self.handle_at(i, j) == g0.handle_at(i, j),
                forall|i: int, j: int|
                    g0.in_bounds(i, j) && i < r ==> #[trigger] self.at(i, j) == flag_applied(
                        g0,
                        i,
                        j,
                    ),
                forall|i: int, j: int|
                    g0.in_bounds(i, j) && i >= r ==> #[trigger] self.at(i, j) == g0.at(i, j),
            decreases self.height - r,
        {
            let mut c: usize = 0;
            while c < self.width
                invariant
                    self.wf(),
                    self.width == g0.width,
                    self.height == g0.height,
                    self.next_handle == g0.next_handle,
                    r < self.height,
                    c <= self.width,
                    flags@.len() == self.height,
                    forall|i: int|
                        0 <= i < self.height ==> (#[trigger] flags@[i])@.len() == self.width,
                    forall|i: int, j: int|
                        0 <= i < self.height && 0 <= j < self.width ==> (#[trigger] flags@[i]@[j])
                            == part_of_run(g0, i, j),
                    forall|i: int, j: int|
                        g0.in_bounds(i, j) ==> #[trigger] self.handle_at(i, j) == g0.handle_at(
                            i,
                            j,
                        ),
                    forall|i: int, j: int|
                        g0.in_bounds(i, j) && (i < r || (i == r && j < c)) ==> #[trigger] self.at(
                            i,
                            j,
                        ) == flag_applied(g0, i, j),
                    forall|i: int, j: int|
                        g0.in_bounds(i, j) && (i > r || (i == r && j >= c)) ==> #[trigger] self.at(
                            i,
                            j,
                        ) == g0.at(i, j),
                decreases self.width - c,
            {
                let ghost pre = *self;
                if flags[r][c] {
                    match self.cell[r][c] {
                        Some(p) => {
                            self.cell[r][c] = Some(
                                BasePiece {
                                    row: p.row,
                                    col: p.col,
                                    color: p.color,
                                    matched: true,
                                },
                            );
                        },
                        None => {},
                    }
                }
                proof {
                    assert(self.entities@ == pre.entities@);
                    assert forall|i: int, j: int|
                        g0.in_bounds(i, j) && !(i == r && j == c) implies #[trigger] self.at(i, j)
                        == pre.at(i, j) by {
                        assert(self.cell@[i] == if i == r {
                            self.cell@[r as int]
                        } else {
                            pre.cell@[i]
                        });
                    }
                    assert forall|i: int, j: int| g0.in_bounds(i, j) implies #[trigger] self
                        .handle_at(i, j) == pre.handle_at(i, j) by {}
                }
                c = c + 1;
            }
            r = r + 1;
        }
    }
}

/// What one detector pass does to the board: dimensions, handles and colors
/// kept, every piece's `matched` flag updated per `flag_applied`.
pub open spec fn match_phase_rel(pre: Grid, post: Grid) -> bool {
    &&& post.width == pre.width
    &&& post.height == pre.height
    &&& post.next_handle == pre.next_handle
    &&& forall|r: int, c: int|
        pre.in_bounds(r, c) ==> #[trigger] post.handle_at(r, c) == pre.handle_at(r, c)
    &&& forall|r: int, c: int|
        pre.in_bounds(r, c) ==> #[trigger] post.at(r, c) == flag_applied(pre, r, c)
}

/// The piece at `(r, c)` with its `matched` flag as the detector leaves it.
pub open spec fn flag_applied(g: Grid, r: int, c: int) -> Option<BasePiece> {
    match g.at(r, c) {
        Some(p) => Some(
            BasePiece {
                row: p.row,
                col: p.col,
                color: p.color,
                matched: p.matched || part_of_run(g, r, c),
            },
        ),
        None => None,
    }
}

} // verus!
