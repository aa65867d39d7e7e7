use vstd::prelude::*;

use crate::grid::Grid;
use crate::piece::BasePiece;

verus! {

/// One of the four axis-aligned unit directions of a swap gesture.
/// `Up` is +1 row, `Down` is -1 row, `Right` is +1 column, `Left` is -1
/// column (row 0 is the bottom of the board).
#[derive(Clone, Copy, PartialEq, Eq, Structural, Debug)]
pub enum Direction {
    Up,
    Down,
    Left,
    Right,
}

impl Direction {
    /// The `(row, column)` delta of this direction.
    pub open spec fn spec_delta(self) -> (int, int) {
        match self {
            Direction::Up => (1int, 0int),
            Direction::Down => (-1int, 0int),
            Direction::Right => (0int, 1int),
            Direction::Left => (0int, -1int),
        }
    }

    /// The cell reached from `(r, c)` by one step in this direction.
    pub open spec fn spec_target(self, r: int, c: int) -> (int, int) {
        (r + self.spec_delta().0, c + self.spec_delta().1)
    }

    pub open spec fn spec_inverse(self) -> Direction {
        match self {
            Direction::Up => Direction::Down,
            Direction::Down => Direction::Up,
            Direction::Right => Direction::Left,
            Direction::Left => Direction::Right,
        }
    }

    /// The direction that undoes this one.
    pub fn inverse(self) -> (d: Direction)
        ensures
            d == self.spec_inverse(),
    {
        match self {
            Direction::Up => Direction::Down,
            Direction::Down => Direction::Up,
            Direction::Right => Direction::Left,
            Direction::Left => Direction::Right,
        }
    }

    /// The neighbor of `(r, c)` in this direction, or `None` when that cell
    /// has no unsigned representation.
    pub fn apply(self, r: usize, c: usize) -> (p: Option<(usize, usize)>)
        ensures
            match p {
                Some(q) => (q.0 as int, q.1 as int) == self.spec_target(r as int, c as int),
                None => {
                    let t = self.spec_target(r as int, c as int);
                    t.0 < 0 || t.1 < 0 || t.0 > usize::MAX || t.1 > usize::MAX
                },
            },
    {
        match self {
            Direction::Up => if r < usize::MAX {
                Some((r + 1, c))
            } else {
                None
            },
            Direction::Down => if r > 0 {
                Some((r - 1, c))
            } else {
                None
            },
            Direction::Right => if c < usize::MAX {
                Some((r, c + 1))
            } else {
                None
            },
            Direction::Left => if c > 0 {
                Some((r, c - 1))
            } else {
                None
            },
        }
    }
}

/// Why a requested swap was refused: a coordinate off the board, or an
/// endpoint holding no piece.
#[derive(Clone, Copy, PartialEq, Eq, Structural, Debug)]
pub enum SwapError {
    OutOfBounds,
    EmptyCell,
}

/// A committed swap, remembered so that it can be undone: the two endpoints
/// and the direction that produced it.
#[derive(Clone, Copy, PartialEq, Eq, Debug)]
pub struct SwapRecord {
    pub pos1: (usize, usize),
    pub pos2: (usize, usize),
    pub direction: Direction,
}

/// `p` with its coordinate tags set to `(r, c)`; a swap re-tags each piece to
/// its new cell, so coordinates travel with the array slot.
pub open spec fn retag(p: BasePiece, r: int, c: int) -> BasePiece {
    BasePiece { row: r as usize, col: c as usize, color: p.color, matched: p.matched }
}

impl Grid {
    /// Both endpoints are on the board and hold a piece.
    pub open spec fn swap_ok(self, r1: int, c1: int, r2: int, c2: int) -> bool {
        &&& self.in_bounds(r1, c1)
        &&& self.in_bounds(r2, c2)
        &&& self.at(r1, c1) is Some
        &&& self.at(r2, c2) is Some
    }
}

/// `post` is `pre` with the pieces and handles at `(r1, c1)` and `(r2, c2)`
/// exchanged, each piece re-tagged to its new cell, and every other cell
/// untouched.
pub open spec fn swap_applied(pre: Grid, post: Grid, r1: int, c1: int, r2: int, c2: int) -> bool {
    &&& post.width == pre.width
    &&& post.height == pre.height
    &&& post.next_handle == pre.next_handle
    &&& post.at(r1, c1) == Some(retag(pre.at(r2, c2).unwrap(), r1, c1))
    &&& post.at(r2, c2) == Some(retag(pre.at(r1, c1).unwrap(), r2, c2))
    &&& post.handle_at(r1, c1) == pre.handle_at(r2, c2)
    &&& post.handle_at(r2, c2) == pre.handle_at(r1, c1)
    &&& forall|r: int, c: int|
        pre.in_bounds(r, c) && !(r == r1 && c == c1) && !(r == r2 && c == c2) ==> #[trigger] post.at(
            r,
            c,
        ) == pre.at(r, c) && post.handle_at(r, c) == pre.handle_at(r, c)
}

impl Grid {
    /// Validates and commits a two-cell exchange: the origin `(row, col)` and
    /// its neighbor one step along `direction`. Fails with `OutOfBounds` when
    /// either endpoint is off the board and with `EmptyCell` when either
    /// holds no piece, leaving the grid untouched. On success both piece
    /// values (re-tagged to their new cells) and both presentation handles
    /// are exchanged, and the returned record names the swapped pair. The
    /// same routine performs the later swap-back, invoked with the inverse
    /// direction from the second endpoint.
    pub fn attempt_swap(&mut self, row: usize, col: usize, direction: Direction) -> (result:
        Result<SwapRecord, SwapError>)
        requires
            old(self).wf(),
        ensures
            final(self).wf(),
            ({
                let t = direction.spec_target(row as int, col as int);
                match result {
                    Ok(rec) => {
                        &&& old(self).swap_ok(row as int, col as int, t.0, t.1)
                        &&& rec.pos1 == (row, col)
                        &&& (rec.pos2.0 as int, rec.pos2.1 as int) == t
                        &&& rec.direction == direction
                        &&& swap_applied(*old(self), *final(self), row as int, col as int, t.0, t.1)
                    },
                    Err(SwapError::OutOfBounds) => {
                        &&& *final(self) == *old(self)
                        &&& !(old(self).in_bounds(row as int, col as int) && old(self).in_bounds(
                            t.0,
                            t.1,
                        ))
                    },
                    Err(SwapError::EmptyCell) => {
                        &&& *final(self) == *old(self)
                        &&& old(self).in_bounds(row as int, col as int)
                        &&& old(self).in_bounds(t.0, t.1)
                        &&& (old(self).at(row as int, col as int) is None || old(self).at(
                            t.0,
                            t.1,
                        ) is None)
                    },
                }
            }),
    {
        let target = direction.apply(row, col);
        let (r2, c2) = match target {
            Some(q) => q,
            None => {
                return Err(SwapError::OutOfBounds);
            },
        };
        if !(row < self.height && col < self.width && r2 < self.height && c2 < self.width) {
            return Err(SwapError::OutOfBounds);
        }
        proof {
            assert((r2 as int, c2 as int) != (row as int, col as int));
        }
        let p1o = self.cell[row][col];
        let p2o = self.cell[r2][c2];
        match (p1o, p2o) {
            (Some(p1), Some(p2)) => {
                let ghost pre = *self;
                self.cell[row][col] = Some(
                    BasePiece { row, col, color: p2.color, matched: p2.matched },
                );
                self.cell[r2][c2] = Some(
                    BasePiece { row: r2, col: c2, color: p1.color, matched: p1.matched },
                );
                let h1 = self.entities[row][col];
                let h2 = self.entities[r2][c2];
                self.entities[row][col] = h2;
                self.entities[r2][c2] = h1;
                proof {
                    assert forall|r: int, c: int|
                        pre.in_bounds(r, c) && !(r == row && c == col) && !(r == r2 && c
                            == c2) implies #[trigger] self.at(r, c) == pre.at(r, c)
                        && self.handle_at(r, c) == pre.handle_at(r, c) by {
                        assert(self.cell@[r] == if r == row {
                            self.cell@[row as int]
                        } else if r == r2 {
                            self.cell@[r2 as int]
                        } else {
                            pre.cell@[r]
                        });
                        assert(self.entities@[r] == if r == row {
                            self.entities@[row as int]
                        } else if r == r2 {
                            self.entities@[r2 as int]
                        } else {
                            pre.entities@[r]
                        });
                    }
                    assert(swap_applied(pre, *self, row as int, col as int, r2 as int, c2 as int));
                }
                Ok(SwapRecord { pos1: (row, col), pos2: (r2, c2), direction })
            },
            _ => Err(SwapError::EmptyCell),
        }
    }
}

/// Swapping a pair and then swapping it back restores every cell of the
/// board: colors, matched flags, coordinate tags and presentation handles.
pub proof fn lemma_swap_roundtrip(g0: Grid, g1: Grid, g2: Grid, r1: int, c1: int, r2: int, c2: int)
    requires
        g0.wf(),
        g0.swap_ok(r1, c1, r2, c2),
        !(r1 == r2 && c1 == c2),
        swap_applied(g0, g1, r1, c1, r2, c2),
        swap_applied(g1, g2, r2, c2, r1, c1),
    ensures
        g2.width == g0.width,
        g2.height == g0.height,
        g2.next_handle == g0.next_handle,
        forall|r: int, c: int|
            g0.in_bounds(r, c) ==> #[trigger] g2.at(r, c) == g0.at(r, c) && g2.handle_at(r, c)
                == g0.handle_at(r, c),
{
    assert forall|r: int, c: int|
        g0.in_bounds(r, c) implies #[trigger] g2.at(r, c) == g0.at(r, c) && g2.handle_at(r, c)
        == g0.handle_at(r, c) by {
        if r == r1 && c == c1 {
            assert(g0.at(r1, c1).unwrap().row == r1 && g0.at(r1, c1).unwrap().col == c1);
        } else if r == r2 && c == c2 {
            assert(g0.at(r2, c2).unwrap().row == r2 && g0.at(r2, c2).unwrap().col == c2);
        }
    }
}

/// `attempt_swap` is deterministic: from equal grids and the same intent it
/// produces equal resulting boards, cell for cell.
pub proof fn lemma_swap_deterministic(
    pre: Grid,
    post_a: Grid,
    post_b: Grid,
    r1: int,
    c1: int,
    r2: int,
    c2: int,
)
    requires
        pre.in_bounds(r1, c1),
        pre.in_bounds(r2, c2),
        swap_applied(pre, post_a, r1, c1, r2, c2),
        swap_applied(pre, post_b, r1, c1, r2, c2),
    ensures
        post_a.width == post_b.width,
        post_a.height == post_b.height,
        post_a.next_handle == post_b.next_handle,
        forall|r: int, c: int|
            pre.in_bounds(r, c) ==> #[trigger] post_a.at(r, c) == post_b.at(r, c)
                && post_a.handle_at(r, c) == post_b.handle_at(r, c),
{
}

} // verus!
