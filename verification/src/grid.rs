use vstd::prelude::*;

use crate::piece::BaseColor;
use crate::piece::BasePiece;

verus! {

/// The board: a `height x width` grid of optional pieces plus a parallel grid
/// of opaque presentation handles, kept in lock-step with the pieces. The
/// rule engine stores the handles for the presentation layer but never
/// interprets them; fresh handles are drawn from `next_handle`.
#[derive(Clone, Debug, PartialEq)]
pub struct Grid {
    pub width: usize,
    pub height: usize,
    pub cell: Vec<Vec<Option<BasePiece>>>,
    pub entities: Vec<Vec<Option<u64>>>,
    pub next_handle: u64,
}

impl Grid {
    /// The piece stored at row `r`, column `c`.
    pub open spec fn at(self, r: int, c: int) -> Option<BasePiece> {
        self.cell@[r]@[c]
    }

    /// The presentation handle stored at row `r`, column `c`.
    pub open spec fn handle_at(self, r: int, c: int) -> Option<u64> {
        self.entities@[r]@[c]
    }

    pub open spec fn in_bounds(self, r: int, c: int) -> bool {
        0 <= r < self.height && 0 <= c < self.width
    }

    /// Well-formedness: both boards have the declared dimensions, a cell has a
    /// piece if and only if it has a handle, and every piece carries the
    /// coordinates of the cell it is stored in.
    pub open spec fn wf(self) -> bool {
        &&& self.cell@.len() == self.height
        &&& self.entities@.len() == self.height
        &&& forall|r: int|
            0 <= r < self.height ==> (#[trigger] self.cell@[r])@.len() == self.width
        &&& forall|r: int|
            0 <= r < self.height ==> (#[trigger] self.entities@[r])@.len() == self.width
        &&& forall|r: int, c: int|
            self.in_bounds(r, c) ==> ((#[trigger] self.at(r, c)) is Some <==> self.handle_at(
                r,
                c,
            ) is Some)
        &&& forall|r: int, c: int|
            self.in_bounds(r, c) ==> match #[trigger] self.at(r, c) {
                Some(p) => p.row == r && p.col == c,
                None => true,
            }
    }

    /// An empty board with the given dimensions.
    pub fn new(width: usize, height: usize) -> (g: Grid)
        ensures
            g.wf(),
            g.width == width,
            g.height == height,
            g.next_handle == 0,
            forall|r: int, c: int| g.in_bounds(r, c) ==> #[trigger] g.at(r, c) is None,
    {
        let mut cell: Vec<Vec<Option<BasePiece>>> = Vec::new();
        let mut entities: Vec<Vec<Option<u64>>> = Vec::new();
        let mut r: usize = 0;
        while r < height
            invariant
                r <= height,
                cell@.len() == r,
                entities@.len() == r,
                forall|i: int| 0 <= i < r ==> (#[trigger] cell@[i])@.len() == width,
                forall|i: int| 0 <= i < r ==> (#[trigger] entities@[i])@.len() == width,
                forall|i: int, j: int|
                    0 <= i < r && 0 <= j < width ==> (#[trigger] cell@[i]@[j]) is None,
                forall|i: int, j: int|
                    0 <= i < r && 0 <= j < width ==> (#[trigger] entities@[i]@[j]) is None,
            decreases height - r,
        {
            let mut piece_row: Vec<Option<BasePiece>> = Vec::new();
            let mut handle_row: Vec<Option<u64>> = Vec::new();
            let mut c: usize = 0;
            while c < width
                invariant
                    c <= width,
                    piece_row@.len() == c,
                    handle_row@.len() == c,
                    forall|j: int| 0 <= j < c ==> (#[trigger] piece_row@[j]) is None,
                    forall|j: int| 0 <= j < c ==> (#[trigger] handle_row@[j]) is None,
                decreases width - c,
            {
                piece_row.push(None);
                handle_row.push(None);
                c = c + 1;
            }
            cell.push(piece_row);
            entities.push(handle_row);
            r = r + 1;
        }
        Grid { width, height, cell, entities, next_handle: 0 }
    }

    /// Bounds-checked coordinate validation.
    pub fn coordinate_in_bounds(&self, row: usize, col: usize) -> (b: bool)
        ensures
            b == self.in_bounds(row as int, col as int),
    {
        row < self.height && col < self.width
    }

    /// Whether a possibly-negative coordinate pair lies on the board.
    pub fn is_in_grid(&self, row: i32, col: i32) -> (b: bool)
        ensures
            b == (0 <= row && (row as int) < self.height && 0 <= col && (col as int)
                < self.width),
    {
        row >= 0 && (row as usize) < self.height && col >= 0 && (col as usize) < self.width
    }

    /// The piece at `(row, col)`; out-of-range access is a caller error and is
    /// excluded by the precondition.
    pub fn cell_at(&self, row: usize, col: usize) -> (p: Option<BasePiece>)
        requires
            self.wf(),
            self.in_bounds(row as int, col as int),
        ensures
            p == self.at(row as int, col as int),
    {
        self.cell[row][col]
    }

    /// Places a fresh unmatched piece of the given color at `(row, col)`,
    /// assigning it a new presentation handle. Intended for board setup.
    pub fn set_piece(&mut self, row: usize, col: usize, color: BaseColor)
        requires
            old(self).wf(),
            old(self).in_bounds(row as int, col as int),
        ensures
            final(self).wf(),
            final(self).width == old(self).width,
            final(self).height == old(self).height,
            final(self).at(row as int, col as int) == Some(
                BasePiece { row, col, color, matched: false },
            ),
            final(self).handle_at(row as int, col as int) == Some(old(self).next_handle),
            forall|r: int, c: int|
                old(self).in_bounds(r, c) && !(r == row && c == col) ==> #[trigger] final(self).at(
                    r,
                    c,
                ) == old(self).at(r, c) && final(self).handle_at(r, c) == old(self).handle_at(
                    r,
                    c,
                ),
    {
        let handle = self.next_handle;
        self.next_handle = if self.next_handle < u64::MAX {
            self.next_handle + 1
        } else {
            self.next_handle
        };
        self.cell[row][col] = Some(BasePiece { row, col, color, matched: false });
        self.entities[row][col] = Some(handle);
        proof {
            assert forall|r: int, c: int|
                old(self).in_bounds(r, c) && !(r == row && c == col) implies #[trigger] self.at(
                r,
                c,
            ) == old(self).at(r, c) && self.handle_at(r, c) == old(self).handle_at(r, c) by {
                assert(self.cell@[r] == if r == row {
                    self.cell@[row as int]
                } else {
                    old(self).cell@[r]
                });
                assert(self.entities@[r] == if r == row {
                    self.entities@[row as int]
                } else {
                    old(self).entities@[r]
                });
            }
        }
    }

    /// Writes one cell, piece and handle together; the caller supplies a
    /// piece and a handle both or neither, with the piece tagged by its
    /// cell, keeping the two boards in lock-step and the coordinate tags
    /// authoritative.
    pub fn put(
        &mut self,
        row: usize,
        col: usize,
        p: Option<BasePiece>,
        h: Option<u64>,
    )
        requires
            old(self).wf(),
            old(self).in_bounds(row as int, col as int),
            p is Some <==> h is Some,
            match p {
                Some(q) => q.row == row && q.col == col,
                None => true,
            },
        ensures
            final(self).wf(),
            final(self).width == old(self).width,
            final(self).height == old(self).height,
            final(self).next_handle == old(self).next_handle,
            final(self).at(row as int, col as int) == p,
            final(self).handle_at(row as int, col as int) == h,
            forall|r: int, c: int|
                old(self).in_bounds(r, c) && !(r == row && c == col) ==> #[trigger] final(self).at(
                    r,
                    c,
                ) == old(self).at(r, c) && final(self).handle_at(r, c) == old(self).handle_at(
                    r,
                    c,
                ),
    {
        self.cell[row][col] = p;
        self.entities[row][col] = h;
        proof {
            assert forall|r: int, c: int|
                old(self).in_bounds(r, c) && !(r == row && c == col) implies #[trigger] self.at(
                r,
                c,
            ) == old(self).at(r, c) && self.handle_at(r, c) == old(self).handle_at(r, c) by {
                assert(self.cell@[r] == if r == row {
                    self.cell@[row as int]
                } else {
                    old(self).cell@[r]
                });
                assert(self.entities@[r] == if r == row {
                    self.entities@[row as int]
                } else {
                    old(self).entities@[r]
                });
            }
        }
    }

    /// Empties the cell at `(row, col)`, removing both the piece and its
    /// presentation handle. Intended for board setup.
    pub fn clear_cell(&mut self, row: usize, col: usize)
        requires
            old(self).wf(),
            old(self).in_bounds(row as int, col as int),
        ensures
            final(self).wf(),
            final(self).width == old(self).width,
            final(self).height == old(self).height,
            final(self).next_handle == old(self).next_handle,
            final(self).at(row as int, col as int) is None,
            final(self).handle_at(row as int, col as int) is None,
            forall|r: int, c: int|
                old(self).in_bounds(r, c) && !(r == row && c == col) ==> #[trigger] final(self).at(
                    r,
                    c,
                ) == old(self).at(r, c) && final(self).handle_at(r, c) == old(self).handle_at(
                    r,
                    c,
                ),
    {
        self.cell[row][col] = None;
        self.entities[row][col] = None;
        proof {
            assert forall|r: int, c: int|
                old(self).in_bounds(r, c) && !(r == row && c == col) implies #[trigger] self.at(
                r,
                c,
            ) == old(self).at(r, c) && self.handle_at(r, c) == old(self).handle_at(r, c) by {
                assert(self.cell@[r] == if r == row {
                    self.cell@[row as int]
                } else {
                    old(self).cell@[r]
                });
                assert(self.entities@[r] == if r == row {
                    self.entities@[row as int]
                } else {
                    old(self).entities@[r]
                });
            }
        }
    }
}

} // verus!
