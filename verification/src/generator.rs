use vstd::prelude::*;

use crate::grid::Grid;
use crate::matching::color_at;
use crate::matching::mono_h;
use crate::matching::mono_v;
use crate::piece::BaseColor;
use crate::piece::base_colors;
use crate::piece::palette;

verus! {

/// Relies on rand::random_range: a uniform draw from `0..n`, which panics
/// only on an empty range and always returns a value of the range.
#[verifier::external_body]
fn random_below(n: usize) -> (r: usize)
    requires
        0 < n,
    ensures
        r < n,
{
    rand::random_range(0..n)
}

/// The color shared by the two cells immediately left of `(r, c)`, if both
/// are filled with one color; a new piece of that color at `(r, c)` would
/// complete a horizontal run.
pub open spec fn left_block(g: Grid, r: int, c: int) -> Option<BaseColor> {
    if color_at(g, r, c - 1) is Some && color_at(g, r, c - 2) == color_at(g, r, c - 1) {
        color_at(g, r, c - 1)
    } else {
        None
    }
}

/// The color shared by the two cells immediately below `(r, c)` (rows `r-1`
/// and `r-2`), if both are filled with one color.
pub open spec fn below_block(g: Grid, r: int, c: int) -> Option<BaseColor> {
    if color_at(g, r - 1, c) is Some && color_at(g, r - 2, c) == color_at(g, r - 1, c) {
        color_at(g, r - 1, c)
    } else {
        None
    }
}

/// Whether color `x` is excluded by an offending pair.
pub open spec fn blocked(x: BaseColor, left: Option<BaseColor>, below: Option<BaseColor>) -> bool {
    ||| left == Some(x)
    ||| below == Some(x)
}

impl Grid {
    /// The color a new piece at `(row, col)` must avoid because of the pair
    /// to its left, if any.
    fn blocked_left(&self, row: usize, col: usize) -> (o: Option<BaseColor>)
        requires
            self.wf(),
        ensures
            o == left_block(*self, row as int, col as int),
    {
        if col >= 2 {
            match (self.color_of(row, col - 1), self.color_of(row, col - 2)) {
                (Some(a), Some(b)) => if a == b {
                    Some(a)
                } else {
                    None
                },
                _ => None,
            }
        } else {
            proof {
                assert(color_at(*self, row as int, col as int - 2) is None);
            }
            None
        }
    }

    /// The color a new piece at `(row, col)` must avoid because of the pair
    /// below it, if any.
    fn blocked_below(&self, row: usize, col: usize) -> (o: Option<BaseColor>)
        requires
            self.wf(),
        ensures
            o == below_block(*self, row as int, col as int),
    {
        if row >= 2 {
            match (self.color_of(row - 1, col), self.color_of(row - 2, col)) {
                (Some(a), Some(b)) => if a == b {
                    Some(a)
                } else {
                    None
                },
                _ => None,
            }
        } else {
            proof {
                assert(color_at(*self, row as int - 2, col as int) is None);
            }
            None
        }
    }
}

/// Picks the color for a newly spawned piece: one uniform draw from the
/// palette; if that color would complete a run with the pair to the left or
/// the pair below, one fallback draw from the palette with every offending
/// color removed (no re-roll loop). Were the reduced set empty, the original
/// unfiltered draw would be kept rather than failing; with this palette of
/// four distinct colors and at most two offenders that cannot happen, so the
/// result never completes a run with either pair.
fn choose_color(left: Option<BaseColor>, below: Option<BaseColor>) -> (c: BaseColor)
    ensures
        palette().contains(c),
        !blocked(c, left, below),
{
    let colors = base_colors();
    let k = random_below(colors.len());
    let c0 = colors[k];
    let offends = match left {
        Some(l) => c0 == l,
        None => false,
    } || match below {
        Some(b) => c0 == b,
        None => false,
    };
    if !offends {
        proof {
            assert(palette().contains(c0)) by {
                assert(palette()[k as int] == c0);
            }
        }
        return c0;
    }
    let mut filtered: Vec<BaseColor> = Vec::new();
    let mut i: usize = 0;
    while i < colors.len()
        invariant
            colors@ == palette(),
            i <= colors@.len(),
            forall|j: int|
                0 <= j < i && !blocked(colors@[j], left, below) ==> filtered@.contains(
                    #[trigger] colors@[j],
                ),
            forall|x: BaseColor|
                filtered@.contains(x) ==> palette().contains(x) && !blocked(x, left, below),
        decreases colors@.len() - i,
    {
        let ci = colors[i];
        let bad = match left {
            Some(l) => ci == l,
            None => false,
        } || match below {
            Some(b) => ci == b,
            None => false,
        };
        if !bad {
            let ghost prev = filtered@;
            filtered.push(ci);
            proof {
                assert(filtered@[filtered@.len() - 1] == ci);
                assert forall|x: BaseColor| prev.contains(x) implies filtered@.contains(x) by {
                    let w = choose|w: int| 0 <= w < prev.len() && prev[w] == x;
                    assert(filtered@[w] == x);
                }
            }
        }
        i = i + 1;
    }
    proof {
        if blocked(BaseColor::Blue, left, below) && blocked(BaseColor::Pink, left, below)
            && blocked(BaseColor::Green, left, below) {
            assert(false);
        }
        if !blocked(BaseColor::Blue, left, below) {
            assert(filtered@.contains(palette()[0]));
        } else if !blocked(BaseColor::Pink, left, below) {
            assert(filtered@.contains(palette()[1]));
        } else {
            assert(filtered@.contains(palette()[2]));
        }
    }
    if filtered.len() == 0 {
        // unreachable with this palette: kept as the defined fallback
        c0
    } else {
        let j = random_below(filtered.len());
        let c = filtered[j];
        proof {
            assert(filtered@.contains(filtered@[j as int]));
        }
        c
    }
}

/// A board with no three-in-a-row window has no cell the match detector
/// would flag: a freshly generated board starts unmatched everywhere.
pub proof fn lemma_generated_board_unmatched(g: Grid)
    requires
        forall|r: int, c0: int| !mono_h(g, r, c0),
        forall|r0: int, c: int| !mono_v(g, r0, c),
    ensures
        forall|r: int, c: int| !crate::matching::part_of_run(g, r, c),
{
}

/// After a refill pass no horizontal window consists of cells the pass
/// spawned alone: at generation time a new cell never completes a run out of
/// other new cells.
pub proof fn lemma_refill_fresh_no_run_h(pre: Grid, post: Grid, r: int, c0: int)
    requires
        refill_rel(pre, post),
        pre.at(r, c0 + 2) is None,
    ensures
        !mono_h(post, r, c0),
{
}

/// Vertical counterpart of `lemma_refill_fresh_no_run_h`.
pub proof fn lemma_refill_fresh_no_run_v(pre: Grid, post: Grid, r0: int, c: int)
    requires
        refill_rel(pre, post),
        pre.at(r0 + 2, c) is None,
    ensures
        !mono_v(post, r0, c),
{
}

/// A column takes new pieces in a pass only while its last-scanned row is
/// still empty.
pub open spec fn eligible(pre: Grid, c: int) -> bool {
    pre.at(pre.height - 1, c) is None
}

/// What one refill pass does to the board: pieces already present are
/// untouched; in every eligible column each empty cell receives a fresh
/// unmatched piece with a palette color; ineligible columns stay as they
/// were; and every three-in-a-row window on the resulting board ends, in
/// scan order, at a cell that already held its piece before the pass — a
/// window completed by a freshly spawned cell cannot occur.
pub open spec fn refill_rel(pre: Grid, post: Grid) -> bool {
    &&& post.width == pre.width
    &&& post.height == pre.height
    &&& forall|r: int, c: int|
        pre.in_bounds(r, c) && pre.at(r, c) is Some ==> #[trigger] post.at(r, c) == pre.at(r, c)
            && post.handle_at(r, c) == pre.handle_at(r, c)
    &&& forall|r: int, c: int|
        pre.in_bounds(r, c) && pre.at(r, c) is None && eligible(pre, c) ==> match #[trigger] post.at(
            r,
            c,
        ) {
            Some(p) => !p.matched && palette().contains(p.color),
            None => false,
        }
    &&& forall|r: int, c: int|
        pre.in_bounds(r, c) && pre.at(r, c) is None && !eligible(pre, c) ==> #[trigger] post.at(
            r,
            c,
        ) is None
    &&& forall|r: int, c0: int| #[trigger] mono_h(post, r, c0) ==> pre.at(r, c0 + 2) is Some
    &&& forall|r0: int, c: int| #[trigger] mono_v(post, r0, c) ==> pre.at(r0 + 2, c) is Some
}

impl Grid {
    /// One refill pass: scanning the board in row-major order, every empty
    /// cell of a column whose last-scanned row is still empty receives a
    /// fresh piece, colored by the placement rule so that it completes no
    /// run with the pair to its left or the pair below it.
    pub fn refill_columns(&mut self)
        requires
            old(self).wf(),
        ensures
            final(self).wf(),
            refill_rel(*old(self), *final(self)),
    {
        let mut row: usize = 0;
        while row < self.height
            invariant
                self.wf(),
                old(self).wf(),
                self.width == old(self).width,
                self.height == old(self).height,
                row <= self.height,
                forall|r: int, c: int|
                    old(self).in_bounds(r, c) && old(self).at(r, c) is Some ==> #[trigger] self.at(
                        r,
                        c,
                    ) == old(self).at(r, c) && self.handle_at(r, c) == old(self).handle_at(r, c),
                forall|r: int, c: int|
                    old(self).in_bounds(r, c) && old(self).at(r, c) is None && (!eligible(
                        *old(self),
                        c,
                    ) || r >= row) ==> #[trigger] self.at(r, c) is None,
                forall|r: int, c: int|
                    old(self).in_bounds(r, c) && old(self).at(r, c) is None && eligible(
                        *old(self),
                        c,
                    ) && r < row ==> match #[trigger] self.at(r, c) {
                        Some(p) => !p.matched && palette().contains(p.color),
                        None => false,
                    },
                forall|r: int, c0: int| #[trigger]
                    mono_h(*self, r, c0) ==> old(self).at(r, c0 + 2) is Some,
                forall|r0: int, c: int| #[trigger]
                    mono_v(*self, r0, c) ==> old(self).at(r0 + 2, c) is Some,
            decreases self.height - row,
        {
            let mut col: usize = 0;
            while col < self.width
                invariant
                    self.wf(),
                    old(self).wf(),
                    self.width == old(self).width,
                    self.height == old(self).height,
                    row < self.height,
                    col <= self.width,
                    forall|r: int, c: int|
                        old(self).in_bounds(r, c) && old(self).at(r, c) is Some ==> #[trigger] self
                            .at(r, c) == old(self).at(r, c) && self.handle_at(r, c) == old(
                            self,
                        ).handle_at(r, c),
                    forall|r: int, c: int|
                        old(self).in_bounds(r, c) && old(self).at(r, c) is None && (!eligible(
                            *old(self),
                            c,
                        ) || r > row || (r == row && c >= col)) ==> #[trigger] self.at(r, c) is None,
                    forall|r: int, c: int|
                        old(self).in_bounds(r, c) && old(self).at(r, c) is None && eligible(
                            *old(self),
                            c,
                        ) && (r < row || (r == row && c < col)) ==> match #[trigger] self.at(r, c) {
                            Some(p) => !p.matched && palette().contains(p.color),
                            None => false,
                        },
                    forall|r: int, c0: int| #[trigger]
                        mono_h(*self, r, c0) ==> old(self).at(r, c0 + 2) is Some,
                    forall|r0: int, c: int| #[trigger]
                        mono_v(*self, r0, c) ==> old(self).at(r0 + 2, c) is Some,
                decreases self.width - col,
            {
                let bottom_open = match self.cell[self.height - 1][col] {
                    None => true,
                    Some(_) => false,
                };
                let here_open = match self.cell[row][col] {
                    None => true,
                    Some(_) => false,
                };
                if bottom_open && here_open {
                    proof {
                        assert(old(self).at(row as int, col as int) is None);
                        assert(eligible(*old(self), col as int)) by {
                            if old(self).at(self.height - 1, col as int) is Some {
                                assert(self.at(self.height - 1, col as int) is Some);
                            }
                        }
                    }
                    let ghost pre = *self;
                    let l = self.blocked_left(row, col);
                    let b = self.blocked_below(row, col);
                    let color = choose_color(l, b);
                    self.set_piece(row, col, color);
                    proof {
                        assert forall|r: int, c: int|
                            pre.in_bounds(r, c) && !(r == row && c == col) implies color_at(
                            *self,
                            r,
                            c,
                        ) == color_at(pre, r, c) by {}
                        assert forall|r: int, c0: int| #[trigger]
                            mono_h(*self, r, c0) implies old(self).at(r, c0 + 2) is Some by {
                            if r == row && c0 == col - 2 {
                                assert(color_at(*self, r, c0) == color_at(pre, r, c0));
                                assert(color_at(*self, r, c0 + 1) == color_at(pre, r, c0 + 1));
                                assert(color_at(*self, row as int, col as int) == Some(color));
                                assert(left_block(pre, row as int, col as int) == Some(color));
                                assert(false);
                            } else if r == row && (c0 == col - 1 || c0 == col) {
                                let cl = c0 + 2;
                                assert(color_at(*self, r, cl) == color_at(pre, r, cl));
                                assert(pre.at(r, cl) is Some);
                                assert(old(self).at(r, cl) is Some) by {
                                    if old(self).at(r, cl) is None {
                                        assert(pre.at(r, cl) is None);
                                    }
                                }
                            } else {
                                assert(color_at(*self, r, c0) == color_at(pre, r, c0));
                                assert(color_at(*self, r, c0 + 1) == color_at(pre, r, c0 + 1));
                                assert(color_at(*self, r, c0 + 2) == color_at(pre, r, c0 + 2));
                                assert(mono_h(pre, r, c0));
                            }
                        }
                        assert forall|r0: int, c: int| #[trigger]
                            mono_v(*self, r0, c) implies old(self).at(r0 + 2, c) is Some by {
                            if c == col && r0 == row - 2 {
                                assert(color_at(*self, r0, c) == color_at(pre, r0, c));
                                assert(color_at(*self, r0 + 1, c) == color_at(pre, r0 + 1, c));
                                assert(color_at(*self, row as int, col as int) == Some(color));
                                assert(below_block(pre, row as int, col as int) == Some(color));
                                assert(false);
                            } else if c == col && (r0 == row - 1 || r0 == row) {
                                let rl = r0 + 2;
                                assert(color_at(*self, rl, c) == color_at(pre, rl, c));
                                assert(pre.at(rl, c) is Some);
                                assert(old(self).at(rl, c) is Some) by {
                                    if old(self).at(rl, c) is None {
                                        assert(pre.at(rl, c) is None);
                                    }
                                }
                            } else {
                                assert(color_at(*self, r0, c) == color_at(pre, r0, c));
                                assert(color_at(*self, r0 + 1, c) == color_at(pre, r0 + 1, c));
                                assert(color_at(*self, r0 + 2, c) == color_at(pre, r0 + 2, c));
                                assert(mono_v(pre, r0, c));
                            }
                        }
                    }
                } else {
                    proof {
                        if old(self).at(row as int, col as int) is None && eligible(
                            *old(self),
                            col as int,
                        ) {
                            assert(self.at(row as int, col as int) is None);
                            assert(self.at(self.height - 1, col as int) is None) by {
                                assert(old(self).at(self.height - 1, col as int) is None);
                            }
                            assert(false);
                        }
                    }
                }
                col = col + 1;
            }
            row = row + 1;
        }
    }

    /// Builds and fills a fresh board: every cell receives a piece placed by
    /// the generation rule, so the finished board contains no three-in-a-row
    /// window at all.
    pub fn setup_grid(width: usize, height: usize) -> (g: Grid)
        requires
            1 <= width,
            1 <= height,
        ensures
            g.wf(),
            g.width == width,
            g.height == height,
            forall|r: int, c: int|
                g.in_bounds(r, c) ==> match #[trigger] g.at(r, c) {
                    Some(p) => !p.matched && palette().contains(p.color),
                    None => false,
                },
            forall|r: int, c0: int| !mono_h(g, r, c0),
            forall|r0: int, c: int| !mono_v(g, r0, c),
    {
        let mut g = Grid::new(width, height);
        let ghost empty = g;
        g.refill_columns();
        proof {
            assert forall|r: int, c0: int| !mono_h(g, r, c0) by {
                if mono_h(g, r, c0) {
                    assert(g.in_bounds(r, c0 + 2));
                    assert(empty.at(r, c0 + 2) is None);
                }
            }
            assert forall|r0: int, c: int| !mono_v(g, r0, c) by {
                if mono_v(g, r0, c) {
                    assert(g.in_bounds(r0 + 2, c));
                    assert(empty.at(r0 + 2, c) is None);
                }
            }
        }
        g
    }
}

} // verus!
