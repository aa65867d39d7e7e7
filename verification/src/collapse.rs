use vstd::prelude::*;

use crate::grid::Grid;
use crate::piece::BasePiece;

verus! {

/// The (piece, handle) pairs of column `c` in rows `[0, r)`, in row order.
pub open spec fn col_entries_upto(g: Grid, c: int, r: int) -> Seq<(BasePiece, u64)>
    decreases r,
{
    if r <= 0 {
        Seq::empty()
    } else {
        col_entries_upto(g, c, r - 1) + (match g.at(r - 1, c) {
            Some(p) => seq![(p, g.handle_at(r - 1, c).unwrap())],
            None => Seq::<(BasePiece, u64)>::empty(),
        })
    }
}

/// The surviving pieces of column `c` with their handles, bottom-up.
pub open spec fn col_entries(g: Grid, c: int) -> Seq<(BasePiece, u64)> {
    col_entries_upto(g, c, g.height as int)
}

/// How many empty cells column `c` has in rows `[0, r)`.
pub open spec fn holes_below(g: Grid, c: int, r: int) -> int
    decreases r,
{
    if r <= 0 {
        0
    } else {
        holes_below(g, c, r - 1) + if g.at(r - 1, c) is None {
            1int
        } else {
            0int
        }
    }
}

/// The `i`-th surviving piece of a column as collapse leaves it: re-tagged to
/// row `i`, `matched` cleared when the piece moved.
pub open spec fn collapsed_piece(p: BasePiece, i: int, c: int) -> BasePiece {
    BasePiece {
        row: i as usize,
        col: c as usize,
        color: p.color,
        matched: if p.row == i {
            p.matched
        } else {
            false
        },
    }
}

/// What one collapse pass does: in every column the surviving pieces are
/// compacted to the bottom in their original order, each piece re-tagged to
/// its new row, with `matched` cleared on every piece that moved; the rows
/// above them are empty.
pub open spec fn collapsed_rel(pre: Grid, post: Grid) -> bool {
    &&& post.width == pre.width
    &&& post.height == pre.height
    &&& post.next_handle == pre.next_handle
    &&& forall|c: int, i: int|
        0 <= c < pre.width && 0 <= i < col_entries(pre, c).len() ==> #[trigger] post.at(i, c)
            == Some(collapsed_piece(col_entries(pre, c)[i].0, i, c)) && post.handle_at(i, c)
            == Some(col_entries(pre, c)[i].1)
    &&& forall|c: int, i: int|
        0 <= c < pre.width && col_entries(pre, c).len() <= i < pre.height ==> #[trigger] post.at(
            i,
            c,
        ) is None
}

/// Column entries only mention rows `[0, r)`, so two boards that agree on a
/// column have the same entries.
proof fn lemma_col_entries_agree(g1: Grid, g2: Grid, c: int, r: int)
    requires
        forall|i: int| 0 <= i < r ==> #[trigger] g1.at(i, c) == g2.at(i, c) && g1.handle_at(i, c)
            == g2.handle_at(i, c),
    ensures
        col_entries_upto(g1, c, r) == col_entries_upto(g2, c, r),
    decreases r,
{
    if r > 0 {
        lemma_col_entries_agree(g1, g2, c, r - 1);
    }
}

/// On a well-formed board every column entry keeps its coordinate tags, and
/// a column of `r` rows has at most `r` entries.
proof fn lemma_col_entries_wf(g: Grid, c: int, r: int)
    requires
        g.wf(),
        0 <= c < g.width,
        0 <= r <= g.height,
    ensures
        col_entries_upto(g, c, r).len() + holes_below(g, c, r) == r,
        forall|i: int|
            0 <= i < col_entries_upto(g, c, r).len() ==> (#[trigger] col_entries_upto(g, c, r)[i]).0.col
                == c && 0 <= col_entries_upto(g, c, r)[i].0.row < r,
    decreases r,
{
    if r > 0 {
        lemma_col_entries_wf(g, c, r - 1);
        if g.at(r - 1, c) is Some {
            assert(g.at(r - 1, c).unwrap().row == r - 1 && g.at(r - 1, c).unwrap().col == c);
        }
    }
}

/// Extending the scanned range only appends entries: indices already present
/// keep their values.
proof fn lemma_col_entries_prefix(g: Grid, c: int, r1: int, r2: int)
    requires
        0 <= r1 <= r2,
    ensures
        col_entries_upto(g, c, r1).len() <= col_entries_upto(g, c, r2).len(),
        forall|i: int|
            0 <= i < col_entries_upto(g, c, r1).len() ==> #[trigger] col_entries_upto(g, c, r2)[i]
                == col_entries_upto(g, c, r1)[i],
    decreases r2 - r1,
{
    if r1 < r2 {
        lemma_col_entries_prefix(g, c, r1, r2 - 1);
    }
}

/// A piece at row `r` of column `c` sits at index `r - holes_below(g, c, r)`
/// of the column's entries.
proof fn lemma_entry_at_row(g: Grid, c: int, r: int)
    requires
        g.wf(),
        0 <= c < g.width,
        0 <= r < g.height,
        g.at(r, c) is Some,
    ensures
        ({
            let k = r - holes_below(g, c, r);
            &&& 0 <= k <= r
            &&& k < col_entries(g, c).len()
            &&& col_entries(g, c)[k] == (g.at(r, c).unwrap(), g.handle_at(r, c).unwrap())
        }),
{
    lemma_col_entries_wf(g, c, r);
    let k = r - holes_below(g, c, r);
    assert(col_entries_upto(g, c, r).len() == k);
    assert(holes_below(g, c, r) >= 0) by {
        lemma_holes_nonneg(g, c, r);
    }
    assert(col_entries_upto(g, c, r + 1)[k] == (g.at(r, c).unwrap(), g.handle_at(r, c).unwrap()));
    lemma_col_entries_prefix(g, c, r + 1, g.height as int);
}

proof fn lemma_holes_nonneg(g: Grid, c: int, r: int)
    ensures
        holes_below(g, c, r) >= 0,
    decreases r,
{
    if r > 0 {
        lemma_holes_nonneg(g, c, r - 1);
    }
}

/// Collapse moves each surviving piece down by exactly the number of holes
/// beneath it: the piece at row `r` of column `c` ends at row
/// `r - holes_below(pre, c, r)` with its color and handle, re-tagged, with
/// `matched` cleared if it moved.
pub proof fn lemma_collapse_moves_by_holes(pre: Grid, post: Grid, r: int, c: int)
    requires
        pre.wf(),
        collapsed_rel(pre, post),
        pre.in_bounds(r, c),
        pre.at(r, c) is Some,
    ensures
        ({
            let k = r - holes_below(pre, c, r);
            &&& 0 <= k <= r
            &&& post.at(k, c) == Some(collapsed_piece(pre.at(r, c).unwrap(), k, c))
            &&& post.handle_at(k, c) == pre.handle_at(r, c)
        }),
{
    lemma_entry_at_row(pre, c, r);
    let k = r - holes_below(pre, c, r);
    assert(col_entries(pre, c)[k] == (pre.at(r, c).unwrap(), pre.handle_at(r, c).unwrap()));
}

/// Collapse preserves the relative order of the surviving pieces of a
/// column: pieces at rows `r1 < r2` land at rows that compare the same way.
pub proof fn lemma_collapse_preserves_order(pre: Grid, c: int, r1: int, r2: int)
    requires
        pre.wf(),
        0 <= c < pre.width,
        0 <= r1 < r2 < pre.height,
        pre.at(r1, c) is Some,
        pre.at(r2, c) is Some,
    ensures
        r1 - holes_below(pre, c, r1) < r2 - holes_below(pre, c, r2),
{
    lemma_col_entries_wf(pre, c, r1);
    lemma_col_entries_wf(pre, c, r2);
    assert(col_entries_upto(pre, c, r1 + 1).len() == r1 - holes_below(pre, c, r1) + 1);
    lemma_col_entries_prefix(pre, c, r1 + 1, r2);
}

impl Grid {
    /// One collapse pass: every column is compacted toward row 0, each
    /// surviving piece moving down past the holes beneath it, keeping the
    /// pieces' relative order; a moved piece carries its color and handle
    /// and has `matched` cleared.
    pub fn collapse_column(&mut self)
        requires
            old(self).wf(),
        ensures
            final(self).wf(),
            collapsed_rel(*old(self), *final(self)),
    {
        let mut c: usize = 0;
        while c < self.width
            invariant
                self.wf(),
                old(self).wf(),
                self.width == old(self).width,
                self.height == old(self).height,
                self.next_handle == old(self).next_handle,
                c <= self.width,
                forall|cc: int, i: int|
                    0 <= cc < c && 0 <= i < col_entries(*old(self), cc).len() ==> #[trigger] self.at(
                        i,
                        cc,
                    ) == Some(collapsed_piece(col_entries(*old(self), cc)[i].0, i, cc))
                        && self.handle_at(i, cc) == Some(col_entries(*old(self), cc)[i].1),
                forall|cc: int, i: int|
                    0 <= cc < c && col_entries(*old(self), cc).len() <= i < self.height
                        ==> #[trigger] self.at(i, cc) is None,
                forall|r: int, cc: int|
                    old(self).in_bounds(r, cc) && c <= cc ==> #[trigger] self.at(r, cc) == old(
                        self,
                    ).at(r, cc) && self.handle_at(r, cc) == old(self).handle_at(r, cc),
            decreases self.width - c,
        {
            let ghost colpre = *self;
            let mut entries: Vec<(BasePiece, u64)> = Vec::new();
            let mut r: usize = 0;
            proof {
                assert(entries@ =~= col_entries_upto(colpre, c as int, 0));
            }
            while r < self.height
                invariant
                    *self == colpre,
                    self.wf(),
                    c < self.width,
                    r <= self.height,
                    entries@ == col_entries_upto(colpre, c as int, r as int),
                decreases self.height - r,
            {
                match self.cell[r][c] {
                    Some(p) => {
                        proof {
                            assert(self.at(r as int, c as int) is Some);
                            assert(self.handle_at(r as int, c as int) is Some);
                        }
                        match self.entities[r][c] {
                            Some(h) => {
                                entries.push((p, h));
                            },
                            None => {
                                proof {
                                    assert(false);
                                }
                            },
                        }
                    },
                    None => {},
                }
                proof {
                    assert(entries@ =~= col_entries_upto(colpre, c as int, r as int + 1));
                }
                r = r + 1;
            }
            proof {
                lemma_col_entries_wf(colpre, c as int, colpre.height as int);
                lemma_holes_nonneg(colpre, c as int, colpre.height as int);
                assert(entries@ == col_entries(colpre, c as int));
            }
            let mut r: usize = 0;
            while r < self.height
                invariant
                    self.wf(),
                    colpre.wf(),
                    self.width == colpre.width,
                    self.height == colpre.height,
                    self.next_handle == colpre.next_handle,
                    c < self.width,
                    r <= self.height,
                    entries@ == col_entries(colpre, c as int),
                    entries@.len() <= self.height,
                    forall|i: int|
                        0 <= i < entries@.len() ==> (#[trigger] entries@[i]).0.col == c,
                    forall|i: int|
                        0 <= i < r && i < entries@.len() ==> #[trigger] self.at(i, c as int)
                            == Some(collapsed_piece(entries@[i].0, i, c as int)) && self.handle_at(
                            i,
                            c as int,
                        ) == Some(entries@[i].1),
                    forall|i: int|
                        entries@.len() <= i < r ==> #[trigger] self.at(i, c as int) is None,
                    forall|rr: int, cc: int|
                        colpre.in_bounds(rr, cc) && cc != c ==> #[trigger] self.at(rr, cc)
                            == colpre.at(rr, cc) && self.handle_at(rr, cc) == colpre.handle_at(
                            rr,
                            cc,
                        ),
                decreases self.height - r,
            {
                if r < entries.len() {
                    let (p, h) = entries[r];
                    let matched = if p.row == r {
                        p.matched
                    } else {
                        false
                    };
                    self.put(
                        r,
                        c,
                        Some(BasePiece { row: r, col: c, color: p.color, matched }),
                        Some(h),
                    );
                } else {
                    self.put(r, c, None, None);
                }
                r = r + 1;
            }
            proof {
                lemma_col_entries_agree(*old(self), colpre, c as int, old(self).height as int);
                assert(col_entries(*old(self), c as int) == entries@);
                assert forall|cc: int, i: int|
                    0 <= cc <= c && 0 <= i < col_entries(*old(self), cc).len() implies #[trigger] self
                    .at(i, cc) == Some(collapsed_piece(col_entries(*old(self), cc)[i].0, i, cc))
                    && self.handle_at(i, cc) == Some(col_entries(*old(self), cc)[i].1) by {
                    lemma_col_entries_wf(*old(self), cc, old(self).height as int);
                    lemma_holes_nonneg(*old(self), cc, old(self).height as int);
                    if cc < c {
                        assert(colpre.at(i, cc) == Some(
                            collapsed_piece(col_entries(*old(self), cc)[i].0, i, cc),
                        ));
                        assert(self.at(i, cc) == colpre.at(i, cc));
                    }
                }
                assert forall|cc: int, i: int|
                    0 <= cc <= c && col_entries(*old(self), cc).len() <= i
                        < self.height implies #[trigger] self.at(i, cc) is None by {
                    if cc < c {
                        assert(colpre.at(i, cc) is None);
                        assert(self.at(i, cc) == colpre.at(i, cc));
                    }
                }
                assert forall|rr: int, cc: int|
                    old(self).in_bounds(rr, cc) && c + 1 <= cc implies #[trigger] self.at(rr, cc)
                    == old(self).at(rr, cc) && self.handle_at(rr, cc) == old(self).handle_at(
                    rr,
                    cc,
                ) by {
                    assert(self.at(rr, cc) == colpre.at(rr, cc));
                    assert(colpre.at(rr, cc) == old(self).at(rr, cc));
                }
            }
            c = c + 1;
        }
    }
}

} // verus!
