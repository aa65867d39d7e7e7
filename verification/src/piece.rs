use vstd::prelude::*;

verus! {

/// The closed set of piece colors; equality is the only operation matching needs.
#[derive(Clone, Copy, PartialEq, Eq, Structural, Debug, Hash)]
pub enum BaseColor {
    Blue,
    Green,
    Yellow,
    Pink,
}

/// A piece on the board. `row`/`col` are the authoritative grid coordinates:
/// a piece stored at grid index `(r, c)` always carries `row == r, col == c`.
/// `matched` is set by the match detector and cleared when the piece is
/// destroyed or moved by collapse.
#[derive(Clone, Copy, PartialEq, Eq, Structural, Debug)]
pub struct BasePiece {
    pub row: usize,
    pub col: usize,
    pub color: BaseColor,
    pub matched: bool,
}

impl BasePiece {
    pub fn new(row: usize, col: usize, color: BaseColor) -> (p: BasePiece)
        ensures
            p == (BasePiece { row, col, color, matched: false }),
    {
        BasePiece { row, col, color, matched: false }
    }
}

/// The palette every generated piece draws its color from.
pub open spec fn palette() -> Seq<BaseColor> {
    seq![BaseColor::Blue, BaseColor::Pink, BaseColor::Green, BaseColor::Yellow]
}

/// The palette as an executable vector, in the same order as `palette()`.
pub fn base_colors() -> (v: Vec<BaseColor>)
    ensures
        v@ == palette(),
{
    let mut v: Vec<BaseColor> = Vec::new();
    v.push(BaseColor::Blue);
    v.push(BaseColor::Pink);
    v.push(BaseColor::Green);
    v.push(BaseColor::Yellow);
    proof {
        assert(v@ =~= palette());
    }
    v
}

} // verus!
