use vstd::prelude::*;

use crate::swap::Direction;

verus! {

/// A request to exchange the piece at `(row, column)` with its neighbor one
/// step along `direction`.
#[derive(Clone, Copy, PartialEq, Eq, Structural, Debug)]
pub struct SwapPiecesEvent {
    pub row: usize,
    pub column: usize,
    pub direction: Direction,
}

/// The automatic reversal of a swap that produced no match, issued from the
/// swap's second endpoint with the inverse direction.
#[derive(Clone, Copy, PartialEq, Eq, Structural, Debug)]
pub struct SwapBackEvent {
    pub row: usize,
    pub column: usize,
    pub direction: Direction,
}

/// The single pending-undo slot: the endpoints and direction of the one swap
/// that may be awaiting its match/no-match verdict. While `armed` is true no
/// new swap is accepted.
#[derive(Clone, Copy, Debug)]
pub struct SwapBackInfo {
    pub p1: (usize, usize),
    pub p2: (usize, usize),
    pub dir: Direction,
    pub armed: bool,
}

impl SwapBackInfo {
    /// An empty, disarmed slot.
    pub fn new() -> (s: SwapBackInfo)
        ensures
            !s.armed,
    {
        SwapBackInfo { p1: (0, 0), p2: (0, 0), dir: Direction::Up, armed: false }
    }
}

/// Whether a pointer press inside the board is currently being tracked.
#[derive(Clone, Copy, Debug)]
pub struct PieceController {
    pub controlling: bool,
}

/// The grid coordinates of the last pointer press and release; they may lie
/// outside the board.
#[derive(Clone, Copy, Debug)]
pub struct Touch {
    pub first: (i32, i32),
    pub last: (i32, i32),
}

#[derive(Clone, Copy, PartialEq, Eq, Structural, Debug)]
pub struct PlayerMoveCount(pub i32);

#[derive(Clone, Copy, PartialEq, Eq, Structural, Debug)]
pub struct AIMoveCount(pub i32);

#[derive(Clone, Copy, PartialEq, Eq, Structural, Debug)]
pub struct PlayerScore(pub i32);

#[derive(Clone, Copy, PartialEq, Eq, Structural, Debug)]
pub struct AIScore(pub i32);

/// `x + 1`, staying put at the largest value instead of overflowing.
pub open spec fn inc_sat(x: i32) -> i32 {
    if x == i32::MAX {
        x
    } else {
        (x + 1) as i32
    }
}

/// Increments a counter, saturating at the largest value.
pub fn bump(x: i32) -> (y: i32)
    ensures
        y == inc_sat(x),
{
    if x < i32::MAX {
        x + 1
    } else {
        x
    }
}

/// The timer's interval elapses within a tick of `delta`.
pub open spec fn timer_fires(t: IntervalTimer, delta: u32) -> bool {
    t.elapsed + delta >= t.interval
}

/// What one `tick` call leaves behind: the elapsed time accumulates, and
/// wraps around keeping the excess when it reaches the interval.
pub open spec fn spec_ticked(t: IntervalTimer, delta: u32) -> IntervalTimer {
    if t.elapsed + delta >= t.interval {
        IntervalTimer {
            interval: t.interval,
            elapsed: ((t.elapsed + delta) % (t.interval as int)) as u64,
        }
    } else {
        IntervalTimer { interval: t.interval, elapsed: (t.elapsed + delta) as u64 }
    }
}

/// Explicit interval state for a repeating timer-gated phase: `elapsed` time
/// accumulates via `tick` and the phase runs each time it reaches
/// `interval`.
#[derive(Clone, Copy, Debug)]
pub struct IntervalTimer {
    pub interval: u32,
    pub elapsed: u64,
}

impl IntervalTimer {
    pub open spec fn wf(self) -> bool {
        0 < self.interval && self.elapsed < self.interval
    }

    pub fn new(interval: u32) -> (t: IntervalTimer)
        requires
            0 < interval,
        ensures
            t.wf(),
            t.interval == interval,
            t.elapsed == 0,
    {
        IntervalTimer { interval, elapsed: 0 }
    }

    /// Advances the timer by `delta`; the result says whether the interval
    /// elapsed, in which case the timer wraps around and keeps the excess.
    pub fn tick(&mut self, delta: u32) -> (fired: bool)
        requires
            old(self).wf(),
        ensures
            final(self).wf(),
            fired == timer_fires(*old(self), delta),
            *final(self) == spec_ticked(*old(self), delta),
    {
        let sum: u64 = self.elapsed + (delta as u64);
        if sum >= self.interval as u64 {
            self.elapsed = sum % (self.interval as u64);
            true
        } else {
            self.elapsed = sum;
            false
        }
    }
}

#[derive(Clone, Copy, Debug)]
pub struct SwapBackTimer(pub IntervalTimer);

#[derive(Clone, Copy, Debug)]
pub struct RefillColumnTimer(pub IntervalTimer);

#[derive(Clone, Copy, Debug)]
pub struct CollapseTimer(pub IntervalTimer);

#[derive(Clone, Copy, Debug)]
pub struct DestroyPieceTimer(pub IntervalTimer);

#[derive(Clone, Copy, Debug)]
pub struct AIMoveTimer(pub IntervalTimer);

/// Which side may issue swap intents this tick; externally switchable.
#[derive(Clone, Copy, PartialEq, Eq, Structural, Debug)]
pub enum CurrentPlayerTurn {
    Player,
    AI,
}

} // verus!
