use vstd::prelude::*;

use crate::grid::Grid;
use crate::matching::match_phase_rel;
use crate::piece::BasePiece;
use crate::resources::AIMoveCount;
use crate::resources::AIMoveTimer;
use crate::resources::AIScore;
use crate::resources::CollapseTimer;
use crate::resources::CurrentPlayerTurn;
use crate::resources::DestroyPieceTimer;
use crate::resources::IntervalTimer;
use crate::resources::PieceController;
use crate::resources::PlayerMoveCount;
use crate::resources::PlayerScore;
use crate::resources::RefillColumnTimer;
use crate::resources::SwapBackEvent;
use crate::resources::SwapBackInfo;
use crate::resources::SwapPiecesEvent;
use crate::resources::Touch;
use crate::resources::spec_ticked;
use crate::resources::timer_fires;
use crate::search::AI;
use crate::swap::Direction;
use crate::swap::SwapRecord;
use crate::swap::swap_applied;

verus! {

/// The piece at `(r, c)` exists and is flagged as matched.
pub open spec fn matched_at(g: Grid, r: int, c: int) -> bool {
    match g.at(r, c) {
        Some(p) => p.matched,
        None => false,
    }
}

/// Some cell of the board is flagged as matched.
pub open spec fn any_matched(g: Grid) -> bool {
    exists|r: int, c: int| g.in_bounds(r, c) && #[trigger] matched_at(g, r, c)
}

/// What consuming one swap intent does to the board and the pending-undo
/// slot: rejected while a swap is already in flight; a valid swap applied
/// and the slot armed with the swapped pair; any failed attempt a no-op.
pub open spec fn swap_phase_rel(
    pre_g: Grid,
    pre_i: SwapBackInfo,
    ev: SwapPiecesEvent,
    post_g: Grid,
    post_i: SwapBackInfo,
) -> bool {
    if pre_i.armed {
        post_g == pre_g && post_i == pre_i
    } else {
        let t = ev.direction.spec_target(ev.row as int, ev.column as int);
        if pre_g.swap_ok(ev.row as int, ev.column as int, t.0, t.1) {
            &&& swap_applied(pre_g, post_g, ev.row as int, ev.column as int, t.0, t.1)
            &&& post_i == (SwapBackInfo {
                p1: (ev.row, ev.column),
                p2: (t.0 as usize, t.1 as usize),
                dir: ev.direction,
                armed: true,
            })
        } else {
            post_g == pre_g && post_i == pre_i
        }
    }
}

/// What consuming one swap-back event does: while the slot is armed the
/// recorded exchange is re-performed (where it still applies) and the slot
/// disarmed; otherwise nothing.
pub open spec fn swap_back_phase_rel(
    pre_g: Grid,
    pre_i: SwapBackInfo,
    ev: SwapBackEvent,
    post_g: Grid,
    post_i: SwapBackInfo,
) -> bool {
    if pre_i.armed {
        let t = ev.direction.spec_target(ev.row as int, ev.column as int);
        &&& post_i == (SwapBackInfo { armed: false, ..pre_i })
        &&& if pre_g.swap_ok(ev.row as int, ev.column as int, t.0, t.1) {
            swap_applied(pre_g, post_g, ev.row as int, ev.column as int, t.0, t.1)
        } else {
            post_g == pre_g
        }
    } else {
        post_g == pre_g && post_i == pre_i
    }
}

/// What one destroy pass does: every matched cell emptied with its handle;
/// the slot disarmed when something was destroyed, else untouched, with a
/// swap-back event raised exactly when nothing matched while a swap was
/// awaiting its verdict.
pub open spec fn destroy_phase_rel(
    pre_g: Grid,
    pre_i: SwapBackInfo,
    post_g: Grid,
    post_i: SwapBackInfo,
    ev: Option<SwapBackEvent>,
) -> bool {
    &&& post_g.width == pre_g.width
    &&& post_g.height == pre_g.height
    &&& post_g.next_handle == pre_g.next_handle
    &&& forall|r: int, c: int|
        pre_g.in_bounds(r, c) ==> #[trigger] post_g.at(r, c) == (if matched_at(pre_g, r, c) {
            None
        } else {
            pre_g.at(r, c)
        }) && post_g.handle_at(r, c) == (if matched_at(pre_g, r, c) {
            None
        } else {
            pre_g.handle_at(r, c)
        })
    &&& if any_matched(pre_g) {
        post_i == (SwapBackInfo { armed: false, ..pre_i }) && ev is None
    } else {
        post_i == pre_i && ev == (if pre_i.armed {
            Some(
                (SwapBackEvent {
                    row: pre_i.p2.0,
                    column: pre_i.p2.1,
                    direction: pre_i.dir.spec_inverse(),
                }),
            )
        } else {
            None
        })
    }
}

/// One destroy cadence: the destroy pass, followed by the swap-back its
/// event, if any, triggers.
pub open spec fn destroy_step_rel(
    pre_g: Grid,
    pre_i: SwapBackInfo,
    post_g: Grid,
    post_i: SwapBackInfo,
) -> bool {
    exists|mid_g: Grid, mid_i: SwapBackInfo, ev: Option<SwapBackEvent>|
        #![trigger destroy_phase_rel(pre_g, pre_i, mid_g, mid_i, ev)]
        destroy_phase_rel(pre_g, pre_i, mid_g, mid_i, ev) && match ev {
            Some(e) => swap_back_phase_rel(mid_g, mid_i, e, post_g, post_i),
            None => post_g == mid_g && post_i == mid_i,
        }
}

/// The destroy cadence when its timer fired this tick, else no change.
pub open spec fn destroy_step(
    pre_g: Grid,
    pre_i: SwapBackInfo,
    post_g: Grid,
    post_i: SwapBackInfo,
    ran: bool,
) -> bool {
    if ran {
        destroy_step_rel(pre_g, pre_i, post_g, post_i)
    } else {
        post_g == pre_g && post_i == pre_i
    }
}

/// The collapse cadence when its timer fired this tick, else no change.
pub open spec fn collapse_step(pre: Grid, post: Grid, ran: bool) -> bool {
    if ran {
        crate::collapse::collapsed_rel(pre, post)
    } else {
        post == pre
    }
}

/// The refill cadence when its timer fired this tick, else no change.
pub open spec fn refill_step(pre: Grid, post: Grid, ran: bool) -> bool {
    if ran {
        crate::generator::refill_rel(pre, post)
    } else {
        post == pre
    }
}

/// The resolution phases of one tick in their fixed order: destroy (with
/// its swap-back), then collapse, then refill, each gated by its own timer.
pub open spec fn resolution_rel(
    pre_g: Grid,
    pre_i: SwapBackInfo,
    post_g: Grid,
    post_i: SwapBackInfo,
    destroy_ran: bool,
    collapse_ran: bool,
    refill_ran: bool,
) -> bool {
    exists|g3: Grid, i3: SwapBackInfo, g4: Grid|
        #![trigger destroy_step(pre_g, pre_i, g3, i3, destroy_ran), collapse_step(
            g3,
            g4,
            collapse_ran,
        )]
        destroy_step(pre_g, pre_i, g3, i3, destroy_ran) && collapse_step(g3, g4, collapse_ran)
            && refill_step(g4, post_g, refill_ran) && post_i == i3
}

/// The queued swap intents consumed in order, each by `swap_phase_rel`.
pub open spec fn swaps_phase_rel(
    pre_g: Grid,
    pre_i: SwapBackInfo,
    evs: Seq<SwapPiecesEvent>,
    post_g: Grid,
    post_i: SwapBackInfo,
) -> bool
    decreases evs.len(),
{
    if evs.len() <= 0 {
        post_g == pre_g && post_i == pre_i
    } else {
        exists|mid_g: Grid, mid_i: SwapBackInfo|
            #![trigger swap_phase_rel(pre_g, pre_i, evs[0], mid_g, mid_i)]
            swap_phase_rel(pre_g, pre_i, evs[0], mid_g, mid_i) && swaps_phase_rel(
                mid_g,
                mid_i,
                evs.skip(1),
                post_g,
                post_i,
            )
    }
}

/// A chain of consumed intents extends at its end.
proof fn lemma_swaps_phase_snoc(
    g0: Grid,
    i0: SwapBackInfo,
    s: Seq<SwapPiecesEvent>,
    g1: Grid,
    i1: SwapBackInfo,
    e: SwapPiecesEvent,
    g2: Grid,
    i2: SwapBackInfo,
)
    requires
        swaps_phase_rel(g0, i0, s, g1, i1),
        swap_phase_rel(g1, i1, e, g2, i2),
    ensures
        swaps_phase_rel(g0, i0, s.push(e), g2, i2),
    decreases s.len(),
{
    let sp = s.push(e);
    if s.len() == 0 {
        assert(sp[0] == e);
        assert(sp.skip(1) =~= Seq::<SwapPiecesEvent>::empty());
        assert(swap_phase_rel(g0, i0, sp[0], g2, i2));
        assert(swaps_phase_rel(g2, i2, sp.skip(1), g2, i2));
    } else {
        let (mg, mi): (Grid, SwapBackInfo) = choose|mg: Grid, mi: SwapBackInfo|
            #![trigger swap_phase_rel(g0, i0, s[0], mg, mi)]
            swap_phase_rel(g0, i0, s[0], mg, mi) && swaps_phase_rel(mg, mi, s.skip(1), g1, i1);
        lemma_swaps_phase_snoc(mg, mi, s.skip(1), g1, i1, e, g2, i2);
        assert(sp[0] == s[0]);
        assert(sp.skip(1) =~= s.skip(1).push(e));
        assert(swap_phase_rel(g0, i0, sp[0], mg, mi));
    }
}

/// The automated side's part of one tick: when it ran, some search outcome
/// over the board decided whether an intent was queued and the counters
/// bumped; otherwise queue and counters are untouched.
pub open spec fn opponent_step(
    g: Grid,
    pre_moves: AIMoveCount,
    pre_score: AIScore,
    pre_q: Seq<SwapPiecesEvent>,
    post_moves: AIMoveCount,
    post_score: AIScore,
    post_q: Seq<SwapPiecesEvent>,
    ran: bool,
) -> bool {
    if ran {
        exists|r: Option<SwapPiecesEvent>|
            #![trigger crate::search::search_result_ok(g, r)]
            crate::search::search_result_ok(g, r) && match r {
                Some(ev) => post_q == pre_q.push(ev) && post_moves.0 == crate::resources::inc_sat(
                    pre_moves.0,
                ) && post_score.0 == crate::resources::inc_sat(pre_score.0),
                None => post_q == pre_q && post_moves == pre_moves && post_score == pre_score,
            }
    } else {
        post_q == pre_q && post_moves == pre_moves && post_score == pre_score
    }
}

impl Grid {
    /// Consumes one swap intent. While a swap is already in flight (the
    /// pending-undo slot is armed) the intent is rejected; otherwise the
    /// swap is attempted, and on success the slot is armed with the swapped
    /// pair for a possible later swap-back. A failed attempt is a no-op.
    pub fn swap_pieces(&mut self, ev: &SwapPiecesEvent, info: &mut SwapBackInfo) -> (r: Option<
        SwapRecord,
    >)
        requires
            old(self).wf(),
        ensures
            final(self).wf(),
            final(self).width == old(self).width,
            final(self).height == old(self).height,
            swap_phase_rel(*old(self), *old(info), *ev, *final(self), *final(info)),
            r is Some <==> (!old(info).armed && ({
                let t = ev.direction.spec_target(ev.row as int, ev.column as int);
                old(self).swap_ok(ev.row as int, ev.column as int, t.0, t.1)
            })),
            match r {
                Some(rec) => {
                    &&& rec.pos1 == (ev.row, ev.column)
                    &&& (rec.pos2.0 as int, rec.pos2.1 as int) == ev.direction.spec_target(
                        ev.row as int,
                        ev.column as int,
                    )
                    &&& rec.direction == ev.direction
                },
                None => true,
            },
    {
        if info.armed {
            return None;
        }
        match self.attempt_swap(ev.row, ev.column, ev.direction) {
            Ok(rec) => {
                *info = SwapBackInfo {
                    p1: rec.pos1,
                    p2: rec.pos2,
                    dir: rec.direction,
                    armed: true,
                };
                Some(rec)
            },
            Err(_) => None,
        }
    }

    /// Consumes a swap-back event: while the pending-undo slot is armed, the
    /// recorded swap is re-performed through the same exchange routine (the
    /// event carries the inverse direction from the second endpoint) and the
    /// slot is disarmed; otherwise nothing happens.
    pub fn swap_back(&mut self, ev: &SwapBackEvent, info: &mut SwapBackInfo)
        requires
            old(self).wf(),
        ensures
            final(self).wf(),
            final(self).width == old(self).width,
            final(self).height == old(self).height,
            swap_back_phase_rel(*old(self), *old(info), *ev, *final(self), *final(info)),
    {
        if info.armed {
            let _ = self.attempt_swap(ev.row, ev.column, ev.direction);
            info.armed = false;
        }
    }
}

impl BasePiece {
    /// The destroy phase: every matched piece is removed from the board
    /// together with its presentation handle, and finding one disarms the
    /// pending-undo slot (the swap proved productive). If no matched piece
    /// existed and a swap is still awaiting its verdict, a swap-back event
    /// is returned, reproducing the swap's inverse direction at its second
    /// endpoint; the slot stays armed for `swap_back` to consume.
    pub fn destroy_match(grid: &mut Grid, info: &mut SwapBackInfo) -> (ev: Option<SwapBackEvent>)
        requires
            old(grid).wf(),
        ensures
            final(grid).wf(),
            destroy_phase_rel(*old(grid), *old(info), *final(grid), *final(info), ev),
    {
        let mut found = false;
        let mut r: usize = 0;
        while r < grid.height
            invariant
                grid.wf(),
                old(grid).wf(),
                grid.width == old(grid).width,
                grid.height == old(grid).height,
                grid.next_handle == old(grid).next_handle,
                r <= grid.height,
                *info == *old(info),
                forall|i: int, j: int|
                    old(grid).in_bounds(i, j) && i < r ==> #[trigger] grid.at(i, j) == (
                    if matched_at(*old(grid), i, j) {
                        None
                    } else {
                        old(grid).at(i, j)
                    }) && grid.handle_at(i, j) == (if matched_at(*old(grid), i, j) {
                        None
                    } else {
                        old(grid).handle_at(i, j)
                    }),
                forall|i: int, j: int|
                    old(grid).in_bounds(i, j) && i >= r ==> #[trigger] grid.at(i, j) == old(
                        grid,
                    ).at(i, j) && grid.handle_at(i, j) == old(grid).handle_at(i, j),
                found ==> any_matched(*old(grid)),
                !found ==> forall|i: int, j: int|
                    old(grid).in_bounds(i, j) && i < r ==> !(#[trigger] matched_at(
                        *old(grid),
                        i,
                        j,
                    )),
            decreases grid.height - r,
        {
            let mut c: usize = 0;
            while c < grid.width
                invariant
                    grid.wf(),
                    old(grid).wf(),
                    grid.width == old(grid).width,
                    grid.height == old(grid).height,
                    grid.next_handle == old(grid).next_handle,
                    r < grid.height,
                    c <= grid.width,
                    *info == *old(info),
                    forall|i: int, j: int|
                        old(grid).in_bounds(i, j) && (i < r || (i == r && j < c))
                            ==> #[trigger] grid.at(i, j) == (if matched_at(*old(grid), i, j) {
                            None
                        } else {
                            old(grid).at(i, j)
                        }) && grid.handle_at(i, j) == (if matched_at(*old(grid), i, j) {
                            None
                        } else {
                            old(grid).handle_at(i, j)
                        }),
                    forall|i: int, j: int|
                        old(grid).in_bounds(i, j) && (i > r || (i == r && j >= c))
                            ==> #[trigger] grid.at(i, j) == old(grid).at(i, j) && grid.handle_at(
                            i,
                            j,
                        ) == old(grid).handle_at(i, j),
                    found ==> any_matched(*old(grid)),
                    !found ==> forall|i: int, j: int|
                        old(grid).in_bounds(i, j) && (i < r || (i == r && j < c)) ==> !(
                        #[trigger] matched_at(*old(grid), i, j)),
                decreases grid.width - c,
            {
                match grid.cell[r][c] {
                    Some(p) => {
                        if p.matched {
                            proof {
                                assert(grid.at(r as int, c as int) == old(grid).at(
                                    r as int,
                                    c as int,
                                ));
                                assert(matched_at(*old(grid), r as int, c as int));
                                assert(any_matched(*old(grid)));
                            }
                            grid.put(r, c, None, None);
                            found = true;
                        } else {
                            proof {
                                assert(grid.at(r as int, c as int) == old(grid).at(
                                    r as int,
                                    c as int,
                                ));
                                assert(!matched_at(*old(grid), r as int, c as int));
                            }
                        }
                    },
                    None => {
                        proof {
                            assert(grid.at(r as int, c as int) == old(grid).at(r as int, c as int));
                            assert(!matched_at(*old(grid), r as int, c as int));
                        }
                    },
                }
                c = c + 1;
            }
            r = r + 1;
        }
        if found {
            info.armed = false;
            proof {
                assert forall|i: int, j: int|
                    old(grid).in_bounds(i, j) implies #[trigger] grid.at(i, j) == (if matched_at(
                    *old(grid),
                    i,
                    j,
                ) {
                    None
                } else {
                    old(grid).at(i, j)
                }) by {}
            }
            None
        } else {
            proof {
                assert(!any_matched(*old(grid)));
            }
            if info.armed {
                Some(
                    SwapBackEvent {
                        row: info.p2.0,
                        column: info.p2.1,
                        direction: info.dir.inverse(),
                    },
                )
            } else {
                None
            }
        }
    }
}

/// The direction of the swap intent a press-release gesture encodes: the
/// dominant axis of the displacement `last - first`, rounded to a unit
/// direction with the displacement's sign; the row axis wins a tie, and a
/// zero displacement yields no intent.
pub open spec fn spec_intent_dir(first: (i32, i32), last: (i32, i32)) -> Option<Direction> {
    let dr = last.0 - first.0;
    let dc = last.1 - first.1;
    let adr = if dr < 0 {
        -dr
    } else {
        dr
    };
    let adc = if dc < 0 {
        -dc
    } else {
        dc
    };
    if dr == 0 && dc == 0 {
        None
    } else if adr >= adc {
        Some(
            if dr > 0 {
                Direction::Up
            } else {
                Direction::Down
            },
        )
    } else {
        Some(
            if dc > 0 {
                Direction::Right
            } else {
                Direction::Left
            },
        )
    }
}

/// Derives the swap intent of a press-release gesture; the displacement is
/// computed in a wider type, so arbitrarily distant points are safe.
pub fn intent_dir(first: (i32, i32), last: (i32, i32)) -> (d: Option<Direction>)
    ensures
        d == spec_intent_dir(first, last),
{
    let dr: i64 = (last.0 as i64) - (first.0 as i64);
    let dc: i64 = (last.1 as i64) - (first.1 as i64);
    let adr: i64 = if dr < 0 {
        -dr
    } else {
        dr
    };
    let adc: i64 = if dc < 0 {
        -dc
    } else {
        dc
    };
    if dr == 0 && dc == 0 {
        None
    } else if adr >= adc {
        if dr > 0 {
            Some(Direction::Up)
        } else {
            Some(Direction::Down)
        }
    } else {
        if dc > 0 {
            Some(Direction::Right)
        } else {
            Some(Direction::Left)
        }
    }
}

/// The whole rule-engine state of one game: the board, the single
/// pending-undo slot, pointer-gesture state, both sides' counters, the
/// interval timers gating each phase, the turn marker and the queue of swap
/// intents awaiting the next tick.
pub struct GameSession {
    pub grid: Grid,
    pub info: SwapBackInfo,
    pub touch: Touch,
    pub controller: PieceController,
    pub player_moves: PlayerMoveCount,
    pub ai_moves: AIMoveCount,
    pub player_score: PlayerScore,
    pub ai_score: AIScore,
    pub collapse_timer: CollapseTimer,
    pub destroy_timer: DestroyPieceTimer,
    pub refill_timer: RefillColumnTimer,
    pub ai_timer: AIMoveTimer,
    pub turn: CurrentPlayerTurn,
    pub pending: Vec<SwapPiecesEvent>,
}

impl GameSession {
    pub open spec fn wf(self) -> bool {
        &&& self.grid.wf()
        &&& self.collapse_timer.0.wf()
        &&& self.destroy_timer.0.wf()
        &&& self.refill_timer.0.wf()
        &&& self.ai_timer.0.wf()
    }

    /// A fresh session: a generated board with no pre-existing match, a
    /// disarmed undo slot, zeroed counters, the phase timers at their
    /// cadences, and the human side to move.
    pub fn new() -> (s: GameSession)
        ensures
            s.wf(),
            s.grid.width == crate::GRID_WIDTH,
            s.grid.height == crate::GRID_HEIGHT,
            !s.info.armed,
            !s.controller.controlling,
            s.player_moves.0 == 0,
            s.ai_moves.0 == 0,
            s.player_score.0 == 0,
            s.ai_score.0 == 0,
            s.turn == CurrentPlayerTurn::Player,
            s.pending@.len() == 0,
            forall|r: int, c0: int| !crate::matching::mono_h(s.grid, r, c0),
            forall|r0: int, c: int| !crate::matching::mono_v(s.grid, r0, c),
    {
        GameSession {
            grid: Grid::setup_grid(crate::GRID_WIDTH, crate::GRID_HEIGHT),
            info: SwapBackInfo::new(),
            touch: Touch { first: (0, 0), last: (0, 0) },
            controller: PieceController { controlling: false },
            player_moves: PlayerMoveCount(0),
            ai_moves: AIMoveCount(0),
            player_score: PlayerScore(0),
            ai_score: AIScore(0),
            collapse_timer: CollapseTimer(IntervalTimer::new(1000)),
            destroy_timer: DestroyPieceTimer(IntervalTimer::new(800)),
            refill_timer: RefillColumnTimer(IntervalTimer::new(1400)),
            ai_timer: AIMoveTimer(IntervalTimer::new(3000)),
            turn: CurrentPlayerTurn::Player,
            pending: Vec::new(),
        }
    }

    /// Hands the turn to the given side.
    pub fn set_turn(&mut self, turn: CurrentPlayerTurn)
        requires
            old(self).wf(),
        ensures
            final(self).wf(),
            *final(self) == (GameSession { turn, ..*old(self) }),
    {
        self.turn = turn;
    }

    /// A pointer press at translated grid coordinates: remembered as the
    /// gesture's start, and tracking begins if it lies on the board. Ignored
    /// unless the human side is to move.
    pub fn pointer_pressed(&mut self, row: i32, col: i32)
        requires
            old(self).wf(),
        ensures
            final(self).wf(),
            old(self).turn != CurrentPlayerTurn::Player ==> *final(self) == *old(self),
            old(self).turn == CurrentPlayerTurn::Player ==> *final(self) == (GameSession {
                touch: Touch { first: (row, col), last: old(self).touch.last },
                controller: PieceController {
                    controlling: old(self).controller.controlling || (0 <= row && (row as int)
                        < old(self).grid.height && 0 <= col && (col as int) < old(
                        self,
                    ).grid.width),
                },
                ..*old(self)
            }),
    {
        if match self.turn {
            CurrentPlayerTurn::Player => true,
            CurrentPlayerTurn::AI => false,
        } {
            self.touch.first = (row, col);
            if self.grid.is_in_grid(row, col) {
                self.controller.controlling = true;
            }
        }
    }

    /// A pointer release at translated grid coordinates: remembered as the
    /// gesture's end; if it lands on the board while a press is being
    /// tracked, tracking ends and the gesture's swap intent, if any, is
    /// queued for the next tick. Ignored unless the human side is to move.
    pub fn pointer_released(&mut self, row: i32, col: i32)
        requires
            old(self).wf(),
        ensures
            final(self).wf(),
            old(self).turn != CurrentPlayerTurn::Player ==> *final(self) == *old(self),
            old(self).turn == CurrentPlayerTurn::Player ==> ({
                let in_grid = 0 <= row && (row as int) < old(self).grid.height && 0 <= col && (
                col as int) < old(self).grid.width;
                let first = old(self).touch.first;
                let first_in_grid = 0 <= first.0 && (first.0 as int) < old(self).grid.height && 0
                    <= first.1 && (first.1 as int) < old(self).grid.width;
                &&& final(self).touch.first == first
                &&& final(self).touch.last == (row, col)
                &&& final(self).grid == old(self).grid
                &&& final(self).info == old(self).info
                &&& final(self).turn == old(self).turn
                &&& if in_grid && old(self).controller.controlling {
                    &&& final(self).controller.controlling == false
                    &&& if first_in_grid && spec_intent_dir(first, (row, col)) is Some {
                        final(self).pending@ == old(self).pending@.push(
                            (SwapPiecesEvent {
                                row: first.0 as usize,
                                column: first.1 as usize,
                                direction: spec_intent_dir(first, (row, col)).unwrap(),
                            }),
                        )
                    } else {
                        final(self).pending@ == old(self).pending@
                    }
                } else {
                    &&& final(self).controller.controlling == old(self).controller.controlling
                    &&& final(self).pending@ == old(self).pending@
                }
            }),
    {
        if match self.turn {
            CurrentPlayerTurn::Player => true,
            CurrentPlayerTurn::AI => false,
        } {
            self.touch.last = (row, col);
            if self.grid.is_in_grid(row, col) && self.controller.controlling {
                self.controller.controlling = false;
                let first = self.touch.first;
                if self.grid.is_in_grid(first.0, first.1) {
                    match intent_dir(first, (row, col)) {
                        Some(d) => {
                            self.pending.push(
                                SwapPiecesEvent {
                                    row: first.0 as usize,
                                    column: first.1 as usize,
                                    direction: d,
                                },
                            );
                        },
                        None => {},
                    }
                }
            }
        }
    }

    /// One tick of the cooperative loop, advanced by `delta` of elapsed
    /// time: the automated side (when it holds the turn and its timer
    /// elapses) issues its searched intent; queued intents are swapped;
    /// matches are flagged; on the destroy cadence matched pieces are
    /// removed or an unproductive swap is rolled back; on their own cadences
    /// columns collapse and refill. Phases run strictly in this order and
    /// share the one board by exclusive mutation; the final board, undo
    /// slot and counters are the in-order composition of the phase
    /// relations.
    pub fn tick(&mut self, delta: u32)
        requires
            old(self).wf(),
        ensures
            final(self).wf(),
            final(self).grid.width == old(self).grid.width,
            final(self).grid.height == old(self).grid.height,
            final(self).turn == old(self).turn,
            final(self).touch == old(self).touch,
            final(self).controller == old(self).controller,
            final(self).pending@.len() == 0,
            final(self).player_moves == old(self).player_moves,
            final(self).player_score == old(self).player_score,
            final(self).collapse_timer.0 == spec_ticked(old(self).collapse_timer.0, delta),
            final(self).destroy_timer.0 == spec_ticked(old(self).destroy_timer.0, delta),
            final(self).refill_timer.0 == spec_ticked(old(self).refill_timer.0, delta),
            old(self).turn == CurrentPlayerTurn::Player ==> final(self).ai_timer == old(
                self,
            ).ai_timer && final(self).ai_moves == old(self).ai_moves && final(self).ai_score
                == old(self).ai_score,
            old(self).turn == CurrentPlayerTurn::AI ==> final(self).ai_timer.0 == spec_ticked(
                old(self).ai_timer.0,
                delta,
            ),
            ({
                let pre = *old(self);
                let ai_ran = pre.turn == CurrentPlayerTurn::AI && timer_fires(
                    pre.ai_timer.0,
                    delta,
                );
                exists|queue: Seq<SwapPiecesEvent>, g1: Grid, i1: SwapBackInfo, g2: Grid|
                    #![trigger swaps_phase_rel(pre.grid, pre.info, queue, g1, i1), match_phase_rel(
                        g1,
                        g2,
                    )]
                    {
                        &&& opponent_step(
                            pre.grid,
                            pre.ai_moves,
                            pre.ai_score,
                            pre.pending@,
                            final(self).ai_moves,
                            final(self).ai_score,
                            queue,
                            ai_ran,
                        )
                        &&& swaps_phase_rel(pre.grid, pre.info, queue, g1, i1)
                        &&& match_phase_rel(g1, g2)
                        &&& resolution_rel(
                            g2,
                            i1,
                            final(self).grid,
                            final(self).info,
                            timer_fires(pre.destroy_timer.0, delta),
                            timer_fires(pre.collapse_timer.0, delta),
                            timer_fires(pre.refill_timer.0, delta),
                        )
                    }
            }),
    {
        let ghost ai_ran = (self.turn == CurrentPlayerTurn::AI) && timer_fires(
            self.ai_timer.0,
            delta,
        );
        if match self.turn {
            CurrentPlayerTurn::AI => true,
            CurrentPlayerTurn::Player => false,
        } {
            let fired = self.ai_timer.0.tick(delta);
            if fired {
                let found = AI::find_possible_match(
                    &self.grid,
                    &mut self.ai_moves,
                    &mut self.ai_score,
                );
                let ghost found_g = found;
                match found {
                    Some(ev) => {
                        self.pending.push(ev);
                    },
                    None => {},
                }
                proof {
                    assert(crate::search::search_result_ok(old(self).grid, found_g));
                }
            }
        }
        let ghost queue0 = self.pending@;
        let ghost ai_snap = (self.ai_timer, self.ai_moves, self.ai_score);
        proof {
            assert(opponent_step(
                old(self).grid,
                old(self).ai_moves,
                old(self).ai_score,
                old(self).pending@,
                self.ai_moves,
                self.ai_score,
                queue0,
                ai_ran,
            ));
        }
        let ghost g0d = self.grid;
        let ghost i0d = self.info;
        let ghost mut done: Seq<SwapPiecesEvent> = Seq::empty();
        proof {
            assert(queue0 =~= done + queue0);
        }
        while self.pending.len() > 0
            invariant
                self.grid.wf(),
                self.collapse_timer.0.wf(),
                self.destroy_timer.0.wf(),
                self.refill_timer.0.wf(),
                self.ai_timer.0.wf(),
                self.grid.width == old(self).grid.width,
                self.grid.height == old(self).grid.height,
                self.turn == old(self).turn,
                self.touch == old(self).touch,
                self.controller == old(self).controller,
                self.player_moves == old(self).player_moves,
                self.player_score == old(self).player_score,
                self.collapse_timer == old(self).collapse_timer,
                self.destroy_timer == old(self).destroy_timer,
                self.refill_timer == old(self).refill_timer,
                self.ai_timer == ai_snap.0,
                self.ai_moves == ai_snap.1,
                self.ai_score == ai_snap.2,
                g0d == old(self).grid,
                i0d == old(self).info,
                queue0 == done + self.pending@,
                swaps_phase_rel(g0d, i0d, done, self.grid, self.info),
            decreases self.pending@.len(),
        {
            let ghost gprev = self.grid;
            let ghost iprev = self.info;
            let ghost pending_prev = self.pending@;
            let ev = self.pending.remove(0);
            let _ = self.grid.swap_pieces(&ev, &mut self.info);
            proof {
                assert(swap_phase_rel(gprev, iprev, ev, self.grid, self.info));
                lemma_swaps_phase_snoc(g0d, i0d, done, gprev, iprev, ev, self.grid, self.info);
                done = done.push(ev);
                assert(done + self.pending@ =~= queue0);
            }
        }
        proof {
            assert(done + self.pending@ =~= done);
            assert(swaps_phase_rel(old(self).grid, old(self).info, queue0, self.grid, self.info));
        }
        let ghost g1v = self.grid;
        let ghost i1v = self.info;
        self.grid.find_match();
        let ghost g2v = self.grid;
        let destroy_fired = self.destroy_timer.0.tick(delta);
        if destroy_fired {
            let back = BasePiece::destroy_match(&mut self.grid, &mut self.info);
            let ghost backg = back;
            let ghost midg = self.grid;
            let ghost midi = self.info;
            proof {
                assert(destroy_phase_rel(g2v, i1v, midg, midi, backg));
            }
            match back {
                Some(ev) => {
                    self.grid.swap_back(&ev, &mut self.info);
                    proof {
                        assert(swap_back_phase_rel(midg, midi, ev, self.grid, self.info));
                    }
                },
                None => {},
            }
            proof {
                assert(destroy_step_rel(g2v, i1v, self.grid, self.info));
            }
        }
        let ghost g3v = self.grid;
        let ghost i3v = self.info;
        let collapse_fired = self.collapse_timer.0.tick(delta);
        if collapse_fired {
            self.grid.collapse_column();
        }
        let ghost g4v = self.grid;
        let refill_fired = self.refill_timer.0.tick(delta);
        if refill_fired {
            self.grid.refill_columns();
        }
        proof {
            assert(destroy_step(
                g2v,
                i1v,
                g3v,
                i3v,
                timer_fires(old(self).destroy_timer.0, delta),
            ));
            assert(collapse_step(g3v, g4v, timer_fires(old(self).collapse_timer.0, delta)));
            assert(refill_step(g4v, self.grid, timer_fires(old(self).refill_timer.0, delta)));
            assert(resolution_rel(
                g2v,
                i1v,
                self.grid,
                self.info,
                timer_fires(old(self).destroy_timer.0, delta),
                timer_fires(old(self).collapse_timer.0, delta),
                timer_fires(old(self).refill_timer.0, delta),
            ));
            assert(match_phase_rel(g1v, g2v));
            assert(opponent_step(
                old(self).grid,
                old(self).ai_moves,
                old(self).ai_score,
                old(self).pending@,
                self.ai_moves,
                self.ai_score,
                queue0,
                ai_ran,
            ));
        }
    }
}

} // verus!
