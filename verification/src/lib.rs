mod collapse;
mod generator;
mod grid;
mod helper;
mod matching;
mod piece;
mod resources;
mod search;
mod session;
mod swap;

pub use collapse::col_entries;
pub use collapse::col_entries_upto;
pub use collapse::collapsed_piece;
pub use collapse::collapsed_rel;
pub use collapse::holes_below;
pub use collapse::lemma_collapse_moves_by_holes;
pub use collapse::lemma_collapse_preserves_order;
pub use generator::below_block;
pub use generator::eligible;
pub use generator::left_block;
pub use generator::lemma_generated_board_unmatched;
pub use generator::lemma_refill_fresh_no_run_h;
pub use generator::lemma_refill_fresh_no_run_v;
pub use generator::refill_rel;
pub use grid::Grid;
pub use helper::remove_index;
pub use matching::centered_at;
pub use matching::color_at;
pub use matching::flag_applied;
pub use matching::h_run;
pub use matching::match_phase_rel;
pub use matching::lemma_flagged_implies_run;
pub use matching::lemma_run_implies_flagged_h;
pub use matching::lemma_run_implies_flagged_v;
pub use matching::mono_h;
pub use matching::mono_v;
pub use matching::part_of_run;
pub use matching::v_run;
pub use piece::BaseColor;
pub use piece::BasePiece;
pub use piece::base_colors;
pub use piece::palette;
pub use resources::AIMoveCount;
pub use resources::AIMoveTimer;
pub use resources::AIScore;
pub use resources::CollapseTimer;
pub use resources::CurrentPlayerTurn;
pub use resources::DestroyPieceTimer;
pub use resources::IntervalTimer;
pub use resources::inc_sat;
pub use resources::spec_ticked;
pub use resources::timer_fires;
pub use resources::PieceController;
pub use resources::PlayerMoveCount;
pub use resources::PlayerScore;
pub use resources::RefillColumnTimer;
pub use resources::SwapBackEvent;
pub use resources::SwapBackInfo;
pub use resources::SwapBackTimer;
pub use resources::SwapPiecesEvent;
pub use resources::Touch;
pub use search::AI;
pub use search::cand_before;
pub use search::cand_in_range;
pub use search::cand_yields;
pub use search::hyp_yields;
pub use search::lemma_hyp_matches_detector;
pub use search::search_result_ok;
pub use session::GameSession;
pub use session::any_matched;
pub use session::collapse_step;
pub use session::destroy_phase_rel;
pub use session::destroy_step;
pub use session::destroy_step_rel;
pub use session::matched_at;
pub use session::opponent_step;
pub use session::refill_step;
pub use session::resolution_rel;
pub use session::spec_intent_dir;
pub use session::swap_back_phase_rel;
pub use session::swap_phase_rel;
pub use session::swaps_phase_rel;
pub use swap::Direction;
pub use swap::SwapError;
pub use swap::SwapRecord;
pub use swap::lemma_swap_deterministic;
pub use swap::lemma_swap_roundtrip;
pub use swap::retag;
pub use swap::swap_applied;

use vstd::prelude::*;

verus! {

/// The board dimensions of a standard game session.
pub const GRID_WIDTH: usize = 7;

pub const GRID_HEIGHT: usize = 7;

} // verus!
