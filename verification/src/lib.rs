//! Undo/redo and action compression for an arbitrary wrapped state.
//!
//! All mutation of the wrapped value happens through discrete actions.
//! A [`Timeline`] records, per applied action, either its semantic inverse
//! or a full snapshot, and supports undo/redo with branch-discard
//! semantics. A [`Chain`] is a freestanding buffer of actions that can be
//! compressed into an equivalent, shorter sequence by a single-pass greedy
//! reduction driven by a user-supplied merge relation.

mod chain;
pub use crate::chain::Chain;
pub use crate::chain::compress_fold;
pub use crate::chain::compress_step;
pub use crate::chain::lemma_compress_preserves_effect;
pub use crate::chain::spec_compress;

mod error;
pub use crate::error::Error;

mod merge;
pub use crate::merge::Merge;
pub use crate::merge::MergeResult;

mod semantics;
pub use crate::semantics::lemma_ok_prefix_len_from_parts;
pub use crate::semantics::lemma_seq_run_concat;
pub use crate::semantics::lemma_seq_run_push;
pub use crate::semantics::merge_consistent;
pub use crate::semantics::ok_prefix_len;
pub use crate::semantics::pair_consistent;
pub use crate::semantics::replays_as;
pub use crate::semantics::seq_ok;
pub use crate::semantics::seq_result;

mod state;
pub use crate::state::InverseResult;
pub use crate::state::State;

mod timeline;
pub use crate::timeline::Timeline;
pub use crate::timeline::TimelineError;
pub use crate::timeline::TimelineModel;
pub use crate::timeline::lemma_cursor_bookkeeping;
pub use crate::timeline::lemma_undo_redo_round_trip;
pub use crate::timeline::lemma_undo_round_trip;
