//! Orchestration core of a blockchain node: the block-import pipeline, the
//! background-task supervisor, the two consensus drivers, the
//! EVM-compatibility indexer with its two backends, and the bounded caches
//! kept beside them.
//!
//! Every component is a plain state machine: it owns its state, takes events
//! as values and answers with the action to perform, so that the surrounding
//! program is left with nothing but input and output.  What a component
//! does is stated over its mathematical value, the `View` of its type, and
//! what holds of it whatever happens is stated in the proof functions that
//! stand beside it.

pub mod consensus;
pub mod eth;
pub mod evm;
pub mod fee_history;
pub mod filter_pool;
pub mod import;
pub mod indexer;
pub mod mapping_sync;
pub mod primitives;
pub mod runtime;
pub mod seq_lemmas;
pub mod service;
pub mod supervisor;
pub mod sync;
pub mod weights;
