//! A fixed-capacity single-producer single-consumer byte queue over a ring
//! of `N` slots, one of which always stays free so that equal cursors mean
//! "empty" and never "full".
//!
//! The queue is proved correct against its abstract contents, a sequence of
//! bytes oldest first (see `model`). The producer and consumer views borrow
//! the queue mutably, so each is used in turn rather than side by side.
use vstd::prelude::*;

pub mod model;
pub mod queue;
pub mod handles;

pub use queue::ShortQueue;
pub use handles::{Producer, Consumer};
