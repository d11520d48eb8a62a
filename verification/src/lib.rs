//! Turns batches of (id, image bytes) pairs into fixed-dimension embedding
//! vectors: per-item preprocessing to a channel-first pixel tensor, assembly
//! of surviving tensors into one batch tensor, and re-attachment of ids to
//! the inference output's rows. Per-item failures are isolated; no id is
//! dropped or duplicated. Network fetch and the inference engine itself are
//! collaborators supplied by the surrounding application; embedding scalars
//! cross the boundary as 32-bit IEEE-754 bit patterns.
use vstd::prelude::*;

pub mod batch;
pub mod image_ops;
pub mod preprocess;
pub mod structures;

verus! {

/// Element count of a channel-first square pixel tensor with the given side.
pub open spec fn tensor_len(side: nat) -> nat {
    3 * side * side
}

} // verus!
