//! The pipeline's fatal error kinds. A missed decode is not among them: an
//! unknown predicted class code is the one recoverable condition, reported as
//! an absent name, never as an error.

use vstd::prelude::*;

verus! {

/// Why a run of the classification pipeline aborts.
#[derive(Clone, Copy, Debug, PartialEq, Eq, Structural)]
pub enum PipelineError {
    /// The designated label column is absent from the (sampled) table.
    Schema,
    /// A row or column count does not match: the new observation's feature
    /// count differs from the trained feature count.
    Shape,
    /// The training set is degenerate: the sample kept no rows to fit on.
    Training,
}

} // verus!
