//! The half-open interval type used when affected-version ranges are exported.

use vstd::prelude::*;

use crate::version::Version;

verus! {

/// A range of affected versions in the canonical half-open form `[start, end)`.
/// A missing bound means that all versions in that direction are affected.
/// The derived ordering traits give a deterministic structural order for
/// serializing several ranges, not the precedence order.
#[derive(Clone, PartialEq, Eq, PartialOrd, Ord, Hash, Debug)]
pub struct OsvRange {
    /// Inclusive: the first affected version, if any bound is known.
    pub start: Option<Version>,
    /// Exclusive: the first version after `start` that is unaffected again.
    pub end: Option<Version>,
}

impl OsvRange {
    /// Both bounds, where present, are well-formed versions.
    pub open spec fn wf(&self) -> bool {
        &&& match self.start {
            Some(v) => v.wf(),
            None => true,
        }
        &&& match self.end {
            Some(v) => v.wf(),
            None => true,
        }
    }
}

} // verus!
