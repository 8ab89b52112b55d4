//! What every dispatch table has in common: whether it serves a live
//! container or one that is marked to be skipped.

use vstd::prelude::*;

verus! {

/// The two kinds of dispatch table.
#[derive(Clone, Copy, Debug, PartialEq, Eq, Structural)]
pub enum TableKind {
    /// Every operation works on the container.
    Live,
    /// Only creation works; every other operation fails explicitly.
    Skip,
}

} // verus!
