//! The ways in which building a scene can fail.

use vstd::prelude::*;

verus! {

/// A structural error that fails a build as a whole.
#[derive(Clone, Copy, Debug, PartialEq, Eq, Structural)]
pub enum BuildError {
    /// One stage needs more than 65535 alpha tiles.
    AlphaTileOverflow,
    /// A draw path names a clip path that the scene does not hold.
    InvalidClipReference,
    /// A draw path names a paint that the scene does not hold.
    InvalidPaintReference,
}

} // verus!
