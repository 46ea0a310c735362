//! What the engine refuses.

use vstd::prelude::*;

verus! {

/// Why an operation of the engine did nothing.
#[derive(Clone, Copy, Debug, PartialEq, Eq, Structural)]
pub enum Error {
    /// The engine cannot be built with this power and this kernel.
    InvalidConfiguration,
    /// A row has pixels to paint but no width to scale them by.
    BufferSizeMismatch,
}

} // verus!
