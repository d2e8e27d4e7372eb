//! The conditions that stop the render coordinator.

use vstd::prelude::*;
use crate::texture_ref::TextureRef;

verus! {

/// Why a message could not be carried out.
#[derive(Debug, Clone, Copy, PartialEq, Eq, Structural)]
pub enum RenderError {
    /// The pixel bytes handed in for a texture are not exactly four per
    /// pixel of its size.
    TextureSizeMismatch,
    /// A frame holds more blits than the instance buffer has room for.
    CapacityExceeded,
    /// A frame draws a texture that was never loaded.
    UnknownTexture(TextureRef),
}

} // verus!
