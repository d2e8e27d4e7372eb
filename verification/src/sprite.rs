//! Sprites: a loaded texture together with its pixel size.

use vstd::prelude::*;
use crate::geometry::Vector2;
use crate::texture_ref::TextureRef;

verus! {

/// Something that can be drawn on screen: a texture and the size, in
/// pixels, that it was loaded with.
pub struct Sprite {
    pub texture: TextureRef,
    pub size: Vector2,
}

impl Sprite {
    /// The sprite's size in pixels.
    pub fn size(&self) -> (size: Vector2)
        ensures
            size == self.size,
    {
        self.size
    }

    /// The texture that the sprite samples.
    pub fn texture(&self) -> (texture: TextureRef)
        ensures
            texture == self.texture,
    {
        self.texture
    }
}

} // verus!
