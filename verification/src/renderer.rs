//! The producers' side of the renderer: it allocates sprites and puts each
//! request into the message that goes to the render coordinator.

use vstd::prelude::*;
use crate::commands::RenderCommands;
use crate::geometry::Vector2;
use crate::render_thread::{RenderThreadMessage, RendererThread};
use crate::sprite::Sprite;
use crate::texture_ref::TextureRefManager;

verus! {

/// Something that can be loaded into a sprite.
pub trait TextureData {
    /// The pixels as a series of RGBA bytes.
    fn data(&self) -> Vec<u8>;

    /// The size in pixels.
    fn size(&self) -> Vector2;
}

/// The handle through which producers draw. Each of its operations gives
/// exactly one message; the coordinator must get them in the order in which
/// they were made.
pub struct Renderer {
    texture_ref_manager: TextureRefManager,
}

impl Renderer {
    /// The allocator that names the next sprites' textures.
    pub closed spec fn allocator(&self) -> TextureRefManager {
        self.texture_ref_manager
    }

    /// A renderer for a surface of the given size, together with the
    /// coordinator that is to receive its messages.
    pub fn compatible_with(size: (u32, u32)) -> (pair: (Renderer, RendererThread))
        ensures
            pair.0.allocator()@ == 0,
            pair.1.wf(),
            pair.1@.size == (Vector2 { x: size.0, y: size.1 }),
            pair.1@.textures == Map::<crate::texture_ref::TextureRef, usize>::empty(),
            pair.1@.slots == 0,
    {
        let renderer_thread = RendererThread::compatible_with(Vector2 { x: size.0, y: size.1 });
        let texture_ref_manager = TextureRefManager::new();
        (Renderer { texture_ref_manager }, renderer_thread)
    }

    /// The message that tells the coordinator of the window's new size.
    pub fn resize(&self, size: Vector2) -> (message: RenderThreadMessage)
        ensures
            message == RenderThreadMessage::Resize(size),
    {
        RenderThreadMessage::Resize(size)
    }

    /// Lets the callback describe a frame, starting from one that clears
    /// to opaque black and draws nothing, and gives the message that asks
    /// for that frame.
    pub fn render<F: FnOnce(&mut RenderCommands)>(&self, callback: F) -> (message:
        RenderThreadMessage)
        requires
            forall|target: &mut RenderCommands| target.is_fresh() ==> callback.requires((target,)),
        ensures
            exists|target: &mut RenderCommands|
                target.is_fresh() && #[trigger] callback.ensures((target,), ()) && message
                    == RenderThreadMessage::Render(*final(target)),
    {
        let mut target = RenderCommands::default();
        callback(&mut target);
        RenderThreadMessage::Render(target)
    }

    /// Names a new texture for pixels of the given size. Returns the sprite
    /// that draws it and the message that loads it; the sprite can be drawn
    /// in any frame requested after that message.
    pub fn load_sprite(&mut self, data: Vec<u8>, size: Vector2) -> (loaded: (
        Sprite,
        RenderThreadMessage,
    ))
        ensures
            loaded.0.texture == old(self).allocator().nth(0),
            loaded.0.size == size,
            loaded.1 == RenderThreadMessage::LoadTexture(loaded.0.texture, data, size),
            final(self).allocator() == old(self).allocator().advanced(),
    {
        let texture_ref = self.texture_ref_manager.next();
        (
            Sprite { texture: texture_ref, size },
            RenderThreadMessage::LoadTexture(texture_ref, data, size),
        )
    }

    /// Creates a sprite from the given texture data: `load_sprite` on its
    /// bytes and its size.
    pub fn create_sprite<D: TextureData>(&mut self, data: D) -> (loaded: (
        Sprite,
        RenderThreadMessage,
    ))
        ensures
            loaded.0.texture == old(self).allocator().nth(0),
            loaded.1 matches RenderThreadMessage::LoadTexture(texture, _, size) && texture
                == loaded.0.texture && size == loaded.0.size,
            final(self).allocator() == old(self).allocator().advanced(),
    {
        let size = data.size();
        self.load_sprite(data.data(), size)
    }
}

} // verus!
