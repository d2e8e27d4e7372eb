//! The draw list of one frame and the builder interface that fills it.

use vstd::prelude::*;
use crate::color::Color;
use crate::geometry::Vector2;
use crate::sprite::Sprite;
use crate::texture_ref::TextureRef;

verus! {

/// What a blit samples its pixels from.
#[derive(Debug, Clone, Copy, PartialEq, Eq, Structural)]
pub enum BlitSource {
    /// A flat rectangle, filled with the blit's color alone.
    Solid,
    /// A loaded texture, tinted with the blit's color.
    Texture(TextureRef),
}

/// One requested draw: where, how large, in which color, from which source.
#[derive(Debug, Clone, Copy, PartialEq, Eq, Structural)]
pub struct BlitCommand {
    pub source: BlitSource,
    pub position: Vector2,
    pub size: Vector2,
    pub color: Color,
}

impl BlitCommand {
    /// The blit that `draw` enqueues for a texture of the given size: at the
    /// origin, untinted.
    pub open spec fn of_texture(texture: TextureRef, size: Vector2) -> BlitCommand {
        BlitCommand {
            source: BlitSource::Texture(texture),
            position: Vector2 { x: 0, y: 0 },
            size,
            color: Color::white(),
        }
    }

    /// The blit that `draw_rectangle` enqueues: at the origin, white.
    pub open spec fn of_rectangle(size: Vector2) -> BlitCommand {
        BlitCommand {
            source: BlitSource::Solid,
            position: Vector2 { x: 0, y: 0 },
            size,
            color: Color::white(),
        }
    }

    /// Moves the blit to a screen position.
    pub fn at(&mut self, position: Vector2) -> (chained: &mut Self)
        ensures
            *chained == (BlitCommand { position, ..*old(self) }),
            *final(self) == *final(chained),
    {
        self.position = position;
        self
    }

    /// Changes the blit's color.
    pub fn with_color(&mut self, color: Color) -> (chained: &mut Self)
        ensures
            *chained == (BlitCommand { color, ..*old(self) }),
            *final(self) == *final(chained),
    {
        self.color = color;
        self
    }
}

/// The draw requests of one frame: an optional clear color and the blits in
/// the order in which they were requested.
#[derive(Debug)]
pub struct RenderCommands {
    pub clear_color: Option<Color>,
    pub blits: Vec<BlitCommand>,
}

impl RenderCommands {
    /// Whether nothing has been requested yet: no blit, and the target is
    /// cleared to opaque black.
    pub open spec fn is_fresh(&self) -> bool {
        &&& self.clear_color == Some(Color::black())
        &&& self.blits@ == Seq::<BlitCommand>::empty()
    }

    /// The draw list with its clear color replaced.
    pub open spec fn with_clear_color(self, color: Color) -> RenderCommands {
        RenderCommands { clear_color: Some(color), ..self }
    }

    /// The draw list after its clear color has been set to each of the
    /// given colors in turn.
    pub open spec fn with_clear_colors(self, colors: Seq<Color>) -> RenderCommands
        decreases colors.len(),
    {
        if colors.len() == 0 {
            self
        } else {
            self.with_clear_colors(colors.drop_last()).with_clear_color(colors.last())
        }
    }

    /// However often the clear color is set, only the last value stays in
    /// effect, and the blits are untouched.
    pub proof fn lemma_last_clear_color_wins(self, colors: Seq<Color>)
        requires
            colors.len() > 0,
        ensures
            self.with_clear_colors(colors) == self.with_clear_color(colors.last()),
        decreases colors.len(),
    {
        if colors.len() > 1 {
            self.lemma_last_clear_color_wins(colors.drop_last());
        } else {
            assert(self.with_clear_colors(colors.drop_last()) == self);
        }
    }

    /// Changes the color that the target is cleared to before drawing.
    pub fn set_clear_color(&mut self, color: Color)
        ensures
            *final(self) == old(self).with_clear_color(color),
    {
        self.clear_color = Some(color);
    }

    /// Enqueues a blit of the given sprite and hands it out for adjustment.
    pub fn draw(&mut self, sprite: &Sprite) -> (blit: &mut BlitCommand)
        ensures
            *blit == BlitCommand::of_texture(sprite.texture, sprite.size),
            final(self).clear_color == old(self).clear_color,
            final(self).blits@ == old(self).blits@.push(*final(blit)),
    {
        let blit_command = BlitCommand {
            source: BlitSource::Texture(sprite.texture),
            position: Vector2 { x: 0, y: 0 },
            size: sprite.size,
            color: Color::white(),
        };
        self.blits.push(blit_command);
        let last: usize = self.blits.len() - 1;
        &mut self.blits[last]
    }

    /// Enqueues a flat rectangle of the given size and hands it out for adjustment.
    pub fn draw_rectangle(&mut self, size: Vector2) -> (blit: &mut BlitCommand)
        ensures
            *blit == BlitCommand::of_rectangle(size),
            final(self).clear_color == old(self).clear_color,
            final(self).blits@ == old(self).blits@.push(*final(blit)),
    {
        let blit_command = BlitCommand {
            source: BlitSource::Solid,
            position: Vector2 { x: 0, y: 0 },
            size,
            color: Color::white(),
        };
        self.blits.push(blit_command);
        let last: usize = self.blits.len() - 1;
        &mut self.blits[last]
    }
}

impl Default for RenderCommands {
    /// A frame that clears to opaque black and draws nothing.
    fn default() -> (commands: RenderCommands)
        ensures
            commands.is_fresh(),
    {
        RenderCommands { clear_color: Some(Color::black()), blits: Vec::new() }
    }
}

} // verus!
