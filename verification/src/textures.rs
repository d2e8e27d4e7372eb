//! The table of loaded textures.

use vstd::prelude::*;
use std::collections::HashMap;
use crate::error::RenderError;
use crate::geometry::Vector2;
use crate::texture_ref::TextureRef;

verus! {

/// The number of bytes that an RGBA8 image of the given size takes: four
/// for each pixel, with no padding between rows.
pub open spec fn rgba_len(size: Vector2) -> int {
    size.x * size.y * 4
}

/// Whether `len` bytes are exactly the pixels of an RGBA8 image of the given size.
pub fn is_rgba_len(len: usize, size: Vector2) -> (fits: bool)
    ensures
        fits == (len == rgba_len(size)),
{
    assert(size.x * size.y <= 0xFFFF_FFFF * 0xFFFF_FFFF) by (nonlinear_arith)
        requires
            0 <= size.x <= 0xFFFF_FFFF,
            0 <= size.y <= 0xFFFF_FFFF,
    ;
    let pixels: u128 = (size.x as u128) * (size.y as u128);
    len as u128 == pixels * 4
}

/// Maps each loaded texture to the slot of its GPU resources. Slots are
/// handed out in load order, starting at zero; entries are added and never
/// removed.
pub struct Textures {
    slots: HashMap<usize, usize>,
    loaded: Vec<TextureRef>,
}

impl View for Textures {
    type V = Map<TextureRef, usize>;

    closed spec fn view(&self) -> Map<TextureRef, usize> {
        Map::new(
            |texture: TextureRef| self.slots@.contains_key(texture@),
            |texture: TextureRef| self.slots@[texture@],
        )
    }
}

impl Textures {
    /// The table's invariant: every entry points at a slot that was handed
    /// out for that very texture.
    pub closed spec fn wf(&self) -> bool {
        &&& forall|k: usize| #[trigger]
            self.slots@.contains_key(k) ==> self.slots@[k] < self.loaded@.len()
                && self.loaded@[self.slots@[k] as int]@ == k
        &&& forall|i: int|
            0 <= i < self.loaded@.len() ==> self.slots@.contains_key(#[trigger] self.loaded@[i]@)
    }

    /// The number of slots handed out so far.
    pub closed spec fn len(&self) -> nat {
        self.loaded@.len()
    }

    /// An empty table.
    pub fn new() -> (table: Textures)
        ensures
            table.wf(),
            table@ == Map::<TextureRef, usize>::empty(),
            table.len() == 0,
    {
        let table = Textures { slots: HashMap::new(), loaded: Vec::new() };
        assert(table@ =~= Map::<TextureRef, usize>::empty());
        table
    }

    /// Registers a texture of the given size with its pixel bytes and
    /// returns the slot for its GPU resources. The bytes must be exactly
    /// the RGBA8 pixels of that size; otherwise nothing changes.
    pub fn load_texture(&mut self, texture_id: TextureRef, data: &[u8], size: Vector2) -> (result:
        Result<usize, RenderError>)
        requires
            old(self).wf(),
        ensures
            final(self).wf(),
            data@.len() == rgba_len(size) ==> result == Ok::<usize, RenderError>(
                old(self).len() as usize,
            ) && final(self)@ == old(self)@.insert(texture_id, old(self).len() as usize)
                && final(self).len() == old(self).len() + 1,
            data@.len() != rgba_len(size) ==> result == Err::<usize, RenderError>(
                RenderError::TextureSizeMismatch,
            ) && *final(self) == *old(self),
    {
        if !is_rgba_len(data.len(), size) {
            return Err(RenderError::TextureSizeMismatch);
        }
        let slot: usize = self.loaded.len();
        self.loaded.push(texture_id);
        self.slots.insert(texture_id.index(), slot);
        proof {
            assert forall|r: TextureRef| r@ == texture_id@ implies r == texture_id by {
                TextureRef::lemma_view_injective(r, texture_id);
            }
            assert(final(self)@ =~= old(self)@.insert(texture_id, slot));
        }
        Ok(slot)
    }

    /// The slot of a loaded texture's GPU resources.
    pub fn bind_group_for_texture(&self, texture_id: &TextureRef) -> (result: Result<
        usize,
        RenderError,
    >)
        requires
            self.wf(),
        ensures
            self@.contains_key(*texture_id) ==> result == Ok::<usize, RenderError>(
                self@[*texture_id],
            ),
            !self@.contains_key(*texture_id) ==> result == Err::<usize, RenderError>(
                RenderError::UnknownTexture(*texture_id),
            ),
    {
        let key: usize = texture_id.index();
        match self.slots.get(&key) {
            Some(slot) => Ok(*slot),
            None => Err(RenderError::UnknownTexture(*texture_id)),
        }
    }

    /// The slots handed out can be counted in a `usize`.
    pub proof fn lemma_len_in_range(&self)
        ensures
            self.len() <= usize::MAX,
    {
        vstd::std_specs::vec::axiom_spec_len(&self.loaded);
    }

    /// Every slot in the table has been handed out.
    pub proof fn lemma_slots_in_range(&self, texture: TextureRef)
        requires
            self.wf(),
            self@.contains_key(texture),
        ensures
            self@[texture] < self.len(),
    {
    }
}

} // verus!
