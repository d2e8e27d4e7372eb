//! Texture identifiers and their allocator.

use vstd::prelude::*;

verus! {

/// An opaque identifier of one loaded texture.
#[derive(Debug, Hash, Clone, Copy, PartialEq, Eq, Structural)]
pub struct TextureRef(pub(crate) usize);

impl View for TextureRef {
    type V = usize;

    closed spec fn view(&self) -> usize {
        self.0
    }
}

impl TextureRef {
    /// Two identifiers with the same number are the same identifier.
    pub proof fn lemma_view_injective(a: TextureRef, b: TextureRef)
        ensures
            a@ == b@ <==> a == b,
    {
    }

    /// The identifier with the number `n`.
    pub closed spec fn numbered(n: usize) -> TextureRef {
        TextureRef(n)
    }

    /// `numbered(n)` is the identifier whose number is `n`.
    pub proof fn lemma_numbered(n: usize)
        ensures
            Self::numbered(n)@ == n,
    {
    }

    /// The number this identifier was allocated with.
    pub fn index(&self) -> (i: usize)
        ensures
            i == self@,
    {
        self.0
    }
}

/// Hands out texture identifiers in strictly increasing order.
pub struct TextureRefManager {
    next_id: usize,
}

impl View for TextureRefManager {
    type V = usize;

    closed spec fn view(&self) -> usize {
        self.next_id
    }
}

/// The successor of `n` among identifiers; past the largest one it starts over at zero.
pub open spec fn following(n: usize) -> usize {
    if n == usize::MAX {
        0
    } else {
        (n + 1) as usize
    }
}

impl TextureRefManager {
    /// The identifier that the `k`-th call of `next` from now returns (counting from zero).
    pub open spec fn nth(self, k: nat) -> TextureRef
        decreases k,
    {
        if k == 0 {
            TextureRef::numbered(self@)
        } else {
            self.advanced().nth((k - 1) as nat)
        }
    }

    /// The allocator as one call of `next` leaves it.
    pub closed spec fn advanced(self) -> TextureRefManager {
        TextureRefManager { next_id: following(self.next_id) }
    }

    /// The number of the `k`-th identifier from now: the allocator's own
    /// number plus `k`, starting over at zero past the largest `usize`.
    pub proof fn lemma_nth_number(self, k: nat)
        requires
            k <= usize::MAX,
        ensures
            self.nth(k)@ == if self@ + k <= usize::MAX {
                self@ + k
            } else {
                self@ + k - usize::MAX - 1
            },
        decreases k,
    {
        if k == 0 {
            TextureRef::lemma_numbered(self@);
        } else {
            self.advanced().lemma_nth_number((k - 1) as nat);
        }
    }

    /// Any two of the identifiers that an allocator hands out are
    /// different, as long as fewer than `usize::MAX + 1` others lie between
    /// them.
    pub proof fn lemma_refs_distinct(self, i: nat, j: nat)
        requires
            i != j,
            i <= usize::MAX,
            j <= usize::MAX,
        ensures
            self.nth(i) != self.nth(j),
    {
        self.lemma_nth_number(i);
        self.lemma_nth_number(j);
    }

    /// Identifiers are handed out in strictly increasing order until the
    /// largest `usize` has been used.
    pub proof fn lemma_refs_increase(self, i: nat, j: nat)
        requires
            i < j,
            self@ + j <= usize::MAX,
        ensures
            self.nth(i)@ < self.nth(j)@,
    {
        self.lemma_nth_number(i);
        self.lemma_nth_number(j);
    }

    /// An allocator whose first identifier is zero.
    pub fn new() -> (m: TextureRefManager)
        ensures
            m@ == 0,
    {
        TextureRefManager { next_id: 0 }
    }

    /// Returns a fresh identifier and moves on to the next one.
    pub fn next(&mut self) -> (r: TextureRef)
        ensures
            r@ == old(self)@,
            r == old(self).nth(0),
            *final(self) == old(self).advanced(),
            final(self)@ == following(old(self)@),
    {
        let texture_id: usize = self.next_id;
        self.next_id = self.next_id.wrapping_add(1);
        TextureRef(texture_id)
    }
}

} // verus!
