//! Grouping a frame's blits by what they sample, so that each source is
//! bound once and its blits are drawn as one run of instances.

use vstd::prelude::*;
use std::collections::HashMap;
use crate::commands::{BlitCommand, BlitSource};
use crate::texture_ref::TextureRef;

verus! {

/// The sources of a draw list, each once, in the order in which they first appear.
pub open spec fn draw_order(blits: Seq<BlitCommand>) -> Seq<BlitSource>
    decreases blits.len(),
{
    if blits.len() == 0 {
        Seq::empty()
    } else {
        let earlier = draw_order(blits.drop_last());
        if earlier.contains(blits.last().source) {
            earlier
        } else {
            earlier.push(blits.last().source)
        }
    }
}

/// The blits of a draw list that sample the given source, in the order of the list.
pub open spec fn group_of(blits: Seq<BlitCommand>, source: BlitSource) -> Seq<BlitCommand> {
    blits.filter(|blit: BlitCommand| blit.source == source)
}

/// The groups of the given sources, one after the other.
pub open spec fn batched(blits: Seq<BlitCommand>, order: Seq<BlitSource>) -> Seq<BlitCommand>
    decreases order.len(),
{
    if order.len() == 0 {
        Seq::empty()
    } else {
        batched(blits, order.drop_last()) + group_of(blits, order.last())
    }
}

/// Whether some blit of the list samples the given source.
pub open spec fn uses(blits: Seq<BlitCommand>, source: BlitSource) -> bool {
    exists|j: int| 0 <= j < blits.len() && (#[trigger] blits[j]).source == source
}

/// Appending a blit extends the group of its own source and no other.
pub proof fn lemma_group_of_push(blits: Seq<BlitCommand>, blit: BlitCommand, source: BlitSource)
    ensures
        group_of(blits.push(blit), source) == if blit.source == source {
            group_of(blits, source).push(blit)
        } else {
            group_of(blits, source)
        },
{
    blits.lemma_filter_push(blit, |b: BlitCommand| b.source == source);
}

/// A source has an empty group exactly when no blit samples it.
pub proof fn lemma_group_of_unused(blits: Seq<BlitCommand>, source: BlitSource)
    ensures
        uses(blits, source) <==> group_of(blits, source).len() > 0,
    decreases blits.len(),
{
    if blits.len() == 0 {
        assert(group_of(blits, source) =~= Seq::<BlitCommand>::empty()) by {
            reveal(Seq::filter);
        }
    } else {
        let rest = blits.drop_last();
        assert(rest.push(blits.last()) =~= blits);
        lemma_group_of_unused(rest, source);
        lemma_group_of_push(rest, blits.last(), source);
        if uses(blits, source) {
            let j = choose|j: int| 0 <= j < blits.len() && (#[trigger] blits[j]).source == source;
            if j < rest.len() {
                assert(rest[j].source == source);
            }
        }
        if uses(rest, source) {
            let j = choose|j: int| 0 <= j < rest.len() && (#[trigger] rest[j]).source == source;
            assert(blits[j].source == source);
        }
        if blits.last().source == source {
            assert(blits[blits.len() - 1].source == source);
        }
    }
}

/// The draw order names exactly the sources in use, each once.
pub proof fn lemma_draw_order(blits: Seq<BlitCommand>)
    ensures
        draw_order(blits).no_duplicates(),
        forall|source: BlitSource| #[trigger]
            draw_order(blits).contains(source) <==> uses(blits, source),
    decreases blits.len(),
{
    if blits.len() == 0 {
    } else {
        let rest = blits.drop_last();
        let earlier = draw_order(rest);
        let last = blits.last().source;
        lemma_draw_order(rest);
        assert forall|source: BlitSource| #[trigger]
            draw_order(blits).contains(source) <==> uses(blits, source) by {
            if uses(blits, source) {
                let j = choose|j: int|
                    0 <= j < blits.len() && (#[trigger] blits[j]).source == source;
                if j < rest.len() {
                    assert(rest[j].source == source);
                    assert(earlier.contains(source));
                    let k = choose|k: int| 0 <= k < earlier.len() && earlier[k] == source;
                    assert(draw_order(blits)[k] == source);
                } else {
                    assert(source == last);
                    if !earlier.contains(last) {
                        assert(draw_order(blits)[earlier.len() as int] == last);
                    }
                }
            }
            if draw_order(blits).contains(source) {
                let k = choose|k: int|
                    0 <= k < draw_order(blits).len() && draw_order(blits)[k] == source;
                if k < earlier.len() {
                    assert(earlier[k] == source);
                    assert(earlier.contains(source));
                    let j = choose|j: int|
                        0 <= j < rest.len() && (#[trigger] rest[j]).source == source;
                    assert(blits[j].source == source);
                } else {
                    assert(blits[blits.len() - 1].source == source);
                }
            }
        }
    }
}

/// A draw list takes as many passes as it has distinct sources.
pub proof fn lemma_one_pass_per_source(blits: Seq<BlitCommand>)
    ensures
        draw_order(blits).len() == blits.map_values(|blit: BlitCommand| blit.source).to_set().len(),
{
    let sources = blits.map_values(|blit: BlitCommand| blit.source);
    lemma_draw_order(blits);
    draw_order(blits).unique_seq_to_set();
    assert forall|source: BlitSource|
        draw_order(blits).to_set().contains(source) <==> sources.to_set().contains(source) by {
        if uses(blits, source) {
            let j = choose|j: int| 0 <= j < blits.len() && (#[trigger] blits[j]).source == source;
            assert(sources[j] == source);
        }
        if sources.contains(source) {
            let j = choose|j: int| 0 <= j < sources.len() && sources[j] == source;
            assert(blits[j].source == source);
        }
    }
    assert(draw_order(blits).to_set() =~= sources.to_set());
}

/// Appending a blit adds it to the concatenated groups once if its source is
/// among them, and changes nothing otherwise.
pub proof fn lemma_batched_push(blits: Seq<BlitCommand>, blit: BlitCommand, order: Seq<BlitSource>)
    requires
        order.no_duplicates(),
    ensures
        batched(blits.push(blit), order).to_multiset() == if order.contains(blit.source) {
            batched(blits, order).to_multiset().insert(blit)
        } else {
            batched(blits, order).to_multiset()
        },
    decreases order.len(),
{
    broadcast use vstd::seq_lib::group_to_multiset_ensures;

    if order.len() == 0 {
    } else {
        let front = order.drop_last();
        let source = order.last();
        lemma_batched_push(blits, blit, front);
        lemma_group_of_push(blits, blit, source);
        vstd::seq_lib::lemma_multiset_commutative(
            batched(blits.push(blit), front),
            group_of(blits.push(blit), source),
        );
        vstd::seq_lib::lemma_multiset_commutative(batched(blits, front), group_of(blits, source));
        if source == blit.source {
            assert(order[order.len() - 1] == blit.source);
            if front.contains(blit.source) {
                let k = choose|k: int| 0 <= k < front.len() && front[k] == blit.source;
                assert(order[k] == order[order.len() - 1]);
            }
            assert(batched(blits.push(blit), order).to_multiset() =~= batched(
                blits,
                order,
            ).to_multiset().insert(blit));
        } else {
            if front.contains(blit.source) {
                let k = choose|k: int| 0 <= k < front.len() && front[k] == blit.source;
                assert(order[k] == blit.source);
            }
            if order.contains(blit.source) {
                let k = choose|k: int| 0 <= k < order.len() && order[k] == blit.source;
                assert(front[k] == blit.source);
            }
            if order.contains(blit.source) {
                assert(batched(blits.push(blit), order).to_multiset() =~= batched(
                    blits,
                    order,
                ).to_multiset().insert(blit));
            } else {
                assert(batched(blits.push(blit), order).to_multiset() =~= batched(
                    blits,
                    order,
                ).to_multiset());
            }
        }
    }
}

/// Batching rearranges a draw list: every blit is drawn exactly as often as
/// it was requested.
pub proof fn lemma_batched_is_permutation(blits: Seq<BlitCommand>)
    ensures
        batched(blits, draw_order(blits)).to_multiset() == blits.to_multiset(),
        batched(blits, draw_order(blits)).len() == blits.len(),
    decreases blits.len(),
{
    broadcast use vstd::seq_lib::group_to_multiset_ensures;

    if blits.len() == 0 {
        assert(batched(blits, draw_order(blits)) =~= blits);
    } else {
        let rest = blits.drop_last();
        let blit = blits.last();
        let earlier = draw_order(rest);
        assert(rest.push(blit) =~= blits);
        lemma_batched_is_permutation(rest);
        lemma_draw_order(rest);
        lemma_batched_push(rest, blit, earlier);
        if !earlier.contains(blit.source) {
            let order = earlier.push(blit.source);
            assert(order.drop_last() =~= earlier);
            lemma_group_of_unused(rest, blit.source);
            lemma_group_of_push(rest, blit, blit.source);
            assert(group_of(blits, blit.source) =~= Seq::<BlitCommand>::empty().push(blit));
            assert(batched(blits, order) =~= batched(blits, earlier).push(blit));
        }
    }
    batched(blits, draw_order(blits)).to_multiset_ensures();
    blits.to_multiset_ensures();
}

/// The groups of the first `count` sources stand at the front of the
/// concatenation of all groups.
pub proof fn lemma_batched_prefix(blits: Seq<BlitCommand>, order: Seq<BlitSource>, count: int)
    requires
        0 <= count <= order.len(),
    ensures
        batched(blits, order.take(count)).is_prefix_of(batched(blits, order)),
    decreases order.len(),
{
    if count == order.len() {
        assert(order.take(count) =~= order);
    } else {
        let front = order.drop_last();
        assert(front.take(count) =~= order.take(count));
        lemma_batched_prefix(blits, front, count);
    }
}

/// Where the group of the source at `index` begins in the concatenation.
pub open spec fn group_start(blits: Seq<BlitCommand>, order: Seq<BlitSource>, index: int) -> int {
    batched(blits, order.take(index)).len() as int
}

/// The group of each source stands in the concatenation as one contiguous
/// run, right behind the groups of the sources before it.
pub proof fn lemma_group_range(blits: Seq<BlitCommand>, order: Seq<BlitSource>, index: int)
    requires
        0 <= index < order.len(),
    ensures
        group_start(blits, order, index + 1) == group_start(blits, order, index) + group_of(
            blits,
            order[index],
        ).len(),
        group_start(blits, order, index + 1) <= batched(blits, order).len(),
        batched(blits, order).subrange(
            group_start(blits, order, index),
            group_start(blits, order, index + 1),
        ) == group_of(blits, order[index]),
{
    let upto = order.take(index + 1);
    assert(upto.drop_last() =~= order.take(index));
    assert(upto.last() == order[index]);
    lemma_batched_prefix(blits, order, index + 1);
    let whole = batched(blits, order);
    let head = batched(blits, order.take(index));
    let group = group_of(blits, order[index]);
    assert(batched(blits, upto) == head + group);
    assert forall|i: int| 0 <= i < group.len() implies whole[head.len() + i] == group[i] by {
        assert(batched(blits, upto)[head.len() + i] == group[i]);
    }
    assert(batched(blits, order).subrange(
        group_start(blits, order, index),
        group_start(blits, order, index + 1),
    ) =~= group_of(blits, order[index]));
}

/// The run of instances that the blits of one source take in the instance array.
#[derive(Debug, Clone, Copy, PartialEq, Eq, Structural)]
pub struct InstanceRange {
    pub source: BlitSource,
    pub first: usize,
    pub end: usize,
}

/// A draw list rearranged for instanced drawing: the blits, group after
/// group, and the run that each group takes among them.
#[derive(Debug)]
pub struct Batches {
    pub instances: Vec<BlitCommand>,
    pub ranges: Vec<InstanceRange>,
}

/// Whether the lookup structures of the grouping name, for each source
/// found so far, the place of its group.
spec fn indexed(keys: Seq<BlitSource>, by_texture: Map<usize, usize>, solid: Option<usize>) -> bool {
    &&& forall|g: int|
        0 <= g < keys.len() ==> match #[trigger] keys[g] {
            BlitSource::Solid => solid == Some(g as usize),
            BlitSource::Texture(texture) => by_texture.contains_key(texture@)
                && by_texture[texture@] == g,
        }
    &&& forall|k: usize| #[trigger]
        by_texture.contains_key(k) ==> by_texture[k] < keys.len() && (keys[by_texture[k] as int]
            matches BlitSource::Texture(texture) && texture@ == k)
    &&& solid matches Some(g) ==> g < keys.len() && keys[g as int] == BlitSource::Solid
}

/// Splits a draw list into one group per source. The groups stand in the
/// order in which their sources first appear, and each keeps its blits in
/// the order of the list.
fn group_blits(blits: &[BlitCommand]) -> (grouped: (Vec<BlitSource>, Vec<Vec<BlitCommand>>))
    ensures
        grouped.0@ == draw_order(blits@),
        grouped.1@.len() == grouped.0@.len(),
        forall|g: int|
            0 <= g < grouped.1@.len() ==> (#[trigger] grouped.1@[g])@ == group_of(
                blits@,
                grouped.0@[g],
            ),
{
    let mut keys: Vec<BlitSource> = Vec::new();
    let mut groups: Vec<Vec<BlitCommand>> = Vec::new();
    let mut by_texture: HashMap<usize, usize> = HashMap::new();
    let mut solid: Option<usize> = None;
    let mut i: usize = 0;
    proof {
        assert(blits@.take(0) =~= Seq::<BlitCommand>::empty());
    }
    while i < blits.len()
        invariant
            0 <= i <= blits@.len(),
            keys@ == draw_order(blits@.take(i as int)),
            groups@.len() == keys@.len(),
            forall|g: int|
                0 <= g < groups@.len() ==> (#[trigger] groups@[g])@ == group_of(
                    blits@.take(i as int),
                    keys@[g],
                ),
            indexed(keys@, by_texture@, solid),
        decreases blits@.len() - i,
    {
        let blit: BlitCommand = blits[i];
        let ghost seen = blits@.take(i as int);
        let ghost old_keys = keys@;
        let ghost old_groups = groups@;
        proof {
            assert(blits@.take(i + 1) =~= seen.push(blit));
            assert(seen.push(blit).drop_last() =~= seen);
            assert forall|source: BlitSource|
                group_of(seen.push(blit), source) == if blit.source == source {
                    group_of(seen, source).push(blit)
                } else {
                    group_of(seen, source)
                } by {
                lemma_group_of_push(seen, blit, source);
            }
        }
        let found: Option<usize> = match blit.source {
            BlitSource::Solid => solid,
            BlitSource::Texture(texture) => match by_texture.get(&texture.index()) {
                Some(g) => Some(*g),
                None => None,
            },
        };
        proof {
            match found {
                Some(g) => {
                    if let BlitSource::Texture(texture) = blit.source {
                        if let BlitSource::Texture(other) = keys@[g as int] {
                            TextureRef::lemma_view_injective(texture, other);
                        }
                    }
                    assert(keys@[g as int] == blit.source);
                },
                None => {
                    if keys@.contains(blit.source) {
                        let g = choose|g: int| 0 <= g < keys@.len() && keys@[g] == blit.source;
                        assert(false);
                    }
                },
            }
        }
        match found {
            Some(g) => {
                groups[g].push(blit);
                proof {
                    assert forall|h: int| 0 <= h < groups@.len() implies (#[trigger] groups@[h])@
                        == group_of(seen.push(blit), keys@[h]) by {
                        if h == g {
                            assert(groups@[h]@ == old_groups[h]@.push(blit));
                        } else {
                            assert(groups@[h] == old_groups[h]);
                            if keys@[h] == blit.source {
                                match blit.source {
                                    BlitSource::Solid => {
                                        assert(h <= keys.len() <= usize::MAX);
                                        assert(solid == Some(h as usize));
                                        assert(solid == Some(g));
                                    },
                                    BlitSource::Texture(texture) => {
                                        assert(by_texture@[texture@] == h);
                                        assert(by_texture@[texture@] == g);
                                    },
                                }
                            }
                        }
                    }
                }
            },
            None => {
                let g: usize = keys.len();
                match blit.source {
                    BlitSource::Solid => {
                        solid = Some(g);
                    },
                    BlitSource::Texture(texture) => {
                        by_texture.insert(texture.index(), g);
                    },
                }
                keys.push(blit.source);
                let mut group: Vec<BlitCommand> = Vec::new();
                group.push(blit);
                groups.push(group);
                proof {
                    lemma_draw_order(seen);
                    lemma_group_of_unused(seen, blit.source);
                    assert(group@ =~= group_of(seen, blit.source).push(blit));
                    assert forall|h: int| 0 <= h < keys@.len() implies match #[trigger] keys@[h] {
                        BlitSource::Solid => solid == Some(h as usize),
                        BlitSource::Texture(texture) => by_texture@.contains_key(texture@)
                            && by_texture@[texture@] == h,
                    } by {
                        if h < old_keys.len() {
                            assert(keys@[h] == old_keys[h]);
                            assert(old_keys.contains(old_keys[h]));
                            if let BlitSource::Texture(texture) = old_keys[h] {
                                if let BlitSource::Texture(fresh) = blit.source {
                                    TextureRef::lemma_view_injective(texture, fresh);
                                }
                            }
                        }
                    }
                    assert forall|k: usize| #[trigger]
                        by_texture@.contains_key(k) implies by_texture@[k] < keys@.len() && (
                    keys@[by_texture@[k] as int] matches BlitSource::Texture(texture) && texture@
                        == k) by {
                        if by_texture@[k] < old_keys.len() {
                            assert(keys@[by_texture@[k] as int] == old_keys[by_texture@[k] as int]);
                        }
                    }
                }
            },
        }
        i += 1;
    }
    proof {
        assert(blits@.take(i as int) =~= blits@);
    }
    (keys, groups)
}

/// Rearranges a draw list for instanced drawing. The blits are grouped by
/// source; the groups stand in the order in which their sources first
/// appear in the list, and each keeps the order of the list.
pub fn batch_blits(blits: &[BlitCommand]) -> (batches: Batches)
    ensures
        batches.instances@ == batched(blits@, draw_order(blits@)),
        batches.instances@.len() == blits@.len(),
        batches.instances@.to_multiset() == blits@.to_multiset(),
        batches.ranges@.len() == draw_order(blits@).len(),
        forall|g: int|
            0 <= g < batches.ranges@.len() ==> {
                let range = #[trigger] batches.ranges@[g];
                &&& range.source == draw_order(blits@)[g]
                &&& range.first == group_start(blits@, draw_order(blits@), g)
                &&& range.end == range.first + group_of(blits@, range.source).len()
                &&& range.end <= batches.instances@.len()
                &&& batches.instances@.subrange(range.first as int, range.end as int) == group_of(
                    blits@,
                    range.source,
                )
            },
{
    let (keys, mut groups) = group_blits(blits);
    let ghost order = draw_order(blits@);
    let ghost all_groups = groups@;
    let mut instances: Vec<BlitCommand> = Vec::new();
    let mut ranges: Vec<InstanceRange> = Vec::new();
    let mut g: usize = 0;
    proof {
        assert(order.take(0) =~= Seq::<BlitSource>::empty());
    }
    while g < keys.len()
        invariant
            0 <= g <= keys@.len(),
            keys@ == order,
            order == draw_order(blits@),
            groups@.len() == keys@.len(),
            all_groups.len() == keys@.len(),
            forall|h: int| g <= h < groups@.len() ==> #[trigger] groups@[h] == all_groups[h],
            forall|h: int|
                0 <= h < all_groups.len() ==> (#[trigger] all_groups[h])@ == group_of(
                    blits@,
                    order[h],
                ),
            instances@ == batched(blits@, order.take(g as int)),
            ranges@.len() == g,
            forall|h: int|
                0 <= h < g ==> {
                    let range = #[trigger] ranges@[h];
                    &&& range.source == order[h]
                    &&& range.first == group_start(blits@, order, h)
                    &&& range.end == group_start(blits@, order, h + 1)
                },
        decreases keys@.len() - g,
    {
        let first: usize = instances.len();
        proof {
            assert(order.take(g + 1).drop_last() =~= order.take(g as int));
            assert(groups@[g as int] == all_groups[g as int]);
        }
        instances.append(&mut groups[g]);
        let end: usize = instances.len();
        ranges.push(InstanceRange { source: keys[g], first, end });
        g += 1;
    }
    proof {
        assert(order.take(g as int) =~= order);
        lemma_batched_is_permutation(blits@);
        assert forall|h: int| 0 <= h < ranges@.len() implies {
            let range = #[trigger] ranges@[h];
            &&& range.end == range.first + group_of(blits@, range.source).len()
            &&& range.end <= instances@.len()
            &&& instances@.subrange(range.first as int, range.end as int) == group_of(
                blits@,
                range.source,
            )
        } by {
            lemma_group_range(blits@, order, h);
        }
    }
    Batches { instances, ranges }
}

} // verus!
