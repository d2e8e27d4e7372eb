//! The render coordinator: the single owner of the renderer's state, which
//! takes messages one at a time, in the order in which they were sent, and
//! says for each what is to be done on the GPU.

use vstd::prelude::*;
use crate::batching::{batch_blits, batched, draw_order, group_of, group_start, uses, Batches};
use crate::batching::{lemma_draw_order, lemma_group_range, lemma_one_pass_per_source};
use crate::color::Color;
use crate::commands::{BlitCommand, BlitSource, RenderCommands};
use crate::error::RenderError;
use crate::geometry::Vector2;
use crate::texture_ref::TextureRef;
use crate::textures::{rgba_len, Textures};

verus! {

/// The number of instances that the instance buffer has room for.
pub const INSTANCE_BUFFER_CAPACITY: usize = 4096;

/// What producers ask of the coordinator.
#[derive(Debug)]
pub enum RenderThreadMessage {
    /// The window's drawable area has a new size.
    Resize(Vector2),
    /// Draw and present one frame.
    Render(RenderCommands),
    /// Make a texture of the given size from RGBA8 pixel bytes.
    LoadTexture(TextureRef, Vec<u8>, Vector2),
}

/// One draw pass: a source, bound once, and the run of instances drawn from it.
#[derive(Debug, Clone, Copy, PartialEq, Eq)]
pub struct DrawPass {
    pub source: BlitSource,
    /// The slot of the texture's GPU resources; none for flat rectangles.
    pub bind_group: Option<usize>,
    pub first_instance: u32,
    pub end_instance: u32,
    /// The color to clear the target to before drawing; none to draw over
    /// what is there.
    pub clear_color: Option<Color>,
}

/// A frame made ready for the GPU: the instance array, written in one
/// piece from offset zero, and the passes that draw from it.
#[derive(Debug)]
pub struct Frame {
    pub instances: Vec<BlitCommand>,
    pub passes: Vec<DrawPass>,
}

/// What the owner of the GPU is to do for a message.
#[derive(Debug)]
pub enum RenderAction {
    /// Configure the surface for this size and upload its projection.
    Reconfigure(Vector2),
    /// Create the texture of this size from the bytes and keep its
    /// resources in the slot.
    Upload { slot: usize, texture: TextureRef, data: Vec<u8>, size: Vector2 },
    /// Write the instances, encode the passes, submit and present.
    Present(Frame),
}

/// The coordinator's state as contracts see it.
pub struct CoordinatorState {
    /// The size that the surface is configured for.
    pub size: Vector2,
    /// The slot of each loaded texture.
    pub textures: Map<TextureRef, usize>,
    /// The number of slots handed out.
    pub slots: nat,
}

/// Whether a source can be bound: flat rectangles always, a texture once it is loaded.
pub open spec fn is_known(source: BlitSource, textures: Map<TextureRef, usize>) -> bool {
    match source {
        BlitSource::Solid => true,
        BlitSource::Texture(texture) => textures.contains_key(texture),
    }
}

/// The first texture among the sources that has not been loaded, if there is one.
pub open spec fn first_unknown(order: Seq<BlitSource>, textures: Map<TextureRef, usize>) -> Option<
    TextureRef,
>
    decreases order.len(),
{
    if order.len() == 0 {
        None
    } else {
        match first_unknown(order.drop_last(), textures) {
            Some(texture) => Some(texture),
            None => match order.last() {
                BlitSource::Solid => None,
                BlitSource::Texture(texture) => if textures.contains_key(texture) {
                    None
                } else {
                    Some(texture)
                },
            },
        }
    }
}

/// Whether a frame can be drawn with the given textures loaded, and if not, why.
pub open spec fn renderable(commands: RenderCommands, textures: Map<TextureRef, usize>) -> Result<
    (),
    RenderError,
> {
    if commands.blits@.len() > INSTANCE_BUFFER_CAPACITY {
        Err(RenderError::CapacityExceeded)
    } else {
        match first_unknown(draw_order(commands.blits@), textures) {
            Some(texture) => Err(RenderError::UnknownTexture(texture)),
            None => Ok(()),
        }
    }
}

/// The pass at place `index` of a frame's passes.
pub open spec fn expected_pass(
    commands: RenderCommands,
    textures: Map<TextureRef, usize>,
    index: int,
) -> DrawPass {
    let blits = commands.blits@;
    let order = draw_order(blits);
    DrawPass {
        source: order[index],
        bind_group: match order[index] {
            BlitSource::Solid => None,
            BlitSource::Texture(texture) => Some(textures[texture]),
        },
        first_instance: group_start(blits, order, index) as u32,
        end_instance: group_start(blits, order, index + 1) as u32,
        clear_color: if index == 0 {
            commands.clear_color
        } else {
            None
        },
    }
}

/// Whether `frame` is the given draw list made ready: the blits grouped by
/// source, and one pass per source in the order of first appearance, of
/// which only the first clears.
pub open spec fn frame_fits(
    frame: Frame,
    commands: RenderCommands,
    textures: Map<TextureRef, usize>,
) -> bool {
    &&& frame.instances@ == batched(commands.blits@, draw_order(commands.blits@))
    &&& frame.passes@.len() == draw_order(commands.blits@).len()
    &&& forall|g: int|
        0 <= g < frame.passes@.len() ==> #[trigger] frame.passes@[g] == expected_pass(
            commands,
            textures,
            g,
        )
}

/// Once an unloaded texture has been met, it stays the first one.
pub proof fn lemma_first_unknown_stays(
    order: Seq<BlitSource>,
    textures: Map<TextureRef, usize>,
    count: int,
)
    requires
        0 <= count <= order.len(),
        first_unknown(order.take(count), textures).is_some(),
    ensures
        first_unknown(order, textures) == first_unknown(order.take(count), textures),
    decreases order.len(),
{
    if count == order.len() {
        assert(order.take(count) =~= order);
    } else {
        assert(order.drop_last().take(count) =~= order.take(count));
        lemma_first_unknown_stays(order.drop_last(), textures, count);
    }
}

/// No texture is reported exactly when every source can be bound.
pub proof fn lemma_first_unknown_none(order: Seq<BlitSource>, textures: Map<TextureRef, usize>)
    ensures
        first_unknown(order, textures).is_none() <==> forall|g: int|
            0 <= g < order.len() ==> is_known(#[trigger] order[g], textures),
        first_unknown(order, textures) matches Some(texture) ==> order.contains(
            BlitSource::Texture(texture),
        ) && !textures.contains_key(texture),
    decreases order.len(),
{
    if order.len() > 0 {
        let front = order.drop_last();
        lemma_first_unknown_none(front, textures);
        if first_unknown(front, textures).is_none() {
            assert forall|g: int| 0 <= g < front.len() implies is_known(
                #[trigger] order[g],
                textures,
            ) by {
                assert(is_known(front[g], textures));
            }
            if let Some(texture) = first_unknown(order, textures) {
                assert(order[order.len() - 1] == BlitSource::Texture(texture));
            }
        } else {
            let g = choose|g: int| 0 <= g < front.len() && !is_known(#[trigger] front[g], textures);
            assert(!is_known(order[g], textures));
            let texture = first_unknown(front, textures).unwrap();
            let k = choose|k: int| 0 <= k < front.len() && front[k] == BlitSource::Texture(texture);
            assert(order[k] == BlitSource::Texture(texture));
        }
    }
}

/// The state that a message leaves behind, or the condition that stops
/// the coordinator.
pub open spec fn step(state: CoordinatorState, message: RenderThreadMessage) -> Result<
    CoordinatorState,
    RenderError,
> {
    match message {
        RenderThreadMessage::Resize(size) => Ok(CoordinatorState { size, ..state }),
        RenderThreadMessage::LoadTexture(texture, data, size) => if data@.len() == rgba_len(size) {
            Ok(
                CoordinatorState {
                    textures: state.textures.insert(texture, state.slots as usize),
                    slots: state.slots + 1,
                    ..state
                },
            )
        } else {
            Err(RenderError::TextureSizeMismatch)
        },
        RenderThreadMessage::Render(commands) => match renderable(commands, state.textures) {
            Ok(()) => Ok(state),
            Err(error) => Err(error),
        },
    }
}

/// The state after a queue of messages, taken strictly in the order in
/// which they were sent, or the first condition that stops the coordinator.
pub open spec fn run(state: CoordinatorState, messages: Seq<RenderThreadMessage>) -> Result<
    CoordinatorState,
    RenderError,
>
    decreases messages.len(),
{
    if messages.len() == 0 {
        Ok(state)
    } else {
        match step(state, messages.first()) {
            Ok(next) => run(next, messages.drop_first()),
            Err(error) => Err(error),
        }
    }
}

/// Whether `action` is what the message asks of the GPU in the given state.
pub open spec fn action_fits(
    action: RenderAction,
    state: CoordinatorState,
    message: RenderThreadMessage,
) -> bool {
    match message {
        RenderThreadMessage::Resize(size) => action == RenderAction::Reconfigure(size),
        RenderThreadMessage::LoadTexture(texture, data, size) => action matches RenderAction::Upload {
            slot,
            texture: uploaded,
            data: bytes,
            size: extent,
        } && slot == state.slots && uploaded == texture && bytes@ == data@ && extent == size,
        RenderThreadMessage::Render(commands) => action matches RenderAction::Present(frame)
            && frame_fits(frame, commands, state.textures),
    }
}

/// A frame is drawn in as many passes as its blits have distinct sources.
pub proof fn lemma_pass_per_source(
    frame: Frame,
    commands: RenderCommands,
    textures: Map<TextureRef, usize>,
)
    requires
        frame_fits(frame, commands, textures),
    ensures
        frame.passes@.len() == commands.blits@.map_values(
            |blit: BlitCommand| blit.source,
        ).to_set().len(),
        forall|g: int, h: int|
            0 <= g < h < frame.passes@.len() ==> frame.passes@[g].source != frame.passes@[h].source,
        forall|source: BlitSource|
            uses(commands.blits@, source) <==> exists|g: int|
                0 <= g < frame.passes@.len() && #[trigger] frame.passes@[g].source == source,
{
    let order = draw_order(commands.blits@);
    lemma_one_pass_per_source(commands.blits@);
    lemma_draw_order(commands.blits@);
    assert forall|source: BlitSource|
        uses(commands.blits@, source) <==> exists|g: int|
            0 <= g < frame.passes@.len() && #[trigger] frame.passes@[g].source == source by {
        if order.contains(source) {
            let g = choose|g: int| 0 <= g < order.len() && order[g] == source;
            assert(frame.passes@[g].source == source);
        }
        if exists|g: int| 0 <= g < frame.passes@.len() && #[trigger] frame.passes@[g].source == source {
            let g = choose|g: int|
                0 <= g < frame.passes@.len() && #[trigger] frame.passes@[g].source == source;
            assert(order[g] == source);
        }
    }
}

/// In a frame within the instance buffer's capacity, each pass draws
/// exactly the blits of its source, in the order in which they were
/// requested; the passes' runs follow one another from the start of the
/// instance array to its end, and the array holds every requested blit.
pub proof fn lemma_pass_instances(
    frame: Frame,
    commands: RenderCommands,
    textures: Map<TextureRef, usize>,
    index: int,
)
    requires
        frame_fits(frame, commands, textures),
        commands.blits@.len() <= INSTANCE_BUFFER_CAPACITY,
        0 <= index < frame.passes@.len(),
    ensures
        frame.instances@.len() == commands.blits@.len(),
        frame.instances@.to_multiset() == commands.blits@.to_multiset(),
        frame.passes@[index].first_instance <= frame.passes@[index].end_instance
            <= frame.instances@.len(),
        frame.instances@.subrange(
            frame.passes@[index].first_instance as int,
            frame.passes@[index].end_instance as int,
        ) == group_of(commands.blits@, frame.passes@[index].source),
        frame.passes@[index].end_instance - frame.passes@[index].first_instance == group_of(
            commands.blits@,
            frame.passes@[index].source,
        ).len(),
        index == 0 ==> frame.passes@[index].first_instance == 0,
        index > 0 ==> frame.passes@[index].first_instance == frame.passes@[index
            - 1].end_instance,
        index == frame.passes@.len() - 1 ==> frame.passes@[index].end_instance
            == frame.instances@.len(),
{
    let blits = commands.blits@;
    let order = draw_order(blits);
    crate::batching::lemma_batched_is_permutation(blits);
    lemma_group_range(blits, order, index);
    assert(order.take(0) =~= Seq::<BlitSource>::empty());
    assert(order.take(order.len() as int) =~= order);
    assert(frame.passes@[index] == expected_pass(commands, textures, index));
    if index > 0 {
        assert(frame.passes@[index - 1] == expected_pass(commands, textures, index - 1));
    }
}

/// Only the first pass of a frame clears the target, and it clears to the
/// frame's clear color.
pub proof fn lemma_first_pass_clears(
    frame: Frame,
    commands: RenderCommands,
    textures: Map<TextureRef, usize>,
    index: int,
)
    requires
        frame_fits(frame, commands, textures),
        0 <= index < frame.passes@.len(),
    ensures
        frame.passes@[index].clear_color == if index == 0 {
            commands.clear_color
        } else {
            None
        },
{
    assert(frame.passes@[index] == expected_pass(commands, textures, index));
}

/// A frame can be drawn exactly when it fits the instance buffer and every
/// texture it draws is loaded.
pub proof fn lemma_renderable(commands: RenderCommands, textures: Map<TextureRef, usize>)
    ensures
        renderable(commands, textures).is_ok() <==> commands.blits@.len()
            <= INSTANCE_BUFFER_CAPACITY && forall|j: int|
            0 <= j < commands.blits@.len() ==> is_known(
                (#[trigger] commands.blits@[j]).source,
                textures,
            ),
{
    let blits = commands.blits@;
    let order = draw_order(blits);
    lemma_first_unknown_none(order, textures);
    lemma_draw_order(blits);
    if forall|g: int| 0 <= g < order.len() ==> is_known(#[trigger] order[g], textures) {
        assert forall|j: int| 0 <= j < blits.len() implies is_known(
            (#[trigger] blits[j]).source,
            textures,
        ) by {
            assert(uses(blits, blits[j].source));
            assert(order.contains(blits[j].source));
            let g = choose|g: int| 0 <= g < order.len() && order[g] == blits[j].source;
            assert(is_known(order[g], textures));
        }
    }
    if forall|j: int| 0 <= j < blits.len() ==> is_known((#[trigger] blits[j]).source, textures) {
        assert forall|g: int| 0 <= g < order.len() implies is_known(
            #[trigger] order[g],
            textures,
        ) by {
            assert(order.contains(order[g]));
            assert(uses(blits, order[g]));
            let j = choose|j: int| 0 <= j < blits.len() && (#[trigger] blits[j]).source == order[g];
            assert(is_known(blits[j].source, textures));
        }
    }
}

/// Running a queue of one message is taking that step.
pub proof fn lemma_run_one(state: CoordinatorState, message: RenderThreadMessage)
    ensures
        run(state, seq![message]) == step(state, message),
{
    assert(seq![message].first() == message);
    assert(seq![message].drop_first() =~= Seq::<RenderThreadMessage>::empty());
    if let Ok(next) = step(state, message) {
        assert(run(next, Seq::<RenderThreadMessage>::empty()) == Ok::<
            CoordinatorState,
            RenderError,
        >(next));
    }
}

/// Running two queues one after the other is running their concatenation.
pub proof fn lemma_run_append(
    state: CoordinatorState,
    first: Seq<RenderThreadMessage>,
    second: Seq<RenderThreadMessage>,
)
    ensures
        run(state, first + second) == match run(state, first) {
            Ok(between) => run(between, second),
            Err(error) => Err(error),
        },
    decreases first.len(),
{
    if first.len() == 0 {
        assert(first + second =~= second);
    } else {
        assert((first + second).first() == first.first());
        assert((first + second).drop_first() =~= first.drop_first() + second);
        if let Ok(next) = step(state, first.first()) {
            lemma_run_append(next, first.drop_first(), second);
        }
    }
}

/// The table of textures only grows: whatever is loaded stays loaded
/// through every message that follows.
pub proof fn lemma_textures_retained(state: CoordinatorState, messages: Seq<RenderThreadMessage>)
    ensures
        run(state, messages) matches Ok(end) ==> state.slots <= end.slots && forall|
            texture: TextureRef,
        | #[trigger]
            state.textures.contains_key(texture) ==> end.textures.contains_key(texture),
    decreases messages.len(),
{
    if messages.len() > 0 {
        if let Ok(next) = step(state, messages.first()) {
            if let Ok(end) = run(next, messages.drop_first()) {
                lemma_textures_retained(next, messages.drop_first());
                assert forall|texture: TextureRef| #[trigger]
                    state.textures.contains_key(texture) implies end.textures.contains_key(
                    texture,
                ) by {
                    assert(next.textures.contains_key(texture));
                }
            }
        }
    }
}

/// Loading a texture with exactly four bytes per pixel succeeds, and every
/// frame requested afterwards that fits the instance buffer and draws
/// nothing but that texture, textures loaded before it and flat rectangles
/// can be drawn, whatever other messages went well in between. Loading
/// with any other number of bytes stops the coordinator.
pub proof fn lemma_loaded_before_drawn(
    state: CoordinatorState,
    texture: TextureRef,
    data: Vec<u8>,
    size: Vector2,
    between: Seq<RenderThreadMessage>,
    commands: RenderCommands,
)
    requires
        commands.blits@.len() <= INSTANCE_BUFFER_CAPACITY,
        forall|j: int|
            0 <= j < commands.blits@.len() ==> (#[trigger] commands.blits@[j]).source
                == BlitSource::Texture(texture) || is_known(
                commands.blits@[j].source,
                state.textures,
            ),
    ensures
        data@.len() != rgba_len(size) ==> step(
            state,
            RenderThreadMessage::LoadTexture(texture, data, size),
        ) == Err::<CoordinatorState, RenderError>(RenderError::TextureSizeMismatch),
        data@.len() == rgba_len(size) ==> match run(
            state,
            seq![RenderThreadMessage::LoadTexture(texture, data, size)] + between,
        ) {
            Ok(before) => run(
                state,
                seq![RenderThreadMessage::LoadTexture(texture, data, size)] + between
                    + seq![RenderThreadMessage::Render(commands)],
            ) == Ok::<CoordinatorState, RenderError>(before),
            Err(_) => true,
        },
{
    let load = RenderThreadMessage::LoadTexture(texture, data, size);
    let draw = RenderThreadMessage::Render(commands);
    if data@.len() == rgba_len(size) {
        let loaded = step(state, load).unwrap();
        lemma_run_append(state, seq![load], between);
        lemma_run_one(state, load);
        if let Ok(before) = run(loaded, between) {
            lemma_textures_retained(loaded, between);
            lemma_run_append(state, seq![load] + between, seq![draw]);
            lemma_run_one(before, draw);
            assert forall|j: int| 0 <= j < commands.blits@.len() implies is_known(
                (#[trigger] commands.blits@[j]).source,
                before.textures,
            ) by {
                assert(is_known(commands.blits@[j].source, loaded.textures));
            }
            lemma_renderable(commands, before.textures);
        }
    }
}

/// The single owner of the renderer's state.
pub struct RendererThread {
    size: Vector2,
    textures: Textures,
}

impl View for RendererThread {
    type V = CoordinatorState;

    closed spec fn view(&self) -> CoordinatorState {
        CoordinatorState { size: self.size, textures: self.textures@, slots: self.textures.len() }
    }
}

impl RendererThread {
    /// The coordinator's invariant: every loaded texture has a slot that
    /// was handed out.
    pub closed spec fn wf(&self) -> bool {
        self.textures.wf()
    }

    /// Every pass of a frame made ready by this coordinator binds a slot
    /// that has been handed out.
    pub proof fn lemma_bind_groups_in_range(&self, frame: Frame, commands: RenderCommands, index: int)
        requires
            self.wf(),
            renderable(commands, self@.textures).is_ok(),
            frame_fits(frame, commands, self@.textures),
            0 <= index < frame.passes@.len(),
        ensures
            frame.passes@[index].bind_group matches Some(slot) ==> slot < self@.slots,
    {
        let order = draw_order(commands.blits@);
        assert(frame.passes@[index] == expected_pass(commands, self@.textures, index));
        lemma_first_unknown_none(order, self@.textures);
        assert(is_known(order[index], self@.textures));
        if let BlitSource::Texture(texture) = order[index] {
            self.textures.lemma_slots_in_range(texture);
        }
    }

    /// A coordinator for a surface of the given size, with no texture loaded.
    pub fn compatible_with(size: Vector2) -> (thread: RendererThread)
        ensures
            thread.wf(),
            thread@ == (CoordinatorState {
                size,
                textures: Map::<TextureRef, usize>::empty(),
                slots: 0,
            }),
    {
        RendererThread { size, textures: Textures::new() }
    }

    /// The size that the surface is configured for.
    pub fn size(&self) -> (size: Vector2)
        ensures
            size == self@.size,
    {
        self.size
    }

    /// Takes note of the surface's new size.
    pub fn resize(&mut self, size: Vector2)
        requires
            old(self).wf(),
        ensures
            final(self).wf(),
            final(self)@ == (CoordinatorState { size, ..old(self)@ }),
    {
        self.size = size;
    }

    /// Makes a frame ready for the GPU. Fails if the frame holds more blits
    /// than the instance buffer has room for, or else if it draws a texture
    /// that is not loaded: the first such texture in the order of the passes
    /// is reported.
    pub fn render(&self, commands: RenderCommands) -> (result: Result<Frame, RenderError>)
        requires
            self.wf(),
        ensures
            match renderable(commands, self@.textures) {
                Ok(()) => result matches Ok(frame) && frame_fits(frame, commands, self@.textures),
                Err(error) => result matches Err(reported) && reported == error,
            },
    {
        if commands.blits.len() > INSTANCE_BUFFER_CAPACITY {
            return Err(RenderError::CapacityExceeded);
        }
        let ghost blits = commands.blits@;
        let ghost order = draw_order(blits);
        let ghost textures = self@.textures;
        let Batches { instances, ranges } = batch_blits(commands.blits.as_slice());
        let mut passes: Vec<DrawPass> = Vec::new();
        let mut g: usize = 0;
        proof {
            assert(order.take(0) =~= Seq::<BlitSource>::empty());
        }
        while g < ranges.len()
            invariant
                0 <= g <= ranges@.len(),
                self.wf(),
                blits == commands.blits@,
                blits.len() <= INSTANCE_BUFFER_CAPACITY,
                order == draw_order(blits),
                textures == self@.textures,
                instances@.len() == blits.len(),
                ranges@.len() == order.len(),
                forall|h: int|
                    0 <= h < ranges@.len() ==> {
                        let range = #[trigger] ranges@[h];
                        &&& range.source == order[h]
                        &&& range.first == group_start(blits, order, h)
                        &&& range.end == range.first + group_of(blits, range.source).len()
                        &&& range.end <= instances@.len()
                    },
                first_unknown(order.take(g as int), textures).is_none(),
                passes@.len() == g,
                forall|h: int|
                    0 <= h < g ==> #[trigger] passes@[h] == expected_pass(commands, textures, h),
            decreases ranges@.len() - g,
        {
            let range = ranges[g];
            proof {
                assert(order.take(g + 1).drop_last() =~= order.take(g as int));
                assert(order.take(g + 1).last() == order[g as int]);
                lemma_group_range(blits, order, g as int);
            }
            let bind_group: Option<usize> = match range.source {
                BlitSource::Solid => None,
                BlitSource::Texture(texture) => match self.textures.bind_group_for_texture(
                    &texture,
                ) {
                    Ok(slot) => Some(slot),
                    Err(error) => {
                        proof {
                            lemma_first_unknown_stays(order, textures, g + 1);
                        }
                        return Err(error);
                    },
                },
            };
            let clear_color: Option<Color> = if g == 0 {
                commands.clear_color
            } else {
                None
            };
            passes.push(
                DrawPass {
                    source: range.source,
                    bind_group,
                    first_instance: range.first as u32,
                    end_instance: range.end as u32,
                    clear_color,
                },
            );
            g += 1;
        }
        proof {
            assert(order.take(g as int) =~= order);
        }
        Ok(Frame { instances, passes })
    }

    /// Registers a texture: see `Textures::load_texture`.
    pub fn load_texture(&mut self, texture_id: TextureRef, data: &[u8], size: Vector2) -> (result:
        Result<usize, RenderError>)
        requires
            old(self).wf(),
        ensures
            final(self).wf(),
            data@.len() == rgba_len(size) ==> result == Ok::<usize, RenderError>(
                old(self)@.slots as usize,
            ) && final(self)@ == (CoordinatorState {
                textures: old(self)@.textures.insert(texture_id, old(self)@.slots as usize),
                slots: old(self)@.slots + 1,
                ..old(self)@
            }),
            data@.len() != rgba_len(size) ==> result == Err::<usize, RenderError>(
                RenderError::TextureSizeMismatch,
            ) && final(self)@ == old(self)@,
    {
        self.textures.load_texture(texture_id, data, size)
    }

    /// Carries out one message: moves to the state that `step` gives and
    /// says what is to be done on the GPU, or reports the condition that
    /// stops the coordinator and leaves the state as it was.
    pub fn handle(&mut self, message: RenderThreadMessage) -> (result: Result<
        RenderAction,
        RenderError,
    >)
        requires
            old(self).wf(),
        ensures
            final(self).wf(),
            match step(old(self)@, message) {
                Ok(next) => final(self)@ == next && (result matches Ok(action) && action_fits(
                    action,
                    old(self)@,
                    message,
                )),
                Err(error) => final(self)@ == old(self)@ && (result matches Err(reported)
                    && reported == error),
            },
    {
        match message {
            RenderThreadMessage::Resize(size) => {
                self.resize(size);
                Ok(RenderAction::Reconfigure(size))
            },
            RenderThreadMessage::Render(commands) => {
                match self.render(commands) {
                    Ok(frame) => Ok(RenderAction::Present(frame)),
                    Err(error) => Err(error),
                }
            },
            RenderThreadMessage::LoadTexture(texture, data, size) => {
                proof {
                    self.textures.lemma_len_in_range();
                }
                match self.load_texture(texture, data.as_slice(), size) {
                    Ok(slot) => Ok(RenderAction::Upload { slot, texture, data, size }),
                    Err(error) => Err(error),
                }
            },
        }
    }
}

} // verus!
