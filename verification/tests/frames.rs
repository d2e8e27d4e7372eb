use floppa2::batching::{batch_blits, InstanceRange};
use floppa2::color::Color;
use floppa2::commands::{BlitCommand, BlitSource, RenderCommands};
use floppa2::error::RenderError;
use floppa2::geometry::Vector2;
use floppa2::render_thread::{
    DrawPass, RenderAction, RenderThreadMessage, RendererThread, INSTANCE_BUFFER_CAPACITY,
};
use floppa2::renderer::{Renderer, TextureData};
use floppa2::sprite::Sprite;
use floppa2::texture_ref::{TextureRef, TextureRefManager};

fn blit(source: BlitSource, x: u32) -> BlitCommand {
    BlitCommand { source, position: Vector2::new(x, 0), size: Vector2::new(1, 1), color: Color::white() }
}

fn refs(count: usize) -> Vec<TextureRef> {
    let mut manager = TextureRefManager::new();
    (0..count).map(|_| manager.next()).collect()
}

fn loaded(thread: &mut RendererThread, texture: TextureRef) -> usize {
    thread.load_texture(texture, &[0u8; 4], Vector2::new(1, 1)).unwrap()
}

struct Pixels {
    bytes: Vec<u8>,
    width: u32,
    height: u32,
}

impl TextureData for Pixels {
    fn data(&self) -> Vec<u8> {
        self.bytes.clone()
    }

    fn size(&self) -> Vector2 {
        Vector2::new(self.width, self.height)
    }
}

#[test]
fn batching_groups_by_source_in_order_of_first_appearance() {
    let t = refs(3);
    let (a, b, c) = (BlitSource::Texture(t[0]), BlitSource::Texture(t[1]), BlitSource::Texture(t[2]));
    let blits = vec![blit(b, 0), blit(a, 1), blit(b, 2), blit(c, 3), blit(a, 4), blit(b, 5)];
    let batches = batch_blits(&blits);
    assert_eq!(
        batches.instances,
        vec![blit(b, 0), blit(b, 2), blit(b, 5), blit(a, 1), blit(a, 4), blit(c, 3)]
    );
    assert_eq!(
        batches.ranges,
        vec![
            InstanceRange { source: b, first: 0, end: 3 },
            InstanceRange { source: a, first: 3, end: 5 },
            InstanceRange { source: c, first: 5, end: 6 },
        ]
    );
}

#[test]
fn batching_an_empty_list_gives_nothing() {
    let batches = batch_blits(&[]);
    assert!(batches.instances.is_empty());
    assert!(batches.ranges.is_empty());
}

#[test]
fn batching_keeps_solid_rectangles_in_a_group_of_their_own() {
    let t = refs(1);
    let a = BlitSource::Texture(t[0]);
    let blits = vec![blit(a, 0), blit(BlitSource::Solid, 1), blit(a, 2), blit(BlitSource::Solid, 3)];
    let batches = batch_blits(&blits);
    assert_eq!(
        batches.instances,
        vec![blit(a, 0), blit(a, 2), blit(BlitSource::Solid, 1), blit(BlitSource::Solid, 3)]
    );
    assert_eq!(
        batches.ranges,
        vec![
            InstanceRange { source: a, first: 0, end: 2 },
            InstanceRange { source: BlitSource::Solid, first: 2, end: 4 },
        ]
    );
}

#[test]
fn batching_many_textures_keeps_every_blit_once() {
    let t = refs(50);
    let mut blits = Vec::new();
    for i in 0..1000u32 {
        blits.push(blit(BlitSource::Texture(t[((i * 7) % 50) as usize]), i));
    }
    let batches = batch_blits(&blits);
    assert_eq!(batches.instances.len(), 1000);
    assert_eq!(batches.ranges.len(), 50);
    let mut seen: Vec<u32> = batches.instances.iter().map(|b| b.position.x).collect();
    seen.sort();
    assert_eq!(seen, (0..1000).collect::<Vec<u32>>());
    let mut next = 0;
    for range in &batches.ranges {
        assert_eq!(range.first, next);
        assert_eq!(range.end - range.first, 20);
        let group = &batches.instances[range.first..range.end];
        assert!(group.iter().all(|b| b.source == range.source));
        assert!(group.windows(2).all(|w| w[0].position.x < w[1].position.x));
        next = range.end;
    }
    assert_eq!(next, 1000);
}

#[test]
fn a_frame_has_one_pass_per_distinct_source() {
    let t = refs(2);
    let mut thread = RendererThread::compatible_with(Vector2::new(800, 600));
    let slot_a = loaded(&mut thread, t[0]);
    let slot_b = loaded(&mut thread, t[1]);
    let (a, b) = (BlitSource::Texture(t[0]), BlitSource::Texture(t[1]));
    let commands = RenderCommands {
        clear_color: Some(Color::blue()),
        blits: vec![blit(b, 0), blit(BlitSource::Solid, 1), blit(a, 2), blit(b, 3), blit(b, 4)],
    };
    let frame = thread.render(commands).unwrap();
    assert_eq!(
        frame.instances,
        vec![blit(b, 0), blit(b, 3), blit(b, 4), blit(BlitSource::Solid, 1), blit(a, 2)]
    );
    assert_eq!(
        frame.passes,
        vec![
            DrawPass {
                source: b,
                bind_group: Some(slot_b),
                first_instance: 0,
                end_instance: 3,
                clear_color: Some(Color::blue()),
            },
            DrawPass {
                source: BlitSource::Solid,
                bind_group: None,
                first_instance: 3,
                end_instance: 4,
                clear_color: None,
            },
            DrawPass {
                source: a,
                bind_group: Some(slot_a),
                first_instance: 4,
                end_instance: 5,
                clear_color: None,
            },
        ]
    );
}

#[test]
fn a_frame_without_a_clear_color_clears_in_no_pass() {
    let t = refs(1);
    let mut thread = RendererThread::compatible_with(Vector2::new(8, 8));
    loaded(&mut thread, t[0]);
    let commands = RenderCommands {
        clear_color: None,
        blits: vec![blit(BlitSource::Texture(t[0]), 0), blit(BlitSource::Solid, 1)],
    };
    let frame = thread.render(commands).unwrap();
    assert_eq!(frame.passes.len(), 2);
    assert!(frame.passes.iter().all(|pass| pass.clear_color.is_none()));
}

#[test]
fn an_empty_frame_has_no_pass() {
    let thread = RendererThread::compatible_with(Vector2::new(8, 8));
    let frame = thread.render(RenderCommands::default()).unwrap();
    assert!(frame.passes.is_empty());
    assert!(frame.instances.is_empty());
}

#[test]
fn drawing_an_unloaded_texture_is_reported() {
    let t = refs(3);
    let mut thread = RendererThread::compatible_with(Vector2::new(8, 8));
    loaded(&mut thread, t[1]);
    let commands = RenderCommands {
        clear_color: None,
        blits: vec![
            blit(BlitSource::Texture(t[1]), 0),
            blit(BlitSource::Texture(t[2]), 1),
            blit(BlitSource::Texture(t[0]), 2),
        ],
    };
    assert_eq!(thread.render(commands).unwrap_err(), RenderError::UnknownTexture(t[2]));
}

#[test]
fn five_thousand_blits_exceed_the_capacity() {
    let t = refs(1);
    let mut thread = RendererThread::compatible_with(Vector2::new(8, 8));
    loaded(&mut thread, t[0]);
    let commands = RenderCommands {
        clear_color: None,
        blits: (0..5000).map(|i| blit(BlitSource::Texture(t[0]), i)).collect(),
    };
    assert_eq!(thread.render(commands).unwrap_err(), RenderError::CapacityExceeded);
}

#[test]
fn the_capacity_is_4096_instances_exactly() {
    assert_eq!(INSTANCE_BUFFER_CAPACITY, 4096);
    let t = refs(1);
    let mut thread = RendererThread::compatible_with(Vector2::new(8, 8));
    loaded(&mut thread, t[0]);
    let full = RenderCommands {
        clear_color: None,
        blits: (0..4096).map(|i| blit(BlitSource::Texture(t[0]), i)).collect(),
    };
    let frame = thread.render(full).unwrap();
    assert_eq!(frame.instances.len(), 4096);
    assert_eq!(frame.passes.len(), 1);
    assert_eq!(frame.passes[0].first_instance, 0);
    assert_eq!(frame.passes[0].end_instance, 4096);
    let over = RenderCommands {
        clear_color: None,
        blits: (0..4097).map(|i| blit(BlitSource::Texture(t[0]), i)).collect(),
    };
    assert_eq!(thread.render(over).unwrap_err(), RenderError::CapacityExceeded);
}

#[test]
fn capacity_is_checked_before_textures_are_looked_up() {
    let t = refs(1);
    let thread = RendererThread::compatible_with(Vector2::new(8, 8));
    let commands = RenderCommands {
        clear_color: None,
        blits: (0..4097).map(|i| blit(BlitSource::Texture(t[0]), i)).collect(),
    };
    assert_eq!(thread.render(commands).unwrap_err(), RenderError::CapacityExceeded);
}

#[test]
fn loading_with_matching_bytes_then_drawing_succeeds() {
    let (mut renderer, mut thread) = Renderer::compatible_with((800, 600));
    let (sprite, load) = renderer.load_sprite(vec![7u8; 3 * 2 * 4], Vector2::new(3, 2));
    match thread.handle(load) {
        Ok(RenderAction::Upload { slot, texture, data, size }) => {
            assert_eq!(slot, 0);
            assert_eq!(texture, sprite.texture);
            assert_eq!(data, vec![7u8; 24]);
            assert_eq!(size, Vector2::new(3, 2));
        }
        other => panic!("{:?}", other),
    }
    let frame = renderer.render(|commands| {
        commands.draw(&sprite);
    });
    match thread.handle(frame) {
        Ok(RenderAction::Present(frame)) => {
            assert_eq!(frame.passes.len(), 1);
            assert_eq!(frame.passes[0].bind_group, Some(0));
            assert_eq!(frame.passes[0].source, BlitSource::Texture(sprite.texture));
            assert_eq!(frame.instances[0].size, Vector2::new(3, 2));
        }
        other => panic!("{:?}", other),
    }
}

#[test]
fn loading_with_any_other_byte_length_fails() {
    for len in [0usize, 1, 23, 25, 48] {
        let (mut renderer, mut thread) = Renderer::compatible_with((800, 600));
        let (_, load) = renderer.load_sprite(vec![0u8; len], Vector2::new(3, 2));
        assert_eq!(thread.handle(load).unwrap_err(), RenderError::TextureSizeMismatch);
    }
}

#[test]
fn a_failed_load_leaves_the_texture_unknown() {
    let (mut renderer, mut thread) = Renderer::compatible_with((800, 600));
    let (sprite, load) = renderer.load_sprite(vec![0u8; 3], Vector2::new(1, 1));
    assert!(thread.handle(load).is_err());
    let frame = renderer.render(|commands| {
        commands.draw(&sprite);
    });
    assert_eq!(thread.handle(frame).unwrap_err(), RenderError::UnknownTexture(sprite.texture));
}

#[test]
fn create_sprite_then_render_finds_the_texture() {
    let (mut renderer, mut thread) = Renderer::compatible_with((640, 480));
    let mut queue: Vec<RenderThreadMessage> = Vec::new();
    let (first, load_first) =
        renderer.create_sprite(Pixels { bytes: vec![1u8; 16], width: 2, height: 2 });
    queue.push(load_first);
    let (second, load_second) =
        renderer.create_sprite(Pixels { bytes: vec![2u8; 4], width: 1, height: 1 });
    queue.push(load_second);
    queue.push(renderer.render(|commands| {
        commands.draw(&second).at(Vector2::new(5, 5));
        commands.draw(&first);
    }));
    assert_ne!(first.texture, second.texture);
    assert_eq!(first.size(), Vector2::new(2, 2));
    assert_eq!(second.size(), Vector2::new(1, 1));
    let mut actions = Vec::new();
    for message in queue {
        actions.push(thread.handle(message).unwrap());
    }
    assert_eq!(actions.len(), 3);
    match &actions[0] {
        RenderAction::Upload { slot, texture, data, size } => {
            assert_eq!((*slot, *texture, *size), (0, first.texture, Vector2::new(2, 2)));
            assert_eq!(data, &vec![1u8; 16]);
        }
        other => panic!("{:?}", other),
    }
    match &actions[2] {
        RenderAction::Present(frame) => {
            assert_eq!(frame.passes.len(), 2);
            assert_eq!(frame.passes[0].bind_group, Some(1));
            assert_eq!(frame.passes[1].bind_group, Some(0));
            assert_eq!(frame.passes[0].clear_color, Some(Color::black()));
            assert_eq!(frame.passes[1].clear_color, None);
            assert_eq!(frame.instances[0].position, Vector2::new(5, 5));
        }
        other => panic!("{:?}", other),
    }
}

#[test]
fn render_sent_before_the_load_does_not_find_the_texture() {
    let (mut renderer, mut thread) = Renderer::compatible_with((640, 480));
    let (sprite, load) = renderer.load_sprite(vec![0u8; 4], Vector2::new(1, 1));
    let frame = renderer.render(|commands| {
        commands.draw(&sprite);
    });
    assert_eq!(thread.handle(frame).unwrap_err(), RenderError::UnknownTexture(sprite.texture));
    assert!(thread.handle(load).is_ok());
}

#[test]
fn resize_then_render_uses_the_new_size() {
    let (renderer, mut thread) = Renderer::compatible_with((800, 600));
    assert_eq!(thread.size(), Vector2::new(800, 600));
    match thread.handle(renderer.resize(Vector2::new(400, 300))) {
        Ok(RenderAction::Reconfigure(size)) => assert_eq!(size, Vector2::new(400, 300)),
        other => panic!("{:?}", other),
    }
    assert_eq!(thread.size(), Vector2::new(400, 300));
    let frame = renderer.render(|commands| {
        commands.set_clear_color(Color::green());
        commands.draw_rectangle(Vector2::new(10, 10));
    });
    match thread.handle(frame) {
        Ok(RenderAction::Present(frame)) => {
            assert_eq!(frame.passes.len(), 1);
            assert_eq!(frame.passes[0].clear_color, Some(Color::green()));
            assert_eq!(frame.passes[0].bind_group, None);
        }
        other => panic!("{:?}", other),
    }
    assert_eq!(thread.size(), Vector2::new(400, 300));
}

#[test]
fn render_starts_from_a_frame_that_clears_to_black() {
    let (renderer, _) = Renderer::compatible_with((1, 1));
    match renderer.render(|_| {}) {
        RenderThreadMessage::Render(commands) => {
            assert_eq!(commands.clear_color, Some(Color::black()));
            assert!(commands.blits.is_empty());
        }
        other => panic!("{:?}", other),
    }
}

#[test]
fn render_keeps_only_the_last_clear_color() {
    let (renderer, _) = Renderer::compatible_with((1, 1));
    let message = renderer.render(|commands| {
        commands.set_clear_color(Color::red());
        commands.set_clear_color(Color::white());
    });
    match message {
        RenderThreadMessage::Render(commands) => {
            assert_eq!(commands.clear_color, Some(Color::white()))
        }
        other => panic!("{:?}", other),
    }
}

#[test]
fn sprites_of_one_renderer_have_distinct_textures() {
    let (mut renderer, _) = Renderer::compatible_with((1, 1));
    let sprites: Vec<Sprite> =
        (0..200).map(|_| renderer.load_sprite(vec![0u8; 4], Vector2::new(1, 1)).0).collect();
    for i in 0..sprites.len() {
        for j in (i + 1)..sprites.len() {
            assert_ne!(sprites[i].texture, sprites[j].texture);
        }
    }
}

#[test]
fn a_failed_message_leaves_the_state_as_it_was() {
    let t = refs(2);
    let mut thread = RendererThread::compatible_with(Vector2::new(10, 10));
    assert_eq!(loaded(&mut thread, t[0]), 0);
    assert!(thread.handle(RenderThreadMessage::LoadTexture(t[1], vec![0u8; 5], Vector2::new(1, 1))).is_err());
    assert_eq!(thread.size(), Vector2::new(10, 10));
    assert_eq!(loaded(&mut thread, t[1]), 1);
}
