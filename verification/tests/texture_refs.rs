use floppa2::geometry::Vector2;
use floppa2::error::RenderError;
use floppa2::texture_ref::{TextureRef, TextureRefManager};
use floppa2::textures::{is_rgba_len, Textures};

#[test]
fn refs_start_at_zero_and_count_up() {
    let mut manager = TextureRefManager::new();
    assert_eq!(manager.next().index(), 0);
    assert_eq!(manager.next().index(), 1);
    assert_eq!(manager.next().index(), 2);
}

#[test]
fn refs_are_pairwise_distinct() {
    let mut manager = TextureRefManager::new();
    let refs: Vec<TextureRef> = (0..1000).map(|_| manager.next()).collect();
    for i in 0..refs.len() {
        for j in (i + 1)..refs.len() {
            assert_ne!(refs[i], refs[j]);
            assert!(refs[i].index() < refs[j].index());
        }
    }
}

#[test]
fn managers_are_independent() {
    let mut first = TextureRefManager::new();
    let mut second = TextureRefManager::new();
    first.next();
    first.next();
    assert_eq!(second.next().index(), 0);
    assert_eq!(first.next().index(), 2);
}

#[test]
fn rgba_length_is_four_bytes_per_pixel() {
    assert!(is_rgba_len(16, Vector2::new(2, 2)));
    assert!(is_rgba_len(4 * 640 * 480, Vector2::new(640, 480)));
    assert!(!is_rgba_len(15, Vector2::new(2, 2)));
    assert!(!is_rgba_len(17, Vector2::new(2, 2)));
    assert!(!is_rgba_len(4, Vector2::new(2, 2)));
    assert!(is_rgba_len(0, Vector2::new(0, 9)));
    assert!(is_rgba_len(0, Vector2::new(9, 0)));
    assert!(!is_rgba_len(1, Vector2::new(0, 0)));
}

#[test]
fn rgba_length_does_not_wrap_for_huge_sizes() {
    assert!(!is_rgba_len(0, Vector2::new(u32::MAX, u32::MAX)));
    assert!(!is_rgba_len(4, Vector2::new(u32::MAX, u32::MAX)));
    assert!(!is_rgba_len(0, Vector2::new(1 << 31, 1 << 31)));
    assert!(!is_rgba_len(usize::MAX, Vector2::new(u32::MAX, u32::MAX)));
}

#[test]
fn table_hands_out_slots_in_load_order() {
    let mut manager = TextureRefManager::new();
    let a = manager.next();
    let b = manager.next();
    let mut table = Textures::new();
    assert_eq!(table.load_texture(b, &[0u8; 4], Vector2::new(1, 1)), Ok(0));
    assert_eq!(table.load_texture(a, &[0u8; 8], Vector2::new(2, 1)), Ok(1));
    assert_eq!(table.bind_group_for_texture(&a), Ok(1));
    assert_eq!(table.bind_group_for_texture(&b), Ok(0));
}

#[test]
fn table_rejects_a_wrong_byte_length_and_stays_as_it_was() {
    let mut manager = TextureRefManager::new();
    let a = manager.next();
    let b = manager.next();
    let mut table = Textures::new();
    assert_eq!(
        table.load_texture(a, &[0u8; 5], Vector2::new(1, 1)),
        Err(RenderError::TextureSizeMismatch)
    );
    assert_eq!(
        table.load_texture(a, &[0u8; 3], Vector2::new(1, 1)),
        Err(RenderError::TextureSizeMismatch)
    );
    assert_eq!(table.bind_group_for_texture(&a), Err(RenderError::UnknownTexture(a)));
    assert_eq!(table.load_texture(b, &[0u8; 4], Vector2::new(1, 1)), Ok(0));
}

#[test]
fn table_lookup_of_an_unloaded_texture_fails() {
    let mut manager = TextureRefManager::new();
    let a = manager.next();
    let b = manager.next();
    let mut table = Textures::new();
    assert_eq!(table.bind_group_for_texture(&a), Err(RenderError::UnknownTexture(a)));
    assert_eq!(table.load_texture(a, &[], Vector2::new(0, 0)), Ok(0));
    assert_eq!(table.bind_group_for_texture(&a), Ok(0));
    assert_eq!(table.bind_group_for_texture(&b), Err(RenderError::UnknownTexture(b)));
}

#[test]
fn table_keeps_the_latest_slot_of_a_texture_loaded_twice() {
    let mut manager = TextureRefManager::new();
    let a = manager.next();
    let mut table = Textures::new();
    assert_eq!(table.load_texture(a, &[1u8; 4], Vector2::new(1, 1)), Ok(0));
    assert_eq!(table.load_texture(a, &[2u8; 16], Vector2::new(2, 2)), Ok(1));
    assert_eq!(table.bind_group_for_texture(&a), Ok(1));
}
