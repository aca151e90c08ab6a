use worktree_color_sync::allocator::{AllocError, ColorAllocator};
use worktree_color_sync::hex::normalize_hex;
use worktree_color_sync::StringHashSet;

#[test]
fn keeps_existing_color_when_available() {
    let allocator = ColorAllocator::new(vec![], false);
    let active = StringHashSet::new();
    let color = allocator
        .allocate("repo\0wt", Some("#123456"), &active)
        .unwrap();
    assert_eq!(color, "#123456");
}

#[test]
fn avoids_active_collisions() {
    let allocator = ColorAllocator::new(vec!["#111111".into(), "#222222".into()], false);
    let mut active = StringHashSet::new();
    active.insert("#111111".to_string());

    let color = allocator.allocate("seed", None, &active).unwrap();
    assert_eq!(color, "#222222");
}

#[test]
fn deterministic_fallback_when_palette_exhausted() {
    let allocator = ColorAllocator::new(vec!["#111111".into()], false);
    let mut active = StringHashSet::new();
    active.insert("#111111".to_string());

    let color = allocator.allocate("seed", None, &active).unwrap();
    assert_ne!(color, "#111111");
}

#[test]
fn fallback_is_first_fallback_color_of_seed() {
    let allocator = ColorAllocator::new(vec!["#111111".into()], false);
    let mut active = StringHashSet::new();
    active.insert("#111111".to_string());
    assert_eq!(allocator.allocate("seed", None, &active).unwrap(), "#b69325");
    active.insert("#b69325".to_string());
    assert_eq!(allocator.allocate("seed", None, &active).unwrap(), "#82277d");
}

#[test]
fn strict_palette_reports_exhaustion() {
    let allocator = ColorAllocator::new(vec!["#111111".into()], true);
    let mut active = StringHashSet::new();
    active.insert("#111111".to_string());
    assert!(matches!(allocator.allocate("seed", None, &active), Err(AllocError::PaletteExhausted)));
}

#[test]
fn invalid_existing_color_is_an_error() {
    let allocator = ColorAllocator::new(vec![], false);
    let active = StringHashSet::new();
    match allocator.allocate("seed", Some("not-a-color"), &active) {
        Err(AllocError::InvalidHex(s)) => assert_eq!(s, "not-a-color"),
        other => panic!("unexpected {:?}", other),
    }
}

#[test]
fn existing_color_is_normalized() {
    let allocator = ColorAllocator::new(vec![], false);
    let active = StringHashSet::new();
    assert_eq!(allocator.allocate("seed", Some("  ABCDEF \n"), &active).unwrap(), "#abcdef");
}

#[test]
fn busy_existing_color_is_replaced_by_first_palette_color_in_seed_order() {
    let allocator = ColorAllocator::new(vec![], false);
    let mut active = StringHashSet::new();
    active.insert("#123456".to_string());
    assert_eq!(allocator.allocate("seed", Some("#123456"), &active).unwrap(), "#1f5e52");
    active.insert("#1f5e52".to_string());
    assert_eq!(allocator.allocate("seed", Some("#123456"), &active).unwrap(), "#2f3f60");
}

#[test]
fn allocation_never_returns_an_active_color() {
    let allocator = ColorAllocator::new(vec!["#010101".into(), "#020202".into(), "#030303".into()], false);
    let mut active = StringHashSet::new();
    for _ in 0..10 {
        let c = allocator.allocate("loop", None, &active).unwrap();
        assert!(!active.contains(&c));
        active.insert(c);
    }
}

#[test]
fn user_palette_entries_are_made_into_colors() {
    let allocator = ColorAllocator::new(vec!["ABCDEF".into()], false);
    let active = StringHashSet::new();
    assert_eq!(allocator.allocate("seed", None, &active).unwrap(), "#abcdef");
}

#[test]
fn normalize_hex_cases() {
    assert_eq!(normalize_hex("#AABBCC").unwrap(), "#aabbcc");
    assert_eq!(normalize_hex("\t aabbcc ").unwrap(), "#aabbcc");
    assert!(normalize_hex("#aabbc").is_err());
    assert!(normalize_hex("#aabbcg").is_err());
    assert!(normalize_hex("##aabbcc").is_err());
    assert!(normalize_hex("").is_err());
    assert_eq!(normalize_hex("#é12345").unwrap_err().input, "#é12345");
}

#[test]
fn normalize_hex_trims_unicode_white_space() {
    assert_eq!(normalize_hex("\u{3000}#ABCDEF\u{a0}").unwrap(), "#abcdef");
    assert_eq!(normalize_hex("\u{2028}abcdef\u{85}").unwrap(), "#abcdef");
    assert!(normalize_hex("\u{200b}abcdef").is_err());
}
