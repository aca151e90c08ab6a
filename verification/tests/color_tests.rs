use worktree_color_sync::color::{default_palette, deterministic_fallback_color, deterministic_index_order, Color};

#[test]
fn deterministic_order_is_stable() {
    let a = deterministic_index_order("repo\0worktree", 24);
    let b = deterministic_index_order("repo\0worktree", 24);
    assert_eq!(a, b);
}

#[test]
fn fallback_color_has_hex_shape() {
    let color = deterministic_fallback_color("seed", 0);
    assert!(color.hex.starts_with('#'));
    assert_eq!(color.hex.len(), 7);
}

#[test]
fn index_order_matches_sha256_draws() {
    let order = deterministic_index_order("repo\0worktree", 24);
    assert_eq!(
        order,
        vec![9, 13, 15, 6, 11, 14, 16, 20, 21, 1, 4, 10, 0, 2, 8, 12, 23, 3, 19, 22, 7, 18, 17, 5]
    );
    assert_eq!(deterministic_index_order("seed", 5), vec![0, 4, 1, 2, 3]);
}

#[test]
fn index_order_is_a_permutation() {
    for len in 0..40usize {
        let mut order = deterministic_index_order("some seed", len);
        assert_eq!(order.len(), len);
        order.sort();
        assert_eq!(order, (0..len).collect::<Vec<usize>>());
    }
}

#[test]
fn index_order_of_short_ranges_is_identity() {
    assert_eq!(deterministic_index_order("x", 0), Vec::<usize>::new());
    assert_eq!(deterministic_index_order("x", 1), vec![0]);
}

#[test]
fn fallback_color_matches_sha256_digest() {
    assert_eq!(deterministic_fallback_color("seed", 0).hex, "#b69325");
    assert_eq!(deterministic_fallback_color("seed", 1).hex, "#82277d");
}

#[test]
fn fallback_channels_stay_in_range() {
    for attempt in 0..50u32 {
        let c = deterministic_fallback_color("range", attempt);
        for k in 0..3 {
            let v = u8::from_str_radix(&c.hex[1 + 2 * k..3 + 2 * k], 16).unwrap();
            assert!((32..192).contains(&v));
        }
    }
}

#[test]
fn color_new_adds_hash_and_lowercases() {
    assert_eq!(Color::new("ABCDEF").hex, "#abcdef");
    assert_eq!(Color::new("#AbC123").hex, "#abc123");
    assert_eq!(Color::new("").hex, "#");
}

#[test]
fn default_palette_has_twenty_four_normal_colors() {
    let p = default_palette();
    assert_eq!(p.len(), 24);
    assert_eq!(p[0].hex, "#102a43");
    assert_eq!(p[23].hex, "#2e6f9e");
    for c in &p {
        assert_eq!(c.hex.len(), 7);
        assert!(c.hex.starts_with('#'));
        assert_eq!(c.hex, c.hex.to_lowercase());
    }
}

#[test]
fn color_new_keeps_hash_and_is_stable() {
    for s in ["ABCDEF", "#AbC123", "ÄÖÜ", "#ΣΑΣ", "", "#"] {
        let c = Color::new(s);
        assert!(c.hex.starts_with('#'));
        assert_eq!(Color::new(&c.hex), c);
    }
}
