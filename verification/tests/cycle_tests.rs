use worktree_color_sync::allocator::{AllocError, ColorAllocator};
use worktree_color_sync::daemon::{
    cycle_ack_response, not_a_worktree_message, plan_cycle_color, plan_notify, CycleError,
};
use worktree_color_sync::git::{WorktreeInfo, WorktreeKey};
use worktree_color_sync::protocol::Response;
use worktree_color_sync::state::RuntimeState;
use worktree_color_sync::StringHashSet;

fn info(root: &str, path: &str) -> WorktreeInfo {
    WorktreeInfo {
        key: WorktreeKey { repo_root: root.to_string(), worktree_path: path.to_string() },
        branch_ref: None,
    }
}

fn palette3() -> ColorAllocator {
    ColorAllocator::new(vec!["#111111".into(), "#222222".into(), "#333333".into()], true)
}

#[test]
fn cycle_outside_a_worktree_is_refused() {
    let mut state = RuntimeState::default();
    state.set_assignment("k".into(), "#111111".into());
    let allocator = palette3();
    match plan_cycle_color(&mut state, &allocator, None) {
        Err(CycleError::NotAWorktree) => {}
        other => panic!("unexpected {:?}", other),
    }
    assert_eq!(state.assignment_for("k"), Some("#111111".to_string()));
}

#[test]
fn not_a_worktree_message_points_to_git_docs() {
    let m = not_a_worktree_message("/tmp/plain");
    assert!(m.starts_with("Not a git worktree: /tmp/plain"));
    assert!(m.contains("git worktree"));
    assert!(m.contains("git-scm.com"));
}

#[test]
fn cycling_walks_the_palette_and_wraps_around() {
    let mut state = RuntimeState::default();
    let allocator = palette3();
    let c1 = plan_cycle_color(&mut state, &allocator, Some(info("/r", "/r/a"))).unwrap();
    let c2 = plan_cycle_color(&mut state, &allocator, Some(info("/r", "/r/a"))).unwrap();
    let c3 = plan_cycle_color(&mut state, &allocator, Some(info("/r", "/r/a"))).unwrap();
    let c4 = plan_cycle_color(&mut state, &allocator, Some(info("/r", "/r/a"))).unwrap();
    assert!(c1.assignment_changed && c2.assignment_changed && c3.assignment_changed);
    assert_ne!(c1.color, c2.color);
    assert_ne!(c2.color, c3.color);
    assert_ne!(c1.color, c3.color);
    assert_eq!(c4.color, c1.color);
    assert_eq!(c4.worktree_key, "/r\0/r/a");
    assert_eq!(c4.worktree_path, "/r/a");
    assert_eq!(state.assignment_for("/r\0/r/a"), Some(c4.color.clone()));
}

#[test]
fn cycling_skips_colours_of_other_worktrees() {
    let mut state = RuntimeState::default();
    let allocator = palette3();
    let b = plan_notify(&mut state, &allocator, "/dev/ttys009", Some(info("/r", "/r/b")), "#1f1f1f").unwrap();
    for _ in 0..5 {
        let c = plan_cycle_color(&mut state, &allocator, Some(info("/r", "/r/a"))).unwrap();
        assert_ne!(c.color, b.color);
    }
    assert_eq!(state.assignment_for("/r\0/r/b"), Some(b.color));
}

#[test]
fn cycling_recolours_the_worktrees_terminals_only() {
    let mut state = RuntimeState::default();
    let allocator = palette3();
    let a1 = plan_notify(&mut state, &allocator, "/dev/ttys001", Some(info("/r", "/r/a")), "#1f1f1f").unwrap();
    plan_notify(&mut state, &allocator, "/dev/ttys002", Some(info("/r", "/r/a")), "#1f1f1f").unwrap();
    let b = plan_notify(&mut state, &allocator, "/dev/ttys003", Some(info("/r", "/r/b")), "#1f1f1f").unwrap();
    plan_notify(&mut state, &allocator, "/dev/ttys004", None, "#1f1f1f").unwrap();

    let c = plan_cycle_color(&mut state, &allocator, Some(info("/r", "/r/a"))).unwrap();
    assert_ne!(c.color, a1.color);
    assert_ne!(c.color, b.color);
    assert_eq!(c.terminals.len(), 2);
    assert!(c.terminals.contains(&"/dev/ttys001".to_string()));
    assert!(c.terminals.contains(&"/dev/ttys002".to_string()));

    let t1 = state.current_for_terminal("/dev/ttys001").unwrap();
    assert_eq!(t1.color, c.color);
    assert_eq!(t1.worktree_key.as_deref(), Some("/r\0/r/a"));
    assert_eq!(state.current_for_terminal("/dev/ttys002").unwrap().color, c.color);
    assert_eq!(state.current_for_terminal("/dev/ttys003").unwrap().color, b.color);
    assert_eq!(state.current_for_terminal("/dev/ttys004").unwrap().color, "#1f1f1f");

    match cycle_ack_response(c.clone()) {
        Response::Ack { changed, worktree_key, color } => {
            assert!(changed);
            assert_eq!(worktree_key.as_deref(), Some("/r\0/r/a"));
            assert_eq!(color, c.color);
        }
        other => panic!("unexpected {:?}", other),
    }
}

#[test]
fn cycling_with_no_free_colour_in_a_strict_palette_fails() {
    let mut state = RuntimeState::default();
    let allocator = ColorAllocator::new(vec!["#111111".into(), "#222222".into()], true);
    let a = plan_notify(&mut state, &allocator, "/dev/ttys001", Some(info("/r", "/r/a")), "#1f1f1f").unwrap();
    plan_notify(&mut state, &allocator, "/dev/ttys002", Some(info("/r", "/r/b")), "#1f1f1f").unwrap();
    match plan_cycle_color(&mut state, &allocator, Some(info("/r", "/r/a"))) {
        Err(CycleError::Alloc(AllocError::PaletteExhausted)) => {}
        other => panic!("unexpected {:?}", other),
    }
    assert_eq!(state.assignment_for("/r\0/r/a"), Some(a.color));
}

#[test]
fn cycling_falls_back_to_generated_colours() {
    let allocator = ColorAllocator::new(vec!["#111111".into()], false);
    let mut in_use = StringHashSet::new();
    in_use.insert("#111111".to_string());
    let c = allocator.cycle("seed", Some("#111111"), &in_use).unwrap();
    assert_ne!(c, "#111111");
    assert_eq!(c.len(), 7);
    assert!(c.starts_with('#'));
}

#[test]
fn cycle_starts_after_the_current_colour() {
    let allocator = palette3();
    let in_use = StringHashSet::new();
    let first = allocator.cycle("seed", None, &in_use).unwrap();
    let mut used = StringHashSet::new();
    used.insert(first.clone());
    let second = allocator.cycle("seed", Some(first.as_str()), &used).unwrap();
    assert_ne!(first, second);
    let mut used2 = StringHashSet::new();
    used2.insert(second.clone());
    let third = allocator.cycle("seed", Some(second.as_str()), &used2).unwrap();
    assert_ne!(third, first);
    assert_ne!(third, second);
    let mut unused_current = StringHashSet::new();
    unused_current.insert("#999999".to_string());
    assert_eq!(allocator.cycle("seed", Some("#999999"), &unused_current).unwrap(), first);
    match ColorAllocator::new(vec!["#111111".into()], true).cycle("seed", Some("#111111"), &used_all("#111111")) {
        Err(AllocError::PaletteExhausted) => {}
        other => panic!("unexpected {:?}", other),
    }
}

fn used_all(c: &str) -> StringHashSet {
    let mut s = StringHashSet::new();
    s.insert(c.to_string());
    s
}
