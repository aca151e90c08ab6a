use worktree_color_sync::allocator::ColorAllocator;
use worktree_color_sync::cursor::{cursor_jq_filter, dimmed};
use worktree_color_sync::daemon::{
    ack_response, current_response, doctor_checks, doctor_response, plan_integrations, plan_notify, status_response,
    TtyUpdate,
};
use worktree_color_sync::paths::PathError;
use worktree_color_sync::ghostty::{
    doctor_check, global_fallback_config, tty_background_payload, tty_reset_payload, GhosttyError,
};
use worktree_color_sync::git::{WorktreeInfo, WorktreeKey};
use worktree_color_sync::protocol::{DoctorCheck, Response};
use worktree_color_sync::render::render_response;
use worktree_color_sync::state::RuntimeState;

fn info(root: &str, path: &str) -> WorktreeInfo {
    WorktreeInfo {
        key: WorktreeKey { repo_root: root.to_string(), worktree_path: path.to_string() },
        branch_ref: None,
    }
}

#[test]
fn rejects_non_tty_terminal_id() {
    let err = tty_background_payload("abc", "#112233", "#f5f5f5").unwrap_err();
    assert!(err.message().contains("tty path"));

    let err = tty_reset_payload("abc").unwrap_err();
    assert!(err.message().contains("tty path"));
}

#[test]
fn tty_payloads_are_osc_sequences() {
    assert_eq!(
        tty_background_payload("/dev/ttys001", "#112233", "#f5f5f5").unwrap(),
        "\x1b]11;#112233\x07\x1b]10;#f5f5f5\x07"
    );
    assert_eq!(tty_reset_payload("/dev/ttys001").unwrap(), "\x1b]110\x07\x1b]111\x07\x1b]112\x07");
    assert_eq!(tty_reset_payload("/tmp/x"), Err(GhosttyError::NotATtyPath));
}

#[test]
fn doctor_check_verdicts() {
    assert_eq!(
        doctor_check(None, false),
        (false, "no terminal id provided; expected tty path from `tty`".to_string())
    );
    assert_eq!(
        doctor_check(Some("abc"), true),
        (false, "terminal id `abc` is not a tty path; configure shell hook to pass `$(tty)`".to_string())
    );
    assert_eq!(
        doctor_check(Some("/dev/ttys001"), false),
        (false, "tty path does not exist: /dev/ttys001".to_string())
    );
    assert_eq!(
        doctor_check(Some("/dev/ttys001"), true),
        (true, "tty path looks valid: /dev/ttys001".to_string())
    );
}

#[test]
fn dimmed_halves_each_channel() {
    assert_eq!(dimmed("#ffffff"), "#7f7f7f");
    assert_eq!(dimmed("#112233"), "#081119");
    assert_eq!(dimmed("#+f0000"), "#070000");
    assert_eq!(dimmed("#zz0000"), "#000000");
    assert_eq!(dimmed("red"), "red");
    assert_eq!(dimmed("#12345"), "#12345");
}

#[test]
fn jq_filter_sets_managed_keys() {
    let f = cursor_jq_filter("#112233");
    assert_eq!(
        f,
        ". + {\"workbench.colorCustomizations\": (.\"workbench.colorCustomizations\" // {}) + {\"titleBar.activeBackground\": \"#112233\", \"titleBar.inactiveBackground\": \"#081119\", \"titleBar.activeForeground\": \"#ffffff\"}, \"terminal.integrated.cwd\": \"${workspaceFolder}\", \"terminal.integrated.splitCwd\": \"initial\", \"worktreeSync.color\": \"#112233\"}"
    );
}

#[test]
fn notify_assigns_and_reuses_colors() {
    let mut state = RuntimeState::default();
    let allocator = ColorAllocator::new(vec![], false);
    let first = plan_notify(&mut state, &allocator, "/dev/ttys001", Some(info("/r", "/r/a")), "#1f1f1f").unwrap();
    assert!(first.assignment_changed);
    assert!(first.context_changed);
    assert_eq!(first.worktree_key.as_deref(), Some("/r\0/r/a"));
    assert_eq!(first.worktree_path.as_deref(), Some("/r/a"));

    let left = plan_notify(&mut state, &allocator, "/dev/ttys001", None, "#1F1F1F").unwrap();
    assert_eq!(left.color, "#1f1f1f");
    assert_eq!(left.worktree_key, None);
    assert!(left.context_changed);

    let again = plan_notify(&mut state, &allocator, "/dev/ttys001", Some(info("/r", "/r/a")), "#1f1f1f").unwrap();
    assert_eq!(again.color, first.color);
    assert!(!again.assignment_changed);

    let other = plan_notify(&mut state, &allocator, "/dev/ttys002", Some(info("/r", "/r/b")), "#1f1f1f").unwrap();
    assert_ne!(other.color, first.color);

    match ack_response(again) {
        Response::Ack { changed, color, .. } => {
            assert!(changed);
            assert_eq!(color, first.color);
        }
        other => panic!("unexpected {:?}", other),
    }
}

#[test]
fn status_and_current_answers() {
    let mut state = RuntimeState::default();
    state.set_terminal_context("/dev/ttys001".into(), Some("a".into()), "#111111".into());
    state.set_terminal_context("/dev/ttys002".into(), Some("a".into()), "#111111".into());
    match status_response(&state) {
        Response::Status { running, terminals, active_worktrees } => {
            assert!(running);
            assert_eq!(terminals, 2);
            assert_eq!(active_worktrees, 1);
        }
        other => panic!("unexpected {:?}", other),
    }
    match current_response(&state, "/dev/ttys001".to_string()) {
        Response::Current { terminal_id, worktree_key, color } => {
            assert_eq!(terminal_id, "/dev/ttys001");
            assert_eq!(worktree_key.as_deref(), Some("a"));
            assert_eq!(color.as_deref(), Some("#111111"));
        }
        other => panic!("unexpected {:?}", other),
    }
    match current_response(&state, "/dev/ttys009".to_string()) {
        Response::Current { worktree_key, color, .. } => {
            assert!(worktree_key.is_none());
            assert!(color.is_none());
        }
        other => panic!("unexpected {:?}", other),
    }
}

#[test]
fn responses_render_as_printed_lines() {
    let ack = Response::Ack { changed: true, worktree_key: None, color: "#1f1f1f".to_string() };
    assert_eq!(render_response(&ack), vec!["ack changed=true color=#1f1f1f worktree=<none>".to_string()]);
    let status = Response::Status { running: true, terminals: 12, active_worktrees: 0 };
    assert_eq!(render_response(&status), vec!["running=true terminals=12 active_worktrees=0".to_string()]);
    let current = Response::Current {
        terminal_id: "/dev/ttys001".to_string(),
        worktree_key: Some("k".to_string()),
        color: None,
    };
    assert_eq!(render_response(&current), vec!["terminal_id=/dev/ttys001 worktree=k color=<none>".to_string()]);
    let doctor = doctor_response(vec![
        DoctorCheck { name: "a".to_string(), ok: true, details: "fine".to_string() },
        DoctorCheck { name: "b".to_string(), ok: false, details: "bad".to_string() },
    ]);
    assert_eq!(
        render_response(&doctor),
        vec!["doctor ok=false".to_string(), "- a: ok (fine)".to_string(), "- b: fail (bad)".to_string()]
    );
    let err = Response::Error { message: "boom".to_string() };
    assert_eq!(render_response(&err), vec!["error: boom".to_string()]);
}

#[test]
fn doctor_checks_list_the_four_checks() {
    let checks = doctor_checks(
        &Ok("/run/w.sock".to_string()),
        true,
        &Err(PathError::HomeNotFound),
        false,
        "tty path does not exist: /dev/ttys001".to_string(),
    );
    let got: Vec<(String, bool, String)> = checks.into_iter().map(|c| (c.name, c.ok, c.details)).collect();
    assert_eq!(
        got,
        vec![
            ("socket_parent".to_string(), true, "socket path: /run/w.sock".to_string()),
            ("state_path".to_string(), false, "invalid state path: home directory not found".to_string()),
            ("ghostty_tty".to_string(), false, "tty path does not exist: /dev/ttys001".to_string()),
            (
                "cursor_settings".to_string(),
                true,
                "Cursor integration writes only managed keys in .vscode/settings.json".to_string()
            ),
        ]
    );
    let checks = doctor_checks(&Err(PathError::HomeNotFound), true, &Ok("/s.json".to_string()), true, "ok".to_string());
    assert!(!checks[0].ok);
    assert_eq!(checks[0].details, "invalid socket path: home directory not found");
    assert_eq!(checks[1].details, "state path: /s.json");
    let absent = doctor_checks(&Ok("/run/w.sock".to_string()), false, &Ok("/s.json".to_string()), true, "ok".to_string());
    assert!(!absent[0].ok);
    assert!(absent[1].ok);
}

#[test]
fn integrations_follow_the_context() {
    let p = plan_integrations(true, true, &Some("/r/a".to_string()));
    assert_eq!(p.ghostty, Some(TtyUpdate::Background));
    assert_eq!(p.cursor_path.as_deref(), Some("/r/a"));
    let p = plan_integrations(true, true, &None);
    assert_eq!(p.ghostty, Some(TtyUpdate::Reset));
    assert_eq!(p.cursor_path, None);
    let p = plan_integrations(false, false, &Some("/r/a".to_string()));
    assert_eq!(p.ghostty, None);
    assert_eq!(p.cursor_path, None);
}

#[test]
fn ghostty_fallback_file_sets_background() {
    assert_eq!(global_fallback_config("#112233"), "# managed by worktree-sync\nbackground = #112233\n");
}
