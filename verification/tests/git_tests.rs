use worktree_color_sync::git::{parse_worktree_porcelain, WorktreeKey};
use worktree_color_sync::resolve::{
    resolve_on_canonical, resolve_on_git_output, resolve_worktree, GitQuery, ResolveAction, ResolveError,
    ResolveState,
};
use worktree_color_sync::git::WorktreeInfo;

/// Drives the resolver with fixed git answers, canonicalising every path to itself.
fn drive(
    toplevel: Option<&str>,
    common_dir: Option<&str>,
    list: Option<&str>,
) -> Result<Option<WorktreeInfo>, ResolveError> {
    let (mut state, mut action) = resolve_worktree();
    loop {
        let (s, a) = match action {
            ResolveAction::RunGit(q) => {
                let out = match q {
                    GitQuery::ShowToplevel => toplevel,
                    GitQuery::CommonDir => common_dir,
                    GitQuery::WorktreeList => list,
                };
                resolve_on_git_output(state, out.map(|s| s.to_string()))
            }
            ResolveAction::Canonicalize(p) => resolve_on_canonical(state, p),
            ResolveAction::Done(r) => return r,
        };
        state = s;
        action = a;
    }
}

/// The repository root that the resolver settles on, canonicalising every
/// path to itself.
fn repo_root_from_git_common_dir(toplevel: &str, common_dir: &str) -> String {
    let (state, _) = resolve_worktree();
    let (mut state, mut action) = resolve_on_git_output(state, Some(toplevel.to_string()));
    action = match action {
        ResolveAction::RunGit(GitQuery::CommonDir) => {
            let (s, a) = resolve_on_git_output(state, Some(common_dir.to_string()));
            state = s;
            a
        }
        other => panic!("unexpected {:?}", other),
    };
    loop {
        match (state, action) {
            (ResolveState::AwaitWorktreeList { repo_root, .. }, _) => return repo_root,
            (s, ResolveAction::Canonicalize(p)) => {
                let (s2, a2) = resolve_on_canonical(s, p);
                state = s2;
                action = a2;
            }
            (_, other) => panic!("unexpected {:?}", other),
        }
    }
}

#[test]
fn parse_porcelain_simple() {
    let raw = "worktree /tmp/repo\nHEAD abc\nbranch refs/heads/main\n\nworktree /tmp/feature\nHEAD def\nbranch refs/heads/feature\n";
    let parsed = parse_worktree_porcelain(raw);
    assert_eq!(parsed.len(), 2);
    assert_eq!(parsed[1].branch.as_deref(), Some("refs/heads/feature"));
}

#[test]
fn parse_porcelain_detached_head() {
    let raw = "worktree /tmp/repo\nHEAD abc\ndetached\n";
    let parsed = parse_worktree_porcelain(raw);
    assert_eq!(parsed.len(), 1);
    assert_eq!(parsed[0].branch, None);
}

#[test]
fn parse_porcelain_with_spaces() {
    let raw = "worktree /tmp/my repo/wt one\nHEAD abc\nbranch refs/heads/wt-one\n";
    let parsed = parse_worktree_porcelain(raw);
    assert_eq!(parsed[0].worktree, "/tmp/my repo/wt one");
}

#[test]
fn parse_porcelain_handles_crlf_and_missing_final_newline() {
    let raw = "worktree /a\r\nbranch refs/heads/x\r\n\r\nworktree /b";
    let parsed = parse_worktree_porcelain(raw);
    assert_eq!(parsed.len(), 2);
    assert_eq!(parsed[0].worktree, "/a");
    assert_eq!(parsed[0].branch.as_deref(), Some("refs/heads/x"));
    assert_eq!(parsed[1].worktree, "/b");
    assert_eq!(parsed[1].branch, None);
}

#[test]
fn parse_porcelain_ignores_branch_outside_stanza() {
    let parsed = parse_worktree_porcelain("branch refs/heads/x\n\n");
    assert!(parsed.is_empty());
    assert!(parse_worktree_porcelain("").is_empty());
}

#[test]
fn repo_root_uses_parent_when_common_dir_points_to_dot_git() {
    let toplevel = "/tmp/repo/worktrees/feature";
    let root = repo_root_from_git_common_dir(toplevel, "/tmp/repo/.git");
    assert_eq!(root, "/tmp/repo");
}

#[test]
fn repo_root_falls_back_to_toplevel_when_common_dir_is_not_dot_git() {
    let toplevel = "/tmp/repo/worktrees/feature";
    let root = repo_root_from_git_common_dir(toplevel, "/tmp/repo/.git/worktrees/feature");
    assert_eq!(root, "/tmp/repo/worktrees/feature");
}

#[test]
fn relative_common_dir_is_joined_to_toplevel() {
    let root = repo_root_from_git_common_dir("/nonexistent/top", ".git");
    assert_eq!(root, "/nonexistent/top");
}

#[test]
fn outside_a_repository_there_is_no_worktree() {
    assert!(matches!(drive(None, None, None), Ok(None)));
}

#[test]
fn missing_common_dir_and_list_are_errors() {
    assert!(matches!(drive(Some("/r"), None, None), Err(ResolveError::NoCommonDir)));
    assert!(matches!(drive(Some("/r"), Some("/r/.git"), None), Err(ResolveError::NoWorktreeList)));
}

#[test]
fn resolver_finds_matching_worktree_and_branch() {
    let list = "worktree /nx/repo\nbranch refs/heads/main\n\nworktree /nx/repo/wt\nbranch refs/heads/feature\n";
    let info = drive(Some("/nx/repo/wt\n"), Some("/nx/repo/.git\n"), Some(list)).unwrap().unwrap();
    assert_eq!(info.key.repo_root, "/nx/repo");
    assert_eq!(info.key.worktree_path, "/nx/repo/wt");
    assert_eq!(info.branch_ref.as_deref(), Some("refs/heads/feature"));
}

#[test]
fn resolver_falls_back_to_toplevel_without_listing_entry() {
    let info = drive(Some("/nx/other"), Some("/nx/other/.git"), Some("worktree /nx/elsewhere\n")).unwrap().unwrap();
    assert_eq!(info.key.worktree_path, "/nx/other");
    assert_eq!(info.branch_ref, None);
}

#[test]
fn worktree_key_text_joins_with_nul() {
    let key = WorktreeKey { repo_root: "/r".to_string(), worktree_path: "/r/wt".to_string() };
    assert_eq!(key.as_string(), "/r\0/r/wt");
}

#[test]
fn git_queries_have_their_arguments() {
    assert_eq!(GitQuery::ShowToplevel.args(), vec!["rev-parse", "--show-toplevel"]);
    assert_eq!(GitQuery::CommonDir.args(), vec!["rev-parse", "--git-common-dir"]);
    assert_eq!(GitQuery::WorktreeList.args(), vec!["worktree", "list", "--porcelain"]);
}
