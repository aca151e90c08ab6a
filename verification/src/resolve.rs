//! Finding the worktree that contains a directory, as a sequence of steps:
//! the daemon runs each git command or path lookup that a step asks for and
//! hands the answer to the next step.
use vstd::prelude::*;
use crate::git::{entry_views, parse_porcelain_spec, parse_worktree_porcelain, PorcelainEntry, WorktreeInfo, WorktreeKey};
use crate::paths::{
    is_absolute_spec, path_ends_with, path_ends_with_spec, path_is_absolute, path_join, path_join_spec, path_parent,
    path_parent_spec, paths_equal, paths_equal_spec,
};
use crate::state::opt_view;
use crate::text::{chars_of, string_of, trim, trim_chars};

verus! {

/// A git command the resolver asks for.
#[derive(Debug, Clone, Copy, PartialEq, Eq)]
pub enum GitQuery {
    /// `git rev-parse --show-toplevel`
    ShowToplevel,
    /// `git rev-parse --git-common-dir`
    CommonDir,
    /// `git worktree list --porcelain`
    WorktreeList,
}

impl GitQuery {
    /// The arguments given to git for this query.
    pub fn args(&self) -> (a: Vec<&'static str>)
        ensures
            a@.len() == match self { GitQuery::WorktreeList => 3int, _ => 2int },
            a@[0]@ == match self { GitQuery::WorktreeList => "worktree"@, _ => "rev-parse"@ },
            a@[1]@ == match self {
                GitQuery::ShowToplevel => "--show-toplevel"@,
                GitQuery::CommonDir => "--git-common-dir"@,
                GitQuery::WorktreeList => "list"@,
            },
            *self == GitQuery::WorktreeList ==> a@[2]@ == "--porcelain"@,
    {
        match self {
            GitQuery::ShowToplevel => vec!["rev-parse", "--show-toplevel"],
            GitQuery::CommonDir => vec!["rev-parse", "--git-common-dir"],
            GitQuery::WorktreeList => vec!["worktree", "list", "--porcelain"],
        }
    }
}

/// Why the worktree could not be found although the directory is in a repository.
#[derive(Debug, Clone, Copy, PartialEq, Eq)]
pub enum ResolveError {
    /// `git rev-parse --git-common-dir` failed.
    NoCommonDir,
    /// `git worktree list --porcelain` failed.
    NoWorktreeList,
}

/// Where the resolver stands, with what it has learnt so far.
#[derive(Debug)]
pub enum ResolveState {
    /// Waiting for the top level of the working tree.
    AwaitToplevel,
    /// Waiting for the common git directory.
    AwaitCommonDir { toplevel: String },
    /// Waiting for the canonical common git directory.
    AwaitCommonCanon { toplevel: String },
    /// Waiting for the canonical repository root.
    AwaitRootCanon { toplevel: String },
    /// Waiting for the list of worktrees.
    AwaitWorktreeList { toplevel: String, repo_root: String },
    /// Waiting for the canonical top level.
    AwaitTopCanon { repo_root: String, entries: Vec<PorcelainEntry> },
    /// Waiting for the canonical path of worktree `idx`.
    AwaitEntryCanon { repo_root: String, top_canon: String, entries: Vec<PorcelainEntry>, idx: usize },
    /// Waiting for the canonical path of the matching worktree.
    AwaitMatchCanon { repo_root: String, branch: Option<String> },
    /// Nothing more to do.
    Finished,
}

/// What the resolver asks the daemon to do next.
#[derive(Debug)]
pub enum ResolveAction {
    /// Run this git command in the directory and hand back its output
    /// (`None` when git reports failure).
    RunGit(GitQuery),
    /// Hand back the canonical form of this path (the path itself when it
    /// cannot be canonicalised).
    Canonicalize(String),
    /// The answer: the worktree, or `None` when the directory is not in a
    /// repository.
    Done(Result<Option<WorktreeInfo>, ResolveError>),
}

/// The resolver waits for the output of a git command.
pub open spec fn awaits_git(s: ResolveState) -> bool {
    s is AwaitToplevel || s is AwaitCommonDir || s is AwaitWorktreeList
}

/// The resolver waits for a canonical path.
pub open spec fn awaits_canonical(s: ResolveState) -> bool {
    s is AwaitCommonCanon || s is AwaitRootCanon || s is AwaitTopCanon || (s is AwaitEntryCanon && s->idx
        < s->AwaitEntryCanon_entries@.len()) || s is AwaitMatchCanon
}

/// The answer for a worktree found at `path`.
pub open spec fn is_found(a: ResolveAction, repo_root: Seq<char>, path: Seq<char>, branch: Option<Seq<char>>) -> bool {
    a matches ResolveAction::Done(Ok(Some(info))) && info.key.repo_root@ == repo_root && info.key.worktree_path@
        == path && opt_view(info.branch_ref) == branch
}

/// The action asks for the canonical form of `path`.
pub open spec fn asks_canonical(a: ResolveAction, path: Seq<char>) -> bool {
    a matches ResolveAction::Canonicalize(p) && p@ == path
}

/// The common git directory `common` as git printed it, trimmed and made
/// absolute against the top level.
pub open spec fn common_abs_spec(toplevel: Seq<char>, common: Seq<char>) -> Seq<char> {
    if is_absolute_spec(trim(common)) {
        trim(common)
    } else {
        path_join_spec(toplevel, trim(common))
    }
}

/// Starts finding the worktree that contains a directory: the first step
/// asks for the top level of the working tree. The daemon runs each git
/// command a step asks for in that directory.
pub fn resolve_worktree() -> (r: (ResolveState, ResolveAction))
    ensures
        r.0 is AwaitToplevel,
        r.1 == ResolveAction::RunGit(GitQuery::ShowToplevel),
{
    (ResolveState::AwaitToplevel, ResolveAction::RunGit(GitQuery::ShowToplevel))
}

fn trimmed(s: &str) -> (r: String)
    ensures
        r@ == trim(s@),
{
    string_of(&trim_chars(&chars_of(s)))
}

/// Look at worktree `idx` next, or, when none is left, answer with the top level.
fn next_entry(repo_root: String, top_canon: String, entries: Vec<PorcelainEntry>, idx: usize) -> (r: (ResolveState, ResolveAction))
    ensures
        idx < entries@.len() ==> (r.0 matches ResolveState::AwaitEntryCanon { repo_root: rr, top_canon: tc, entries: es, idx: i }
            && rr == repo_root && tc == top_canon && es == entries && i == idx
            && asks_canonical(r.1, entries@[idx as int].worktree@)),
        idx >= entries@.len() ==> r.0 is Finished && is_found(r.1, repo_root@, top_canon@, None),
{
    if idx < entries.len() {
        let p = entries[idx].worktree.clone();
        (ResolveState::AwaitEntryCanon { repo_root, top_canon, entries, idx }, ResolveAction::Canonicalize(p))
    } else {
        (
            ResolveState::Finished,
            ResolveAction::Done(Ok(Some(WorktreeInfo {
                key: WorktreeKey { repo_root, worktree_path: top_canon },
                branch_ref: None,
            }))),
        )
    }
}

/// The step after git answered `out` (`None` when it failed).
///
/// - top level: no repository stops with no worktree; else its trimmed text is
///   kept and the common git directory is asked for;
/// - common directory: a failure is an error; else it is trimmed, made
///   absolute against the top level, and its canonical form is asked for;
/// - worktree list: a failure is an error; else the list is read and the
///   canonical top level is asked for.
pub fn resolve_on_git_output(state: ResolveState, out: Option<String>) -> (r: (ResolveState, ResolveAction))
    requires
        awaits_git(state),
    ensures
        match state {
            ResolveState::AwaitToplevel => match out {
                None => r.0 is Finished && r.1 matches ResolveAction::Done(Ok(None)),
                Some(v) => r.0 matches ResolveState::AwaitCommonDir { toplevel } && toplevel@ == trim(v@)
                    && r.1 == ResolveAction::RunGit(GitQuery::CommonDir),
            },
            ResolveState::AwaitCommonDir { toplevel } => match out {
                None => r.0 is Finished && r.1 matches ResolveAction::Done(Err(ResolveError::NoCommonDir)),
                Some(c) => r.0 matches ResolveState::AwaitCommonCanon { toplevel: t } && t == toplevel
                    && asks_canonical(r.1, common_abs_spec(toplevel@, c@)),
            },
            ResolveState::AwaitWorktreeList { toplevel, repo_root } => match out {
                None => r.0 is Finished && r.1 matches ResolveAction::Done(Err(ResolveError::NoWorktreeList)),
                Some(p) => r.0 matches ResolveState::AwaitTopCanon { repo_root: rr, entries } && rr == repo_root
                    && entry_views(entries@) == parse_porcelain_spec(p@)
                    && asks_canonical(r.1, toplevel@),
            },
            _ => false,
        },
{
    match state {
        ResolveState::AwaitToplevel => match out {
            None => (ResolveState::Finished, ResolveAction::Done(Ok(None))),
            Some(v) => (
                ResolveState::AwaitCommonDir { toplevel: trimmed(v.as_str()) },
                ResolveAction::RunGit(GitQuery::CommonDir),
            ),
        },
        ResolveState::AwaitCommonDir { toplevel } => match out {
            None => (ResolveState::Finished, ResolveAction::Done(Err(ResolveError::NoCommonDir))),
            Some(c) => {
                let common = trimmed(c.as_str());
                let common_abs = if path_is_absolute(common.as_str()) {
                    common
                } else {
                    path_join(toplevel.as_str(), common.as_str())
                };
                (ResolveState::AwaitCommonCanon { toplevel }, ResolveAction::Canonicalize(common_abs))
            },
        },
        ResolveState::AwaitWorktreeList { toplevel, repo_root } => match out {
            None => (ResolveState::Finished, ResolveAction::Done(Err(ResolveError::NoWorktreeList))),
            Some(p) => {
                let entries = parse_worktree_porcelain(p.as_str());
                (ResolveState::AwaitTopCanon { repo_root, entries }, ResolveAction::Canonicalize(toplevel))
            },
        },
        _ => (ResolveState::Finished, ResolveAction::Done(Ok(None))),
    }
}

/// The step after a path was canonicalised to `path`.
///
/// - common directory: when it ends in `.git` its parent, canonicalised, is
///   the repository root (the directory itself when it has no parent);
///   otherwise the canonical top level is;
/// - repository root: kept, and the worktree list is asked for;
/// - top level: kept, and the worktrees are looked at in order;
/// - a worktree: the first whose canonical path equals the top level is the
///   answer, with its path canonicalised again; when none does, the top level is;
/// - the matching worktree: the answer, with its branch.
pub fn resolve_on_canonical(state: ResolveState, path: String) -> (r: (ResolveState, ResolveAction))
    requires
        awaits_canonical(state),
    ensures
        match state {
            ResolveState::AwaitCommonCanon { toplevel } => if path_ends_with_spec(path@, ".git"@) {
                match path_parent_spec(path@) {
                    Some(parent) => r.0 matches ResolveState::AwaitRootCanon { toplevel: t } && t == toplevel
                        && asks_canonical(r.1, parent),
                    None => r.0 matches ResolveState::AwaitWorktreeList { toplevel: t, repo_root } && t == toplevel
                        && repo_root == path && r.1 == ResolveAction::RunGit(GitQuery::WorktreeList),
                }
            } else {
                r.0 matches ResolveState::AwaitRootCanon { toplevel: t } && t == toplevel
                    && asks_canonical(r.1, toplevel@)
            },
            ResolveState::AwaitRootCanon { toplevel } => r.0 matches ResolveState::AwaitWorktreeList {
                toplevel: t,
                repo_root,
            } && t == toplevel && repo_root == path && r.1 == ResolveAction::RunGit(GitQuery::WorktreeList),
            ResolveState::AwaitTopCanon { repo_root, entries } => if entries@.len() > 0 {
                r.0 matches ResolveState::AwaitEntryCanon { repo_root: rr, top_canon, entries: es, idx } && rr
                    == repo_root && top_canon == path && es == entries && idx == 0
                    && asks_canonical(r.1, entries@[0].worktree@)
            } else {
                r.0 is Finished && is_found(r.1, repo_root@, path@, None)
            },
            ResolveState::AwaitEntryCanon { repo_root, top_canon, entries, idx } => if paths_equal_spec(
                path@,
                top_canon@,
            ) {
                r.0 matches ResolveState::AwaitMatchCanon { repo_root: rr, branch } && rr == repo_root
                    && opt_view(branch) == opt_view(entries@[idx as int].branch)
                    && asks_canonical(r.1, entries@[idx as int].worktree@)
            } else if idx + 1 < entries@.len() {
                r.0 matches ResolveState::AwaitEntryCanon { repo_root: rr, top_canon: tc, entries: es, idx: i } && rr
                    == repo_root && tc == top_canon && es == entries && i == idx + 1
                    && asks_canonical(r.1, entries@[idx + 1].worktree@)
            } else {
                r.0 is Finished && is_found(r.1, repo_root@, top_canon@, None)
            },
            ResolveState::AwaitMatchCanon { repo_root, branch } => r.0 is Finished && is_found(
                r.1,
                repo_root@,
                path@,
                opt_view(branch),
            ),
            _ => false,
        },
{
    match state {
        ResolveState::AwaitCommonCanon { toplevel } => {
            if path_ends_with(path.as_str(), ".git") {
                match path_parent(path.as_str()) {
                    Some(parent) => (ResolveState::AwaitRootCanon { toplevel }, ResolveAction::Canonicalize(parent)),
                    None => (
                        ResolveState::AwaitWorktreeList { toplevel, repo_root: path },
                        ResolveAction::RunGit(GitQuery::WorktreeList),
                    ),
                }
            } else {
                let t = toplevel.clone();
                (ResolveState::AwaitRootCanon { toplevel }, ResolveAction::Canonicalize(t))
            }
        },
        ResolveState::AwaitRootCanon { toplevel } => (
            ResolveState::AwaitWorktreeList { toplevel, repo_root: path },
            ResolveAction::RunGit(GitQuery::WorktreeList),
        ),
        ResolveState::AwaitTopCanon { repo_root, entries } => next_entry(repo_root, path, entries, 0),
        ResolveState::AwaitEntryCanon { repo_root, top_canon, entries, idx } => {
            let n = entries.len();
            assert(idx < n);
            if paths_equal(path.as_str(), top_canon.as_str()) {
                let branch = match &entries[idx].branch {
                    Some(b) => Some(b.clone()),
                    None => None,
                };
                let p = entries[idx].worktree.clone();
                (ResolveState::AwaitMatchCanon { repo_root, branch }, ResolveAction::Canonicalize(p))
            } else {
                next_entry(repo_root, top_canon, entries, idx + 1)
            }
        },
        ResolveState::AwaitMatchCanon { repo_root, branch } => (
            ResolveState::Finished,
            ResolveAction::Done(Ok(Some(WorktreeInfo {
                key: WorktreeKey { repo_root, worktree_path: path },
                branch_ref: branch,
            }))),
        ),
        _ => (ResolveState::Finished, ResolveAction::Done(Ok(None))),
    }
}

} // verus!
