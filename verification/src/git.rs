//! Worktree identity and the reading of `git worktree list --porcelain`.
use vstd::prelude::*;
use crate::lines::{char_seqs, lines_spec, split_lines};
use crate::state::opt_view;
use crate::text::{chars_of, has_prefix, is_ws, string_of, strip_prefix, trim, trim_chars, trim_end, trim_start};

verus! {

/// A worktree is known by the root of its repository and its own path.
#[derive(Debug, Clone, PartialEq, Eq, Hash)]
pub struct WorktreeKey {
    pub repo_root: String,
    pub worktree_path: String,
}

/// The text that names a worktree: repository root, a NUL, worktree path.
pub open spec fn key_text(repo_root: Seq<char>, worktree_path: Seq<char>) -> Seq<char> {
    repo_root + seq!['\0'] + worktree_path
}

impl WorktreeKey {
    /// The text that names this worktree: `key_text`.
    pub fn as_string(&self) -> (s: String)
        ensures
            s@ == key_text(self.repo_root@, self.worktree_path@),
    {
        let mut s = self.repo_root.clone();
        s.append("\0");
        s.append(self.worktree_path.as_str());
        proof {
            reveal_strlit("\0");
        }
        assert(s@ =~= key_text(self.repo_root@, self.worktree_path@));
        s
    }
}

/// A worktree and the branch checked out in it, if any.
#[derive(Debug, Clone)]
pub struct WorktreeInfo {
    pub key: WorktreeKey,
    pub branch_ref: Option<String>,
}

/// One `worktree` stanza of `git worktree list --porcelain`.
#[derive(Debug, Clone)]
pub struct PorcelainEntry {
    pub worktree: String,
    pub branch: Option<String>,
}

/// `PorcelainEntry` with its texts taken by value.
pub struct EntryView {
    pub worktree: Seq<char>,
    pub branch: Option<Seq<char>>,
}

impl View for PorcelainEntry {
    type V = EntryView;

    open spec fn view(&self) -> EntryView {
        EntryView { worktree: self.worktree@, branch: opt_view(self.branch) }
    }
}

/// The views of a sequence of entries.
pub open spec fn entry_views(v: Seq<PorcelainEntry>) -> Seq<EntryView> {
    v.map_values(|e: PorcelainEntry| e@)
}

/// The entries read so far and the stanza being read.
pub struct PorcelainState {
    pub entries: Seq<EntryView>,
    pub current: Option<EntryView>,
}

/// The entries read so far, with the stanza being read closed.
pub open spec fn flush(st: PorcelainState) -> Seq<EntryView> {
    match st.current {
        Some(e) => st.entries.push(e),
        None => st.entries,
    }
}

/// Reading one line: a blank line closes the stanza; `worktree <path>` closes
/// it and opens a new one; `branch <ref>` sets the branch of the open stanza;
/// any other line is ignored.
pub open spec fn porcelain_step(st: PorcelainState, line: Seq<char>) -> PorcelainState {
    if trim(line).len() == 0 {
        PorcelainState { entries: flush(st), current: None }
    } else if has_prefix(line, "worktree "@) {
        PorcelainState {
            entries: flush(st),
            current: Some(
                EntryView { worktree: line.subrange("worktree "@.len() as int, line.len() as int), branch: None },
            ),
        }
    } else if has_prefix(line, "branch "@) {
        match st.current {
            Some(e) => PorcelainState {
                entries: st.entries,
                current: Some(
                    EntryView {
                        worktree: e.worktree,
                        branch: Some(line.subrange("branch "@.len() as int, line.len() as int)),
                    },
                ),
            },
            None => st,
        }
    } else {
        st
    }
}

/// The state after reading `lines` in order from the start.
pub open spec fn porcelain_fold(lines: Seq<Seq<char>>) -> PorcelainState
    decreases lines.len(),
{
    if lines.len() == 0 {
        PorcelainState { entries: Seq::empty(), current: None }
    } else {
        porcelain_step(porcelain_fold(lines.drop_last()), lines.last())
    }
}

/// The entries of a `git worktree list --porcelain` listing.
pub open spec fn parse_porcelain_spec(raw: Seq<char>) -> Seq<EntryView> {
    flush(porcelain_fold(lines_spec(raw)))
}

/// The paths named by the `worktree <path>` lines, in order.
pub open spec fn worktree_line_paths(lines: Seq<Seq<char>>) -> Seq<Seq<char>>
    decreases lines.len(),
{
    if lines.len() == 0 {
        Seq::empty()
    } else {
        let p = worktree_line_paths(lines.drop_last());
        let l = lines.last();
        if l.len() >= 9 && l.subrange(0, 9) == "worktree "@ {
            p.push(l.subrange(9, l.len() as int))
        } else {
            p
        }
    }
}

/// The worktree paths of a sequence of entries.
pub open spec fn entry_paths(es: Seq<EntryView>) -> Seq<Seq<char>> {
    es.map_values(|e: EntryView| e.worktree)
}

proof fn lemma_trim_end_keeps_first(s: Seq<char>)
    requires
        s.len() > 0,
        !is_ws(s[0]),
    ensures
        trim_end(s).len() > 0,
    decreases s.len(),
{
    if is_ws(s.last()) {
        assert(s.len() > 1);
        assert(s.drop_last()[0] == s[0]);
        lemma_trim_end_keeps_first(s.drop_last());
    }
}

proof fn lemma_fold_paths(ls: Seq<Seq<char>>)
    ensures
        entry_paths(flush(porcelain_fold(ls))) == worktree_line_paths(ls),
    decreases ls.len(),
{
    reveal_strlit("worktree ");
    reveal_strlit("branch ");
    if ls.len() > 0 {
        let init = ls.drop_last();
        let line = ls.last();
        lemma_fold_paths(init);
        let st = porcelain_fold(init);
        let is_wt = line.len() >= 9 && line.subrange(0, 9) == "worktree "@;
        assert(has_prefix(line, "worktree "@) == is_wt);
        if is_wt {
            assert(line[0] == line.subrange(0, 9)[0]);
            assert(!is_ws(line[0]));
            assert(trim_start(line) == line);
            lemma_trim_end_keeps_first(line);
            let e = EntryView { worktree: line.subrange(9, line.len() as int), branch: None };
            assert(entry_paths(flush(st).push(e)) =~= entry_paths(flush(st)).push(e.worktree));
        } else if trim(line).len() == 0 {
        } else if has_prefix(line, "branch "@) {
            match st.current {
                Some(c) => {
                    let e = EntryView { worktree: c.worktree, branch: Some(line.subrange(7, line.len() as int)) };
                    assert(entry_paths(st.entries.push(e)) =~= entry_paths(st.entries.push(c)));
                },
                None => {},
            }
        }
    }
}

/// Every `worktree <path>` line of a listing gives exactly one entry, in
/// order, for that path, whether or not a `branch` line follows it and
/// whether or not a blank line closes its stanza; no other line gives one.
pub proof fn law_one_entry_per_worktree_line(raw: Seq<char>)
    ensures
        parse_porcelain_spec(raw).len() == worktree_line_paths(lines_spec(raw)).len(),
        entry_paths(parse_porcelain_spec(raw)) == worktree_line_paths(lines_spec(raw)),
{
    lemma_fold_paths(lines_spec(raw));
}

fn flush_exec(entries: &mut Vec<PorcelainEntry>, current: Option<PorcelainEntry>)
    ensures
        entry_views(final(entries)@) == flush(
            PorcelainState { entries: entry_views(old(entries)@), current: match current {
                Some(e) => Some(e@),
                None => None,
            } },
        ),
{
    match current {
        Some(e) => {
            let ghost ev = e@;
            entries.push(e);
            assert(entry_views(final(entries)@) =~= entry_views(old(entries)@).push(ev));
        },
        None => {},
    }
}

/// Reads the stanzas of a `git worktree list --porcelain` listing.
pub fn parse_worktree_porcelain(raw: &str) -> (entries: Vec<PorcelainEntry>)
    ensures
        entry_views(entries@) == parse_porcelain_spec(raw@),
{
    let cs = chars_of(raw);
    let lines = split_lines(&cs);
    let ghost ls = char_seqs(lines@);
    let wt = chars_of("worktree ");
    let br = chars_of("branch ");
    let mut entries: Vec<PorcelainEntry> = Vec::new();
    let mut current: Option<PorcelainEntry> = None;
    proof {
        assert(ls.subrange(0, 0) =~= Seq::<Seq<char>>::empty());
        assert(entry_views(entries@) =~= Seq::<EntryView>::empty());
    }
    for i in 0..lines.len()
        invariant
            ls == char_seqs(lines@),
            wt@ == "worktree "@,
            br@ == "branch "@,
            porcelain_fold(ls.subrange(0, i as int)) == (PorcelainState {
                entries: entry_views(entries@),
                current: match current {
                    Some(e) => Some(e@),
                    None => None,
                },
            }),
    {
        let ghost st = porcelain_fold(ls.subrange(0, i as int));
        proof {
            assert(ls.subrange(0, i + 1).drop_last() =~= ls.subrange(0, i as int));
            assert(ls.subrange(0, i + 1).last() == lines@[i as int]@);
        }
        let line = &lines[i];
        let t = trim_chars(line);
        if t.len() == 0 {
            let cur = current;
            current = None;
            flush_exec(&mut entries, cur);
        } else {
            match strip_prefix(line, &wt) {
                Some(rest) => {
                    let cur = current;
                    flush_exec(&mut entries, cur);
                    current = Some(PorcelainEntry { worktree: string_of(&rest), branch: None });
                },
                None => match strip_prefix(line, &br) {
                    Some(rest) => {
                        current = match current {
                            Some(e) => Some(PorcelainEntry { worktree: e.worktree, branch: Some(string_of(&rest)) }),
                            None => None,
                        };
                    },
                    None => {},
                },
            }
        }
    }
    proof {
        assert(ls.subrange(0, ls.len() as int) == ls);
    }
    flush_exec(&mut entries, current);
    entries
}

} // verus!
