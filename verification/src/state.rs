//! The daemon's runtime state: the colour recorded for each worktree and what
//! each terminal currently shows.
use vstd::prelude::*;
use vstd::hash_set::StringHashSet;
use crate::keyed::{assoc_map, assoc_map_index, has_key, keys_distinct, lemma_assoc_map_at, lemma_assoc_map_push, StrMap};

verus! {

/// An optional text taken by its view.
pub open spec fn opt_view(o: Option<String>) -> Option<Seq<char>> {
    match o {
        Some(s) => Some(s@),
        None => None,
    }
}

/// What a terminal currently shows: the worktree it is in, if any, and the colour.
#[derive(Debug, Clone)]
pub struct TerminalContext {
    pub worktree_key: Option<String>,
    pub color: String,
}

/// `TerminalContext` with its texts taken by value.
pub struct ContextView {
    pub worktree_key: Option<Seq<char>>,
    pub color: Seq<char>,
}

impl View for TerminalContext {
    type V = ContextView;

    open spec fn view(&self) -> ContextView {
        ContextView { worktree_key: opt_view(self.worktree_key), color: self.color@ }
    }
}

fn clone_opt_string(o: &Option<String>) -> (r: Option<String>)
    ensures
        opt_view(r) == opt_view(*o),
{
    match o {
        Some(s) => Some(s.clone()),
        None => None,
    }
}

fn opt_string_eq(a: &Option<String>, b: &Option<String>) -> (r: bool)
    ensures
        r == (opt_view(*a) == opt_view(*b)),
{
    match (a, b) {
        (Some(x), Some(y)) => *x == *y,
        (None, None) => true,
        _ => false,
    }
}

impl TerminalContext {
    /// A copy with the same worktree and colour.
    pub fn copied(&self) -> (r: TerminalContext)
        ensures
            r@ == self@,
    {
        TerminalContext { worktree_key: clone_opt_string(&self.worktree_key), color: self.color.clone() }
    }
}

/// The worktrees that at least one terminal is in.
pub open spec fn active_worktree_keys(contexts: Map<Seq<char>, ContextView>) -> Set<Seq<char>> {
    Set::new(|k: Seq<char>| exists|t: Seq<char>| #[trigger] contexts.contains_key(t) && contexts[t].worktree_key == Some(k))
}

/// The colours recorded for worktrees other than `exclude`.
pub open spec fn assigned_colors_excluding_spec(
    assignments: Map<Seq<char>, Seq<char>>,
    exclude: Option<Seq<char>>,
) -> Set<Seq<char>> {
    Set::new(|c: Seq<char>| exists|k: Seq<char>| #[trigger] assignments.contains_key(k) && assignments[k] == c
        && exclude != Some(k))
}

/// A terminal counts toward the colours in use unless it is in the worktree `exclude`.
pub open spec fn context_counts(ctx: ContextView, exclude: Option<Seq<char>>) -> bool {
    !(ctx.worktree_key is Some && exclude is Some && ctx.worktree_key == exclude)
}

/// The colours shown by terminals that are not in the worktree `exclude`.
pub open spec fn active_colors_excluding_spec(
    contexts: Map<Seq<char>, ContextView>,
    exclude: Option<Seq<char>>,
) -> Set<Seq<char>> {
    Set::new(|c: Seq<char>| exists|t: Seq<char>| #[trigger] contexts.contains_key(t) && contexts[t].color == c
        && context_counts(contexts[t], exclude))
}

/// The terminals that are in the worktree `key`.
pub open spec fn terminals_in(contexts: Map<Seq<char>, ContextView>, key: Seq<char>) -> Set<Seq<char>> {
    Set::new(|t: Seq<char>| contexts.contains_key(t) && contexts[t].worktree_key == Some(key))
}

/// Recording `color` for `key` changes what `assignments` holds.
pub open spec fn assignment_changes(assignments: Map<Seq<char>, Seq<char>>, key: Seq<char>, color: Seq<char>) -> bool {
    !(assignments.contains_key(key) && assignments[key] == color)
}

/// Recording `ctx` for terminal `t` changes what `contexts` holds.
pub open spec fn context_changes(contexts: Map<Seq<char>, ContextView>, t: Seq<char>, ctx: ContextView) -> bool {
    !(contexts.contains_key(t) && contexts[t] == ctx)
}

/// The map that the pairs describe when inserted one after another.
pub open spec fn insert_all(pairs: Seq<(Seq<char>, Seq<char>)>) -> Map<Seq<char>, Seq<char>>
    decreases pairs.len(),
{
    if pairs.len() == 0 {
        Map::empty()
    } else {
        insert_all(pairs.drop_last()).insert(pairs.last().0, pairs.last().1)
    }
}

/// The pairs of strings, each taken by its view.
pub open spec fn pair_views(v: Seq<(String, String)>) -> Seq<(Seq<char>, Seq<char>)> {
    v.map_values(|e: (String, String)| (e.0@, e.1@))
}

/// The colour recorded for each worktree, and what each terminal shows.
#[derive(Debug, Clone)]
pub struct RuntimeState {
    assignments: StrMap<String>,
    terminal_contexts: StrMap<TerminalContext>,
}

impl RuntimeState {
    /// Worktree key to recorded colour.
    pub closed spec fn assignments_map(&self) -> Map<Seq<char>, Seq<char>> {
        self.assignments.map()
    }

    /// Terminal id to what it shows.
    pub closed spec fn contexts_map(&self) -> Map<Seq<char>, ContextView> {
        self.terminal_contexts.map()
    }

    /// The internal lists hold each key once.
    pub closed spec fn wf(&self) -> bool {
        self.assignments.wf() && self.terminal_contexts.wf()
    }

    /// A state with nothing recorded.
    pub fn new() -> (s: RuntimeState)
        ensures
            s.wf(),
            s.assignments_map() == Map::<Seq<char>, Seq<char>>::empty(),
            s.contexts_map() == Map::<Seq<char>, ContextView>::empty(),
    {
        RuntimeState { assignments: StrMap::new(), terminal_contexts: StrMap::new() }
    }

    /// The colour recorded for the worktree `key`.
    pub fn assignment_for(&self, key: &str) -> (r: Option<String>)
        requires
            self.wf(),
        ensures
            opt_view(r) == (if self.assignments_map().contains_key(key@) {
                Some(self.assignments_map()[key@])
            } else {
                None
            }),
    {
        match self.assignments.get(key) {
            Some(c) => Some(c.clone()),
            None => None,
        }
    }

    /// Records `color` for the worktree `key`; tells whether that changed what
    /// was recorded.
    pub fn set_assignment(&mut self, key: String, color: String) -> (changed: bool)
        requires
            old(self).wf(),
        ensures
            final(self).wf(),
            final(self).assignments_map() == old(self).assignments_map().insert(key@, color@),
            final(self).contexts_map() == old(self).contexts_map(),
            changed == assignment_changes(old(self).assignments_map(), key@, color@),
    {
        let changed = match self.assignments.get(key.as_str()) {
            Some(c) => !(*c == color),
            None => true,
        };
        self.assignments.insert(key, color);
        changed
    }

    /// Records what the terminal `terminal_id` shows; tells whether that
    /// changed what was recorded for it.
    pub fn set_terminal_context(&mut self, terminal_id: String, worktree_key: Option<String>, color: String) -> (changed: bool)
        requires
            old(self).wf(),
        ensures
            final(self).wf(),
            final(self).contexts_map() == old(self).contexts_map().insert(
                terminal_id@,
                ContextView { worktree_key: opt_view(worktree_key), color: color@ },
            ),
            final(self).assignments_map() == old(self).assignments_map(),
            changed == context_changes(
                old(self).contexts_map(),
                terminal_id@,
                ContextView { worktree_key: opt_view(worktree_key), color: color@ },
            ),
    {
        let changed = match self.terminal_contexts.get(terminal_id.as_str()) {
            Some(existing) => !opt_string_eq(&existing.worktree_key, &worktree_key) || !(existing.color == color),
            None => true,
        };
        self.terminal_contexts.insert(terminal_id, TerminalContext { worktree_key, color });
        changed
    }

    /// The number of known terminals, and the number of distinct worktrees
    /// that some terminal is in.
    pub fn counts(&self) -> (r: (usize, usize))
        requires
            self.wf(),
        ensures
            self.contexts_map().dom().finite(),
            active_worktree_keys(self.contexts_map()).finite(),
            r.0 == self.contexts_map().len(),
            r.1 == active_worktree_keys(self.contexts_map()).len(),
    {
        let terminals = self.terminal_contexts.len();
        let ghost ps = self.terminal_contexts.pairs();
        let mut seen = StringHashSet::new();
        let n = self.terminal_contexts.entry_count();
        for i in 0..n
            invariant
                n == ps.len(),
                ps == self.terminal_contexts.pairs(),
                seen@.finite(),
                seen@ == Set::new(|k: Seq<char>| exists|j: int| 0 <= j < i && (#[trigger] ps[j]).1.worktree_key == Some(k)),
        {
            let ghost before = seen@;
            match &self.terminal_contexts.value_at(i).worktree_key {
                Some(k) => {
                    seen.insert(k.clone());
                },
                None => {},
            }
            assert(seen@ =~= Set::new(|k: Seq<char>| exists|j: int| 0 <= j < i + 1 && (#[trigger] ps[j]).1.worktree_key == Some(k))) by {
                assert forall|k: Seq<char>| (exists|j: int| 0 <= j < i + 1 && (#[trigger] ps[j]).1.worktree_key == Some(k)) implies seen@.contains(k) by {
                    let j = choose|j: int| 0 <= j < i + 1 && (#[trigger] ps[j]).1.worktree_key == Some(k);
                    if j < i {
                        assert(before.contains(k));
                    }
                }
            }
        }
        proof {
            let m = self.contexts_map();
            assert forall|k: Seq<char>| #[trigger] seen@.contains(k) == active_worktree_keys(m).contains(k) by {
                if seen@.contains(k) {
                    let j = choose|j: int| 0 <= j < n && (#[trigger] ps[j]).1.worktree_key == Some(k);
                    lemma_assoc_map_at(ps, j);
                    assert(m.contains_key(ps[j].0) && m[ps[j].0].worktree_key == Some(k));
                }
                if active_worktree_keys(m).contains(k) {
                    let t = choose|t: Seq<char>| #[trigger] m.contains_key(t) && m[t].worktree_key == Some(k);
                    let j = assoc_map_index(ps, t);
                    assert(ps[j].1.worktree_key == Some(k));
                }
            }
            assert(seen@ =~= active_worktree_keys(m));
        }
        (terminals, seen.len())
    }

    /// The colours recorded for every worktree but `exclude_key`.
    pub fn assigned_colors_excluding_key(&self, exclude_key: Option<&str>) -> (r: StringHashSet)
        requires
            self.wf(),
        ensures
            r@.finite(),
            r@ == assigned_colors_excluding_spec(
                self.assignments_map(),
                match exclude_key { Some(e) => Some(e@), None => None },
            ),
    {
        let ghost ps = self.assignments.pairs();
        let ghost ex = match exclude_key { Some(e) => Some(e@), None => None::<Seq<char>> };
        let exclude_s: Option<String> = match exclude_key {
            Some(e) => Some(String::from_str(e)),
            None => None,
        };
        let mut colors = StringHashSet::new();
        let n = self.assignments.entry_count();
        for i in 0..n
            invariant
                n == ps.len(),
                ps == self.assignments.pairs(),
                ex == match exclude_key { Some(e) => Some(e@), None => None::<Seq<char>> },
                opt_view(exclude_s) == ex,
                colors@.finite(),
                colors@ == Set::new(|c: Seq<char>| exists|j: int| 0 <= j < i && (#[trigger] ps[j]).1 == c && ex != Some(ps[j].0)),
        {
            let ghost before = colors@;
            let key = self.assignments.key_at(i);
            let keep = match &exclude_s {
                Some(exclude) => !(*key == *exclude),
                None => true,
            };
            if keep {
                colors.insert(self.assignments.value_at(i).clone());
            }
            assert(colors@ =~= Set::new(|c: Seq<char>| exists|j: int| 0 <= j < i + 1 && (#[trigger] ps[j]).1 == c && ex != Some(ps[j].0))) by {
                assert forall|c: Seq<char>| (exists|j: int| 0 <= j < i + 1 && (#[trigger] ps[j]).1 == c && ex != Some(ps[j].0)) implies colors@.contains(c) by {
                    let j = choose|j: int| 0 <= j < i + 1 && (#[trigger] ps[j]).1 == c && ex != Some(ps[j].0);
                    if j < i {
                        assert(before.contains(c));
                    }
                }
            }
        }
        proof {
            let m = self.assignments_map();
            assert forall|c: Seq<char>| #[trigger] colors@.contains(c) == assigned_colors_excluding_spec(m, ex).contains(c) by {
                if colors@.contains(c) {
                    let j = choose|j: int| 0 <= j < n && (#[trigger] ps[j]).1 == c && ex != Some(ps[j].0);
                    lemma_assoc_map_at(ps, j);
                    assert(m.contains_key(ps[j].0) && m[ps[j].0] == c);
                }
                if assigned_colors_excluding_spec(m, ex).contains(c) {
                    let k = choose|k: Seq<char>| #[trigger] m.contains_key(k) && m[k] == c && ex != Some(k);
                    let j = assoc_map_index(ps, k);
                    assert(ps[j].1 == c);
                }
            }
            assert(colors@ =~= assigned_colors_excluding_spec(m, ex));
        }
        colors
    }

    /// The colours shown by terminals that are not in the worktree `exclude_key`.
    pub fn active_colors_excluding_key(&self, exclude_key: Option<&str>) -> (r: StringHashSet)
        requires
            self.wf(),
        ensures
            r@.finite(),
            r@ == active_colors_excluding_spec(
                self.contexts_map(),
                match exclude_key { Some(e) => Some(e@), None => None },
            ),
    {
        let ghost ps = self.terminal_contexts.pairs();
        let ghost ex = match exclude_key { Some(e) => Some(e@), None => None::<Seq<char>> };
        let exclude_s: Option<String> = match exclude_key {
            Some(e) => Some(String::from_str(e)),
            None => None,
        };
        let mut colors = StringHashSet::new();
        let n = self.terminal_contexts.entry_count();
        for i in 0..n
            invariant
                n == ps.len(),
                ps == self.terminal_contexts.pairs(),
                ex == match exclude_key { Some(e) => Some(e@), None => None::<Seq<char>> },
                opt_view(exclude_s) == ex,
                colors@.finite(),
                colors@ == Set::new(|c: Seq<char>| exists|j: int| 0 <= j < i && (#[trigger] ps[j]).1.color == c && context_counts(ps[j].1, ex)),
        {
            let ghost before = colors@;
            let ctx = self.terminal_contexts.value_at(i);
            let keep = match (&ctx.worktree_key, &exclude_s) {
                (Some(key), Some(exclude)) => !(*key == *exclude),
                _ => true,
            };
            if keep {
                colors.insert(ctx.color.clone());
            }
            assert(colors@ =~= Set::new(|c: Seq<char>| exists|j: int| 0 <= j < i + 1 && (#[trigger] ps[j]).1.color == c && context_counts(ps[j].1, ex))) by {
                assert forall|c: Seq<char>| (exists|j: int| 0 <= j < i + 1 && (#[trigger] ps[j]).1.color == c && context_counts(ps[j].1, ex)) implies colors@.contains(c) by {
                    let j = choose|j: int| 0 <= j < i + 1 && (#[trigger] ps[j]).1.color == c && context_counts(ps[j].1, ex);
                    if j < i {
                        assert(before.contains(c));
                    }
                }
            }
        }
        proof {
            let m = self.contexts_map();
            assert forall|c: Seq<char>| #[trigger] colors@.contains(c) == active_colors_excluding_spec(m, ex).contains(c) by {
                if colors@.contains(c) {
                    let j = choose|j: int| 0 <= j < n && (#[trigger] ps[j]).1.color == c && context_counts(ps[j].1, ex);
                    lemma_assoc_map_at(ps, j);
                    assert(m.contains_key(ps[j].0) && m[ps[j].0].color == c);
                }
                if active_colors_excluding_spec(m, ex).contains(c) {
                    let t = choose|t: Seq<char>| #[trigger] m.contains_key(t) && m[t].color == c && context_counts(m[t], ex);
                    let j = assoc_map_index(ps, t);
                    assert(ps[j].1.color == c);
                }
            }
            assert(colors@ =~= active_colors_excluding_spec(m, ex));
        }
        colors
    }

    /// The terminals that are in the worktree `worktree_key`, each once.
    pub fn terminals_for_worktree(&self, worktree_key: &str) -> (r: Vec<String>)
        requires
            self.wf(),
        ensures
            forall|a: int, b: int| 0 <= a < b < r@.len() ==> (#[trigger] r@[a])@ != (#[trigger] r@[b])@,
            forall|t: Seq<char>| terminals_in(self.contexts_map(), worktree_key@).contains(t)
                <==> (exists|a: int| 0 <= a < r@.len() && (#[trigger] r@[a])@ == t),
    {
        let ghost ps = self.terminal_contexts.pairs();
        let ghost wk = worktree_key@;
        let want = String::from_str(worktree_key);
        let mut out: Vec<String> = Vec::new();
        let ghost mut idx: Seq<int> = Seq::empty();
        let n = self.terminal_contexts.entry_count();
        for i in 0..n
            invariant
                n == ps.len(),
                ps == self.terminal_contexts.pairs(),
                keys_distinct(ps),
                want@ == wk,
                out@.len() == idx.len(),
                forall|a: int| 0 <= a < idx.len() ==> 0 <= #[trigger] idx[a] < i && out@[a]@ == ps[idx[a]].0
                    && ps[idx[a]].1.worktree_key == Some(wk),
                forall|a: int, b: int| 0 <= a < b < idx.len() ==> #[trigger] idx[a] < #[trigger] idx[b],
                forall|j: int| 0 <= j < i && (#[trigger] ps[j]).1.worktree_key == Some(wk) ==> exists|a: int| 0 <= a < idx.len() && idx[a] == j,
        {
            let ctx = self.terminal_contexts.value_at(i);
            let matches = match &ctx.worktree_key {
                Some(k) => *k == want,
                None => false,
            };
            if matches {
                out.push(self.terminal_contexts.key_at(i).clone());
                proof {
                    let old_idx = idx;
                    idx = idx.push(i as int);
                    assert forall|j: int| 0 <= j < i + 1 && (#[trigger] ps[j]).1.worktree_key == Some(wk) implies exists|a: int| 0 <= a < idx.len() && idx[a] == j by {
                        if j < i {
                            let a = choose|a: int| 0 <= a < old_idx.len() && old_idx[a] == j;
                            assert(idx[a] == j);
                        } else {
                            assert(idx[old_idx.len() as int] == j);
                        }
                    }
                }
            } else {
                proof {
                    assert forall|j: int| 0 <= j < i + 1 && (#[trigger] ps[j]).1.worktree_key == Some(wk) implies exists|a: int| 0 <= a < idx.len() && idx[a] == j by {
                        if j == i {
                            assert(ps[j].1.worktree_key != Some(wk));
                        }
                    }
                }
            }
        }
        proof {
            let m = self.contexts_map();
            assert forall|a: int, b: int| 0 <= a < b < out@.len() implies (#[trigger] out@[a])@ != (#[trigger] out@[b])@ by {
                assert(idx[a] < idx[b]);
                assert(ps[idx[a]].0 != ps[idx[b]].0);
            }
            assert forall|t: Seq<char>| terminals_in(m, wk).contains(t)
                <==> (exists|a: int| 0 <= a < out@.len() && (#[trigger] out@[a])@ == t) by {
                if terminals_in(m, wk).contains(t) {
                    let j = assoc_map_index(ps, t);
                    let a = choose|a: int| 0 <= a < idx.len() && idx[a] == j;
                    assert(out@[a]@ == t);
                }
                if exists|a: int| 0 <= a < out@.len() && (#[trigger] out@[a])@ == t {
                    let a = choose|a: int| 0 <= a < out@.len() && (#[trigger] out@[a])@ == t;
                    lemma_assoc_map_at(ps, idx[a]);
                }
            }
        }
        out
    }

    /// A state holding the given worktree colours (a later pair for the same
    /// worktree wins) and no terminals.
    pub fn from_assignments(entries: Vec<(String, String)>) -> (s: RuntimeState)
        ensures
            s.wf(),
            s.assignments_map() == insert_all(pair_views(entries@)),
            s.contexts_map() == Map::<Seq<char>, ContextView>::empty(),
    {
        let mut s = RuntimeState::new();
        let ghost pv = pair_views(entries@);
        for i in 0..entries.len()
            invariant
                s.wf(),
                s.contexts_map() == Map::<Seq<char>, ContextView>::empty(),
                pv == pair_views(entries@),
                s.assignments_map() == insert_all(pv.subrange(0, i as int)),
        {
            let k = entries[i].0.clone();
            let c = entries[i].1.clone();
            s.set_assignment(k, c);
            assert(pv.subrange(0, i + 1).drop_last() =~= pv.subrange(0, i as int));
        }
        assert(pv.subrange(0, pv.len() as int) == pv);
        s
    }

    /// The recorded worktree colours, one pair per worktree.
    pub fn assignment_entries(&self) -> (r: Vec<(String, String)>)
        requires
            self.wf(),
        ensures
            keys_distinct(pair_views(r@)),
            assoc_map(pair_views(r@)) == self.assignments_map(),
    {
        let ghost ps = self.assignments.pairs();
        let mut out: Vec<(String, String)> = Vec::new();
        let n = self.assignments.entry_count();
        for i in 0..n
            invariant
                n == ps.len(),
                ps == self.assignments.pairs(),
                pair_views(out@) == ps.subrange(0, i as int),
        {
            let k = self.assignments.key_at(i).clone();
            let v = self.assignments.value_at(i).clone();
            let ghost before = out@;
            let ghost kv = k@;
            let ghost vv = v@;
            assert(before.len() == pair_views(before).len());
            out.push((k, v));
            assert(out@.len() == i + 1);
            assert(out@[i as int].0@ == kv && out@[i as int].1@ == vv);
            assert(pair_views(out@) =~= ps.subrange(0, i + 1)) by {
                assert(pair_views(out@)[i as int] == (kv, vv));
                assert forall|j: int| 0 <= j < i implies pair_views(out@)[j] == pair_views(before)[j] by {
                    assert(out@[j] == before[j]);
                }
            }
        }
        assert(ps.subrange(0, n as int) == ps);
        out
    }

    /// What the terminal `terminal_id` shows, if it is known.
    pub fn current_for_terminal(&self, terminal_id: &str) -> (r: Option<TerminalContext>)
        requires
            self.wf(),
        ensures
            match r {
                Some(c) => self.contexts_map().contains_key(terminal_id@) && c@ == self.contexts_map()[terminal_id@],
                None => !self.contexts_map().contains_key(terminal_id@),
            },
    {
        match self.terminal_contexts.get(terminal_id) {
            Some(c) => Some(c.copied()),
            None => None,
        }
    }
}

/// What terminals show after each of `ts`, in turn, is recorded as showing
/// colour `c` in worktree `w`.
pub open spec fn recolor_terminals(
    contexts: Map<Seq<char>, ContextView>,
    ts: Seq<Seq<char>>,
    w: Seq<char>,
    c: Seq<char>,
) -> Map<Seq<char>, ContextView>
    decreases ts.len(),
{
    if ts.len() == 0 {
        contexts
    } else {
        recolor_terminals(contexts, ts.drop_last(), w, c).insert(
            ts.last(),
            ContextView { worktree_key: Some(w), color: c },
        )
    }
}

proof fn lemma_recolor_terminals(
    contexts: Map<Seq<char>, ContextView>,
    ts: Seq<Seq<char>>,
    w: Seq<char>,
    c: Seq<char>,
)
    ensures
        forall|t: Seq<char>| #[trigger] recolor_terminals(contexts, ts, w, c).contains_key(t)
            == (contexts.contains_key(t) || ts.contains(t)),
        forall|t: Seq<char>| #[trigger] ts.contains(t) ==> recolor_terminals(contexts, ts, w, c)[t]
            == (ContextView { worktree_key: Some(w), color: c }),
        forall|t: Seq<char>| !ts.contains(t) && contexts.contains_key(t) ==> #[trigger] recolor_terminals(
            contexts,
            ts,
            w,
            c,
        )[t] == contexts[t],
    decreases ts.len(),
{
    if ts.len() > 0 {
        let rest = ts.drop_last();
        lemma_recolor_terminals(contexts, rest, w, c);
        assert forall|t: Seq<char>| #[trigger] ts.contains(t) == (rest.contains(t) || t == ts.last()) by {
            if ts.contains(t) {
                let i = choose|i: int| 0 <= i < ts.len() && ts[i] == t;
                if i < rest.len() {
                    assert(rest[i] == t);
                }
            }
            if rest.contains(t) {
                let i = choose|i: int| 0 <= i < rest.len() && rest[i] == t;
                assert(ts[i] == t);
            }
            if t == ts.last() {
                assert(ts[ts.len() - 1] == t);
            }
        }
    }
}

/// Recording a colour for a worktree is read back for that worktree, leaves
/// every other worktree's colour alone, and recording it again changes nothing.
pub proof fn law_assignment_read_after_write(
    assignments: Map<Seq<char>, Seq<char>>,
    key: Seq<char>,
    color: Seq<char>,
)
    ensures
        assignments.insert(key, color).contains_key(key),
        assignments.insert(key, color)[key] == color,
        !assignment_changes(assignments.insert(key, color), key, color),
        forall|k: Seq<char>| k != key ==> (#[trigger] assignments.insert(key, color).contains_key(k)
            == assignments.contains_key(k)) && (assignments.contains_key(k) ==> assignments.insert(
            key,
            color,
        )[k] == assignments[k]),
{
}

/// Recording the same context for a terminal twice: the second time reports
/// no change; other terminals are untouched.
pub proof fn law_context_update_is_idempotent(
    contexts: Map<Seq<char>, ContextView>,
    t: Seq<char>,
    ctx: ContextView,
)
    ensures
        !context_changes(contexts.insert(t, ctx), t, ctx),
        contexts.insert(t, ctx).insert(t, ctx) == contexts.insert(t, ctx),
        forall|u: Seq<char>| u != t && contexts.contains_key(u) ==> #[trigger] contexts.insert(t, ctx)[u]
            == contexts[u],
{
    assert(contexts.insert(t, ctx).insert(t, ctx) =~= contexts.insert(t, ctx));
}

/// Moving a worktree to a new colour and recording it for every terminal
/// that `terminals_for_worktree` lists: each of those terminals then shows the
/// new colour and stays in the worktree; every other terminal is unchanged;
/// the worktree still has the same terminals.
pub proof fn law_recolor_worktree(
    contexts: Map<Seq<char>, ContextView>,
    ts: Seq<Seq<char>>,
    w: Seq<char>,
    c: Seq<char>,
)
    requires
        forall|t: Seq<char>| terminals_in(contexts, w).contains(t) <==> ts.contains(t),
    ensures
        forall|t: Seq<char>| #[trigger] terminals_in(contexts, w).contains(t) ==> recolor_terminals(
            contexts,
            ts,
            w,
            c,
        ).contains_key(t) && recolor_terminals(contexts, ts, w, c)[t] == (ContextView {
            worktree_key: Some(w),
            color: c,
        }),
        forall|t: Seq<char>| !terminals_in(contexts, w).contains(t) ==> (#[trigger] recolor_terminals(
            contexts,
            ts,
            w,
            c,
        ).contains_key(t) == contexts.contains_key(t)),
        forall|t: Seq<char>| !terminals_in(contexts, w).contains(t) && contexts.contains_key(t)
            ==> #[trigger] recolor_terminals(contexts, ts, w, c)[t] == contexts[t],
        terminals_in(recolor_terminals(contexts, ts, w, c), w) == terminals_in(contexts, w),
{
    lemma_recolor_terminals(contexts, ts, w, c);
    let r = recolor_terminals(contexts, ts, w, c);
    assert forall|t: Seq<char>| #[trigger] terminals_in(r, w).contains(t) == terminals_in(contexts, w).contains(t) by {
        if ts.contains(t) {
            assert(terminals_in(contexts, w).contains(t));
        } else if contexts.contains_key(t) {
            assert(r[t] == contexts[t]);
        }
    }
    assert(terminals_in(r, w) =~= terminals_in(contexts, w));
}

/// Saving and loading the recorded colours gives them back: inserting, one
/// after another, the pairs that `assignment_entries` lists (one per
/// worktree) rebuilds the map they describe, as `from_assignments` does.
pub proof fn law_assignments_roundtrip(pairs: Seq<(Seq<char>, Seq<char>)>)
    requires
        keys_distinct(pairs),
    ensures
        insert_all(pairs) == assoc_map(pairs),
    decreases pairs.len(),
{
    if pairs.len() > 0 {
        let init = pairs.drop_last();
        let last = pairs.last();
        assert forall|i: int, j: int| 0 <= i < j < init.len() implies (#[trigger] init[i]).0 != (#[trigger] init[j]).0 by {
            assert(init[i] == pairs[i] && init[j] == pairs[j]);
        }
        law_assignments_roundtrip(init);
        assert(!has_key(init, last.0)) by {
            if has_key(init, last.0) {
                let a = choose|a: int| 0 <= a < init.len() && (#[trigger] init[a]).0 == last.0;
                assert(pairs[a].0 != pairs[pairs.len() - 1].0);
            }
        }
        lemma_assoc_map_push(init, last.0, last.1);
        assert(init.push((last.0, last.1)) =~= pairs);
    } else {
        assert(assoc_map(pairs) =~= Map::<Seq<char>, Seq<char>>::empty());
    }
}

impl Default for RuntimeState {
    /// A state with nothing recorded.
    fn default() -> (s: RuntimeState)
        ensures
            s.wf(),
            s.assignments_map() == Map::<Seq<char>, Seq<char>>::empty(),
            s.contexts_map() == Map::<Seq<char>, ContextView>::empty(),
    {
        RuntimeState::new()
    }
}

} // verus!
