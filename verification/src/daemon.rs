//! The decisions the daemon makes for each request, apart from the I/O.
use vstd::prelude::*;
use crate::allocator::{
    allocate_spec, cycle_spec, law_allocation_avoids_active, law_cycle_avoids_active, law_cycle_fails_when_nothing_free,
    AllocError, AllocFailure, ColorAllocator, FALLBACK_ATTEMPTS,
};
use crate::color::fallback_hex_spec;
use crate::git::{key_text, WorktreeInfo};
use crate::paths::{path_error_text, PathError};
use crate::protocol::{DoctorCheck, Response};
use crate::hex::{is_normalized_hex, law_normal_form_is_stable};
use crate::state::{
    active_worktree_keys, assigned_colors_excluding_spec, assignment_changes, context_changes, opt_view,
    recolor_terminals, terminals_in, ContextView, RuntimeState,
};
use crate::text::{lowercase, string_views, to_lowercase};

verus! {

/// What a `notify` decided: the colour the terminal gets, the worktree it is
/// in, and whether the recorded colour or the terminal's context changed.
#[derive(Debug, Clone)]
pub struct NotifyOutcome {
    pub assignment_changed: bool,
    pub context_changed: bool,
    pub worktree_key: Option<String>,
    pub color: String,
    pub worktree_path: Option<String>,
}

/// The colour chosen for the worktree named `key`: its recorded colour is
/// kept when no other worktree has it, else a fresh one is chosen, with the
/// worktree's text as the seed.
pub open spec fn worktree_color_spec(
    palette: Seq<Seq<char>>,
    strict: bool,
    assignments: Map<Seq<char>, Seq<char>>,
    key: Seq<char>,
) -> Result<Seq<char>, AllocFailure> {
    allocate_spec(
        palette,
        strict,
        key,
        if assignments.contains_key(key) { Some(assignments[key]) } else { None },
        assigned_colors_excluding_spec(assignments, Some(key)),
    )
}

/// No colour is recorded for two worktrees.
pub open spec fn colours_distinct(assignments: Map<Seq<char>, Seq<char>>) -> bool {
    forall|a: Seq<char>, b: Seq<char>|
        #![trigger assignments[a], assignments[b]]
        assignments.contains_key(a) && assignments.contains_key(b) && a != b ==> assignments[a] != assignments[b]
}

/// A worktree that comes back keeps the colour recorded for it, and nothing
/// recorded changes, as long as that colour is in normal form and no other
/// worktree has it.
pub proof fn law_reentry_keeps_colour(
    palette: Seq<Seq<char>>,
    strict: bool,
    assignments: Map<Seq<char>, Seq<char>>,
    key: Seq<char>,
)
    requires
        assignments.contains_key(key),
        is_normalized_hex(assignments[key]),
        !assigned_colors_excluding_spec(assignments, Some(key)).contains(assignments[key]),
    ensures
        worktree_color_spec(palette, strict, assignments, key) == Ok::<Seq<char>, AllocFailure>(assignments[key]),
        !assignment_changes(assignments, key, assignments[key]),
{
    law_normal_form_is_stable(assignments[key]);
}

/// Recording the colour chosen for a worktree never gives two worktrees the
/// same colour.
pub proof fn law_notify_keeps_colours_distinct(
    palette: Seq<Seq<char>>,
    strict: bool,
    assignments: Map<Seq<char>, Seq<char>>,
    key: Seq<char>,
    c: Seq<char>,
)
    requires
        colours_distinct(assignments),
        worktree_color_spec(palette, strict, assignments, key) == Ok::<Seq<char>, AllocFailure>(c),
    ensures
        colours_distinct(assignments.insert(key, c)),
{
    let active = assigned_colors_excluding_spec(assignments, Some(key));
    law_allocation_avoids_active(
        palette,
        strict,
        key,
        if assignments.contains_key(key) { Some(assignments[key]) } else { None },
        active,
    );
    let m = assignments.insert(key, c);
    assert forall|a: Seq<char>, b: Seq<char>|
        #![trigger m[a], m[b]]
        m.contains_key(a) && m.contains_key(b) && a != b implies m[a] != m[b] by {
        if a == key {
            assert(m[b] == assignments[b]);
            if assignments[b] == c {
                assert(active.contains(c));
            }
        } else if b == key {
            assert(m[a] == assignments[a]);
            if assignments[a] == c {
                assert(active.contains(c));
            }
        } else {
            assert(assignments[a] != assignments[b]);
        }
    }
}

/// Handles a terminal entering `worktree` (or leaving every worktree, for
/// `None`): chooses and records the worktree's colour, then records what the
/// terminal shows. Outside a worktree the terminal shows `neutral_color`,
/// lowercased. When no colour can be chosen nothing is recorded.
pub fn plan_notify(
    runtime: &mut RuntimeState,
    allocator: &ColorAllocator,
    terminal_id: &str,
    worktree: Option<WorktreeInfo>,
    neutral_color: &str,
) -> (r: Result<NotifyOutcome, AllocError>)
    requires
        old(runtime).wf(),
    ensures
        final(runtime).wf(),
        match worktree {
            Some(info) => {
                let key = key_text(info.key.repo_root@, info.key.worktree_path@);
                let chosen = worktree_color_spec(
                    allocator.palette_spec(),
                    allocator.strict_spec(),
                    old(runtime).assignments_map(),
                    key,
                );
                match r {
                    Err(e) => {
                        &&& chosen == Err::<Seq<char>, AllocFailure>(e@)
                        &&& final(runtime).assignments_map() == old(runtime).assignments_map()
                        &&& final(runtime).contexts_map() == old(runtime).contexts_map()
                    },
                    Ok(o) => {
                        &&& chosen == Ok::<Seq<char>, AllocFailure>(o.color@)
                        &&& opt_view(o.worktree_key) == Some(key)
                        &&& opt_view(o.worktree_path) == Some(info.key.worktree_path@)
                        &&& final(runtime).assignments_map() == old(runtime).assignments_map().insert(key, o.color@)
                        &&& o.assignment_changed == assignment_changes(old(runtime).assignments_map(), key, o.color@)
                        &&& final(runtime).contexts_map() == old(runtime).contexts_map().insert(
                            terminal_id@,
                            ContextView { worktree_key: Some(key), color: o.color@ },
                        )
                        &&& o.context_changed == context_changes(
                            old(runtime).contexts_map(),
                            terminal_id@,
                            ContextView { worktree_key: Some(key), color: o.color@ },
                        )
                    },
                }
            },
            None => r matches Ok(o) && {
                &&& o.color@ == lowercase(neutral_color@)
                &&& o.worktree_key is None
                &&& o.worktree_path is None
                &&& !o.assignment_changed
                &&& final(runtime).assignments_map() == old(runtime).assignments_map()
                &&& final(runtime).contexts_map() == old(runtime).contexts_map().insert(
                    terminal_id@,
                    ContextView { worktree_key: None, color: o.color@ },
                )
                &&& o.context_changed == context_changes(
                    old(runtime).contexts_map(),
                    terminal_id@,
                    ContextView { worktree_key: None, color: o.color@ },
                )
            },
        },
{
    let mut assignment_changed = false;
    let (worktree_key, color, worktree_path) = match worktree {
        Some(info) => {
            let key = info.key.as_string();
            let existing = runtime.assignment_for(key.as_str());
            let assigned = runtime.assigned_colors_excluding_key(Some(key.as_str()));
            let existing_ref: Option<&str> = match &existing {
                Some(e) => Some(e.as_str()),
                None => None,
            };
            let color = match allocator.allocate(key.as_str(), existing_ref, &assigned) {
                Ok(c) => c,
                Err(e) => {
                    return Err(e);
                },
            };
            assignment_changed = runtime.set_assignment(key.clone(), color.clone());
            (Some(key), color, Some(info.key.worktree_path))
        },
        None => {
            let c = to_lowercase(neutral_color);
            (None, c, None)
        },
    };
    let context_changed = runtime.set_terminal_context(
        String::from_str(terminal_id),
        match &worktree_key {
            Some(k) => Some(k.clone()),
            None => None,
        },
        color.clone(),
    );
    Ok(NotifyOutcome { assignment_changed, context_changed, worktree_key, color, worktree_path })
}

/// The answer to `status`: running, with the number of known terminals and
/// of distinct worktrees that terminals are in.
pub fn status_response(runtime: &RuntimeState) -> (r: Response)
    requires
        runtime.wf(),
    ensures
        r matches Response::Status { running, terminals, active_worktrees } && running
            && terminals == runtime.contexts_map().len()
            && active_worktrees == active_worktree_keys(runtime.contexts_map()).len(),
{
    let (terminals, active_worktrees) = runtime.counts();
    Response::Status { running: true, terminals, active_worktrees }
}

/// The answer to `current` for `terminal_id`: the worktree it is in and the
/// colour it shows, both absent when the terminal is unknown.
pub fn current_response(runtime: &RuntimeState, terminal_id: String) -> (r: Response)
    requires
        runtime.wf(),
    ensures
        r matches Response::Current { terminal_id: t, worktree_key, color } && t@ == terminal_id@ && if runtime.contexts_map().contains_key(terminal_id@) {
            &&& opt_view(worktree_key) == runtime.contexts_map()[terminal_id@].worktree_key
            &&& opt_view(color) == Some(runtime.contexts_map()[terminal_id@].color)
        } else {
            worktree_key is None && color is None
        },
{
    let current = runtime.current_for_terminal(terminal_id.as_str());
    match current {
        Some(c) => Response::Current { terminal_id, worktree_key: c.worktree_key, color: Some(c.color) },
        None => Response::Current { terminal_id, worktree_key: None, color: None },
    }
}

/// The answer to `doctor`: the checks, and whether all of them passed.
pub fn doctor_response(checks: Vec<DoctorCheck>) -> (r: Response)
    ensures
        r matches Response::Doctor { ok, checks: c } && c@ == checks@ && ok == (forall|i: int|
            0 <= i < checks@.len() ==> (#[trigger] checks@[i]).ok),
{
    let mut ok = true;
    for i in 0..checks.len()
        invariant
            ok == (forall|j: int| 0 <= j < i ==> (#[trigger] checks@[j]).ok),
    {
        if !checks[i].ok {
            ok = false;
        }
    }
    Response::Doctor { ok, checks }
}

/// The answer that acknowledges a `notify`: changed when either the recorded
/// colour or the terminal's context changed.
pub fn ack_response(outcome: NotifyOutcome) -> (r: Response)
    ensures
        r matches Response::Ack { changed, worktree_key, color } && changed == (outcome.assignment_changed
            || outcome.context_changed) && worktree_key == outcome.worktree_key && color == outcome.color,
{
    Response::Ack {
        changed: outcome.assignment_changed || outcome.context_changed,
        worktree_key: outcome.worktree_key,
        color: outcome.color,
    }
}

/// The colours a worktree named `key` must not cycle to: those recorded for
/// other worktrees, and its own current colour.
pub open spec fn cycle_in_use(assignments: Map<Seq<char>, Seq<char>>, key: Seq<char>) -> Set<Seq<char>> {
    let others = assigned_colors_excluding_spec(assignments, Some(key));
    if assignments.contains_key(key) {
        others.insert(assignments[key])
    } else {
        others
    }
}

/// The colour the worktree named `key` moves to when its colour is cycled:
/// the next free palette colour after its current one, with the worktree's
/// text as the seed.
pub open spec fn worktree_cycle_spec(
    palette: Seq<Seq<char>>,
    strict: bool,
    assignments: Map<Seq<char>, Seq<char>>,
    key: Seq<char>,
) -> Result<Seq<char>, AllocFailure> {
    cycle_spec(
        palette,
        strict,
        key,
        if assignments.contains_key(key) { Some(assignments[key]) } else { None },
        cycle_in_use(assignments, key),
    )
}

/// Cycling a worktree's colour gives it a colour other than the one it had
/// and than every other worktree's, so no two worktrees share a colour after
/// it is recorded.
pub proof fn law_cycle_changes_colour(
    palette: Seq<Seq<char>>,
    strict: bool,
    assignments: Map<Seq<char>, Seq<char>>,
    key: Seq<char>,
    c: Seq<char>,
)
    requires
        worktree_cycle_spec(palette, strict, assignments, key) == Ok::<Seq<char>, AllocFailure>(c),
    ensures
        assignments.contains_key(key) ==> c != assignments[key],
        assignment_changes(assignments, key, c),
        !assigned_colors_excluding_spec(assignments, Some(key)).contains(c),
        colours_distinct(assignments) ==> colours_distinct(assignments.insert(key, c)),
{
    let cur = if assignments.contains_key(key) { Some(assignments[key]) } else { None };
    law_cycle_avoids_active(palette, strict, key, cur, cycle_in_use(assignments, key));
    let others = assigned_colors_excluding_spec(assignments, Some(key));
    assert(!others.contains(c));
    let m = assignments.insert(key, c);
    if colours_distinct(assignments) {
        assert forall|a: Seq<char>, b: Seq<char>|
            #![trigger m[a], m[b]]
            m.contains_key(a) && m.contains_key(b) && a != b implies m[a] != m[b] by {
            if a == key {
                assert(m[b] == assignments[b]);
                if assignments[b] == c {
                    assert(others.contains(c));
                }
            } else if b == key {
                assert(m[a] == assignments[a]);
                if assignments[a] == c {
                    assert(others.contains(c));
                }
            } else {
                assert(assignments[a] != assignments[b]);
            }
        }
    }
}

/// Cycling a worktree's colour fails when no colour other than its current
/// one is free: with a strict palette, when every palette colour is its own
/// or another worktree's; otherwise, when every fallback colour is taken too.
pub proof fn law_cycle_fails_when_nothing_free_for_worktree(
    palette: Seq<Seq<char>>,
    strict: bool,
    assignments: Map<Seq<char>, Seq<char>>,
    key: Seq<char>,
)
    requires
        palette.len() <= usize::MAX,
        forall|i: int| 0 <= i < palette.len() ==> cycle_in_use(assignments, key).contains(#[trigger] palette[i]),
    ensures
        strict ==> worktree_cycle_spec(palette, strict, assignments, key) == Err::<Seq<char>, AllocFailure>(
            AllocFailure::PaletteExhausted,
        ),
        (!strict && forall|a: u32| a < FALLBACK_ATTEMPTS ==> cycle_in_use(assignments, key).contains(
            #[trigger] fallback_hex_spec(key, a),
        )) ==> worktree_cycle_spec(palette, strict, assignments, key) == Err::<Seq<char>, AllocFailure>(
            AllocFailure::FallbackExhausted,
        ),
{
    law_cycle_fails_when_nothing_free(
        palette,
        strict,
        key,
        if assignments.contains_key(key) { Some(assignments[key]) } else { None },
        cycle_in_use(assignments, key),
    );
}

/// What cycling a worktree's colour decided: the worktree, its new colour,
/// and the terminals that now show it.
#[derive(Debug, Clone)]
pub struct CycleOutcome {
    pub assignment_changed: bool,
    pub worktree_key: String,
    pub color: String,
    pub worktree_path: String,
    pub terminals: Vec<String>,
}

/// Why a colour could not be cycled.
#[derive(Debug)]
pub enum CycleError {
    /// The path is not inside a git repository or worktree.
    NotAWorktree,
    /// No other colour is free.
    Alloc(AllocError),
}

/// Handles cycling the colour of `worktree`: moves it to the next free
/// colour, records that, and records the new colour for every terminal in
/// the worktree. Outside a worktree, or when no colour is free, nothing is
/// recorded.
pub fn plan_cycle_color(
    runtime: &mut RuntimeState,
    allocator: &ColorAllocator,
    worktree: Option<WorktreeInfo>,
) -> (r: Result<CycleOutcome, CycleError>)
    requires
        old(runtime).wf(),
    ensures
        final(runtime).wf(),
        match worktree {
            None => {
                &&& r matches Err(CycleError::NotAWorktree)
                &&& final(runtime).assignments_map() == old(runtime).assignments_map()
                &&& final(runtime).contexts_map() == old(runtime).contexts_map()
            },
            Some(info) => {
                let key = key_text(info.key.repo_root@, info.key.worktree_path@);
                let chosen = worktree_cycle_spec(
                    allocator.palette_spec(),
                    allocator.strict_spec(),
                    old(runtime).assignments_map(),
                    key,
                );
                match r {
                    Err(CycleError::NotAWorktree) => false,
                    Err(CycleError::Alloc(e)) => {
                        &&& chosen == Err::<Seq<char>, AllocFailure>(e@)
                        &&& final(runtime).assignments_map() == old(runtime).assignments_map()
                        &&& final(runtime).contexts_map() == old(runtime).contexts_map()
                    },
                    Ok(o) => {
                        &&& chosen == Ok::<Seq<char>, AllocFailure>(o.color@)
                        &&& o.worktree_key@ == key
                        &&& o.worktree_path@ == info.key.worktree_path@
                        &&& o.assignment_changed
                        &&& final(runtime).assignments_map() == old(runtime).assignments_map().insert(key, o.color@)
                        &&& forall|a: int, b: int| 0 <= a < b < o.terminals@.len() ==> (#[trigger] o.terminals@[a])@
                            != (#[trigger] o.terminals@[b])@
                        &&& forall|t: Seq<char>| terminals_in(old(runtime).contexts_map(), key).contains(t)
                            <==> string_views(o.terminals@).contains(t)
                        &&& final(runtime).contexts_map() == recolor_terminals(
                            old(runtime).contexts_map(),
                            string_views(o.terminals@),
                            key,
                            o.color@,
                        )
                    },
                }
            },
        },
{
    let info = match worktree {
        Some(info) => info,
        None => {
            return Err(CycleError::NotAWorktree);
        },
    };
    let key = info.key.as_string();
    let ghost a0 = runtime.assignments_map();
    let ghost c0 = runtime.contexts_map();
    let current = runtime.assignment_for(key.as_str());
    let mut in_use = runtime.assigned_colors_excluding_key(Some(key.as_str()));
    let current_ref: Option<&str> = match &current {
        Some(c) => {
            in_use.insert(c.clone());
            Some(c.as_str())
        },
        None => None,
    };
    assert(in_use@ == cycle_in_use(a0, key@));
    let color = match allocator.cycle(key.as_str(), current_ref, &in_use) {
        Ok(c) => c,
        Err(e) => {
            return Err(CycleError::Alloc(e));
        },
    };
    proof {
        law_cycle_changes_colour(allocator.palette_spec(), allocator.strict_spec(), a0, key@, color@);
    }
    let assignment_changed = runtime.set_assignment(key.clone(), color.clone());
    let terminals = runtime.terminals_for_worktree(key.as_str());
    let ghost tv = string_views(terminals@);
    assert forall|t: Seq<char>| terminals_in(c0, key@).contains(t) <==> tv.contains(t) by {
        if terminals_in(c0, key@).contains(t) {
            let a = choose|a: int| 0 <= a < terminals@.len() && (#[trigger] terminals@[a])@ == t;
            assert(tv[a] == t);
        }
        if tv.contains(t) {
            let a = choose|a: int| 0 <= a < tv.len() && tv[a] == t;
            assert(terminals@[a]@ == t);
        }
    }
    for i in 0..terminals.len()
        invariant
            runtime.wf(),
            tv == string_views(terminals@),
            runtime.assignments_map() == a0.insert(key@, color@),
            runtime.contexts_map() == recolor_terminals(c0, tv.subrange(0, i as int), key@, color@),
    {
        runtime.set_terminal_context(terminals[i].clone(), Some(key.clone()), color.clone());
        assert(tv.subrange(0, i + 1).drop_last() =~= tv.subrange(0, i as int));
    }
    assert(tv.subrange(0, tv.len() as int) == tv);
    Ok(CycleOutcome { assignment_changed, worktree_key: key, color, worktree_path: info.key.worktree_path, terminals })
}

/// The answer to a cycle that succeeded: the worktree and its new colour.
pub fn cycle_ack_response(outcome: CycleOutcome) -> (r: Response)
    ensures
        r matches Response::Ack { changed, worktree_key, color } && changed == outcome.assignment_changed
            && worktree_key == Some(outcome.worktree_key) && color == outcome.color,
{
    Response::Ack { changed: outcome.assignment_changed, worktree_key: Some(outcome.worktree_key), color: outcome.color }
}

/// The message for a path that is not in a git repository or worktree.
pub fn not_a_worktree_message(path: &str) -> (m: String)
    ensures
        m@ == "Not a git worktree: "@ + path@ + "; cycle-color needs a git repository or worktree (see https://git-scm.com/docs/git-worktree)"@,
{
    let mut m = String::from_str("Not a git worktree: ");
    m.append(path);
    m.append("; cycle-color needs a git repository or worktree (see https://git-scm.com/docs/git-worktree)");
    m
}

/// A health check with this name, verdict and details.
pub open spec fn is_check(c: DoctorCheck, name: Seq<char>, ok: bool, details: Seq<char>) -> bool {
    c.name@ == name && c.ok == ok && c.details@ == details
}

/// The details of a check on a configured path: `found` followed by the
/// path, or `invalid` followed by why it could not be worked out.
pub open spec fn path_details(p: Result<String, PathError>, found: Seq<char>, invalid: Seq<char>) -> Seq<char> {
    match p {
        Ok(s) => found + s@,
        Err(e) => invalid + path_error_text(e),
    }
}

fn path_check(name: &str, p: &Result<String, PathError>, ok_if_found: bool, found: &str, invalid: &str) -> (c: DoctorCheck)
    ensures
        is_check(c, name@, p is Ok && ok_if_found, path_details(*p, found@, invalid@)),
{
    match p {
        Ok(s) => {
            let mut d = String::from_str(found);
            d.append(s.as_str());
            DoctorCheck { name: String::from_str(name), ok: ok_if_found, details: d }
        },
        Err(e) => {
            let mut d = String::from_str(invalid);
            let m = e.message();
            d.append(m.as_str());
            DoctorCheck { name: String::from_str(name), ok: false, details: d }
        },
    }
}

/// The daemon's health checks, in order: the socket's directory exists
/// (`socket_parent_exists` tells whether the directory of `socket_path` does);
/// the state path can be worked out; the Ghostty terminal check, whose
/// verdict is given; and the Cursor integration, which always passes.
pub fn doctor_checks(
    socket_path: &Result<String, PathError>,
    socket_parent_exists: bool,
    state_path: &Result<String, PathError>,
    tty_ok: bool,
    tty_details: String,
) -> (v: Vec<DoctorCheck>)
    ensures
        v@.len() == 4,
        is_check(
            v@[0],
            "socket_parent"@,
            socket_path is Ok && socket_parent_exists,
            path_details(*socket_path, "socket path: "@, "invalid socket path: "@),
        ),
        is_check(v@[1], "state_path"@, state_path is Ok, path_details(*state_path, "state path: "@, "invalid state path: "@)),
        is_check(v@[2], "ghostty_tty"@, tty_ok, tty_details@),
        is_check(
            v@[3],
            "cursor_settings"@,
            true,
            "Cursor integration writes only managed keys in .vscode/settings.json"@,
        ),
{
    let mut v: Vec<DoctorCheck> = Vec::new();
    v.push(path_check("socket_parent", socket_path, socket_parent_exists, "socket path: ", "invalid socket path: "));
    v.push(path_check("state_path", state_path, true, "state path: ", "invalid state path: "));
    v.push(DoctorCheck { name: String::from_str("ghostty_tty"), ok: tty_ok, details: tty_details });
    v.push(
        DoctorCheck {
            name: String::from_str("cursor_settings"),
            ok: true,
            details: String::from_str("Cursor integration writes only managed keys in .vscode/settings.json"),
        },
    );
    v
}

/// How a terminal's colours are updated.
#[derive(Debug, Clone, Copy, PartialEq, Eq)]
pub enum TtyUpdate {
    /// Set the background (and a readable foreground) to the colour.
    Background,
    /// Reset the terminal's colours to its defaults.
    Reset,
}

/// The integration updates that follow a `notify`.
#[derive(Debug, Clone)]
pub struct IntegrationPlan {
    /// How the terminal is updated, when the Ghostty integration is on.
    pub ghostty: Option<TtyUpdate>,
    /// The worktree whose Cursor settings are written, when the Cursor
    /// integration is on and the terminal is in a worktree.
    pub cursor_path: Option<String>,
}

/// Which integrations run after a `notify`: with Ghostty on, a terminal in a
/// worktree gets the colour and one outside every worktree is reset; with
/// Cursor on, the worktree's settings are written.
pub fn plan_integrations(ghostty_enabled: bool, cursor_enabled: bool, worktree_path: &Option<String>) -> (p: IntegrationPlan)
    ensures
        p.ghostty == if ghostty_enabled {
            Some(if worktree_path is Some { TtyUpdate::Background } else { TtyUpdate::Reset })
        } else {
            None::<TtyUpdate>
        },
        opt_view(p.cursor_path) == if cursor_enabled { opt_view(*worktree_path) } else { None },
{
    let ghostty = if ghostty_enabled {
        match worktree_path {
            Some(_) => Some(TtyUpdate::Background),
            None => Some(TtyUpdate::Reset),
        }
    } else {
        None
    };
    let cursor_path = if cursor_enabled {
        match worktree_path {
            Some(p) => Some(p.clone()),
            None => None,
        }
    } else {
        None
    };
    IntegrationPlan { ghostty, cursor_path }
}

} // verus!
