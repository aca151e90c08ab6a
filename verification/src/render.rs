//! The answers the daemon gives, and how the command line prints them.
use vstd::prelude::*;
use crate::protocol::{DoctorCheck, Response};
use crate::state::opt_view;
use crate::text::{push_char, string_views};

verus! {

/// `true` or `false`, as `{}` prints a `bool`.
pub open spec fn bool_text(b: bool) -> Seq<char> {
    if b {
        "true"@
    } else {
        "false"@
    }
}

/// The decimal digit for `d` (`0 <= d < 10`).
pub open spec fn digit_char(d: int) -> char {
    (48 + d) as char
}

/// The decimal text of `n`, as `{}` prints an integer.
pub open spec fn decimal(n: nat) -> Seq<char>
    decreases n,
{
    if n < 10 {
        seq![digit_char(n as int)]
    } else {
        decimal(n / 10).push(digit_char((n % 10) as int))
    }
}

/// The text, or `<none>`.
pub open spec fn or_none(o: Option<Seq<char>>) -> Seq<char> {
    match o {
        Some(s) => s,
        None => "<none>"@,
    }
}

/// The line printed for one health check.
pub open spec fn check_line(c: DoctorCheck) -> Seq<char> {
    "- "@ + c.name@ + ": "@ + (if c.ok { "ok"@ } else { "fail"@ }) + " ("@ + c.details@ + ")"@
}

/// The lines printed for a response.
pub open spec fn render_spec(r: Response) -> Seq<Seq<char>> {
    match r {
        Response::Ack { changed, worktree_key, color } => seq![
            "ack changed="@ + bool_text(changed) + " color="@ + color@ + " worktree="@ + or_none(
                opt_view(worktree_key),
            ),
        ],
        Response::Status { running, terminals, active_worktrees } => seq![
            "running="@ + bool_text(running) + " terminals="@ + decimal(terminals as nat)
                + " active_worktrees="@ + decimal(active_worktrees as nat),
        ],
        Response::Current { terminal_id, worktree_key, color } => seq![
            "terminal_id="@ + terminal_id@ + " worktree="@ + or_none(opt_view(worktree_key)) + " color="@
                + or_none(opt_view(color)),
        ],
        Response::Doctor { ok, checks } => seq!["doctor ok="@ + bool_text(ok)] + checks@.map_values(
            |c: DoctorCheck| check_line(c),
        ),
        Response::Error { message } => seq!["error: "@ + message@],
    }
}

fn push_bool(s: &mut String, b: bool)
    ensures
        final(s)@ == old(s)@ + bool_text(b),
{
    if b {
        s.append("true");
    } else {
        s.append("false");
    }
}

fn push_decimal(s: &mut String, n: usize)
    ensures
        final(s)@ == old(s)@ + decimal(n as nat),
    decreases n,
{
    if n >= 10 {
        push_decimal(s, n / 10);
    }
    let d = (n % 10) as u8;
    push_char(s, (48u8 + d) as char);
    assert(final(s)@ =~= old(s)@ + decimal(n as nat));
}

fn push_or_none(s: &mut String, o: &Option<String>)
    ensures
        final(s)@ == old(s)@ + or_none(opt_view(*o)),
{
    match o {
        Some(t) => s.append(t.as_str()),
        None => s.append("<none>"),
    }
}

/// The lines the command line prints for `response`.
pub fn render_response(response: &Response) -> (lines: Vec<String>)
    ensures
        string_views(lines@) == render_spec(*response),
{
    let mut lines: Vec<String> = Vec::new();
    match response {
        Response::Ack { changed, worktree_key, color } => {
            let mut l = String::from_str("ack changed=");
            push_bool(&mut l, *changed);
            l.append(" color=");
            l.append(color.as_str());
            l.append(" worktree=");
            push_or_none(&mut l, worktree_key);
            lines.push(l);
        },
        Response::Status { running, terminals, active_worktrees } => {
            let mut l = String::from_str("running=");
            push_bool(&mut l, *running);
            l.append(" terminals=");
            push_decimal(&mut l, *terminals);
            l.append(" active_worktrees=");
            push_decimal(&mut l, *active_worktrees);
            lines.push(l);
        },
        Response::Current { terminal_id, worktree_key, color } => {
            let mut l = String::from_str("terminal_id=");
            l.append(terminal_id.as_str());
            l.append(" worktree=");
            push_or_none(&mut l, worktree_key);
            l.append(" color=");
            push_or_none(&mut l, color);
            lines.push(l);
        },
        Response::Doctor { ok, checks } => {
            let mut l = String::from_str("doctor ok=");
            push_bool(&mut l, *ok);
            lines.push(l);
            for i in 0..checks.len()
                invariant
                    string_views(lines@) == seq!["doctor ok="@ + bool_text(*ok)] + checks@.subrange(0, i as int).map_values(
                        |c: DoctorCheck| check_line(c),
                    ),
            {
                let c = &checks[i];
                let mut cl = String::from_str("- ");
                cl.append(c.name.as_str());
                cl.append(": ");
                if c.ok {
                    cl.append("ok");
                } else {
                    cl.append("fail");
                }
                cl.append(" (");
                cl.append(c.details.as_str());
                cl.append(")");
                let ghost before = lines@;
                lines.push(cl);
                assert(string_views(lines@) =~= seq!["doctor ok="@ + bool_text(*ok)] + checks@.subrange(0, i + 1).map_values(
                    |c: DoctorCheck| check_line(c),
                )) by {
                    assert(string_views(lines@) =~= string_views(before).push(check_line(checks@[i as int])));
                }
            }
            assert(checks@.subrange(0, checks@.len() as int) == checks@);
        },
        Response::Error { message } => {
            let mut l = String::from_str("error: ");
            l.append(message.as_str());
            lines.push(l);
        },
    }
    assert(string_views(lines@) =~= render_spec(*response));
    lines
}

/// The first printed line of an `Ack` says `ack changed=true` when the
/// answer reports a change and `ack changed=false` when it does not.
pub proof fn law_ack_line_shows_changed(changed: bool, worktree_key: Option<String>, color: String)
    ensures
        ({
            let l = render_spec(Response::Ack { changed, worktree_key, color })[0];
            &&& changed ==> l.len() >= 16 && l.subrange(0, 16) == "ack changed=true"@
            &&& !changed ==> l.len() >= 17 && l.subrange(0, 17) == "ack changed=false"@
        }),
{
    reveal_strlit("ack changed=");
    reveal_strlit("true");
    reveal_strlit("false");
    reveal_strlit("ack changed=true");
    reveal_strlit("ack changed=false");
    let l = render_spec(Response::Ack { changed, worktree_key, color })[0];
    if changed {
        assert(l.subrange(0, 16) =~= "ack changed=true"@);
    } else {
        assert(l.subrange(0, 17) =~= "ack changed=false"@);
    }
}

/// The printed `Status` line starts `running=true` or `running=false` as the
/// daemon reports.
pub proof fn law_status_line_shows_running(running: bool, terminals: usize, active_worktrees: usize)
    ensures
        ({
            let l = render_spec(Response::Status { running, terminals, active_worktrees })[0];
            &&& running ==> l.len() >= 12 && l.subrange(0, 12) == "running=true"@
            &&& !running ==> l.len() >= 13 && l.subrange(0, 13) == "running=false"@
        }),
{
    reveal_strlit("running=");
    reveal_strlit("true");
    reveal_strlit("false");
    reveal_strlit("running=true");
    reveal_strlit("running=false");
    let l = render_spec(Response::Status { running, terminals, active_worktrees })[0];
    if running {
        assert(l.subrange(0, 12) =~= "running=true"@);
    } else {
        assert(l.subrange(0, 13) =~= "running=false"@);
    }
}

/// The first printed line of a `Doctor` answer is `doctor ok=true` or
/// `doctor ok=false`, and one more line follows for each check.
pub proof fn law_doctor_lines_show_verdict(ok: bool, checks: Vec<DoctorCheck>)
    ensures
        ({
            let ls = render_spec(Response::Doctor { ok, checks });
            &&& ls.len() == checks@.len() + 1
            &&& ok ==> ls[0] == "doctor ok=true"@
            &&& !ok ==> ls[0] == "doctor ok=false"@
        }),
{
    reveal_strlit("doctor ok=");
    reveal_strlit("true");
    reveal_strlit("false");
    reveal_strlit("doctor ok=true");
    reveal_strlit("doctor ok=false");
    let ls = render_spec(Response::Doctor { ok, checks });
    if ok {
        assert(ls[0] =~= "doctor ok=true"@);
    } else {
        assert(ls[0] =~= "doctor ok=false"@);
    }
}

} // verus!
