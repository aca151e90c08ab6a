//! What the Ghostty integration writes to a terminal, and its health check.
use vstd::prelude::*;
use crate::text::{chars_of, has_prefix, strip_prefix};

verus! {

/// Why a terminal cannot be updated on its own.
#[derive(Debug, Clone, PartialEq, Eq)]
pub enum GhosttyError {
    /// The terminal id is not a tty path such as `/dev/ttys001`.
    NotATtyPath,
}

impl GhosttyError {
    /// The text that explains the error.
    pub fn message(&self) -> (m: String)
        ensures
            m@ == "terminal_id must be a tty path like /dev/ttysXXX for tab-specific updates"@,
    {
        String::from_str("terminal_id must be a tty path like /dev/ttysXXX for tab-specific updates")
    }
}

/// The terminal id names a tty device.
pub open spec fn is_tty_path(terminal_id: Seq<char>) -> bool {
    has_prefix(terminal_id, "/dev/"@)
}

/// Whether `terminal_id` names a tty device (starts with `/dev/`).
pub fn is_tty_terminal_id(terminal_id: &str) -> (b: bool)
    ensures
        b == is_tty_path(terminal_id@),
{
    let id = chars_of(terminal_id);
    let prefix = chars_of("/dev/");
    strip_prefix(&id, &prefix).is_some()
}

/// OSC 11 sets the background to `color_hex`, OSC 10 the foreground to `fg`.
pub open spec fn background_payload_spec(color_hex: Seq<char>, fg: Seq<char>) -> Seq<char> {
    "\x1b]11;"@ + color_hex + "\x07\x1b]10;"@ + fg + "\x07"@
}

/// OSC 110, 111 and 112 reset foreground, background and cursor colours.
pub open spec fn reset_payload_spec() -> Seq<char> {
    "\x1b]110\x07\x1b]111\x07\x1b]112\x07"@
}

/// The bytes that give the terminal `terminal_id` the background `color_hex`
/// and the foreground `fg`; only a tty path can be written to.
pub fn tty_background_payload(terminal_id: &str, color_hex: &str, fg: &str) -> (r: Result<String, GhosttyError>)
    ensures
        match r {
            Ok(p) => is_tty_path(terminal_id@) && p@ == background_payload_spec(color_hex@, fg@),
            Err(e) => !is_tty_path(terminal_id@) && e == GhosttyError::NotATtyPath,
        },
{
    if !is_tty_terminal_id(terminal_id) {
        return Err(GhosttyError::NotATtyPath);
    }
    let mut p = String::from_str("\x1b]11;");
    p.append(color_hex);
    p.append("\x07\x1b]10;");
    p.append(fg);
    p.append("\x07");
    Ok(p)
}

/// The bytes that reset the colours of the terminal `terminal_id`; only a tty
/// path can be written to.
pub fn tty_reset_payload(terminal_id: &str) -> (r: Result<String, GhosttyError>)
    ensures
        match r {
            Ok(p) => is_tty_path(terminal_id@) && p@ == reset_payload_spec(),
            Err(e) => !is_tty_path(terminal_id@) && e == GhosttyError::NotATtyPath,
        },
{
    if !is_tty_terminal_id(terminal_id) {
        return Err(GhosttyError::NotATtyPath);
    }
    Ok(String::from_str("\x1b]110\x07\x1b]111\x07\x1b]112\x07"))
}

/// The verdict of the Ghostty health check for a terminal id, given whether
/// the path it names exists.
pub open spec fn doctor_check_spec(terminal_id: Option<Seq<char>>, path_exists: bool) -> (bool, Seq<char>) {
    match terminal_id {
        None => (false, "no terminal id provided; expected tty path from `tty`"@),
        Some(id) => if !is_tty_path(id) {
            (false, "terminal id `"@ + id + "` is not a tty path; configure shell hook to pass `$(tty)`"@)
        } else if !path_exists {
            (false, "tty path does not exist: "@ + id)
        } else {
            (true, "tty path looks valid: "@ + id)
        },
    }
}

/// Checks that the terminal id is a tty path that exists; `path_exists` tells
/// whether the path named by `terminal_id` exists.
pub fn doctor_check(terminal_id: Option<&str>, path_exists: bool) -> (r: (bool, String))
    ensures
        (r.0, r.1@) == doctor_check_spec(
            match terminal_id { Some(t) => Some(t@), None => None },
            path_exists,
        ),
{
    match terminal_id {
        None => (false, String::from_str("no terminal id provided; expected tty path from `tty`")),
        Some(id) => {
            if !is_tty_terminal_id(id) {
                let mut m = String::from_str("terminal id `");
                m.append(id);
                m.append("` is not a tty path; configure shell hook to pass `$(tty)`");
                (false, m)
            } else if !path_exists {
                let mut m = String::from_str("tty path does not exist: ");
                m.append(id);
                (false, m)
            } else {
                let mut m = String::from_str("tty path looks valid: ");
                m.append(id);
                (true, m)
            }
        },
    }
}

/// The Ghostty config snippet written when a terminal cannot be updated on
/// its own: a marker comment and the background colour.
pub open spec fn fallback_config_spec(color: Seq<char>) -> Seq<char> {
    "# managed by worktree-sync\nbackground = "@ + color + "\n"@
}

/// The global Ghostty fallback file that sets the background to `color`.
pub fn global_fallback_config(color: &str) -> (r: String)
    ensures
        r@ == fallback_config_spec(color@),
{
    let mut r = String::from_str("# managed by worktree-sync\nbackground = ");
    r.append(color);
    r.append("\n");
    r
}

/// The health check passes exactly for a terminal id that starts with
/// `/dev/` and names a path that exists: the same ids the payload functions
/// accept, and no check passes without a terminal id.
pub proof fn law_doctor_check_accepts_tty_paths(terminal_id: Option<Seq<char>>, path_exists: bool)
    ensures
        doctor_check_spec(terminal_id, path_exists).0 == (terminal_id matches Some(id) && id.len() >= 5
            && id.subrange(0, 5) == "/dev/"@ && path_exists),
        terminal_id matches Some(id) ==> (is_tty_path(id) == (id.len() >= 5 && id.subrange(0, 5) == "/dev/"@)),
{
    reveal_strlit("/dev/");
}

} // verus!
