//! Path operations the daemon relies on, and where a configured path points
//! once a leading `~` is taken as the home directory.
use vstd::prelude::*;
use std::path::Path;
use crate::state::opt_view;
use crate::text::{chars_of, has_prefix, slice_chars, string_of};

verus! {

/// What `Path::join` gives on Unix: an absolute `path` replaces the base;
/// otherwise `path` follows the base, with a `/` between them unless the base
/// is empty or already ends in `/`.
pub open spec fn path_join_spec(base: Seq<char>, path: Seq<char>) -> Seq<char> {
    if is_absolute_spec(path) {
        path
    } else if base.len() == 0 || base.last() == '/' {
        base + path
    } else {
        base + seq!['/'] + path
    }
}

/// Whether `Path::ends_with` holds: the last components of `path` are those of `child`.
pub uninterp spec fn path_ends_with_spec(path: Seq<char>, child: Seq<char>) -> bool;

/// What `Path::parent` gives: the path without its last component, if it has one.
pub uninterp spec fn path_parent_spec(path: Seq<char>) -> Option<Seq<char>>;

/// Whether two paths are equal as `Path` compares them (component by component).
pub uninterp spec fn paths_equal_spec(a: Seq<char>, b: Seq<char>) -> bool;

/// A path is absolute on Unix when it starts with `/`.
pub open spec fn is_absolute_spec(path: Seq<char>) -> bool {
    path.len() > 0 && path[0] == '/'
}

/// Whether `path` is absolute, as `Path::is_absolute` tells on Unix: it
/// starts with the root `/`.
pub(crate) fn path_is_absolute(path: &str) -> (b: bool)
    ensures
        b == is_absolute_spec(path@),
{
    let cs = chars_of(path);
    cs.len() > 0 && cs[0] == '/'
}

/// `base` joined with `path`, as `Path::join` does on Unix.
pub(crate) fn path_join(base: &str, path: &str) -> (r: String)
    ensures
        r@ == path_join_spec(base@, path@),
{
    if path_is_absolute(path) {
        return String::from_str(path);
    }
    let bs = chars_of(base);
    let mut r = String::from_str(base);
    if bs.len() > 0 && bs[bs.len() - 1] != '/' {
        r.append("/");
        proof {
            reveal_strlit("/");
        }
    }
    r.append(path);
    assert(r@ =~= path_join_spec(base@, path@));
    r
}

/// `Path::ends_with`, named by `path_ends_with_spec`.
#[verifier::external_body]
pub(crate) fn path_ends_with(path: &str, child: &str) -> (b: bool)
    ensures
        b == path_ends_with_spec(path@, child@),
{
    Path::new(path).ends_with(child)
}

/// `Path::parent`, named by `path_parent_spec`.
#[verifier::external_body]
pub(crate) fn path_parent(path: &str) -> (r: Option<String>)
    ensures
        opt_view(r) == path_parent_spec(path@),
{
    match Path::new(path).parent() {
        Some(p) => Some(p.to_string_lossy().into_owned()),
        None => None,
    }
}

/// `==` on `Path`, named by `paths_equal_spec`.
#[verifier::external_body]
pub(crate) fn paths_equal(a: &str, b: &str) -> (r: bool)
    ensures
        r == paths_equal_spec(a@, b@),
{
    Path::new(a) == Path::new(b)
}

/// A configured path, with a leading `~` told apart.
pub enum TildePath {
    /// `~` alone: the home directory.
    Home,
    /// `~/rest`: `rest` below the home directory.
    UnderHome(Seq<char>),
    /// Any other path, taken as written.
    Plain(Seq<char>),
}

/// `~/rest` is `rest` below home, `~` is home, anything else is itself.
pub open spec fn tilde_spec(input: Seq<char>) -> TildePath {
    if has_prefix(input, "~/"@) {
        TildePath::UnderHome(input.subrange(2, input.len() as int))
    } else if input == "~"@ {
        TildePath::Home
    } else {
        TildePath::Plain(input)
    }
}

/// Where `input` points when the home directory is `home`; `None` when it
/// needs the home directory and there is none.
pub open spec fn expand_tilde_spec(input: Seq<char>, home: Option<Seq<char>>) -> Option<Seq<char>> {
    match tilde_spec(input) {
        TildePath::UnderHome(rest) => match home {
            Some(h) => Some(path_join_spec(h, rest)),
            None => None,
        },
        TildePath::Home => home,
        TildePath::Plain(p) => Some(p),
    }
}

/// `r` is what `input` expands to for some home directory: a path taken as
/// written is kept, and only a path below home can fail.
pub open spec fn expanded_for_some_home(input: Seq<char>, r: Result<String, PathError>) -> bool {
    exists|home: Option<Seq<char>>| match r {
        Ok(p) => expand_tilde_spec(input, home) == Some(p@),
        Err(_) => expand_tilde_spec(input, home) is None,
    }
}

/// A path that cannot be expanded.
#[derive(Debug, Clone, PartialEq, Eq)]
pub enum PathError {
    /// The path starts with `~` and no home directory is known.
    HomeNotFound,
}

/// The text that explains a `PathError`.
pub open spec fn path_error_text(e: PathError) -> Seq<char> {
    match e {
        PathError::HomeNotFound => "home directory not found"@,
    }
}

impl PathError {
    /// The text that explains the error: `path_error_text`.
    pub fn message(&self) -> (m: String)
        ensures
            m@ == path_error_text(*self),
    {
        match self {
            PathError::HomeNotFound => String::from_str("home directory not found"),
        }
    }
}

/// `dirs::home_dir`: the current user's home directory, if one is found,
/// made into text (any bytes that are not UTF-8 replaced). It comes from the
/// environment and the user database, so nothing is stated of it.
#[verifier::external_body]
fn home_dir() -> (r: Option<String>) {
    match dirs::home_dir() {
        Some(p) => Some(p.to_string_lossy().into_owned()),
        None => None,
    }
}

/// Where `input` points when the home directory is `home` (`None` when no
/// home directory is known): `~/rest` is `rest` joined to home, `~` is home,
/// and any other path is kept as written.
pub fn expand_tilde_with(input: &str, home: Option<String>) -> (r: Result<String, PathError>)
    ensures
        match r {
            Ok(p) => expand_tilde_spec(input@, opt_view(home)) == Some(p@),
            Err(e) => expand_tilde_spec(input@, opt_view(home)) is None && e == PathError::HomeNotFound,
        },
{
    proof {
        reveal_strlit("~/");
        reveal_strlit("~");
    }
    let cs = chars_of(input);
    if cs.len() >= 2 && cs[0] == '~' && cs[1] == '/' {
        assert(cs@.subrange(0, 2) =~= "~/"@);
        let rest = string_of(&slice_chars(&cs, 2, cs.len()));
        return match home {
            Some(h) => Ok(path_join(h.as_str(), rest.as_str())),
            None => Err(PathError::HomeNotFound),
        };
    }
    assert(!has_prefix(input@, "~/"@)) by {
        if has_prefix(input@, "~/"@) {
            assert(input@.subrange(0, 2)[0] == '~');
            assert(input@.subrange(0, 2)[1] == '/');
        }
    }
    if cs.len() == 1 && cs[0] == '~' {
        assert(cs@ =~= "~"@);
        return match home {
            Some(h) => Ok(h),
            None => Err(PathError::HomeNotFound),
        };
    }
    assert(input@ != "~"@) by {
        if input@ == "~"@ {
            assert(input@[0] == '~');
        }
    }
    Ok(String::from_str(input))
}

/// Whether `input` needs the home directory: it is `~` or starts with `~/`.
fn needs_home(input: &str) -> (b: bool)
    ensures
        b == !(tilde_spec(input@) is Plain),
{
    proof {
        reveal_strlit("~/");
        reveal_strlit("~");
    }
    let cs = chars_of(input);
    if cs.len() >= 2 && cs[0] == '~' && cs[1] == '/' {
        assert(cs@.subrange(0, 2) =~= "~/"@);
        return true;
    }
    assert(!has_prefix(input@, "~/"@)) by {
        if has_prefix(input@, "~/"@) {
            assert(input@.subrange(0, 2)[0] == '~');
            assert(input@.subrange(0, 2)[1] == '/');
        }
    }
    if cs.len() == 1 && cs[0] == '~' {
        assert(cs@ =~= "~"@);
        return true;
    }
    assert(input@ != "~"@) by {
        if input@ == "~"@ {
            assert(input@[0] == '~');
        }
    }
    false
}

/// Where `input` points on this machine: `~/rest` below the current user's
/// home directory, `~` the home directory itself, any other path as written.
/// The home directory is looked up only for the first two; only they can
/// fail, when none is known.
pub fn expand_tilde(input: &str) -> (r: Result<String, PathError>)
    ensures
        expanded_for_some_home(input@, r),
        tilde_spec(input@) matches TildePath::Plain(p) ==> r matches Ok(s) && s@ == p,
{
    let home = if needs_home(input) {
        home_dir()
    } else {
        None
    };
    let ghost h = opt_view(home);
    let r = expand_tilde_with(input, home);
    assert(match r {
        Ok(p) => expand_tilde_spec(input@, h) == Some(p@),
        Err(_) => expand_tilde_spec(input@, h) is None,
    });
    r
}

} // verus!
