//! The daemon's configuration, its defaults and its normal form.
use vstd::prelude::*;
use crate::hex::{is_normalized_hex, normalize_hex, normalize_hex_spec};
use crate::paths::{expand_tilde, expanded_for_some_home, tilde_spec, PathError, TildePath};
use crate::text::string_views;

verus! {

/// Settings of the daemon process.
#[derive(Debug, Clone)]
pub struct DaemonConfig {
    pub socket_path: String,
    pub state_path: String,
    pub git_timeout_ms: u64,
    pub integration_timeout_ms: u64,
    pub neutral_color: String,
}

/// Settings of the Ghostty integration.
#[derive(Debug, Clone)]
pub struct GhosttyConfig {
    pub enabled: bool,
    pub overrides_dir: String,
    pub global_fallback_path: String,
}

/// Settings of the Cursor integration.
#[derive(Debug, Clone)]
pub struct CursorConfig {
    pub enabled: bool,
}

/// Settings of the integrations.
#[derive(Debug, Clone)]
pub struct IntegrationsConfig {
    pub ghostty: GhosttyConfig,
    pub cursor: CursorConfig,
}

/// Settings of colour choice.
#[derive(Debug, Clone)]
pub struct ColorsConfig {
    pub palette: Option<Vec<String>>,
    pub strict_palette: bool,
}

/// The whole configuration.
#[derive(Debug, Clone)]
pub struct Config {
    pub daemon: DaemonConfig,
    pub integrations: IntegrationsConfig,
    pub colors: ColorsConfig,
}

/// A configuration value that is not valid.
#[derive(Debug)]
pub enum ConfigError {
    /// A colour that is not a `#rrggbb` colour.
    InvalidHex(String),
}

/// The position of the first text that is not a colour, or the length when
/// all are colours.
pub open spec fn first_invalid_hex(v: Seq<Seq<char>>) -> nat
    decreases v.len(),
{
    if v.len() == 0 {
        0
    } else if normalize_hex_spec(v[0]) is None {
        0
    } else {
        1 + first_invalid_hex(v.drop_first())
    }
}

/// `v` with its first `k` texts replaced by their normal form.
pub open spec fn normalize_prefix(v: Seq<Seq<char>>, k: int) -> Seq<Seq<char>> {
    Seq::new(v.len(), |i: int| if i < k { normalize_hex_spec(v[i])->0 } else { v[i] })
}

proof fn lemma_first_invalid_hex(v: Seq<Seq<char>>)
    ensures
        first_invalid_hex(v) <= v.len(),
        forall|i: int| 0 <= i < first_invalid_hex(v) ==> normalize_hex_spec(#[trigger] v[i]) is Some,
        first_invalid_hex(v) < v.len() ==> normalize_hex_spec(v[first_invalid_hex(v) as int]) is None,
    decreases v.len(),
{
    if v.len() > 0 && normalize_hex_spec(v[0]) is Some {
        let t = v.drop_first();
        lemma_first_invalid_hex(t);
        assert forall|i: int| 0 <= i < first_invalid_hex(v) implies normalize_hex_spec(#[trigger] v[i]) is Some by {
            if i > 0 {
                assert(v[i] == t[i - 1]);
            }
        }
        if first_invalid_hex(v) < v.len() {
            assert(v[first_invalid_hex(v) as int] == t[first_invalid_hex(t) as int]);
        }
    }
}

proof fn lemma_first_invalid_hex_is(v: Seq<Seq<char>>, k: int)
    requires
        0 <= k <= v.len(),
        forall|i: int| 0 <= i < k ==> normalize_hex_spec(#[trigger] v[i]) is Some,
        k < v.len() ==> normalize_hex_spec(v[k]) is None,
    ensures
        first_invalid_hex(v) == k,
    decreases v.len(),
{
    if v.len() > 0 && k > 0 {
        let t = v.drop_first();
        assert(normalize_hex_spec(v[0]) is Some);
        assert forall|i: int| 0 <= i < k - 1 implies normalize_hex_spec(#[trigger] t[i]) is Some by {
            assert(t[i] == v[i + 1]);
        }
        if k - 1 < t.len() {
            assert(t[k - 1] == v[k]);
        }
        lemma_first_invalid_hex_is(t, k - 1);
    }
}

impl Config {
    /// The other settings are those of `old`.
    pub open spec fn same_except_colors(self, old: Config) -> bool {
        &&& self.daemon.socket_path == old.daemon.socket_path
        &&& self.daemon.state_path == old.daemon.state_path
        &&& self.daemon.git_timeout_ms == old.daemon.git_timeout_ms
        &&& self.daemon.integration_timeout_ms == old.daemon.integration_timeout_ms
        &&& self.integrations == old.integrations
        &&& self.colors.strict_palette == old.colors.strict_palette
    }

    /// Brings the neutral colour and every palette colour to normal form. A
    /// colour that is not a colour stops the work there with an error: the
    /// colours before it are already normalised, it and those after are
    /// unchanged.
    pub fn normalize(&mut self) -> (r: Result<(), ConfigError>)
        ensures
            final(self).same_except_colors(*old(self)),
            ({
                let n = normalize_hex_spec(old(self).daemon.neutral_color@);
                match n {
                    None => {
                        &&& r matches Err(ConfigError::InvalidHex(s)) && s@ == old(self).daemon.neutral_color@
                        &&& final(self).daemon.neutral_color@ == old(self).daemon.neutral_color@
                        &&& final(self).colors.palette == old(self).colors.palette
                    },
                    Some(nc) => {
                        &&& final(self).daemon.neutral_color@ == nc
                        &&& match old(self).colors.palette {
                            None => r is Ok && final(self).colors.palette is None,
                            Some(v) => {
                                let vs = string_views(v@);
                                let k = first_invalid_hex(vs);
                                &&& final(self).colors.palette matches Some(w) && string_views(w@)
                                    == normalize_prefix(vs, k as int)
                                &&& if k == vs.len() {
                                    r is Ok
                                } else {
                                    r matches Err(ConfigError::InvalidHex(s)) && s@ == vs[k as int]
                                }
                            },
                        }
                    },
                }
            }),
    {
        match normalize_hex(self.daemon.neutral_color.as_str()) {
            Ok(n) => {
                self.daemon.neutral_color = n;
            },
            Err(e) => {
                return Err(ConfigError::InvalidHex(e.input));
            },
        }
        let mut taken: Option<Vec<String>> = None;
        std::mem::swap(&mut taken, &mut self.colors.palette);
        match taken {
            None => Ok(()),
            Some(v) => {
                let mut v = v;
                let ghost vs = string_views(v@);
                assert(old(self).colors.palette matches Some(ov) && string_views(ov@) == vs);
                proof {
                    lemma_first_invalid_hex(vs);
                }
                let mut i: usize = 0;
                let ghost nc = self.daemon.neutral_color@;
                while i < v.len()
                    invariant
                        self.same_except_colors(*old(self)),
                        self.daemon.neutral_color@ == nc,
                        normalize_hex_spec(old(self).daemon.neutral_color@) == Some(nc),
                        old(self).colors.palette matches Some(ov) && string_views(ov@) == vs,
                        i <= v@.len() == vs.len(),
                        forall|j: int| 0 <= j < i ==> normalize_hex_spec(#[trigger] vs[j]) is Some,
                        string_views(v@) == normalize_prefix(vs, i as int),
                    decreases v.len() - i,
                {
                    assert(v@[i as int]@ == string_views(v@)[i as int]);
                    assert(v@[i as int]@ == vs[i as int]);
                    match normalize_hex(v[i].as_str()) {
                        Ok(n) => {
                            let ghost nv = n@;
                            let ghost before = v@;
                            v.set(i, n);
                            assert forall|j: int| 0 <= j < v@.len() implies #[trigger] string_views(v@)[j] == normalize_prefix(vs, i + 1)[j] by {
                                if j != i {
                                    assert(v@[j] == before[j]);
                                    assert(string_views(before)[j] == before[j]@);
                                }
                            }
                            assert(string_views(v@) =~= normalize_prefix(vs, i + 1));
                        },
                        Err(e) => {
                            proof {
                                lemma_first_invalid_hex_is(vs, i as int);
                            }
                            self.colors.palette = Some(v);
                            return Err(ConfigError::InvalidHex(e.input));
                        },
                    }
                    i += 1;
                }
                proof {
                    lemma_first_invalid_hex_is(vs, i as int);
                }
                self.colors.palette = Some(v);
                Ok(())
            },
        }
    }

    /// The configured palette, empty when none is configured.
    pub fn palette(&self) -> (p: Vec<String>)
        ensures
            string_views(p@) == match self.colors.palette {
                Some(v) => string_views(v@),
                None => Seq::<Seq<char>>::empty(),
            },
    {
        let mut out: Vec<String> = Vec::new();
        match &self.colors.palette {
            Some(v) => {
                for i in 0..v.len()
                    invariant
                        out@.len() == i,
                        string_views(out@) == string_views(v@).subrange(0, i as int),
                {
                    let c = v[i].clone();
                    let ghost before = out@;
                    out.push(c);
                    assert forall|j: int| 0 <= j < i + 1 implies #[trigger] string_views(out@)[j] == string_views(v@)[j] by {
                        if j < i {
                            assert(out@[j] == before[j]);
                            assert(string_views(before)[j] == before[j]@);
                        }
                    }
                    assert(string_views(out@) =~= string_views(v@).subrange(0, i + 1));
                }
                assert(string_views(v@).subrange(0, v@.len() as int) =~= string_views(v@));
            },
            None => {
                assert(string_views(out@) =~= Seq::<Seq<char>>::empty());
            },
        }
        out
    }

    /// Where the daemon's socket is, with a leading `~` taken as the home directory.
    pub fn socket_path(&self) -> (r: Result<String, PathError>)
        ensures
            expanded_for_some_home(self.daemon.socket_path@, r),
            tilde_spec(self.daemon.socket_path@) matches TildePath::Plain(p) ==> r matches Ok(s) && s@ == p,
    {
        expand_tilde(self.daemon.socket_path.as_str())
    }

    /// Where the daemon's state file is, with a leading `~` taken as the home directory.
    pub fn state_path(&self) -> (r: Result<String, PathError>)
        ensures
            expanded_for_some_home(self.daemon.state_path@, r),
            tilde_spec(self.daemon.state_path@) matches TildePath::Plain(p) ==> r matches Ok(s) && s@ == p,
    {
        expand_tilde(self.daemon.state_path.as_str())
    }

    /// Where Ghostty per-worktree overrides go, with a leading `~` taken as the home directory.
    pub fn ghostty_overrides_dir(&self) -> (r: Result<String, PathError>)
        ensures
            expanded_for_some_home(self.integrations.ghostty.overrides_dir@, r),
            tilde_spec(self.integrations.ghostty.overrides_dir@) matches TildePath::Plain(p) ==> r matches Ok(s) && s@ == p,
    {
        expand_tilde(self.integrations.ghostty.overrides_dir.as_str())
    }

    /// Where the global Ghostty fallback file goes, with a leading `~` taken as the home directory.
    pub fn ghostty_global_fallback_path(&self) -> (r: Result<String, PathError>)
        ensures
            expanded_for_some_home(self.integrations.ghostty.global_fallback_path@, r),
            tilde_spec(self.integrations.ghostty.global_fallback_path@) matches TildePath::Plain(p) ==> r matches Ok(s) && s@ == p,
    {
        expand_tilde(self.integrations.ghostty.global_fallback_path.as_str())
    }
}

impl Default for Config {
    /// The configuration used when no file is given.
    fn default() -> (c: Config)
        ensures
            c.daemon.socket_path@ == "~/.local/run/worktree-sync.sock"@,
            c.daemon.state_path@ == "~/.local/state/worktree-sync/state.json"@,
            c.daemon.git_timeout_ms == 500,
            c.daemon.integration_timeout_ms == 500,
            c.daemon.neutral_color@ == "#1f1f1f"@,
            is_normalized_hex(c.daemon.neutral_color@),
            c.integrations.ghostty.enabled,
            c.integrations.ghostty.overrides_dir@ == "~/.config/ghostty/worktree-sync.d"@,
            c.integrations.ghostty.global_fallback_path@ == "~/.config/ghostty/worktree-sync-global.conf"@,
            c.integrations.cursor.enabled,
            c.colors.palette is None,
            !c.colors.strict_palette,
    {
        proof {
            reveal_strlit("#1f1f1f");
        }
        Config {
            daemon: DaemonConfig {
                socket_path: String::from_str("~/.local/run/worktree-sync.sock"),
                state_path: String::from_str("~/.local/state/worktree-sync/state.json"),
                git_timeout_ms: 500,
                integration_timeout_ms: 500,
                neutral_color: String::from_str("#1f1f1f"),
            },
            integrations: IntegrationsConfig {
                ghostty: GhosttyConfig {
                    enabled: true,
                    overrides_dir: String::from_str("~/.config/ghostty/worktree-sync.d"),
                    global_fallback_path: String::from_str("~/.config/ghostty/worktree-sync-global.conf"),
                },
                cursor: CursorConfig { enabled: true },
            },
            colors: ColorsConfig { palette: None, strict_palette: false },
        }
    }
}

} // verus!
