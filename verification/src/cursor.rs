//! What the Cursor integration writes into `.vscode/settings.json`.
use vstd::prelude::*;
use vstd::utf8::is_char_boundary;
use vstd::string::StringSliceAdditionalSpecFns;
use crate::color::{hex2, hex_digit_char, rgb_hex, rgb_hex_string};

verus! {

/// The value of an ASCII hexadecimal digit byte.
pub open spec fn hex_value(b: u8) -> int {
    if 48 <= b <= 57 {
        b - 48
    } else if 97 <= b <= 102 {
        b - 87
    } else {
        b - 55
    }
}

/// `b` is an ASCII hexadecimal digit.
pub open spec fn is_hex_byte(b: u8) -> bool {
    (48 <= b <= 57) || (97 <= b <= 102) || (65 <= b <= 70)
}

/// What `u8::from_str_radix(s, 16)` gives for a two-character ASCII text
/// `x y`: an optional `+` followed only by hexadecimal digits is read as a
/// number; anything else is an error.
pub open spec fn radix16_pair(x: u8, y: u8) -> Option<u8> {
    if is_hex_byte(x) && is_hex_byte(y) {
        Some((16 * hex_value(x) + hex_value(y)) as u8)
    } else if x == 43 && is_hex_byte(y) {
        Some(hex_value(y) as u8)
    } else {
        None
    }
}

/// The channel read from the two UTF-8 bytes `x y` of a colour, `0` when they
/// are not a number; two bytes that are not both ASCII hold one non-ASCII
/// character, which is never a number.
pub open spec fn channel_of(x: u8, y: u8) -> u8 {
    if x < 128 && y < 128 {
        match radix16_pair(x, y) {
            Some(v) => v,
            None => 0,
        }
    } else {
        0
    }
}

/// `color` is a seven-byte text starting with `#`.
pub open spec fn looks_like_hex(bytes: Seq<u8>) -> bool {
    bytes.len() == 7 && bytes[0] == 35
}

/// A `#rrggbb` colour at half brightness; any other text is kept as it is.
pub open spec fn dimmed_spec(color: &str) -> Seq<char> {
    let b = color.spec_bytes();
    if !looks_like_hex(b) {
        color@
    } else {
        rgb_hex(
            (channel_of(b[1], b[2]) / 2) as u8,
            (channel_of(b[3], b[4]) / 2) as u8,
            (channel_of(b[5], b[6]) / 2) as u8,
        )
    }
}

/// The colour text can be cut into its three channels at character
/// boundaries.
pub open spec fn channels_at_boundaries(color: &str) -> bool {
    looks_like_hex(color.spec_bytes()) ==> is_char_boundary(color.spec_bytes(), 3)
        && is_char_boundary(color.spec_bytes(), 5)
}

proof fn lemma_hex_digit_reads_back(n: int)
    requires
        0 <= n < 16,
    ensures
        is_hex_byte(hex_digit_char(n) as u8),
        hex_value(hex_digit_char(n) as u8) == n,
        (hex_digit_char(n) as u32) < 128,
{
}

proof fn lemma_hex2_reads_back(v: u8)
    ensures
        channel_of(hex2(v)[0] as u8, hex2(v)[1] as u8) == v,
{
    lemma_hex_digit_reads_back(v as int / 16);
    lemma_hex_digit_reads_back(v as int % 16);
}

/// Dimming a colour written as `#rrggbb` halves each of its three channels,
/// rounding down: the text read back from `rgb_hex(r, g, b)` gives the
/// channels `r`, `g` and `b` again, each then halved.
pub proof fn law_dimmed_halves_each_channel(color: &str, r: u8, g: u8, b: u8)
    requires
        color@ == rgb_hex(r, g, b),
    ensures
        dimmed_spec(color) == rgb_hex(r / 2, g / 2, b / 2),
{
    let c = color@;
    lemma_hex2_reads_back(r);
    lemma_hex2_reads_back(g);
    lemma_hex2_reads_back(b);
    lemma_hex_digit_reads_back(r as int / 16);
    lemma_hex_digit_reads_back(r as int % 16);
    lemma_hex_digit_reads_back(g as int / 16);
    lemma_hex_digit_reads_back(g as int % 16);
    lemma_hex_digit_reads_back(b as int / 16);
    lemma_hex_digit_reads_back(b as int % 16);
    assert(c.len() == 7);
    assert(c[1] == hex2(r)[0] && c[2] == hex2(r)[1]);
    assert(c[3] == hex2(g)[0] && c[4] == hex2(g)[1]);
    assert(c[5] == hex2(b)[0] && c[6] == hex2(b)[1]);
    assert(vstd::string::is_ascii(color)) by {
        assert forall|i: int| 0 <= i < c.len() implies '\0' <= #[trigger] c[i] <= '\u{7f}' by {
            if i == 0 {
                assert(c[0] == '#');
            }
        }
    }
    vstd::string::is_ascii_spec_bytes(color);
    let bs = color.spec_bytes();
    assert(bs.len() == 7);
    assert(bs[0] == c[0] as u8);
    assert(bs[1] == c[1] as u8 && bs[2] == c[2] as u8);
    assert(bs[3] == c[3] as u8 && bs[4] == c[4] as u8);
    assert(bs[5] == c[5] as u8 && bs[6] == c[6] as u8);
}

/// An ASCII byte with `A`..`Z` made lowercase.
pub open spec fn ascii_lower_byte(b: u8) -> u8 {
    if 65 <= b <= 90 {
        (b + 32) as u8
    } else {
        b
    }
}

/// Reading a channel does not depend on the case of its hexadecimal digits:
/// `#ABCDEF` and `#abcdef` give the same channels, so they dim alike.
pub proof fn law_channel_ignores_case(x: u8, y: u8)
    ensures
        channel_of(x, y) == channel_of(ascii_lower_byte(x), ascii_lower_byte(y)),
{
}

fn hex_value_exec(b: u8) -> (v: u8)
    requires
        is_hex_byte(b),
    ensures
        v == hex_value(b),
        v < 16,
{
    if b <= 57 {
        b - 48
    } else if b >= 97 {
        b - 87
    } else {
        b - 55
    }
}

fn is_hex_byte_exec(b: u8) -> (r: bool)
    ensures
        r == is_hex_byte(b),
{
    (48 <= b && b <= 57) || (97 <= b && b <= 102) || (65 <= b && b <= 70)
}

fn channel_exec(x: u8, y: u8) -> (v: u8)
    ensures
        v == channel_of(x, y),
{
    if x >= 128 || y >= 128 {
        0
    } else if is_hex_byte_exec(x) && is_hex_byte_exec(y) {
        16 * hex_value_exec(x) + hex_value_exec(y)
    } else if x == 43 && is_hex_byte_exec(y) {
        hex_value_exec(y)
    } else {
        0
    }
}

/// The colour at half brightness, for the inactive title bar.
pub fn dimmed(color: &str) -> (r: String)
    requires
        channels_at_boundaries(color),
    ensures
        r@ == dimmed_spec(color),
{
    let b = color.as_bytes();
    if b.len() != 7 || b[0] != 35 {
        return String::from_str(color);
    }
    let r = channel_exec(b[1], b[2]) / 2;
    let g = channel_exec(b[3], b[4]) / 2;
    let bl = channel_exec(b[5], b[6]) / 2;
    rgb_hex_string(r, g, bl)
}

/// The jq program that merges the managed keys for `color` into a settings
/// file and keeps every other key.
pub open spec fn jq_filter_spec(color: &str) -> Seq<char> {
    ". + {\"workbench.colorCustomizations\": (.\"workbench.colorCustomizations\" // {}) + {\"titleBar.activeBackground\": \""@
        + color@
        + "\", \"titleBar.inactiveBackground\": \""@
        + dimmed_spec(color)
        + "\", \"titleBar.activeForeground\": \"#ffffff\"}, \"terminal.integrated.cwd\": \"${workspaceFolder}\", \"terminal.integrated.splitCwd\": \"initial\", \""@
        + MARKER_KEY@
        + "\": \""@
        + color@
        + "\"}"@
}

/// The settings key that records the colour written by this tool.
pub const MARKER_KEY: &'static str = "worktreeSync.color";

/// What a settings file that does not exist yet starts as: an empty object.
pub const EMPTY_SETTINGS: &'static str = "{}\n";

/// The jq program that merges the managed keys for `color` into a settings
/// file: title bar colours (the inactive one dimmed), terminal defaults, and
/// the marker key; every other key is kept.
pub fn cursor_jq_filter(color: &str) -> (r: String)
    requires
        channels_at_boundaries(color),
    ensures
        r@ == jq_filter_spec(color),
{
    let dim = dimmed(color);
    let mut s = String::from_str(
        ". + {\"workbench.colorCustomizations\": (.\"workbench.colorCustomizations\" // {}) + {\"titleBar.activeBackground\": \"",
    );
    s.append(color);
    s.append("\", \"titleBar.inactiveBackground\": \"");
    s.append(dim.as_str());
    s.append(
        "\", \"titleBar.activeForeground\": \"#ffffff\"}, \"terminal.integrated.cwd\": \"${workspaceFolder}\", \"terminal.integrated.splitCwd\": \"initial\", \"",
    );
    s.append(MARKER_KEY);
    s.append("\": \"");
    s.append(color);
    s.append("\"}");
    s
}

} // verus!
