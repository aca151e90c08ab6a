//! Colours, the default palette and the seed-driven orders in which colours
//! are tried.
use vstd::prelude::*;
use vstd::utf8::encode_utf8;
use sha2::Digest;
use crate::hex::{is_lower_hex_digit, is_normalized_hex, lemma_normalized_is_fixed_point, with_hash};
use crate::text::{all_ascii, ascii_lower, ascii_lower_char, lowercase, to_lowercase};

verus! {

/// A colour, held as the text `#rrggbb` it was made from.
#[derive(Debug, Clone, PartialEq, Eq)]
pub struct Color {
    pub hex: String,
}

/// What `Color::new` holds for the text `s`: `s` with a leading `#` when it
/// had none, lowercased.
pub open spec fn color_new_spec(s: Seq<char>) -> Seq<char> {
    lowercase(with_hash(s))
}

/// The hexadecimal texts of a sequence of colours.
pub open spec fn hexes(v: Seq<Color>) -> Seq<Seq<char>> {
    v.map_values(|c: Color| c.hex@)
}

impl Color {
    /// Makes a colour from `hex`, adding a leading `#` when it is missing and
    /// lowercasing the whole text.
    pub fn new(hex: &str) -> (c: Color)
        ensures
            c.hex@ == color_new_spec(hex@),
            all_ascii(hex@) ==> c.hex@ == ascii_lower(with_hash(hex@)),
            c.hex@.len() > 0 && c.hex@[0] == '#',
    {
        if !hex.is_empty() && hex.get_char(0) == '#' {
            Color { hex: to_lowercase(hex) }
        } else {
            let mut h = String::from_str("#");
            h.append(hex);
            proof {
                reveal_strlit("#");
                assert(h@ =~= with_hash(hex@));
                if all_ascii(hex@) {
                    assert forall|i: int| 0 <= i < h@.len() implies (h@[i] as u32) < 128 by {
                        if i > 0 {
                            assert(h@[i] == hex@[i - 1]);
                        }
                    }
                }
            }
            Color { hex: to_lowercase(h.as_str()) }
        }
    }
}

/// The twenty-four colours tried first when no palette is configured.
pub open spec fn default_palette_hex() -> Seq<Seq<char>> {
    seq![
        "#102a43"@, "#0f3d2e"@, "#3e1f47"@, "#124559"@, "#2f3f60"@, "#3f4c2f"@,
        "#4a1f2d"@, "#0f4c5c"@, "#251f47"@, "#1d4d3a"@, "#4f1d4d"@, "#1f4f6b"@,
        "#415a2a"@, "#31405c"@, "#1f5e52"@, "#2d3f73"@, "#6b2f1f"@, "#0b5a4a"@,
        "#3f2f6b"@, "#5a3f0b"@, "#2b4c7e"@, "#1f6f5c"@, "#4b2e83"@, "#2e6f9e"@,
    ]
}

/// Making a colour from the text of a colour made from ASCII text gives the
/// same colour: the text starts with `#` and is lowercase already.
pub proof fn law_color_new_idempotent(s: Seq<char>)
    requires
        all_ascii(s),
    ensures
        color_new_spec(s).len() > 0 && color_new_spec(s)[0] == '#',
        color_new_spec(color_new_spec(s)) == color_new_spec(s),
{
    let w = with_hash(s);
    assert forall|i: int| 0 <= i < w.len() implies (w[i] as u32) < 128 by {
        if !(s.len() > 0 && s[0] == '#') {
            if i > 0 {
                assert(w[i] == s[i - 1]);
            }
        }
    }
    let l = ascii_lower(w);
    assert(l[0] == ascii_lower_char(w[0]));
    assert forall|i: int| 0 <= i < l.len() implies (l[i] as u32) < 128 && ascii_lower_char(l[i]) == l[i] by {
        assert(l[i] == ascii_lower_char(w[i]));
    }
    assert(with_hash(l) == l);
    assert(ascii_lower(l) =~= l);
}

/// A colour text already in normal form is kept as it is by `Color::new`.
pub proof fn law_color_of_normal_form(s: Seq<char>)
    requires
        is_normalized_hex(s),
    ensures
        color_new_spec(s) == s,
{
    lemma_normalized_is_fixed_point(s);
    assert(with_hash(s) == s);
    assert forall|i: int| 0 <= i < s.len() implies (s[i] as u32) < 128 by {
        if i > 0 {
            assert(is_lower_hex_digit(s[i]));
        }
    }
}

/// A colour whose text is already in normal form keeps it.
fn palette_color(lit: &str) -> (c: Color)
    requires
        is_normalized_hex(lit@),
    ensures
        c.hex@ == lit@,
{
    proof {
        lemma_normalized_is_fixed_point(lit@);
        assert forall|i: int| 0 <= i < lit@.len() implies (lit@[i] as u32) < 128 by {
            if i > 0 {
                assert(is_lower_hex_digit(lit@[i]));
            }
        }
    }
    Color::new(lit)
}


/// The default palette, in order: `default_palette_hex`.
pub fn default_palette() -> (v: Vec<Color>)
    ensures
        hexes(v@) == default_palette_hex(),
        forall|i: int| 0 <= i < v@.len() ==> is_normalized_hex(#[trigger] v@[i].hex@),
{
    let mut v: Vec<Color> = Vec::new();
    proof { reveal_strlit("#102a43"); }
    v.push(palette_color("#102a43"));
    proof { reveal_strlit("#0f3d2e"); }
    v.push(palette_color("#0f3d2e"));
    proof { reveal_strlit("#3e1f47"); }
    v.push(palette_color("#3e1f47"));
    proof { reveal_strlit("#124559"); }
    v.push(palette_color("#124559"));
    proof { reveal_strlit("#2f3f60"); }
    v.push(palette_color("#2f3f60"));
    proof { reveal_strlit("#3f4c2f"); }
    v.push(palette_color("#3f4c2f"));
    proof { reveal_strlit("#4a1f2d"); }
    v.push(palette_color("#4a1f2d"));
    proof { reveal_strlit("#0f4c5c"); }
    v.push(palette_color("#0f4c5c"));
    proof { reveal_strlit("#251f47"); }
    v.push(palette_color("#251f47"));
    proof { reveal_strlit("#1d4d3a"); }
    v.push(palette_color("#1d4d3a"));
    proof { reveal_strlit("#4f1d4d"); }
    v.push(palette_color("#4f1d4d"));
    proof { reveal_strlit("#1f4f6b"); }
    v.push(palette_color("#1f4f6b"));
    proof { reveal_strlit("#415a2a"); }
    v.push(palette_color("#415a2a"));
    proof { reveal_strlit("#31405c"); }
    v.push(palette_color("#31405c"));
    proof { reveal_strlit("#1f5e52"); }
    v.push(palette_color("#1f5e52"));
    proof { reveal_strlit("#2d3f73"); }
    v.push(palette_color("#2d3f73"));
    proof { reveal_strlit("#6b2f1f"); }
    v.push(palette_color("#6b2f1f"));
    proof { reveal_strlit("#0b5a4a"); }
    v.push(palette_color("#0b5a4a"));
    proof { reveal_strlit("#3f2f6b"); }
    v.push(palette_color("#3f2f6b"));
    proof { reveal_strlit("#5a3f0b"); }
    v.push(palette_color("#5a3f0b"));
    proof { reveal_strlit("#2b4c7e"); }
    v.push(palette_color("#2b4c7e"));
    proof { reveal_strlit("#1f6f5c"); }
    v.push(palette_color("#1f6f5c"));
    proof { reveal_strlit("#4b2e83"); }
    v.push(palette_color("#4b2e83"));
    proof { reveal_strlit("#2e6f9e"); }
    v.push(palette_color("#2e6f9e"));
    assert(hexes(v@) =~= default_palette_hex());
    v
}


/// What SHA-256 gives for these bytes.
pub uninterp spec fn sha256_spec(data: Seq<u8>) -> Seq<u8>;

/// `sha2::Sha256::digest`: the SHA-256 digest of `data`. The digest is named
/// by `sha256_spec`; its length, thirty-two bytes (the `U32` output size of
/// `Sha256`), is the one fact stated of it.
#[verifier::external_body]
fn sha256_digest(data: &[u8]) -> (d: Vec<u8>)
    ensures
        d@ == sha256_spec(data@),
        d@.len() == 32,
{
    sha2::Sha256::digest(data).to_vec()
}

/// The eight big-endian bytes of `x`.
pub open spec fn be_bytes_u64(x: u64) -> Seq<u8> {
    seq![
        ((x >> 56u64) & 0xffu64) as u8, ((x >> 48u64) & 0xffu64) as u8,
        ((x >> 40u64) & 0xffu64) as u8, ((x >> 32u64) & 0xffu64) as u8,
        ((x >> 24u64) & 0xffu64) as u8, ((x >> 16u64) & 0xffu64) as u8,
        ((x >> 8u64) & 0xffu64) as u8, (x & 0xffu64) as u8,
    ]
}

/// The four big-endian bytes of `x`.
pub open spec fn be_bytes_u32(x: u32) -> Seq<u8> {
    seq![
        ((x >> 24u32) & 0xffu32) as u8, ((x >> 16u32) & 0xffu32) as u8,
        ((x >> 8u32) & 0xffu32) as u8, (x & 0xffu32) as u8,
    ]
}

/// The `u64` whose big-endian bytes are the first eight of `d`.
pub open spec fn be_u64_of(d: Seq<u8>) -> u64 {
    ((d[0] as u64) << 56u64) | ((d[1] as u64) << 48u64) | ((d[2] as u64) << 40u64)
        | ((d[3] as u64) << 32u64) | ((d[4] as u64) << 24u64) | ((d[5] as u64) << 16u64)
        | ((d[6] as u64) << 8u64) | (d[7] as u64)
}

/// The bytes hashed for the `counter`-th draw from `seed`: the UTF-8 of the
/// seed, a `:`, and the counter in big-endian.
pub open spec fn draw_message(seed: Seq<char>, counter: u64) -> Seq<u8> {
    encode_utf8(seed) + seq![58u8] + be_bytes_u64(counter)
}

/// The `counter`-th pseudo-random draw from `seed`: the first eight bytes of
/// the SHA-256 of `draw_message`, read big-endian.
pub open spec fn hash_u64_spec(seed: Seq<char>, counter: u64) -> u64 {
    be_u64_of(sha256_spec(draw_message(seed, counter)))
}

fn push_be_u64(v: &mut Vec<u8>, x: u64)
    ensures
        final(v)@ == old(v)@ + be_bytes_u64(x),
{
    v.push(((x >> 56u64) & 0xffu64) as u8);
    v.push(((x >> 48u64) & 0xffu64) as u8);
    v.push(((x >> 40u64) & 0xffu64) as u8);
    v.push(((x >> 32u64) & 0xffu64) as u8);
    v.push(((x >> 24u64) & 0xffu64) as u8);
    v.push(((x >> 16u64) & 0xffu64) as u8);
    v.push(((x >> 8u64) & 0xffu64) as u8);
    v.push((x & 0xffu64) as u8);
    assert(final(v)@ =~= old(v)@ + be_bytes_u64(x));
}

fn push_slice(v: &mut Vec<u8>, b: &[u8])
    ensures
        final(v)@ == old(v)@ + b@,
{
    let ghost start = v@;
    for i in 0..b.len()
        invariant
            v@ == start + b@.subrange(0, i as int),
    {
        v.push(b[i]);
        assert(v@ =~= start + b@.subrange(0, i + 1));
    }
    assert(b@.subrange(0, b@.len() as int) == b@);
}

/// The `counter`-th pseudo-random draw from `seed`.
fn hash_u64(seed: &str, counter: u64) -> (h: u64)
    ensures
        h == hash_u64_spec(seed@, counter),
{
    let mut msg: Vec<u8> = Vec::new();
    push_slice(&mut msg, seed.as_bytes());
    msg.push(58u8);
    push_be_u64(&mut msg, counter);
    assert(msg@ =~= draw_message(seed@, counter));
    let d = sha256_digest(msg.as_slice());
    ((d[0] as u64) << 56u64) | ((d[1] as u64) << 48u64) | ((d[2] as u64) << 40u64)
        | ((d[3] as u64) << 32u64) | ((d[4] as u64) << 24u64) | ((d[5] as u64) << 16u64)
        | ((d[6] as u64) << 8u64) | (d[7] as u64)
}

/// `0, 1, .., n - 1`.
pub open spec fn identity_order(n: nat) -> Seq<usize> {
    Seq::new(n, |k: int| k as usize)
}

/// `v` with the entries at `i` and `j` exchanged.
pub open spec fn swap_at(v: Seq<usize>, i: int, j: int) -> Seq<usize> {
    v.update(i, v[j]).update(j, v[i])
}

/// The position that step `i` of the shuffle exchanges with position `i`.
pub open spec fn shuffle_pick(seed: Seq<char>, i: nat) -> int {
    ((hash_u64_spec(seed, i as u64) as usize) as int) % ((i + 1) as int)
}

/// The Fisher-Yates steps `i, i - 1, .., 1` applied to `v`.
pub open spec fn shuffle_down(seed: Seq<char>, v: Seq<usize>, i: nat) -> Seq<usize>
    decreases i,
{
    if i == 0 {
        v
    } else {
        shuffle_down(seed, swap_at(v, i as int, shuffle_pick(seed, i)), (i - 1) as nat)
    }
}

/// The order in which the indices `0..len` are tried for `seed`.
pub open spec fn index_order_spec(seed: Seq<char>, len: nat) -> Seq<usize> {
    if len <= 1 {
        identity_order(len)
    } else {
        shuffle_down(seed, identity_order(len), (len - 1) as nat)
    }
}

/// `v` holds each of `0..n` exactly once.
pub open spec fn is_permutation_of_range(v: Seq<usize>, n: nat) -> bool {
    &&& v.len() == n
    &&& forall|k: int| 0 <= k < n ==> #[trigger] v[k] < n
    &&& forall|a: int, b: int| 0 <= a < b < n ==> #[trigger] v[a] != #[trigger] v[b]
}

proof fn lemma_swap_permutation(v: Seq<usize>, n: nat, i: int, j: int)
    requires
        is_permutation_of_range(v, n),
        0 <= i < n,
        0 <= j < n,
    ensures
        is_permutation_of_range(swap_at(v, i, j), n),
{
    let w = swap_at(v, i, j);
    assert forall|x: int, y: int| 0 <= x < y < n implies #[trigger] w[x] != #[trigger] w[y] by {
        let px = if x == i { j } else if x == j { i } else { x };
        let py = if y == i { j } else if y == j { i } else { y };
        assert(w[x] == v[px]);
        assert(w[y] == v[py]);
        if px < py {
            assert(v[px] != v[py]);
        } else {
            assert(v[py] != v[px]);
        }
    }
}

proof fn lemma_shuffle_down_permutation(seed: Seq<char>, v: Seq<usize>, n: nat, i: nat)
    requires
        is_permutation_of_range(v, n),
        i < n,
    ensures
        is_permutation_of_range(shuffle_down(seed, v, i), n),
    decreases i,
{
    if i > 0 {
        let j = shuffle_pick(seed, i);
        assert(0 <= j < i + 1);
        lemma_swap_permutation(v, n, i as int, j);
        lemma_shuffle_down_permutation(seed, swap_at(v, i as int, j), n, (i - 1) as nat);
    }
}

/// The order of indices for any seed holds each index exactly once.
pub proof fn lemma_index_order_permutation(seed: Seq<char>, n: nat)
    requires
        n <= usize::MAX,
    ensures
        is_permutation_of_range(index_order_spec(seed, n), n),
{
    let id = identity_order(n);
    assert forall|a: int, b: int| 0 <= a < b < n implies #[trigger] id[a] != #[trigger] id[b] by {
        assert(id[a] == a as usize && id[b] == b as usize);
    }
    assert(is_permutation_of_range(id, n));
    if n > 1 {
        lemma_shuffle_down_permutation(seed, id, n, (n - 1) as nat);
    }
}

/// A seeded shuffle of `0..len` (Fisher-Yates, drawing from `hash_u64`).
pub fn deterministic_index_order(seed: &str, len: usize) -> (order: Vec<usize>)
    ensures
        order@ == index_order_spec(seed@, len as nat),
        is_permutation_of_range(order@, len as nat),
{
    let mut indices: Vec<usize> = Vec::new();
    let mut k: usize = 0;
    while k < len
        invariant
            k <= len,
            indices@ == identity_order(k as nat),
        decreases len - k,
    {
        indices.push(k);
        k += 1;
        assert(indices@ =~= identity_order(k as nat));
    }
    if len <= 1 {
        return indices;
    }
    let mut i: usize = len - 1;
    while i >= 1
        invariant
            i < len,
            shuffle_down(seed@, indices@, i as nat) == index_order_spec(seed@, len as nat),
            is_permutation_of_range(indices@, len as nat),
        decreases i,
    {
        let rand = hash_u64(seed, i as u64);
        let j = (rand as usize) % (i + 1);
        let a = indices[i];
        let b = indices[j];
        let ghost before = indices@;
        indices.set(i, b);
        indices.set(j, a);
        assert(indices@ == swap_at(before, i as int, j as int));
        assert(j == shuffle_pick(seed@, i as nat));
        assert forall|x: int, y: int| 0 <= x < y < len implies #[trigger] indices@[x] != #[trigger] indices@[y] by {
            let px = if x == i { j as int } else if x == j { i as int } else { x };
            let py = if y == i { j as int } else if y == j { i as int } else { y };
            assert(indices@[x] == before[px]);
            assert(indices@[y] == before[py]);
            if px < py {
                assert(before[px] != before[py]);
            } else {
                assert(before[py] != before[px]);
            }
        }
        i -= 1;
    }
    indices
}


/// The lowercase hexadecimal digit for `n` (`0 <= n < 16`).
pub open spec fn hex_digit_char(n: int) -> char {
    if n < 10 {
        (48 + n) as char
    } else {
        (87 + n) as char
    }
}

/// The two lowercase hexadecimal digits of `b`, as `{:02x}` writes them.
pub open spec fn hex2(b: u8) -> Seq<char> {
    seq![hex_digit_char(b as int / 16), hex_digit_char(b as int % 16)]
}

/// `#rrggbb` for three channel values.
pub open spec fn rgb_hex(r: u8, g: u8, b: u8) -> Seq<char> {
    seq!['#'] + hex2(r) + hex2(g) + hex2(b)
}

/// The bytes hashed for fallback colour number `attempt` of `seed`.
pub open spec fn fallback_message(seed: Seq<char>, attempt: u32) -> Seq<u8> {
    encode_utf8(seed) + encode_utf8("::fallback::"@) + be_bytes_u32(attempt)
}

/// A digest byte mapped into the channel range `32..192`.
pub open spec fn fallback_channel(d: u8) -> u8 {
    (32 + d % 160) as u8
}

/// Fallback colour number `attempt` of `seed`: its three channels come from
/// the first three bytes of the SHA-256 of `fallback_message`.
pub open spec fn fallback_hex_spec(seed: Seq<char>, attempt: u32) -> Seq<char> {
    let d = sha256_spec(fallback_message(seed, attempt));
    rgb_hex(fallback_channel(d[0]), fallback_channel(d[1]), fallback_channel(d[2]))
}

/// `#rrggbb` text for three channels is in normal form.
pub proof fn lemma_rgb_hex_normalized(r: u8, g: u8, b: u8)
    ensures
        is_normalized_hex(rgb_hex(r, g, b)),
{
    let s = rgb_hex(r, g, b);
    assert forall|i: int| 1 <= i < 7 implies is_lower_hex_digit(#[trigger] s[i]) by {
        assert(r as int / 16 < 16 && g as int / 16 < 16 && b as int / 16 < 16);
    }
}

/// Every fallback colour is in normal form.
pub proof fn lemma_fallback_normalized(seed: Seq<char>, attempt: u32)
    ensures
        is_normalized_hex(fallback_hex_spec(seed, attempt)),
{
    let d = sha256_spec(fallback_message(seed, attempt));
    lemma_rgb_hex_normalized(fallback_channel(d[0]), fallback_channel(d[1]), fallback_channel(d[2]));
}

fn hex_digit(n: u8) -> (c: char)
    requires
        n < 16,
    ensures
        c == hex_digit_char(n as int),
{
    if n < 10 {
        (48u8 + n) as char
    } else {
        (87u8 + n) as char
    }
}

/// Appends the two lowercase hexadecimal digits of `b` to `s`.
pub fn push_hex2(s: &mut String, b: u8)
    ensures
        final(s)@ == old(s)@ + hex2(b),
{
    crate::text::push_char(s, hex_digit(b / 16));
    crate::text::push_char(s, hex_digit(b % 16));
    assert(final(s)@ =~= old(s)@ + hex2(b));
}

/// `#rrggbb` for three channel values.
pub fn rgb_hex_string(r: u8, g: u8, b: u8) -> (s: String)
    ensures
        s@ == rgb_hex(r, g, b),
        is_normalized_hex(s@),
{
    let mut s = String::from_str("#");
    proof { reveal_strlit("#"); }
    push_hex2(&mut s, r);
    push_hex2(&mut s, g);
    push_hex2(&mut s, b);
    assert(s@ =~= rgb_hex(r, g, b));
    proof {
        assert forall|i: int| 1 <= i < 7 implies is_lower_hex_digit(#[trigger] s@[i]) by {
            assert(r as int / 16 < 16 && g as int / 16 < 16 && b as int / 16 < 16);
        }
    }
    s
}

/// A colour derived from `seed` for when the palette has no free colour left;
/// each channel lies in `32..192`.
pub fn deterministic_fallback_color(seed: &str, attempt: u32) -> (c: Color)
    ensures
        c.hex@ == fallback_hex_spec(seed@, attempt),
        is_normalized_hex(c.hex@),
{
    let mut msg: Vec<u8> = Vec::new();
    push_slice(&mut msg, seed.as_bytes());
    push_slice(&mut msg, "::fallback::".as_bytes());
    msg.push(((attempt >> 24u32) & 0xffu32) as u8);
    msg.push(((attempt >> 16u32) & 0xffu32) as u8);
    msg.push(((attempt >> 8u32) & 0xffu32) as u8);
    msg.push((attempt & 0xffu32) as u8);
    assert(msg@ =~= fallback_message(seed@, attempt));
    let d = sha256_digest(msg.as_slice());
    let r: u8 = 32 + d[0] % 160;
    let g: u8 = 32 + d[1] % 160;
    let b: u8 = 32 + d[2] % 160;
    let text = rgb_hex_string(r, g, b);
    palette_color(text.as_str())
}

} // verus!
