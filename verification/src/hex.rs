//! Parsing and normalising `#rrggbb` colour strings.
use vstd::prelude::*;
use crate::text::{ascii_lower, ascii_lower_char, chars_of, is_ws, string_of, to_lowercase, trim, trim_chars, trim_end, trim_start};

verus! {

/// `c` is an ASCII hexadecimal digit (`0-9`, `a-f`, `A-F`).
pub open spec fn is_hex_digit(c: char) -> bool {
    let u = c as u32;
    (48 <= u && u <= 57) || (97 <= u && u <= 102) || (65 <= u && u <= 70)
}

/// `c` is a lowercase ASCII hexadecimal digit (`0-9`, `a-f`).
pub open spec fn is_lower_hex_digit(c: char) -> bool {
    let u = c as u32;
    (48 <= u && u <= 57) || (97 <= u && u <= 102)
}

/// `t` with a leading `#`, added when it is not there yet.
pub open spec fn with_hash(t: Seq<char>) -> Seq<char> {
    if t.len() > 0 && t[0] == '#' {
        t
    } else {
        seq!['#'] + t
    }
}

/// `w` is `#` followed by exactly six hexadecimal digits.
pub open spec fn is_hex_color(w: Seq<char>) -> bool {
    &&& w.len() == 7
    &&& w[0] == '#'
    &&& forall|i: int| 1 <= i < 7 ==> is_hex_digit(#[trigger] w[i])
}

/// `c` is `#` followed by exactly six lowercase hexadecimal digits.
pub open spec fn is_normalized_hex(c: Seq<char>) -> bool {
    &&& c.len() == 7
    &&& c[0] == '#'
    &&& forall|i: int| 1 <= i < 7 ==> is_lower_hex_digit(#[trigger] c[i])
}

/// The normal form of a user-written colour: trimmed, `#`-prefixed,
/// six hexadecimal digits, lowercased; `None` when it is not a colour.
pub open spec fn normalize_hex_spec(input: Seq<char>) -> Option<Seq<char>> {
    let w = with_hash(trim(input));
    if is_hex_color(w) {
        Some(ascii_lower(w))
    } else {
        None
    }
}

/// A string that is not a `#rrggbb` colour.
#[derive(Debug)]
pub struct InvalidHexColor {
    pub input: String,
}

/// Lowercasing a hexadecimal colour gives a normalised one.
pub proof fn lemma_lower_of_hex_color(w: Seq<char>)
    requires
        is_hex_color(w),
    ensures
        is_normalized_hex(ascii_lower(w)),
{
    let l = ascii_lower(w);
    assert forall|i: int| 1 <= i < 7 implies is_lower_hex_digit(#[trigger] l[i]) by {
        assert(l[i] == ascii_lower_char(w[i]));
        assert(is_hex_digit(w[i]));
    }
}

/// A normalised colour is its own normal form.
pub proof fn lemma_normalized_is_fixed_point(c: Seq<char>)
    requires
        is_normalized_hex(c),
    ensures
        ascii_lower(c) == c,
        is_hex_color(c),
{
    assert forall|i: int| 0 <= i < c.len() implies #[trigger] ascii_lower(c)[i] == c[i] by {
        if i > 0 {
            assert(is_lower_hex_digit(c[i]));
        }
    }
    assert(ascii_lower(c) =~= c);
    assert forall|i: int| 1 <= i < 7 implies is_hex_digit(#[trigger] c[i]) by {
        assert(is_lower_hex_digit(c[i]));
    }
}

/// What `normalize_hex_spec` gives is in normal form.
pub proof fn lemma_normalize_hex_spec_normalized(input: Seq<char>)
    ensures
        normalize_hex_spec(input) matches Some(c) ==> is_normalized_hex(c),
{
    let w = with_hash(trim(input));
    if is_hex_color(w) {
        lemma_lower_of_hex_color(w);
        assert(ascii_lower(w)[0] == ascii_lower_char(w[0]));
    }
}

/// A colour in normal form normalises to itself.
pub proof fn law_normal_form_is_stable(c: Seq<char>)
    requires
        is_normalized_hex(c),
    ensures
        normalize_hex_spec(c) == Some(c),
{
    lemma_normalized_is_fixed_point(c);
    assert(!is_ws(c[0]));
    assert(trim_start(c) == c);
    assert(is_lower_hex_digit(c[6]));
    assert(c.last() == c[6]);
    assert(!is_ws(c.last()));
    assert(trim_end(c) == c);
    assert(trim(c) == c);
    assert(with_hash(c) == c);
}

/// Normalising a colour twice gives what normalising it once gives.
pub proof fn law_normalize_hex_idempotent(input: Seq<char>)
    requires
        normalize_hex_spec(input) is Some,
    ensures
        normalize_hex_spec(normalize_hex_spec(input)->0) == normalize_hex_spec(input),
{
    lemma_normalize_hex_spec_normalized(input);
    law_normal_form_is_stable(normalize_hex_spec(input)->0);
}

fn is_hex_digit_exec(c: char) -> (b: bool)
    ensures
        b == is_hex_digit(c),
{
    ('0' <= c && c <= '9') || ('a' <= c && c <= 'f') || ('A' <= c && c <= 'F')
}

/// Normalises a colour written by a user: surrounding whitespace is removed, a
/// missing `#` is added, exactly six hexadecimal digits must follow, and the
/// result is lowercased.
pub fn normalize_hex(input: &str) -> (r: Result<String, InvalidHexColor>)
    ensures
        match r {
            Ok(s) => normalize_hex_spec(input@) == Some(s@),
            Err(e) => normalize_hex_spec(input@) is None && e.input@ == input@,
        },
        r matches Ok(s) ==> is_normalized_hex(s@),
{
    let cs = chars_of(input);
    let t = trim_chars(&cs);
    let mut w: Vec<char> = Vec::new();
    if !(t.len() > 0 && t[0] == '#') {
        w.push('#');
    }
    let mut i: usize = 0;
    let ghost w0 = w@;
    while i < t.len()
        invariant
            i <= t.len(),
            w@ == w0 + t@.subrange(0, i as int),
        decreases t.len() - i,
    {
        w.push(t[i]);
        i += 1;
        assert(w@ =~= w0 + t@.subrange(0, i as int));
    }
    assert(t@.subrange(0, t@.len() as int) == t@);
    assert(w@ == with_hash(t@)) by {
        if !(t@.len() > 0 && t@[0] == '#') {
            assert(w0 =~= seq!['#']);
        } else {
            assert(w0 =~= Seq::<char>::empty());
        }
    }
    if w.len() != 7 {
        return Err(InvalidHexColor { input: String::from_str(input) });
    }
    let mut k: usize = 1;
    while k < 7
        invariant
            w@.len() == 7,
            w@ == with_hash(t@),
            t@ == trim(input@),
            1 <= k <= 7,
            forall|j: int| 1 <= j < k ==> is_hex_digit(#[trigger] w@[j]),
        decreases 7 - k,
    {
        if !is_hex_digit_exec(w[k]) {
            assert(!is_hex_color(w@));
            return Err(InvalidHexColor { input: String::from_str(input) });
        }
        k += 1;
    }
    assert(w@[0] == '#');
    let ws = string_of(&w);
    proof {
        assert forall|j: int| 0 <= j < ws@.len() implies (ws@[j] as u32) < 128 by {
            if j > 0 {
                assert(is_hex_digit(w@[j]));
            }
        }
        lemma_lower_of_hex_color(w@);
    }
    Ok(to_lowercase(ws.as_str()))
}

} // verus!
