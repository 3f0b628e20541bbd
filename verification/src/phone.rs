//! Phone-number normalization: a coarse E.164-style check.
//!
//! A raw phone string is trimmed of leading and trailing Unicode
//! whitespace (the White_Space set, read as UTF-8 bytes), every interior
//! space character is removed, and the result is accepted only if it
//! starts with `+` and is at least eight bytes long.

use vstd::prelude::*;

verus! {

/// ASCII whitespace: U+0009..U+000D and U+0020.
pub open spec fn is_ascii_space(b: u8) -> bool {
    b == 32 || b == 9 || b == 10 || b == 13 || b == 11 || b == 12
}

/// The two-byte UTF-8 whitespace characters: U+0085 (next line) and
/// U+00A0 (no-break space).
pub open spec fn is_ws_pair(a: u8, b: u8) -> bool {
    a == 0xC2 && (b == 0x85 || b == 0xA0)
}

/// The three-byte UTF-8 whitespace characters: U+1680 (Ogham space mark),
/// U+2000..U+200A (typographic spaces), U+2028 (line separator), U+2029
/// (paragraph separator), U+202F (narrow no-break space), U+205F (medium
/// mathematical space) and U+3000 (ideographic space).
pub open spec fn is_ws_triple(a: u8, b: u8, c: u8) -> bool {
    ||| a == 0xE1 && b == 0x9A && c == 0x80
    ||| a == 0xE2 && b == 0x80 && (0x80 <= c <= 0x8A || c == 0xA8 || c == 0xA9 || c == 0xAF)
    ||| a == 0xE2 && b == 0x81 && c == 0x9F
    ||| a == 0xE3 && b == 0x80 && c == 0x80
}

/// Length in bytes of the whitespace character at the start of `s` (1, 2
/// or 3), or 0 when `s` does not begin with whitespace. On well-formed
/// UTF-8 the three patterns are disjoint, so this is the leading
/// character's encoding whenever that character has White_Space.
pub open spec fn ws_prefix_len(s: Seq<u8>) -> int {
    if s.len() >= 1 && is_ascii_space(s[0]) {
        1
    } else if s.len() >= 2 && is_ws_pair(s[0], s[1]) {
        2
    } else if s.len() >= 3 && is_ws_triple(s[0], s[1], s[2]) {
        3
    } else {
        0
    }
}

/// Length in bytes of the whitespace character at the end of `s`, or 0.
/// A multi-byte character's trailing bytes are UTF-8 continuations, never
/// ASCII whitespace or a lead byte, so on well-formed UTF-8 the checks
/// cannot mistake one pattern for another.
pub open spec fn ws_suffix_len(s: Seq<u8>) -> int {
    let n = s.len() as int;
    if n >= 1 && is_ascii_space(s[n - 1]) {
        1
    } else if n >= 2 && is_ws_pair(s[n - 2], s[n - 1]) {
        2
    } else if n >= 3 && is_ws_triple(s[n - 3], s[n - 2], s[n - 1]) {
        3
    } else {
        0
    }
}

/// The sequence with leading Unicode whitespace removed.
pub open spec fn trim_start_spec(s: Seq<u8>) -> Seq<u8>
    decreases s.len(),
{
    let k = ws_prefix_len(s);
    if k > 0 {
        trim_start_spec(s.skip(k))
    } else {
        s
    }
}

/// The sequence with trailing Unicode whitespace removed.
pub open spec fn trim_end_spec(s: Seq<u8>) -> Seq<u8>
    decreases s.len(),
{
    let k = ws_suffix_len(s);
    if k > 0 {
        trim_end_spec(s.take(s.len() - k))
    } else {
        s
    }
}

/// The sequence with every space character (0x20) removed, wherever it
/// stands. Interior whitespace other than the plain space is kept.
pub open spec fn strip_spaces(s: Seq<u8>) -> Seq<u8>
    decreases s.len(),
{
    if s.len() == 0 {
        Seq::empty()
    } else {
        let rest = strip_spaces(s.drop_last());
        if s.last() == 32 {
            rest
        } else {
            rest.push(s.last())
        }
    }
}

/// The normalized form of a raw phone string: trimmed of Unicode
/// whitespace at both ends, interior spaces removed, and accepted only
/// with a leading `+` and at least 8 bytes.
pub open spec fn normalize_spec(s: Seq<u8>) -> Option<Seq<u8>> {
    let t = strip_spaces(trim_end_spec(trim_start_spec(s)));
    if t.len() >= 8 && t[0] == 43 {
        Some(t)
    } else {
        None
    }
}

/// A sequence is a well-formed normalized phone number.
pub open spec fn is_normalized(p: Seq<u8>) -> bool {
    p.len() >= 8 && p[0] == 43
}

/// Executable check matching `is_ascii_space`.
fn is_ascii_space_exec(b: u8) -> (r: bool)
    ensures
        r == is_ascii_space(b),
{
    b == 32 || b == 9 || b == 10 || b == 13 || b == 11 || b == 12
}

/// The whitespace-character length at position `lo` of `s`, matching
/// `ws_prefix_len` on the tail that starts there.
fn ws_prefix_exec(s: &[u8], lo: usize) -> (k: usize)
    requires
        lo <= s@.len(),
    ensures
        k == ws_prefix_len(s@.skip(lo as int)),
        lo + k <= s@.len(),
{
    let n = s.len();
    if lo < n && is_ascii_space_exec(s[lo]) {
        return 1;
    }
    if n - lo >= 2 && s[lo] == 0xC2 && (s[lo + 1] == 0x85 || s[lo + 1] == 0xA0) {
        return 2;
    }
    if n - lo >= 3
        && ((s[lo] == 0xE1 && s[lo + 1] == 0x9A && s[lo + 2] == 0x80)
            || (s[lo] == 0xE2 && s[lo + 1] == 0x80
                && (0x80 <= s[lo + 2] && s[lo + 2] <= 0x8A || s[lo + 2] == 0xA8
                    || s[lo + 2] == 0xA9 || s[lo + 2] == 0xAF))
            || (s[lo] == 0xE2 && s[lo + 1] == 0x81 && s[lo + 2] == 0x9F)
            || (s[lo] == 0xE3 && s[lo + 1] == 0x80 && s[lo + 2] == 0x80)) {
        return 3;
    }
    0
}

/// The whitespace-character length at the end of `s[lo..hi]`, matching
/// `ws_suffix_len` on that range.
fn ws_suffix_exec(s: &[u8], lo: usize, hi: usize) -> (k: usize)
    requires
        lo <= hi <= s@.len(),
    ensures
        k == ws_suffix_len(s@.subrange(lo as int, hi as int)),
        k <= hi - lo,
{
    let m = hi - lo;
    if m >= 1 && is_ascii_space_exec(s[hi - 1]) {
        return 1;
    }
    if m >= 2 && s[hi - 2] == 0xC2 && (s[hi - 1] == 0x85 || s[hi - 1] == 0xA0) {
        return 2;
    }
    if m >= 3
        && ((s[hi - 3] == 0xE1 && s[hi - 2] == 0x9A && s[hi - 1] == 0x80)
            || (s[hi - 3] == 0xE2 && s[hi - 2] == 0x80
                && (0x80 <= s[hi - 1] && s[hi - 1] <= 0x8A || s[hi - 1] == 0xA8
                    || s[hi - 1] == 0xA9 || s[hi - 1] == 0xAF))
            || (s[hi - 3] == 0xE2 && s[hi - 2] == 0x81 && s[hi - 1] == 0x9F)
            || (s[hi - 3] == 0xE3 && s[hi - 2] == 0x80 && s[hi - 1] == 0x80)) {
        return 3;
    }
    0
}

/// Normalizes a raw phone string: trims Unicode whitespace at both ends,
/// removes interior spaces, and requires a leading `+` and length at
/// least 8.
#[verifier::loop_isolation(false)]
pub fn normalize_phone(phone: &[u8]) -> (r: Option<Vec<u8>>)
    ensures
        match r {
            Some(v) => normalize_spec(phone@) == Some(v@) && is_normalized(v@),
            None => normalize_spec(phone@) is None,
        },
{
    let len = phone.len();
    let mut lo: usize = 0;
    proof {
        assert(phone@.skip(0) =~= phone@);
    }
    let mut k: usize = ws_prefix_exec(phone, lo);
    while k != 0
        invariant
            lo + k <= len,
            k == ws_prefix_len(phone@.skip(lo as int)),
            trim_start_spec(phone@) == trim_start_spec(phone@.skip(lo as int)),
        decreases len - lo,
    {
        proof {
            assert(phone@.skip(lo as int).skip(k as int) =~= phone@.skip(lo + k));
        }
        lo = lo + k;
        k = ws_prefix_exec(phone, lo);
    }
    proof {
        assert(trim_start_spec(phone@) == phone@.skip(lo as int));
        assert(phone@.skip(lo as int) =~= phone@.subrange(lo as int, len as int));
    }
    let mut hi: usize = len;
    let mut j: usize = ws_suffix_exec(phone, lo, hi);
    while j != 0
        invariant
            lo <= hi <= len,
            j == ws_suffix_len(phone@.subrange(lo as int, hi as int)),
            j <= hi - lo,
            trim_end_spec(phone@.subrange(lo as int, len as int)) == trim_end_spec(
                phone@.subrange(lo as int, hi as int),
            ),
        decreases hi,
    {
        proof {
            let t = phone@.subrange(lo as int, hi as int);
            assert(t.take(t.len() - j) =~= phone@.subrange(lo as int, hi - j));
        }
        hi = hi - j;
        j = ws_suffix_exec(phone, lo, hi);
    }
    proof {
        assert(trim_end_spec(trim_start_spec(phone@)) == phone@.subrange(lo as int, hi as int));
    }
    let trimmed = vstd::slice::slice_subrange(phone, lo, hi);
    let mut out: Vec<u8> = Vec::new();
    let tlen = trimmed.len();
    let mut i: usize = 0;
    while i < tlen
        invariant
            0 <= i <= tlen,
            tlen == trimmed@.len(),
            out@ == strip_spaces(trimmed@.subrange(0, i as int)),
        decreases tlen - i,
    {
        proof {
            assert(trimmed@.subrange(0, i + 1).drop_last() =~= trimmed@.subrange(0, i as int));
            assert(trimmed@.subrange(0, i + 1).last() == trimmed@[i as int]);
        }
        if trimmed[i] != 32 {
            out.push(trimmed[i]);
        }
        i = i + 1;
    }
    proof {
        assert(trimmed@.subrange(0, tlen as int) =~= trimmed@);
    }
    if out.len() >= 8 && out[0] == 43 {
        Some(out)
    } else {
        None
    }
}

} // verus!
