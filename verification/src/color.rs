//! Hex colour notation: `#RGB`, `#RRGGBB` and `#RRGGBBAA`.

use vstd::prelude::*;
use vstd::slice::*;
use vstd::string::*;
use vstd::utf8::encode_utf8;

verus! {

/// A straight (not premultiplied) colour with eight bits per channel.
#[derive(Clone, Copy, Debug, PartialEq, Eq, Structural)]
pub struct Rgba8 {
    pub r: u8,
    pub g: u8,
    pub b: u8,
    pub a: u8,
}

/// Opaque white, the colour of every string that has no valid length.
pub open spec fn opaque_white() -> Rgba8 {
    Rgba8 { r: 255, g: 255, b: 255, a: 255 }
}

/// The value of one hexadecimal digit, in either case.
pub open spec fn hex_digit(b: u8) -> Option<u8> {
    if 0x30 <= b <= 0x39 {
        Some((b - 0x30) as u8)
    } else if 0x61 <= b <= 0x66 {
        Some((b - 0x61 + 10) as u8)
    } else if 0x41 <= b <= 0x46 {
        Some((b - 0x41 + 10) as u8)
    } else {
        None
    }
}

/// The number that a group of one or two bytes denotes in base 16.
///
/// A group of two may spend its first byte on a plus sign.
/// Anything else than digits makes the group invalid.
pub open spec fn hex_group(s: Seq<u8>) -> Option<u8> {
    if s.len() == 1 {
        hex_digit(s[0])
    } else if s.len() == 2 {
        if s[0] == 0x2b {
            hex_digit(s[1])
        } else {
            match (hex_digit(s[0]), hex_digit(s[1])) {
                (Some(hi), Some(lo)) => Some((16 * hi + lo) as u8),
                _ => None,
            }
        }
    } else {
        None
    }
}

/// A group's value, or `fallback` where the group is invalid.
pub open spec fn hex_group_or(s: Seq<u8>, fallback: u8) -> u8 {
    match hex_group(s) {
        Some(v) => v,
        None => fallback,
    }
}

/// The number of `#` bytes that `s` starts with.
pub open spec fn leading_hashes(s: Seq<u8>) -> nat
    decreases s.len(),
{
    if s.len() > 0 && s[0] == 0x23 {
        1 + leading_hashes(s.drop_first())
    } else {
        0
    }
}

/// The colour that the bytes of a hex string denote.
///
/// Leading `#` bytes are skipped. Three bytes are one digit per channel, each
/// scaled by 17; six are two digits per channel; eight add an alpha channel.
/// An invalid colour group reads as 0, an invalid alpha group as 255, and any
/// other length is opaque white.
pub open spec fn color_of_hex(s: Seq<u8>) -> Rgba8 {
    let h = s.skip(leading_hashes(s) as int);
    if h.len() == 3 {
        Rgba8 {
            r: (hex_group_or(h.subrange(0, 1), 0) * 17) as u8,
            g: (hex_group_or(h.subrange(1, 2), 0) * 17) as u8,
            b: (hex_group_or(h.subrange(2, 3), 0) * 17) as u8,
            a: 255,
        }
    } else if h.len() == 6 {
        Rgba8 {
            r: hex_group_or(h.subrange(0, 2), 0),
            g: hex_group_or(h.subrange(2, 4), 0),
            b: hex_group_or(h.subrange(4, 6), 0),
            a: 255,
        }
    } else if h.len() == 8 {
        Rgba8 {
            r: hex_group_or(h.subrange(0, 2), 0),
            g: hex_group_or(h.subrange(2, 4), 0),
            b: hex_group_or(h.subrange(4, 6), 0),
            a: hex_group_or(h.subrange(6, 8), 255),
        }
    } else {
        opaque_white()
    }
}

/// The colour that a hex string denotes: that of its UTF-8 bytes.
pub open spec fn color_of_str(s: Seq<char>) -> Rgba8 {
    color_of_hex(encode_utf8(s))
}

/// `leading_hashes` counts exactly the run of `#` at the front.
proof fn lemma_leading_hashes(s: Seq<u8>, n: int)
    requires
        0 <= n <= s.len(),
        forall|k: int| 0 <= k < n ==> s[k] == 0x23,
        n < s.len() ==> s[n] != 0x23,
    ensures
        leading_hashes(s) == n,
    decreases n,
{
    if n > 0 {
        let t = s.drop_first();
        assert(forall|k: int| 0 <= k < n - 1 ==> t[k] == s[k + 1]);
        lemma_leading_hashes(t, n - 1);
    }
}

fn digit_value(b: u8) -> (r: Option<u8>)
    ensures
        r == hex_digit(b),
        r matches Some(v) ==> v < 16,
{
    if 0x30 <= b && b <= 0x39 {
        Some(b - 0x30)
    } else if 0x61 <= b && b <= 0x66 {
        Some(b - 0x61 + 10)
    } else if 0x41 <= b && b <= 0x46 {
        Some(b - 0x41 + 10)
    } else {
        None
    }
}

fn group_value(bytes: &[u8], from: usize, len: usize, fallback: u8) -> (r: u8)
    requires
        len == 1 || len == 2,
        from + len <= bytes.len(),
    ensures
        r == hex_group_or(bytes@.subrange(from as int, from + len), fallback),
        len == 1 ==> (r < 16 || r == fallback),
{
    let ghost s = bytes@.subrange(from as int, from + len);
    assert(s[0] == bytes@[from as int]);
    if len == 1 {
        match digit_value(bytes[from]) {
            Some(v) => v,
            None => fallback,
        }
    } else {
        assert(s[1] == bytes@[from + 1]);
        let lo = digit_value(bytes[from + 1]);
        if bytes[from] == 0x2b {
            match lo {
                Some(v) => v,
                None => fallback,
            }
        } else {
            match (digit_value(bytes[from]), lo) {
                (Some(h), Some(l)) => 16 * h + l,
                _ => fallback,
            }
        }
    }
}

/// Reads a colour in hex notation. Never fails: see [`color_of_hex`].
pub fn parse_color(hex: &str) -> (c: Rgba8)
    ensures
        c == color_of_hex(hex.spec_bytes()),
        c == color_of_str(hex@),
{
    let bytes = hex.as_bytes();
    let mut start: usize = 0;
    while start < bytes.len() && bytes[start] == 0x23
        invariant
            start <= bytes.len(),
            forall|k: int| 0 <= k < start ==> bytes@[k] == 0x23,
        decreases bytes.len() - start,
    {
        start += 1;
    }
    proof {
        lemma_leading_hashes(bytes@, start as int);
    }
    let ghost h = bytes@.skip(start as int);
    let n: usize = bytes.len() - start;
    assert(h.len() == n);
    assert forall|i: int, j: int| 0 <= i <= j <= n implies #[trigger] h.subrange(i, j)
        == bytes@.subrange(start + i, start + j) by {
        assert(h.subrange(i, j) =~= bytes@.subrange(start + i, start + j));
    }
    if n == 3 {
        let r = group_value(bytes, start, 1, 0);
        let g = group_value(bytes, start + 1, 1, 0);
        let b = group_value(bytes, start + 2, 1, 0);
        assert(h.subrange(0, 1) == bytes@.subrange(start + 0, start + 1));
        assert(h.subrange(1, 2) == bytes@.subrange(start + 1, start + 2));
        assert(h.subrange(2, 3) == bytes@.subrange(start + 2, start + 3));
        Rgba8 { r: r * 17, g: g * 17, b: b * 17, a: 255 }
    } else if n == 6 {
        assert(h.subrange(0, 2) == bytes@.subrange(start + 0, start + 2));
        assert(h.subrange(2, 4) == bytes@.subrange(start + 2, start + 4));
        assert(h.subrange(4, 6) == bytes@.subrange(start + 4, start + 6));
        Rgba8 {
            r: group_value(bytes, start, 2, 0),
            g: group_value(bytes, start + 2, 2, 0),
            b: group_value(bytes, start + 4, 2, 0),
            a: 255,
        }
    } else if n == 8 {
        assert(h.subrange(0, 2) == bytes@.subrange(start + 0, start + 2));
        assert(h.subrange(2, 4) == bytes@.subrange(start + 2, start + 4));
        assert(h.subrange(4, 6) == bytes@.subrange(start + 4, start + 6));
        assert(h.subrange(6, 8) == bytes@.subrange(start + 6, start + 8));
        Rgba8 {
            r: group_value(bytes, start, 2, 0),
            g: group_value(bytes, start + 2, 2, 0),
            b: group_value(bytes, start + 4, 2, 0),
            a: group_value(bytes, start + 6, 2, 255),
        }
    } else {
        Rgba8 { r: 255, g: 255, b: 255, a: 255 }
    }
}

} // verus!
