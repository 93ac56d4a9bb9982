//! Decoding UTF-16 code units into text.
//!
//! The driver reports path and extension text as UTF-16 code units.
//! Decoding follows the usual scheme: a unit outside the surrogate
//! range is a character of its own, a high surrogate followed by a low
//! surrogate combines into one supplementary character, and any
//! unpaired surrogate becomes the replacement character.  Extension
//! fields are fixed-width and NUL-padded, so they decode only up to the
//! first NUL unit.

use vstd::prelude::*;

verus! {

/// Holds for a code unit that is no surrogate and therefore stands for
/// a character of its own.
pub open spec fn is_bmp_unit(u: u16) -> bool {
    u < 0xD800 || u >= 0xE000
}

/// Holds for a high (leading) surrogate.
pub open spec fn is_high_surrogate(u: u16) -> bool {
    0xD800 <= u < 0xDC00
}

/// Holds for a low (trailing) surrogate.
pub open spec fn is_low_surrogate(u: u16) -> bool {
    0xDC00 <= u < 0xE000
}

/// Character of a surrogate pair.
pub open spec fn pair_char(hi: u16, lo: u16) -> char {
    (((0x10000 + (hi - 0xD800) * 0x400 + (lo - 0xDC00))) as u32) as char
}

/// Text of a sequence of UTF-16 code units, with unpaired surrogates
/// replaced by the replacement character.
pub open spec fn utf16_decode(s: Seq<u16>) -> Seq<char>
    decreases s.len(),
{
    if s.len() == 0 {
        Seq::empty()
    } else if is_bmp_unit(s[0]) {
        seq![(s[0] as u32) as char] + utf16_decode(s.skip(1))
    } else if is_high_surrogate(s[0]) && s.len() >= 2 && is_low_surrogate(s[1]) {
        seq![pair_char(s[0], s[1])] + utf16_decode(s.skip(2))
    } else {
        seq!['\u{FFFD}'] + utf16_decode(s.skip(1))
    }
}

/// The units of `s` ahead of its first NUL.
pub open spec fn until_nul(s: Seq<u16>) -> Seq<u16>
    decreases s.len(),
{
    if s.len() == 0 {
        s
    } else if s[0] == 0 {
        Seq::empty()
    } else {
        seq![s[0]] + until_nul(s.skip(1))
    }
}

/// `until_nul` is the prefix ahead of the first NUL unit.
proof fn lemma_until_nul_is_prefix(s: Seq<u16>, z: int)
    requires
        0 <= z <= s.len(),
        forall|j: int| 0 <= j < z ==> s[j] != 0,
        z == s.len() || s[z] == 0,
    ensures
        until_nul(s) == s.take(z),
    decreases s.len(),
{
    if s.len() == 0 {
        assert(s.take(z) =~= s);
    } else if z == 0 {
        assert(s.take(0) =~= Seq::<u16>::empty());
    } else {
        lemma_until_nul_is_prefix(s.skip(1), z - 1);
        assert(seq![s[0]] + s.skip(1).take(z - 1) =~= s.take(z));
    }
}

/// Decodes the first `end` units of a slice of UTF-16 code units.
pub fn utf16_prefix_to_string(units: &[u16], end: usize) -> (r: String)
    requires
        end <= units@.len(),
    ensures
        r@ == utf16_decode(units@.take(end as int)),
{
    let ghost s = units@.take(end as int);
    let mut r = String::new();
    let mut i: usize = 0;
    proof {
        assert(s.skip(0) =~= s);
    }
    while i < end
        invariant
            i <= end <= units@.len(),
            utf16_decode(s) == r@ + utf16_decode(s.skip(i as int)),
            s == units@.take(end as int),
        decreases end - i,
    {
        let u = units[i];
        proof {
            assert(s.skip(i as int)[0] == units@[i as int]);
        }
        if u < 0xD800 || u >= 0xE000 {
            let c = char::from_u32(u as u32).unwrap();
            let ghost prev = r@;
            r.push(c);
            proof {
                assert(s.skip(i as int).skip(1) =~= s.skip(i + 1));
                assert(prev.push(c) =~= prev + seq![c]);
                assert(prev + seq![c] + utf16_decode(s.skip(i + 1)) =~= prev + (seq![c]
                    + utf16_decode(s.skip(i + 1))));
            }
            i = i + 1;
        } else if u < 0xDC00 && i + 1 < end && units[i + 1] >= 0xDC00 && units[i + 1] < 0xE000 {
            let lo = units[i + 1];
            let cp: u32 = 0x10000 + ((u as u32) - 0xD800) * 0x400 + ((lo as u32) - 0xDC00);
            let c = char::from_u32(cp).unwrap();
            let ghost prev = r@;
            r.push(c);
            proof {
                assert(s.skip(i as int)[1] == units@[i + 1]);
                assert(s.skip(i as int).skip(2) =~= s.skip(i + 2));
                assert(prev.push(c) =~= prev + seq![c]);
                assert(prev + seq![c] + utf16_decode(s.skip(i + 2)) =~= prev + (seq![c]
                    + utf16_decode(s.skip(i + 2))));
            }
            i = i + 2;
        } else {
            let c = '\u{FFFD}';
            let ghost prev = r@;
            r.push(c);
            proof {
                if s.skip(i as int).len() >= 2 {
                    assert(s.skip(i as int)[1] == units@[i + 1]);
                }
                assert(s.skip(i as int).skip(1) =~= s.skip(i + 1));
                assert(prev.push(c) =~= prev + seq![c]);
                assert(prev + seq![c] + utf16_decode(s.skip(i + 1)) =~= prev + (seq![c]
                    + utf16_decode(s.skip(i + 1))));
            }
            i = i + 1;
        }
    }
    proof {
        assert(s.skip(end as int) =~= Seq::<u16>::empty());
        assert(r@ =~= r@ + utf16_decode(s.skip(end as int)));
    }
    r
}

/// Decodes a whole slice of UTF-16 code units.
pub fn utf16_to_string(units: &[u16]) -> (r: String)
    ensures
        r@ == utf16_decode(units@),
{
    let r = utf16_prefix_to_string(units, units.len());
    proof {
        assert(units@.take(units@.len() as int) =~= units@);
    }
    r
}

/// Decodes a NUL-padded fixed-width field of UTF-16 code units, such as
/// the extension field of a driver record: only the units ahead of the
/// first NUL count.
pub fn wchar_array_to_string(units: &[u16]) -> (r: String)
    ensures
        r@ == utf16_decode(until_nul(units@)),
{
    let len: usize = units.len();
    let mut z: usize = 0;
    while z < len
        invariant
            z <= len,
            len == units@.len(),
            forall|j: int| 0 <= j < z ==> units@[j] != 0,
        decreases len - z,
    {
        if units[z] == 0 {
            proof {
                lemma_until_nul_is_prefix(units@, z as int);
            }
            return utf16_prefix_to_string(units, z);
        }
        z = z + 1;
    }
    proof {
        lemma_until_nul_is_prefix(units@, len as int);
    }
    utf16_prefix_to_string(units, len)
}

} // verus!
