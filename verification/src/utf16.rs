//! UTF-16 encoding and decoding for the protocol's path fields.
//!
//! Outbound command paths are sent as null-terminated UTF-16 buffers, and
//! inbound event records carry their file path as a UTF-16 span, so both
//! directions of the conversion are needed. The decoder is total: a lone
//! surrogate decodes to the Unicode replacement character instead of failing,
//! since the span crosses a trust boundary and may hold arbitrary bytes.

use vstd::prelude::*;
use vstd::string::StrSliceExecFns;

verus! {

/// A high (leading) surrogate code unit.
pub open spec fn is_high_surrogate(u: u16) -> bool {
    0xD800 <= u < 0xDC00
}

/// A low (trailing) surrogate code unit.
pub open spec fn is_low_surrogate(u: u16) -> bool {
    0xDC00 <= u < 0xE000
}

/// The UTF-16 code units of one scalar value: itself if it fits one unit,
/// otherwise the surrogate pair.
pub open spec fn utf16_encode_char(c: char) -> Seq<u16> {
    if (c as u32) < 0x10000 {
        seq![(c as u32) as u16]
    } else {
        seq![
            (0xD800 + ((c as u32) - 0x10000) / 0x400) as u16,
            (0xDC00 + ((c as u32) - 0x10000) % 0x400) as u16,
        ]
    }
}

/// The UTF-16 encoding of a character sequence.
pub open spec fn utf16_encode(s: Seq<char>) -> Seq<u16>
    decreases s.len(),
{
    if s.len() == 0 {
        Seq::empty()
    } else {
        utf16_encode_char(s[0]) + utf16_encode(s.skip(1))
    }
}

/// The characters a UTF-16 code unit sequence decodes to. A well-formed
/// surrogate pair yields its scalar value; a lone surrogate yields the
/// replacement character; every other unit yields itself.
pub open spec fn utf16_decode(u: Seq<u16>) -> Seq<char>
    decreases u.len(),
{
    if u.len() == 0 {
        Seq::empty()
    } else if is_high_surrogate(u[0]) && u.len() >= 2 && is_low_surrogate(u[1]) {
        seq![(0x10000 + (u[0] - 0xD800) * 0x400 + (u[1] - 0xDC00)) as char] + utf16_decode(
            u.skip(2),
        )
    } else if is_high_surrogate(u[0]) || is_low_surrogate(u[0]) {
        seq!['\u{FFFD}'] + utf16_decode(u.skip(1))
    } else {
        seq![u[0] as char] + utf16_decode(u.skip(1))
    }
}

/// Relies on `char::from_u32` of core: it returns the character with the
/// given code point, and `None` exactly on surrogate values and values above
/// the Unicode maximum.
pub assume_specification[ char::from_u32 ](i: u32) -> (r: Option<char>)
    ensures
        r == (if i < 0xD800 || (0xE000 <= i && i <= 0x10FFFF) {
            Some(i as char)
        } else {
            None::<char>
        }),
;

/// Relies on `String::push` of alloc: it appends the given character to the
/// end of the string.
pub assume_specification[ String::push ](s: &mut String, c: char)
    ensures
        final(s)@ == old(s)@.push(c),
;

/// Unrolls the encoding of a non-empty character sequence at its last element.
pub proof fn lemma_utf16_encode_snoc(s: Seq<char>)
    requires
        s.len() > 0,
    ensures
        utf16_encode(s) == utf16_encode(s.drop_last()) + utf16_encode_char(s.last()),
    decreases s.len(),
{
    if s.len() == 1 {
        assert(s.skip(1) =~= Seq::<char>::empty());
        assert(s.drop_last() =~= Seq::<char>::empty());
        assert(utf16_encode(Seq::<char>::empty()) == Seq::<u16>::empty());
        assert(utf16_encode(s) =~= utf16_encode(s.drop_last()) + utf16_encode_char(s.last()));
    } else {
        let rest = s.skip(1);
        lemma_utf16_encode_snoc(rest);
        assert(rest.drop_last() =~= s.drop_last().skip(1));
        assert(rest.last() == s.last());
        assert(s.drop_last()[0] == s[0]);
        assert(s.drop_last().len() > 0);
        assert(utf16_encode(s) =~= utf16_encode(s.drop_last()) + utf16_encode_char(s.last()));
    }
}

/// Encodes a string as UTF-16 code units, without a terminator.
pub fn encode_utf16_units(s: &str) -> (r: Vec<u16>)
    ensures
        r@ == utf16_encode(s@),
{
    let n = s.unicode_len();
    let mut r: Vec<u16> = Vec::new();
    let mut i: usize = 0;
    while i < n
        invariant
            i <= n,
            n == s@.len(),
            r@ == utf16_encode(s@.take(i as int)),
        decreases n - i,
    {
        let c = s.get_char(i);
        let v = c as u32;
        if v < 0x10000 {
            r.push(v as u16);
        } else {
            let rem = v - 0x10000;
            let hi = 0xD800 + rem / 0x400;
            let lo = 0xDC00 + rem % 0x400;
            r.push(hi as u16);
            r.push(lo as u16);
        }
        proof {
            lemma_utf16_encode_snoc(s@.take(i + 1));
            assert(s@.take(i + 1).drop_last() =~= s@.take(i as int));
            assert(s@.take(i + 1).last() == s@[i as int]);
            assert(r@ =~= utf16_encode(s@.take(i as int)) + utf16_encode_char(s@[i as int]));
        }
        i = i + 1;
    }
    proof {
        assert(s@.take(n as int) =~= s@);
    }
    r
}

/// Decodes UTF-16 code units into an owned string, mapping lone surrogates to
/// the replacement character.
pub fn decode_utf16_units(u: &[u16]) -> (r: String)
    ensures
        r@ == utf16_decode(u@),
{
    let len = u.len();
    let mut out = String::new();
    let mut i: usize = 0;
    proof {
        assert(u@.skip(0) =~= u@);
        assert(out@ + utf16_decode(u@) =~= utf16_decode(u@));
    }
    while i < len
        invariant
            i <= len,
            len == u@.len(),
            out@ + utf16_decode(u@.skip(i as int)) == utf16_decode(u@),
        decreases len - i,
    {
        let ghost t = u@.skip(i as int);
        let c0 = *vstd::slice::slice_index_get(u, i);
        assert(t[0] == u@[i as int]);
        if c0 >= 0xD800 && c0 < 0xDC00 && i + 1 < len {
            let c1 = *vstd::slice::slice_index_get(u, i + 1);
            assert(t[1] == u@[i + 1]);
            if c1 >= 0xDC00 && c1 < 0xE000 {
                let v: u32 = 0x10000 + (c0 as u32 - 0xD800) * 0x400 + (c1 as u32 - 0xDC00);
                let c = char::from_u32(v).unwrap();
                out.push(c);
                proof {
                    assert(t.skip(2) =~= u@.skip(i + 2));
                    assert(utf16_decode(t) == seq![c] + utf16_decode(u@.skip(i + 2)));
                    assert(out@ + utf16_decode(u@.skip(i + 2)) =~= utf16_decode(u@));
                }
                i = i + 2;
            } else {
                out.push('\u{FFFD}');
                proof {
                    assert(t.skip(1) =~= u@.skip(i + 1));
                    assert(utf16_decode(t) == seq!['\u{FFFD}'] + utf16_decode(u@.skip(i + 1)));
                    assert(out@ + utf16_decode(u@.skip(i + 1)) =~= utf16_decode(u@));
                }
                i = i + 1;
            }
        } else if c0 >= 0xD800 && c0 < 0xE000 {
            out.push('\u{FFFD}');
            proof {
                assert(t.skip(1) =~= u@.skip(i + 1));
                assert(!(is_high_surrogate(t[0]) && t.len() >= 2 && is_low_surrogate(t[1])));
                assert(utf16_decode(t) == seq!['\u{FFFD}'] + utf16_decode(u@.skip(i + 1)));
                assert(out@ + utf16_decode(u@.skip(i + 1)) =~= utf16_decode(u@));
            }
            i = i + 1;
        } else {
            let c = char::from_u32(c0 as u32).unwrap();
            out.push(c);
            proof {
                assert(t.skip(1) =~= u@.skip(i + 1));
                assert(utf16_decode(t) == seq![t[0] as char] + utf16_decode(u@.skip(i + 1)));
                assert(out@ + utf16_decode(u@.skip(i + 1)) =~= utf16_decode(u@));
            }
            i = i + 1;
        }
    }
    proof {
        assert(u@.skip(len as int) =~= Seq::<u16>::empty());
        assert(out@ =~= utf16_decode(u@));
    }
    out
}

/// For characters of the basic multilingual plane the encoding is one unit
/// per character, each unit the character's own code point.
pub proof fn lemma_utf16_encode_bmp(s: Seq<char>)
    requires
        forall|i: int| 0 <= i < s.len() ==> (s[i] as u32) < 0x10000,
    ensures
        utf16_encode(s).len() == s.len(),
        forall|i: int|
            0 <= i < s.len() ==> #[trigger] utf16_encode(s)[i] == ((s[i] as u32) as u16),
    decreases s.len(),
{
    if s.len() > 0 {
        let rest = s.skip(1);
        assert(forall|i: int| 0 <= i < rest.len() ==> (rest[i] as u32) < 0x10000);
        lemma_utf16_encode_bmp(rest);
        assert(utf16_encode(s) == seq![(s[0] as u32) as u16] + utf16_encode(rest));
        assert forall|i: int| 0 <= i < s.len() implies #[trigger] utf16_encode(s)[i] == ((
        s[i] as u32) as u16) by {
            if i > 0 {
                assert(utf16_encode(s)[i] == utf16_encode(rest)[i - 1]);
            }
        }
    }
}

/// Law: decoding an encoded character sequence recovers it exactly. Holds for
/// every sequence because Rust characters are Unicode scalar values, so the
/// encoder never emits a lone surrogate.
pub proof fn lemma_utf16_round_trip(s: Seq<char>)
    ensures
        utf16_decode(utf16_encode(s)) == s,
    decreases s.len(),
{
    if s.len() == 0 {
        assert(utf16_decode(utf16_encode(s)) =~= s);
    } else {
        let c = s[0];
        let rest = s.skip(1);
        lemma_utf16_round_trip(rest);
        let enc = utf16_encode(s);
        let v = c as u32;
        vstd::utf8::char_is_scalar(c);
        vstd::utf8::char_u32_cast(c, v);
        assert(v <= 0x10FFFF && !(0xD800 <= v && v <= 0xDFFF));
        if v < 0x10000 {
            let unit = v as u16;
            assert(!is_high_surrogate(unit) && !is_low_surrogate(unit));
            assert(enc[0] == unit);
            assert(enc.skip(1) =~= utf16_encode(rest));
            assert((unit as char) == c);
            assert(utf16_decode(enc) == seq![c] + utf16_decode(utf16_encode(rest)));
            assert(utf16_decode(utf16_encode(s)) =~= s);
        } else {
            let x = (v as int) - 0x10000;
            let q = x / 0x400;
            let rem = x % 0x400;
            vstd::arithmetic::div_mod::lemma_fundamental_div_mod(x, 0x400);
            assert(0 <= x <= 0xFFFFF);
            assert(0 <= q <= 0x3FF) by {
                vstd::arithmetic::div_mod::lemma_div_is_ordered(x, 0xFFFFF, 0x400);
                assert(0xFFFFFint / 0x400 == 0x3FF) by (nonlinear_arith);
                vstd::arithmetic::div_mod::lemma_div_pos_is_pos(x, 0x400);
            }
            assert(0 <= rem < 0x400);
            let hi = (0xD800 + q) as u16;
            let lo = (0xDC00 + rem) as u16;
            assert(enc[0] == hi && enc[1] == lo);
            assert(is_high_surrogate(hi) && is_low_surrogate(lo));
            assert(enc.len() >= 2);
            assert(enc.skip(2) =~= utf16_encode(rest));
            assert(0x10000 + (hi - 0xD800) * 0x400 + (lo - 0xDC00) == v as int);
            assert(((0x10000 + (hi - 0xD800) * 0x400 + (lo - 0xDC00)) as char) == c);
            assert(utf16_decode(enc) == seq![c] + utf16_decode(utf16_encode(rest)));
            assert(utf16_decode(utf16_encode(s)) =~= s);
        }
    }
}

} // verus!
