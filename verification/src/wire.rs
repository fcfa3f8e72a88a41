//! Byte-level helpers for the fixed-layout wire structures.
//!
//! Every multi-byte field of the protocol is little-endian, matching the
//! compiled layout of the kernel side. The specification functions here give
//! each read and write a mathematical meaning over `Seq<u8>`, so the layout
//! contracts of the command and reply modules can be stated byte by byte.

use vstd::bytes::*;
use vstd::prelude::*;
use vstd::slice::slice_subrange;

verus! {

/// The sequence of `n` little-endian `u16` values stored at byte offset
/// `off` of `b`.
pub open spec fn spec_u16s_at(b: Seq<u8>, off: int, n: int) -> Seq<u16> {
    Seq::new(n as nat, |i: int| spec_u16_from_le_bytes(b.subrange(off + 2 * i, off + 2 * i + 2)))
}

/// The little-endian byte image of a sequence of `u16` values.
pub open spec fn spec_u16s_to_le_bytes(s: Seq<u16>) -> Seq<u8>
    decreases s.len(),
{
    if s.len() == 0 {
        Seq::empty()
    } else {
        spec_u16_to_le_bytes(s[0]) + spec_u16s_to_le_bytes(s.skip(1))
    }
}

pub proof fn lemma_u16s_to_le_bytes_len(s: Seq<u16>)
    ensures
        spec_u16s_to_le_bytes(s).len() == 2 * s.len(),
    decreases s.len(),
{
    lemma_auto_spec_u16_to_from_le_bytes();
    if s.len() > 0 {
        lemma_u16s_to_le_bytes_len(s.skip(1));
    }
}

/// Reading `u16` values back out of their byte image recovers the values:
/// the image of `s` laid down at offset `off` of `b` decodes to `s`.
pub proof fn lemma_u16s_at_of_to_le_bytes(b: Seq<u8>, off: int, s: Seq<u16>)
    requires
        0 <= off,
        off + 2 * s.len() <= b.len(),
        b.subrange(off, off + 2 * s.len()) == spec_u16s_to_le_bytes(s),
    ensures
        spec_u16s_at(b, off, s.len() as int) == s,
    decreases s.len(),
{
    lemma_auto_spec_u16_to_from_le_bytes();
    lemma_u16s_to_le_bytes_len(s);
    if s.len() > 0 {
        let rest = s.skip(1);
        lemma_u16s_to_le_bytes_len(rest);
        assert(b.subrange(off, off + 2) == spec_u16s_to_le_bytes(s).subrange(0, 2));
        assert(spec_u16s_to_le_bytes(s).subrange(0, 2) == spec_u16_to_le_bytes(s[0]));
        assert(spec_u16_from_le_bytes(spec_u16_to_le_bytes(s[0])) == s[0]);
        assert(b.subrange(off + 2, off + 2 + 2 * rest.len()) == spec_u16s_to_le_bytes(rest))
            by {
            assert(spec_u16s_to_le_bytes(rest) == spec_u16s_to_le_bytes(s).subrange(
                2,
                2 + 2 * rest.len() as int,
            ));
            assert(b.subrange(off + 2, off + 2 + 2 * rest.len()) == b.subrange(
                off,
                off + 2 * s.len(),
            ).subrange(2, 2 + 2 * rest.len() as int));
        }
        lemma_u16s_at_of_to_le_bytes(b, off + 2, rest);
        assert(spec_u16s_at(b, off, s.len() as int) =~= seq![s[0]] + spec_u16s_at(
            b,
            off + 2,
            rest.len() as int,
        ));
        assert(spec_u16s_at(b, off, s.len() as int) =~= s);
    } else {
        assert(spec_u16s_at(b, off, 0) =~= s);
    }
}

/// Reads the little-endian `u16` at byte offset `off`.
pub fn read_u16_at(buf: &[u8], off: usize) -> (r: u16)
    requires
        off + 2 <= buf@.len(),
    ensures
        r == spec_u16_from_le_bytes(buf@.subrange(off as int, off + 2)),
{
    proof { vstd::slice::axiom_spec_len(buf); }
    u16_from_le_bytes(slice_subrange(buf, off, off + 2))
}

/// Reads the little-endian `u32` at byte offset `off`.
pub fn read_u32_at(buf: &[u8], off: usize) -> (r: u32)
    requires
        off + 4 <= buf@.len(),
    ensures
        r == spec_u32_from_le_bytes(buf@.subrange(off as int, off + 4)),
{
    proof { vstd::slice::axiom_spec_len(buf); }
    u32_from_le_bytes(slice_subrange(buf, off, off + 4))
}

/// Reads the little-endian `u64` at byte offset `off`.
pub fn read_u64_at(buf: &[u8], off: usize) -> (r: u64)
    requires
        off + 8 <= buf@.len(),
    ensures
        r == spec_u64_from_le_bytes(buf@.subrange(off as int, off + 8)),
{
    proof { vstd::slice::axiom_spec_len(buf); }
    u64_from_le_bytes(slice_subrange(buf, off, off + 8))
}

/// Reads the `n` little-endian `u16` values at byte offset `off`.
pub fn read_u16s_at(buf: &[u8], off: usize, n: usize) -> (r: Vec<u16>)
    requires
        off + 2 * n <= buf@.len(),
    ensures
        r@ == spec_u16s_at(buf@, off as int, n as int),
        r@.len() == n,
{
    let len = buf.len();
    let mut r: Vec<u16> = Vec::new();
    let mut i: usize = 0;
    while i < n
        invariant
            i <= n,
            len == buf@.len(),
            off + 2 * n <= len,
            r@ == spec_u16s_at(buf@, off as int, i as int),
            r@.len() == i,
        decreases n - i,
    {
        let v = read_u16_at(buf, off + 2 * i);
        r.push(v);
        assert(r@ =~= spec_u16s_at(buf@, off as int, i + 1));
        i = i + 1;
    }
    r
}

/// Reads the `n` bytes at offset `off` as an owned vector.
pub fn read_bytes_at(buf: &[u8], off: usize, n: usize) -> (r: Vec<u8>)
    requires
        off + n <= buf@.len(),
    ensures
        r@ == buf@.subrange(off as int, off + n),
{
    let len = buf.len();
    let mut r: Vec<u8> = Vec::new();
    let mut i: usize = 0;
    while i < n
        invariant
            i <= n,
            len == buf@.len(),
            off + n <= len,
            r@ == buf@.subrange(off as int, off + i),
        decreases n - i,
    {
        r.push(*vstd::slice::slice_index_get(buf, off + i));
        assert(r@ =~= buf@.subrange(off as int, off + i + 1));
        i = i + 1;
    }
    r
}

/// Appends the little-endian image of `x` to `out`.
pub fn push_u32_le(out: &mut Vec<u8>, x: u32)
    ensures
        final(out)@ == old(out)@ + spec_u32_to_le_bytes(x),
{
    let mut bytes = u32_to_le_bytes(x);
    out.append(&mut bytes);
}

/// Appends the little-endian image of `x` to `out`.
pub fn push_u64_le(out: &mut Vec<u8>, x: u64)
    ensures
        final(out)@ == old(out)@ + spec_u64_to_le_bytes(x),
{
    let mut bytes = u64_to_le_bytes(x);
    out.append(&mut bytes);
}

/// Appends the little-endian image of every value of `s`, in order, to `out`.
pub fn push_u16s_le(out: &mut Vec<u8>, s: &Vec<u16>)
    ensures
        final(out)@ == old(out)@ + spec_u16s_to_le_bytes(s@),
{
    let n = s.len();
    let mut i: usize = 0;
    while i < n
        invariant
            i <= n,
            n == s@.len(),
            out@ == old(out)@ + spec_u16s_to_le_bytes(s@.take(i as int)),
        decreases n - i,
    {
        let mut bytes = u16_to_le_bytes(s[i]);
        out.append(&mut bytes);
        proof {
            lemma_u16s_to_le_bytes_snoc(s@.take(i + 1));
            assert(s@.take(i + 1).drop_last() =~= s@.take(i as int));
            assert(s@.take(i + 1).last() == s@[i as int]);
        }
        i = i + 1;
    }
    proof {
        assert(s@.take(n as int) =~= s@);
    }
}

/// Unrolls the byte image of a non-empty `u16` sequence at its last element.
pub proof fn lemma_u16s_to_le_bytes_snoc(s: Seq<u16>)
    requires
        s.len() > 0,
    ensures
        spec_u16s_to_le_bytes(s) == spec_u16s_to_le_bytes(s.drop_last()) + spec_u16_to_le_bytes(
            s.last(),
        ),
    decreases s.len(),
{
    if s.len() == 1 {
        assert(s.drop_last() =~= Seq::<u16>::empty());
        assert(s.skip(1) =~= Seq::<u16>::empty());
        assert(spec_u16s_to_le_bytes(Seq::<u16>::empty()) == Seq::<u8>::empty());
        assert(spec_u16s_to_le_bytes(s) =~= spec_u16_to_le_bytes(s[0]) + Seq::<u8>::empty());
        assert(spec_u16s_to_le_bytes(s.drop_last()) + spec_u16_to_le_bytes(s.last())
            =~= spec_u16_to_le_bytes(s[0]));
    } else {
        let rest = s.skip(1);
        lemma_u16s_to_le_bytes_snoc(rest);
        assert(rest.drop_last() =~= s.drop_last().skip(1));
        assert(rest.last() == s.last());
        assert(spec_u16s_to_le_bytes(s) == spec_u16_to_le_bytes(s[0]) + (spec_u16s_to_le_bytes(
            rest.drop_last(),
        ) + spec_u16_to_le_bytes(s.last())));
        assert(s.drop_last()[0] == s[0]);
        assert(s.drop_last().len() > 0);
        assert(spec_u16s_to_le_bytes(s.drop_last()) == spec_u16_to_le_bytes(s[0])
            + spec_u16s_to_le_bytes(s.drop_last().skip(1)));
        assert(spec_u16s_to_le_bytes(s) =~= spec_u16s_to_le_bytes(s.drop_last())
            + spec_u16_to_le_bytes(s.last()));
    }
}

} // verus!
