//! Little-endian fixed-width integer reads and writes over byte buffers,
//! the shared primitive of both container codecs.

use vstd::prelude::*;

verus! {

/// Value of a 2-byte little-endian sequence.
pub open spec fn u16_of_le(b: Seq<u8>) -> int
    recommends
        b.len() == 2,
{
    b[0] + 0x100 * b[1]
}

/// Value of a 4-byte little-endian sequence.
pub open spec fn u32_of_le(b: Seq<u8>) -> int
    recommends
        b.len() == 4,
{
    b[0] + 0x100 * b[1] + 0x1_0000 * b[2] + 0x100_0000 * b[3]
}

/// Signed value of a 4-byte little-endian sequence, two's complement.
pub open spec fn i32_of_le(b: Seq<u8>) -> int
    recommends
        b.len() == 4,
{
    if u32_of_le(b) < 0x8000_0000 {
        u32_of_le(b)
    } else {
        u32_of_le(b) - 0x1_0000_0000
    }
}

/// The 2-byte little-endian encoding of a value.
pub open spec fn le_of_u16(v: u16) -> Seq<u8> {
    seq![(v % 0x100) as u8, (v / 0x100) as u8]
}

/// The 4-byte little-endian encoding of a value.
pub open spec fn le_of_u32(v: u32) -> Seq<u8> {
    seq![
        (v % 0x100) as u8,
        ((v / 0x100) % 0x100) as u8,
        ((v / 0x1_0000) % 0x100) as u8,
        (v / 0x100_0000) as u8,
    ]
}

pub proof fn lemma_u16_round_trip(v: u16)
    ensures
        u16_of_le(le_of_u16(v)) == v,
{
    assert(v % 0x100 + 0x100 * (v / 0x100) == v) by (bit_vector);
}

pub proof fn lemma_u32_round_trip(v: u32)
    ensures
        u32_of_le(le_of_u32(v)) == v,
{
    assert(v % 0x100 + 0x100 * ((v / 0x100) % 0x100) + 0x1_0000 * ((v / 0x1_0000) % 0x100)
        + 0x100_0000 * (v / 0x100_0000) == v) by (bit_vector);
}

pub proof fn lemma_u32_of_le_bounds(b: Seq<u8>)
    requires
        b.len() == 4,
    ensures
        0 <= u32_of_le(b) < 0x1_0000_0000,
{
}

/// A vector's length is bounded by the machine word size.
pub proof fn lemma_vec_len_fits(v: &Vec<u8>)
    ensures
        v@.len() <= usize::MAX,
{
    vstd::std_specs::vec::axiom_spec_len(v);
}

/// Read a u16 stored little-endian at `off`.
pub fn read_u16_le(buf: &Vec<u8>, off: usize) -> (r: u16)
    requires
        off + 2 <= buf@.len(),
    ensures
        r == u16_of_le(buf@.subrange(off as int, off as int + 2)),
{
    proof {
        lemma_vec_len_fits(buf);
    }
    let r = (buf[off] as u16) + 0x100 * (buf[off + 1] as u16);
    proof {
        let s = buf@.subrange(off as int, off as int + 2);
        assert(s[0] == buf@[off as int] && s[1] == buf@[off as int + 1]);
    }
    r
}

/// Read a u32 stored little-endian at `off`.
pub fn read_u32_le(buf: &Vec<u8>, off: usize) -> (r: u32)
    requires
        off + 4 <= buf@.len(),
    ensures
        r == u32_of_le(buf@.subrange(off as int, off as int + 4)),
{
    proof {
        lemma_vec_len_fits(buf);
    }
    let r = (buf[off] as u32) + 0x100 * (buf[off + 1] as u32) + 0x1_0000 * (buf[off + 2] as u32)
        + 0x100_0000 * (buf[off + 3] as u32);
    proof {
        let s = buf@.subrange(off as int, off as int + 4);
        assert(s[0] == buf@[off as int] && s[1] == buf@[off as int + 1] && s[2] == buf@[off as int
            + 2] && s[3] == buf@[off as int + 3]);
    }
    r
}

/// Read an i32 stored little-endian at `off`.
pub fn read_i32_le(buf: &Vec<u8>, off: usize) -> (r: i32)
    requires
        off + 4 <= buf@.len(),
    ensures
        r == i32_of_le(buf@.subrange(off as int, off as int + 4)),
{
    let v = read_u32_le(buf, off);
    proof {
        lemma_u32_of_le_bounds(buf@.subrange(off as int, off as int + 4));
    }
    if v < 0x8000_0000 {
        v as i32
    } else {
        ((v as i64) - 0x1_0000_0000i64) as i32
    }
}

/// Append the 2-byte little-endian encoding of `v`.
pub fn push_u16_le(out: &mut Vec<u8>, v: u16)
    ensures
        final(out)@ == old(out)@ + le_of_u16(v),
{
    out.push((v % 0x100) as u8);
    out.push((v / 0x100) as u8);
    proof {
        assert(out@ =~= old(out)@ + le_of_u16(v));
    }
}

/// Append the 4-byte little-endian encoding of `v`.
pub fn push_u32_le(out: &mut Vec<u8>, v: u32)
    ensures
        final(out)@ == old(out)@ + le_of_u32(v),
{
    out.push((v % 0x100) as u8);
    out.push(((v / 0x100) % 0x100) as u8);
    out.push(((v / 0x1_0000) % 0x100) as u8);
    out.push((v / 0x100_0000) as u8);
    proof {
        assert(out@ =~= old(out)@ + le_of_u32(v));
    }
}

/// Append all of `src` to `out`.
pub fn push_bytes(out: &mut Vec<u8>, src: &Vec<u8>)
    ensures
        final(out)@ == old(out)@ + src@,
{
    proof {
        lemma_vec_len_fits(out);
        lemma_vec_len_fits(src);
    }
    let n = src.len();
    let mut i: usize = 0;
    while i < n
        invariant
            i <= n,
            n == src@.len(),
            out@ == old(out)@ + src@.subrange(0, i as int),
        decreases n - i,
    {
        out.push(src[i]);
        proof {
            assert(out@ =~= old(out)@ + src@.subrange(0, i + 1));
        }
        i = i + 1;
    }
    proof {
        assert(out@ =~= old(out)@ + src@);
    }
}

/// Copy `n` bytes starting at `off` into a fresh vector.
pub fn read_bytes(buf: &Vec<u8>, off: usize, n: usize) -> (r: Vec<u8>)
    requires
        off + n <= buf@.len(),
    ensures
        r@ == buf@.subrange(off as int, off as int + n),
{
    proof {
        lemma_vec_len_fits(buf);
    }
    let mut r: Vec<u8> = Vec::new();
    let mut i: usize = 0;
    while i < n
        invariant
            i <= n,
            off + n <= buf@.len(),
            buf@.len() <= usize::MAX,
            r@ == buf@.subrange(off as int, off as int + i),
        decreases n - i,
    {
        r.push(buf[off + i]);
        proof {
            assert(r@ =~= buf@.subrange(off as int, off as int + i + 1));
        }
        i = i + 1;
    }
    r
}

} // verus!
