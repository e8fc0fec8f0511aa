//! Little-endian 32-bit words in byte buffers.
use vstd::prelude::*;

verus! {

/// The little-endian 32-bit word at byte `off` of `s`.
pub open spec fn u32_le(s: Seq<u8>, off: int) -> u32 {
    (s[off] as int + 256 * s[off + 1] as int + 65536 * s[off + 2] as int + 16777216 * s[off
        + 3] as int) as u32
}

/// The four little-endian bytes of `v`.
pub open spec fn le_bytes(v: u32) -> Seq<u8> {
    seq![(v % 256) as u8, ((v / 256) % 256) as u8, ((v / 65536) % 256) as u8, (v / 16777216) as u8]
}

/// Two's-complement reading of a word as `i32`.
pub open spec fn as_i32(v: u32) -> i32 {
    if v < 0x8000_0000 { v as i32 } else { (v as int - 0x1_0000_0000) as i32 }
}

/// The 32-bit two's-complement word of a signed integer.
pub open spec fn i32_word(v: i32) -> u32 {
    if v >= 0 { v as u32 } else { (v as int + 0x1_0000_0000) as u32 }
}

pub fn word_of_i32(v: i32) -> (r: u32)
    ensures
        r == i32_word(v),
{
    if v >= 0 {
        v as u32
    } else {
        (v as i64 + 0x1_0000_0000i64) as u32
    }
}

/// Reads the little-endian word at byte `off`.
pub fn read_u32_le(s: &Vec<u8>, off: usize) -> (r: u32)
    requires
        off + 4 <= s@.len(),
    ensures
        r == u32_le(s@, off as int),
{
    let _len = s.len();
    let b0 = s[off] as u32;
    let b1 = s[off + 1] as u32;
    let b2 = s[off + 2] as u32;
    let b3 = s[off + 3] as u32;
    b0 + 256 * b1 + 65536 * b2 + 16777216 * b3
}

/// Reads the little-endian word at byte `off` as a signed integer.
pub fn read_i32_le(s: &Vec<u8>, off: usize) -> (r: i32)
    requires
        off + 4 <= s@.len(),
    ensures
        r == as_i32(u32_le(s@, off as int)),
{
    let w = read_u32_le(s, off);
    if w < 0x8000_0000 {
        w as i32
    } else {
        (w as i64 - 0x1_0000_0000i64) as i32
    }
}

/// Appends the four little-endian bytes of `v`.
pub fn push_u32_le(out: &mut Vec<u8>, v: u32)
    ensures
        final(out)@ == old(out)@ + le_bytes(v),
{
    out.push((v % 256) as u8);
    out.push(((v / 256) % 256) as u8);
    out.push(((v / 65536) % 256) as u8);
    out.push((v / 16777216) as u8);
    assert(final(out)@ =~= old(out)@ + le_bytes(v));
}

/// The bytes of a word read back give the word.
pub proof fn lemma_le_bytes_round_trip(v: u32)
    ensures
        u32_le(le_bytes(v), 0) == v,
{
    let b = le_bytes(v);
    assert(b[0] as int + 256 * b[1] as int + 65536 * b[2] as int + 16777216 * b[3] as int
        == v as int) by (nonlinear_arith)
        requires
            b[0] == (v % 256) as u8,
            b[1] == ((v / 256) % 256) as u8,
            b[2] == ((v / 65536) % 256) as u8,
            b[3] == (v / 16777216) as u8,
            0 <= v < 0x1_0000_0000,
    ;
}

} // verus!
