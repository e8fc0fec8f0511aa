//! The std430 images of the BVH node records.
//!
//! `vec3` has a base alignment of 16 and a size of 12, so an `{ vec3 min;
//! vec3 max; }` box takes 32 bytes, and each node record is padded to a
//! multiple of 16: 48 bytes for a bottom-level node, 176 for a top-level one.
use crate::aabb::{bits_of_key, Aabb};
use crate::bytes::{i32_word, le_bytes, push_u32_le, word_of_i32};
use vstd::prelude::*;

verus! {

/// Alignment of both node records: that of their `vec3` members.
pub const NODE_ALIGNMENT: usize = 16;

/// Array stride of a bottom-level node record.
pub const BLAS_NODE_STRIDE: usize = 48;

/// Array stride of a top-level node record.
pub const TLAS_NODE_STRIDE: usize = 176;

/// A bottom-level node as the traversal shader reads it.
#[derive(Clone, Copy, Debug)]
pub struct BlasNodeRecord {
    pub aabb: Aabb,
    pub entry_index_or_primitive_id: u32,
    pub exit_index: u32,
    pub geometry_id: i32,
}

/// A top-level node as the traversal shader reads it; the transforms are
/// twelve float bit patterns each, a column-major 4x3 matrix.
#[derive(Clone, Copy, Debug)]
pub struct TlasNodeRecord {
    pub aabb: Aabb,
    pub entry_index: u32,
    pub exit_index: u32,
    pub is_leaf: u32,
    pub mask: u32,
    pub flags: u32,
    pub instance_id: u32,
    pub sbt_instance_offset: u32,
    pub instance_custom_index: i32,
    pub transform_to_world: [u32; 12],
    pub transform_to_object: [u32; 12],
    pub blas_geometry_id_offset: u32,
}

pub open spec fn vec3_bytes(k: [u32; 3]) -> Seq<u8> {
    le_bytes(bits_of_key(k[0])) + le_bytes(bits_of_key(k[1])) + le_bytes(bits_of_key(k[2]))
        + le_bytes(0)
}

/// `{ vec3 min; vec3 max; }`: each `vec3` padded to 16 bytes.
pub open spec fn aabb_bytes(b: Aabb) -> Seq<u8> {
    vec3_bytes(b.min) + vec3_bytes(b.max)
}

pub open spec fn float12_bytes(m: [u32; 12]) -> Seq<u8> {
    le_bytes(m[0]) + le_bytes(m[1]) + le_bytes(m[2]) + le_bytes(m[3]) + le_bytes(m[4]) + le_bytes(
        m[5],
    ) + le_bytes(m[6]) + le_bytes(m[7]) + le_bytes(m[8]) + le_bytes(m[9]) + le_bytes(m[10])
        + le_bytes(m[11])
}

#[verifier::opaque]
pub open spec fn blas_record_bytes(r: BlasNodeRecord) -> Seq<u8> {
    aabb_bytes(r.aabb) + le_bytes(r.entry_index_or_primitive_id) + le_bytes(r.exit_index)
        + le_bytes(i32_word(r.geometry_id)) + le_bytes(0)
}

#[verifier::opaque]
pub open spec fn tlas_record_bytes(r: TlasNodeRecord) -> Seq<u8> {
    aabb_bytes(r.aabb) + le_bytes(r.entry_index) + le_bytes(r.exit_index) + le_bytes(r.is_leaf)
        + le_bytes(r.mask) + le_bytes(r.flags) + le_bytes(r.instance_id) + le_bytes(
        r.sbt_instance_offset,
    ) + le_bytes(i32_word(r.instance_custom_index)) + float12_bytes(r.transform_to_world)
        + float12_bytes(r.transform_to_object) + le_bytes(r.blas_geometry_id_offset) + le_bytes(0)
        + le_bytes(0) + le_bytes(0)
}

/// The records one after another.
pub open spec fn blas_array_bytes(rs: Seq<BlasNodeRecord>) -> Seq<u8>
    decreases rs.len(),
{
    if rs.len() == 0 {
        Seq::empty()
    } else {
        blas_array_bytes(rs.drop_last()) + blas_record_bytes(rs.last())
    }
}

/// The records one after another.
pub open spec fn tlas_array_bytes(rs: Seq<TlasNodeRecord>) -> Seq<u8>
    decreases rs.len(),
{
    if rs.len() == 0 {
        Seq::empty()
    } else {
        tlas_array_bytes(rs.drop_last()) + tlas_record_bytes(rs.last())
    }
}

fn push_i32(out: &mut Vec<u8>, v: i32)
    ensures
        final(out)@ == old(out)@ + le_bytes(i32_word(v)),
{
    push_u32_le(out, word_of_i32(v));
}

fn push_vec3(out: &mut Vec<u8>, k: [u32; 3])
    ensures
        final(out)@ == old(out)@ + vec3_bytes(k),
{
    push_u32_le(out, crate::aabb::float_bits(k[0]));
    push_u32_le(out, crate::aabb::float_bits(k[1]));
    push_u32_le(out, crate::aabb::float_bits(k[2]));
    push_u32_le(out, 0);
    assert(final(out)@ =~= old(out)@ + vec3_bytes(k));
}

fn push_aabb(out: &mut Vec<u8>, b: &Aabb)
    ensures
        final(out)@ == old(out)@ + aabb_bytes(*b),
{
    push_vec3(out, b.min);
    push_vec3(out, b.max);
    assert(final(out)@ =~= old(out)@ + aabb_bytes(*b));
}

fn push_float12(out: &mut Vec<u8>, m: &[u32; 12])
    ensures
        final(out)@ == old(out)@ + float12_bytes(*m),
{
    let mut i: usize = 0;
    let ghost start = out@;
    while i < 12
        invariant
            i <= 12,
            out@ == start + float12_prefix(*m, i as int),
        decreases 12 - i,
    {
        push_u32_le(out, m[i]);
        proof {
            assert(float12_prefix(*m, i + 1) =~= float12_prefix(*m, i as int) + le_bytes(m[i as int]));
        }
        i = i + 1;
        assert(out@ =~= start + float12_prefix(*m, i as int));
    }
    assert(float12_prefix(*m, 12) =~= float12_bytes(*m)) by {
        reveal_with_fuel(float12_prefix, 13);
    }
    assert(final(out)@ =~= old(out)@ + float12_bytes(*m));
}

spec fn float12_prefix(m: [u32; 12], n: int) -> Seq<u8>
    decreases n,
{
    if n <= 0 {
        Seq::empty()
    } else {
        float12_prefix(m, n - 1) + le_bytes(m[n - 1])
    }
}

/// Appends the std430 image of one bottom-level node.
pub fn write_blas_record(out: &mut Vec<u8>, r: &BlasNodeRecord)
    ensures
        final(out)@ == old(out)@ + blas_record_bytes(*r),
{
    push_aabb(out, &r.aabb);
    push_u32_le(out, r.entry_index_or_primitive_id);
    push_u32_le(out, r.exit_index);
    push_i32(out, r.geometry_id);
    push_u32_le(out, 0);
    reveal(blas_record_bytes);
    assert(final(out)@ =~= old(out)@ + blas_record_bytes(*r));
}

/// Appends the std430 image of one top-level node.
pub fn write_tlas_record(out: &mut Vec<u8>, r: &TlasNodeRecord)
    ensures
        final(out)@ == old(out)@ + tlas_record_bytes(*r),
{
    push_aabb(out, &r.aabb);
    push_u32_le(out, r.entry_index);
    push_u32_le(out, r.exit_index);
    push_u32_le(out, r.is_leaf);
    push_u32_le(out, r.mask);
    push_u32_le(out, r.flags);
    push_u32_le(out, r.instance_id);
    push_u32_le(out, r.sbt_instance_offset);
    push_i32(out, r.instance_custom_index);
    push_float12(out, &r.transform_to_world);
    push_float12(out, &r.transform_to_object);
    push_u32_le(out, r.blas_geometry_id_offset);
    push_u32_le(out, 0);
    push_u32_le(out, 0);
    push_u32_le(out, 0);
    reveal(tlas_record_bytes);
    assert(final(out)@ =~= old(out)@ + tlas_record_bytes(*r));
}

pub proof fn lemma_blas_record_len(r: BlasNodeRecord)
    ensures
        blas_record_bytes(r).len() == BLAS_NODE_STRIDE,
{
    reveal(blas_record_bytes);
}

pub proof fn lemma_tlas_record_len(r: TlasNodeRecord)
    ensures
        tlas_record_bytes(r).len() == TLAS_NODE_STRIDE,
{
    reveal(tlas_record_bytes);
    assert forall|v: u32| #[trigger] le_bytes(v).len() == 4 by {}
    assert(aabb_bytes(r.aabb).len() == 32);
    assert(float12_bytes(r.transform_to_world).len() == 48);
    assert(float12_bytes(r.transform_to_object).len() == 48);
}

/// The byte length of an array of `count` records of `stride` bytes, padded
/// to the node alignment.
pub open spec fn padded_len(count: int, stride: int) -> int {
    let raw = count * stride;
    if raw % (NODE_ALIGNMENT as int) == 0 {
        raw
    } else {
        raw + (NODE_ALIGNMENT as int) - raw % (NODE_ALIGNMENT as int)
    }
}

/// A padded array is `count * stride` bytes rounded up to the next multiple
/// of the node alignment.
pub proof fn lemma_padded_len(count: int, stride: int)
    requires
        count >= 0,
        stride >= 0,
    ensures
        padded_len(count, stride) % (NODE_ALIGNMENT as int) == 0,
        count * stride <= padded_len(count, stride) < count * stride + NODE_ALIGNMENT,
{
    assert(count * stride >= 0) by (nonlinear_arith)
        requires count >= 0, stride >= 0;
}

pub proof fn lemma_blas_array_len(rs: Seq<BlasNodeRecord>)
    ensures
        blas_array_bytes(rs).len() == rs.len() * BLAS_NODE_STRIDE,
    decreases rs.len(),
{
    if rs.len() > 0 {
        lemma_blas_array_len(rs.drop_last());
        lemma_blas_record_len(rs.last());
    }
}

pub proof fn lemma_tlas_array_len(rs: Seq<TlasNodeRecord>)
    ensures
        tlas_array_bytes(rs).len() == rs.len() * TLAS_NODE_STRIDE,
    decreases rs.len(),
{
    if rs.len() > 0 {
        lemma_tlas_array_len(rs.drop_last());
        lemma_tlas_record_len(rs.last());
    }
}

/// Zero bytes up to the next multiple of the node alignment.
fn pad_to_alignment(out: &mut Vec<u8>)
    requires
        old(out)@.len() + NODE_ALIGNMENT <= usize::MAX,
    ensures
        final(out)@.len() == padded_len(old(out)@.len() as int, 1),
        final(out)@.subrange(0, old(out)@.len() as int) == old(out)@,
        forall|j: int| old(out)@.len() <= j < final(out)@.len() ==> final(out)@[j] == 0,
{
    let target = crate::align_to(out.len(), NODE_ALIGNMENT);
    let ghost start = out@;
    while out.len() < target
        invariant
            start.len() <= out@.len() <= target,
            out@.subrange(0, start.len() as int) == start,
            forall|j: int| start.len() <= j < out@.len() ==> out@[j] == 0,
        decreases target - out@.len(),
    {
        out.push(0);
        assert(out@.subrange(0, start.len() as int) =~= start);
    }
}

/// The std430 array of bottom-level nodes, padded to the node alignment.
pub fn serialize_blas_records(rs: &Vec<BlasNodeRecord>) -> (out: Vec<u8>)
    requires
        rs.len() * BLAS_NODE_STRIDE + NODE_ALIGNMENT <= usize::MAX,
    ensures
        out@.len() == padded_len(rs.len() as int, BLAS_NODE_STRIDE as int),
        out@.subrange(0, rs.len() * BLAS_NODE_STRIDE) == blas_array_bytes(rs@),
        forall|j: int| rs.len() * BLAS_NODE_STRIDE <= j < out@.len() ==> out@[j] == 0,
{
    let mut out: Vec<u8> = Vec::new();
    let mut i: usize = 0;
    while i < rs.len()
        invariant
            i <= rs.len(),
            rs.len() * BLAS_NODE_STRIDE + NODE_ALIGNMENT <= usize::MAX,
            out@ == blas_array_bytes(rs@.subrange(0, i as int)),
            out@.len() == i * BLAS_NODE_STRIDE,
        decreases rs.len() - i,
    {
        write_blas_record(&mut out, &rs[i]);
        proof {
            let next = rs@.subrange(0, i + 1);
            assert(next.drop_last() =~= rs@.subrange(0, i as int));
            lemma_blas_record_len(rs[i as int]);
        }
        i = i + 1;
        assert(out@.len() == i * BLAS_NODE_STRIDE) by (nonlinear_arith)
            requires out@.len() == (i - 1) * BLAS_NODE_STRIDE + BLAS_NODE_STRIDE;
    }
    assert(rs@.subrange(0, rs.len() as int) =~= rs@);
    let ghost body = out@;
    pad_to_alignment(&mut out);
    assert(out@.subrange(0, rs.len() * BLAS_NODE_STRIDE) == body);
    out
}

/// The std430 array of top-level nodes, padded to the node alignment.
pub fn serialize_tlas_records(rs: &Vec<TlasNodeRecord>) -> (out: Vec<u8>)
    requires
        rs.len() * TLAS_NODE_STRIDE + NODE_ALIGNMENT <= usize::MAX,
    ensures
        out@.len() == padded_len(rs.len() as int, TLAS_NODE_STRIDE as int),
        out@.subrange(0, rs.len() * TLAS_NODE_STRIDE) == tlas_array_bytes(rs@),
        forall|j: int| rs.len() * TLAS_NODE_STRIDE <= j < out@.len() ==> out@[j] == 0,
{
    let mut out: Vec<u8> = Vec::new();
    let mut i: usize = 0;
    while i < rs.len()
        invariant
            i <= rs.len(),
            rs.len() * TLAS_NODE_STRIDE + NODE_ALIGNMENT <= usize::MAX,
            out@ == tlas_array_bytes(rs@.subrange(0, i as int)),
            out@.len() == i * TLAS_NODE_STRIDE,
        decreases rs.len() - i,
    {
        write_tlas_record(&mut out, &rs[i]);
        proof {
            let next = rs@.subrange(0, i + 1);
            assert(next.drop_last() =~= rs@.subrange(0, i as int));
            lemma_tlas_record_len(rs[i as int]);
        }
        i = i + 1;
        assert(out@.len() == i * TLAS_NODE_STRIDE) by (nonlinear_arith)
            requires out@.len() == (i - 1) * TLAS_NODE_STRIDE + TLAS_NODE_STRIDE;
    }
    assert(rs@.subrange(0, rs.len() as int) =~= rs@);
    let ghost body = out@;
    pad_to_alignment(&mut out);
    assert(out@.subrange(0, rs.len() * TLAS_NODE_STRIDE) == body);
    out
}

} // verus!
