//! The bottom-level builder: geometry descriptors to a node array of
//! primitives.
use crate::aabb::{key_of_bits, max_u32, min_u32, order_key, Aabb};
use crate::bvh::{build_flat_bvh, flat_bvh_ok, leaf_elements, all_elements, FlatNode};
use crate::bytes::{as_i32, i32_word, read_i32_le, read_u32_le, u32_le, word_of_i32};
use crate::staging::{StagingBuffer, StagingBufferStore};
use crate::std430::{
    blas_array_bytes, padded_len, serialize_blas_records, BlasNodeRecord, BLAS_NODE_STRIDE,
};
use vstd::prelude::*;

verus! {

/// The most elements a hierarchy may hold, so that its `2n - 1` node records
/// fit in a 32-bit address space.
pub const MAX_ELEMENTS: usize = 0x0080_0000;

/// `geometry_id` of an interior bottom-level node.
pub const INTERIOR_NODE_GEOMETRY_ID: i32 = -1;

/// Words in one geometry record of a bottom-level descriptor.
pub const GEOMETRY_RECORD_WORDS: usize = 6;

/// Why a build stopped.
#[derive(Clone, Copy, Debug, PartialEq, Eq, Structural)]
pub enum BvhError {
    /// No live staging buffer has this id.
    MissingBuffer(u32),
    /// The descriptor's header, length or a record field is out of shape.
    MalformedDescriptor,
    /// An index or a coordinate lies outside its buffer.
    OutOfRange,
    /// No elements, or more than [`MAX_ELEMENTS`].
    ElementCount,
    /// Every staging-buffer id has been handed out.
    OutOfIds,
}

#[derive(Clone, Copy, Debug, PartialEq, Eq, Structural)]
pub enum GeometryType {
    Triangle,
    Aabb,
}

impl GeometryType {
    /// The type with descriptor code `v`: 0 for triangles, 1 for boxes.
    pub fn from_code(v: i32) -> (r: Option<GeometryType>)
        ensures
            v == 0 ==> r == Some(GeometryType::Triangle),
            v == 1 ==> r == Some(GeometryType::Aabb),
            v != 0 && v != 1 ==> r is None,
    {
        if v == 0 {
            Some(GeometryType::Triangle)
        } else if v == 1 {
            Some(GeometryType::Aabb)
        } else {
            None
        }
    }
}

/// One geometry of a bottom-level descriptor. Vertex positions are three
/// floats each; `ibuf` is the index buffer's id and byte offset, if any.
#[derive(Clone, Copy, Debug)]
pub struct GeometryDescriptor {
    pub geometry_type: GeometryType,
    pub num_primitives: u32,
    pub vbuf_id: u32,
    pub vbuf_byte_offset: u32,
    pub ibuf: Option<(u32, u32)>,
}

/// One primitive of a bottom-level hierarchy.
#[derive(Clone, Copy, Debug, PartialEq, Eq, Structural)]
pub struct Primitive {
    /// Index of its geometry in the descriptor.
    pub blas_local_geometry_id: u32,
    /// Index among all primitives of the hierarchy.
    pub within_blas_primitive_id: u32,
    /// Index within its geometry.
    pub primitive_id: u32,
}

/// Word `k` of a descriptor, as a signed integer.
pub open spec fn desc_word(b: Seq<u8>, k: int) -> i32 {
    as_i32(u32_le(b, 4 * k))
}

/// A bottom-level descriptor: `[num_geoms, num_total_primitives]` and then six
/// words per geometry `[type, num_primitives, vbuf_id, vbuf_byte_offset,
/// ibuf_id, ibuf_byte_offset]`, with positive counts and known types.
pub open spec fn blas_descriptor_ok(b: Seq<u8>) -> bool {
    let n = desc_word(b, 0) as int;
    &&& b.len() >= 8
    &&& n > 0
    &&& desc_word(b, 1) > 0
    &&& b.len() / 4 == 2 + 6 * n
    &&& forall|g: int|
        0 <= g < n ==> (#[trigger] desc_word(b, 2 + 6 * g) == 0 || desc_word(b, 2 + 6 * g) == 1)
            && desc_word(b, 3 + 6 * g) >= 0
}

/// Geometry `g` of a well-formed descriptor. An index buffer counts only for
/// triangles, and only with a non-negative id.
pub open spec fn geometry_of(b: Seq<u8>, g: int) -> GeometryDescriptor {
    let base = 2 + 6 * g;
    GeometryDescriptor {
        geometry_type: if desc_word(b, base) == 0 {
            GeometryType::Triangle
        } else {
            GeometryType::Aabb
        },
        num_primitives: i32_word(desc_word(b, base + 1)),
        vbuf_id: i32_word(desc_word(b, base + 2)),
        vbuf_byte_offset: i32_word(desc_word(b, base + 3)),
        ibuf: if desc_word(b, base) == 0 && desc_word(b, base + 4) >= 0 {
            Some((i32_word(desc_word(b, base + 4)), i32_word(desc_word(b, base + 5))))
        } else {
            None
        },
    }
}

/// Decodes a bottom-level descriptor buffer.
pub fn decode_blas_descriptor(b: &Vec<u8>) -> (r: Result<Vec<GeometryDescriptor>, BvhError>)
    ensures
        r is Ok <==> blas_descriptor_ok(b@),
        r is Err ==> r == Err::<Vec<GeometryDescriptor>, BvhError>(BvhError::MalformedDescriptor),
        r matches Ok(gs) ==> gs.len() == desc_word(b@, 0) && forall|g: int|
            0 <= g < gs.len() ==> gs[g] == geometry_of(b@, g),
{
    let len = b.len();
    if len < 8 {
        return Err(BvhError::MalformedDescriptor);
    }
    let n = read_i32_le(b, 0);
    let total = read_i32_le(b, 4);
    if n <= 0 || total <= 0 {
        return Err(BvhError::MalformedDescriptor);
    }
    if (len / 4) as u64 != 2 + 6 * (n as u64) {
        return Err(BvhError::MalformedDescriptor);
    }
    let mut gs: Vec<GeometryDescriptor> = Vec::new();
    let mut g: usize = 0;
    while g < n as usize
        invariant
            g <= n,
            n == desc_word(b@, 0),
            n > 0,
            total == desc_word(b@, 1),
            total > 0,
            len == b@.len(),
            len >= 8,
            len / 4 == 2 + 6 * n,
            gs.len() == g,
            forall|h: int| 0 <= h < g ==> gs[h] == geometry_of(b@, h),
            forall|h: int|
                0 <= h < g ==> (#[trigger] desc_word(b@, 2 + 6 * h) == 0 || desc_word(
                    b@,
                    2 + 6 * h,
                ) == 1) && desc_word(b@, 3 + 6 * h) >= 0,
        decreases n - g,
    {
        let base = 4 * (2 + 6 * g);
        proof {
            assert(4 * (2 + 6 * g) + 4 == 4 * (2 + 6 * g + 1));
            assert(4 * (2 + 6 * g) + 8 == 4 * (2 + 6 * g + 2));
            assert(4 * (2 + 6 * g) + 12 == 4 * (2 + 6 * g + 3));
            assert(4 * (2 + 6 * g) + 16 == 4 * (2 + 6 * g + 4));
            assert(4 * (2 + 6 * g) + 20 == 4 * (2 + 6 * g + 5));
        }
        let code = read_i32_le(b, base);
        let np = read_i32_le(b, base + 4);
        let vbuf_id = read_i32_le(b, base + 8);
        let vbuf_off = read_i32_le(b, base + 12);
        let ibuf_id = read_i32_le(b, base + 16);
        let ibuf_off = read_i32_le(b, base + 20);
        assert(code == desc_word(b@, 2 + 6 * g));
        assert(np == desc_word(b@, 3 + 6 * g));
        let geometry_type = match GeometryType::from_code(code) {
            Some(t) => t,
            None => {
                return Err(BvhError::MalformedDescriptor);
            },
        };
        if np < 0 {
            return Err(BvhError::MalformedDescriptor);
        }
        let ibuf = if code == 0 && ibuf_id >= 0 {
            Some((word_of_i32(ibuf_id), word_of_i32(ibuf_off)))
        } else {
            None
        };
        gs.push(
            GeometryDescriptor {
                geometry_type,
                num_primitives: word_of_i32(np),
                vbuf_id: word_of_i32(vbuf_id),
                vbuf_byte_offset: word_of_i32(vbuf_off),
                ibuf,
            },
        );
        g = g + 1;
    }
    assert(blas_descriptor_ok(b@));
    Ok(gs)
}

/// Primitives of the geometries before geometry `g`.
pub open spec fn prims_before(gs: Seq<GeometryDescriptor>, g: int) -> int
    decreases g,
{
    if g <= 0 {
        0
    } else {
        prims_before(gs, g - 1) + gs[g - 1].num_primitives
    }
}

/// `ps` lists the primitives of `gs` in descriptor order: geometry by
/// geometry, and within a geometry by primitive id.
pub open spec fn primitive_list_ok(gs: Seq<GeometryDescriptor>, ps: Seq<Primitive>) -> bool {
    &&& ps.len() == prims_before(gs, gs.len() as int)
    &&& forall|k: int|
        0 <= k < ps.len() ==> {
            let p = #[trigger] ps[k];
            let g = p.blas_local_geometry_id as int;
            &&& p.within_blas_primitive_id == k
            &&& g < gs.len()
            &&& prims_before(gs, g) <= k < prims_before(gs, g + 1)
            &&& p.primitive_id == k - prims_before(gs, g)
        }
}

pub proof fn lemma_prims_before_monotone(gs: Seq<GeometryDescriptor>, g: int, h: int)
    requires
        g <= h,
    ensures
        prims_before(gs, g) <= prims_before(gs, h),
    decreases h - g,
{
    if g < h {
        lemma_prims_before_monotone(gs, g, h - 1);
    }
}

/// The primitives of all geometries, in descriptor order.
pub fn blas_primitives(gs: &Vec<GeometryDescriptor>) -> (r: Result<Vec<Primitive>, BvhError>)
    requires
        gs.len() <= 0x7FFF_FFFF,
    ensures
        r is Ok <==> 1 <= prims_before(gs@, gs.len() as int) <= MAX_ELEMENTS,
        r is Err ==> r == Err::<Vec<Primitive>, BvhError>(BvhError::ElementCount),
        r matches Ok(ps) ==> primitive_list_ok(gs@, ps@),
{
    let mut total: u64 = 0;
    let mut g: usize = 0;
    while g < gs.len()
        invariant
            g <= gs.len(),
            total == prims_before(gs@, g as int),
            total <= MAX_ELEMENTS,
        decreases gs.len() - g,
    {
        total = total + gs[g].num_primitives as u64;
        g = g + 1;
        if total > MAX_ELEMENTS as u64 {
            proof {
                lemma_prims_before_monotone(gs@, g as int, gs.len() as int);
            }
            return Err(BvhError::ElementCount);
        }
    }
    if total == 0 {
        return Err(BvhError::ElementCount);
    }
    let mut ps: Vec<Primitive> = Vec::new();
    let mut g: usize = 0;
    while g < gs.len()
        invariant
            g <= gs.len() <= 0x7FFF_FFFF,
            total == prims_before(gs@, gs.len() as int) <= MAX_ELEMENTS,
            ps.len() == prims_before(gs@, g as int),
            forall|k: int|
                0 <= k < ps.len() ==> {
                    let p = #[trigger] ps@[k];
                    let h = p.blas_local_geometry_id as int;
                    &&& p.within_blas_primitive_id == k
                    &&& h < g
                    &&& prims_before(gs@, h) <= k < prims_before(gs@, h + 1)
                    &&& p.primitive_id == k - prims_before(gs@, h)
                },
        decreases gs.len() - g,
    {
        let np = gs[g].num_primitives;
        proof {
            lemma_prims_before_monotone(gs@, g + 1, gs.len() as int);
        }
        let mut pi: u32 = 0;
        while pi < np
            invariant
                g < gs.len() <= 0x7FFF_FFFF,
                np == gs[g as int].num_primitives,
                pi <= np,
                prims_before(gs@, g + 1) <= MAX_ELEMENTS,
                ps.len() == prims_before(gs@, g as int) + pi,
                forall|k: int|
                    0 <= k < ps.len() ==> {
                        let p = #[trigger] ps@[k];
                        let h = p.blas_local_geometry_id as int;
                        &&& p.within_blas_primitive_id == k
                        &&& h <= g
                        &&& prims_before(gs@, h) <= k < prims_before(gs@, h + 1)
                        &&& p.primitive_id == k - prims_before(gs@, h)
                    },
            decreases np - pi,
        {
            ps.push(
                Primitive {
                    blas_local_geometry_id: g as u32,
                    within_blas_primitive_id: ps.len() as u32,
                    primitive_id: pi,
                },
            );
            pi = pi + 1;
        }
        g = g + 1;
    }
    Ok(ps)
}

/// Four bytes can be read at byte `off` of `b`.
pub open spec fn in_bounds(b: Seq<u8>, off: int) -> bool {
    0 <= off && off + 4 <= b.len()
}

/// Index of vertex `j` of triangle `pid`: from the index buffer if there is
/// one, else consecutive.
pub open spec fn vertex_index(c: Map<u32, Seq<u8>>, g: GeometryDescriptor, pid: int, j: int) -> int {
    match g.ibuf {
        None => 3 * pid + j,
        Some((id, off)) => u32_le(c[id], off + 4 * (3 * pid + j)) as int,
    }
}

/// The order key of coordinate `axis` of vertex `vi`: three floats per vertex.
pub open spec fn coord_key(vb: Seq<u8>, off: int, vi: int, axis: int) -> u32 {
    key_of_bits(u32_le(vb, off + 4 * (3 * vi + axis)))
}

/// Every word that primitive `pid` of `g` needs lies in a live buffer.
pub open spec fn primitive_readable(c: Map<u32, Seq<u8>>, g: GeometryDescriptor, pid: int) -> bool {
    let off = g.vbuf_byte_offset as int;
    &&& c.contains_key(g.vbuf_id)
    &&& match g.geometry_type {
        GeometryType::Aabb => in_bounds(c[g.vbuf_id], off + 20),
        GeometryType::Triangle => {
            &&& match g.ibuf {
                None => true,
                Some((id, ioff)) => c.contains_key(id) && in_bounds(c[id], ioff + 4 * (3 * pid + 2)),
            }
            &&& forall|j: int|
                0 <= j < 3 ==> in_bounds(
                    c[g.vbuf_id],
                    off + 4 * (3 * #[trigger] vertex_index(c, g, pid, j) + 2),
                )
        },
    }
}

/// `b` bounds primitive `pid` of `g`: its three vertices, or the six floats
/// `min.xyz, max.xyz` at the start of the geometry's view.
pub open spec fn primitive_bounds(
    c: Map<u32, Seq<u8>>,
    g: GeometryDescriptor,
    pid: int,
    b: Aabb,
) -> bool {
    let vb = c[g.vbuf_id];
    let off = g.vbuf_byte_offset as int;
    match g.geometry_type {
        GeometryType::Aabb => forall|k: int|
            0 <= k < 3 ==> b.min[k] == key_of_bits(u32_le(vb, off + 4 * k)) && b.max[k]
                == key_of_bits(u32_le(vb, off + 12 + 4 * k)),
        GeometryType::Triangle => forall|k: int|
            0 <= k < 3 ==> {
                let a0 = coord_key(vb, off, vertex_index(c, g, pid, 0), k);
                let a1 = coord_key(vb, off, vertex_index(c, g, pid, 1), k);
                let a2 = coord_key(vb, off, vertex_index(c, g, pid, 2), k);
                &&& #[trigger] b.min[k] == min_u32(min_u32(a0, a1), a2)
                &&& b.max[k] == max_u32(max_u32(a0, a1), a2)
            },
    }
}

/// The word at byte `off`, if four bytes are there.
fn word_at(b: &Vec<u8>, off: u64) -> (r: Option<u32>)
    ensures
        r is Some <==> in_bounds(b@, off as int),
        r matches Some(w) ==> w == u32_le(b@, off as int),
{
    let len = b.len() as u64;
    if off <= len && len - off >= 4 {
        Some(read_u32_le(b, off as usize))
    } else {
        None
    }
}

/// The keys of vertex `vi`'s coordinates.
fn vertex_keys(vb: &Vec<u8>, off: u64, vi: u64) -> (r: Option<[u32; 3]>)
    requires
        off <= u32::MAX,
        vi <= 4 * (u32::MAX as int),
    ensures
        r is Some <==> in_bounds(vb@, off + 4 * (3 * vi + 2)),
        r matches Some(p) ==> forall|k: int| 0 <= k < 3 ==> p[k] == coord_key(vb@, off as int, vi as int, k),
{
    let base = off + 12 * vi;
    let _len = vb.len();
    match word_at(vb, base + 8) {
        None => None,
        Some(z) => {
            assert(base + 8 == off + 4 * (3 * vi + 2));
            assert(base + 4 == off + 4 * (3 * vi + 1));
            assert(base == off + 4 * (3 * vi + 0));
            let x = read_u32_le(vb, base as usize);
            let y = read_u32_le(vb, (base + 4) as usize);
            let r = [order_key(x), order_key(y), order_key(z)];
            assert(r[0] == coord_key(vb@, off as int, vi as int, 0));
            assert(r[1] == coord_key(vb@, off as int, vi as int, 1));
            assert(r[2] == coord_key(vb@, off as int, vi as int, 2));
            Some(r)
        },
    }
}

/// The bounds of primitive `pid` of geometry `g`.
pub fn primitive_aabb(store: &StagingBufferStore, g: &GeometryDescriptor, pid: u32) -> (r: Result<
    Aabb,
    BvhError,
>)
    ensures
        r is Ok <==> primitive_readable(store.contents(), *g, pid as int),
        r matches Ok(b) ==> primitive_bounds(store.contents(), *g, pid as int, b),
{
    let vb = match store.get(g.vbuf_id) {
        Some(v) => v,
        None => {
            return Err(BvhError::MissingBuffer(g.vbuf_id));
        },
    };
    let off = g.vbuf_byte_offset as u64;
    match g.geometry_type {
        GeometryType::Aabb => {
            match word_at(vb, off + 20) {
                None => Err(BvhError::OutOfRange),
                Some(_) => {
                    let mut lo: [u32; 3] = [0, 0, 0];
                    let mut hi: [u32; 3] = [0, 0, 0];
                    let mut k: usize = 0;
                    let _len = vb.len();
                    while k < 3
                        invariant
                            k <= 3,
                            off <= u32::MAX,
                            in_bounds(vb@, off + 20),
                            vb@.len() <= usize::MAX,
                            forall|a: int|
                                0 <= a < k ==> lo[a] == u32_le(vb@, off + 4 * a) && hi[a] == u32_le(
                                    vb@,
                                    off + 12 + 4 * a,
                                ),
                        decreases 3 - k,
                    {
                        lo[k] = read_u32_le(vb, (off + 4 * k as u64) as usize);
                        hi[k] = read_u32_le(vb, (off + 12 + 4 * k as u64) as usize);
                        k = k + 1;
                    }
                    Ok(Aabb::from_bits(lo, hi))
                },
            }
        },
        GeometryType::Triangle => {
            let base = 3 * pid as u64;
            let ghost c = store.contents();
            let vi: [u64; 3] = match g.ibuf {
                None => [base, base + 1, base + 2],
                Some((id, ioff)) => {
                    let ib = match store.get(id) {
                        Some(v) => v,
                        None => {
                            return Err(BvhError::MissingBuffer(id));
                        },
                    };
                    let ibase = ioff as u64 + 4 * base;
                    if word_at(ib, ibase + 8).is_none() {
                        return Err(BvhError::OutOfRange);
                    }
                    let _len = ib.len();
                    assert(ibase + 8 == ioff + 4 * (3 * pid + 2));
                    assert(ibase + 4 == ioff + 4 * (3 * pid + 1));
                    assert(ibase == ioff + 4 * (3 * pid + 0));
                    [
                        read_u32_le(ib, ibase as usize) as u64,
                        read_u32_le(ib, (ibase + 4) as usize) as u64,
                        read_u32_le(ib, (ibase + 8) as usize) as u64,
                    ]
                },
            };
            assert(vi[0] == vertex_index(c, *g, pid as int, 0));
            assert(vi[1] == vertex_index(c, *g, pid as int, 1));
            assert(vi[2] == vertex_index(c, *g, pid as int, 2));
            let keys0 = vertex_keys(vb, off, vi[0]);
            let keys1 = vertex_keys(vb, off, vi[1]);
            let keys2 = vertex_keys(vb, off, vi[2]);
            match (keys0, keys1, keys2) {
                (Some(a), Some(b), Some(c)) => Ok(Aabb::of_points(a, b, c)),
                _ => {
                    proof {
                        let ghost j: int = if keys0 is None { 0 } else if keys1 is None { 1 } else { 2 };
                        assert(!in_bounds(vb@, off + 4 * (3 * vertex_index(store.contents(), *g, pid as int, j) + 2)));
                    }
                    Err(BvhError::OutOfRange)
                },
            }
        },
    }
}

/// A finished hierarchy: its node array in a fresh staging buffer.
#[derive(Clone, Copy, Debug)]
pub struct BuiltBvh {
    pub serialized: StagingBuffer,
    pub num_nodes: u32,
}

/// The geometries of a well-formed descriptor.
pub open spec fn geometries_of(b: Seq<u8>) -> Seq<GeometryDescriptor> {
    Seq::new(desc_word(b, 0) as nat, |g: int| geometry_of(b, g))
}

/// The record of a bottom-level node: a leaf names its primitive and the
/// primitive's geometry, an interior node its first child and geometry -1.
pub open spec fn blas_record_of(n: FlatNode, prims: Seq<Primitive>) -> BlasNodeRecord {
    if n.is_leaf {
        let p = prims[n.element as int];
        BlasNodeRecord {
            aabb: n.bounds,
            entry_index_or_primitive_id: p.primitive_id,
            exit_index: n.exit,
            geometry_id: p.blas_local_geometry_id as i32,
        }
    } else {
        BlasNodeRecord {
            aabb: n.bounds,
            entry_index_or_primitive_id: n.entry,
            exit_index: n.exit,
            geometry_id: INTERIOR_NODE_GEOMETRY_ID,
        }
    }
}

/// Buffer `id` holds a descriptor whose primitives can all be bounded.
pub open spec fn blas_input_ok(c: Map<u32, Seq<u8>>, id: u32) -> bool {
    &&& c.contains_key(id)
    &&& blas_descriptor_ok(c[id])
    &&& 1 <= prims_before(geometries_of(c[id]), desc_word(c[id], 0) as int) <= MAX_ELEMENTS
    &&& forall|g: int, pid: int|
        0 <= g < desc_word(c[id], 0) && 0 <= pid < geometry_of(c[id], g).num_primitives
            ==> #[trigger] primitive_readable(c, geometry_of(c[id], g), pid)
}

/// `bytes` is the padded std430 array of `records`.
pub open spec fn blas_image_ok(bytes: Seq<u8>, records: Seq<BlasNodeRecord>) -> bool {
    &&& bytes.len() == padded_len(records.len() as int, BLAS_NODE_STRIDE as int)
    &&& bytes.subrange(0, records.len() * BLAS_NODE_STRIDE) == blas_array_bytes(records)
    &&& forall|j: int| records.len() * BLAS_NODE_STRIDE <= j < bytes.len() ==> bytes[j] == 0
}

/// `nodes` is a hierarchy over the primitives of `gs`, each leaf bounding its
/// primitive as the buffers of `c` give it.
pub open spec fn blas_tree_ok(
    c: Map<u32, Seq<u8>>,
    gs: Seq<GeometryDescriptor>,
    prims: Seq<Primitive>,
    boxes: Seq<Aabb>,
    nodes: Seq<FlatNode>,
) -> bool {
    &&& primitive_list_ok(gs, prims)
    &&& boxes.len() == prims.len()
    &&& forall|k: int|
        0 <= k < prims.len() ==> primitive_bounds(
            c,
            gs[prims[k].blas_local_geometry_id as int],
            prims[k].primitive_id as int,
            #[trigger] boxes[k],
        )
    &&& flat_bvh_ok(nodes, boxes)
    &&& leaf_elements(nodes).to_multiset() == all_elements(boxes.len()).to_multiset()
}

/// Builds the bottom-level hierarchy of descriptor buffer
/// `blas_descriptor_buffer_id` into a new staging buffer. On an error the
/// store is left as it was.
pub fn build_blas(store: &mut StagingBufferStore, blas_descriptor_buffer_id: u32) -> (r: Result<
    BuiltBvh,
    BvhError,
>)
    requires
        old(store).wf(),
    ensures
        final(store).wf(),
        r is Ok <==> blas_input_ok(old(store).contents(), blas_descriptor_buffer_id)
            && old(store).next_id() < u32::MAX,
        r is Err ==> *final(store) == *old(store),
        r matches Ok(built) ==> {
            let c = old(store).contents();
            let gs = geometries_of(c[blas_descriptor_buffer_id]);
            &&& built.serialized.id == old(store).next_id()
            &&& final(store).next_id() == old(store).next_id() + 1
            &&& final(store).contents().remove(built.serialized.id) == c
            &&& final(store).contents().contains_key(built.serialized.id)
            &&& exists|prims: Seq<Primitive>, boxes: Seq<Aabb>, nodes: Seq<FlatNode>|
                #[trigger] blas_tree_ok(c, gs, prims, boxes, nodes) && nodes.len() == built.num_nodes
                    && blas_image_ok(
                    final(store).contents()[built.serialized.id],
                    nodes.map_values(|n: FlatNode| blas_record_of(n, prims)),
                )
        },
{
    let ghost c = store.contents();
    let desc = match store.get(blas_descriptor_buffer_id) {
        Some(d) => d,
        None => {
            return Err(BvhError::MissingBuffer(blas_descriptor_buffer_id));
        },
    };
    let gs = decode_blas_descriptor(desc)?;
    let ghost d = c[blas_descriptor_buffer_id];
    assert(gs@ =~= geometries_of(d));
    let ps = blas_primitives(&gs)?;
    let mut boxes: Vec<Aabb> = Vec::new();
    let mut k: usize = 0;
    while k < ps.len()
        invariant
            *store == *old(store),
            old(store).wf(),
            c == store.contents(),
            d == c[blas_descriptor_buffer_id],
            blas_descriptor_ok(d),
            gs@ == geometries_of(d),
            primitive_list_ok(gs@, ps@),
            k <= ps.len(),
            boxes.len() == k,
            forall|j: int|
                0 <= j < k ==> primitive_bounds(
                    c,
                    gs@[ps@[j].blas_local_geometry_id as int],
                    ps@[j].primitive_id as int,
                    #[trigger] boxes@[j],
                ),
            forall|j: int|
                0 <= j < k ==> primitive_readable(
                    c,
                    gs@[ps@[j].blas_local_geometry_id as int],
                    #[trigger] ps@[j].primitive_id as int,
                ),
        decreases ps.len() - k,
    {
        let p = ps[k];
        let g = gs[p.blas_local_geometry_id as usize];
        assert(ps@[k as int] == p);
        let b = match primitive_aabb(store, &g, p.primitive_id) {
            Ok(b) => b,
            Err(e) => {
                proof {
                    let gi = p.blas_local_geometry_id as int;
                    assert(geometry_of(d, gi) == g);
                    assert(!primitive_readable(c, geometry_of(d, gi), p.primitive_id as int));
                    assert(!blas_input_ok(c, blas_descriptor_buffer_id));
                }
                return Err(e);
            },
        };
        boxes.push(b);
        k = k + 1;
    }
    proof {
        assert forall|g: int, pid: int|
            0 <= g < desc_word(d, 0) && 0 <= pid < geometry_of(d, g).num_primitives
                implies #[trigger] primitive_readable(c, geometry_of(d, g), pid) by {
            crate::blas::lemma_prims_before_monotone(gs@, g + 1, gs.len() as int);
            let j = prims_before(gs@, g) + pid;
            assert(gs@[g] == geometry_of(d, g));
            lemma_geometry_of_prim(gs@, ps@, j, g);
            assert(primitive_readable(c, gs@[ps@[j].blas_local_geometry_id as int], ps@[j].primitive_id as int));
        }
        assert(blas_input_ok(c, blas_descriptor_buffer_id));
    }
    let nodes = build_flat_bvh(&boxes);
    let mut records: Vec<BlasNodeRecord> = Vec::new();
    let mut i: usize = 0;
    while i < nodes.len()
        invariant
            i <= nodes.len(),
            nodes.len() == 2 * boxes.len() - 1,
            boxes.len() == ps.len() <= MAX_ELEMENTS,
            gs.len() <= 0x7FFF_FFFF,
            flat_bvh_ok(nodes@, boxes@),
            primitive_list_ok(gs@, ps@),
            records.len() == i,
            forall|j: int| 0 <= j < i ==> #[trigger] records@[j] == blas_record_of(nodes@[j], ps@),
        decreases nodes.len() - i,
    {
        let n = nodes[i];
        assert(crate::bvh::node_ok(nodes@, boxes@, i as int, nodes.len() as int));
        let rec = if n.is_leaf {
            let p = ps[n.element as usize];
            BlasNodeRecord {
                aabb: n.bounds,
                entry_index_or_primitive_id: p.primitive_id,
                exit_index: n.exit,
                geometry_id: p.blas_local_geometry_id as i32,
            }
        } else {
            BlasNodeRecord {
                aabb: n.bounds,
                entry_index_or_primitive_id: n.entry,
                exit_index: n.exit,
                geometry_id: INTERIOR_NODE_GEOMETRY_ID,
            }
        };
        records.push(rec);
        i = i + 1;
    }
    let ghost rs = nodes@.map_values(|n: FlatNode| blas_record_of(n, ps@));
    assert(records@ =~= rs);
    let bytes = serialize_blas_records(&records);
    let ghost bv = bytes@;
    let num_nodes = nodes.len() as u32;
    match store.insert_new(bytes) {
        None => Err(BvhError::OutOfIds),
        Some(sb) => {
            proof {
                assert(final(store).contents().remove(sb.id) =~= c);
                assert(blas_tree_ok(c, gs@, ps@, boxes@, nodes@));
                assert(blas_image_ok(store.contents()[sb.id], rs));
            }
            Ok(BuiltBvh { serialized: sb, num_nodes })
        },
    }
}

/// Primitive `prims_before(g) + pid` of the list is primitive `pid` of `g`.
proof fn lemma_geometry_of_prim(gs: Seq<GeometryDescriptor>, ps: Seq<Primitive>, j: int, g: int)
    requires
        primitive_list_ok(gs, ps),
        0 <= g < gs.len(),
        prims_before(gs, g) <= j < prims_before(gs, g + 1),
    ensures
        0 <= j < ps.len(),
        ps[j].blas_local_geometry_id == g,
        ps[j].primitive_id == j - prims_before(gs, g),
{
    lemma_prims_before_monotone(gs, g + 1, gs.len() as int);
    lemma_prims_before_monotone(gs, 0, g);
    assert(0 <= j < ps.len());
    let h = ps[j].blas_local_geometry_id as int;
    if h < g {
        lemma_prims_before_monotone(gs, h + 1, g);
    } else if h > g {
        lemma_prims_before_monotone(gs, g + 1, h);
    }
}

} // verus!
