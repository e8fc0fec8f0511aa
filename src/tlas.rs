//! The top-level builder: instances of built bottom-level hierarchies to a
//! node array whose leaves carry each instance's payload and transforms.
use crate::aabb::Aabb;
use crate::blas::{BuiltBvh, BvhError, MAX_ELEMENTS};
use crate::bvh::{all_elements, build_flat_bvh, flat_bvh_ok, leaf_elements, FlatNode};
use crate::bytes::{as_i32, read_i32_le, read_u32_le, u32_le};
use crate::staging::StagingBufferStore;
use crate::std430::{
    padded_len, serialize_tlas_records, tlas_array_bytes, TlasNodeRecord, TLAS_NODE_STRIDE,
};
use vstd::prelude::*;

verus! {

/// Bytes in one instance record of a top-level descriptor: seven integers,
/// six floats of the bottom-level box and twelve of the transform.
pub const INSTANCE_RECORD_BYTES: usize = 100;

/// One instance as the descriptor gives it. Floats are held as their bit
/// patterns; the transform is a column-major 4x3 object-to-world matrix.
#[derive(Clone, Copy, Debug)]
pub struct TlasInstanceRecord {
    pub mask: u32,
    pub flags: u32,
    pub instance_id: u32,
    pub sbt_instance_offset: u32,
    pub instance_custom_index: i32,
    pub blas_entry_index: u32,
    pub blas_geometry_id_offset: u32,
    pub blas_aabb: [u32; 6],
    pub transform_to_world_4x3: [u32; 12],
}

/// Word `k` of instance record `i`.
pub open spec fn inst_word(b: Seq<u8>, i: int, k: int) -> u32 {
    u32_le(b, 4 + INSTANCE_RECORD_BYTES * i + 4 * k)
}

/// A top-level descriptor: a positive count and exactly that many records.
pub open spec fn tlas_descriptor_ok(b: Seq<u8>) -> bool {
    &&& b.len() >= 4
    &&& as_i32(u32_le(b, 0)) > 0
    &&& b.len() == 4 + INSTANCE_RECORD_BYTES * as_i32(u32_le(b, 0))
}

/// Record `i` of a well-formed descriptor.
pub open spec fn instance_fields_ok(b: Seq<u8>, i: int, d: TlasInstanceRecord) -> bool {
    &&& d.mask == inst_word(b, i, 0)
    &&& d.flags == inst_word(b, i, 1)
    &&& d.instance_id == inst_word(b, i, 2)
    &&& d.sbt_instance_offset == inst_word(b, i, 3)
    &&& d.instance_custom_index == as_i32(inst_word(b, i, 4))
    &&& d.blas_entry_index == inst_word(b, i, 5)
    &&& d.blas_geometry_id_offset == inst_word(b, i, 6)
    &&& forall|k: int| 0 <= k < 6 ==> #[trigger] d.blas_aabb[k] == inst_word(b, i, 7 + k)
    &&& forall|k: int| 0 <= k < 12 ==> #[trigger] d.transform_to_world_4x3[k] == inst_word(b, i, 13 + k)
}

/// Decodes a top-level descriptor buffer.
pub fn decode_tlas_descriptor(b: &Vec<u8>) -> (r: Result<Vec<TlasInstanceRecord>, BvhError>)
    ensures
        r is Ok <==> tlas_descriptor_ok(b@),
        r is Err ==> r == Err::<Vec<TlasInstanceRecord>, BvhError>(
            BvhError::MalformedDescriptor,
        ),
        r matches Ok(ds) ==> ds.len() == as_i32(u32_le(b@, 0)) && forall|i: int|
            0 <= i < ds.len() ==> instance_fields_ok(b@, i, #[trigger] ds[i]),
{
    let len = b.len();
    if len < 4 {
        return Err(BvhError::MalformedDescriptor);
    }
    let n = read_i32_le(b, 0);
    if n <= 0 || len as u64 != 4 + 100 * (n as u64) {
        return Err(BvhError::MalformedDescriptor);
    }
    let mut ds: Vec<TlasInstanceRecord> = Vec::new();
    let mut i: usize = 0;
    while i < n as usize
        invariant
            0 < n,
            i <= n,
            len == b@.len() == 4 + 100 * n,
            n == as_i32(u32_le(b@, 0)),
            ds.len() == i,
            forall|j: int| 0 <= j < i ==> instance_fields_ok(b@, j, #[trigger] ds[j]),
        decreases n - i,
    {
        let base = 4 + 100 * i;
        assert(base + 100 <= len) by (nonlinear_arith)
            requires base == 4 + 100 * i, i < n, len == 4 + 100 * n;
        let mut w: [u32; 25] = [0; 25];
        let mut k: usize = 0;
        while k < 25
            invariant
                k <= 25,
                base == 4 + 100 * i,
                base + 100 <= len == b@.len(),
                forall|a: int| 0 <= a < k ==> #[trigger] w[a] == inst_word(b@, i as int, a),
            decreases 25 - k,
        {
            w[k] = read_u32_le(b, base + 4 * k);
            k = k + 1;
        }
        let custom = read_i32_le(b, base + 16);
        let d = TlasInstanceRecord {
            mask: w[0],
            flags: w[1],
            instance_id: w[2],
            sbt_instance_offset: w[3],
            instance_custom_index: custom,
            blas_entry_index: w[5],
            blas_geometry_id_offset: w[6],
            blas_aabb: [w[7], w[8], w[9], w[10], w[11], w[12]],
            transform_to_world_4x3: [
                w[13],
                w[14],
                w[15],
                w[16],
                w[17],
                w[18],
                w[19],
                w[20],
                w[21],
                w[22],
                w[23],
                w[24],
            ],
        };
        assert(instance_fields_ok(b@, i as int, d)) by {
            assert(w[4] == inst_word(b@, i as int, 4));
            assert forall|k: int| 0 <= k < 6 implies #[trigger] d.blas_aabb[k] == inst_word(
                b@,
                i as int,
                7 + k,
            ) by {
                assert(w[7 + k] == inst_word(b@, i as int, 7 + k));
            }
            assert forall|k: int| 0 <= k < 12 implies #[trigger] d.transform_to_world_4x3[k]
                == inst_word(b@, i as int, 13 + k) by {
                assert(w[13 + k] == inst_word(b@, i as int, 13 + k));
            }
        }
        ds.push(d);
        i = i + 1;
    }
    Ok(ds)
}

/// An instance ready for the hierarchy: its record, its world-space box and
/// the inverse of its transform (twelve float bit patterns, column-major).
#[derive(Clone, Copy, Debug)]
pub struct TlasInstanceDescriptor {
    pub record: TlasInstanceRecord,
    pub aabb: Aabb,
    pub transform_to_object_4x3: [u32; 12],
}

/// `r` is the record of node `n`: a leaf carries its instance's payload and
/// both transforms, an interior node its first child and zeros.
pub open spec fn tlas_record_ok(
    r: TlasNodeRecord,
    n: FlatNode,
    insts: Seq<TlasInstanceDescriptor>,
) -> bool {
    &&& r.aabb == n.bounds
    &&& r.exit_index == n.exit
    &&& if n.is_leaf {
        let inst = insts[n.element as int];
        &&& r.entry_index == inst.record.blas_entry_index
        &&& r.is_leaf == 1
        &&& r.mask == inst.record.mask
        &&& r.flags == inst.record.flags
        &&& r.instance_id == inst.record.instance_id
        &&& r.sbt_instance_offset == inst.record.sbt_instance_offset
        &&& r.instance_custom_index == inst.record.instance_custom_index
        &&& r.transform_to_world == inst.record.transform_to_world_4x3
        &&& r.transform_to_object == inst.transform_to_object_4x3
        &&& r.blas_geometry_id_offset == inst.record.blas_geometry_id_offset
    } else {
        &&& r.entry_index == n.entry
        &&& r.is_leaf == 0
        &&& r.mask == 0
        &&& r.flags == 0
        &&& r.instance_id == 0
        &&& r.sbt_instance_offset == 0
        &&& r.instance_custom_index == 0
        &&& forall|k: int| 0 <= k < 12 ==> #[trigger] r.transform_to_world[k] == 0
        &&& forall|k: int| 0 <= k < 12 ==> #[trigger] r.transform_to_object[k] == 0
        &&& r.blas_geometry_id_offset == 0
    }
}

/// The world-space boxes of the instances.
pub open spec fn instance_boxes(insts: Seq<TlasInstanceDescriptor>) -> Seq<Aabb> {
    insts.map_values(|i: TlasInstanceDescriptor| i.aabb)
}

/// `bytes` is the padded std430 array of `records`.
pub open spec fn tlas_image_ok(bytes: Seq<u8>, records: Seq<TlasNodeRecord>) -> bool {
    &&& bytes.len() == padded_len(records.len() as int, TLAS_NODE_STRIDE as int)
    &&& bytes.subrange(0, records.len() * TLAS_NODE_STRIDE) == tlas_array_bytes(records)
    &&& forall|j: int| records.len() * TLAS_NODE_STRIDE <= j < bytes.len() ==> bytes[j] == 0
}

/// Builds the top-level hierarchy over `instances` into a new staging buffer.
/// On an error the store is left as it was.
pub fn build_tlas(store: &mut StagingBufferStore, instances: &Vec<TlasInstanceDescriptor>) -> (r:
    Result<BuiltBvh, BvhError>)
    requires
        old(store).wf(),
    ensures
        final(store).wf(),
        r is Ok <==> 1 <= instances.len() <= MAX_ELEMENTS && old(store).next_id() < u32::MAX,
        r is Err ==> *final(store) == *old(store),
        r matches Ok(built) ==> {
            &&& built.serialized.id == old(store).next_id()
            &&& final(store).next_id() == old(store).next_id() + 1
            &&& final(store).contents().remove(built.serialized.id) == old(store).contents()
            &&& final(store).contents().contains_key(built.serialized.id)
            &&& exists|nodes: Seq<FlatNode>, records: Seq<TlasNodeRecord>|
                #[trigger] flat_bvh_ok(nodes, instance_boxes(instances@)) && nodes.len()
                    == built.num_nodes && leaf_elements(nodes).to_multiset() == all_elements(
                    instances.len() as nat,
                ).to_multiset() && #[trigger] tlas_image_ok(
                    final(store).contents()[built.serialized.id],
                    records,
                ) && records.len() == nodes.len() && forall|i: int|
                    0 <= i < nodes.len() ==> tlas_record_ok(#[trigger] records[i], nodes[i], instances@)
        },
{
    if instances.len() == 0 || instances.len() > MAX_ELEMENTS {
        return Err(BvhError::ElementCount);
    }
    let mut boxes: Vec<Aabb> = Vec::new();
    let mut k: usize = 0;
    while k < instances.len()
        invariant
            k <= instances.len(),
            boxes@ == instance_boxes(instances@).subrange(0, k as int),
        decreases instances.len() - k,
    {
        boxes.push(instances[k].aabb);
        k = k + 1;
        assert(boxes@ =~= instance_boxes(instances@).subrange(0, k as int));
    }
    assert(boxes@ =~= instance_boxes(instances@));
    let nodes = build_flat_bvh(&boxes);
    let mut records: Vec<TlasNodeRecord> = Vec::new();
    let mut i: usize = 0;
    while i < nodes.len()
        invariant
            i <= nodes.len(),
            nodes.len() == 2 * boxes.len() - 1,
            boxes.len() == instances.len() <= MAX_ELEMENTS,
            flat_bvh_ok(nodes@, boxes@),
            records.len() == i,
            forall|j: int|
                0 <= j < i ==> tlas_record_ok(#[trigger] records@[j], nodes@[j], instances@),
        decreases nodes.len() - i,
    {
        let n = nodes[i];
        assert(crate::bvh::node_ok(nodes@, boxes@, i as int, nodes.len() as int));
        let rec = if n.is_leaf {
            let inst = &instances[n.element as usize];
            TlasNodeRecord {
                aabb: n.bounds,
                entry_index: inst.record.blas_entry_index,
                exit_index: n.exit,
                is_leaf: 1,
                mask: inst.record.mask,
                flags: inst.record.flags,
                instance_id: inst.record.instance_id,
                sbt_instance_offset: inst.record.sbt_instance_offset,
                instance_custom_index: inst.record.instance_custom_index,
                transform_to_world: inst.record.transform_to_world_4x3,
                transform_to_object: inst.transform_to_object_4x3,
                blas_geometry_id_offset: inst.record.blas_geometry_id_offset,
            }
        } else {
            TlasNodeRecord {
                aabb: n.bounds,
                entry_index: n.entry,
                exit_index: n.exit,
                is_leaf: 0,
                mask: 0,
                flags: 0,
                instance_id: 0,
                sbt_instance_offset: 0,
                instance_custom_index: 0,
                transform_to_world: [0u32; 12],
                transform_to_object: [0u32; 12],
                blas_geometry_id_offset: 0,
            }
        };
        assert(tlas_record_ok(rec, nodes@[i as int], instances@));
        records.push(rec);
        i = i + 1;
    }
    let ghost rs = records@;
    let bytes = serialize_tlas_records(&records);
    let num_nodes = nodes.len() as u32;
    match store.insert_new(bytes) {
        None => Err(BvhError::OutOfIds),
        Some(sb) => {
            proof {
                assert(final(store).contents().remove(sb.id) =~= old(store).contents());
                assert(tlas_image_ok(store.contents()[sb.id], rs));
            }
            Ok(BuiltBvh { serialized: sb, num_nodes })
        },
    }
}

} // verus!
