use webrtx::aabb::Aabb;
use webrtx::blas::{build_blas, decode_blas_descriptor, BvhError, GeometryType};
use webrtx::bvh::{build_flat_bvh, FlatNode, SENTINEL};
use webrtx::staging::{StagingBuffer, StagingBufferStore};
use webrtx::std430::{BLAS_NODE_STRIDE, TLAS_NODE_STRIDE};
use webrtx::tlas::{build_tlas, decode_tlas_descriptor, TlasInstanceDescriptor};

fn i32_bytes(words: &[i32]) -> Vec<u8> {
    words.iter().flat_map(|w| w.to_le_bytes()).collect()
}

fn f32_bytes(values: &[f32]) -> Vec<u8> {
    values.iter().flat_map(|v| v.to_le_bytes()).collect()
}

fn word(b: &[u8], i: usize) -> u32 {
    u32::from_le_bytes([b[4 * i], b[4 * i + 1], b[4 * i + 2], b[4 * i + 3]])
}

fn float(b: &[u8], i: usize) -> f32 {
    f32::from_bits(word(b, i))
}


fn put(store: &mut StagingBufferStore, bytes: Vec<u8>) -> u32 {
    store.insert_new(bytes).unwrap().id
}

fn cube(lo: f32, hi: f32) -> Aabb {
    Aabb::from_bits([lo.to_bits(); 3], [hi.to_bits(); 3])
}

#[test]
fn blas_single_triangle_without_index_buffer() {
    let mut store = StagingBufferStore::new();
    let vb = put(&mut store, f32_bytes(&[0.0, 0.0, 0.0, 1.0, 0.0, 0.0, 0.0, 1.0, 0.0]));
    let desc = put(&mut store, i32_bytes(&[1, 1, 0, 1, vb as i32, 0, -1, 0]));
    let built = build_blas(&mut store, desc).unwrap();
    assert_eq!(built.num_nodes, 1);
    let out = store.get(built.serialized.id).unwrap();
    assert_eq!(out.len(), BLAS_NODE_STRIDE);
    assert_eq!([float(out, 0), float(out, 1), float(out, 2)], [0.0, 0.0, 0.0]);
    assert_eq!([float(out, 4), float(out, 5), float(out, 6)], [1.0, 1.0, 0.0]);
    assert_eq!(word(out, 8), 0);
    assert_eq!(word(out, 9), 0xFFFF_FFFF);
    assert_eq!(word(out, 10) as i32, 0);
}

#[test]
fn blas_two_aabbs() {
    let mut store = StagingBufferStore::new();
    let vb0 = put(&mut store, f32_bytes(&[0.0, 0.0, 0.0, 1.0, 1.0, 1.0]));
    let vb1 = put(&mut store, f32_bytes(&[2.0, 2.0, 2.0, 3.0, 3.0, 3.0]));
    let desc = put(
        &mut store,
        i32_bytes(&[2, 2, 1, 1, vb0 as i32, 0, -1, 0, 1, 1, vb1 as i32, 0, -1, 0]),
    );
    let built = build_blas(&mut store, desc).unwrap();
    assert_eq!(built.num_nodes, 3);
    let out = store.get(built.serialized.id).unwrap();
    assert_eq!(out.len(), 3 * BLAS_NODE_STRIDE);
    let w = BLAS_NODE_STRIDE / 4;
    assert_eq!([float(out, 0), float(out, 1), float(out, 2)], [0.0, 0.0, 0.0]);
    assert_eq!([float(out, 4), float(out, 5), float(out, 6)], [3.0, 3.0, 3.0]);
    assert_eq!(word(out, 8), 1);
    assert_eq!(word(out, 9), 0xFFFF_FFFF);
    assert_eq!(word(out, 10) as i32, -1);
    let mut geometry_ids = vec![word(out, w + 10) as i32, word(out, 2 * w + 10) as i32];
    geometry_ids.sort();
    assert_eq!(geometry_ids, vec![0, 1]);
    assert_eq!(word(out, w + 8), 0);
    assert_eq!(word(out, 2 * w + 8), 0);
    assert_eq!(word(out, w + 9), 2);
    assert_eq!(word(out, 2 * w + 9), 0xFFFF_FFFF);
    let first_is_geometry_0 = word(out, w + 10) == 0;
    let lo = if first_is_geometry_0 { 0.0 } else { 2.0 };
    assert_eq!(float(out, w), lo);
}

#[test]
fn blas_indexed_triangles() {
    let mut store = StagingBufferStore::new();
    let vb = put(
        &mut store,
        f32_bytes(&[0.0, 0.0, 0.0, 4.0, 0.0, 0.0, 0.0, 5.0, 0.0, 0.0, 0.0, -6.0]),
    );
    let ib = put(&mut store, i32_bytes(&[0, 1, 2, 3, 1, 2]));
    let desc = put(&mut store, i32_bytes(&[1, 2, 0, 2, vb as i32, 0, ib as i32, 0]));
    let built = build_blas(&mut store, desc).unwrap();
    assert_eq!(built.num_nodes, 3);
    let out = store.get(built.serialized.id).unwrap();
    assert_eq!([float(out, 0), float(out, 1), float(out, 2)], [0.0, 0.0, -6.0]);
    assert_eq!([float(out, 4), float(out, 5), float(out, 6)], [4.0, 5.0, 0.0]);
    let w = BLAS_NODE_STRIDE / 4;
    let mut prims = vec![word(out, w + 8), word(out, 2 * w + 8)];
    prims.sort();
    assert_eq!(prims, vec![0, 1]);
}

#[test]
fn blas_errors() {
    let mut store = StagingBufferStore::new();
    assert_eq!(build_blas(&mut store, 7).unwrap_err(), BvhError::MissingBuffer(7));
    let bad = put(&mut store, i32_bytes(&[1, 1, 0, 1, 0, 0, -1]));
    assert_eq!(build_blas(&mut store, bad).unwrap_err(), BvhError::MalformedDescriptor);
    let bad_type = put(&mut store, i32_bytes(&[1, 1, 5, 1, 0, 0, -1, 0]));
    assert_eq!(build_blas(&mut store, bad_type).unwrap_err(), BvhError::MalformedDescriptor);
    let vb = put(&mut store, f32_bytes(&[0.0, 0.0, 0.0]));
    let short = put(&mut store, i32_bytes(&[1, 1, 0, 1, vb as i32, 0, -1, 0]));
    assert_eq!(build_blas(&mut store, short).unwrap_err(), BvhError::OutOfRange);
    let empty = put(&mut store, i32_bytes(&[1, 1, 0, 0, vb as i32, 0, -1, 0]));
    assert_eq!(build_blas(&mut store, empty).unwrap_err(), BvhError::ElementCount);
    let missing_vb = put(&mut store, i32_bytes(&[1, 1, 1, 1, 999, 0, -1, 0]));
    assert_eq!(build_blas(&mut store, missing_vb).unwrap_err(), BvhError::MissingBuffer(999));
}

#[test]
fn decode_blas_descriptor_fields() {
    let b = i32_bytes(&[2, 3, 0, 2, 5, 8, 6, 12, 1, 1, 7, 0, 9, 0]);
    let gs = decode_blas_descriptor(&b).unwrap();
    assert_eq!(gs.len(), 2);
    assert_eq!(gs[0].geometry_type, GeometryType::Triangle);
    assert_eq!(gs[0].num_primitives, 2);
    assert_eq!(gs[0].vbuf_byte_offset, 8);
    assert_eq!(gs[0].ibuf, Some((6, 12)));
    assert_eq!(gs[1].geometry_type, GeometryType::Aabb);
    assert_eq!(gs[1].ibuf, None);
}

fn traverse_all_hits(nodes: &[FlatNode]) -> Vec<usize> {
    let mut visited = vec![];
    let mut i = 0u32;
    while i != SENTINEL {
        visited.push(i as usize);
        let n = &nodes[i as usize];
        i = if n.is_leaf { n.exit } else { n.entry };
    }
    visited
}

#[test]
fn flat_bvh_laws_on_many_boxes() {
    let boxes: Vec<Aabb> = (0..9).map(|k| cube(k as f32 * 1.5 - 4.0, k as f32 * 1.5 - 3.0)).collect();
    let nodes = build_flat_bvh(&boxes);
    assert_eq!(nodes.len(), 17);
    let mut leaves: Vec<u32> = nodes.iter().filter(|n| n.is_leaf).map(|n| n.element).collect();
    leaves.sort();
    assert_eq!(leaves, (0..9).collect::<Vec<u32>>());
    assert_eq!(traverse_all_hits(&nodes), (0..17).collect::<Vec<usize>>());
    for (i, n) in nodes.iter().enumerate() {
        assert_ne!(n.exit as usize, nodes.len());
        assert!(n.exit == SENTINEL || n.exit as usize > i);
        if !n.is_leaf {
            let l = &nodes[n.entry as usize];
            let r = if l.exit == SENTINEL { unreachable!() } else { &nodes[l.exit as usize] };
            for k in 0..3 {
                assert!(n.bounds.min[k] <= l.bounds.min[k] && n.bounds.min[k] <= r.bounds.min[k]);
                assert!(n.bounds.max[k] >= l.bounds.max[k] && n.bounds.max[k] >= r.bounds.max[k]);
            }
        }
    }
    assert_eq!(nodes[0].exit, SENTINEL);
    let root = nodes[0].bounds;
    assert_eq!(f32::from_bits(root.min_bits()[0]), -4.0);
    assert_eq!(f32::from_bits(root.max_bits()[0]), 9.0);
}

#[test]
fn flat_bvh_equal_boxes_and_single_box() {
    let boxes = vec![cube(0.0, 1.0); 4];
    let nodes = build_flat_bvh(&boxes);
    assert_eq!(nodes.len(), 7);
    assert_eq!(traverse_all_hits(&nodes).len(), 7);
    let one = build_flat_bvh(&vec![cube(-1.0, 1.0)]);
    assert_eq!(one.len(), 1);
    assert!(one[0].is_leaf);
    assert_eq!(one[0].exit, SENTINEL);
}

#[test]
fn negative_coordinates_order_like_floats() {
    let a = cube(-2.0, -1.0);
    let b = cube(-0.5, 3.0);
    let u = a.union(&b);
    assert_eq!(f32::from_bits(u.min_bits()[1]), -2.0);
    assert_eq!(f32::from_bits(u.max_bits()[2]), 3.0);
}

fn tlas_descriptor(count: i32, entry: u32, lo: f32, hi: f32, m: [f32; 12]) -> Vec<u8> {
    let mut b = i32_bytes(&[count]);
    for _ in 0..count {
        for w in [0xFFu32, 1, 42, 3, 7, entry, 5] {
            b.extend_from_slice(&w.to_le_bytes());
        }
        b.extend(f32_bytes(&[lo, lo, lo, hi, hi, hi]));
        b.extend(f32_bytes(&m));
    }
    b
}

const IDENTITY_4X3: [f32; 12] = [1.0, 0.0, 0.0, 0.0, 1.0, 0.0, 0.0, 0.0, 1.0, 0.0, 0.0, 0.0];

#[test]
fn tlas_single_identity_instance() {
    let desc = tlas_descriptor(1, 17, 0.0, 1.0, IDENTITY_4X3);
    let records = decode_tlas_descriptor(&desc).unwrap();
    assert_eq!(records.len(), 1);
    assert_eq!(records[0].instance_id, 42);
    assert_eq!(records[0].instance_custom_index, 7);
    let identity_bits = IDENTITY_4X3.map(f32::to_bits);
    assert_eq!(records[0].transform_to_world_4x3, identity_bits);
    let instances = vec![TlasInstanceDescriptor {
        record: records[0],
        aabb: cube(0.0, 1.0),
        transform_to_object_4x3: identity_bits,
    }];
    let mut store = StagingBufferStore::new();
    let built = build_tlas(&mut store, &instances).unwrap();
    assert_eq!(built.num_nodes, 1);
    let out = store.get(built.serialized.id).unwrap();
    assert_eq!(out.len(), TLAS_NODE_STRIDE);
    assert_eq!([float(out, 0), float(out, 1), float(out, 2)], [0.0, 0.0, 0.0]);
    assert_eq!([float(out, 4), float(out, 5), float(out, 6)], [1.0, 1.0, 1.0]);
    assert_eq!(word(out, 8), 17);
    assert_eq!(word(out, 9), 0xFFFF_FFFF);
    assert_eq!(word(out, 10), 1);
    assert_eq!(word(out, 11), 0xFF);
    assert_eq!(word(out, 13), 42);
    assert_eq!(word(out, 15), 7);
    for k in 0..12 {
        assert_eq!(float(out, 16 + k), IDENTITY_4X3[k]);
        assert_eq!(float(out, 28 + k), IDENTITY_4X3[k]);
    }
    assert_eq!(word(out, 40), 5);
}

#[test]
fn tlas_interior_nodes_are_zeroed() {
    let desc = tlas_descriptor(2, 3, 0.0, 1.0, IDENTITY_4X3);
    let records = decode_tlas_descriptor(&desc).unwrap();
    let instances: Vec<TlasInstanceDescriptor> = records
        .iter()
        .enumerate()
        .map(|(i, r)| TlasInstanceDescriptor {
            record: *r,
            aabb: cube(i as f32 * 2.0, i as f32 * 2.0 + 1.0),
            transform_to_object_4x3: IDENTITY_4X3.map(f32::to_bits),
        })
        .collect();
    let mut store = StagingBufferStore::new();
    let built = build_tlas(&mut store, &instances).unwrap();
    assert_eq!(built.num_nodes, 3);
    let out = store.get(built.serialized.id).unwrap();
    assert_eq!(out.len(), 3 * TLAS_NODE_STRIDE);
    assert_eq!(word(out, 8), 1);
    assert_eq!(word(out, 10), 0);
    for k in 11..41 {
        assert_eq!(word(out, k), 0);
    }
    assert_eq!([float(out, 4), float(out, 5), float(out, 6)], [3.0, 3.0, 3.0]);
}

#[test]
fn tlas_errors() {
    assert_eq!(decode_tlas_descriptor(&i32_bytes(&[0])).unwrap_err(), BvhError::MalformedDescriptor);
    let mut short = tlas_descriptor(1, 0, 0.0, 1.0, IDENTITY_4X3);
    short.pop();
    assert_eq!(decode_tlas_descriptor(&short).unwrap_err(), BvhError::MalformedDescriptor);
    let mut store = StagingBufferStore::new();
    assert_eq!(build_tlas(&mut store, &vec![]).unwrap_err(), BvhError::ElementCount);
}

#[test]
fn staging_buffers_get_fresh_ids() {
    let mut store = StagingBufferStore::new();
    let a = StagingBuffer::new(&mut store, 8).unwrap();
    let b = StagingBuffer::new(&mut store, 3).unwrap();
    assert_eq!((a.id, b.id), (0, 1));
    assert_eq!(a.u8_view(&store).unwrap(), &vec![0u8; 8]);
    a.free(&mut store);
    assert!(a.u8_view(&store).is_none());
    let c = StagingBuffer::new(&mut store, 1).unwrap();
    assert_eq!(c.id, 2);
    let bytes = store.take(b.id).unwrap();
    assert_eq!(bytes.len(), 3);
    store.put_back(b.id, vec![9]);
    assert_eq!(b.u8_view(&store).unwrap(), &vec![9u8]);
}

#[test]
fn align_to_rounds_up() {
    assert_eq!(webrtx::align_to(44, 16), 48);
    assert_eq!(webrtx::align_to(48, 16), 48);
    assert_eq!(webrtx::align_to(0, 16), 0);
    assert_eq!(webrtx::align_to(1, 4), 4);
}
