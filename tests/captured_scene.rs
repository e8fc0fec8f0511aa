use webrtx::blas::{build_blas, BvhError};
use webrtx::staging::StagingBufferStore;

/// Buffers of a captured scene, stored so that each gets the id it had there.
#[test]
fn test_debug_bug() {
    let mut buffers: Vec<Vec<u8>> = vec![vec![]; 17];
    buffers[0] = vec![0, 0, 22, 67, 0, 0, 0, 0, 0, 0, 72, 66, 0, 0, 175, 67, 0, 0, 72, 67, 0, 0, 122, 67];
    buffers[1] = vec![0, 0, 11, 68, 51, 51, 9, 68, 0, 0, 0, 0, 0, 0, 11, 68, 51, 51, 9, 68, 205, 204, 11, 68, 0, 0, 0, 0, 51, 51, 9, 68, 205, 204, 11, 68, 0, 0, 0, 0, 51, 51, 9, 68, 0, 0, 0, 0, 0, 0, 85, 67, 51, 51, 9, 68, 0, 0, 99, 67, 0, 0, 85, 67, 51, 51, 9, 68, 0, 0, 166, 67, 0, 128, 171, 67, 51, 51, 9, 68, 0, 0, 166, 67, 0, 128, 171, 67, 51, 51, 9, 68, 0, 0, 99, 67];
    buffers[2] = vec![0, 0, 0, 0, 1, 0, 0, 0, 2, 0, 0, 0, 2, 0, 0, 0, 3, 0, 0, 0, 0, 0, 0, 0, 4, 0, 0, 0, 5, 0, 0, 0, 6, 0, 0, 0, 6, 0, 0, 0, 7, 0, 0, 0, 4, 0, 0, 0];
    buffers[3] = vec![0, 128, 171, 67, 51, 19, 9, 68, 0, 0, 99, 67, 0, 128, 171, 67, 51, 19, 9, 68, 0, 0, 166, 67, 0, 0, 85, 67, 51, 19, 9, 68, 0, 0, 166, 67, 0, 0, 85, 67, 51, 19, 9, 68, 0, 0, 99, 67];
    buffers[4] = vec![0, 0, 0, 0, 1, 0, 0, 0, 2, 0, 0, 0, 2, 0, 0, 0, 3, 0, 0, 0, 0, 0, 0, 0];
    buffers[5] = vec![102, 102, 9, 68, 0, 0, 0, 0, 205, 204, 11, 68, 0, 0, 0, 0, 0, 0, 0, 0, 205, 204, 11, 68, 0, 0, 0, 0, 51, 51, 9, 68, 205, 204, 11, 68, 0, 0, 11, 68, 51, 51, 9, 68, 205, 204, 11, 68];
    buffers[6] = vec![0, 0, 0, 0, 1, 0, 0, 0, 2, 0, 0, 0, 2, 0, 0, 0, 3, 0, 0, 0, 0, 0, 0, 0];
    buffers[7] = vec![51, 51, 10, 68, 0, 0, 0, 0, 0, 0, 0, 0, 0, 0, 0, 0, 0, 0, 0, 0, 0, 0, 0, 0, 0, 0, 0, 0, 0, 0, 0, 0, 205, 204, 11, 68, 102, 102, 9, 68, 0, 0, 0, 0, 205, 204, 11, 68];
    buffers[8] = vec![0, 0, 0, 0, 1, 0, 0, 0, 2, 0, 0, 0, 2, 0, 0, 0, 3, 0, 0, 0, 0, 0, 0, 0];
    buffers[9] = vec![0, 0, 0, 0, 0, 0, 0, 0, 205, 204, 11, 68, 0, 0, 0, 0, 0, 0, 0, 0, 0, 0, 0, 0, 0, 0, 0, 0, 51, 51, 9, 68, 0, 0, 0, 0, 0, 0, 0, 0, 51, 51, 9, 68, 205, 204, 11, 68];
    buffers[10] = vec![0, 0, 0, 0, 1, 0, 0, 0, 2, 0, 0, 0, 2, 0, 0, 0, 3, 0, 0, 0, 0, 0, 0, 0];
    buffers[11] = vec![51, 51, 10, 68, 0, 0, 0, 0, 0, 0, 0, 0, 102, 102, 9, 68, 0, 0, 0, 0, 205, 204, 11, 68, 0, 0, 11, 68, 51, 51, 9, 68, 205, 204, 11, 68, 0, 0, 11, 68, 51, 51, 9, 68, 0, 0, 0, 0];
    buffers[12] = vec![0, 0, 0, 0, 1, 0, 0, 0, 2, 0, 0, 0, 2, 0, 0, 0, 3, 0, 0, 0, 0, 0, 0, 0];
    buffers[13] = vec![0, 128, 211, 67, 0, 0, 165, 67, 0, 0, 119, 67, 0, 128, 132, 67, 0, 0, 165, 67, 0, 0, 148, 67, 0, 0, 157, 67, 0, 0, 165, 67, 0, 0, 228, 67, 0, 0, 236, 67, 0, 0, 165, 67, 0, 0, 203, 67, 0, 128, 211, 67, 0, 0, 0, 0, 0, 0, 119, 67, 0, 128, 211, 67, 0, 0, 165, 67, 0, 0, 119, 67, 0, 0, 236, 67, 0, 0, 165, 67, 0, 0, 203, 67, 0, 0, 236, 67, 0, 0, 0, 0, 0, 0, 203, 67, 0, 0, 236, 67, 0, 0, 0, 0, 0, 0, 203, 67, 0, 0, 236, 67, 0, 0, 165, 67, 0, 0, 203, 67, 0, 0, 157, 67, 0, 0, 165, 67, 0, 0, 228, 67, 0, 0, 157, 67, 0, 0, 0, 0, 0, 0, 228, 67, 0, 0, 157, 67, 0, 0, 0, 0, 0, 0, 228, 67, 0, 0, 157, 67, 0, 0, 165, 67, 0, 0, 228, 67, 0, 128, 132, 67, 0, 0, 165, 67, 0, 0, 148, 67, 0, 128, 132, 67, 0, 0, 0, 0, 0, 0, 148, 67, 0, 128, 132, 67, 0, 0, 0, 0, 0, 0, 148, 67, 0, 128, 132, 67, 0, 0, 165, 67, 0, 0, 148, 67, 0, 128, 211, 67, 0, 0, 165, 67, 0, 0, 119, 67, 0, 128, 211, 67, 0, 0, 0, 0, 0, 0, 119, 67, 0, 0, 236, 67, 0, 0, 0, 0, 0, 0, 203, 67, 0, 0, 157, 67, 0, 0, 0, 0, 0, 0, 228, 67, 0, 128, 132, 67, 0, 0, 0, 0, 0, 0, 148, 67, 0, 128, 211, 67, 0, 0, 0, 0, 0, 0, 119, 67];
    buffers[14] = vec![0, 0, 0, 0, 1, 0, 0, 0, 2, 0, 0, 0, 0, 0, 0, 0, 2, 0, 0, 0, 3, 0, 0, 0, 4, 0, 0, 0, 5, 0, 0, 0, 6, 0, 0, 0, 4, 0, 0, 0, 6, 0, 0, 0, 7, 0, 0, 0, 8, 0, 0, 0, 9, 0, 0, 0, 10, 0, 0, 0, 8, 0, 0, 0, 10, 0, 0, 0, 11, 0, 0, 0, 12, 0, 0, 0, 13, 0, 0, 0, 14, 0, 0, 0, 12, 0, 0, 0, 14, 0, 0, 0, 15, 0, 0, 0, 16, 0, 0, 0, 17, 0, 0, 0, 18, 0, 0, 0, 16, 0, 0, 0, 18, 0, 0, 0, 19, 0, 0, 0, 20, 0, 0, 0, 21, 0, 0, 0, 22, 0, 0, 0, 20, 0, 0, 0, 22, 0, 0, 0, 23, 0, 0, 0];
    buffers[16] = vec![2, 0, 0, 0, 6, 0, 0, 0, 0, 0, 0, 0, 4, 0, 0, 0, 1, 0, 0, 0, 2, 0, 0, 0, 0, 0, 0, 0, 2, 0, 0, 0, 3, 0, 0, 0, 4, 0, 0, 0];
    let mut store = StagingBufferStore::new();
    for (id, bytes) in buffers.into_iter().enumerate() {
        let b = store.insert_new(bytes).unwrap();
        assert_eq!(b.id as usize, id);
    }
    println!("{:?}", store.get(16));
    // Ten words name two geometries, which take fourteen.
    assert_eq!(build_blas(&mut store, 16).unwrap_err(), BvhError::MalformedDescriptor);
}
