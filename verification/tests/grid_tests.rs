use voxel_mesh::grid::{build_index, build_vector, holds_volume, Cell};

#[test]
fn index_follows_the_formula() {
    assert_eq!(build_index(0, 0, 0, 4, 4), 0);
    assert_eq!(build_index(1, 0, 0, 4, 4), 1);
    assert_eq!(build_index(0, 1, 0, 4, 4), 4);
    assert_eq!(build_index(0, 0, 1, 4, 4), 16);
    assert_eq!(build_index(3, 3, 3, 4, 4), 63);
    assert_eq!(build_index(2, 5, 1, 3, 7), 2 + 5 * 3 + 1 * 3 * 7);
}

#[test]
fn index_with_a_zero_height_keeps_the_lower_terms() {
    assert_eq!(build_index(2, 3, usize::MAX, 5, 0), 2 + 3 * 5);
    assert_eq!(build_index(7, 0, 9, 0, 4), 7);
}

#[test]
fn vector_inverts_the_index_in_a_tall_volume() {
    assert_eq!(build_vector(0, 3, 7), Cell { x: 0, y: 0, z: 0 });
    assert_eq!(build_vector(2, 3, 7), Cell { x: 2, y: 0, z: 0 });
    assert_eq!(build_vector(3, 3, 7), Cell { x: 0, y: 1, z: 0 });
    assert_eq!(build_vector(20, 3, 7), Cell { x: 2, y: 6, z: 0 });
    assert_eq!(build_vector(21, 3, 7), Cell { x: 0, y: 0, z: 1 });
    assert_eq!(build_vector(62, 3, 7), Cell { x: 2, y: 6, z: 2 });
}

#[test]
fn vector_inverts_the_index_in_a_flat_volume() {
    assert_eq!(build_vector(9, 5, 2), Cell { x: 4, y: 1, z: 0 });
    assert_eq!(build_vector(10, 5, 2), Cell { x: 0, y: 0, z: 1 });
    assert_eq!(build_vector(49, 5, 2), Cell { x: 4, y: 1, z: 4 });
}

#[test]
fn cell_to_index_and_back() {
    let (chunk_size, max_height) = (4usize, 6usize);
    for z in 0..chunk_size {
        for y in 0..max_height {
            for x in 0..chunk_size {
                let i = build_index(x, y, z, chunk_size, max_height);
                assert!(i < chunk_size * chunk_size * max_height);
                assert_eq!(build_vector(i, chunk_size, max_height), Cell { x, y, z });
            }
        }
    }
}

#[test]
fn index_to_cell_and_back() {
    let (chunk_size, max_height) = (5usize, 3usize);
    for i in 0..200usize {
        let cell = build_vector(i, chunk_size, max_height);
        assert!(cell.x < chunk_size);
        assert!(cell.y < max_height);
        assert_eq!(cell.z < chunk_size, i < chunk_size * chunk_size * max_height);
        assert_eq!(build_index(cell.x, cell.y, cell.z, chunk_size, max_height), i);
    }
}

#[test]
fn every_index_is_hit_once() {
    let (chunk_size, max_height) = (3usize, 4usize);
    let mut hits = vec![0u32; chunk_size * chunk_size * max_height];
    for x in 0..chunk_size {
        for y in 0..max_height {
            for z in 0..chunk_size {
                hits[build_index(x, y, z, chunk_size, max_height)] += 1;
            }
        }
    }
    assert!(hits.iter().all(|&n| n == 1));
}

#[test]
fn holds_volume_counts_the_cells() {
    assert!(holds_volume(64, 4, 4));
    assert!(holds_volume(8, 2, 2));
    assert!(holds_volume(63, 3, 7));
    assert!(!holds_volume(62, 3, 7));
    assert!(!holds_volume(64, 3, 7));
    assert!(holds_volume(0, 0, 9));
    assert!(holds_volume(0, 9, 0));
    assert!(!holds_volume(1, 0, 9));
    assert!(!holds_volume(0, 1, 1));
    assert!(!holds_volume(usize::MAX, u32::MAX, u32::MAX));
}
