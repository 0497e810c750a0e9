use voxel_mesh::error::VoxelError;
use voxel_mesh::grid::{build_index, build_vector, Cell};
use voxel_mesh::level::Level;
use voxel_mesh::mesh_instance::build_mesh;
use voxel_mesh::volume::{generate_volume, occupied_cells};

fn level(value: f32) -> Level {
    Level::from_bits(value.to_bits())
}

/// A stand-in for a noise function: the same cell always gets the same level
/// between -1 and 1.
fn ripple(seed: u32, x: usize, y: usize, z: usize) -> f32 {
    let mixed = (x as u32)
        .wrapping_mul(73_856_093)
        .wrapping_add((y as u32).wrapping_mul(19_349_663))
        .wrapping_add((z as u32).wrapping_mul(83_492_791))
        .wrapping_add(seed.wrapping_mul(2_654_435_761));
    (mixed % 2001) as f32 / 1000.0 - 1.0
}

fn sample(seed: u32, chunk_size: u32, max_height: u32) -> Vec<Level> {
    let cells = (chunk_size * chunk_size * max_height) as usize;
    (0..cells)
        .map(|i| {
            let cell = build_vector(i, chunk_size as usize, max_height as usize);
            level(ripple(seed, cell.x, cell.y, cell.z))
        })
        .collect()
}

fn count(field: &[bool]) -> usize {
    field.iter().filter(|&&flag| flag).count()
}

#[test]
fn zero_chunk_size_is_refused() {
    let samples: Vec<Level> = Vec::new();
    assert_eq!(
        generate_volume(0, 10, &samples, level(0.5)),
        Err(VoxelError::InvalidDimensions)
    );
}

#[test]
fn zero_height_is_refused() {
    let samples: Vec<Level> = Vec::new();
    assert_eq!(
        generate_volume(10, 0, &samples, level(0.5)),
        Err(VoxelError::InvalidDimensions)
    );
}

#[test]
fn zero_dimensions_are_refused_before_the_samples_are_counted() {
    let samples = vec![level(0.0); 5];
    assert_eq!(
        generate_volume(0, 0, &samples, level(0.5)),
        Err(VoxelError::InvalidDimensions)
    );
}

#[test]
fn wrong_number_of_samples_is_refused() {
    let samples = vec![level(0.0); 63];
    assert_eq!(
        generate_volume(4, 4, &samples, level(0.5)),
        Err(VoxelError::BufferSizeMismatch)
    );
    let samples = vec![level(0.0); 65];
    assert_eq!(
        generate_volume(4, 4, &samples, level(0.5)),
        Err(VoxelError::BufferSizeMismatch)
    );
}

#[test]
fn flags_follow_the_levels() {
    let samples = vec![
        level(0.6),
        level(0.5),
        level(0.4),
        level(-0.9),
        level(1.0),
        level(f32::NAN),
        level(0.500_000_06),
        level(-0.0),
    ];
    let field = generate_volume(2, 2, &samples, level(0.5)).unwrap();
    assert_eq!(field, vec![true, false, false, false, true, false, true, false]);
}

#[test]
fn flag_of_a_cell_sits_at_its_index() {
    let (chunk_size, max_height) = (3u32, 5u32);
    let samples = sample(11, chunk_size, max_height);
    let cut_off = 0.1f32;
    let field = generate_volume(chunk_size, max_height, &samples, level(cut_off)).unwrap();
    assert_eq!(field.len(), 45);
    for x in 0..3usize {
        for y in 0..5usize {
            for z in 0..3usize {
                let i = build_index(x, y, z, 3, 5);
                assert_eq!(field[i], ripple(11, x, y, z) > cut_off);
            }
        }
    }
}

#[test]
fn cut_off_at_the_top_empties_the_volume() {
    for seed in [0u32, 1, 7, 1234] {
        let samples = sample(seed, 4, 4);
        let field = generate_volume(4, 4, &samples, level(1.0)).unwrap();
        assert_eq!(field.len(), 64);
        assert!(field.iter().all(|&flag| !flag));
        let mesh = build_mesh(field, 4, 4).unwrap();
        assert_eq!(mesh.positions.len(), 0);
        assert_eq!(mesh.normals.len(), 0);
        assert_eq!(mesh.colors.len(), 0);
    }
}

#[test]
fn cut_off_below_every_level_fills_the_volume() {
    let samples = sample(3, 4, 2);
    let field = generate_volume(4, 2, &samples, level(-1.5)).unwrap();
    assert_eq!(field, vec![true; 32]);
}

#[test]
fn cut_off_that_is_no_number_empties_the_volume() {
    let samples = sample(3, 4, 2);
    let field = generate_volume(4, 2, &samples, level(f32::NAN)).unwrap();
    assert_eq!(field, vec![false; 32]);
}

#[test]
fn same_input_gives_the_same_volume() {
    let first = generate_volume(5, 3, &sample(42, 5, 3), level(0.2));
    let second = generate_volume(5, 3, &sample(42, 5, 3), level(0.2));
    assert!(first.is_ok());
    assert_eq!(first, second);
}

#[test]
fn raising_the_cut_off_never_adds_a_cell() {
    let samples = sample(9, 6, 4);
    let cut_offs = [-1.0f32, -0.75, -0.3, -0.0, 0.0, 0.2, 0.5, 0.99, 1.0];
    let mut last = usize::MAX;
    let mut last_field: Option<Vec<bool>> = None;
    for cut_off in cut_offs {
        let field = generate_volume(6, 4, &samples, level(cut_off)).unwrap();
        let now = count(&field);
        assert!(now <= last);
        if let Some(before) = &last_field {
            for i in 0..field.len() {
                assert!(!field[i] || before[i]);
            }
        }
        last = now;
        last_field = Some(field);
    }
    assert_eq!(last, 0);
}

#[test]
fn occupied_cells_are_listed_by_x_then_y_then_z() {
    // 3 by 3 cells and 2 layers: the flat indices 0, 5, 6 and 17 are the
    // cells (0, 0, 0), (2, 1, 0), (0, 0, 1) and (2, 1, 2).
    let mut field = vec![false; 18];
    field[0] = true;
    field[5] = true;
    field[6] = true;
    field[17] = true;
    let cells = occupied_cells(&field, 3, 2).unwrap();
    assert_eq!(
        cells,
        vec![
            Cell { x: 0, y: 0, z: 0 },
            Cell { x: 0, y: 0, z: 1 },
            Cell { x: 2, y: 1, z: 0 },
            Cell { x: 2, y: 1, z: 2 },
        ]
    );
}

#[test]
fn occupied_cells_put_the_lower_x_first() {
    // 2 by 2 cells and 1 layer: (1, 0, 0) has the flat index 1 and (0, 0, 1)
    // the flat index 2.
    let field = vec![false, true, true, false];
    assert_eq!(
        occupied_cells(&field, 2, 1),
        Ok(vec![Cell { x: 0, y: 0, z: 1 }, Cell { x: 1, y: 0, z: 0 }])
    );
}

#[test]
fn occupied_cells_of_a_solid_volume_rise() {
    let cells = occupied_cells(&vec![true; 24], 2, 6).unwrap();
    assert_eq!(cells.len(), 24);
    let mut expected = Vec::new();
    for x in 0..2usize {
        for y in 0..6usize {
            for z in 0..2usize {
                expected.push(Cell { x, y, z });
            }
        }
    }
    assert_eq!(cells, expected);
    for pair in cells.windows(2) {
        assert!((pair[0].x, pair[0].y, pair[0].z) < (pair[1].x, pair[1].y, pair[1].z));
    }
}

#[test]
fn occupied_cells_of_an_empty_volume() {
    assert_eq!(occupied_cells(&vec![false; 8], 2, 2), Ok(Vec::new()));
    assert_eq!(occupied_cells(&Vec::new(), 0, 2), Ok(Vec::new()));
}

#[test]
fn occupied_cells_refuse_a_wrong_length() {
    assert_eq!(
        occupied_cells(&vec![true; 7], 2, 2),
        Err(VoxelError::BufferSizeMismatch)
    );
}

#[test]
fn occupied_cells_match_the_count() {
    let samples = sample(5, 4, 3);
    let field = generate_volume(4, 3, &samples, level(0.0)).unwrap();
    let cells = occupied_cells(&field, 4, 3).unwrap();
    assert_eq!(cells.len(), count(&field));
    for cell in cells {
        assert!(field[build_index(cell.x, cell.y, cell.z, 4, 3)]);
    }
}
