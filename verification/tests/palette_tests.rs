use voxel_mesh::palette::pick_colors;

#[test]
fn picks_stay_inside_the_palette() {
    for palette_len in 1..6usize {
        let picks = pick_colors(500, palette_len);
        assert_eq!(picks.len(), 500);
        assert!(picks.iter().all(|&pick| pick < palette_len));
    }
}

#[test]
fn palette_of_one_colour_is_always_picked() {
    assert_eq!(pick_colors(20, 1), vec![0; 20]);
}

#[test]
fn no_instance_needs_no_palette() {
    assert_eq!(pick_colors(0, 0), Vec::<usize>::new());
    assert_eq!(pick_colors(0, 3), Vec::<usize>::new());
}

#[test]
fn every_colour_of_a_small_palette_turns_up() {
    let picks = pick_colors(2000, 3);
    for colour in 0..3usize {
        assert!(picks.contains(&colour));
    }
}
