use chunks::grid::{chunk_center, chunk_corner, chunk_corners, pos_to_chunk, cell_index, valid_chunk_key, CHUNK_SIZE};

#[test]
fn negative_positions_map_to_negative_chunks() {
    assert_eq!(pos_to_chunk((-1, -1, -1)), (-1, -1, -1));
    assert_eq!(pos_to_chunk((-512, -513, -1024)), (-1, -2, -2));
}

#[test]
fn positions_on_a_chunk_face_open_the_next_chunk() {
    assert_eq!(pos_to_chunk((0, 511, 512)), (0, 0, 1));
    assert_eq!(pos_to_chunk((1024, 1023, 1025)), (2, 1, 2));
}

#[test]
fn extreme_positions_have_chunks() {
    assert_eq!(pos_to_chunk((i32::MIN, i32::MAX, 0)), (-4194304, 4194303, 0));
    assert!(valid_chunk_key(pos_to_chunk((i32::MIN, i32::MAX, 0))));
    assert!(!valid_chunk_key((4194304, 0, 0)));
    assert!(!valid_chunk_key((0, -4194305, 0)));
}

#[test]
fn cell_index_is_floor_division_for_any_cell_size() {
    assert_eq!(CHUNK_SIZE, 512);
    assert_eq!(cell_index(-1, 1024), -1);
    assert_eq!(cell_index(1024, 1024), 1);
    assert_eq!(cell_index(-1025, 1024), -2);
    assert_eq!(cell_index(7, 3), 2);
    assert_eq!(cell_index(-7, 3), -3);
    assert_eq!(cell_index(i32::MIN, 1), i32::MIN);
    assert_eq!(cell_index(i32::MIN, i32::MAX), -2);
}

#[test]
fn center_is_half_a_chunk_past_the_low_face() {
    assert_eq!(chunk_center((0, 0, 0)), (256, 256, 256));
    assert_eq!(chunk_center((-1, 1, 2)), (-256, 768, 1280));
    assert_eq!(chunk_center((-4194304, 4194303, 0)), (-2147483392, 2147483392, 256));
}

#[test]
fn center_round_trip_is_stable() {
    for key in [(0, 0, 0), (-1, -1, -1), (3, -7, 12), (-4194304, 4194303, 1)] {
        let center = chunk_center(key);
        assert_eq!(pos_to_chunk(center), key);
        assert_eq!(chunk_center(pos_to_chunk(center)), center);
    }
}

#[test]
fn corners_follow_the_fixed_enumeration() {
    let center = (256, 256, 256);
    let expected = [
        (1, 1, 1),
        (511, 1, 1),
        (1, 511, 1),
        (511, 511, 1),
        (1, 1, 511),
        (511, 1, 511),
        (1, 511, 511),
        (511, 511, 511),
    ];
    for i in 0..8 {
        assert_eq!(chunk_corner(i, center), expected[i]);
    }
    assert_eq!(chunk_corners(center), expected.to_vec());
}

#[test]
fn corners_stay_inside_their_chunk() {
    for key in [(0, 0, 0), (-1, -1, -1), (5, -3, 2)] {
        for corner in chunk_corners(chunk_center(key)) {
            assert_eq!(pos_to_chunk(corner), key);
        }
    }
}
