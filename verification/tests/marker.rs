use chunks::classify::{Budgets, ChunkStats, Color};
use chunks::grid::{chunk_center, chunk_corners, pos_to_chunk};
use chunks::marker::{
    mark_chunks, mark_chunks_with, marker_owner_uuid, MARKERS_PER_CHUNK, MARKER_INTENSITY,
};

const WHITE: Color = Color { r: 255, g: 255, b: 255, a: 255 };
const GREEN: Color = Color { r: 0, g: 255, b: 0, a: 255 };
const RED: Color = Color { r: 255, g: 0, b: 0, a: 255 };
const BLUE: Color = Color { r: 0, g: 0, b: 255, a: 255 };
const MAGENTA: Color = Color { r: 255, g: 0, b: 255, a: 255 };

fn stats(object_count: u32, physics_cost: u32, component_cost: u32) -> Option<ChunkStats> {
    Some(ChunkStats { object_count, physics_cost, component_cost })
}

#[test]
fn single_chunk_gets_eight_markers_at_its_corners() {
    let save = mark_chunks(&[((0, 0, 0), stats(10, 70000, 80))]);
    assert_eq!(MARKERS_PER_CHUNK, 8);
    assert_eq!(save.bricks.len(), 8);
    let expected = [
        (1, 1, 1),
        (511, 1, 1),
        (1, 511, 1),
        (511, 511, 1),
        (1, 1, 511),
        (511, 1, 511),
        (1, 511, 511),
        (511, 511, 511),
    ];
    for (i, brick) in save.bricks.iter().enumerate() {
        assert_eq!(brick.position, expected[i]);
        assert_eq!(brick.color, MAGENTA);
        assert_eq!(brick.owner_index, 1);
        assert_eq!(brick.asset_name_index, 0);
        assert_eq!(brick.material_index, 0);
        assert_eq!(brick.material_intensity, 5);
        assert_eq!(brick.size, (1, 1, 1));
    }
    assert_eq!(MARKER_INTENSITY, 5);
}

#[test]
fn markers_of_a_negative_chunk_stay_inside_it() {
    let key = (-1, -2, 3);
    let save = mark_chunks(&[(key, None)]);
    let corners = chunk_corners(chunk_center(key));
    assert_eq!(save.bricks.len(), 8);
    for (i, brick) in save.bricks.iter().enumerate() {
        assert_eq!(brick.position, corners[i]);
        assert_eq!(pos_to_chunk(brick.position), key);
        assert_eq!(brick.color, WHITE);
    }
    assert_eq!(save.bricks[0].position, (-511, -1023, 1537));
    assert_eq!(save.bricks[7].position, (-1, -513, 2047));
}

#[test]
fn marker_colour_follows_the_tier() {
    let chunks = [
        ((0, 0, 0), None),
        ((1, 0, 0), stats(1, 65000, 75)),
        ((2, 0, 0), stats(1, 65001, 75)),
        ((3, 0, 0), stats(1, 65000, 76)),
        ((4, 0, 0), stats(1, 65001, 76)),
    ];
    let save = mark_chunks(&chunks);
    assert_eq!(save.bricks.len(), 40);
    let colours = [WHITE, GREEN, RED, BLUE, MAGENTA];
    for (n, brick) in save.bricks.iter().enumerate() {
        assert_eq!(brick.color, colours[n / 8]);
        assert_eq!(brick.position, chunk_corners(chunk_center(chunks[n / 8].0))[n % 8]);
    }
}

#[test]
fn chunks_are_marked_in_the_order_given() {
    let save = mark_chunks(&[((5, 5, 5), None), ((-5, -5, -5), None)]);
    assert_eq!(save.bricks[0].position, (5 * 512 + 1, 5 * 512 + 1, 5 * 512 + 1));
    assert_eq!(save.bricks[8].position, (-5 * 512 + 1, -5 * 512 + 1, -5 * 512 + 1));
}

#[test]
fn marker_save_header_is_self_contained() {
    let save = mark_chunks(&[((0, 0, 0), None)]);
    assert_eq!(save.brick_assets, vec!["PB_DefaultMicroBrick".to_string()]);
    assert_eq!(save.materials, vec!["BMC_Glow".to_string()]);
    assert_eq!(save.brick_owners.len(), 1);
    assert_eq!(save.brick_owners[0].id, "00000000-0000-0000-0000-000000000001");
    assert_eq!(save.brick_owners[0].name, "Chunk Marker");
    assert_eq!(save.brick_owners[0].bricks, 0);
    assert_eq!(marker_owner_uuid(), "00000000-0000-0000-0000-000000000001");
}

#[test]
fn no_chunks_give_a_save_without_markers() {
    let save = mark_chunks(&[]);
    assert!(save.bricks.is_empty());
    assert_eq!(save.brick_assets.len(), 1);
    assert_eq!(save.materials.len(), 1);
    assert_eq!(save.brick_owners.len(), 1);
}

#[test]
fn markers_can_be_drawn_against_other_budgets() {
    let chunk = [((0, 0, 0), stats(1, 500, 500))];
    let loose = mark_chunks_with(&chunk, Budgets::both(1000, 1000));
    assert_eq!(loose.bricks[0].color, GREEN);
    let tight = mark_chunks_with(&chunk, Budgets::both(499, 499));
    assert_eq!(tight.bricks[0].color, MAGENTA);
    let physics = mark_chunks_with(&chunk, Budgets::physics_only(499));
    assert_eq!(physics.bricks[0].color, RED);
    assert_eq!(mark_chunks(&chunk).bricks[0].color, BLUE);
}

#[test]
fn outermost_chunks_can_be_marked() {
    let save = mark_chunks(&[((-4194304, 4194303, 0), None)]);
    assert_eq!(save.bricks[0].position, (i32::MIN + 1, i32::MAX - 510, 1));
    assert_eq!(save.bricks[7].position, (i32::MIN + 511, i32::MAX, 511));
}
