//! The fixed cubic grid that partitions world space into chunks.
use vstd::prelude::*;

verus! {

/// Edge length of one chunk, in world units.
pub const CHUNK_SIZE: i32 = 512;

/// Index of the cell of positive edge `cell` that holds coordinate `p`: the
/// floor of `p / cell`, so that cell -1 ends where cell 0 begins.
pub open spec fn cell_of(p: int, cell: int) -> int {
    p / cell
}

/// Floor division of a coordinate by a positive cell size.
pub fn cell_index(p: i32, cell: i32) -> (r: i32)
    requires
        cell > 0,
    ensures
        r == cell_of(p as int, cell as int),
        r * cell <= p < r * cell + cell,
{
    if p >= 0 {
        let q: i32 = p / cell;
        proof {
            lemma_cell_of_is_floor(p as int, cell as int);
        }
        q
    } else {
        let m: i32 = -(p + 1);
        let q: i32 = m / cell;
        proof {
            lemma_cell_of_is_floor(m as int, cell as int);
            assert((-(q as int) - 1) * cell == -(q * cell) - cell) by (nonlinear_arith);
            lemma_floor_is_unique(p as int, cell as int, -(q as int) - 1);
        }
        -q - 1
    }
}

/// The floor of `p / cell` is the one `q` with `q * cell <= p < (q + 1) * cell`.
pub proof fn lemma_cell_of_is_floor(p: int, cell: int)
    requires
        cell > 0,
    ensures
        cell_of(p, cell) * cell <= p < cell_of(p, cell) * cell + cell,
{
    vstd::arithmetic::div_mod::lemma_fundamental_div_mod(p, cell);
    vstd::arithmetic::div_mod::lemma_mod_bound(p, cell);
    assert(cell * (p / cell) == (p / cell) * cell) by (nonlinear_arith);
}

/// No other integer than the floor lies within one cell below `p`.
pub proof fn lemma_floor_is_unique(p: int, cell: int, q: int)
    requires
        cell > 0,
        q * cell <= p < q * cell + cell,
    ensures
        q == cell_of(p, cell),
{
    lemma_cell_of_is_floor(p, cell);
    let f = cell_of(p, cell);
    assert(q == f) by (nonlinear_arith)
        requires
            cell > 0,
            q * cell <= p < q * cell + cell,
            f * cell <= p < f * cell + cell,
    ;
}

/// A triple of machine integers read as mathematical integers.
pub open spec fn as_ints(t: (i32, i32, i32)) -> (int, int, int) {
    (t.0 as int, t.1 as int, t.2 as int)
}

/// Whether each coordinate of `t` is representable as an `i32`.
pub open spec fn fits_i32(t: (int, int, int)) -> bool {
    &&& i32::MIN <= t.0 <= i32::MAX
    &&& i32::MIN <= t.1 <= i32::MAX
    &&& i32::MIN <= t.2 <= i32::MAX
}

/// The chunk that holds world position `pos`: floor division on each axis.
pub open spec fn chunk_of(pos: (int, int, int)) -> (int, int, int) {
    (
        cell_of(pos.0, CHUNK_SIZE as int),
        cell_of(pos.1, CHUNK_SIZE as int),
        cell_of(pos.2, CHUNK_SIZE as int),
    )
}

/// The chunk that holds the representable position `pos`, as machine
/// integers.
pub open spec fn chunk_key(pos: (i32, i32, i32)) -> (i32, i32, i32) {
    (
        cell_of(pos.0 as int, CHUNK_SIZE as int) as i32,
        cell_of(pos.1 as int, CHUNK_SIZE as int) as i32,
        cell_of(pos.2 as int, CHUNK_SIZE as int) as i32,
    )
}

/// The world position at the middle of chunk `key`.
pub open spec fn center_of(key: (int, int, int)) -> (int, int, int) {
    (
        CHUNK_SIZE / 2 + key.0 * CHUNK_SIZE,
        CHUNK_SIZE / 2 + key.1 * CHUNK_SIZE,
        CHUNK_SIZE / 2 + key.2 * CHUNK_SIZE,
    )
}

/// Distance from a chunk's center to its marker corners along one axis: one
/// unit short of the chunk's face.
pub open spec fn corner_reach() -> int {
    CHUNK_SIZE / 2 - 1
}

/// Offset of corner `i` from the center. Bit 0 of `i` picks the side on the
/// first axis, bit 1 on the second, bit 2 on the third; a set bit is the
/// positive side.
pub open spec fn corner_offset(i: int) -> (int, int, int) {
    (
        if i % 2 == 1 { corner_reach() } else { -corner_reach() },
        if (i / 2) % 2 == 1 { corner_reach() } else { -corner_reach() },
        if (i / 4) % 2 == 1 { corner_reach() } else { -corner_reach() },
    )
}

/// Corner `i` of the marker cube around `center`.
pub open spec fn corner_of(i: int, center: (int, int, int)) -> (int, int, int) {
    (
        center.0 + corner_offset(i).0,
        center.1 + corner_offset(i).1,
        center.2 + corner_offset(i).2,
    )
}

/// The eight marker corners around `center`, in index order.
pub open spec fn corners_of(center: (int, int, int)) -> Seq<(int, int, int)> {
    Seq::new(8, |i: int| corner_of(i, center))
}

/// Whether `key` names a chunk of the representable world: one that holds
/// some `i32` position on every axis. These are the chunks whose center, and
/// whose marker corners, are representable.
pub open spec fn is_chunk_key(key: (i32, i32, i32)) -> bool {
    &&& i32::MIN / CHUNK_SIZE <= key.0 <= i32::MAX / CHUNK_SIZE
    &&& i32::MIN / CHUNK_SIZE <= key.1 <= i32::MAX / CHUNK_SIZE
    &&& i32::MIN / CHUNK_SIZE <= key.2 <= i32::MAX / CHUNK_SIZE
}

/// Tests `is_chunk_key`.
pub fn valid_chunk_key(key: (i32, i32, i32)) -> (b: bool)
    ensures
        b == is_chunk_key(key),
{
    let lo: i32 = -4194304;
    let hi: i32 = 4194303;
    lo <= key.0 && key.0 <= hi && lo <= key.1 && key.1 <= hi && lo <= key.2 && key.2 <= hi
}

/// Maps a world position to the chunk that holds it.
pub fn pos_to_chunk(pos: (i32, i32, i32)) -> (key: (i32, i32, i32))
    ensures
        key == chunk_key(pos),
        as_ints(key) == chunk_of(as_ints(pos)),
        is_chunk_key(key),
{
    (cell_index(pos.0, CHUNK_SIZE), cell_index(pos.1, CHUNK_SIZE), cell_index(pos.2, CHUNK_SIZE))
}

/// The world position at the middle of a chunk.
pub fn chunk_center(pos: (i32, i32, i32)) -> (center: (i32, i32, i32))
    requires
        is_chunk_key(pos),
    ensures
        as_ints(center) == center_of(as_ints(pos)),
{
    (
        CHUNK_SIZE / 2 + pos.0 * CHUNK_SIZE,
        CHUNK_SIZE / 2 + pos.1 * CHUNK_SIZE,
        CHUNK_SIZE / 2 + pos.2 * CHUNK_SIZE,
    )
}

/// Corner `i` of the marker cube around `center`.
pub fn chunk_corner(i: usize, center: (i32, i32, i32)) -> (corner: (i32, i32, i32))
    requires
        i < 8,
        fits_i32(corner_of(i as int, as_ints(center))),
    ensures
        as_ints(corner) == corner_of(i as int, as_ints(center)),
{
    let reach: i32 = CHUNK_SIZE / 2 - 1;
    let dx: i32 = if i % 2 == 1 { reach } else { -reach };
    let dy: i32 = if (i / 2) % 2 == 1 { reach } else { -reach };
    let dz: i32 = if (i / 4) % 2 == 1 { reach } else { -reach };
    (center.0 + dx, center.1 + dy, center.2 + dz)
}

/// All eight marker corners around `center`, in index order.
pub fn chunk_corners(center: (i32, i32, i32)) -> (corners: Vec<(i32, i32, i32)>)
    requires
        forall|i: int| 0 <= i < 8 ==> fits_i32(#[trigger] corner_of(i, as_ints(center))),
    ensures
        corners@.map_values(|c: (i32, i32, i32)| as_ints(c)) == corners_of(as_ints(center)),
{
    let mut corners: Vec<(i32, i32, i32)> = Vec::new();
    let mut i: usize = 0;
    while i < 8
        invariant
            i <= 8,
            corners.len() == i,
            forall|j: int| 0 <= j < 8 ==> fits_i32(#[trigger] corner_of(j, as_ints(center))),
            forall|j: int|
                0 <= j < i ==> as_ints(#[trigger] corners[j]) == corner_of(j, as_ints(center)),
        decreases 8 - i,
    {
        corners.push(chunk_corner(i, center));
        i = i + 1;
    }
    assert(corners@.map_values(|c: (i32, i32, i32)| as_ints(c)) =~= corners_of(as_ints(center)));
    corners
}

/// A chunk's center lies in that chunk, so mapping a center back to its
/// chunk and to the center again changes nothing.
pub proof fn lemma_center_round_trip(key: (int, int, int))
    ensures
        chunk_of(center_of(key)) == key,
        center_of(chunk_of(center_of(key))) == center_of(key),
{
    lemma_floor_is_unique(center_of(key).0, CHUNK_SIZE as int, key.0);
    lemma_floor_is_unique(center_of(key).1, CHUNK_SIZE as int, key.1);
    lemma_floor_is_unique(center_of(key).2, CHUNK_SIZE as int, key.2);
}

/// Every marker corner of a chunk lies strictly inside that chunk: the
/// corners of one chunk never touch a neighbour.
pub proof fn lemma_corners_stay_inside(key: (int, int, int), i: int)
    requires
        0 <= i < 8,
    ensures
        chunk_of(corner_of(i, center_of(key))) == key,
{
    let c = corner_of(i, center_of(key));
    lemma_floor_is_unique(c.0, CHUNK_SIZE as int, key.0);
    lemma_floor_is_unique(c.1, CHUNK_SIZE as int, key.1);
    lemma_floor_is_unique(c.2, CHUNK_SIZE as int, key.2);
}

/// The index of the corner on the given side of each axis; `true` is the
/// positive side.
pub open spec fn corner_index(x_up: bool, y_up: bool, z_up: bool) -> int {
    (if x_up { 1int } else { 0int }) + (if y_up { 2int } else { 0int }) + (if z_up {
        4int
    } else {
        0int
    })
}

/// The eight corners are the eight sign combinations of the reach around the
/// center: the corner on the given sides lies one reach from the center
/// along each axis, towards that side.
pub proof fn lemma_corners_are_the_sign_combinations(
    center: (int, int, int),
    x_up: bool,
    y_up: bool,
    z_up: bool,
)
    ensures
        0 <= corner_index(x_up, y_up, z_up) < 8,
        corner_of(corner_index(x_up, y_up, z_up), center) == (
            center.0 + if x_up { corner_reach() } else { -corner_reach() },
            center.1 + if y_up { corner_reach() } else { -corner_reach() },
            center.2 + if z_up { corner_reach() } else { -corner_reach() },
        ),
{
}

/// Each index below eight is the corner of one sign combination: its three
/// lowest bits say the sides.
pub proof fn lemma_every_corner_is_a_sign_combination(i: int)
    requires
        0 <= i < 8,
    ensures
        i == corner_index(i % 2 == 1, (i / 2) % 2 == 1, (i / 4) % 2 == 1),
{
}

/// The center and the marker corners of a chunk of the representable world
/// are representable.
pub proof fn lemma_chunk_geometry_fits(key: (i32, i32, i32))
    requires
        is_chunk_key(key),
    ensures
        fits_i32(center_of(as_ints(key))),
        forall|i: int| 0 <= i < 8 ==> fits_i32(#[trigger] corner_of(i, center_of(as_ints(key)))),
{
}

} // verus!
