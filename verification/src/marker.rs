//! Marker overlays: a save of small glowing objects at the corners of the
//! chunks to be shown, coloured by severity tier.
use vstd::prelude::*;
use vstd::string::*;
use crate::classify::{
    classify_with,
    color_of,
    standard_budgets,
    tier_of,
    Budgets,
    ChunkStats,
    Color,
};
use crate::grid::{
    as_ints,
    center_of,
    chunk_center,
    chunk_corner,
    corner_of,
    fits_i32,
    is_chunk_key,
    lemma_chunk_geometry_fits,
};

verus! {

/// Markers per chunk: one at each corner of the marker cube.
pub const MARKERS_PER_CHUNK: usize = 8;

/// Glow intensity of a marker's material.
pub const MARKER_INTENSITY: u32 = 5;

/// One marker: a unit-sized glowing object.
#[derive(Debug)]
pub struct MarkerObject {
    /// Owner of the marker, counted from one in the save's owner list.
    pub owner_index: u32,
    /// The marker's asset, an index into the save's asset list.
    pub asset_name_index: u32,
    /// The marker's material, an index into the save's material list.
    pub material_index: u32,
    /// How strongly the material glows.
    pub material_intensity: u32,
    /// The colour of the chunk's tier.
    pub color: Color,
    /// Extent of the marker along each axis.
    pub size: (u32, u32, u32),
    /// Where the marker stands.
    pub position: (i32, i32, i32),
}

/// The identity that owns every marker, so that markers can be found and
/// removed by owner.
#[derive(Debug)]
pub struct MarkerOwner {
    pub id: String,
    pub name: String,
    pub bricks: u32,
}

/// A save that holds markers and nothing else. Its header lists the one
/// asset, the one material and the one owner that the markers refer to.
#[derive(Debug)]
pub struct MarkerSave {
    pub brick_assets: Vec<String>,
    pub materials: Vec<String>,
    pub brick_owners: Vec<MarkerOwner>,
    pub bricks: Vec<MarkerObject>,
}

/// Text form of the identity that owns every marker.
pub open spec fn marker_owner_id() -> Seq<char> {
    "00000000-0000-0000-0000-000000000001"@
}

/// Corner `i` of the marker cube of chunk `key`, as machine integers.
pub open spec fn corner_position(key: (i32, i32, i32), i: int) -> (i32, i32, i32) {
    let corner = corner_of(i, center_of(as_ints(key)));
    (corner.0 as i32, corner.1 as i32, corner.2 as i32)
}

/// The marker of colour `color` at `position`.
pub open spec fn marker_at(color: Color, position: (i32, i32, i32)) -> MarkerObject {
    MarkerObject {
        owner_index: 1,
        asset_name_index: 0,
        material_index: 0,
        material_intensity: MARKER_INTENSITY,
        color,
        size: (1, 1, 1),
        position,
    }
}

/// The markers of a list of chunks: eight per chunk, chunk after chunk in
/// list order and corner after corner in index order, each in the colour of
/// its chunk's tier.
pub open spec fn markers_of(
    chunks: Seq<((i32, i32, i32), Option<ChunkStats>)>,
    budgets: Budgets,
) -> Seq<MarkerObject> {
    Seq::new(
        MARKERS_PER_CHUNK as nat * chunks.len(),
        |n: int|
            marker_at(
                color_of(tier_of(chunks[n / 8].1, budgets)),
                corner_position(chunks[n / 8].0, n % 8),
            ),
    )
}

/// Whether `save` is the marker save of `chunks`: the fixed header, and the
/// markers of the chunks.
pub open spec fn is_marker_save(
    save: MarkerSave,
    chunks: Seq<((i32, i32, i32), Option<ChunkStats>)>,
    budgets: Budgets,
) -> bool {
    &&& save.brick_assets@.len() == 1
    &&& save.brick_assets@[0]@ == "PB_DefaultMicroBrick"@
    &&& save.materials@.len() == 1
    &&& save.materials@[0]@ == "BMC_Glow"@
    &&& save.brick_owners@.len() == 1
    &&& save.brick_owners@[0].id@ == marker_owner_id()
    &&& save.brick_owners@[0].name@ == "Chunk Marker"@
    &&& save.brick_owners@[0].bricks == 0
    &&& save.bricks@ == markers_of(chunks, budgets)
}

/// Text form of the identity that owns every marker.
pub fn marker_owner_uuid() -> (id: String)
    ensures
        id@ == marker_owner_id(),
{
    String::from_str("00000000-0000-0000-0000-000000000001")
}

/// Builds the marker save of `chunks` against the given budgets.
pub fn mark_chunks_with(
    chunks: &[((i32, i32, i32), Option<ChunkStats>)],
    budgets: Budgets,
) -> (save: MarkerSave)
    requires
        forall|i: int| 0 <= i < chunks@.len() ==> is_chunk_key(#[trigger] chunks@[i].0),
    ensures
        is_marker_save(save, chunks@, budgets),
{
    let mut bricks: Vec<MarkerObject> = Vec::new();
    let mut n: usize = 0;
    while n < chunks.len()
        invariant
            n <= chunks@.len(),
            forall|i: int| 0 <= i < chunks@.len() ==> is_chunk_key(#[trigger] chunks@[i].0),
            bricks@.len() == MARKERS_PER_CHUNK * n,
            forall|m: int|
                0 <= m < bricks@.len() ==> #[trigger] bricks@[m] == markers_of(chunks@, budgets)[m],
            decreases chunks@.len() - n,
    {
        let key = chunks[n].0;
        let color = classify_with(chunks[n].1, budgets).color();
        proof {
            lemma_chunk_geometry_fits(key);
        }
        let center = chunk_center(key);
        let mut i: usize = 0;
        while i < MARKERS_PER_CHUNK
            invariant
                i <= MARKERS_PER_CHUNK,
                n < chunks@.len(),
                key == chunks@[n as int].0,
                color == color_of(tier_of(chunks@[n as int].1, budgets)),
                as_ints(center) == center_of(as_ints(key)),
                forall|j: int|
                    0 <= j < 8 ==> fits_i32(#[trigger] corner_of(j, center_of(as_ints(key)))),
                bricks@.len() == MARKERS_PER_CHUNK * n + i,
                forall|m: int|
                    0 <= m < bricks@.len() ==> #[trigger] bricks@[m] == markers_of(
                        chunks@,
                        budgets,
                    )[m],
                    decreases MARKERS_PER_CHUNK - i,
        {
            let position = chunk_corner(i, center);
            let ghost m = bricks@.len() as int;
            bricks.push(
                MarkerObject {
                    owner_index: 1,
                    asset_name_index: 0,
                    material_index: 0,
                    material_intensity: MARKER_INTENSITY,
                    color,
                    size: (1, 1, 1),
                    position,
                },
            );
            proof {
                assert(m / 8 == n && m % 8 == i);
                assert(position == corner_position(key, i as int));
            }
            i = i + 1;
        }
        n = n + 1;
    }
    let mut brick_assets: Vec<String> = Vec::new();
    brick_assets.push(String::from_str("PB_DefaultMicroBrick"));
    let mut materials: Vec<String> = Vec::new();
    materials.push(String::from_str("BMC_Glow"));
    let mut brick_owners: Vec<MarkerOwner> = Vec::new();
    brick_owners.push(
        MarkerOwner { id: marker_owner_uuid(), name: String::from_str("Chunk Marker"), bricks: 0 },
    );
    assert(bricks@ =~= markers_of(chunks@, budgets));
    MarkerSave { brick_assets, materials, brick_owners, bricks }
}

/// Builds the marker save of `chunks` against the standard budgets.
pub fn mark_chunks(chunks: &[((i32, i32, i32), Option<ChunkStats>)]) -> (save: MarkerSave)
    requires
        forall|i: int| 0 <= i < chunks@.len() ==> is_chunk_key(#[trigger] chunks@[i].0),
    ensures
        is_marker_save(save, chunks@, standard_budgets()),
{
    mark_chunks_with(chunks, Budgets::standard())
}

/// One chunk gets exactly eight markers, all in the one colour of its tier,
/// the marker of index `i` at corner `i` of the chunk's marker cube: the
/// eight sign combinations of the reach around the chunk's center.
pub proof fn lemma_markers_of_one_chunk(
    key: (i32, i32, i32),
    stats: Option<ChunkStats>,
    budgets: Budgets,
)
    ensures
        markers_of(seq![(key, stats)], budgets).len() == 8,
        forall|i: int|
            0 <= i < 8 ==> #[trigger] markers_of(seq![(key, stats)], budgets)[i] == marker_at(
                color_of(tier_of(stats, budgets)),
                corner_position(key, i),
            ),
{
}

/// No chunk, no marker.
pub proof fn lemma_markers_of_nothing(budgets: Budgets)
    ensures
        markers_of(Seq::empty(), budgets) == Seq::<MarkerObject>::empty(),
{
    assert(markers_of(Seq::empty(), budgets) =~= Seq::<MarkerObject>::empty());
}

} // verus!
