use chunks::aggregate::{aggregate, asset_costs, distinct_names, AggregateError, WorldObject};
use chunks::analysis::{key_less, AnalysisResult};
use chunks::classify::ChunkStats;
use chunks::costs::{CostTable, DEFAULT_COST};

fn object(position: (i32, i32, i32), asset_name_index: u32, components: &[&str]) -> WorldObject {
    WorldObject {
        position,
        asset_name_index,
        components: components.iter().map(|name| name.to_string()).collect(),
    }
}

fn assets() -> Vec<String> {
    vec!["PB_DefaultBrick".to_string(), "B_Ramp".to_string(), "B_Unlisted".to_string()]
}

fn costs() -> CostTable {
    let mut table = CostTable::new();
    table.insert("PB_DefaultBrick".to_string(), 3);
    table.insert("B_Ramp".to_string(), 10);
    table
}

fn stats(object_count: u32, physics_cost: u32, component_cost: u32) -> ChunkStats {
    ChunkStats { object_count, physics_cost, component_cost }
}

fn listing(analysis: &AnalysisResult) -> Vec<((i32, i32, i32), Option<ChunkStats>)> {
    analysis.entries()
}

#[test]
fn cost_table_defaults_to_one() {
    let table = costs();
    assert_eq!(DEFAULT_COST, 1);
    assert_eq!(table.cost_of(&"PB_DefaultBrick".to_string()), 3);
    assert_eq!(table.cost_of(&"B_Ramp".to_string()), 10);
    assert_eq!(table.cost_of(&"B_Unlisted".to_string()), 1);
    assert_eq!(table.get(&"B_Unlisted".to_string()), None);
    assert_eq!(table.get(&"B_Ramp".to_string()), Some(10));
    assert_eq!(CostTable::new().cost_of(&"anything".to_string()), 1);
}

#[test]
fn cost_table_keeps_the_latest_cost() {
    let mut table = costs();
    table.insert("B_Ramp".to_string(), 25);
    assert_eq!(table.cost_of(&"B_Ramp".to_string()), 25);
    assert_eq!(table.cost_of(&"PB_DefaultBrick".to_string()), 3);
    table.insert("B_Ramp".to_string(), 0);
    assert_eq!(table.get(&"B_Ramp".to_string()), Some(0));
}

#[test]
fn cost_table_names_are_case_sensitive() {
    let table = costs();
    assert_eq!(table.cost_of(&"b_ramp".to_string()), 1);
}

#[test]
fn asset_costs_follow_the_asset_table() {
    assert_eq!(asset_costs(&assets(), &costs()), vec![3, 10, 1]);
    assert_eq!(asset_costs(&Vec::new(), &costs()), Vec::<u32>::new());
}

#[test]
fn distinct_names_counts_each_name_once() {
    let names = |list: &[&str]| -> Vec<String> { list.iter().map(|s| s.to_string()).collect() };
    assert_eq!(distinct_names(&names(&[])), 0);
    assert_eq!(distinct_names(&names(&["a"])), 1);
    assert_eq!(distinct_names(&names(&["a", "b", "c"])), 3);
    assert_eq!(distinct_names(&names(&["a", "b", "a", "a", "b"])), 2);
    assert_eq!(distinct_names(&names(&["a", "A"])), 2);
}

#[test]
fn empty_save_has_no_chunks() {
    let analysis = aggregate(&Vec::new(), &assets(), &costs()).unwrap();
    assert!(analysis.is_empty());
    assert_eq!(analysis.len(), 0);
    assert_eq!(analysis.get((0, 0, 0)), None);
    assert!(listing(&analysis).is_empty());
}

#[test]
fn objects_are_summed_per_chunk() {
    let objects = vec![
        object((0, 0, 0), 0, &["BCD_Interact"]),
        object((511, 511, 511), 1, &["BCD_Interact", "BCD_PointLight"]),
        object((512, 0, 0), 2, &[]),
        object((-1, -1, -1), 1, &["BCD_Audio"]),
        object((100, 200, 300), 2, &[]),
    ];
    let analysis = aggregate(&objects, &assets(), &costs()).unwrap();
    assert_eq!(analysis.len(), 3);
    assert!(!analysis.is_empty());
    assert_eq!(analysis.get((0, 0, 0)), Some(stats(3, 14, 3)));
    assert_eq!(analysis.get((1, 0, 0)), Some(stats(1, 1, 0)));
    assert_eq!(analysis.get((-1, -1, -1)), Some(stats(1, 10, 1)));
    assert_eq!(analysis.get((0, 0, 1)), None);
}

#[test]
fn negative_positions_do_not_share_the_origin_chunk() {
    let objects = vec![object((-1, 0, 0), 0, &[]), object((0, 0, 0), 0, &[])];
    let analysis = aggregate(&objects, &assets(), &costs()).unwrap();
    assert_eq!(analysis.get((-1, 0, 0)), Some(stats(1, 3, 0)));
    assert_eq!(analysis.get((0, 0, 0)), Some(stats(1, 3, 0)));
}

#[test]
fn repeated_component_names_count_once() {
    let objects = vec![object((0, 0, 0), 0, &["BCD_Interact", "BCD_Interact", "BCD_Audio"])];
    let analysis = aggregate(&objects, &assets(), &costs()).unwrap();
    assert_eq!(analysis.get((0, 0, 0)), Some(stats(1, 3, 2)));
}

#[test]
fn aggregation_ignores_object_order() {
    let build = |order: &[usize]| {
        let all = [
            ((0, 0, 0), 0u32, vec!["a"]),
            ((600, -600, 0), 1, vec!["a", "b"]),
            ((10, 10, 10), 2, vec![]),
            ((-5000, 7, 7), 1, vec!["c"]),
            ((600, -513, 1), 0, vec!["d"]),
        ];
        let objects: Vec<WorldObject> = order
            .iter()
            .map(|&i| object(all[i].0, all[i].1, &all[i].2))
            .collect();
        listing(&aggregate(&objects, &assets(), &costs()).unwrap())
    };
    let first = build(&[0, 1, 2, 3, 4]);
    assert_eq!(first, build(&[4, 3, 2, 1, 0]));
    assert_eq!(first, build(&[2, 0, 4, 1, 3]));
    assert_eq!(
        first,
        vec![
            ((-10, 0, 0), Some(stats(1, 10, 1))),
            ((0, 0, 0), Some(stats(2, 4, 1))),
            ((1, -2, 0), Some(stats(2, 13, 3))),
        ]
    );
}

#[test]
fn entries_come_in_key_order() {
    let objects = vec![
        object((0, 0, 512), 0, &[]),
        object((0, 512, 0), 0, &[]),
        object((512, 0, 0), 0, &[]),
        object((0, 0, 0), 0, &[]),
        object((0, 0, -1), 0, &[]),
        object((0, -1, 0), 0, &[]),
        object((-1, 0, 0), 0, &[]),
        object((-1, 600, 0), 0, &[]),
    ];
    let analysis = aggregate(&objects, &assets(), &costs()).unwrap();
    let keys: Vec<(i32, i32, i32)> = listing(&analysis).iter().map(|entry| entry.0).collect();
    assert_eq!(
        keys,
        vec![
            (-1, 0, 0),
            (-1, 1, 0),
            (0, -1, 0),
            (0, 0, -1),
            (0, 0, 0),
            (0, 0, 1),
            (0, 1, 0),
            (1, 0, 0),
        ]
    );
    for entry in listing(&analysis) {
        assert_eq!(entry.1, Some(stats(1, 3, 0)));
        assert_eq!(analysis.get(entry.0), entry.1);
    }
}

#[test]
fn unknown_asset_is_an_error() {
    let objects = vec![object((0, 0, 0), 0, &[]), object((0, 0, 0), 3, &[])];
    assert_eq!(
        aggregate(&objects, &assets(), &costs()).unwrap_err(),
        AggregateError::UnknownAsset
    );
    let objects = vec![object((0, 0, 0), 0, &[])];
    assert_eq!(
        aggregate(&objects, &Vec::new(), &costs()).unwrap_err(),
        AggregateError::UnknownAsset
    );
}

#[test]
fn totals_beyond_u32_are_an_error() {
    let mut table = CostTable::new();
    table.insert("B_Heavy".to_string(), u32::MAX);
    let heavy = vec!["B_Heavy".to_string()];
    let one = vec![object((0, 0, 0), 0, &[])];
    let analysis = aggregate(&one, &heavy, &table).unwrap();
    assert_eq!(analysis.get((0, 0, 0)), Some(stats(1, u32::MAX, 0)));
    let two = vec![object((0, 0, 0), 0, &[]), object((1, 1, 1), 0, &[])];
    assert_eq!(aggregate(&two, &heavy, &table).unwrap_err(), AggregateError::CostOverflow);
    let apart = vec![object((0, 0, 0), 0, &[]), object((512, 0, 0), 0, &[])];
    assert_eq!(aggregate(&apart, &heavy, &table).unwrap().len(), 2);
}

#[test]
fn unknown_asset_outranks_overflow_in_any_order() {
    let mut table = CostTable::new();
    table.insert("B_Heavy".to_string(), u32::MAX);
    let heavy = vec!["B_Heavy".to_string()];
    let objects = vec![
        object((0, 0, 0), 0, &[]),
        object((0, 0, 0), 0, &[]),
        object((0, 0, 0), 7, &[]),
    ];
    assert_eq!(aggregate(&objects, &heavy, &table).unwrap_err(), AggregateError::UnknownAsset);
    let objects = vec![
        object((0, 0, 0), 7, &[]),
        object((0, 0, 0), 0, &[]),
        object((0, 0, 0), 0, &[]),
    ];
    assert_eq!(aggregate(&objects, &heavy, &table).unwrap_err(), AggregateError::UnknownAsset);
}

#[test]
fn new_analysis_is_empty() {
    let analysis = AnalysisResult::new();
    assert!(analysis.is_empty());
    assert_eq!(analysis.len(), 0);
    assert_eq!(analysis.get((1, 2, 3)), None);
    assert!(analysis.entries().is_empty());
}

#[test]
fn keys_are_ordered_axis_by_axis() {
    assert!(key_less((0, 0, 0), (0, 0, 1)));
    assert!(key_less((0, 0, 9), (0, 1, 0)));
    assert!(key_less((0, 9, 9), (1, 0, 0)));
    assert!(key_less((-1, 9, 9), (0, -9, -9)));
    assert!(key_less((i32::MIN, 0, 0), (i32::MAX, 0, 0)));
    assert!(!key_less((0, 0, 0), (0, 0, 0)));
    assert!(!key_less((0, 0, 1), (0, 0, 0)));
    assert!(!key_less((1, 0, 0), (0, 9, 9)));
}
