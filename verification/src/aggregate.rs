//! Summing the costs of a save's objects, chunk by chunk.
use vstd::prelude::*;
use crate::analysis::{fits_stats, joined, stats_from, AnalysisResult};
use crate::classify::ChunkStats;
use crate::costs::{cost_in, CostTable};
use crate::grid::{chunk_key, pos_to_chunk};

verus! {

/// One placed object of a save.
#[derive(Debug)]
pub struct WorldObject {
    /// Where the object stands.
    pub position: (i32, i32, i32),
    /// Which entry of the save's asset table the object is an instance of.
    pub asset_name_index: u32,
    /// The names of the components attached to the object. A name that is
    /// listed more than once is one component.
    pub components: Vec<String>,
}

/// Why a save could not be summed.
#[derive(Clone, Copy, Debug, PartialEq, Eq, Structural)]
pub enum AggregateError {
    /// Some object names an asset beyond the end of the asset table.
    UnknownAsset,
    /// Some chunk's object count or summed cost is beyond `u32::MAX`.
    CostOverflow,
}

/// The text of each string of a list.
pub open spec fn texts(strings: Seq<String>) -> Seq<Seq<char>> {
    strings.map_values(|s: String| s@)
}

/// The component cost of an object: how many distinct components it has.
pub open spec fn component_cost_of(object: WorldObject) -> nat {
    texts(object.components@).to_set().len()
}

/// The physics cost of an object: the cost of its asset's name.
pub open spec fn physics_cost_of(
    object: WorldObject,
    assets: Seq<Seq<char>>,
    costs: Map<Seq<char>, u32>,
) -> nat {
    cost_in(costs, assets[object.asset_name_index as int]) as nat
}

/// Whether every object names an entry of an asset table of `assets` names.
pub open spec fn assets_known(objects: Seq<WorldObject>, assets: nat) -> bool {
    forall|i: int| 0 <= i < objects.len() ==> (#[trigger] objects[i]).asset_name_index < assets
}

/// What one object adds to the totals of chunk `key`: one object and its
/// two costs where it stands in that chunk, nothing where it does not.
pub open spec fn share(
    object: WorldObject,
    assets: Seq<Seq<char>>,
    costs: Map<Seq<char>, u32>,
    key: (i32, i32, i32),
) -> (int, int, int) {
    if chunk_key(object.position) == key {
        (1, physics_cost_of(object, assets, costs) as int, component_cost_of(object) as int)
    } else {
        (0, 0, 0)
    }
}

/// The totals of chunk `key`: how many of `objects` stand in it, their
/// summed physics cost and their summed component cost.
pub open spec fn tally(
    objects: Seq<WorldObject>,
    assets: Seq<Seq<char>>,
    costs: Map<Seq<char>, u32>,
    key: (i32, i32, i32),
) -> (int, int, int)
    decreases objects.len(),
{
    if objects.len() == 0 {
        (0, 0, 0)
    } else {
        let rest = tally(objects.drop_last(), assets, costs, key);
        let part = share(objects.last(), assets, costs, key);
        (rest.0 + part.0, rest.1 + part.1, rest.2 + part.2)
    }
}

/// Whether the totals of every chunk are representable.
pub open spec fn totals_fit(
    objects: Seq<WorldObject>,
    assets: Seq<Seq<char>>,
    costs: Map<Seq<char>, u32>,
) -> bool {
    forall|key: (i32, i32, i32)| fits_stats(#[trigger] tally(objects, assets, costs, key))
}

/// The statistics of a save: the totals of each chunk that holds at least
/// one object, and no entry for any other chunk.
pub open spec fn aggregate_of(
    objects: Seq<WorldObject>,
    assets: Seq<Seq<char>>,
    costs: Map<Seq<char>, u32>,
) -> Map<(i32, i32, i32), ChunkStats> {
    Map::new(
        |key: (i32, i32, i32)| tally(objects, assets, costs, key).0 > 0,
        |key: (i32, i32, i32)| stats_from(tally(objects, assets, costs, key)),
    )
}

/// Totals are never negative, and a chunk without objects has no cost.
pub proof fn lemma_tally_bounds(
    objects: Seq<WorldObject>,
    assets: Seq<Seq<char>>,
    costs: Map<Seq<char>, u32>,
    key: (i32, i32, i32),
)
    ensures
        tally(objects, assets, costs, key).0 >= 0,
        tally(objects, assets, costs, key).1 >= 0,
        tally(objects, assets, costs, key).2 >= 0,
        tally(objects, assets, costs, key).0 == 0 ==> tally(objects, assets, costs, key) == (
            0int,
            0int,
            0int,
        ),
    decreases objects.len(),
{
    if objects.len() > 0 {
        lemma_tally_bounds(objects.drop_last(), assets, costs, key);
    }
}

/// Taking one object out of a save takes its share out of each total.
proof fn lemma_tally_remove(
    objects: Seq<WorldObject>,
    assets: Seq<Seq<char>>,
    costs: Map<Seq<char>, u32>,
    key: (i32, i32, i32),
    at: int,
)
    requires
        0 <= at < objects.len(),
    ensures
        tally(objects, assets, costs, key).0 == tally(objects.remove(at), assets, costs, key).0
            + share(objects[at], assets, costs, key).0,
        tally(objects, assets, costs, key).1 == tally(objects.remove(at), assets, costs, key).1
            + share(objects[at], assets, costs, key).1,
        tally(objects, assets, costs, key).2 == tally(objects.remove(at), assets, costs, key).2
            + share(objects[at], assets, costs, key).2,
    decreases objects.len(),
{
    if at == objects.len() - 1 {
        assert(objects.remove(at) =~= objects.drop_last());
    } else {
        lemma_tally_remove(objects.drop_last(), assets, costs, key, at);
        assert(objects.remove(at).drop_last() =~= objects.drop_last().remove(at));
        assert(objects.remove(at).last() == objects.last());
    }
}

/// The totals of a chunk do not depend on the order of the objects.
pub proof fn lemma_tally_ignores_order(
    first: Seq<WorldObject>,
    second: Seq<WorldObject>,
    assets: Seq<Seq<char>>,
    costs: Map<Seq<char>, u32>,
    key: (i32, i32, i32),
)
    requires
        first.to_multiset() == second.to_multiset(),
    ensures
        tally(first, assets, costs, key) == tally(second, assets, costs, key),
    decreases first.len(),
{
    broadcast use vstd::seq_lib::group_to_multiset_ensures;

    if first.len() == 0 {
        assert(second.len() == 0) by {
            assert(first.to_multiset().len() == first.len());
            assert(second.to_multiset().len() == second.len());
        }
    } else {
        let object = first.last();
        assert(first.drop_last().push(object) =~= first);
        assert(second.to_multiset().count(object) > 0);
        assert(second.contains(object));
        let at = choose|at: int| 0 <= at < second.len() && second[at] == object;
        assert(first.drop_last().to_multiset() =~= second.remove(at).to_multiset()) by {
            assert(first.to_multiset() =~= first.drop_last().to_multiset().insert(object));
            assert(first.drop_last().to_multiset() =~= first.to_multiset().remove(object));
        }
        lemma_tally_ignores_order(first.drop_last(), second.remove(at), assets, costs, key);
        lemma_tally_remove(second, assets, costs, key, at);
    }
}

/// Summing is independent of the order of the objects: two saves that hold
/// the same objects, in whatever order, have the same statistics, and what
/// rules a save out (an unknown asset, a total out of range) rules out both.
pub proof fn lemma_aggregate_ignores_order(
    first: Seq<WorldObject>,
    second: Seq<WorldObject>,
    assets: Seq<Seq<char>>,
    costs: Map<Seq<char>, u32>,
)
    requires
        first.to_multiset() == second.to_multiset(),
    ensures
        aggregate_of(first, assets, costs) == aggregate_of(second, assets, costs),
        totals_fit(first, assets, costs) == totals_fit(second, assets, costs),
        assets_known(first, assets.len()) == assets_known(second, assets.len()),
{
    broadcast use vstd::seq_lib::group_to_multiset_ensures;

    assert forall|key: (i32, i32, i32)|
        tally(first, assets, costs, key) == tally(second, assets, costs, key) by {
        lemma_tally_ignores_order(first, second, assets, costs, key);
    }
    assert(aggregate_of(first, assets, costs) =~= aggregate_of(second, assets, costs));
    assert(assets_known(first, assets.len()) ==> assets_known(second, assets.len())) by {
        if assets_known(first, assets.len()) {
            assert forall|i: int| 0 <= i < second.len() implies (
            #[trigger] second[i]).asset_name_index < assets.len() by {
                assert(second.contains(second[i]));
                assert(first.to_multiset().count(second[i]) > 0);
                assert(first.contains(second[i]));
            }
        }
    }
    assert(assets_known(second, assets.len()) ==> assets_known(first, assets.len())) by {
        if assets_known(second, assets.len()) {
            assert forall|i: int| 0 <= i < first.len() implies (
            #[trigger] first[i]).asset_name_index < assets.len() by {
                assert(first.contains(first[i]));
                assert(second.to_multiset().count(first[i]) > 0);
                assert(second.contains(first[i]));
            }
        }
    }
}

/// How many distinct names a list of component names holds.
pub fn distinct_names(names: &Vec<String>) -> (count: usize)
    ensures
        count == texts(names@).to_set().len(),
{
    let mut count: usize = 0;
    let mut i: usize = 0;
    assert(texts(names@).take(0) =~= Seq::<Seq<char>>::empty());
    assert(Seq::<Seq<char>>::empty().to_set() =~= Set::<Seq<char>>::empty());
    while i < names.len()
        invariant
            i <= names.len(),
            count <= i,
            count == texts(names@).take(i as int).to_set().len(),
        decreases names.len() - i,
    {
        let mut seen = false;
        let mut j: usize = 0;
        while j < i && !seen
            invariant
                j <= i < names.len(),
                seen ==> exists|k: int| 0 <= k < i && names[k]@ == names[i as int]@,
                !seen ==> forall|k: int| 0 <= k < j ==> names[k]@ != names[i as int]@,
            decreases i - j + if seen { 0int } else { 1int },
        {
            if names[j] == names[i] {
                seen = true;
            } else {
                j = j + 1;
            }
        }
        proof {
            let all = texts(names@);
            let before = all.take(i as int);
            let name = all[i as int];
            assert(all.take(i + 1) =~= before.push(name));
            before.lemma_push_to_set_commute(name);
            if seen {
                let k = choose|k: int| 0 <= k < i && names[k]@ == names[i as int]@;
                assert(before[k] == name);
                assert(before.to_set().contains(name));
                assert(before.to_set().insert(name) =~= before.to_set());
            } else {
                assert(!before.to_set().contains(name)) by {
                    if before.to_set().contains(name) {
                        let k = choose|k: int| 0 <= k < before.len() && before[k] == name;
                        assert(names[k]@ == names[i as int]@);
                    }
                }
            }
        }
        if !seen {
            count = count + 1;
        }
        i = i + 1;
    }
    assert(texts(names@).take(names.len() as int) =~= texts(names@));
    count
}

/// The physics cost of each entry of an asset table, in table order.
pub fn asset_costs(assets: &Vec<String>, costs: &CostTable) -> (prices: Vec<u32>)
    ensures
        prices.len() == assets.len(),
        forall|i: int|
            0 <= i < assets.len() ==> #[trigger] prices[i] == cost_in(costs@, assets[i]@),
{
    let mut prices: Vec<u32> = Vec::new();
    let mut i: usize = 0;
    while i < assets.len()
        invariant
            i <= assets.len(),
            prices.len() == i,
            forall|j: int| 0 <= j < i ==> #[trigger] prices[j] == cost_in(costs@, assets[j]@),
        decreases assets.len() - i,
    {
        prices.push(costs.cost_of(&assets[i]));
        i = i + 1;
    }
    prices
}

/// Sums the objects of a save chunk by chunk, in one pass. Each object
/// counts once, in the chunk that holds its position, with the physics cost
/// of its asset and with its number of distinct components.
pub fn aggregate(objects: &Vec<WorldObject>, assets: &Vec<String>, costs: &CostTable) -> (result:
    Result<AnalysisResult, AggregateError>)
    ensures
        match result {
            Ok(analysis) => {
                &&& assets_known(objects@, assets@.len())
                &&& totals_fit(objects@, texts(assets@), costs@)
                &&& analysis@ == aggregate_of(objects@, texts(assets@), costs@)
            },
            Err(AggregateError::UnknownAsset) => !assets_known(objects@, assets@.len()),
            Err(AggregateError::CostOverflow) => {
                &&& assets_known(objects@, assets@.len())
                &&& !totals_fit(objects@, texts(assets@), costs@)
            },
        },
{
    let prices = asset_costs(assets, costs);
    let mut analysis = AnalysisResult::new();
    let mut overflowed = false;
    let ghost mut burst: (i32, i32, i32) = (0, 0, 0);
    let ghost names = texts(assets@);
    let mut i: usize = 0;
    proof {
        assert(objects@.take(0) =~= Seq::<WorldObject>::empty());
        assert(analysis@ =~= aggregate_of(objects@.take(0), names, costs@));
    }
    while i < objects.len()
        invariant
            i <= objects.len(),
            names == texts(assets@),
            prices.len() == assets.len(),
            forall|j: int|
                0 <= j < assets.len() ==> #[trigger] prices[j] == cost_in(costs@, assets[j]@),
            assets_known(objects@.take(i as int), assets@.len()),
            !overflowed ==> analysis@ == aggregate_of(objects@.take(i as int), names, costs@),
            !overflowed ==> totals_fit(objects@.take(i as int), names, costs@),
            overflowed ==> !fits_stats(tally(objects@.take(i as int), names, costs@, burst)),
        decreases objects.len() - i,
    {
        let object = &objects[i];
        let ghost before = objects@.take(i as int);
        let ghost after = objects@.take(i + 1);
        proof {
            assert(after.drop_last() =~= before);
            assert(after.last() == objects[i as int]);
        }
        if object.asset_name_index as usize >= assets.len() {
            proof {
                assert(!(objects@[i as int].asset_name_index < assets@.len()));
            }
            return Err(AggregateError::UnknownAsset);
        }
        proof {
            assert forall|j: int| 0 <= j < after.len() implies (
            #[trigger] after[j]).asset_name_index < assets@.len() by {
                if j < i {
                    assert(before[j] == after[j]);
                }
            }
        }
        if !overflowed {
            let key = pos_to_chunk(object.position);
            let physics = prices[object.asset_name_index as usize];
            let components = distinct_names(&object.components);
            let ghost old_chunks = analysis@;
            proof {
                lemma_tally_bounds(before, names, costs@, key);
                let asset = object.asset_name_index as int;
                assert(names[asset] == assets[asset]@);
                assert(tally(after, names, costs@, key) == joined(
                    old_chunks.get(key),
                    physics,
                    components as nat,
                ));
            }
            match analysis.with_object(key, physics, components) {
                Some(summed) => {
                    proof {
                        assert forall|k: (i32, i32, i32)| fits_stats(
                            #[trigger] tally(after, names, costs@, k),
                        ) by {
                            if k != key {
                                assert(tally(after, names, costs@, k) == tally(
                                    before,
                                    names,
                                    costs@,
                                    k,
                                ));
                            }
                        }
                        assert(summed@ =~= aggregate_of(after, names, costs@)) by {
                            assert forall|k: (i32, i32, i32)| k != key implies tally(
                                after,
                                names,
                                costs@,
                                k,
                            ) == tally(before, names, costs@, k) by {}
                        }
                    }
                    analysis = summed;
                },
                None => {
                    proof {
                        burst = key;
                    }
                    overflowed = true;
                    analysis = AnalysisResult::new();
                },
            }
        } else {
            proof {
                lemma_tally_bounds(before, names, costs@, burst);
            }
        }
        i = i + 1;
    }
    proof {
        assert(objects@.take(objects.len() as int) =~= objects@);
    }
    if overflowed {
        Err(AggregateError::CostOverflow)
    } else {
        Ok(analysis)
    }
}

} // verus!
