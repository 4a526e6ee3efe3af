//! The table of physics costs, by asset name.
use vstd::prelude::*;

verus! {

/// Physics cost of an asset that the table does not list.
pub const DEFAULT_COST: u32 = 1;

/// Physics cost of each listed asset, by name.
#[derive(Debug)]
pub struct CostTable {
    entries: Vec<(String, u32)>,
}

/// The mapping that a list of entries stands for: a later entry replaces an
/// earlier one of the same name.
pub open spec fn table_of(entries: Seq<(String, u32)>) -> Map<Seq<char>, u32>
    decreases entries.len(),
{
    if entries.len() == 0 {
        Map::empty()
    } else {
        table_of(entries.drop_last()).insert(entries.last().0@, entries.last().1)
    }
}

/// The physics cost of the asset `name` under `table`: its entry, or
/// `DEFAULT_COST` where it has none.
pub open spec fn cost_in(table: Map<Seq<char>, u32>, name: Seq<char>) -> u32 {
    if table.contains_key(name) {
        table[name]
    } else {
        DEFAULT_COST
    }
}

impl View for CostTable {
    type V = Map<Seq<char>, u32>;

    closed spec fn view(&self) -> Map<Seq<char>, u32> {
        table_of(self.entries@)
    }
}

impl CostTable {
    /// A table that lists nothing: every asset costs `DEFAULT_COST`.
    pub fn new() -> (table: CostTable)
        ensures
            table@ == Map::<Seq<char>, u32>::empty(),
    {
        CostTable { entries: Vec::new() }
    }

    /// Sets the cost of the asset `name`, replacing any earlier cost.
    pub fn insert(&mut self, name: String, cost: u32)
        ensures
            final(self)@ == old(self)@.insert(name@, cost),
    {
        self.entries.push((name, cost));
        assert(self.entries@.drop_last() == old(self).entries@);
    }

    /// The cost listed for `name`, if any.
    pub fn get(&self, name: &String) -> (cost: Option<u32>)
        ensures
            cost == if self@.contains_key(name@) {
                Some(self@[name@])
            } else {
                None
            },
    {
        let mut i: usize = self.entries.len();
        assert(self.entries@.take(i as int) == self.entries@);
        while i > 0
            invariant
                i <= self.entries.len(),
                table_of(self.entries@).contains_key(name@) == table_of(
                    self.entries@.take(i as int),
                ).contains_key(name@),
                table_of(self.entries@).contains_key(name@) ==> table_of(self.entries@)[name@]
                    == table_of(self.entries@.take(i as int))[name@],
            decreases i,
        {
            i = i - 1;
            let ghost prefix = self.entries@.take(i + 1);
            assert(prefix.drop_last() == self.entries@.take(i as int));
            assert(prefix.last() == self.entries@[i as int]);
            if self.entries[i].0 == *name {
                return Some(self.entries[i].1);
            }
        }
        None
    }

    /// The physics cost of the asset `name`.
    pub fn cost_of(&self, name: &String) -> (cost: u32)
        ensures
            cost == cost_in(self@, name@),
    {
        match self.get(name) {
            Some(cost) => cost,
            None => DEFAULT_COST,
        }
    }
}

} // verus!
