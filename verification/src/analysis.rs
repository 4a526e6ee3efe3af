//! The result of one analysis: the statistics of every chunk that holds an
//! object.
use vstd::prelude::*;
use crate::classify::ChunkStats;
use crate::grid::is_chunk_key;

verus! {

/// Lexicographic order on chunk keys: first axis, then second, then third.
pub open spec fn key_lt(a: (i32, i32, i32), b: (i32, i32, i32)) -> bool {
    a.0 < b.0 || (a.0 == b.0 && (a.1 < b.1 || (a.1 == b.1 && a.2 < b.2)))
}

/// Tests `key_lt`.
pub fn key_less(a: (i32, i32, i32), b: (i32, i32, i32)) -> (less: bool)
    ensures
        less == key_lt(a, b),
{
    a.0 < b.0 || (a.0 == b.0 && (a.1 < b.1 || (a.1 == b.1 && a.2 < b.2)))
}

/// Whether `listing` lists `chunks` in key order: each chunk once, with its
/// statistics, keys strictly ascending.
pub open spec fn lists_in_key_order(
    listing: Seq<((i32, i32, i32), Option<ChunkStats>)>,
    chunks: Map<(i32, i32, i32), ChunkStats>,
) -> bool {
    &&& forall|i: int, j: int|
        0 <= i < j < listing.len() ==> key_lt(#[trigger] listing[i].0, #[trigger] listing[j].0)
    &&& forall|i: int|
        0 <= i < listing.len() ==> chunks.contains_key(#[trigger] listing[i].0) && listing[i].1
            == Some(chunks[listing[i].0])
    &&& forall|k: (i32, i32, i32)| #[trigger]
        chunks.contains_key(k) ==> exists|i: int|
            0 <= i < listing.len() && #[trigger] listing[i].0 == k
}

/// The statistics a chunk holds once an object of the given costs joins it.
pub open spec fn joined(before: Option<ChunkStats>, physics: u32, components: nat) -> (
    int,
    int,
    int,
) {
    match before {
        Some(s) => (s.object_count + 1, s.physics_cost + physics, s.component_cost + components),
        None => (1, physics as int, components as int),
    }
}

/// Whether three totals are representable as a `ChunkStats`.
pub open spec fn fits_stats(t: (int, int, int)) -> bool {
    t.0 <= u32::MAX && t.1 <= u32::MAX && t.2 <= u32::MAX
}

/// Three representable totals as a `ChunkStats`.
pub open spec fn stats_from(t: (int, int, int)) -> ChunkStats {
    ChunkStats { object_count: t.0 as u32, physics_cost: t.1 as u32, component_cost: t.2 as u32 }
}

/// Per-chunk statistics of one save. Only chunks that hold an object are
/// present, and only chunks of the representable world.
#[derive(Debug)]
pub struct AnalysisResult {
    entries: Vec<((i32, i32, i32), ChunkStats)>,
}

impl View for AnalysisResult {
    type V = Map<(i32, i32, i32), ChunkStats>;

    closed spec fn view(&self) -> Map<(i32, i32, i32), ChunkStats> {
        Map::new(
            |k: (i32, i32, i32)| self.position_of(k) is Some,
            |k: (i32, i32, i32)| self.entries[self.position_of(k).unwrap()].1,
        )
    }
}

impl AnalysisResult {
    #[verifier::type_invariant]
    closed spec fn well_formed(self) -> bool {
        &&& forall|i: int, j: int|
            0 <= i < j < self.entries.len() ==> key_lt(
                #[trigger] self.entries[i].0,
                #[trigger] self.entries[j].0,
            )
        &&& forall|i: int|
            0 <= i < self.entries.len() ==> is_chunk_key(#[trigger] self.entries[i].0)
                && self.entries[i].1.object_count >= 1
    }

    /// Where `key` stands among the entries, if it does.
    closed spec fn position_of(self, key: (i32, i32, i32)) -> Option<int> {
        if exists|i: int| 0 <= i < self.entries.len() && self.entries[i].0 == key {
            Some(choose|i: int| 0 <= i < self.entries.len() && self.entries[i].0 == key)
        } else {
            None
        }
    }

    /// Each entry is what the view holds under its key.
    proof fn lemma_entries_are_the_view(self)
        requires
            self.well_formed(),
        ensures
            forall|i: int|
                0 <= i < self.entries.len() ==> self@.contains_key(#[trigger] self.entries[i].0)
                    && self@[self.entries[i].0] == self.entries[i].1,
            forall|k: (i32, i32, i32)| #[trigger]
                self@.contains_key(k) ==> exists|i: int|
                    0 <= i < self.entries.len() && #[trigger] self.entries[i].0 == k,
    {
        assert forall|i: int| 0 <= i < self.entries.len() implies self@.contains_key(
            #[trigger] self.entries[i].0,
        ) && self@[self.entries[i].0] == self.entries[i].1 by {
            let k = self.entries[i].0;
            let p = self.position_of(k).unwrap();
            assert(self.entries[p].0 == k);
            if p < i {
                assert(key_lt(self.entries[p].0, self.entries[i].0));
            }
            if i < p {
                assert(key_lt(self.entries[i].0, self.entries[p].0));
            }
        }
    }

    /// The view is the one map that the entries spell out.
    proof fn lemma_view_is(self, chunks: Map<(i32, i32, i32), ChunkStats>)
        requires
            self.well_formed(),
            forall|i: int|
                0 <= i < self.entries.len() ==> chunks.contains_key(#[trigger] self.entries[i].0)
                    && chunks[self.entries[i].0] == self.entries[i].1,
            forall|k: (i32, i32, i32)| #[trigger]
                chunks.contains_key(k) ==> exists|i: int|
                    0 <= i < self.entries.len() && #[trigger] self.entries[i].0 == k,
        ensures
            self@ == chunks,
    {
        self.lemma_entries_are_the_view();
        assert forall|k: (i32, i32, i32)| self@.contains_key(k) == chunks.contains_key(k) by {
            if self@.contains_key(k) {
                let p = choose|p: int| 0 <= p < self.entries.len() && self.entries[p].0 == k;
                assert(chunks.contains_key(self.entries[p].0));
            }
            if chunks.contains_key(k) {
                let p = choose|p: int|
                    0 <= p < self.entries.len() && #[trigger] self.entries[p].0 == k;
                assert(self@.contains_key(self.entries[p].0));
            }
        }
        assert forall|k: (i32, i32, i32)| self@.contains_key(k) implies self@[k] == chunks[k] by {
            let p = choose|p: int| 0 <= p < self.entries.len() && self.entries[p].0 == k;
            assert(chunks[self.entries[p].0] == self.entries[p].1);
            assert(self@[self.entries[p].0] == self.entries[p].1);
        }
        assert(self@ =~= chunks);
    }

    /// A result that holds no chunk.
    pub fn new() -> (result: AnalysisResult)
        ensures
            result@ == Map::<(i32, i32, i32), ChunkStats>::empty(),
    {
        let result = AnalysisResult { entries: Vec::new() };
        assert(result@ =~= Map::<(i32, i32, i32), ChunkStats>::empty());
        result
    }

    /// How many chunks hold an object.
    pub fn len(&self) -> (n: usize)
        ensures
            n == self@.dom().len(),
            self@.dom().finite(),
    {
        proof {
            use_type_invariant(self);
            self.lemma_entries_are_the_view();
            lemma_keyed_len(self.entries@, self@.dom());
        }
        self.entries.len()
    }

    /// Whether no chunk holds an object.
    pub fn is_empty(&self) -> (b: bool)
        ensures
            b == (self@ == Map::<(i32, i32, i32), ChunkStats>::empty()),
    {
        proof {
            use_type_invariant(self);
            self.lemma_entries_are_the_view();
            if self.entries.len() == 0 {
                assert(self@ =~= Map::<(i32, i32, i32), ChunkStats>::empty());
            } else {
                assert(self@.contains_key(self.entries[0].0));
            }
        }
        self.entries.len() == 0
    }

    /// The index of the first entry whose key is not below `key`.
    fn lower_bound(&self, key: (i32, i32, i32)) -> (at: usize)
        ensures
            at <= self.entries.len(),
            forall|i: int| 0 <= i < at ==> key_lt(#[trigger] self.entries[i].0, key),
            forall|i: int|
                at <= i < self.entries.len() ==> !key_lt(#[trigger] self.entries[i].0, key),
    {
        proof {
            use_type_invariant(self);
        }
        let mut lo: usize = 0;
        let mut hi: usize = self.entries.len();
        while lo < hi
            invariant
                lo <= hi <= self.entries.len(),
                self.well_formed(),
                forall|i: int| 0 <= i < lo ==> key_lt(#[trigger] self.entries[i].0, key),
                forall|i: int|
                    hi <= i < self.entries.len() ==> !key_lt(#[trigger] self.entries[i].0, key),
            decreases hi - lo,
        {
            let mid: usize = lo + (hi - lo) / 2;
            if key_less(self.entries[mid].0, key) {
                assert forall|i: int| 0 <= i < mid + 1 implies key_lt(
                    #[trigger] self.entries[i].0,
                    key,
                ) by {
                    if i < mid {
                        assert(key_lt(self.entries[i].0, self.entries[mid as int].0));
                    }
                }
                lo = mid + 1;
            } else {
                assert forall|i: int| mid <= i < self.entries.len() implies !key_lt(
                    #[trigger] self.entries[i].0,
                    key,
                ) by {
                    if mid < i {
                        assert(key_lt(self.entries[mid as int].0, self.entries[i].0));
                    }
                }
                hi = mid;
            }
        }
        lo
    }

    /// The statistics of chunk `key`, if it holds an object.
    pub fn get(&self, key: (i32, i32, i32)) -> (stats: Option<ChunkStats>)
        ensures
            stats == if self@.contains_key(key) {
                Some(self@[key])
            } else {
                None
            },
            stats matches Some(s) ==> s.object_count >= 1 && is_chunk_key(key),
    {
        proof {
            use_type_invariant(self);
            self.lemma_entries_are_the_view();
        }
        let at = self.lower_bound(key);
        if at < self.entries.len() && !key_less(key, self.entries[at].0) {
            assert(self.entries[at as int].0 == key);
            Some(self.entries[at].1)
        } else {
            assert(!self@.contains_key(key)) by {
                if self@.contains_key(key) {
                    let i = choose|i: int| 0 <= i < self.entries.len() && self.entries[i].0 == key;
                    if at < i {
                        assert(key_lt(self.entries[at as int].0, self.entries[i].0));
                    }
                }
            }
            None
        }
    }

    /// Every chunk with its statistics, in key order.
    pub fn entries(&self) -> (listing: Vec<((i32, i32, i32), Option<ChunkStats>)>)
        ensures
            lists_in_key_order(listing@, self@),
            listing.len() == self@.dom().len(),
            forall|i: int|
                0 <= i < listing.len() ==> is_chunk_key(#[trigger] listing[i].0)
                    && self@[listing[i].0].object_count >= 1,
    {
        proof {
            use_type_invariant(self);
            self.lemma_entries_are_the_view();
            lemma_keyed_len(self.entries@, self@.dom());
        }
        let mut listing: Vec<((i32, i32, i32), Option<ChunkStats>)> = Vec::new();
        let mut i: usize = 0;
        while i < self.entries.len()
            invariant
                i <= self.entries.len(),
                listing.len() == i,
                forall|j: int|
                    0 <= j < i ==> #[trigger] listing[j] == (
                        self.entries[j].0,
                        Some(self.entries[j].1),
                    ),
            decreases self.entries.len() - i,
        {
            listing.push((self.entries[i].0, Some(self.entries[i].1)));
            i = i + 1;
        }
        proof {
            assert forall|k: (i32, i32, i32)| #[trigger] self@.contains_key(k) implies exists|
                i: int,
            |
                0 <= i < listing.len() && #[trigger] listing[i].0 == k by {
                let p = choose|p: int| 0 <= p < self.entries.len() && self.entries[p].0 == k;
                assert(listing[p].0 == k);
            }
        }
        listing
    }

    /// This result with one more object of the given costs counted in chunk
    /// `key`, or `None` where a total would leave the range of `u32`.
    pub(crate) fn with_object(
        self,
        key: (i32, i32, i32),
        physics: u32,
        components: usize,
    ) -> (next: Option<AnalysisResult>)
        requires
            is_chunk_key(key),
        ensures
            next is Some == fits_stats(joined(self@.get(key), physics, components as nat)),
            next matches Some(after) ==> after@ == self@.insert(
                key,
                stats_from(joined(self@.get(key), physics, components as nat)),
            ),
    {
        proof {
            use_type_invariant(&self);
            self.lemma_entries_are_the_view();
        }
        let ghost before = self;
        if components > u32::MAX as usize {
            return None;
        }
        let components: u32 = components as u32;
        let at = self.lower_bound(key);
        let found = at < self.entries.len() && !key_less(key, self.entries[at].0);
        let mut entries = self.entries;
        if found {
            assert(before.entries[at as int].0 == key);
            let s = entries[at].1;
            if s.object_count == u32::MAX || physics > u32::MAX - s.physics_cost || components
                > u32::MAX - s.component_cost {
                return None;
            }
            let updated = ChunkStats {
                object_count: s.object_count + 1,
                physics_cost: s.physics_cost + physics,
                component_cost: s.component_cost + components,
            };
            entries.set(at, (key, updated));
            proof {
                assert forall|i: int, j: int| 0 <= i < j < entries.len() implies key_lt(
                    #[trigger] entries[i].0,
                    #[trigger] entries[j].0,
                ) by {
                    assert(entries[i].0 == before.entries[i].0);
                    assert(entries[j].0 == before.entries[j].0);
                }
            }
            let after = AnalysisResult { entries };
            proof {
                let chunks = before@.insert(key, updated);
                assert forall|i: int| 0 <= i < after.entries.len() implies chunks.contains_key(
                    #[trigger] after.entries[i].0,
                ) && chunks[after.entries[i].0] == after.entries[i].1 by {
                    if i != at {
                        assert(after.entries[i] == before.entries[i]);
                        assert(before@.contains_key(before.entries[i].0));
                    }
                }
                assert forall|k: (i32, i32, i32)| #[trigger] chunks.contains_key(k) implies exists|
                    i: int,
                | 0 <= i < after.entries.len() && #[trigger] after.entries[i].0 == k by {
                    if k == key {
                        assert(after.entries[at as int].0 == k);
                    } else {
                        let p = choose|p: int|
                            0 <= p < before.entries.len() && #[trigger] before.entries[p].0 == k;
                        assert(after.entries[p].0 == k);
                    }
                }
                after.lemma_view_is(chunks);
            }
            Some(after)
        } else {
            assert(!before@.contains_key(key)) by {
                if before@.contains_key(key) {
                    let i = choose|i: int|
                        0 <= i < before.entries.len() && before.entries[i].0 == key;
                    if at < i {
                        assert(key_lt(before.entries[at as int].0, before.entries[i].0));
                    }
                }
            }
            let fresh = ChunkStats {
                object_count: 1,
                physics_cost: physics,
                component_cost: components,
            };
            entries.insert(at, (key, fresh));
            proof {
                assert forall|i: int, j: int| 0 <= i < j < entries.len() implies key_lt(
                    #[trigger] entries[i].0,
                    #[trigger] entries[j].0,
                ) by {
                    if i < at && j > at {
                        assert(key_lt(before.entries[i].0, before.entries[j - 1].0));
                    } else if i < at && j < at {
                        assert(key_lt(before.entries[i].0, before.entries[j].0));
                    } else if i > at {
                        assert(key_lt(before.entries[i - 1].0, before.entries[j - 1].0));
                    } else if i == at {
                        assert(!key_lt(before.entries[j - 1].0, key));
                    } else {
                        assert(key_lt(before.entries[i].0, key));
                    }
                }
                assert forall|i: int| 0 <= i < entries.len() implies is_chunk_key(
                    #[trigger] entries[i].0,
                ) && entries[i].1.object_count >= 1 by {
                    if i < at {
                        assert(entries[i] == before.entries[i]);
                    } else if i > at {
                        assert(entries[i] == before.entries[i - 1]);
                    }
                }
            }
            let after = AnalysisResult { entries };
            proof {
                let chunks = before@.insert(key, fresh);
                assert forall|i: int| 0 <= i < after.entries.len() implies chunks.contains_key(
                    #[trigger] after.entries[i].0,
                ) && chunks[after.entries[i].0] == after.entries[i].1 by {
                    if i < at {
                        assert(after.entries[i] == before.entries[i]);
                        assert(before@.contains_key(before.entries[i].0));
                    } else if i > at {
                        assert(after.entries[i] == before.entries[i - 1]);
                        assert(before@.contains_key(before.entries[i - 1].0));
                    }
                }
                assert forall|k: (i32, i32, i32)| #[trigger] chunks.contains_key(k) implies exists|
                    i: int,
                | 0 <= i < after.entries.len() && #[trigger] after.entries[i].0 == k by {
                    if k == key {
                        assert(after.entries[at as int].0 == k);
                    } else {
                        let p = choose|p: int|
                            0 <= p < before.entries.len() && #[trigger] before.entries[p].0 == k;
                        if p < at {
                            assert(after.entries[p].0 == k);
                        } else {
                            assert(after.entries[p + 1].0 == k);
                        }
                    }
                }
                after.lemma_view_is(chunks);
            }
            Some(after)
        }
    }
}

/// A list of entries with pairwise distinct keys that covers exactly `keys`
/// is as long as `keys` is large.
proof fn lemma_keyed_len(
    entries: Seq<((i32, i32, i32), ChunkStats)>,
    keys: Set<(i32, i32, i32)>,
)
    requires
        forall|i: int, j: int|
            0 <= i < j < entries.len() ==> (#[trigger] entries[i]).0 != (#[trigger] entries[j]).0,
        forall|i: int| 0 <= i < entries.len() ==> keys.contains((#[trigger] entries[i]).0),
        forall|k: (i32, i32, i32)| #[trigger]
            keys.contains(k) ==> exists|i: int|
                0 <= i < entries.len() && (#[trigger] entries[i]).0 == k,
    ensures
        keys.finite(),
        keys.len() == entries.len(),
    decreases entries.len(),
{
    if entries.len() == 0 {
        assert(keys =~= Set::<(i32, i32, i32)>::empty());
    } else {
        let last = entries.last().0;
        let rest = entries.drop_last();
        let fewer = keys.remove(last);
        assert forall|k: (i32, i32, i32)| #[trigger] fewer.contains(k) implies exists|i: int|
            0 <= i < rest.len() && (#[trigger] rest[i]).0 == k by {
            let i = choose|i: int| 0 <= i < entries.len() && (#[trigger] entries[i]).0 == k;
            assert(rest[i] == entries[i]);
        }
        assert forall|i: int| 0 <= i < rest.len() implies fewer.contains((#[trigger] rest[i]).0) by {
            assert(rest[i] == entries[i]);
            assert(entries[i].0 != entries[entries.len() - 1].0);
        }
        assert forall|i: int, j: int| 0 <= i < j < rest.len() implies (#[trigger] rest[i]).0 != (
        #[trigger] rest[j]).0 by {
            assert(rest[i] == entries[i]);
            assert(rest[j] == entries[j]);
        }
        lemma_keyed_len(rest, fewer);
        assert(keys.contains(entries[entries.len() - 1].0));
        assert(keys =~= fewer.insert(last));
    }
}

/// Key order leaves no choice: a map of chunks has one listing only.
pub proof fn lemma_key_order_is_unique(
    first: Seq<((i32, i32, i32), Option<ChunkStats>)>,
    second: Seq<((i32, i32, i32), Option<ChunkStats>)>,
    chunks: Map<(i32, i32, i32), ChunkStats>,
)
    requires
        lists_in_key_order(first, chunks),
        lists_in_key_order(second, chunks),
    ensures
        first == second,
    decreases first.len(),
{
    if first.len() == 0 {
        if second.len() > 0 {
            assert(chunks.contains_key(second[0].0));
        }
        assert(first =~= second);
    } else {
        let key = first[0].0;
        assert(chunks.contains_key(key));
        let at = choose|at: int| 0 <= at < second.len() && #[trigger] second[at].0 == key;
        assert(at == 0) by {
            if at > 0 {
                assert(chunks.contains_key(second[0].0));
                let back = choose|back: int|
                    0 <= back < first.len() && #[trigger] first[back].0 == second[0].0;
                assert(key_lt(second[0].0, second[at].0));
                if back > 0 {
                    assert(key_lt(first[0].0, first[back].0));
                }
            }
        }
        let rest = chunks.remove(key);
        lemma_rest_is_listed(first, chunks);
        lemma_rest_is_listed(second, chunks);
        lemma_key_order_is_unique(first.drop_first(), second.drop_first(), rest);
        assert(first[0] == second[0]);
        assert(first =~= seq![first[0]] + first.drop_first());
        assert(second =~= seq![second[0]] + second.drop_first());
    }
}

/// Without its first entry, a listing lists the chunks without the first
/// key.
proof fn lemma_rest_is_listed(
    listing: Seq<((i32, i32, i32), Option<ChunkStats>)>,
    chunks: Map<(i32, i32, i32), ChunkStats>,
)
    requires
        listing.len() > 0,
        lists_in_key_order(listing, chunks),
    ensures
        lists_in_key_order(listing.drop_first(), chunks.remove(listing[0].0)),
{
    let key = listing[0].0;
    let rest = listing.drop_first();
    let fewer = chunks.remove(key);
    assert forall|i: int, j: int| 0 <= i < j < rest.len() implies key_lt(
        #[trigger] rest[i].0,
        #[trigger] rest[j].0,
    ) by {
        assert(key_lt(listing[i + 1].0, listing[j + 1].0));
    }
    assert forall|i: int| 0 <= i < rest.len() implies fewer.contains_key(#[trigger] rest[i].0)
        && rest[i].1 == Some(fewer[rest[i].0]) by {
        assert(key_lt(listing[0].0, listing[i + 1].0));
        assert(chunks.contains_key(listing[i + 1].0));
    }
    assert forall|k: (i32, i32, i32)| #[trigger] fewer.contains_key(k) implies exists|i: int|
        0 <= i < rest.len() && #[trigger] rest[i].0 == k by {
        assert(chunks.contains_key(k));
        let at = choose|at: int| 0 <= at < listing.len() && #[trigger] listing[at].0 == k;
        assert(rest[at - 1].0 == k);
    }
}

} // verus!
