//! Buckets: items in the order of their names, none of which occurs twice,
//! and maps from timestamps to buckets.

use std::collections::BTreeMap;
use vstd::prelude::*;
use vstd::std_specs::btree::*;
use vstd::std_specs::iter::IteratorSpec;

use crate::names::{
    compare_names, lemma_name_lt_transitive, lemma_name_trichotomy, name_lt, NameOrder,
};
use crate::order::lemma_increasing_keys;

verus! {

broadcast use vstd::std_specs::btree::group_btree_axioms;

/// What has a name by which it is told apart and ordered.
pub trait Named {
    /// The name.
    spec fn label(&self) -> Seq<char>;

    /// The name.
    fn name(&self) -> (res: &str)
        ensures
            res@ == self.label(),
    ;
}

impl Named for String {
    open spec fn label(&self) -> Seq<char> {
        self@
    }

    fn name(&self) -> (res: &str) {
        self.as_str()
    }
}

/// The name of the item at `i`.
pub open spec fn name_at<T: Named>(b: Seq<T>, i: int) -> Seq<char> {
    b[i].label()
}

/// The items of a bucket have ascending names.
pub open spec fn ascending<T: Named>(b: Seq<T>) -> bool {
    forall|i: int, j: int|
        0 <= i < j < b.len() ==> name_lt(#[trigger] name_at(b, i), #[trigger] name_at(b, j))
}

/// The item at `i` has the name `name`.
pub open spec fn named<T: Named>(b: Seq<T>, name: Seq<char>, i: int) -> bool {
    0 <= i < b.len() && name_at(b, i) == name
}

/// The bucket holds an item of the name `name`.
pub open spec fn holds<T: Named>(b: Seq<T>, name: Seq<char>) -> bool {
    exists|i: int| named(b, name, i)
}

/// The item of the name `name` in the bucket.
pub open spec fn item_named<T: Named>(b: Seq<T>, name: Seq<char>) -> T {
    b[choose|i: int| named(b, name, i)]
}

/// In a bucket of ascending names the names are pairwise different.
pub proof fn lemma_names_differ<T: Named>(b: Seq<T>, i: int, j: int)
    requires
        ascending(b),
        0 <= i < b.len(),
        0 <= j < b.len(),
        name_at(b, i) == name_at(b, j),
    ensures
        i == j,
{
    if i < j {
        lemma_name_trichotomy(name_at(b, i), name_at(b, j));
    } else if j < i {
        lemma_name_trichotomy(name_at(b, j), name_at(b, i));
    }
}

/// In a bucket of ascending names the item of a name is the one that
/// bears it.
pub proof fn lemma_item_named<T: Named>(b: Seq<T>, i: int)
    requires
        ascending(b),
        0 <= i < b.len(),
    ensures
        holds(b, name_at(b, i)),
        item_named(b, name_at(b, i)) == b[i],
{
    let name = name_at(b, i);
    assert(named(b, name, i));
    let j = choose|j: int| named(b, name, j);
    lemma_names_differ(b, i, j);
}

/// Where an item of the name `name` is or would be in a bucket: the place
/// of the item that bears it, or the place at which one would keep the
/// names ascending.
pub(crate) fn find_place<T: Named>(bucket: &Vec<T>, name: &str) -> (res: (usize, bool))
    requires
        ascending(bucket@),
    ensures
        res.0 <= bucket.len(),
        res.1 ==> named(bucket@, name@, res.0 as int),
        !res.1 ==> !holds(bucket@, name@),
        !res.1 ==> forall|i: int| 0 <= i < res.0 ==> name_lt(#[trigger] name_at(bucket@, i), name@),
        !res.1 ==> forall|i: int|
            res.0 <= i < bucket.len() ==> name_lt(name@, #[trigger] name_at(bucket@, i)),
{
    let mut lo: usize = 0;
    let mut hi: usize = bucket.len();
    while lo < hi
        invariant
            ascending(bucket@),
            lo <= hi <= bucket.len(),
            forall|i: int| 0 <= i < lo ==> name_lt(#[trigger] name_at(bucket@, i), name@),
            forall|i: int|
                hi <= i < bucket.len() ==> name_lt(name@, #[trigger] name_at(bucket@, i)),
        decreases hi - lo,
    {
        let mid = lo + (hi - lo) / 2;
        let found = compare_names(bucket[mid].name(), name);
        match found {
            NameOrder::Same => {
                return (mid, true);
            },
            NameOrder::Before => {
                assert forall|i: int| 0 <= i < mid + 1 implies name_lt(
                    #[trigger] name_at(bucket@, i),
                    name@,
                ) by {
                    if i < mid {
                        lemma_name_lt_transitive(
                            name_at(bucket@, i),
                            name_at(bucket@, mid as int),
                            name@,
                        );
                    }
                }
                lo = mid + 1;
            },
            NameOrder::After => {
                assert forall|i: int| mid <= i < bucket.len() implies name_lt(
                    name@,
                    #[trigger] name_at(bucket@, i),
                ) by {
                    if mid < i {
                        lemma_name_lt_transitive(
                            name@,
                            name_at(bucket@, mid as int),
                            name_at(bucket@, i),
                        );
                    }
                }
                hi = mid;
            },
        }
    }
    proof {
        assert forall|i: int| !named(bucket@, name@, i) by {
            if 0 <= i < bucket.len() {
                lemma_name_trichotomy(name_at(bucket@, i), name@);
            }
        }
    }
    (lo, false)
}

/// Putting an item of a new name at its place in a bucket adds it to what
/// the bucket holds and leaves the rest as it was.
pub proof fn lemma_insert_item<T: Named>(b: Seq<T>, pos: int, e: T)
    requires
        ascending(b),
        0 <= pos <= b.len(),
        forall|i: int| 0 <= i < pos ==> name_lt(#[trigger] name_at(b, i), e.label()),
        forall|i: int| pos <= i < b.len() ==> name_lt(e.label(), #[trigger] name_at(b, i)),
    ensures
        ascending(b.insert(pos, e)),
        holds(b.insert(pos, e), e.label()),
        item_named(b.insert(pos, e), e.label()) == e,
        forall|n: Seq<char>|
            n != e.label() ==> (holds(b.insert(pos, e), n) <==> holds(b, n)) && (holds(b, n)
                ==> item_named(b.insert(pos, e), n) == item_named(b, n)),
{
    let c = b.insert(pos, e);
    let name = e.label();
    assert forall|i: int, j: int| 0 <= i < j < c.len() implies name_lt(
        #[trigger] name_at(c, i),
        #[trigger] name_at(c, j),
    ) by {
        let oi = if i < pos { i } else { i - 1 };
        let oj = if j < pos { j } else { j - 1 };
        if i == pos {
            assert(name_at(c, j) == name_at(b, oj));
        } else if j == pos {
            assert(name_at(c, i) == name_at(b, oi));
        } else {
            assert(name_at(c, i) == name_at(b, oi));
            assert(name_at(c, j) == name_at(b, oj));
        }
    }
    assert(name_at(c, pos) == name);
    lemma_item_named(c, pos);
    assert forall|n: Seq<char>| n != name implies (holds(c, n) <==> holds(b, n)) && (holds(b, n)
        ==> item_named(c, n) == item_named(b, n)) by {
        if holds(b, n) {
            let i = choose|i: int| named(b, n, i);
            let ci = if i < pos { i } else { i + 1 };
            assert(name_at(c, ci) == name_at(b, i));
            assert(named(c, n, ci));
            lemma_item_named(c, ci);
            lemma_item_named(b, i);
        }
        if holds(c, n) {
            let i = choose|i: int| named(c, n, i);
            let oi = if i < pos { i } else { i - 1 };
            assert(name_at(c, i) == name_at(b, oi));
            assert(named(b, n, oi));
        }
    }
}

/// A bucket of one item holds this item and no other.
pub proof fn lemma_single_item<T: Named>(e: T)
    ensures
        ascending(seq![e]),
        holds(seq![e], e.label()),
        item_named(seq![e], e.label()) == e,
        forall|n: Seq<char>| holds(seq![e], n) ==> n == e.label(),
{
    let b = seq![e];
    assert(name_at(b, 0) == e.label());
    lemma_item_named(b, 0);
    assert forall|n: Seq<char>| holds(b, n) implies n == e.label() by {
        let i = choose|i: int| named(b, n, i);
    }
}

/// The item at `i` of a walk through `map` is the item at the place
/// `pos[i]` of the bucket of its timestamp.
pub open spec fn taken_from<T>(
    out: Seq<(i64, &T)>,
    pos: Seq<int>,
    map: Map<i64, Vec<T>>,
    i: int,
) -> bool {
    &&& map.contains_key(out[i].0)
    &&& 0 <= pos[i] < map[out[i].0]@.len()
    &&& *out[i].1 == map[out[i].0]@[pos[i]]
}

/// The item at `i` of a walk is the item at the place `j` of the bucket of
/// `ts`.
pub open spec fn reaches<T>(out: Seq<(i64, &T)>, pos: Seq<int>, i: int, ts: i64, j: int) -> bool {
    0 <= i < out.len() && out[i].0 == ts && pos[i] == j
}

/// The bucket of `ts` has a place `j`.
pub open spec fn has_place<T>(map: Map<i64, Vec<T>>, ts: i64, j: int) -> bool {
    map.contains_key(ts) && 0 <= j < map[ts]@.len()
}

/// `out` walks through `map`: through its buckets by ascending timestamp,
/// and through each bucket from its first item to its last.
pub open spec fn walks<T>(out: Seq<(i64, &T)>, pos: Seq<int>, map: Map<i64, Vec<T>>) -> bool {
    &&& pos.len() == out.len()
    &&& forall|i: int| 0 <= i < out.len() ==> #[trigger] taken_from(out, pos, map, i)
    &&& forall|i: int, j: int|
        0 <= i < j < out.len() ==> (#[trigger] out[i]).0 < (#[trigger] out[j]).0 || (out[i].0
            == out[j].0 && pos[i] < pos[j])
    &&& forall|ts: i64, j: int| #[trigger]
        has_place(map, ts, j) ==> exists|i: int| #[trigger] reaches(out, pos, i, ts, j)
}

/// The item at `i` of a walk comes from the place `at[i].1` of the bucket
/// that a `BTreeMap` hands out as its `at[i].0`-th.
spec fn handed_out<T>(
    out: Seq<(i64, &T)>,
    all: Seq<(&i64, &Vec<T>)>,
    at: Seq<(int, int)>,
    i: int,
) -> bool {
    &&& 0 <= at[i].0 < all.len()
    &&& 0 <= at[i].1 < all[at[i].0].1@.len()
    &&& out[i].0 == *all[at[i].0].0
    &&& *out[i].1 == all[at[i].0].1@[at[i].1]
}

/// The place `j` of the `p`-th bucket is listed, at `starts[p] + j`.
spec fn listed_at(at: Seq<(int, int)>, starts: Seq<int>, p: int, j: int) -> bool {
    0 <= starts[p] + j < at.len() && at[starts[p] + j] == (p, j)
}

/// Walks through a map of buckets: the items of all buckets, by ascending
/// timestamp and in the order of each bucket, together with the place of
/// each item in its bucket.
pub(crate) fn walk<T>(map: &BTreeMap<i64, Vec<T>>) -> (res: (Vec<(i64, &T)>, Ghost<Seq<int>>))
    ensures
        walks(res.0@, res.1@, map@),
{
    let mut out: Vec<(i64, &T)> = Vec::new();
    let steps = map.iter();
    let ghost all = steps.remaining();
    let ghost m = map@;
    let ghost mut at: Seq<(int, int)> = Seq::empty();
    let ghost mut starts: Seq<int> = Seq::empty();
    proof {
        lemma_increasing_keys(all.map_values(|kv: (&i64, &Vec<T>)| *kv.0));
        assert forall|p: int, q: int| 0 <= p < q < all.len() implies *all[p].0 < *all[q].0 by {
            let keys = all.map_values(|kv: (&i64, &Vec<T>)| *kv.0);
            assert(keys[p] < keys[q]);
        }
        assert forall|p: int| 0 <= p < all.len() implies m.contains_key(*all[p].0) && m[*all[p].0]
            == *all[p].1 by {
            assert(m.contains_key(*all[p].0));
        }
    }
    for kv in it: steps
        invariant
            it.seq() == all,
            forall|p: int, q: int| 0 <= p < q < all.len() ==> *all[p].0 < *all[q].0,
            forall|p: int|
                0 <= p < all.len() ==> m.contains_key(*all[p].0) && m[*all[p].0] == *all[p].1,
            at.len() == out.len(),
            starts.len() == it.index(),
            forall|i: int| 0 <= i < out.len() ==> #[trigger] handed_out(out@, all, at, i),
            forall|i: int| 0 <= i < out.len() ==> (#[trigger] at[i]).0 < it.index(),
            forall|i: int, j: int|
                0 <= i < j < out.len() ==> (#[trigger] at[i]).0 < (#[trigger] at[j]).0 || (at[i].0
                    == at[j].0 && at[i].1 < at[j].1),
            forall|p: int, j: int|
                0 <= p < it.index() && 0 <= j < all[p].1@.len() ==> #[trigger] listed_at(
                    at,
                    starts,
                    p,
                    j,
                ),
    {
        let (ts, bucket) = kv;
        let ghost p = it.index();
        let ghost start = out.len() as int;
        assert(kv == all[p]);
        let mut j: usize = 0;
        while j < bucket.len()
            invariant
                0 <= p < all.len(),
                kv == all[p],
                ts == kv.0,
                bucket == kv.1,
                j <= bucket.len(),
                0 <= start,
                start + j == out.len(),
                at.len() == out.len(),
                starts.len() == p,
                forall|i: int| 0 <= i < out.len() ==> #[trigger] handed_out(out@, all, at, i),
                forall|i: int| 0 <= i < start ==> (#[trigger] at[i]).0 < p,
                forall|i: int| start <= i < out.len() ==> #[trigger] at[i] == (p, i - start),
                forall|i: int, j: int|
                    0 <= i < j < out.len() ==> (#[trigger] at[i]).0 < (#[trigger] at[j]).0 || (
                    at[i].0 == at[j].0 && at[i].1 < at[j].1),
                forall|q: int, j: int|
                    0 <= q < p && 0 <= j < all[q].1@.len() ==> #[trigger] listed_at(
                        at,
                        starts,
                        q,
                        j,
                    ),
            decreases bucket.len() - j,
        {
            let ghost out_before = out@;
            let ghost at_before = at;
            out.push((*ts, &bucket[j]));
            proof {
                at = at.push((p, j as int));
                assert forall|i: int| 0 <= i < out.len() implies #[trigger] handed_out(
                    out@,
                    all,
                    at,
                    i,
                ) by {
                    if i < out_before.len() {
                        assert(handed_out(out_before, all, at_before, i));
                    }
                }
                assert forall|i: int| start <= i < out.len() implies #[trigger] at[i] == (
                    p,
                    i - start,
                ) by {
                    if i < out_before.len() {
                        assert(at_before[i] == (p, i - start));
                    }
                }
                assert forall|q: int, j: int|
                    0 <= q < p && 0 <= j < all[q].1@.len() implies #[trigger] listed_at(
                    at,
                    starts,
                    q,
                    j,
                ) by {
                    assert(listed_at(at_before, starts, q, j));
                }
            }
            j = j + 1;
        }
        proof {
            let starts_before = starts;
            starts = starts.push(start);
            assert forall|q: int, j: int|
                0 <= q < p + 1 && 0 <= j < all[q].1@.len() implies #[trigger] listed_at(
                at,
                starts,
                q,
                j,
            ) by {
                if q < p {
                    assert(listed_at(at, starts_before, q, j));
                } else {
                    assert(at[start + j] == (p, start + j - start));
                }
            }
        }
    }
    let ghost pos = Seq::new(out.len() as nat, |i: int| at[i].1);
    proof {
        assert forall|i: int| 0 <= i < out.len() implies #[trigger] taken_from(out@, pos, m, i) by {
            assert(handed_out(out@, all, at, i));
        }
        assert forall|i: int, j: int| 0 <= i < j < out.len() implies (#[trigger] out[i]).0 < (
        #[trigger] out[j]).0 || (out[i].0 == out[j].0 && pos[i] < pos[j]) by {
            assert(handed_out(out@, all, at, i));
            assert(handed_out(out@, all, at, j));
            assert(at[i].0 < at[j].0 || (at[i].0 == at[j].0 && at[i].1 < at[j].1));
        }
        assert forall|ts: i64, j: int| #[trigger] has_place(m, ts, j) implies exists|i: int|
            #[trigger] reaches(out@, pos, i, ts, j) by {
            let b = m[ts];
            assert(all.contains((&ts, &b)));
            let p = choose|p: int| 0 <= p < all.len() && all[p] == (&ts, &b);
            assert(listed_at(at, starts, p, j));
            let i = starts[p] + j;
            assert(handed_out(out@, all, at, i));
            assert(reaches(out@, pos, i, ts, j));
        }
    }
    (out, Ghost(pos))
}

} // verus!
