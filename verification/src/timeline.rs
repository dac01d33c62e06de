//! The merged timeline: every entry at its timestamp, the entries of one
//! timestamp ordered by name.

use std::collections::BTreeMap;
use std::sync::Arc;
use vstd::prelude::*;
use vstd::std_specs::btree::*;

use crate::bucket::{
    ascending, find_place, has_place, holds, item_named, lemma_insert_item, lemma_item_named,
    lemma_single_item, name_at, named, reaches, taken_from, walk,
};
use crate::correlate::{entries_of, macb_slots, slot_entries, slot_flags};
use crate::decoder::record_views;
use crate::entry::{key_lt, share, EntryView, Key, ListEntry};
use crate::flags::MACBFlags;
use crate::laws::lemma_listing_unique;
use crate::names::name_lt;
use crate::record::{Record, RecordView, ABSENT};
use crate::writer::{after_all, lines_of, texts, Mactime2Writer};

verus! {

broadcast use vstd::std_specs::btree::group_btree_axioms;

/// What the timeline holds after `e` has been handed to it: `e` at its
/// place, unless the place was taken, in which case nothing changes.
pub open spec fn merge(m: Map<Key, EntryView>, e: EntryView) -> Map<Key, EntryView> {
    if m.contains_key(e.key()) {
        m
    } else {
        m.insert(e.key(), e)
    }
}

/// What the timeline holds after the entries in `es` have been handed to
/// it one after the other.
pub open spec fn merge_all(m: Map<Key, EntryView>, es: Seq<EntryView>) -> Map<Key, EntryView>
    decreases es.len(),
{
    if es.len() == 0 {
        m
    } else {
        merge(merge_all(m, es.drop_last()), es.last())
    }
}

/// What the timeline holds after the records in `lines` have been handed
/// to it one after the other.
pub open spec fn merge_records(m: Map<Key, EntryView>, lines: Seq<RecordView>) -> Map<
    Key,
    EntryView,
>
    decreases lines.len(),
{
    if lines.len() == 0 {
        m
    } else {
        merge_all(merge_records(m, lines.drop_last()), entries_of(lines.last()))
    }
}

/// Every entry stands at the place that its own timestamp and name give,
/// has a flag, and a timestamp that applies.
pub open spec fn well_placed(m: Map<Key, EntryView>) -> bool {
    forall|k: Key| #[trigger]
        m.contains_key(k) ==> m[k].key() == k && k.0 != ABSENT && !m[k].flags.is_none()
}

/// `out` lists what `m` holds in the order of the timeline: each entry of
/// `m` once, with its timestamp, by ascending timestamp and, among equal
/// timestamps, by ascending name.
pub open spec fn lists(out: Seq<(i64, EntryView)>, m: Map<Key, EntryView>) -> bool {
    &&& forall|i: int|
        0 <= i < out.len() ==> {
            &&& (#[trigger] out[i]).0 == out[i].1.timestamp()
            &&& m.contains_key(out[i].1.key())
            &&& m[out[i].1.key()] == out[i].1
        }
    &&& forall|k: Key| #[trigger]
        m.contains_key(k) ==> exists|i: int| 0 <= i < out.len() && (#[trigger] out[i]).1.key() == k
    &&& forall|i: int, j: int|
        0 <= i < j < out.len() ==> key_lt((#[trigger] out[i]).1.key(), (#[trigger] out[j]).1.key())
}

/// The listing of `m`: there is one, and no other, for what a timeline
/// holds.
pub open spec fn listing_of(m: Map<Key, EntryView>) -> Seq<(i64, EntryView)> {
    choose|out: Seq<(i64, EntryView)>| lists(out, m)
}

/// The entries of a listing as values.
pub open spec fn views(out: Seq<(i64, &ListEntry)>) -> Seq<(i64, EntryView)> {
    out.map_values(|p: (i64, &ListEntry)| (p.0, p.1@))
}

/// What a bucket of the timestamp `ts` has to be: not empty, its entries
/// at `ts`, each with a flag, by ascending name.
spec fn bucket_ok(ts: i64, b: Seq<ListEntry>) -> bool {
    &&& ts != ABSENT
    &&& b.len() > 0
    &&& forall|i: int|
        0 <= i < b.len() ==> (#[trigger] b[i])@.timestamp() == ts && !b[i].flags.is_none()
    &&& ascending(b)
}

/// The timeline of a run: a map from timestamps to the entries that stand
/// there, which are kept in the order of their names.
pub struct Timeline {
    buckets: BTreeMap<i64, Vec<ListEntry>>,
}

/// What the buckets hold: each entry at the place of its timestamp and
/// name.
spec fn content(buckets: Map<i64, Vec<ListEntry>>) -> Map<Key, EntryView> {
    Map::new(
        |k: Key| buckets.contains_key(k.0) && holds(buckets[k.0]@, k.1),
        |k: Key| item_named(buckets[k.0]@, k.1)@,
    )
}

/// Buckets that are as they have to be hold every entry at its place.
proof fn lemma_content_well_placed(buckets: Map<i64, Vec<ListEntry>>)
    requires
        forall|ts: i64| #[trigger] buckets.contains_key(ts) ==> bucket_ok(ts, buckets[ts]@),
    ensures
        well_placed(content(buckets)),
{
    let m = content(buckets);
    assert forall|k: Key| #[trigger] m.contains_key(k) implies m[k].key() == k && k.0 != ABSENT
        && !m[k].flags.is_none() by {
        let b = buckets[k.0]@;
        assert(bucket_ok(k.0, b));
        let j = choose|j: int| named(b, k.1, j);
        assert(b[j]@.timestamp() == k.0);
    }
}

impl View for Timeline {
    type V = Map<Key, EntryView>;

    /// The entries of the timeline, each at its place.
    closed spec fn view(&self) -> Map<Key, EntryView> {
        content(self.buckets@)
    }
}

/// The first `n` slots of a record give the entries `es`.
spec fn slots_upto(line: RecordView, n: int) -> Seq<EntryView>
    decreases n,
{
    if n <= 0 {
        Seq::empty()
    } else {
        slots_upto(line, n - 1) + slot_entries(line, n - 1)
    }
}

/// The four slots of a record give its entries.
proof fn lemma_slots_upto(line: RecordView)
    ensures
        slots_upto(line, 4) == entries_of(line),
{
    reveal_with_fuel(slots_upto, 5);
    assert(slots_upto(line, 4) =~= entries_of(line));
}

/// To hand over a sequence with one more entry is to hand over the
/// sequence and then the entry.
pub proof fn lemma_merge_all_push(m: Map<Key, EntryView>, es: Seq<EntryView>, e: EntryView)
    ensures
        merge_all(m, es.push(e)) == merge(merge_all(m, es), e),
{
    assert(es.push(e).drop_last() =~= es);
}

impl Timeline {
    /// Every bucket is as it has to be.
    #[verifier::type_invariant]
    spec fn inv(self) -> bool {
        forall|ts: i64| #[trigger]
            self.buckets@.contains_key(ts) ==> bucket_ok(ts, self.buckets@[ts]@)
    }

    /// An empty timeline.
    pub fn new() -> (res: Timeline)
        ensures
            res@ == Map::<Key, EntryView>::empty(),
            well_placed(res@),
    {
        let res = Timeline { buckets: BTreeMap::new() };
        assert(res@ =~= Map::<Key, EntryView>::empty());
        res
    }

    /// Hands the entries of a record to the timeline, slot by slot.
    pub fn add_record(&mut self, line: Record)
        ensures
            final(self)@ == merge_all(old(self)@, entries_of(line@)),
            well_placed(final(self)@),
    {
        let line = Arc::new(line);
        let slots = macb_slots(&line);
        let ghost v = line@;
        let mut k: usize = 0;
        while k < 4
            invariant
                k <= 4,
                line@ == v,
                forall|i: int| 0 <= i < 4 ==> slots[i] == slot_flags(v, i),
                self@ == merge_all(old(self)@, slots_upto(v, k as int)),
            decreases 4 - k,
        {
            let flag = slots[k];
            if !flag.is_empty() {
                proof {
                    lemma_merge_all_push(
                        old(self)@,
                        slots_upto(v, k as int),
                        EntryView { flags: flag, line: v },
                    );
                    assert(slot_entries(v, k as int) =~= seq![
                        EntryView { flags: flag, line: v },
                    ]);
                    assert(slots_upto(v, k + 1) =~= slots_upto(v, k as int).push(
                        EntryView { flags: flag, line: v },
                    ));
                }
                insert_timestamp(self, flag, share(&line));
            } else {
                assert(slots_upto(v, k + 1) =~= slots_upto(v, k as int));
            }
            k = k + 1;
        }
        proof {
            lemma_slots_upto(v);
            use_type_invariant(&*self);
            lemma_content_well_placed(self.buckets@);
        }
    }

    /// Hands the entries of the records to the timeline, record by record.
    pub fn add_records(&mut self, records: Vec<Record>)
        ensures
            final(self)@ == merge_records(old(self)@, record_views(records@)),
            well_placed(final(self)@),
    {
        let ghost lines = record_views(records@);
        for record in it: records.into_iter()
            invariant
                it.seq() == records@,
                lines == record_views(records@),
                self@ == merge_records(old(self)@, lines.take(it.index())),
        {
            proof {
                let i = it.index();
                assert(lines.take(i + 1).drop_last() =~= lines.take(i));
                assert(lines.take(i + 1).last() == record@);
            }
            self.add_record(record);
        }
        proof {
            assert(lines.take(lines.len() as int) =~= lines);
            use_type_invariant(&*self);
            lemma_content_well_placed(self.buckets@);
        }
    }

    /// The entries of the timeline in its order: by ascending timestamp
    /// and, among equal timestamps, by ascending name.
    pub fn entries(&self) -> (res: Vec<(i64, &ListEntry)>)
        ensures
            lists(views(res@), self@),
            views(res@) == listing_of(self@),
            well_placed(self@),
            forall|i: int| 0 <= i < res.len() ==> (#[trigger] res[i]).0 != ABSENT,
    {
        proof {
            use_type_invariant(self);
        }
        let (out, Ghost(pos)) = walk(&self.buckets);
        proof {
            let map = self.buckets@;
            let listed = views(out@);
            let m = self@;
            assert forall|i: int| 0 <= i < out.len() implies {
                &&& (#[trigger] listed[i]).0 == listed[i].1.timestamp()
                &&& m.contains_key(listed[i].1.key())
                &&& m[listed[i].1.key()] == listed[i].1
                &&& listed[i].0 != ABSENT
            } by {
                assert(taken_from(out@, pos, map, i));
                let b = map[out[i].0]@;
                assert(bucket_ok(out[i].0, b));
                assert(b[pos[i]]@.timestamp() == out[i].0);
                lemma_item_named(b, pos[i]);
            }
            assert forall|k: Key| #[trigger] m.contains_key(k) implies exists|i: int|
                0 <= i < listed.len() && (#[trigger] listed[i]).1.key() == k by {
                let b = map[k.0]@;
                let j = choose|j: int| named(b, k.1, j);
                assert(has_place(map, k.0, j));
                let i = choose|i: int| #[trigger] reaches(out@, pos, i, k.0, j);
                assert(taken_from(out@, pos, map, i));
                assert(bucket_ok(k.0, b));
                assert(b[j]@.timestamp() == k.0);
                assert(listed[i].1.key() == k);
            }
            assert forall|i: int, j: int| 0 <= i < j < listed.len() implies key_lt(
                (#[trigger] listed[i]).1.key(),
                (#[trigger] listed[j]).1.key(),
            ) by {
                assert(taken_from(out@, pos, map, i));
                assert(taken_from(out@, pos, map, j));
                assert(out[i].0 < out[j].0 || (out[i].0 == out[j].0 && pos[i] < pos[j]));
                let bi = map[out[i].0]@;
                let bj = map[out[j].0]@;
                assert(bucket_ok(out[i].0, bi));
                assert(bucket_ok(out[j].0, bj));
                assert(bi[pos[i]]@.timestamp() == out[i].0);
                assert(bj[pos[j]]@.timestamp() == out[j].0);
                if out[i].0 == out[j].0 {
                    assert(name_lt(name_at(bi, pos[i]), name_at(bi, pos[j])));
                }
            }
            lemma_content_well_placed(map);
            assert forall|i: int| 0 <= i < out.len() implies (#[trigger] out[i]).0 != ABSENT by {
                assert(listed[i].0 != ABSENT);
            }
            assert(lists(listed, m));
            lemma_listing_unique(listed, listing_of(m), m);
        }
        out
    }

    /// Hands the entries of the timeline to `output` one by one, in the
    /// order of the timeline, and gives the lines that it makes of them.
    pub fn render<W: Mactime2Writer>(&self, output: &mut W) -> (res: Vec<String>)
        requires
            forall|k: Key| #[trigger] self@.contains_key(k) ==> W::accepts(k.0),
        ensures
            res.len() == listing_of(self@).len(),
            W::exact() ==> texts(res@) == lines_of(*old(output), listing_of(self@)),
            W::exact() ==> *final(output) == after_all(*old(output), listing_of(self@)),
    {
        let entries = self.entries();
        let ghost listing = views(entries@);
        let mut lines: Vec<String> = Vec::new();
        let mut i: usize = 0;
        while i < entries.len()
            invariant
                i <= entries.len(),
                listing == views(entries@),
                lists(listing, self@),
                forall|k: Key| #[trigger] self@.contains_key(k) ==> W::accepts(k.0),
                lines.len() == i,
                W::exact() ==> texts(lines@) == lines_of(*old(output), listing.take(i as int)),
                W::exact() ==> *output == after_all(*old(output), listing.take(i as int)),
            decreases entries.len() - i,
        {
            let (timestamp, entry) = entries[i];
            let ghost before = lines@;
            proof {
                assert(listing[i as int] == (timestamp, entry@));
                assert(self@.contains_key(entry@.key()));
            }
            let line = output.fmt(&timestamp, entry);
            lines.push(line);
            proof {
                assert(listing.take(i + 1).drop_last() =~= listing.take(i as int));
                assert(listing.take(i + 1).last() == (timestamp, entry@));
                if W::exact() {
                    assert(texts(lines@) =~= texts(before).push(line@));
                }
            }
            i = i + 1;
        }
        proof {
            assert(listing.take(i as int) =~= listing);
        }
        lines
    }
}

/// Puts the entry made of `flag` and `line` into the timeline, at the
/// timestamp of `line` that `flag` stands for.  Where the timeline has an
/// entry of the same name at this timestamp already, that entry stays and
/// the new one is dropped.
pub fn insert_timestamp(entries: &mut Timeline, flag: MACBFlags, line: Arc<Record>)
    requires
        !flag.is_none(),
        (EntryView { flags: flag, line: line@ }).timestamp() != ABSENT,
    ensures
        final(entries)@ == merge(old(entries)@, EntryView { flags: flag, line: line@ }),
        well_placed(final(entries)@),
{
    let timestamp = if flag.m {
        line.get_mtime()
    } else if flag.a {
        line.get_atime()
    } else if flag.c {
        line.get_ctime()
    } else {
        line.get_crtime()
    };
    let entry = ListEntry { flags: flag, line };
    let ghost e = entry@;
    proof {
        use_type_invariant(&*entries);
    }
    // The map is taken out while it is worked on: the timeline is well
    // formed at every step.
    let mut buckets: BTreeMap<i64, Vec<ListEntry>> = BTreeMap::new();
    std::mem::swap(&mut entries.buckets, &mut buckets);
    match buckets.remove(&timestamp) {
        None => {
            let mut entries_at_ts = Vec::new();
            entries_at_ts.push(entry);
            proof {
                lemma_single_item(entry);
                assert(entries_at_ts@ =~= seq![entry]);
            }
            buckets.insert(timestamp, entries_at_ts);
        },
        Some(mut entries_at_ts) => {
            let ghost b = entries_at_ts@;
            assert(bucket_ok(timestamp, b));
            let (pos, found) = find_place(&entries_at_ts, entry.line.get_name());
            if !found {
                proof {
                    lemma_insert_item(b, pos as int, entry);
                }
                entries_at_ts.insert(pos, entry);
            }
            buckets.insert(timestamp, entries_at_ts);
        },
    }
    std::mem::swap(&mut entries.buckets, &mut buckets);
    proof {
        assert(final(entries)@ =~= merge(old(entries)@, e));
        lemma_content_well_placed(entries.buckets@);
    }
}

} // verus!
