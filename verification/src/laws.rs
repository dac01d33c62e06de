//! What holds of every record and of every timeline.

use vstd::prelude::*;

use crate::correlate::{
    entries_of, is_discarded, kinds_at, present_times, slot_entries, slot_flags, slot_taken,
    slot_time,
};
use crate::entry::{key_lt, EntryView, Key};
use crate::flags::MACBFlags;
use crate::names::{lemma_name_lt_transitive, lemma_name_trichotomy, name_lt};
use crate::record::{RecordView, ABSENT};
use crate::timeline::{lists, merge, merge_all, merge_records, well_placed};

verus! {

/// Every entry of a record belongs to the record, stands at a timestamp of
/// the record that applies, and bears exactly the kinds that have this
/// timestamp; no two entries of a record stand at the same timestamp.
pub proof fn lemma_entries_of_record(line: RecordView)
    ensures
        forall|i: int|
            0 <= i < entries_of(line).len() ==> {
                let e = #[trigger] entries_of(line)[i];
                &&& e.line == line
                &&& e.timestamp() != ABSENT
                &&& !e.flags.is_none()
                &&& e.flags == kinds_at(line, e.timestamp())
            },
        forall|i: int, j: int|
            0 <= i < j < entries_of(line).len() ==> (#[trigger] entries_of(line)[i]).timestamp()
                != (#[trigger] entries_of(line)[j]).timestamp(),
{
    let es = entries_of(line);
    let s0 = slot_entries(line, 0);
    let s1 = slot_entries(line, 1);
    let s2 = slot_entries(line, 2);
    let s3 = slot_entries(line, 3);
    assert(slot_time(line, 0) == line.mtime && slot_time(line, 1) == line.atime && slot_time(
        line,
        2,
    ) == line.ctime && slot_time(line, 3) == line.crtime);
    assert forall|k: int| 0 <= k < 4 && slot_taken(line, k) implies {
        let e = EntryView { flags: slot_flags(line, k), line };
        &&& e.timestamp() == slot_time(line, k)
        &&& !e.flags.is_none()
    } by {
        if k >= 1 {
            assert(slot_time(line, 0) != slot_time(line, k));
        }
        if k >= 2 {
            assert(slot_time(line, 1) != slot_time(line, k));
        }
        if k >= 3 {
            assert(slot_time(line, 2) != slot_time(line, k));
        }
    }
    assert forall|i: int| 0 <= i < es.len() implies exists|k: int|
        0 <= k < 4 && slot_taken(line, k) && #[trigger] es[i] == (EntryView {
            flags: #[trigger] slot_flags(line, k),
            line,
        }) && taken_before(line, k) == i by {
        lemma_place_of_slot(line);
        if i < s0.len() {
            assert(es[i] == s0[i]);
            assert(slot_taken(line, 0));
        } else if i < s0.len() + s1.len() {
            assert(es[i] == s1[i - s0.len()]);
            assert(slot_taken(line, 1));
        } else if i < s0.len() + s1.len() + s2.len() {
            assert(es[i] == s2[i - s0.len() - s1.len()]);
            assert(slot_taken(line, 2));
        } else {
            assert(es[i] == s3[i - s0.len() - s1.len() - s2.len()]);
            assert(slot_taken(line, 3));
        }
    }
    assert forall|i: int| 0 <= i < es.len() implies {
        let e = #[trigger] es[i];
        &&& e.line == line
        &&& e.timestamp() != ABSENT
        &&& !e.flags.is_none()
        &&& e.flags == kinds_at(line, e.timestamp())
    } by {
        let k = choose|k: int|
            0 <= k < 4 && slot_taken(line, k) && #[trigger] es[i] == (EntryView {
                flags: #[trigger] slot_flags(line, k),
                line,
            }) && taken_before(line, k) == i;
    }
    assert forall|i: int, j: int| 0 <= i < j < es.len() implies (#[trigger] es[i]).timestamp() != (
    #[trigger] es[j]).timestamp() by {
        let k = choose|k: int|
            0 <= k < 4 && slot_taken(line, k) && #[trigger] es[i] == (EntryView {
                flags: #[trigger] slot_flags(line, k),
                line,
            }) && taken_before(line, k) == i;
        let l = choose|l: int|
            0 <= l < 4 && slot_taken(line, l) && #[trigger] es[j] == (EntryView {
                flags: #[trigger] slot_flags(line, l),
                line,
            }) && taken_before(line, l) == j;
        if k < l {
            assert(slot_time(line, k) != slot_time(line, l));
        } else if l < k {
            assert(slot_time(line, l) != slot_time(line, k));
        }
    }
}

/// How many of the slots before `k` are taken.
spec fn taken_before(line: RecordView, k: int) -> int
    decreases k,
{
    if k <= 0 {
        0
    } else {
        taken_before(line, k - 1) + if slot_taken(line, k - 1) {
            1int
        } else {
            0
        }
    }
}

/// The entry of a taken slot stands after those of the taken slots before
/// it.
proof fn lemma_place_of_slot(line: RecordView)
    ensures
        taken_before(line, 0) == 0,
        taken_before(line, 1) == slot_entries(line, 0).len(),
        taken_before(line, 2) == slot_entries(line, 0).len() + slot_entries(line, 1).len(),
        taken_before(line, 3) == slot_entries(line, 0).len() + slot_entries(line, 1).len()
            + slot_entries(line, 2).len(),
        taken_before(line, 4) == entries_of(line).len(),
{
    reveal_with_fuel(taken_before, 5);
}

/// A record gives as many entries as it has different timestamps that
/// apply, unless it is discarded.
pub proof fn lemma_entry_count(line: RecordView)
    requires
        !is_discarded(line),
    ensures
        entries_of(line).len() == present_times(line).len(),
        1 <= entries_of(line).len() <= 4,
{
    lemma_place_of_slot(line);
    reveal_with_fuel(taken_before, 5);
    let e = Set::<i64>::empty();
    let t1 = e.insert(line.mtime);
    let t2 = t1.insert(line.atime);
    let t3 = t2.insert(line.ctime);
    let t4 = t3.insert(line.crtime);
    assert(slot_time(line, 0) == line.mtime && slot_time(line, 1) == line.atime && slot_time(
        line,
        2,
    ) == line.ctime && slot_time(line, 3) == line.crtime);
    assert(slot_taken(line, 0) <==> line.mtime != ABSENT);
    assert(slot_taken(line, 1) <==> line.atime != ABSENT && !t1.contains(line.atime)) by {
        if line.atime != ABSENT && !t1.contains(line.atime) {
            assert(slot_time(line, 0) != line.atime);
        }
    }
    assert(slot_taken(line, 2) <==> line.ctime != ABSENT && !t2.contains(line.ctime)) by {
        if line.ctime != ABSENT && !t2.contains(line.ctime) {
            assert(slot_time(line, 0) != line.ctime);
            assert(slot_time(line, 1) != line.ctime);
        }
        if slot_taken(line, 2) {
            assert(slot_time(line, 0) != slot_time(line, 2));
            assert(slot_time(line, 1) != slot_time(line, 2));
        }
    }
    assert(slot_taken(line, 3) <==> line.crtime != ABSENT && !t3.contains(line.crtime)) by {
        if line.crtime != ABSENT && !t3.contains(line.crtime) {
            assert(slot_time(line, 0) != line.crtime);
            assert(slot_time(line, 1) != line.crtime);
            assert(slot_time(line, 2) != line.crtime);
        }
        if slot_taken(line, 3) {
            assert(slot_time(line, 0) != slot_time(line, 3));
            assert(slot_time(line, 1) != slot_time(line, 3));
            assert(slot_time(line, 2) != slot_time(line, 3));
        }
    }
    lemma_one_more_time(e, line.mtime);
    lemma_one_more_time(t1, line.atime);
    lemma_one_more_time(t2, line.ctime);
    lemma_one_more_time(t3, line.crtime);
    assert(e.remove(ABSENT) =~= e);
    assert(t4 =~= set![line.mtime, line.atime, line.ctime, line.crtime]);
}

/// One more timestamp adds one to the number of those that apply if it
/// applies and is new, and nothing otherwise.
proof fn lemma_one_more_time(s: Set<i64>, t: i64)
    requires
        s.finite(),
    ensures
        s.insert(t).finite(),
        s.insert(t).remove(ABSENT).len() == s.remove(ABSENT).len() + if t != ABSENT && !s.contains(
            t,
        ) {
            1int
        } else {
            0
        },
{
    if t == ABSENT {
        assert(s.insert(t).remove(ABSENT) =~= s.remove(ABSENT));
    } else {
        assert(s.insert(t).remove(ABSENT) =~= s.remove(ABSENT).insert(t));
    }
}

/// A record whose four timestamps are one and the same, other than zero
/// and one that applies, gives one entry: all four kinds at this
/// timestamp.
pub proof fn lemma_one_timestamp(line: RecordView, t: i64)
    requires
        line.mtime == t,
        line.atime == t,
        line.ctime == t,
        line.crtime == t,
        t != 0,
        t != ABSENT,
    ensures
        entries_of(line) == seq![
            EntryView { flags: MACBFlags { m: true, a: true, c: true, b: true }, line },
        ],
        entries_of(line)[0].timestamp() == t,
{
    assert(slot_taken(line, 0));
    assert(!slot_taken(line, 1)) by {
        assert(slot_time(line, 0) == slot_time(line, 1));
    }
    assert(!slot_taken(line, 2)) by {
        assert(slot_time(line, 0) == slot_time(line, 2));
    }
    assert(!slot_taken(line, 3)) by {
        assert(slot_time(line, 0) == slot_time(line, 3));
    }
    assert(entries_of(line) =~= seq![
        EntryView { flags: MACBFlags { m: true, a: true, c: true, b: true }, line },
    ]);
}

/// A record with four timestamps that apply and are pairwise different
/// gives four entries of one kind each: modified, accessed, changed and
/// born, in this order.
pub proof fn lemma_four_timestamps(line: RecordView)
    requires
        line.mtime != ABSENT,
        line.atime != ABSENT,
        line.ctime != ABSENT,
        line.crtime != ABSENT,
        line.mtime != line.atime,
        line.mtime != line.ctime,
        line.mtime != line.crtime,
        line.atime != line.ctime,
        line.atime != line.crtime,
        line.ctime != line.crtime,
    ensures
        entries_of(line).len() == 4,
        forall|i: int| 0 <= i < 4 ==> (#[trigger] entries_of(line)[i]).flags.count() == 1,
        entries_of(line) == seq![
            EntryView { flags: MACBFlags { m: true, a: false, c: false, b: false }, line },
            EntryView { flags: MACBFlags { m: false, a: true, c: false, b: false }, line },
            EntryView { flags: MACBFlags { m: false, a: false, c: true, b: false }, line },
            EntryView { flags: MACBFlags { m: false, a: false, c: false, b: true }, line },
        ],
{
    assert(slot_taken(line, 0));
    assert(slot_taken(line, 1));
    assert(slot_taken(line, 2));
    assert(slot_taken(line, 3));
    assert(entries_of(line) =~= seq![
        EntryView { flags: MACBFlags { m: true, a: false, c: false, b: false }, line },
        EntryView { flags: MACBFlags { m: false, a: true, c: false, b: false }, line },
        EntryView { flags: MACBFlags { m: false, a: false, c: true, b: false }, line },
        EntryView { flags: MACBFlags { m: false, a: false, c: false, b: true }, line },
    ]);
}

/// A record that is discarded, for want of a timestamp that applies or
/// because all four are zero, gives no entry.
pub proof fn lemma_discarded(line: RecordView)
    requires
        is_discarded(line),
    ensures
        entries_of(line) == Seq::<EntryView>::empty(),
{
    assert(entries_of(line) =~= Seq::<EntryView>::empty());
}

/// Of two places exactly one comes first, unless they are the same.
pub proof fn lemma_key_trichotomy(a: Key, b: Key)
    ensures
        key_lt(a, b) || a == b || key_lt(b, a),
        !(key_lt(a, b) && key_lt(b, a)),
        !(key_lt(a, b) && a == b),
{
    lemma_name_trichotomy(a.1, b.1);
}

/// The order of places is transitive.
pub proof fn lemma_key_lt_transitive(a: Key, b: Key, c: Key)
    requires
        key_lt(a, b),
        key_lt(b, c),
    ensures
        key_lt(a, c),
{
    if a.0 == b.0 && b.0 == c.0 {
        lemma_name_lt_transitive(a.1, b.1, c.1);
    }
}

/// Handing an entry to a timeline keeps every entry at its place, if the
/// entry has a flag and a timestamp that applies.
pub proof fn lemma_merge_well_placed(m: Map<Key, EntryView>, e: EntryView)
    requires
        well_placed(m),
        e.timestamp() != ABSENT,
        !e.flags.is_none(),
    ensures
        well_placed(merge(m, e)),
{
}

/// Handing records to a timeline keeps every entry at its place.
pub proof fn lemma_merge_records_well_placed(m: Map<Key, EntryView>, lines: Seq<RecordView>)
    requires
        well_placed(m),
    ensures
        well_placed(merge_records(m, lines)),
    decreases lines.len(),
{
    if lines.len() > 0 {
        lemma_merge_records_well_placed(m, lines.drop_last());
        lemma_entries_of_record(lines.last());
        lemma_merge_all_well_placed(
            merge_records(m, lines.drop_last()),
            entries_of(lines.last()),
        );
    }
}

/// Handing entries to a timeline keeps every entry at its place, if each
/// of them has a flag and a timestamp that applies.
pub proof fn lemma_merge_all_well_placed(m: Map<Key, EntryView>, es: Seq<EntryView>)
    requires
        well_placed(m),
        forall|i: int|
            0 <= i < es.len() ==> (#[trigger] es[i]).timestamp() != ABSENT
                && !es[i].flags.is_none(),
    ensures
        well_placed(merge_all(m, es)),
    decreases es.len(),
{
    if es.len() > 0 {
        lemma_merge_all_well_placed(m, es.drop_last());
        lemma_merge_well_placed(merge_all(m, es.drop_last()), es.last());
    }
}

/// No entry of a listing stands at the timestamp that means "does not
/// apply".
pub proof fn lemma_no_absent_timestamp(out: Seq<(i64, EntryView)>, m: Map<Key, EntryView>)
    requires
        lists(out, m),
        well_placed(m),
    ensures
        forall|i: int| 0 <= i < out.len() ==> (#[trigger] out[i]).0 != ABSENT,
{
    assert forall|i: int| 0 <= i < out.len() implies (#[trigger] out[i]).0 != ABSENT by {
        assert(m.contains_key(out[i].1.key()));
    }
}

/// A listing ascends: by timestamp, and by name among equal timestamps.
pub proof fn lemma_listing_ascends(out: Seq<(i64, EntryView)>, m: Map<Key, EntryView>)
    requires
        lists(out, m),
    ensures
        forall|i: int, j: int|
            0 <= i < j < out.len() ==> (#[trigger] out[i]).0 <= (#[trigger] out[j]).0,
        forall|i: int, j: int|
            0 <= i < j < out.len() && (#[trigger] out[i]).0 == (#[trigger] out[j]).0 ==> name_lt(
                out[i].1.line.name,
                out[j].1.line.name,
            ),
{
    assert forall|i: int, j: int| 0 <= i < j < out.len() implies (#[trigger] out[i]).0 <= (
    #[trigger] out[j]).0 && (out[i].0 == out[j].0 ==> name_lt(
        out[i].1.line.name,
        out[j].1.line.name,
    )) by {
        assert(key_lt(out[i].1.key(), out[j].1.key()));
    }
}

/// A listing without its last entry lists the timeline without that
/// entry.
proof fn lemma_listing_drop_last(out: Seq<(i64, EntryView)>, m: Map<Key, EntryView>)
    requires
        lists(out, m),
        out.len() > 0,
    ensures
        lists(out.drop_last(), m.remove(out.last().1.key())),
{
    let rest = out.drop_last();
    let last = out.last().1.key();
    let less = m.remove(last);
    assert forall|i: int| 0 <= i < rest.len() implies {
        &&& (#[trigger] rest[i]).0 == rest[i].1.timestamp()
        &&& less.contains_key(rest[i].1.key())
        &&& less[rest[i].1.key()] == rest[i].1
    } by {
        assert(rest[i] == out[i]);
        assert(key_lt(out[i].1.key(), out[out.len() - 1].1.key()));
        lemma_key_trichotomy(out[i].1.key(), last);
    }
    assert forall|k: Key| #[trigger] less.contains_key(k) implies exists|i: int|
        0 <= i < rest.len() && (#[trigger] rest[i]).1.key() == k by {
        assert(m.contains_key(k));
        let i = choose|i: int| 0 <= i < out.len() && (#[trigger] out[i]).1.key() == k;
        assert(rest[i] == out[i]);
    }
    assert forall|i: int, j: int| 0 <= i < j < rest.len() implies key_lt(
        (#[trigger] rest[i]).1.key(),
        (#[trigger] rest[j]).1.key(),
    ) by {
        assert(rest[i] == out[i]);
        assert(rest[j] == out[j]);
    }
}

/// A timeline has one listing: two runs that end with the same timeline
/// give the same entries in the same order.
pub proof fn lemma_listing_unique(
    a: Seq<(i64, EntryView)>,
    b: Seq<(i64, EntryView)>,
    m: Map<Key, EntryView>,
)
    requires
        lists(a, m),
        lists(b, m),
    ensures
        a == b,
    decreases a.len(),
{
    if a.len() == 0 {
        if b.len() > 0 {
            assert(m.contains_key(b[0].1.key()));
            let i = choose|i: int| 0 <= i < a.len() && (#[trigger] a[i]).1.key() == b[0].1.key();
        }
        assert(a =~= b);
    } else {
        let ka = a.last().1.key();
        assert(m.contains_key(a[a.len() - 1].1.key()));
        let j = choose|j: int| 0 <= j < b.len() && (#[trigger] b[j]).1.key() == ka;
        let kb = b.last().1.key();
        assert(m.contains_key(b[b.len() - 1].1.key()));
        let i = choose|i: int| 0 <= i < a.len() && (#[trigger] a[i]).1.key() == kb;
        lemma_key_trichotomy(ka, kb);
        if j < b.len() - 1 {
            assert(key_lt(b[j].1.key(), b[b.len() - 1].1.key()));
        }
        if i < a.len() - 1 {
            assert(key_lt(a[i].1.key(), a[a.len() - 1].1.key()));
        }
        assert(ka == kb);
        assert(a.last() == b.last());
        lemma_listing_drop_last(a, m);
        lemma_listing_drop_last(b, m);
        lemma_listing_unique(a.drop_last(), b.drop_last(), m.remove(ka));
        assert(a =~= a.drop_last().push(a.last()));
        assert(b =~= b.drop_last().push(b.last()));
    }
}

/// A listing has as many entries as the timeline.
pub proof fn lemma_listing_len(out: Seq<(i64, EntryView)>, m: Map<Key, EntryView>)
    requires
        lists(out, m),
    ensures
        m.dom().finite(),
        m.dom().len() == out.len(),
    decreases out.len(),
{
    if out.len() == 0 {
        assert forall|k: Key| !m.dom().contains(k) by {
            if m.contains_key(k) {
                let i = choose|i: int| 0 <= i < out.len() && (#[trigger] out[i]).1.key() == k;
            }
        }
        assert(m.dom() =~= Set::<Key>::empty());
    } else {
        let last = out.last().1.key();
        lemma_listing_drop_last(out, m);
        lemma_listing_len(out.drop_last(), m.remove(last));
        assert(m.contains_key(out[out.len() - 1].1.key()));
        assert(m.dom() =~= m.remove(last).dom().insert(last));
    }
}

/// The entries of the records in `lines`, record by record.
pub open spec fn all_entries(lines: Seq<RecordView>) -> Seq<EntryView>
    decreases lines.len(),
{
    if lines.len() == 0 {
        Seq::empty()
    } else {
        all_entries(lines.drop_last()) + entries_of(lines.last())
    }
}

/// The number of different timestamps that apply, summed over the records
/// in `lines`.
pub open spec fn distinct_times(lines: Seq<RecordView>) -> nat
    decreases lines.len(),
{
    if lines.len() == 0 {
        0
    } else {
        distinct_times(lines.drop_last()) + present_times(lines.last()).len()
    }
}

/// To hand over one sequence of entries and then another is to hand over
/// the two in one.
pub proof fn lemma_merge_all_concat(m: Map<Key, EntryView>, a: Seq<EntryView>, b: Seq<EntryView>)
    ensures
        merge_all(merge_all(m, a), b) == merge_all(m, a + b),
    decreases b.len(),
{
    if b.len() == 0 {
        assert(a + b =~= a);
    } else {
        lemma_merge_all_concat(m, a, b.drop_last());
        assert((a + b).drop_last() =~= a + b.drop_last());
        assert((a + b).last() == b.last());
    }
}

/// To hand over records is to hand over their entries.
pub proof fn lemma_merge_records_entries(m: Map<Key, EntryView>, lines: Seq<RecordView>)
    ensures
        merge_records(m, lines) == merge_all(m, all_entries(lines)),
    decreases lines.len(),
{
    if lines.len() > 0 {
        lemma_merge_records_entries(m, lines.drop_last());
        lemma_merge_all_concat(m, all_entries(lines.drop_last()), entries_of(lines.last()));
    }
}

/// Entries of pairwise different places all find their place in an empty
/// timeline.
pub proof fn lemma_merge_all_distinct(es: Seq<EntryView>)
    requires
        forall|i: int, j: int|
            0 <= i < j < es.len() ==> (#[trigger] es[i]).key() != (#[trigger] es[j]).key(),
    ensures
        merge_all(Map::empty(), es).dom().finite(),
        merge_all(Map::empty(), es).dom().len() == es.len(),
        forall|k: Key| #[trigger]
            merge_all(Map::empty(), es).contains_key(k) ==> exists|i: int|
                0 <= i < es.len() && (#[trigger] es[i]).key() == k,
    decreases es.len(),
{
    let empty = Map::<Key, EntryView>::empty();
    if es.len() > 0 {
        let rest = es.drop_last();
        assert forall|i: int, j: int| 0 <= i < j < rest.len() implies (#[trigger] rest[i]).key()
            != (#[trigger] rest[j]).key() by {
            assert(rest[i] == es[i] && rest[j] == es[j]);
        }
        lemma_merge_all_distinct(rest);
        let before = merge_all(empty, rest);
        let e = es.last();
        if before.contains_key(e.key()) {
            let i = choose|i: int| 0 <= i < rest.len() && (#[trigger] rest[i]).key() == e.key();
            assert(rest[i] == es[i]);
            assert(es[i].key() != es[es.len() - 1].key());
        }
        assert(merge_all(empty, es).dom() =~= before.dom().insert(e.key()));
        assert forall|k: Key| #[trigger] merge_all(empty, es).contains_key(k) implies exists|i: int|
            0 <= i < es.len() && (#[trigger] es[i]).key() == k by {
            if k == e.key() {
                assert(es[es.len() - 1].key() == k);
            } else {
                let i = choose|i: int| 0 <= i < rest.len() && (#[trigger] rest[i]).key() == k;
                assert(rest[i] == es[i]);
            }
        }
    }
}

/// Records of which none is discarded have as many entries as they have
/// different timestamps that apply, record by record.
pub proof fn lemma_all_entries_len(lines: Seq<RecordView>)
    requires
        forall|i: int| 0 <= i < lines.len() ==> !is_discarded(#[trigger] lines[i]),
    ensures
        all_entries(lines).len() == distinct_times(lines),
        lines.len() <= all_entries(lines).len() <= 4 * lines.len(),
    decreases lines.len(),
{
    if lines.len() > 0 {
        assert forall|i: int| 0 <= i < lines.drop_last().len() implies !is_discarded(
            #[trigger] lines.drop_last()[i],
        ) by {
            assert(lines.drop_last()[i] == lines[i]);
        }
        lemma_all_entries_len(lines.drop_last());
        assert(!is_discarded(lines[lines.len() - 1]));
        lemma_entry_count(lines.last());
    }
}

/// The timeline of records of which none is discarded, and of which no
/// two entries meet at one timestamp under one name, has as many entries
/// as the records have different timestamps that apply, record by record.
pub proof fn lemma_timeline_len(lines: Seq<RecordView>)
    requires
        forall|i: int| 0 <= i < lines.len() ==> !is_discarded(#[trigger] lines[i]),
        forall|i: int, j: int|
            0 <= i < j < all_entries(lines).len() ==> (#[trigger] all_entries(lines)[i]).key() != (
            #[trigger] all_entries(lines)[j]).key(),
    ensures
        merge_records(Map::empty(), lines).dom().finite(),
        merge_records(Map::empty(), lines).dom().len() == distinct_times(lines),
{
    lemma_merge_records_entries(Map::empty(), lines);
    lemma_merge_all_distinct(all_entries(lines));
    lemma_all_entries_len(lines);
}

/// Entries of different places can be handed over in either order.
pub proof fn lemma_merge_commutes(m: Map<Key, EntryView>, a: EntryView, b: EntryView)
    requires
        a.key() != b.key(),
    ensures
        merge(merge(m, a), b) == merge(merge(m, b), a),
{
    assert(merge(merge(m, a), b) =~= merge(merge(m, b), a));
}

/// What a timeline holds, it keeps: handing over more entries changes none
/// of those that are there.
pub proof fn lemma_merge_all_keeps(m: Map<Key, EntryView>, es: Seq<EntryView>, k: Key)
    requires
        m.contains_key(k),
    ensures
        merge_all(m, es).contains_key(k),
        merge_all(m, es)[k] == m[k],
    decreases es.len(),
{
    if es.len() > 0 {
        lemma_merge_all_keeps(m, es.drop_last(), k);
    }
}

/// After entries have been handed over, the place of each of them is
/// taken: by the entry itself, or by one that was there before it.
pub proof fn lemma_merge_all_places(m: Map<Key, EntryView>, es: Seq<EntryView>, i: int)
    requires
        0 <= i < es.len(),
    ensures
        merge_all(m, es).contains_key(es[i].key()),
    decreases es.len(),
{
    if i < es.len() - 1 {
        lemma_merge_all_places(m, es.drop_last(), i);
    }
}

/// A record that is handed to a timeline without entries is found there
/// with all its entries.
pub proof fn lemma_record_alone(line: RecordView, i: int)
    requires
        0 <= i < entries_of(line).len(),
    ensures
        merge_all(Map::empty(), entries_of(line)).contains_key(entries_of(line)[i].key()),
        merge_all(Map::empty(), entries_of(line))[entries_of(line)[i].key()] == entries_of(
            line,
        )[i],
{
    lemma_entries_of_record(line);
    lemma_first_of_place(Map::empty(), entries_of(line), i);
}

/// An entry whose place no entry before it takes, in the timeline or
/// among those handed over, is found at its place.
pub proof fn lemma_first_of_place(m: Map<Key, EntryView>, es: Seq<EntryView>, i: int)
    requires
        0 <= i < es.len(),
        !m.contains_key(es[i].key()),
        forall|j: int| 0 <= j < i ==> (#[trigger] es[j]).timestamp() != es[i].timestamp(),
    ensures
        merge_all(m, es).contains_key(es[i].key()),
        merge_all(m, es)[es[i].key()] == es[i],
    decreases es.len(),
{
    if i < es.len() - 1 {
        lemma_first_of_place(m, es.drop_last(), i);
    } else {
        lemma_not_placed(m, es.drop_last(), es[i].key());
    }
}

/// A place that neither the timeline holds nor an entry that is handed
/// over claims stays free.
pub proof fn lemma_not_placed(m: Map<Key, EntryView>, es: Seq<EntryView>, k: Key)
    requires
        !m.contains_key(k),
        forall|j: int| 0 <= j < es.len() ==> (#[trigger] es[j]).timestamp() != k.0,
    ensures
        !merge_all(m, es).contains_key(k),
    decreases es.len(),
{
    if es.len() > 0 {
        lemma_not_placed(m, es.drop_last(), k);
        assert(es[es.len() - 1].timestamp() != k.0);
    }
}

} // verus!
