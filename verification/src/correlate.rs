//! From the four timestamps of a record to its entries in the timeline.
//!
//! A record has four slots, one for each of its timestamps in the order
//! modified, accessed, changed, born.  A timestamp that applies settles in
//! the first slot that stands for its value, so that each value the record
//! holds is found in exactly one slot, together with all the kinds that
//! share it.

use vstd::prelude::*;

use crate::entry::EntryView;
use crate::flags::MACBFlags;
use crate::record::{Record, RecordView, ABSENT};

verus! {

/// The kinds of `line` whose timestamp is `t`.
pub open spec fn kinds_at(line: RecordView, t: i64) -> MACBFlags {
    MACBFlags { m: line.mtime == t, a: line.atime == t, c: line.ctime == t, b: line.crtime == t }
}

/// The record has nothing to say: none of its timestamps applies, or all
/// four are zero.
pub open spec fn is_discarded(line: RecordView) -> bool {
    ||| line.mtime == ABSENT && line.atime == ABSENT && line.ctime == ABSENT && line.crtime
        == ABSENT
    ||| line.mtime == 0 && line.atime == 0 && line.ctime == 0 && line.crtime == 0
}

/// The timestamp that slot `k` stands for.
pub open spec fn slot_time(line: RecordView, k: int) -> i64 {
    if k == 0 {
        line.mtime
    } else if k == 1 {
        line.atime
    } else if k == 2 {
        line.ctime
    } else {
        line.crtime
    }
}

/// Slot `k` is taken: the record is not discarded, the timestamp of the slot
/// applies, and no slot before it stands for the same value.
pub open spec fn slot_taken(line: RecordView, k: int) -> bool {
    &&& !is_discarded(line)
    &&& slot_time(line, k) != ABSENT
    &&& forall|j: int| 0 <= j < k ==> slot_time(line, j) != slot_time(line, k)
}

/// The flags of slot `k`: all the kinds that share its timestamp if the
/// slot is taken, none otherwise.
pub open spec fn slot_flags(line: RecordView, k: int) -> MACBFlags {
    if slot_taken(line, k) {
        kinds_at(line, slot_time(line, k))
    } else {
        MACBFlags { m: false, a: false, c: false, b: false }
    }
}

/// The entries that slot `k` gives: one if it is taken, none otherwise.
pub open spec fn slot_entries(line: RecordView, k: int) -> Seq<EntryView> {
    if slot_taken(line, k) {
        seq![EntryView { flags: slot_flags(line, k), line }]
    } else {
        Seq::empty()
    }
}

/// The entries that the record gives to the timeline, slot by slot.
pub open spec fn entries_of(line: RecordView) -> Seq<EntryView> {
    slot_entries(line, 0) + slot_entries(line, 1) + slot_entries(line, 2) + slot_entries(line, 3)
}

/// The timestamps of the record that apply, each once.
pub open spec fn present_times(line: RecordView) -> Set<i64> {
    set![line.mtime, line.atime, line.ctime, line.crtime].remove(ABSENT)
}

/// Whether the record gives no entry at all.
pub fn discards(line: &Record) -> (res: bool)
    ensures
        res == is_discarded(line@),
{
    let m = line.get_mtime();
    let a = line.get_atime();
    let c = line.get_ctime();
    let b = line.get_crtime();
    (m == ABSENT && a == ABSENT && c == ABSENT && b == ABSENT) || (m == 0 && a == 0 && c == 0
        && b == 0)
}

/// Assigns the kinds of the record to its four slots.
pub fn macb_slots(line: &Record) -> (res: [MACBFlags; 4])
    ensures
        forall|k: int| 0 <= k < 4 ==> res[k] == slot_flags(line@, k),
{
    let none = MACBFlags::none();
    let mut slots: [MACBFlags; 4] = [none, none, none, none];
    if discards(line) {
        return slots;
    }
    let mtime = line.get_mtime();
    let atime = line.get_atime();
    let ctime = line.get_ctime();
    let crtime = line.get_crtime();
    let mut s0 = none;
    let mut s1 = none;
    let mut s2 = none;
    let mut s3 = none;
    if mtime != ABSENT {
        s0.m = true;
    }
    if atime != ABSENT {
        if mtime == atime {
            s0.a = true;
        } else {
            s1.a = true;
        }
    }
    if ctime != ABSENT {
        if mtime == ctime {
            s0.c = true;
        } else if atime == ctime {
            s1.c = true;
        } else {
            s2.c = true;
        }
    }
    if crtime != ABSENT {
        if mtime == crtime {
            s0.b = true;
        } else if atime == crtime {
            s1.b = true;
        } else if ctime == crtime {
            s2.b = true;
        } else {
            s3.b = true;
        }
    }
    slots = [s0, s1, s2, s3];
    proof {
        let v = line@;
        assert(slot_time(v, 0) == mtime && slot_time(v, 1) == atime && slot_time(v, 2) == ctime
            && slot_time(v, 3) == crtime);
        assert(slots[0] == slot_flags(v, 0));
        assert(slots[1] == slot_flags(v, 1)) by {
            assert(slot_taken(v, 1) <==> (atime != ABSENT && slot_time(v, 0) != atime));
        }
        assert(slots[2] == slot_flags(v, 2)) by {
            assert(slot_taken(v, 2) <==> (ctime != ABSENT && slot_time(v, 0) != ctime
                && slot_time(v, 1) != ctime));
        }
        assert(slots[3] == slot_flags(v, 3)) by {
            assert(slot_taken(v, 3) <==> (crtime != ABSENT && slot_time(v, 0) != crtime
                && slot_time(v, 1) != crtime && slot_time(v, 2) != crtime));
        }
    }
    slots
}

} // verus!
