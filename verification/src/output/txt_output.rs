//! Lines in columns of fixed width.

use chrono_tz::Tz;
use vstd::prelude::*;
use vstd::string::StringExecFns;

use crate::date::{date_text, format_date, MAX_TIMESTAMP};
use crate::entry::{EntryView, ListEntry};
use crate::text::{
    decimal, flush_left, flush_right, push_char, push_decimal_left, push_decimal_right, push_left,
    push_spaces, spaces,
};
use crate::writer::Mactime2Writer;

verus! {

/// The width of the column of the date.
pub const DATE_WIDTH: usize = 25;

/// The line for an entry: date, size, flags, mode, owner, group, object
/// identifier and name, with one space between them; the size at the right
/// of 8 characters, the mode at the left of 12, owner and group at the left
/// of 7 each.
pub open spec fn txt_line(date: Seq<char>, entry: EntryView) -> Seq<char> {
    date + seq![' '] + flush_right(decimal(entry.line.size as nat), 8) + seq![' ']
        + entry.flags.rendering() + seq![' '] + flush_left(entry.line.mode, 12) + seq![' ']
        + flush_left(decimal(entry.line.uid as nat), 7) + seq![' '] + flush_left(
        decimal(entry.line.gid as nat),
        7,
    ) + seq![' '] + entry.line.inode + seq![' '] + entry.line.name
}

/// Writes one line of text for each entry.  The date is written for the
/// first entry of each timestamp, and left blank for those that follow it.
pub struct TxtOutput {
    src_zone: Tz,
    dst_zone: Tz,
    last_ts: i64,
}

impl TxtOutput {
    /// A writer that takes timestamps as local times of `src_zone` and
    /// shows them as on the clocks of `dst_zone`.
    pub fn new(src_zone: Tz, dst_zone: Tz) -> (res: TxtOutput)
        ensures
            res == TxtOutput::fresh(src_zone, dst_zone),
            res.zones() == (src_zone, dst_zone),
            res.last_timestamp() == -1,
    {
        TxtOutput { src_zone, dst_zone, last_ts: -1 }
    }

    /// The writer before its first entry.
    pub closed spec fn fresh(src_zone: Tz, dst_zone: Tz) -> TxtOutput {
        TxtOutput { src_zone, dst_zone, last_ts: -1i64 }
    }

    /// The zone of the timestamps and the zone of the dates.
    pub closed spec fn zones(&self) -> (Tz, Tz) {
        (self.src_zone, self.dst_zone)
    }

    /// The timestamp of the entry that was written last, -1 before the
    /// first.
    pub closed spec fn last_timestamp(&self) -> i64 {
        self.last_ts
    }

    /// What stands in the column of the date for an entry at `timestamp`.
    pub open spec fn date_column(&self, timestamp: i64) -> Seq<char> {
        if timestamp != self.last_timestamp() {
            date_text(timestamp, self.zones().0, self.zones().1)
        } else {
            spaces(DATE_WIDTH as int)
        }
    }
}

impl Mactime2Writer for TxtOutput {
    open spec fn exact() -> bool {
        true
    }

    open spec fn accepts(timestamp: i64) -> bool {
        timestamp <= MAX_TIMESTAMP
    }

    open spec fn line(&self, timestamp: i64, entry: EntryView) -> Seq<char> {
        txt_line(self.date_column(timestamp), entry)
    }

    closed spec fn after(&self, timestamp: i64, entry: EntryView) -> TxtOutput {
        TxtOutput { src_zone: self.src_zone, dst_zone: self.dst_zone, last_ts: timestamp }
    }

    fn fmt(&mut self, timestamp: &i64, entry: &ListEntry) -> (res: String) {
        let ghost date = self.date_column(*timestamp);
        let mut s = if *timestamp != self.last_ts {
            self.last_ts = *timestamp;
            format_date(*timestamp, &self.src_zone, &self.dst_zone)
        } else {
            let mut blank = String::new();
            push_spaces(&mut blank, DATE_WIDTH);
            assert(blank@ =~= spaces(DATE_WIDTH as int));
            blank
        };
        assert(s@ == date);
        push_char(&mut s, ' ');
        push_decimal_right(&mut s, entry.line.get_size(), 8);
        push_char(&mut s, ' ');
        s.append(entry.flags.to_string().as_str());
        push_char(&mut s, ' ');
        push_left(&mut s, entry.line.get_mode(), 12);
        push_char(&mut s, ' ');
        push_decimal_left(&mut s, entry.line.get_uid(), 7);
        push_char(&mut s, ' ');
        push_decimal_left(&mut s, entry.line.get_gid(), 7);
        push_char(&mut s, ' ');
        s.append(entry.line.get_inode());
        push_char(&mut s, ' ');
        s.append(entry.line.get_name());
        assert(s@ =~= txt_line(date, entry@));
        s
    }
}

/// The writer keeps its zones, and remembers the timestamp that it wrote
/// last.
pub proof fn lemma_txt_after(w: TxtOutput, timestamp: i64, entry: EntryView)
    ensures
        w.after(timestamp, entry).zones() == w.zones(),
        w.after(timestamp, entry).last_timestamp() == timestamp,
{
}

} // verus!
