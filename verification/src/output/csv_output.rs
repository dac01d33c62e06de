//! Comma separated values.

use chrono_tz::Tz;
use vstd::prelude::*;
use vstd::string::StringExecFns;

use crate::date::{date_text, format_date, MAX_TIMESTAMP};
use crate::entry::{EntryView, ListEntry};
use crate::text::{decimal, push_char, push_decimal};
use crate::writer::Mactime2Writer;

verus! {

/// The names of the columns, as the first line of a CSV file has them.
pub open spec fn csv_header() -> Seq<char> {
    "Date,Size,Type,Mode,UID,GID,Meta,File Name"@
}

/// The line for an entry: date, size, flags, mode, owner, group, object
/// identifier and name, with commas between them and the name within
/// double quotes.
pub open spec fn csv_line(date: Seq<char>, entry: EntryView) -> Seq<char> {
    date + seq![','] + decimal(entry.line.size as nat) + seq![','] + entry.flags.rendering()
        + seq![','] + entry.line.mode + seq![','] + decimal(entry.line.uid as nat) + seq![',']
        + decimal(entry.line.gid as nat) + seq![','] + entry.line.inode + seq![',', '"']
        + entry.line.name + seq!['"']
}

/// Writes one line of comma separated values for each entry.
pub struct CsvOutput {
    src_zone: Tz,
    dst_zone: Tz,
}

impl CsvOutput {
    /// A writer that takes timestamps as local times of `src_zone` and
    /// shows them as on the clocks of `dst_zone`.
    pub fn new(src_zone: Tz, dst_zone: Tz) -> (res: CsvOutput)
        ensures
            res == CsvOutput::fresh(src_zone, dst_zone),
            res.zones() == (src_zone, dst_zone),
    {
        CsvOutput { src_zone, dst_zone }
    }

    /// The writer for the two zones.
    pub closed spec fn fresh(src_zone: Tz, dst_zone: Tz) -> CsvOutput {
        CsvOutput { src_zone, dst_zone }
    }

    /// The zone of the timestamps and the zone of the dates.
    pub closed spec fn zones(&self) -> (Tz, Tz) {
        (self.src_zone, self.dst_zone)
    }

    /// The first line of a CSV file: the names of the columns.
    pub fn header() -> (res: String)
        ensures
            res@ == csv_header(),
    {
        "Date,Size,Type,Mode,UID,GID,Meta,File Name".to_owned()
    }
}

impl Mactime2Writer for CsvOutput {
    open spec fn exact() -> bool {
        true
    }

    open spec fn accepts(timestamp: i64) -> bool {
        timestamp <= MAX_TIMESTAMP
    }

    open spec fn line(&self, timestamp: i64, entry: EntryView) -> Seq<char> {
        csv_line(date_text(timestamp, self.zones().0, self.zones().1), entry)
    }

    open spec fn after(&self, timestamp: i64, entry: EntryView) -> CsvOutput {
        *self
    }

    fn fmt(&mut self, timestamp: &i64, entry: &ListEntry) -> (res: String) {
        let mut s = format_date(*timestamp, &self.src_zone, &self.dst_zone);
        let ghost date = s@;
        push_char(&mut s, ',');
        push_decimal(&mut s, entry.line.get_size());
        push_char(&mut s, ',');
        s.append(entry.flags.to_string().as_str());
        push_char(&mut s, ',');
        s.append(entry.line.get_mode());
        push_char(&mut s, ',');
        push_decimal(&mut s, entry.line.get_uid());
        push_char(&mut s, ',');
        push_decimal(&mut s, entry.line.get_gid());
        push_char(&mut s, ',');
        s.append(entry.line.get_inode());
        push_char(&mut s, ',');
        push_char(&mut s, '"');
        s.append(entry.line.get_name());
        push_char(&mut s, '"');
        assert(s@ =~= csv_line(date, entry@));
        s
    }
}

} // verus!
