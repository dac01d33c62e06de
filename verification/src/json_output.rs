//! One JSON object for each entry, with the date as a text.

use chrono_tz::Tz;
use vstd::prelude::*;
use vstd::string::StringExecFns;

use crate::date::{date_text, format_date, MAX_TIMESTAMP};
use crate::entry::{EntryView, ListEntry};
use crate::text::{decimal, push_char, push_decimal};
use crate::writer::Mactime2Writer;

verus! {

broadcast use vstd::string::group_string_axioms;

/// The character `c` as it stands within a JSON string: a backslash
/// before a backslash and before a double quote.
pub open spec fn escaped_char(c: char) -> Seq<char> {
    if c == '\\' || c == '"' {
        seq!['\\', c]
    } else {
        seq![c]
    }
}

/// The text `s` with every backslash and every double quote escaped.
pub open spec fn escaped(s: Seq<char>) -> Seq<char>
    decreases s.len(),
{
    if s.len() == 0 {
        Seq::empty()
    } else {
        escaped(s.drop_last()) + escaped_char(s.last())
    }
}

/// The object for an entry, with the members `ts`, `size`, `flags`,
/// `mode`, `uid`, `gid`, `inode` and `name`.
pub open spec fn json_line(date: Seq<char>, entry: EntryView) -> Seq<char> {
    "{\"ts\": \""@ + date + "\", \"size\": "@ + decimal(entry.line.size as nat)
        + ", \"flags\": \""@ + entry.flags.rendering() + "\", \"mode\": \""@ + entry.line.mode
        + "\", \"uid\": "@ + decimal(entry.line.uid as nat) + ", \"gid\": "@ + decimal(
        entry.line.gid as nat,
    ) + ", \"inode\": \""@ + entry.line.inode + "\", \"name\": \""@ + escaped(entry.line.name)
        + "\"}"@
}

/// Appends `text` with its backslashes and double quotes escaped.
pub fn push_escaped(s: &mut String, text: &str)
    ensures
        final(s)@ == old(s)@ + escaped(text@),
{
    let chars = text.chars();
    for c in it: chars
        invariant
            it.seq() == text@,
            s@ == old(s)@ + escaped(text@.take(it.index())),
    {
        proof {
            let i = it.index();
            assert(text@.take(i + 1).drop_last() =~= text@.take(i));
            assert(text@.take(i + 1).last() == c);
        }
        if c == '\\' || c == '"' {
            push_char(s, '\\');
        }
        push_char(s, c);
        assert(s@ =~= old(s)@ + escaped(text@.take(it.index() + 1)));
    }
    assert(text@.take(text@.len() as int) =~= text@);
}

/// Writes one JSON object for each entry.
pub struct JsonOutput {
    src_zone: Tz,
    dst_zone: Tz,
}

impl JsonOutput {
    /// A writer that takes timestamps as local times of `src_zone` and
    /// shows them as on the clocks of `dst_zone`.
    pub fn new(src_zone: Tz, dst_zone: Tz) -> (res: JsonOutput)
        ensures
            res == JsonOutput::fresh(src_zone, dst_zone),
            res.zones() == (src_zone, dst_zone),
    {
        JsonOutput { src_zone, dst_zone }
    }

    /// The writer for the two zones.
    pub closed spec fn fresh(src_zone: Tz, dst_zone: Tz) -> JsonOutput {
        JsonOutput { src_zone, dst_zone }
    }

    /// The zone of the timestamps and the zone of the dates.
    pub closed spec fn zones(&self) -> (Tz, Tz) {
        (self.src_zone, self.dst_zone)
    }
}

impl Mactime2Writer for JsonOutput {
    open spec fn exact() -> bool {
        true
    }

    open spec fn accepts(timestamp: i64) -> bool {
        timestamp <= MAX_TIMESTAMP
    }

    open spec fn line(&self, timestamp: i64, entry: EntryView) -> Seq<char> {
        json_line(date_text(timestamp, self.zones().0, self.zones().1), entry)
    }

    open spec fn after(&self, timestamp: i64, entry: EntryView) -> JsonOutput {
        *self
    }

    fn fmt(&mut self, timestamp: &i64, entry: &ListEntry) -> (res: String) {
        let date = format_date(*timestamp, &self.src_zone, &self.dst_zone);
        let mut s = "{\"ts\": \"".to_owned();
        s.append(date.as_str());
        s.append("\", \"size\": ");
        push_decimal(&mut s, entry.line.get_size());
        s.append(", \"flags\": \"");
        s.append(entry.flags.to_string().as_str());
        s.append("\", \"mode\": \"");
        s.append(entry.line.get_mode());
        s.append("\", \"uid\": ");
        push_decimal(&mut s, entry.line.get_uid());
        s.append(", \"gid\": ");
        push_decimal(&mut s, entry.line.get_gid());
        s.append(", \"inode\": \"");
        s.append(entry.line.get_inode());
        s.append("\", \"name\": \"");
        push_escaped(&mut s, entry.line.get_name());
        s.append("\"}");
        assert(s@ =~= json_line(date@, entry@));
        s
    }
}

} // verus!
