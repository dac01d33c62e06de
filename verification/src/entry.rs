//! One line of the merged timeline.

use std::cmp::Ordering;
use std::sync::Arc;
use vstd::prelude::*;

use crate::bucket::Named;
use crate::flags::MACBFlags;
use crate::names::{compare_names, name_lt, NameOrder};
use crate::record::{Record, RecordView};

verus! {

/// What a [`ListEntry`] holds: a set of kinds and the record they belong to.
pub struct EntryView {
    pub flags: MACBFlags,
    pub line: RecordView,
}

/// A place in the timeline: a timestamp, and a name to tell apart the
/// entries that share it.
pub type Key = (i64, Seq<char>);

impl EntryView {
    /// The timestamp at which the entry stands: that of the first kind, in
    /// the order modified, accessed, changed, born, that its flags hold.
    pub open spec fn timestamp(self) -> i64 {
        if self.flags.m {
            self.line.mtime
        } else if self.flags.a {
            self.line.atime
        } else if self.flags.c {
            self.line.ctime
        } else {
            self.line.crtime
        }
    }

    /// The place of the entry in the timeline.
    pub open spec fn key(self) -> Key {
        (self.timestamp(), self.line.name)
    }
}

/// The order of the timeline: by timestamp, and by name among equal
/// timestamps.
pub open spec fn key_lt(a: Key, b: Key) -> bool {
    a.0 < b.0 || (a.0 == b.0 && name_lt(a.1, b.1))
}

/// An entry of the timeline: one timestamp of a record, with the flags of
/// all the kinds that have this timestamp.  Entries are told apart, and
/// ordered among equal timestamps, by the name of their record alone.
pub struct ListEntry {
    pub flags: MACBFlags,
    pub line: Arc<Record>,
}

impl View for ListEntry {
    type V = EntryView;

    open spec fn view(&self) -> EntryView {
        EntryView { flags: self.flags, line: self.line@ }
    }
}

/// `Arc::clone` of std: a second pointer to the same record, which is left
/// as it is.
#[verifier::external_body]
pub(crate) fn share(line: &Arc<Record>) -> (res: Arc<Record>)
    ensures
        res == *line,
{
    Arc::clone(line)
}

impl Named for ListEntry {
    open spec fn label(&self) -> Seq<char> {
        self@.line.name
    }

    fn name(&self) -> (res: &str) {
        self.line.get_name()
    }
}

impl ListEntry {
    /// Whether the two entries have the same name.
    pub fn same_name(&self, other: &ListEntry) -> (res: bool)
        ensures
            res == (self@.line.name == other@.line.name),
    {
        compare_names(self.line.get_name(), other.line.get_name()) == NameOrder::Same
    }

    /// How the name of this entry stands to the name of the other.
    pub fn compare(&self, other: &ListEntry) -> (res: NameOrder)
        ensures
            res == NameOrder::Before <==> name_lt(self@.line.name, other@.line.name),
            res == NameOrder::Same <==> self@.line.name == other@.line.name,
            res == NameOrder::After <==> name_lt(other@.line.name, self@.line.name),
    {
        compare_names(self.line.get_name(), other.line.get_name())
    }
}

impl PartialEq for ListEntry {
    /// Two entries are equal if they have the same name.
    fn eq(&self, other: &ListEntry) -> (res: bool) {
        self.same_name(other)
    }
}

impl vstd::std_specs::cmp::PartialEqSpecImpl for ListEntry {
    open spec fn obeys_eq_spec() -> bool {
        true
    }

    open spec fn eq_spec(&self, other: &ListEntry) -> bool {
        self@.line.name == other@.line.name
    }
}

impl PartialOrd for ListEntry {
    /// Entries are ordered by their names.
    fn partial_cmp(&self, other: &ListEntry) -> (res: Option<Ordering>) {
        match self.compare(other) {
            NameOrder::Before => Some(Ordering::Less),
            NameOrder::Same => Some(Ordering::Equal),
            NameOrder::After => Some(Ordering::Greater),
        }
    }
}

impl vstd::std_specs::cmp::PartialOrdSpecImpl for ListEntry {
    open spec fn obeys_partial_cmp_spec() -> bool {
        true
    }

    open spec fn partial_cmp_spec(&self, other: &ListEntry) -> Option<Ordering> {
        if name_lt(self@.line.name, other@.line.name) {
            Some(Ordering::Less)
        } else if self@.line.name == other@.line.name {
            Some(Ordering::Equal)
        } else {
            Some(Ordering::Greater)
        }
    }
}

} // verus!
