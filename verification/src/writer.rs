//! What renders the entries of a timeline.

use vstd::prelude::*;

use crate::entry::{EntryView, ListEntry};

verus! {

/// A renderer of timeline entries.  It is handed the entries of a timeline
/// one by one, in the order of the timeline, and gives a line of text for
/// each.  What it gives may depend on what it was handed before.
///
/// A writer can say in `line` and `after` what it does.  One that does
/// sets `exact`, and the contracts of the library then speak of its lines;
/// of a writer that leaves `exact` as it is nothing is claimed.
pub trait Mactime2Writer: Sized {
    /// Whether `line` and `after` describe the writers of this type.
    open spec fn exact() -> bool {
        false
    }

    /// The timestamps that the writers of this type can render.
    open spec fn accepts(timestamp: i64) -> bool {
        true
    }

    /// The line that the writer gives for `entry` at `timestamp`.
    open spec fn line(&self, timestamp: i64, entry: EntryView) -> Seq<char> {
        Seq::empty()
    }

    /// The writer after it has been handed `entry` at `timestamp`.
    open spec fn after(&self, timestamp: i64, entry: EntryView) -> Self {
        *self
    }

    /// Renders one entry.
    fn fmt(&mut self, timestamp: &i64, entry: &ListEntry) -> (res: String)
        requires
            Self::accepts(*timestamp),
        ensures
            Self::exact() ==> res@ == old(self).line(*timestamp, entry@),
            Self::exact() ==> *final(self) == old(self).after(*timestamp, entry@),
    ;
}

/// The lines that `writer` gives for the entries of `listing`, one after
/// the other.
pub open spec fn lines_of<W: Mactime2Writer>(writer: W, listing: Seq<(i64, EntryView)>) -> Seq<
    Seq<char>,
>
    decreases listing.len(),
{
    if listing.len() == 0 {
        Seq::empty()
    } else {
        lines_of(writer, listing.drop_last()).push(
            after_all(writer, listing.drop_last()).line(listing.last().0, listing.last().1),
        )
    }
}

/// The writer after it has been handed the entries of `listing`.
pub open spec fn after_all<W: Mactime2Writer>(writer: W, listing: Seq<(i64, EntryView)>) -> W
    decreases listing.len(),
{
    if listing.len() == 0 {
        writer
    } else {
        after_all(writer, listing.drop_last()).after(listing.last().0, listing.last().1)
    }
}

/// The texts of `lines`.
pub open spec fn texts(lines: Seq<String>) -> Seq<Seq<char>> {
    lines.map_values(|s: String| s@)
}

} // verus!
