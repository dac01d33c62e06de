//! JSON documents in the Elastic Common Schema: one for each timestamp of
//! a record, with all times as instants of universal time.

use bodyfile::Bodyfile3Line;
use chrono_tz::Tz;
use es4forensics::objects::PosixFile;
use es4forensics::TimelineObject;
use serde_json::Value;
use vstd::prelude::*;

use crate::correlate::slot_time;
use crate::date::{
    in_range, instant_of, local_instants, normalize_date, MAX_TIMESTAMP, MIN_TIMESTAMP,
};
use crate::entry::ListEntry;
use crate::record::{Record, RecordView, ABSENT};
use crate::text::{join_lines, joined};
use crate::writer::{texts, Mactime2Writer};

verus! {

/// A JSON value of the crate serde_json.
#[verifier::external_type_specification]
#[verifier::external_body]
pub struct ExValue(Value);

/// The timestamp can be taken over: it does not apply, or it is a local
/// time of `zone` that the clocks of the zone showed.
pub open spec fn usable(unix_ts: i64, zone: Tz) -> bool {
    unix_ts == ABSENT || (in_range(unix_ts) && instant_of(local_instants(unix_ts, zone)) is Some)
}

/// All four timestamps of the record can be taken over.
pub open spec fn convertible(line: RecordView, zone: Tz) -> bool {
    forall|k: int| 0 <= k < 4 ==> usable(#[trigger] slot_time(line, k), zone)
}

/// The instant that the timestamp stands for in `zone`, in milliseconds
/// since the epoch.
pub open spec fn millis_of(unix_ts: i64, zone: Tz) -> int {
    1000 * instant_of(local_instants(unix_ts, zone))->0
}

/// The instants of the record: those of its timestamps that apply.
pub open spec fn record_instants(line: RecordView, zone: Tz) -> Set<int> {
    Set::new(
        |ms: int|
            exists|k: int|
                0 <= k < 4 && slot_time(line, k) != ABSENT && ms == millis_of(
                    #[trigger] slot_time(line, k),
                    zone,
                ),
    )
}

/// The instants that the documents bear.
pub open spec fn instants_in<T>(documents: Seq<(i64, T)>) -> Set<int> {
    Set::new(|ms: int| exists|i: int| 0 <= i < documents.len() && (#[trigger] documents[i]).0 == ms)
}

/// No two of the documents bear the same instant.
pub open spec fn one_for_each_instant<T>(documents: Seq<(i64, T)>) -> bool {
    forall|i: int, j: int|
        0 <= i < j < documents.len() ==> (#[trigger] documents[i]).0 != (#[trigger] documents[j]).0
}

/// Documents of which no two bear the same instant are as many as their
/// instants.
pub proof fn lemma_instants_len<T>(documents: Seq<(i64, T)>)
    requires
        one_for_each_instant(documents),
    ensures
        instants_in(documents).finite(),
        instants_in(documents).len() == documents.len(),
    decreases documents.len(),
{
    if documents.len() == 0 {
        assert(instants_in(documents) =~= Set::<int>::empty());
    } else {
        let rest = documents.drop_last();
        let last = documents.last().0 as int;
        assert forall|i: int, j: int| 0 <= i < j < rest.len() implies (#[trigger] rest[i]).0 != (
        #[trigger] rest[j]).0 by {
            assert(rest[i] == documents[i] && rest[j] == documents[j]);
        }
        lemma_instants_len(rest);
        assert(!instants_in(rest).contains(last)) by {
            if instants_in(rest).contains(last) {
                let i = choose|i: int| 0 <= i < rest.len() && (#[trigger] rest[i]).0 == last;
                assert(rest[i] == documents[i]);
                assert(documents[i].0 != documents[documents.len() - 1].0);
            }
        }
        assert forall|ms: int| instants_in(documents).contains(ms) == instants_in(rest).insert(
            last,
        ).contains(ms) by {
            if instants_in(documents).contains(ms) {
                let i = choose|i: int|
                    0 <= i < documents.len() && (#[trigger] documents[i]).0 == ms;
                if i < rest.len() {
                    assert(rest[i] == documents[i]);
                }
            }
            if instants_in(rest).contains(ms) {
                let i = choose|i: int| 0 <= i < rest.len() && (#[trigger] rest[i]).0 == ms;
                assert(rest[i] == documents[i]);
            }
            if ms == last {
                assert(documents[documents.len() - 1].0 == ms);
            }
        }
        assert(instants_in(documents) =~= instants_in(rest).insert(last));
    }
}

/// `PosixFile::try_from` and `TimelineObject::into_tuples` of the crate
/// es4forensics, for the record as a `Bodyfile3Line` of the crate
/// bodyfile: the documents that describe the record, one for each of its
/// instants, each with its instant in milliseconds since the epoch, as
/// `Timestamp::timestamp_millis` gives it.  In which order they come is
/// not settled.
#[verifier::external_body]
fn ecs_tuples(line: &Record, src_zone: &Tz) -> (res: Vec<(i64, Value)>)
    requires
        convertible(line@, *src_zone),
    ensures
        instants_in(res@) == record_instants(line@, *src_zone),
        one_for_each_instant(res@),
{
    let bf = Bodyfile3Line::from_values(
        line.md5.clone(), line.name.clone(), line.inode.clone(), line.mode.clone(),
        line.uid, line.gid, line.size, line.atime, line.mtime, line.ctime, line.crtime,
    );
    let file = PosixFile::try_from((&bf, src_zone)).unwrap();
    file.into_tuples().map(|(t, v)| (t.timestamp_millis(), v)).collect()
}

/// `serde_json::to_string` for a JSON value: the value as a text.  How
/// the text reads is not stated.
#[verifier::external_body]
fn json_text(value: &Value) -> (res: String) {
    serde_json::to_string(value).unwrap()
}

/// Whether the timestamp can be taken over.
pub fn is_usable(unix_ts: i64, zone: &Tz) -> (res: bool)
    ensures
        res == usable(unix_ts, *zone),
{
    if unix_ts == ABSENT {
        true
    } else if unix_ts < MIN_TIMESTAMP || unix_ts > MAX_TIMESTAMP {
        false
    } else {
        normalize_date(unix_ts, zone).is_ok()
    }
}

/// The documents that describe the record, each as a line of text with
/// its instant in milliseconds since the epoch; none if one of the
/// timestamps of the record cannot be taken over.
pub fn dated_documents(line: &Record, src_zone: &Tz) -> (res: Option<Vec<(i64, String)>>)
    ensures
        res is Some <==> convertible(line@, *src_zone),
        res matches Some(documents) ==> instants_in(documents@) == record_instants(
            line@,
            *src_zone,
        ) && one_for_each_instant(documents@) && documents.len() == record_instants(
            line@,
            *src_zone,
        ).len(),
{
    proof {
        assert(slot_time(line@, 0) == line@.mtime && slot_time(line@, 1) == line@.atime
            && slot_time(line@, 2) == line@.ctime && slot_time(line@, 3) == line@.crtime);
    }
    if !(is_usable(line.get_mtime(), src_zone) && is_usable(line.get_atime(), src_zone)
        && is_usable(line.get_ctime(), src_zone) && is_usable(line.get_crtime(), src_zone)) {
        return None;
    }
    let values = ecs_tuples(line, src_zone);
    let mut lines: Vec<(i64, String)> = Vec::new();
    let mut i: usize = 0;
    while i < values.len()
        invariant
            i <= values.len(),
            lines.len() == i,
            forall|j: int| 0 <= j < i ==> (#[trigger] lines[j]).0 == values[j].0,
        decreases values.len() - i,
    {
        lines.push((values[i].0, json_text(&values[i].1)));
        i = i + 1;
    }
    proof {
        assert forall|ms: int| instants_in(lines@).contains(ms) == instants_in(values@).contains(
            ms,
        ) by {
            if instants_in(lines@).contains(ms) {
                let j = choose|j: int| 0 <= j < lines.len() && (#[trigger] lines[j]).0 == ms;
                assert(values[j].0 == ms);
            }
            if instants_in(values@).contains(ms) {
                let j = choose|j: int| 0 <= j < values.len() && (#[trigger] values[j]).0 == ms;
                assert(lines[j].0 == ms);
            }
        }
        assert(instants_in(lines@) =~= instants_in(values@));
        assert forall|a: int, b: int| 0 <= a < b < lines.len() implies (#[trigger] lines[a]).0 != (
        #[trigger] lines[b]).0 by {
            assert(values[a].0 != values[b].0);
        }
        lemma_instants_len(lines@);
    }
    Some(lines)
}

/// The documents that describe the record, each as a line of text; none
/// if one of the timestamps of the record cannot be taken over.
pub fn documents(line: &Record, src_zone: &Tz) -> (res: Option<Vec<String>>)
    ensures
        res is Some <==> convertible(line@, *src_zone),
        res matches Some(lines) ==> lines.len() == record_instants(line@, *src_zone).len(),
{
    match dated_documents(line, src_zone) {
        None => None,
        Some(dated) => {
            let mut lines: Vec<String> = Vec::new();
            for document in it: dated.into_iter()
                invariant
                    it.seq() == dated@,
                    lines.len() == it.index(),
            {
                lines.push(document.1);
            }
            Some(lines)
        },
    }
}

/// The one text that is made of the documents of a record: the documents
/// with a line feed between each two, and the empty text where there are
/// none, be it that the record has no timestamp that applies or that one
/// of its timestamps cannot be taken over.
pub open spec fn document_text(documents: Option<Seq<Seq<char>>>) -> Seq<char> {
    match documents {
        Some(lines) => joined(lines),
        None => Seq::empty(),
    }
}

/// `text` is what the writer of `zone` gives for an entry of the record
/// `line`: one document for each instant of the record, in some order,
/// with a line feed between each two; the empty text where a timestamp of
/// the record cannot be taken over.
pub open spec fn renders(text: Seq<char>, line: RecordView, zone: Tz) -> bool {
    if convertible(line, zone) {
        exists|documents: Seq<Seq<char>>|
            documents.len() == record_instants(line, zone).len() && text == #[trigger] joined(
                documents,
            )
    } else {
        text == Seq::<char>::empty()
    }
}

/// Makes one text of the documents of a record.
pub fn join_documents(documents: Option<Vec<String>>) -> (res: String)
    ensures
        res@ == document_text(
            match documents {
                Some(lines) => Some(texts(lines@)),
                None => None,
            },
        ),
{
    match documents {
        Some(lines) => join_lines(&lines),
        None => String::new(),
    }
}

/// Writes the documents of the record of each entry, one on each line.
pub struct JsonOutput {
    src_zone: Tz,
}

impl JsonOutput {
    /// A writer that takes timestamps as local times of `src_zone`.
    pub fn new(src_zone: Tz) -> (res: JsonOutput)
        ensures
            res.zone() == src_zone,
    {
        JsonOutput { src_zone }
    }

    /// The zone of the timestamps.
    pub closed spec fn zone(&self) -> Tz {
        self.src_zone
    }
}

impl Mactime2Writer for JsonOutput {
    /// Gives the documents of the record of the entry, whatever the
    /// timestamp and the flags of the entry are, and stays as it is.
    fn fmt(&mut self, timestamp: &i64, entry: &ListEntry) -> (res: String)
        ensures
            renders(res@, entry@.line, old(self).zone()),
            *final(self) == *old(self),
    {
        let documents = documents(&entry.line, &self.src_zone);
        proof {
            if documents is Some {
                assert(texts(documents->0@).len() == record_instants(
                    entry@.line,
                    self.zone(),
                ).len());
            }
        }
        join_documents(documents)
    }
}

} // verus!
