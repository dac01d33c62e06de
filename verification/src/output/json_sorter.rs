//! The documents of all records in the order of their instants.

use chrono_tz::Tz;
use std::collections::BTreeMap;
use vstd::prelude::*;
use vstd::std_specs::btree::*;

use crate::bucket::{
    ascending, find_place, has_place, holds, lemma_insert_item, lemma_item_named,
    lemma_single_item, name_at, named, reaches, taken_from, walk,
};
use crate::entry::{key_lt, Key};
use crate::names::name_lt;
use crate::output::json_output::{
    convertible, dated_documents, instants_in, one_for_each_instant, record_instants,
};
use crate::record::Record;

verus! {

broadcast use vstd::std_specs::btree::group_btree_axioms;

/// What a bucket has to be: not empty, its lines in ascending order.
spec fn bucket_ok(b: Seq<String>) -> bool {
    b.len() > 0 && ascending(b)
}

/// The documents in `documents`, each with its instant, as a set.
pub open spec fn document_set(documents: Seq<(i64, String)>) -> Set<Key> {
    Set::new(
        |k: Key|
            exists|i: int|
                0 <= i < documents.len() && (#[trigger] documents[i]).0 == k.0 && documents[i].1@
                    == k.1,
    )
}

/// `after` is `before` and the documents in `documents`.
pub open spec fn taken(before: Set<Key>, after: Set<Key>, documents: Seq<(i64, String)>) -> bool {
    after == before + document_set(documents)
}

/// `out` lists the documents of `s`, each once, by ascending instant and,
/// among those of one instant, in the order of their texts.
pub open spec fn lists_documents(out: Seq<Key>, s: Set<Key>) -> bool {
    &&& forall|i: int| 0 <= i < out.len() ==> s.contains(#[trigger] out[i])
    &&& forall|k: Key| #[trigger] s.contains(k) ==> exists|i: int| 0 <= i < out.len() && out[i] == k
    &&& forall|i: int, j: int|
        0 <= i < j < out.len() ==> key_lt(#[trigger] out[i], #[trigger] out[j])
}

/// The documents of a listing as values.
pub open spec fn document_views(out: Seq<(i64, &String)>) -> Seq<Key> {
    out.map_values(|p: (i64, &String)| (p.0, p.1@))
}

/// Collects the documents of records and keeps them in order: by their
/// instants, and by their texts where the instants are the same.  A
/// document that is there already is not taken a second time.
pub struct JsonSorter {
    src_zone: Tz,
    entries: BTreeMap<i64, Vec<String>>,
}

impl View for JsonSorter {
    type V = Set<Key>;

    /// The documents, each with its instant.
    closed spec fn view(&self) -> Set<Key> {
        Set::new(|k: Key| self.entries@.contains_key(k.0) && holds(self.entries@[k.0]@, k.1))
    }
}

impl JsonSorter {
    /// Every bucket is as it has to be.
    #[verifier::type_invariant]
    spec fn inv(self) -> bool {
        forall|ts: i64| #[trigger] self.entries@.contains_key(ts) ==> bucket_ok(self.entries@[ts]@)
    }

    /// The zone of the timestamps.
    pub closed spec fn zone(&self) -> Tz {
        self.src_zone
    }

    /// A sorter without documents, which takes timestamps as local times of
    /// `src_zone`.
    pub fn new(src_zone: Tz) -> (res: JsonSorter)
        ensures
            res@ == Set::<Key>::empty(),
            res.zone() == src_zone,
    {
        let res = JsonSorter { src_zone, entries: BTreeMap::new() };
        assert(res@ =~= Set::<Key>::empty());
        res
    }

    /// Takes the document `line` of the instant `timestamp`.
    pub fn insert(&mut self, timestamp: i64, line: String)
        ensures
            final(self)@ == old(self)@.insert((timestamp, line@)),
            final(self).zone() == old(self).zone(),
    {
        proof {
            use_type_invariant(&*self);
        }
        let ghost text = line@;
        // The map is taken out while it is worked on: the sorter is well
        // formed at every step.
        let mut entries: BTreeMap<i64, Vec<String>> = BTreeMap::new();
        std::mem::swap(&mut self.entries, &mut entries);
        match entries.remove(&timestamp) {
            None => {
                let mut lines = Vec::new();
                proof {
                    lemma_single_item(line);
                }
                lines.push(line);
                assert(lines@ =~= seq![line]);
                entries.insert(timestamp, lines);
            },
            Some(mut lines) => {
                let ghost b = lines@;
                assert(bucket_ok(b));
                let (pos, found) = find_place(&lines, line.as_str());
                if !found {
                    proof {
                        lemma_insert_item(b, pos as int, line);
                    }
                    lines.insert(pos, line);
                }
                entries.insert(timestamp, lines);
            },
        }
        std::mem::swap(&mut self.entries, &mut entries);
        proof {
            assert(final(self)@ =~= old(self)@.insert((timestamp, text)));
        }
    }

    /// Takes all the documents in `documents`.
    pub fn add_documents(&mut self, documents: Vec<(i64, String)>)
        ensures
            final(self)@ == old(self)@ + document_set(documents@),
            final(self).zone() == old(self).zone(),
    {
        let ghost all = documents@;
        for document in it: documents.into_iter()
            invariant
                it.seq() == all,
                self.zone() == old(self).zone(),
                self@ == old(self)@ + document_set(all.take(it.index())),
        {
            let ghost before = self@;
            let ghost i = it.index();
            let (timestamp, line) = document;
            self.insert(timestamp, line);
            proof {
                assert(all.take(i + 1)[i] == document);
                assert forall|k: Key| document_set(all.take(i + 1)).contains(k) <==> (
                document_set(all.take(i)).contains(k) || k == (timestamp, line@)) by {
                    if document_set(all.take(i)).contains(k) {
                        let j = choose|j: int|
                            0 <= j < all.take(i).len() && (#[trigger] all.take(i)[j]).0 == k.0
                                && all.take(i)[j].1@ == k.1;
                        assert(all.take(i + 1)[j] == all.take(i)[j]);
                    }
                    if document_set(all.take(i + 1)).contains(k) {
                        let j = choose|j: int|
                            0 <= j < all.take(i + 1).len() && (#[trigger] all.take(i + 1)[j]).0
                                == k.0 && all.take(i + 1)[j].1@ == k.1;
                        if j < i {
                            assert(all.take(i)[j] == all.take(i + 1)[j]);
                        }
                    }
                }
                assert(self@ =~= old(self)@ + document_set(all.take(i + 1)));
            }
        }
        proof {
            assert(all.take(all.len() as int) =~= all);
        }
    }

    /// Takes the documents that describe the record.  Where one of the
    /// timestamps of the record cannot be taken over, none is taken, and
    /// the result is `false`.
    pub fn add_record(&mut self, line: &Record) -> (res: bool)
        ensures
            res == convertible(line@, old(self).zone()),
            !res ==> final(self)@ == old(self)@,
            res ==> exists|documents: Seq<(i64, String)>| #[trigger]
                taken(old(self)@, final(self)@, documents) && instants_in(documents)
                    == record_instants(line@, old(self).zone()) && one_for_each_instant(documents),
            old(self)@.subset_of(final(self)@),
            final(self).zone() == old(self).zone(),
    {
        match dated_documents(line, &self.src_zone) {
            Some(documents) => {
                let ghost taken_over = documents@;
                self.add_documents(documents);
                assert(taken(old(self)@, self@, taken_over));
                true
            },
            None => false,
        }
    }

    /// The documents in their order, each with its instant.
    pub fn lines(&self) -> (res: Vec<(i64, &String)>)
        ensures
            lists_documents(document_views(res@), self@),
    {
        proof {
            use_type_invariant(self);
        }
        let (out, Ghost(pos)) = walk(&self.entries);
        proof {
            let map = self.entries@;
            let listed = document_views(out@);
            let s = self@;
            assert forall|i: int| 0 <= i < listed.len() implies s.contains(
                #[trigger] listed[i],
            ) by {
                assert(taken_from(out@, pos, map, i));
                let b = map[out[i].0]@;
                assert(bucket_ok(b));
                lemma_item_named(b, pos[i]);
            }
            assert forall|k: Key| #[trigger] s.contains(k) implies exists|i: int|
                0 <= i < listed.len() && listed[i] == k by {
                let b = map[k.0]@;
                let j = choose|j: int| named(b, k.1, j);
                assert(has_place(map, k.0, j));
                let i = choose|i: int| #[trigger] reaches(out@, pos, i, k.0, j);
                assert(taken_from(out@, pos, map, i));
                assert(listed[i] == k);
            }
            assert forall|i: int, j: int| 0 <= i < j < listed.len() implies key_lt(
                #[trigger] listed[i],
                #[trigger] listed[j],
            ) by {
                assert(taken_from(out@, pos, map, i));
                assert(taken_from(out@, pos, map, j));
                assert(out[i].0 < out[j].0 || (out[i].0 == out[j].0 && pos[i] < pos[j]));
                let b = map[out[i].0]@;
                assert(bucket_ok(b));
                if out[i].0 == out[j].0 {
                    assert(name_lt(name_at(b, pos[i]), name_at(b, pos[j])));
                }
            }
        }
        out
    }
}

} // verus!
