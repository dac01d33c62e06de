use mactime2::correlate::discards;
use mactime2::names::{compare_names, NameOrder};
use mactime2::{insert_timestamp, ListEntry, MACBFlags, Record, Timeline};
use std::sync::Arc;

const M: MACBFlags = MACBFlags { m: true, a: false, c: false, b: false };
const A: MACBFlags = MACBFlags { m: false, a: true, c: false, b: false };
const C: MACBFlags = MACBFlags { m: false, a: false, c: true, b: false };
const B: MACBFlags = MACBFlags { m: false, a: false, c: false, b: true };

fn record(name: &str, mtime: i64, atime: i64, ctime: i64, crtime: i64) -> Record {
    Record::new()
        .with_name(name)
        .with_mtime(mtime)
        .with_atime(atime)
        .with_ctime(ctime)
        .with_crtime(crtime)
}

fn listing(timeline: &Timeline) -> Vec<(i64, String, String)> {
    timeline
        .entries()
        .iter()
        .map(|(ts, e)| (*ts, e.flags.to_string(), e.line.get_name().to_owned()))
        .collect()
}

fn row(ts: i64, flags: &str, name: &str) -> (i64, String, String) {
    (ts, flags.to_owned(), name.to_owned())
}

#[test]
fn an_entry_stands_at_the_timestamp_of_its_first_flag() {
    let r = Arc::new(record("f", 1, 2, 3, 4));
    let mut timeline = Timeline::new();
    insert_timestamp(&mut timeline, B, r.clone());
    insert_timestamp(&mut timeline, C, r.clone());
    insert_timestamp(&mut timeline, A, r.clone());
    insert_timestamp(&mut timeline, M, r.clone());
    assert_eq!(
        listing(&timeline),
        vec![row(1, "m...", "f"), row(2, ".a..", "f"), row(3, "..c.", "f"), row(4, "...b", "f")]
    );
    let mut timeline = Timeline::new();
    insert_timestamp(&mut timeline, MACBFlags { m: false, a: true, c: false, b: true }, r.clone());
    assert_eq!(listing(&timeline), vec![row(2, ".a.b", "f")]);
}

#[test]
fn the_first_entry_of_a_name_at_a_timestamp_stays() {
    let mut timeline = Timeline::new();
    insert_timestamp(&mut timeline, M, Arc::new(record("f", 5, -1, -1, -1).with_size(1)));
    insert_timestamp(&mut timeline, A, Arc::new(record("f", -1, 5, -1, -1).with_size(2)));
    insert_timestamp(&mut timeline, C, Arc::new(record("g", -1, -1, 5, -1).with_size(3)));
    insert_timestamp(&mut timeline, B, Arc::new(record("f", -1, -1, -1, 6).with_size(4)));
    let entries = timeline.entries();
    let seen: Vec<(i64, String, u64)> =
        entries.iter().map(|(ts, e)| (*ts, e.flags.to_string(), e.line.get_size())).collect();
    assert_eq!(
        seen,
        vec![(5, "m...".to_owned(), 1), (5, "..c.".to_owned(), 3), (6, "...b".to_owned(), 4)]
    );
}

#[test]
fn entries_ascend_by_timestamp_and_then_by_name() {
    let mut timeline = Timeline::new();
    for (name, ts) in [("b", 7), ("a", 9), ("c", 7), ("ab", 7), ("", 7), ("B", 7), ("ä", 7), ("a", -3)] {
        timeline.add_record(record(name, ts, -1, -1, -1));
    }
    assert_eq!(
        listing(&timeline),
        vec![
            row(-3, "m...", "a"),
            row(7, "m...", ""),
            row(7, "m...", "B"),
            row(7, "m...", "ab"),
            row(7, "m...", "b"),
            row(7, "m...", "c"),
            row(7, "m...", "ä"),
            row(9, "m...", "a"),
        ]
    );
    let entries = timeline.entries();
    for pair in entries.windows(2) {
        let (t0, e0) = &pair[0];
        let (t1, e1) = &pair[1];
        assert!(t0 < t1 || (t0 == t1 && e0.line.get_name() < e1.line.get_name()));
    }
}

#[test]
fn no_entry_stands_at_the_absent_timestamp() {
    let mut timeline = Timeline::new();
    timeline.add_record(record("a", -1, 5, -1, 5));
    timeline.add_record(record("b", -1, -1, -1, 0));
    timeline.add_record(record("c", -2, -1, -1, -1));
    timeline.add_record(record("d", -1, -1, -1, -1));
    let found = listing(&timeline);
    assert_eq!(found, vec![row(-2, "m...", "c"), row(0, "...b", "b"), row(5, ".a.b", "a")]);
    assert!(found.iter().all(|(ts, _, _)| *ts != -1));
}

#[test]
fn a_record_gives_one_entry_for_each_of_its_timestamps() {
    let records = vec![
        record("one", 5, 5, 5, 5),
        record("two", 1, 2, 1, 2),
        record("three", 1, 2, 3, 1),
        record("four", 10, 20, 30, 40),
        record("partly", -1, 8, -1, 9),
        record("zero and more", 0, 0, 0, 1),
    ];
    let expected = [1, 2, 3, 4, 2, 2];
    let mut total = 0;
    for (r, n) in records.into_iter().zip(expected) {
        assert!(!discards(&r));
        let mut alone = Timeline::new();
        alone.add_record(r);
        assert_eq!(alone.entries().len(), n);
        total += n;
    }
    let mut timeline = Timeline::new();
    timeline.add_records(vec![
        record("one", 5, 5, 5, 5),
        record("two", 1, 2, 1, 2),
        record("three", 1, 2, 3, 1),
        record("four", 10, 20, 30, 40),
        record("partly", -1, 8, -1, 9),
        record("zero and more", 0, 0, 0, 1),
    ]);
    assert_eq!(timeline.entries().len(), total);
    assert_eq!(total, 14);
}

#[test]
fn records_that_meet_under_one_name_share_an_entry() {
    let mut timeline = Timeline::new();
    timeline.add_records(vec![record("f", 5, 6, -1, -1), record("f", 6, 5, -1, -1)]);
    assert_eq!(listing(&timeline), vec![row(5, "m...", "f"), row(6, ".a..", "f")]);
}

#[test]
fn discarded_records() {
    assert!(discards(&record("a", -1, -1, -1, -1)));
    assert!(discards(&record("a", 0, 0, 0, 0)));
    assert!(!discards(&record("a", 0, 0, 0, -1)));
    assert!(!discards(&record("a", 0, -1, -1, -1)));
    let mut timeline = Timeline::new();
    timeline.add_record(record("a", 0, 0, 0, -1));
    assert_eq!(listing(&timeline), vec![row(0, "mac.", "a")]);
}

#[test]
fn the_entries_of_a_record_share_the_record() {
    let mut timeline = Timeline::new();
    timeline.add_record(record("shared", 1, 2, 3, 4).with_inode("77"));
    let entries = timeline.entries();
    assert_eq!(entries.len(), 4);
    for (_, e) in entries.iter() {
        assert!(Arc::ptr_eq(&e.line, &entries[0].1.line));
        assert_eq!(e.line.get_inode(), "77");
    }
}

#[test]
fn names_are_ordered_as_texts_are() {
    let names = ["", "a", "A", "ab", "b", "ä", "z", "a/b", "a b", "日本", "\u{10000}", "~"];
    for x in names {
        for y in names {
            let expected = match x.cmp(y) {
                std::cmp::Ordering::Less => NameOrder::Before,
                std::cmp::Ordering::Equal => NameOrder::Same,
                std::cmp::Ordering::Greater => NameOrder::After,
            };
            assert_eq!(compare_names(x, y), expected, "{:?} and {:?}", x, y);
        }
    }
}

#[test]
fn entries_are_told_apart_by_name_alone() {
    let a = ListEntry { flags: M, line: Arc::new(record("a", 1, 2, 3, 4)) };
    let also_a = ListEntry { flags: B, line: Arc::new(record("a", 9, 9, 9, 9)) };
    let b = ListEntry { flags: M, line: Arc::new(record("b", 1, 2, 3, 4)) };
    assert!(a == also_a);
    assert!(a != b);
    assert!(a < b);
    assert!(b > also_a);
    assert!(a <= also_a);
    assert!(a.same_name(&also_a));
    assert_eq!(a.compare(&b), NameOrder::Before);
    assert_eq!(b.compare(&a), NameOrder::After);
    assert_eq!(a.partial_cmp(&also_a), Some(std::cmp::Ordering::Equal));
}
