use chrono_tz::Tz;
use mactime2::output::json_output::{documents, is_usable, join_documents};
use mactime2::output::JsonOutput;
use mactime2::text::join_lines;
use mactime2::{ListEntry, MACBFlags, Mactime2Writer, Record};
use std::sync::Arc;

fn timestamps(lines: &[String]) -> Vec<i64> {
    let mut found: Vec<i64> = lines
        .iter()
        .map(|l| serde_json::from_str::<serde_json::Value>(l).unwrap()["@timestamp"].as_i64().unwrap())
        .collect();
    found.sort();
    found
}

#[test]
fn one_document_for_each_instant() {
    let r = Record::new().with_name("/a").with_mtime(10).with_atime(10).with_ctime(20);
    let docs = documents(&r, &Tz::UTC).unwrap();
    assert_eq!(timestamps(&docs), vec![10000, 20000]);
    let none = Record::new().with_name("/a");
    assert_eq!(documents(&none, &Tz::UTC), Some(vec![]));
}

#[test]
fn documents_are_in_universal_time() {
    let r = Record::new().with_name("/a").with_crtime(1577880000);
    let docs = documents(&r, &Tz::Europe__Berlin).unwrap();
    assert_eq!(timestamps(&docs), vec![1577876400000]);
    let doc: serde_json::Value = serde_json::from_str(&docs[0]).unwrap();
    assert_eq!(doc["file"]["created"], 1577876400000i64);
}

#[test]
fn timestamps_that_cannot_be_taken_over() {
    assert!(is_usable(-1, &Tz::Europe__Berlin));
    assert!(is_usable(0, &Tz::Europe__Berlin));
    assert!(is_usable(-5, &Tz::Europe__Berlin));
    assert!(!is_usable(1585449000, &Tz::Europe__Berlin));
    assert!(is_usable(1585449000, &Tz::UTC));
    assert!(!is_usable(i64::MAX, &Tz::UTC));
    assert!(!is_usable(i64::MIN, &Tz::UTC));
    let gap = Record::new().with_name("/a").with_mtime(5).with_crtime(1585449000);
    assert_eq!(documents(&gap, &Tz::Europe__Berlin), None);
    assert!(documents(&gap, &Tz::UTC).is_some());
    let far = Record::new().with_name("/a").with_atime(i64::MAX);
    assert_eq!(documents(&far, &Tz::UTC), None);
}

#[test]
fn the_writer_joins_the_documents_of_a_record() {
    let mut out = JsonOutput::new(Tz::UTC);
    let r = Record::new().with_name("/a").with_mtime(10).with_ctime(20);
    let e = ListEntry { flags: MACBFlags { m: true, a: false, c: false, b: false }, line: Arc::new(r) };
    let text = out.fmt(&10, &e);
    let lines: Vec<String> = text.split('\n').map(|s| s.to_owned()).collect();
    assert_eq!(timestamps(&lines), vec![10000, 20000]);
    let gap = Record::new().with_name("/a").with_mtime(1585449000);
    let e = ListEntry { flags: MACBFlags { m: true, a: false, c: false, b: false }, line: Arc::new(gap) };
    assert_eq!(JsonOutput::new(Tz::Europe__Berlin).fmt(&1585449000, &e), "");
}

#[test]
fn lines_are_joined_by_line_feeds() {
    assert_eq!(join_lines(&vec![]), "");
    assert_eq!(join_lines(&vec!["a".to_owned()]), "a");
    assert_eq!(join_lines(&vec!["a".to_owned(), "".to_owned(), "b".to_owned()]), "a\n\nb");
}

fn sorted_lines(sorter: &mactime2::output::JsonSorter) -> Vec<(i64, String)> {
    sorter.lines().iter().map(|(ts, line)| (*ts, (*line).clone())).collect()
}

#[test]
fn documents_are_kept_in_order() {
    let mut sorter = mactime2::output::JsonSorter::new(Tz::UTC);
    sorter.insert(20, "b".to_owned());
    sorter.insert(10, "z".to_owned());
    sorter.insert(20, "a".to_owned());
    sorter.insert(20, "b".to_owned());
    sorter.add_documents(vec![(10, "y".to_owned()), (-5, "x".to_owned()), (10, "z".to_owned())]);
    assert_eq!(
        sorted_lines(&sorter),
        vec![
            (-5, "x".to_owned()),
            (10, "y".to_owned()),
            (10, "z".to_owned()),
            (20, "a".to_owned()),
            (20, "b".to_owned()),
        ]
    );
}

#[test]
fn the_documents_of_records_are_sorted() {
    let mut sorter = mactime2::output::JsonSorter::new(Tz::UTC);
    assert!(sorter.add_record(&Record::new().with_name("/b").with_mtime(30).with_atime(10)));
    assert!(sorter.add_record(&Record::new().with_name("/a").with_mtime(20)));
    assert!(sorter.add_record(&Record::new().with_name("/a").with_mtime(20)));
    assert!(!sorter.add_record(&Record::new().with_name("/c").with_mtime(i64::MAX)));
    assert!(sorter.add_record(&Record::new().with_name("/none")));
    let lines = sorted_lines(&sorter);
    let instants: Vec<i64> = lines.iter().map(|(ts, _)| *ts).collect();
    assert_eq!(instants, vec![10000, 20000, 30000]);
    let texts: Vec<String> = lines.iter().map(|(_, l)| l.clone()).collect();
    assert_eq!(timestamps(&texts), vec![10000, 20000, 30000]);
    let doc: serde_json::Value = serde_json::from_str(&texts[1]).unwrap();
    assert_eq!(doc["message"], "/a");
}

#[test]
fn the_documents_of_a_record_as_one_text() {
    assert_eq!(join_documents(None), "");
    assert_eq!(join_documents(Some(vec![])), "");
    assert_eq!(join_documents(Some(vec!["{}".to_owned()])), "{}");
    assert_eq!(join_documents(Some(vec!["{}".to_owned(), "[]".to_owned()])), "{}\n[]");
}

#[test]
fn the_writer_of_documents_looks_at_the_record_alone() {
    let r = Arc::new(Record::new().with_name("/a").with_crtime(7));
    let first = ListEntry { flags: MACBFlags { m: true, a: false, c: false, b: false }, line: r.clone() };
    let second = ListEntry { flags: MACBFlags { m: false, a: false, c: false, b: true }, line: r };
    let mut out = JsonOutput::new(Tz::UTC);
    let text = out.fmt(&7, &first);
    assert_eq!(timestamps(&[text.clone()]), vec![7000]);
    assert_eq!(out.fmt(&99, &second), text);
    let none = ListEntry {
        flags: MACBFlags { m: true, a: false, c: false, b: false },
        line: Arc::new(Record::new().with_name("/none")),
    };
    assert_eq!(out.fmt(&0, &none), "");
}
