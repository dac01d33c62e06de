use chrono_tz::Tz;
use mactime2::application::{Mactime2Application, RunError};
use mactime2::date::MAX_TIMESTAMP;
use mactime2::decoder::decode_lines;
use mactime2::{OutputFormat, RunOptions};

fn lines(text: &[&str]) -> Vec<String> {
    text.iter().map(|s| s.to_string()).collect()
}

fn bodyfile() -> Vec<String> {
    lines(&[
        "# a bodyfile\n",
        "0|/b|2|r/rrwxrwxrwx|1|2|30|200|100|100|-1\n",
        "0|/a|1|d/drwxr-xr-x|0|0|4096|100|100|100|100\r\n",
        "not a record\n",
        "0|/zero|3||0|0|0|0|0|0|0\n",
        "0|/none|4||0|0|0|-1|-1|-1|-1\n",
        "0|/a|5|r/r--------|9|9|9|100|-1|-1|-1",
    ])
}

#[test]
fn lines_are_decoded_in_their_order() {
    let (records, warnings) =
        decode_lines(&bodyfile(), RunOptions { strict_mode: false }).unwrap();
    let names: Vec<&str> = records.iter().map(|r| r.get_name()).collect();
    assert_eq!(names, vec!["/b", "/a", "/zero", "/none", "/a"]);
    assert_eq!(warnings.len(), 1);
    assert_eq!(warnings[0].message, "WrongNumberOfColumns");
    assert_eq!(warnings[0].line, "not a record");
}

#[test]
fn a_strict_run_ends_at_the_first_bad_line() {
    let e = decode_lines(&bodyfile(), RunOptions { strict_mode: true }).unwrap_err();
    assert_eq!(e.message, "WrongNumberOfColumns");
    assert_eq!(e.line, "not a record");
    let app = Mactime2Application::new(OutputFormat::TXT, None, Tz::UTC, Tz::UTC, true);
    match app.process(&bodyfile()) {
        Err(RunError::Decode(e)) => assert_eq!(e.line, "not a record"),
        other => panic!("unexpected {:?}", other),
    }
}

#[test]
fn a_run_in_text() {
    let app = Mactime2Application::new(OutputFormat::TXT, None, Tz::UTC, Tz::UTC, false);
    let out = app.process(&bodyfile()).unwrap();
    assert_eq!(
        out.lines,
        vec![
            "1970-01-01T00:01:40+00:00     4096 macb d/drwxr-xr-x 0       0       1 /a",
            "                                30 m.c. r/rrwxrwxrwx 1       2       2 /b",
            "1970-01-01T00:03:20+00:00       30 .a.. r/rrwxrwxrwx 1       2       2 /b",
        ]
    );
    assert_eq!(out.warnings.len(), 1);
}

#[test]
fn a_run_in_csv() {
    let app = Mactime2Application::new(OutputFormat::CSV, None, Tz::UTC, Tz::UTC, false);
    let out = app.process(&bodyfile()).unwrap();
    assert_eq!(
        out.lines,
        vec![
            "1970-01-01T00:01:40+00:00,4096,macb,d/drwxr-xr-x,0,0,1,\"/a\"",
            "1970-01-01T00:01:40+00:00,30,m.c.,r/rrwxrwxrwx,1,2,2,\"/b\"",
            "1970-01-01T00:03:20+00:00,30,.a..,r/rrwxrwxrwx,1,2,2,\"/b\"",
        ]
    );
}

#[test]
fn a_run_in_json() {
    let app = Mactime2Application::new(OutputFormat::JSON, None, Tz::Europe__Berlin, Tz::UTC, false);
    let out = app.process(&lines(&["0|/dir/a.txt|1|d|3|4|7|-1|-1|3605|-1"])).unwrap();
    assert_eq!(out.lines.len(), 1);
    let doc: serde_json::Value = serde_json::from_str(&out.lines[0]).unwrap();
    assert_eq!(doc["@timestamp"], 5000);
    assert_eq!(doc["message"], "/dir/a.txt");
    assert_eq!(doc["tags"][0], "bodyfile");
    assert_eq!(doc["file"]["ctime"], 5000);
    assert_eq!(doc["file"]["size"], 7);
    assert_eq!(doc["file"]["uid"], 3);
    assert_eq!(doc["file"]["gid"], 4);
    assert_eq!(doc["file"]["inode"], "1");
    assert_eq!(doc["file"]["path"], "/dir/a.txt");
    assert!(doc["file"]["mtime"].is_null());
}

#[test]
fn a_run_in_json_takes_any_timestamp() {
    let app = Mactime2Application::new(OutputFormat::JSON, None, Tz::UTC, Tz::UTC, false);
    let far = format!("0|/far|1||0|0|0|5|{}|-1|-1", i64::MAX);
    let out = app.process(&vec![far]).unwrap();
    assert_eq!(out.lines, vec!["".to_owned(), "".to_owned()]);
}

#[test]
fn two_runs_give_the_same() {
    let app = Mactime2Application::new(OutputFormat::TXT, None, Tz::Europe__Berlin, Tz::UTC, false);
    let first = app.process(&bodyfile()).unwrap();
    let second = app.process(&bodyfile()).unwrap();
    assert_eq!(first.lines, second.lines);
    assert_eq!(first.lines.len(), 3);
}

#[test]
fn a_timestamp_beyond_all_dates_ends_the_run() {
    let app = Mactime2Application::new(OutputFormat::CSV, None, Tz::UTC, Tz::UTC, false);
    let far = format!("0|/far|1||0|0|0|5|{}|-1|-1", MAX_TIMESTAMP + 1);
    match app.process(&vec![far]) {
        Err(RunError::Unrenderable(t)) => assert_eq!(t, MAX_TIMESTAMP + 1),
        other => panic!("unexpected {:?}", other),
    }
    let last = format!("0|/last|1||0|0|0|5|{}|-1|-1", MAX_TIMESTAMP);
    let out = app.process(&vec![last]).unwrap();
    assert_eq!(out.lines.len(), 2);
    assert!(out.lines[1].starts_with("+262142-12-31T23:59:59+00:00,"));
}

#[test]
fn the_settings_of_a_run() {
    let app = Mactime2Application::new(
        OutputFormat::select(None, true, true),
        Some("-".to_owned()),
        Tz::Europe__Berlin,
        Tz::UTC,
        true,
    );
    assert_eq!(app.format(), OutputFormat::CSV);
    assert_eq!(app.bodyfile(), &Some("-".to_owned()));
    assert_eq!(app.src_zone(), Tz::Europe__Berlin);
    assert_eq!(app.dst_zone(), Tz::UTC);
    assert!(app.options().strict_mode);
    assert_eq!(OutputFormat::select(Some(OutputFormat::TXT), true, true), OutputFormat::TXT);
    assert_eq!(OutputFormat::select(None, false, true), OutputFormat::JSON);
    assert_eq!(OutputFormat::select(None, false, false), OutputFormat::TXT);
    assert_eq!(
        Mactime2Application::format_date(0, &Tz::UTC, &Tz::UTC),
        "1970-01-01T00:00:00+00:00"
    );
    assert_eq!(Mactime2Application::normalize_date(3600, &Tz::Europe__Berlin), Ok(0));
}
