use mactime2::decoder::{decode_line, settle, starts_comment, trim_newline, Decoded};
use mactime2::filter::RunOptions;
use mactime2::record::Record;

const LENIENT: RunOptions = RunOptions { strict_mode: false };
const STRICT: RunOptions = RunOptions { strict_mode: true };

fn trim(s: &str) -> String {
    let mut line = s.to_owned();
    trim_newline(&mut line);
    line
}

#[test]
fn comments_begin_with_a_hash() {
    assert!(starts_comment("# a comment"));
    assert!(starts_comment("#"));
    assert!(!starts_comment(""));
    assert!(!starts_comment(" # not at the start"));
    assert!(!starts_comment("0|name|0||0|0|0|-1|-1|-1|-1"));
}

#[test]
fn line_endings_are_taken_off() {
    assert_eq!(trim("abc\n"), "abc");
    assert_eq!(trim("abc\r\n"), "abc");
    assert_eq!(trim("abc"), "abc");
    assert_eq!(trim("abc\r"), "abc\r");
    assert_eq!(trim("abc\n\n"), "abc\n");
    assert_eq!(trim("abc\r\r\n"), "abc\r");
    assert_eq!(trim("\n"), "");
    assert_eq!(trim("\r\n"), "");
    assert_eq!(trim(""), "");
    assert_eq!(trim("täst\r\n"), "täst");
}

#[test]
fn a_comment_is_passed_over() {
    assert!(matches!(decode_line("# comment\n".to_owned(), LENIENT), Ok(Decoded::Comment)));
    assert!(matches!(decode_line("#".to_owned(), STRICT), Ok(Decoded::Comment)));
}

#[test]
fn a_line_is_decoded() {
    let line = "0|/Users/Administrator ($FILE_NAME)|93552-48-2|d/drwxrwxrwx|1|2|92|1577092511|1577092512|1577092513|-1\r\n";
    match decode_line(line.to_owned(), STRICT) {
        Ok(Decoded::Line(r)) => {
            assert_eq!(r.get_md5(), "0");
            assert_eq!(r.get_name(), "/Users/Administrator ($FILE_NAME)");
            assert_eq!(r.get_inode(), "93552-48-2");
            assert_eq!(r.get_mode(), "d/drwxrwxrwx");
            assert_eq!(r.get_uid(), 1);
            assert_eq!(r.get_gid(), 2);
            assert_eq!(r.get_size(), 92);
            assert_eq!(r.get_atime(), 1577092511);
            assert_eq!(r.get_mtime(), 1577092512);
            assert_eq!(r.get_ctime(), 1577092513);
            assert_eq!(r.get_crtime(), -1);
        }
        other => panic!("unexpected {:?}", other),
    }
}

#[test]
fn a_name_may_hold_the_separator() {
    match decode_line("0|ls -l |wc|1|2|3|4|5|6|7|8|9\n".to_owned(), LENIENT) {
        Ok(Decoded::Line(r)) => {
            assert_eq!(r.get_name(), "ls -l |wc");
            assert_eq!(r.get_inode(), "1");
            assert_eq!(r.get_crtime(), 9);
        }
        other => panic!("unexpected {:?}", other),
    }
}

#[test]
fn a_bad_line_is_skipped_with_a_warning() {
    match decode_line("0||0||X|0|0|-1|-1|-1|-1\n".to_owned(), LENIENT) {
        Ok(Decoded::Skipped(e)) => {
            assert_eq!(e.message, "IllegalUid");
            assert_eq!(e.line, "0||0||X|0|0|-1|-1|-1|-1");
        }
        other => panic!("unexpected {:?}", other),
    }
    match decode_line("\n".to_owned(), LENIENT) {
        Ok(Decoded::Skipped(e)) => {
            assert_eq!(e.message, "WrongNumberOfColumns");
            assert_eq!(e.line, "");
        }
        other => panic!("unexpected {:?}", other),
    }
}

#[test]
fn every_fault_of_a_line_has_its_name() {
    let faults = [
        ("", "WrongNumberOfColumns"),
        ("|||||||||", "WrongNumberOfColumns"),
        ("0||0||X|0|0|-1|-1|-1|-1", "IllegalUid"),
        ("0||0||-1|0|0|-1|-1|-1|-1", "IllegalUid"),
        ("0||0||0|X|0|-1|-1|-1|-1", "IllegalGid"),
        ("0||0||0|0|-4|-1|-1|-1|-1", "IllegalSize"),
        ("0||0||0|0|0|-5|-1|-1|-1", "IllegalATime"),
        ("0||0||0|0|0|-1|X|-1|-1", "IllegalMTime"),
        ("0||0||0|0|0|-1|-1|-5|-1", "IllegalCTime"),
        ("0||0||0|0|0|-1|-1|-1|", "IllegalCRTime"),
    ];
    for (line, fault) in faults {
        match decode_line(line.to_owned(), STRICT) {
            Err(e) => {
                assert_eq!(e.message, fault);
                assert_eq!(e.line, line);
            }
            other => panic!("unexpected {:?}", other),
        }
    }
    assert!(matches!(
        decode_line("0||0||0|0|0|-1|-1|-1|-1".to_owned(), STRICT),
        Ok(Decoded::Line(_))
    ));
}

#[test]
fn a_bad_line_ends_a_strict_run() {
    match decode_line("0||0||0|0|0|-1|-5|-1|-1\n".to_owned(), STRICT) {
        Err(e) => {
            assert_eq!(e.message, "IllegalMTime");
            assert_eq!(e.line, "0||0||0|0|0|-1|-5|-1|-1");
        }
        other => panic!("unexpected {:?}", other),
    }
}

#[test]
fn settling_follows_the_parser() {
    let parsed: Result<Record, String> = Ok(Record::new().with_name("n"));
    assert!(matches!(settle(parsed, "line".to_owned(), STRICT), Ok(Decoded::Line(_))));
    let refused: Result<Record, String> = Err("IllegalGid".to_owned());
    match settle(refused, "line".to_owned(), LENIENT) {
        Ok(Decoded::Skipped(e)) => {
            assert_eq!(e.message, "IllegalGid");
            assert_eq!(e.line, "line");
        }
        other => panic!("unexpected {:?}", other),
    }
    let refused: Result<Record, String> = Err("IllegalGid".to_owned());
    match settle(refused, "line".to_owned(), STRICT) {
        Err(e) => {
            assert_eq!(e.message, "IllegalGid");
            assert_eq!(e.line, "line");
        }
        other => panic!("unexpected {:?}", other),
    }
}
