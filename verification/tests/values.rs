use chrono_tz::Tz;
use mactime2::decoder::{decode_line, Decoded};
use mactime2::text::{decimal_len, push_decimal, push_signed_decimal, push_spaces};
use mactime2::{MACBFlags, Mactime2Application, OutputFormat, Record, RunOptions};

#[test]
fn flags_as_a_mask() {
    for bits in 0u8..16 {
        let flags = MACBFlags::from_bits(bits).unwrap();
        assert_eq!(flags.bits(), bits);
        assert_eq!(flags.m, bits & 1 != 0);
        assert_eq!(flags.a, bits & 2 != 0);
        assert_eq!(flags.c, bits & 4 != 0);
        assert_eq!(flags.b, bits & 8 != 0);
        assert_eq!(flags.is_empty(), bits == 0);
    }
    assert_eq!(MACBFlags::from_bits(16), None);
    assert_eq!(MACBFlags::from_bits(255), None);
    assert_eq!(MACBFlags::none().bits(), 0);
    assert_eq!(MACBFlags::all().bits(), 15);
    assert_eq!(mactime2::flags::M | mactime2::flags::A | mactime2::flags::C | mactime2::flags::B, 15);
}

#[test]
fn flags_as_a_set() {
    let ma = MACBFlags::from_bits(3).unwrap();
    let cb = MACBFlags::from_bits(12).unwrap();
    let a = MACBFlags::from_bits(2).unwrap();
    assert_eq!(ma.union(cb), MACBFlags::all());
    assert_eq!(ma.union(a), ma);
    assert!(ma.contains(a));
    assert!(!a.contains(ma));
    assert!(!cb.contains(a));
    assert!(a.contains(MACBFlags::none()));
    let mut grown = a;
    grown.insert(cb);
    assert_eq!(grown.bits(), 14);
}

#[test]
fn flags_as_a_text() {
    assert_eq!(MACBFlags::none().to_string(), "....");
    assert_eq!(MACBFlags::all().to_string(), "macb");
    assert_eq!(MACBFlags::from_bits(1).unwrap().to_string(), "m...");
    assert_eq!(MACBFlags::from_bits(2).unwrap().to_string(), ".a..");
    assert_eq!(MACBFlags::from_bits(4).unwrap().to_string(), "..c.");
    assert_eq!(MACBFlags::from_bits(8).unwrap().to_string(), "...b");
    assert_eq!(MACBFlags::from_bits(10).unwrap().to_string(), ".a.b");
}

#[test]
fn an_empty_record() {
    let r = Record::new();
    assert_eq!(r.get_md5(), "0");
    assert_eq!(r.get_name(), "");
    assert_eq!(r.get_inode(), "0");
    assert_eq!(r.get_mode(), "");
    assert_eq!(r.get_uid(), 0);
    assert_eq!(r.get_gid(), 0);
    assert_eq!(r.get_size(), 0);
    assert_eq!(r.get_atime(), -1);
    assert_eq!(r.get_mtime(), -1);
    assert_eq!(r.get_ctime(), -1);
    assert_eq!(r.get_crtime(), -1);
    assert_eq!(r.to_string(), "0||0||0|0|0|-1|-1|-1|-1");
}

#[test]
fn a_record_as_a_line() {
    let r = Record::from_values(
        "4bad420da66571dac7f1ace995cc55c6".to_owned(),
        "sample.txt".to_owned(),
        "87915-128-1".to_owned(),
        "r/rrwxrwxrwx".to_owned(),
        1003,
        500,
        126378,
        12341,
        12342,
        12343,
        12344,
    );
    let line = r.to_string();
    assert_eq!(
        line,
        "4bad420da66571dac7f1ace995cc55c6|sample.txt|87915-128-1|r/rrwxrwxrwx|1003|500|126378|12341|12342|12343|12344"
    );
    let same = bodyfile::Bodyfile3Line::from_values(
        "4bad420da66571dac7f1ace995cc55c6".to_owned(),
        "sample.txt".to_owned(),
        "87915-128-1".to_owned(),
        "r/rrwxrwxrwx".to_owned(),
        1003,
        500,
        126378,
        12341,
        12342,
        12343,
        12344,
    );
    assert_eq!(line, same.to_string());
    match decode_line(line, RunOptions { strict_mode: true }) {
        Ok(Decoded::Line(back)) => {
            assert_eq!(back.get_md5(), "4bad420da66571dac7f1ace995cc55c6");
            assert_eq!(back.get_mtime(), 12342);
            assert_eq!(back.to_string(), r.to_string());
        }
        other => panic!("unexpected {:?}", other),
    }
}

#[test]
fn a_record_is_built_field_by_field() {
    let r = Record::new()
        .with_md5("md5")
        .with_name("name")
        .with_inode("inode")
        .with_mode("mode")
        .with_uid(1)
        .with_gid(2)
        .with_size(3)
        .with_atime(4)
        .with_mtime(5)
        .with_ctime(6)
        .with_crtime(i64::MIN);
    assert_eq!(r.to_string(), "md5|name|inode|mode|1|2|3|4|5|6|-9223372036854775808");
    assert_eq!(r.with_crtime(i64::MAX).with_uid(u64::MAX).to_string(),
        "md5|name|inode|mode|18446744073709551615|2|3|4|5|6|9223372036854775807");
}

#[test]
fn numbers_in_decimal() {
    for n in [0u64, 1, 9, 10, 11, 99, 100, 12345, 1_000_000_000, u64::MAX - 1, u64::MAX] {
        let mut s = String::new();
        push_decimal(&mut s, n);
        assert_eq!(s, n.to_string());
        assert_eq!(decimal_len(n), n.to_string().len());
    }
    for n in [0i64, -1, 1, -10, 42, -42, i64::MAX, i64::MIN, i64::MIN + 1] {
        let mut s = "x".to_owned();
        push_signed_decimal(&mut s, n);
        assert_eq!(s, format!("x{}", n));
    }
    let mut s = "a".to_owned();
    push_spaces(&mut s, 3);
    push_spaces(&mut s, 0);
    assert_eq!(s, "a   ");
}

#[test]
fn a_run_by_default() {
    let app = Mactime2Application::default();
    assert_eq!(app.format(), OutputFormat::CSV);
    assert_eq!(app.bodyfile(), &None);
    assert_eq!(app.src_zone(), Tz::UTC);
    assert_eq!(app.dst_zone(), Tz::UTC);
    assert!(!app.options().strict_mode);
    let out = app.process(&vec!["0|f|1|m|2|3|4|-1|3600|-1|-1".to_owned()]).unwrap();
    assert_eq!(out.lines, vec!["1970-01-01T01:00:00+00:00,4,m...,m,2,3,1,\"f\""]);
}
