use bodyfile::Bodyfile3Line;
use mactime2::decoder::{decode_line, Decoded};
use mactime2::{ListEntry, Mactime2Writer, RunOptions, Timeline};

#[test]
fn test_sorted() {
    let options = RunOptions { strict_mode: false };

    let mut lines: Vec<String> = Vec::new();
    for _day in 0..364 {
        for _hour in 0..23 {
            let bf = Bodyfile3Line::new().with_atime(random_ts());
            lines.push(bf.to_string());

            let bf = Bodyfile3Line::new().with_mtime(random_ts());
            lines.push(bf.to_string());

            let bf = Bodyfile3Line::new().with_ctime(random_ts());
            lines.push(bf.to_string());

            let bf = Bodyfile3Line::new().with_crtime(random_ts());
            lines.push(bf.to_string());

            let bf = Bodyfile3Line::new().with_atime(random_ts()).with_mtime(random_ts());
            lines.push(bf.to_string());

            let bf = Bodyfile3Line::new().with_atime(random_ts()).with_ctime(random_ts());
            lines.push(bf.to_string());

            let bf = Bodyfile3Line::new().with_atime(random_ts()).with_crtime(random_ts());
            lines.push(bf.to_string());

            let bf = Bodyfile3Line::new().with_mtime(random_ts()).with_ctime(random_ts());
            lines.push(bf.to_string());

            let bf = Bodyfile3Line::new().with_mtime(random_ts()).with_crtime(random_ts());
            lines.push(bf.to_string());

            let bf = Bodyfile3Line::new().with_ctime(random_ts()).with_crtime(random_ts());
            lines.push(bf.to_string());

            let bf = Bodyfile3Line::new()
                .with_atime(random_ts())
                .with_mtime(random_ts())
                .with_ctime(random_ts());
            lines.push(bf.to_string());

            let bf = Bodyfile3Line::new()
                .with_atime(random_ts())
                .with_mtime(random_ts())
                .with_crtime(random_ts());
            lines.push(bf.to_string());

            let bf = Bodyfile3Line::new()
                .with_atime(random_ts())
                .with_ctime(random_ts())
                .with_crtime(random_ts());
            lines.push(bf.to_string());

            let bf = Bodyfile3Line::new()
                .with_mtime(random_ts())
                .with_ctime(random_ts())
                .with_crtime(random_ts());
            lines.push(bf.to_string());

            let bf = Bodyfile3Line::new()
                .with_atime(random_ts())
                .with_mtime(random_ts())
                .with_ctime(random_ts())
                .with_crtime(random_ts());
            lines.push(bf.to_string());
        }
    }

    let mut timeline = Timeline::new();
    for line in lines {
        match decode_line(line, options).unwrap() {
            Decoded::Line(record) => timeline.add_record(record),
            other => panic!("unexpected {:?}", other),
        }
    }

    let mut catcher = EventCatcher::new();
    let written = timeline.render(&mut catcher);
    assert_eq!(written.len(), catcher.calls);
    assert!(catcher.calls > 0);
}

fn random_ts() -> i64 {
    rand::random::<u32>() as i64
}

struct EventCatcher {
    last_timestamp: i64,
    calls: usize,
}

impl EventCatcher {
    pub fn new() -> Self {
        Self { last_timestamp: -1, calls: 0 }
    }
}

impl Mactime2Writer for EventCatcher {
    fn fmt(&mut self, timestamp: &i64, _entry: &ListEntry) -> String {
        assert!(self.last_timestamp <= *timestamp);

        self.last_timestamp = *timestamp;
        self.calls += 1;
        "".to_owned()
    }
}
