//! A whole run: from the lines of a bodyfile to the lines of a timeline.

use chrono_tz::Tz;
use vstd::prelude::*;

use crate::date::{InvalidDatetime, MAX_TIMESTAMP};
use crate::decoder::{
    decode_lines, decoded_lines, error_views, line_texts, DecodeError, DecodeErrorView,
};
use crate::entry::{EntryView, Key};
use crate::filter::RunOptions;
use crate::format::OutputFormat;
use crate::laws::lemma_listing_ascends;
use crate::output::{CsvOutput, JsonOutput, TxtOutput};
use crate::timeline::{listing_of, merge_records, views, Timeline};
use crate::writer::{lines_of, texts};

verus! {

/// Why a run gave no timeline.
#[derive(Debug)]
pub enum RunError {
    /// A line could not be decoded, and the run is strict.
    Decode(DecodeError),
    /// The timeline holds this timestamp, which is beyond the dates that
    /// can be written.
    Unrenderable(i64),
}

/// What a [`RunError`] holds, with its texts as sequences of characters.
pub enum RunErrorView {
    Decode(DecodeErrorView),
    Unrenderable(i64),
}

impl View for RunError {
    type V = RunErrorView;

    open spec fn view(&self) -> RunErrorView {
        match self {
            RunError::Decode(e) => RunErrorView::Decode(e@),
            RunError::Unrenderable(t) => RunErrorView::Unrenderable(*t),
        }
    }
}

/// What a run gives: the lines of the timeline, and the warnings for the
/// lines of the input that were skipped.
#[derive(Debug)]
pub struct Rendered {
    pub lines: Vec<String>,
    pub warnings: Vec<DecodeError>,
}

/// The format is one whose lines begin with a date.
pub open spec fn dated(format: OutputFormat) -> bool {
    format == OutputFormat::CSV || format == OutputFormat::TXT
}

/// `lines` are the lines that the writer of `format` gives for `listing`:
/// one for each entry, and for CSV and TXT the lines of the writer of this
/// format.  Of what the lines of the other formats hold, nothing is said.
pub open spec fn rendered_as(
    lines: Seq<Seq<char>>,
    format: OutputFormat,
    src_zone: Tz,
    dst_zone: Tz,
    listing: Seq<(i64, EntryView)>,
) -> bool {
    &&& lines.len() == listing.len()
    &&& format == OutputFormat::CSV ==> lines == lines_of(
        CsvOutput::fresh(src_zone, dst_zone),
        listing,
    )
    &&& format == OutputFormat::TXT ==> lines == lines_of(
        TxtOutput::fresh(src_zone, dst_zone),
        listing,
    )
}

/// What a run makes of the lines of a bodyfile: the listing of the
/// timeline of their records, and the warnings; or the error of the
/// decoder; or the last timestamp of the timeline, if the format asks for
/// dates and this timestamp cannot be written as one.
pub open spec fn outcome(format: OutputFormat, strict: bool, lines: Seq<Seq<char>>) -> Result<
    (Seq<(i64, EntryView)>, Seq<DecodeErrorView>),
    RunErrorView,
> {
    match decoded_lines(lines, strict) {
        Err(e) => Err(RunErrorView::Decode(e)),
        Ok((records, warnings)) => {
            let listing = listing_of(merge_records(Map::empty(), records));
            if dated(format) && listing.len() > 0 && listing.last().0 > MAX_TIMESTAMP {
                Err(RunErrorView::Unrenderable(listing.last().0))
            } else {
                Ok((listing, warnings))
            }
        },
    }
}

/// `res` is what the run of these settings makes of `expected`.
pub open spec fn outcome_as(
    res: Result<Rendered, RunError>,
    format: OutputFormat,
    src_zone: Tz,
    dst_zone: Tz,
    expected: Result<(Seq<(i64, EntryView)>, Seq<DecodeErrorView>), RunErrorView>,
) -> bool {
    match res {
        Ok(r) => {
            &&& expected matches Ok((listing, warnings))
            &&& error_views(r.warnings@) == warnings
            &&& rendered_as(texts(r.lines@), format, src_zone, dst_zone, listing)
        },
        Err(e) => expected == Err::<(Seq<(i64, EntryView)>, Seq<DecodeErrorView>), RunErrorView>(
            e@,
        ),
    }
}

/// The settings of a run.
pub struct Mactime2Application {
    format: OutputFormat,
    bodyfile: Option<String>,
    src_zone: Tz,
    dst_zone: Tz,
    strict_mode: bool,
}

impl Mactime2Application {
    /// A run that reads `bodyfile` (the standard input if there is none, or
    /// if it is `-`), takes its timestamps as local times of `src_zone`, and
    /// writes the timeline in `format` with dates on the clocks of
    /// `dst_zone`.
    pub fn new(
        format: OutputFormat,
        bodyfile: Option<String>,
        src_zone: Tz,
        dst_zone: Tz,
        strict_mode: bool,
    ) -> (res: Mactime2Application)
        ensures
            res.format() == format,
            res.input() == bodyfile,
            res.zones() == (src_zone, dst_zone),
            res.options() == (RunOptions { strict_mode }),
    {
        Mactime2Application { format, bodyfile, src_zone, dst_zone, strict_mode }
    }

    /// The format of the output.
    #[verifier::when_used_as_spec(spec_format)]
    pub fn format(&self) -> (res: OutputFormat)
        ensures
            res == self.format(),
    {
        self.format
    }

    /// The format of the output.
    pub closed spec fn spec_format(&self) -> OutputFormat {
        self.format
    }

    /// The path of the input.
    pub fn bodyfile(&self) -> (res: &Option<String>)
        ensures
            *res == self.input(),
    {
        &self.bodyfile
    }

    /// The path of the input.
    pub closed spec fn input(&self) -> Option<String> {
        self.bodyfile
    }

    /// The zone of the timestamps and the zone of the dates.
    pub closed spec fn zones(&self) -> (Tz, Tz) {
        (self.src_zone, self.dst_zone)
    }

    /// The zone of the timestamps.
    pub fn src_zone(&self) -> (res: Tz)
        ensures
            res == self.zones().0,
    {
        self.src_zone
    }

    /// The zone of the dates.
    pub fn dst_zone(&self) -> (res: Tz)
        ensures
            res == self.zones().1,
    {
        self.dst_zone
    }

    /// The options of the stages.
    #[verifier::when_used_as_spec(spec_options)]
    pub fn options(&self) -> (res: RunOptions)
        ensures
            res == self.options(),
    {
        RunOptions { strict_mode: self.strict_mode }
    }

    /// The options of the stages.
    pub closed spec fn spec_options(&self) -> RunOptions {
        RunOptions { strict_mode: self.strict_mode }
    }

    /// The instant, in seconds since the epoch, that the timestamp
    /// `unix_ts` stands for if it was taken on the clocks of `src_zone`.
    pub fn normalize_date(unix_ts: i64, src_zone: &Tz) -> (res: Result<i64, InvalidDatetime>)
        requires
            crate::date::in_range(unix_ts),
        ensures
            res is Ok <==> crate::date::instant_of(crate::date::local_instants(unix_ts, *src_zone))
                is Some,
            res matches Ok(t) ==> crate::date::instant_of(
                crate::date::local_instants(unix_ts, *src_zone),
            ) == Some(t),
    {
        crate::date::normalize_date(unix_ts, src_zone)
    }

    /// Renders the timestamp `unix_ts`, taken on the clocks of `src_zone`,
    /// as a date on the clocks of `dst_zone`.
    pub fn format_date(unix_ts: i64, src_zone: &Tz, dst_zone: &Tz) -> (res: String)
        requires
            unix_ts <= MAX_TIMESTAMP,
        ensures
            res@ == crate::date::date_text(unix_ts, *src_zone, *dst_zone),
    {
        crate::date::format_date(unix_ts, src_zone, dst_zone)
    }

    /// Makes the timeline of the lines of a bodyfile and renders it.
    pub fn process(&self, lines: &Vec<String>) -> (res: Result<Rendered, RunError>)
        requires
            self.format() != OutputFormat::ELASTIC,
        ensures
            outcome_as(
                res,
                self.format(),
                self.zones().0,
                self.zones().1,
                outcome(self.format(), self.options().strict_mode, line_texts(lines@)),
            ),
    {
        let (records, warnings) = match decode_lines(lines, self.options()) {
            Ok(decoded) => decoded,
            Err(e) => {
                return Err(RunError::Decode(e));
            },
        };
        let mut timeline = Timeline::new();
        timeline.add_records(records);
        let lines = match self.format {
            OutputFormat::CSV => {
                match last_timestamp(&timeline) {
                    Some(t) => if t > MAX_TIMESTAMP {
                        return Err(RunError::Unrenderable(t));
                    },
                    None => {},
                }
                let mut output = CsvOutput::new(self.src_zone, self.dst_zone);
                timeline.render(&mut output)
            },
            OutputFormat::TXT => {
                match last_timestamp(&timeline) {
                    Some(t) => if t > MAX_TIMESTAMP {
                        return Err(RunError::Unrenderable(t));
                    },
                    None => {},
                }
                let mut output = TxtOutput::new(self.src_zone, self.dst_zone);
                timeline.render(&mut output)
            },
            _ => {
                let mut output = JsonOutput::new(self.src_zone);
                timeline.render(&mut output)
            },
        };
        Ok(Rendered { lines, warnings })
    }
}

/// The last timestamp of the timeline, which is its greatest.
pub fn last_timestamp(timeline: &Timeline) -> (res: Option<i64>)
    ensures
        res is Some <==> listing_of(timeline@).len() > 0,
        res is None ==> forall|k: Key| !timeline@.contains_key(k),
        res matches Some(t) ==> t == listing_of(timeline@).last().0 && forall|k: Key| #[trigger]
            timeline@.contains_key(k) ==> k.0 <= t,
{
    let entries = timeline.entries();
    let ghost m = timeline@;
    let ghost listing = views(entries@);
    proof {
        lemma_listing_ascends(listing, m);
        assert forall|k: Key| #[trigger] m.contains_key(k) implies listing.len() > 0 && k.0
            <= listing.last().0 by {
            let i = choose|i: int| 0 <= i < listing.len() && (#[trigger] listing[i]).1.key() == k;
            assert(listing[i].0 <= listing[listing.len() - 1].0);
        }
    }
    if entries.len() == 0 {
        None
    } else {
        Some(entries[entries.len() - 1].0)
    }
}

impl Default for Mactime2Application {
    /// A run that reads the standard input, takes its timestamps as
    /// universal time and writes CSV with dates in universal time, and that
    /// skips the lines that it cannot decode.
    fn default() -> (res: Mactime2Application)
        ensures
            res.format() == OutputFormat::CSV,
            res.input() is None,
            res.options() == (RunOptions { strict_mode: false }),
    {
        Mactime2Application {
            format: OutputFormat::CSV,
            bodyfile: None,
            src_zone: crate::date::utc(),
            dst_zone: crate::date::utc(),
            strict_mode: false,
        }
    }
}

/// Two runs with the same settings on the same lines end alike: with the
/// same warnings and as many lines, which for CSV and TXT are the same
/// lines; or with the same error.
pub proof fn lemma_runs_agree(
    first: Result<Rendered, RunError>,
    second: Result<Rendered, RunError>,
    format: OutputFormat,
    src_zone: Tz,
    dst_zone: Tz,
    strict: bool,
    lines: Seq<Seq<char>>,
)
    requires
        outcome_as(first, format, src_zone, dst_zone, outcome(format, strict, lines)),
        outcome_as(second, format, src_zone, dst_zone, outcome(format, strict, lines)),
    ensures
        first is Ok <==> second is Ok,
        first matches Ok(a) ==> second matches Ok(b) ==> {
            &&& a.lines.len() == b.lines.len()
            &&& dated(format) ==> texts(a.lines@) == texts(b.lines@)
            &&& error_views(a.warnings@) == error_views(b.warnings@)
        },
        first matches Err(a) ==> second matches Err(b) ==> a@ == b@,
{
}

} // verus!
