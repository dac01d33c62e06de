//! From the lines of a bodyfile to records.
//!
//! A line that begins with `#` is a comment.  Any other line loses its line
//! ending and is parsed; what cannot be parsed is skipped with a warning,
//! or ends the run where the run is strict.

use bodyfile::Bodyfile3Line;
use vstd::prelude::*;
use vstd::string::StrSliceExecFns;

use crate::filter::RunOptions;
use crate::record::{Record, RecordView};

verus! {

broadcast use vstd::string::group_string_axioms;

/// What the parser of the crate bodyfile makes of a line: the fields of
/// the record, or the name of what it found wrong.
pub uninterp spec fn bodyfile_fields(line: Seq<char>) -> Result<RecordView, Seq<char>>;

/// `res` is `expected`, with texts as sequences of characters.
pub open spec fn parsed_as(
    res: Result<Record, String>,
    expected: Result<RecordView, Seq<char>>,
) -> bool {
    match res {
        Ok(r) => expected == Ok::<RecordView, Seq<char>>(r@),
        Err(e) => expected == Err::<RecordView, Seq<char>>(e@),
    }
}

/// `Bodyfile3Line::try_from` of the crate bodyfile, which parses one line:
/// the record with the fields that it found or, where it refused the line,
/// its error as a text.  It looks at nothing but the line.
#[verifier::external_body]
fn parse_fields(line: &str) -> (res: Result<Record, String>)
    ensures
        parsed_as(res, bodyfile_fields(line@)),
{
    match Bodyfile3Line::try_from(line) {
        Ok(l) => Ok(Record {
            md5: l.get_md5().to_owned(), name: l.get_name().to_owned(),
            inode: l.get_inode().to_owned(), mode: l.get_mode().to_owned(),
            uid: l.get_uid(), gid: l.get_gid(), size: l.get_size(),
            atime: l.get_atime(), mtime: l.get_mtime(),
            ctime: l.get_ctime(), crtime: l.get_crtime(),
        }),
        Err(e) => Err(e.to_string()),
    }
}

/// A line that could not be decoded.
#[derive(Debug)]
pub struct DecodeError {
    /// What the parser found wrong.
    pub message: String,
    /// The line, without its line ending.
    pub line: String,
}

/// What a [`DecodeError`] holds, with its texts as sequences of characters.
pub struct DecodeErrorView {
    pub message: Seq<char>,
    pub line: Seq<char>,
}

impl View for DecodeError {
    type V = DecodeErrorView;

    open spec fn view(&self) -> DecodeErrorView {
        DecodeErrorView { message: self.message@, line: self.line@ }
    }
}

/// What became of a line.
#[derive(Debug)]
pub enum Decoded {
    /// The line is a comment: there is nothing to pass on.
    Comment,
    /// The line holds this record.
    Line(Record),
    /// The line was skipped: there is a warning to give.
    Skipped(DecodeError),
}

/// What a [`Decoded`] holds, with its texts as sequences of characters.
pub enum DecodedView {
    Comment,
    Line(RecordView),
    Skipped(DecodeErrorView),
}

impl View for Decoded {
    type V = DecodedView;

    open spec fn view(&self) -> DecodedView {
        match self {
            Decoded::Comment => DecodedView::Comment,
            Decoded::Line(r) => DecodedView::Line(r@),
            Decoded::Skipped(e) => DecodedView::Skipped(e@),
        }
    }
}

/// The line is a comment: it begins with `#`.
pub open spec fn is_comment(line: Seq<char>) -> bool {
    line.len() > 0 && line[0] == '#'
}

/// The line without its line ending: without a line feed at its end, and
/// without a carriage return before that line feed.
pub open spec fn trimmed(line: Seq<char>) -> Seq<char> {
    if line.len() > 0 && line.last() == '\n' {
        if line.len() > 1 && line[line.len() - 2] == '\r' {
            line.take(line.len() - 2)
        } else {
            line.take(line.len() - 1)
        }
    } else {
        line
    }
}

/// What becomes of a line whose text, without line ending, is `line` and
/// which the parser took as `parsed`: the record where there is one; else
/// the error, as the end of a strict run or as a warning.
pub open spec fn settled(
    parsed: Result<RecordView, Seq<char>>,
    line: Seq<char>,
    strict: bool,
) -> Result<DecodedView, DecodeErrorView> {
    match parsed {
        Ok(r) => Ok(DecodedView::Line(r)),
        Err(message) => if strict {
            Err(DecodeErrorView { message, line })
        } else {
            Ok(DecodedView::Skipped(DecodeErrorView { message, line }))
        },
    }
}

/// What becomes of the line `line`.
pub open spec fn decoded(line: Seq<char>, strict: bool) -> Result<DecodedView, DecodeErrorView> {
    if is_comment(line) {
        Ok(DecodedView::Comment)
    } else {
        settled(bodyfile_fields(trimmed(line)), trimmed(line), strict)
    }
}

/// `res` is `expected`, with texts as sequences of characters.
pub open spec fn decoded_as(
    res: Result<Decoded, DecodeError>,
    expected: Result<DecodedView, DecodeErrorView>,
) -> bool {
    match res {
        Ok(d) => expected == Ok::<DecodedView, DecodeErrorView>(d@),
        Err(e) => expected == Err::<DecodedView, DecodeErrorView>(e@),
    }
}

/// Whether the line is a comment.
pub fn starts_comment(line: &str) -> (res: bool)
    ensures
        res == is_comment(line@),
{
    let mut chars = line.chars();
    match chars.next() {
        Some(c) => c == '#',
        None => false,
    }
}

/// Takes the line ending off the line.
pub fn trim_newline(s: &mut String)
    ensures
        final(s)@ == trimmed(old(s)@),
{
    let n = s.as_str().unicode_len();
    if n > 0 && s.as_str().get_char(n - 1) == '\n' {
        let keep = if n > 1 && s.as_str().get_char(n - 2) == '\r' {
            n - 2
        } else {
            n - 1
        };
        let kept = s.as_str().substring_char(0, keep).to_owned();
        *s = kept;
    }
}

/// Settles what becomes of a line that the parser has seen.
pub fn settle(parsed: Result<Record, String>, line: String, options: RunOptions) -> (res: Result<
    Decoded,
    DecodeError,
>)
    ensures
        parsed matches Ok(r) ==> decoded_as(
            res,
            settled(Ok(r@), line@, options.strict_mode),
        ),
        parsed matches Err(e) ==> decoded_as(
            res,
            settled(Err(e@), line@, options.strict_mode),
        ),
{
    match parsed {
        Ok(r) => Ok(Decoded::Line(r)),
        Err(message) => {
            let error = DecodeError { message, line };
            if options.strict_mode {
                Err(error)
            } else {
                Ok(Decoded::Skipped(error))
            }
        },
    }
}

/// Decodes one line.
pub fn decode_line(line: String, options: RunOptions) -> (res: Result<Decoded, DecodeError>)
    ensures
        decoded_as(res, decoded(line@, options.strict_mode)),
{
    if starts_comment(line.as_str()) {
        return Ok(Decoded::Comment);
    }
    let mut line = line;
    trim_newline(&mut line);
    let parsed = parse_fields(line.as_str());
    settle(parsed, line, options)
}

/// The texts of `lines`.
pub open spec fn line_texts(lines: Seq<String>) -> Seq<Seq<char>> {
    lines.map_values(|s: String| s@)
}

/// The records in `records` as values.
pub open spec fn record_views(records: Seq<Record>) -> Seq<RecordView> {
    records.map_values(|r: Record| r@)
}

/// The errors in `errors` as values.
pub open spec fn error_views(errors: Seq<DecodeError>) -> Seq<DecodeErrorView> {
    errors.map_values(|e: DecodeError| e@)
}

/// What becomes of the lines of a bodyfile, taken one after the other:
/// the records that they hold and the warnings for those that were
/// skipped, or the error that ended the run.
pub open spec fn decoded_lines(lines: Seq<Seq<char>>, strict: bool) -> Result<
    (Seq<RecordView>, Seq<DecodeErrorView>),
    DecodeErrorView,
>
    decreases lines.len(),
{
    if lines.len() == 0 {
        Ok((Seq::empty(), Seq::empty()))
    } else {
        match decoded_lines(lines.drop_last(), strict) {
            Err(e) => Err(e),
            Ok((records, warnings)) => match decoded(lines.last(), strict) {
                Err(e) => Err(e),
                Ok(DecodedView::Comment) => Ok((records, warnings)),
                Ok(DecodedView::Line(r)) => Ok((records.push(r), warnings)),
                Ok(DecodedView::Skipped(w)) => Ok((records, warnings.push(w))),
            },
        }
    }
}

/// `res` is `expected`, with texts as sequences of characters.
pub open spec fn decoded_lines_as(
    res: Result<(Vec<Record>, Vec<DecodeError>), DecodeError>,
    expected: Result<(Seq<RecordView>, Seq<DecodeErrorView>), DecodeErrorView>,
) -> bool {
    match res {
        Ok((records, warnings)) => expected == Ok::<
            (Seq<RecordView>, Seq<DecodeErrorView>),
            DecodeErrorView,
        >((record_views(records@), error_views(warnings@))),
        Err(e) => expected == Err::<(Seq<RecordView>, Seq<DecodeErrorView>), DecodeErrorView>(e@),
    }
}

/// Decodes the lines of a bodyfile, one after the other.
pub fn decode_lines(lines: &Vec<String>, options: RunOptions) -> (res: Result<
    (Vec<Record>, Vec<DecodeError>),
    DecodeError,
>)
    ensures
        decoded_lines_as(res, decoded_lines(line_texts(lines@), options.strict_mode)),
{
    let mut records: Vec<Record> = Vec::new();
    let mut warnings: Vec<DecodeError> = Vec::new();
    let ghost texts = line_texts(lines@);
    let mut i: usize = 0;
    proof {
        assert(texts.take(0).len() == 0);
        assert(record_views(records@) =~= Seq::<RecordView>::empty());
        assert(error_views(warnings@) =~= Seq::<DecodeErrorView>::empty());
    }
    while i < lines.len()
        invariant
            i <= lines.len(),
            texts == line_texts(lines@),
            decoded_lines(texts.take(i as int), options.strict_mode) == Ok::<
                (Seq<RecordView>, Seq<DecodeErrorView>),
                DecodeErrorView,
            >((record_views(records@), error_views(warnings@))),
        decreases lines.len() - i,
    {
        proof {
            assert(texts.take(i + 1).drop_last() =~= texts.take(i as int));
            assert(texts.take(i + 1).last() == lines[i as int]@);
        }
        let ghost records_before = records@;
        let ghost warnings_before = warnings@;
        match decode_line(lines[i].clone(), options) {
            Err(e) => {
                proof {
                    lemma_decoded_lines_fail(texts, i + 1, options.strict_mode);
                }
                return Err(e);
            },
            Ok(Decoded::Comment) => {},
            Ok(Decoded::Line(r)) => {
                records.push(r);
                assert(record_views(records@) =~= record_views(records_before).push(r@));
            },
            Ok(Decoded::Skipped(w)) => {
                warnings.push(w);
                assert(error_views(warnings@) =~= error_views(warnings_before).push(w@));
            },
        }
        i = i + 1;
    }
    proof {
        assert(texts.take(i as int) =~= texts);
    }
    Ok((records, warnings))
}

/// Once a line has ended the run, the lines after it change nothing.
proof fn lemma_decoded_lines_fail(lines: Seq<Seq<char>>, n: int, strict: bool)
    requires
        0 <= n <= lines.len(),
        decoded_lines(lines.take(n), strict) is Err,
    ensures
        decoded_lines(lines, strict) == decoded_lines(lines.take(n), strict),
    decreases lines.len() - n,
{
    if n < lines.len() {
        assert(lines.take(n + 1).drop_last() =~= lines.take(n));
        lemma_decoded_lines_fail(lines, n + 1, strict);
    } else {
        assert(lines.take(n) =~= lines);
    }
}

} // verus!
