//! The formats a run reads and writes.

use vstd::prelude::*;

verus! {

/// The formats of the input.
#[derive(Clone, Copy, Debug, PartialEq, Eq, Structural)]
pub enum InputFormat {
    /// One record per line, fields separated by `|`.
    BODYFILE,
    /// Documents as a search backend stores them.
    JSON,
}

/// The formats of the output.
#[derive(Clone, Copy, Debug, PartialEq, Eq, Structural)]
pub enum OutputFormat {
    /// Comma separated values.
    CSV,
    /// Columns of fixed width.
    TXT,
    /// One document per line.
    JSON,
    /// Documents sent to a search backend.
    ELASTIC,
}

impl OutputFormat {
    /// The format in force: the one asked for by name if there is one, else
    /// CSV if the CSV switch is set, else JSON if the JSON switch is set,
    /// else TXT.
    pub open spec fn chosen(named: Option<OutputFormat>, csv: bool, json: bool) -> OutputFormat {
        match named {
            Some(f) => f,
            None => if csv {
                OutputFormat::CSV
            } else if json {
                OutputFormat::JSON
            } else {
                OutputFormat::TXT
            },
        }
    }

    /// Settles the output format from what the command line gave.
    pub fn select(named: Option<OutputFormat>, csv: bool, json: bool) -> (res: OutputFormat)
        ensures
            res == OutputFormat::chosen(named, csv, json),
    {
        match named {
            Some(f) => f,
            None => {
                if csv {
                    OutputFormat::CSV
                } else if json {
                    OutputFormat::JSON
                } else {
                    OutputFormat::TXT
                }
            },
        }
    }
}

} // verus!
