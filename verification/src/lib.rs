//! Merges forensic bodyfile records into one chronologically ordered
//! timeline in MAC(B) notation.
//!
//! A [`Record`] carries up to four timestamps: modified, accessed, changed,
//! born.  The [`decoder`] makes records of the lines of a bodyfile.  The
//! correlator in [`correlate`] folds the equal timestamps of a record into
//! one [`ListEntry`] whose [`MACBFlags`] name the kinds that coincide.  A
//! [`Timeline`] keeps the entries ordered by timestamp and then by name, and
//! hands them in this order to a [`Mactime2Writer`].  The writers of
//! [`output`] give lines of text, comma separated values and documents of
//! the Elastic Common Schema, the writer of [`json_output`] plain JSON
//! objects.  [`application`] holds a whole run, from lines to lines, and
//! [`laws`] states what holds of every record and of every timeline.

pub mod application;
pub mod bucket;
pub mod correlate;
pub mod date;
pub mod decoder;
pub mod entry;
pub mod filter;
pub mod flags;
pub mod format;
pub mod json_output;
pub mod laws;
pub mod names;
mod order;
pub mod output;
pub mod record;
pub mod text;
pub mod timeline;
pub mod writer;

pub use application::Mactime2Application;
pub use entry::{EntryView, ListEntry};
pub use filter::{Filter, RunOptions};
pub use flags::MACBFlags;
pub use format::{InputFormat, OutputFormat};
pub use record::{Record, RecordView};
pub use timeline::{insert_timestamp, Timeline};
pub use writer::Mactime2Writer;
