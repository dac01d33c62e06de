//! The writers that come with the library.

pub mod csv_output;
pub mod json_output;
pub mod json_sorter;
pub mod txt_output;

pub use csv_output::CsvOutput;
pub use json_output::JsonOutput;
pub use json_sorter::JsonSorter;
pub use txt_output::TxtOutput;
