//! Dates in the PDF format, read from and written to
//! PDF string objects.
//!
//! The date text `D:YYYYMMDDHHmmSSOHH'mm'` is parsed into a [`PdfDateTime`]
//! of plain fields and written back without a date library; conversions to
//! and from the `chrono`, `jiff` and `time` crates sit beside it.
pub mod chrono_dates;
pub mod datetime;
pub mod error;
pub mod jiff_dates;
pub mod object;
pub mod reading;
pub mod round_trip;
pub mod text;
pub mod time_dates;

pub use datetime::{DateTime, PdfDateTime};
pub use error::Error;
pub use object::{Object, StringFormat};
