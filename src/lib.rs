//! A simulated table of digital I/O pins and a report of their state.
//!
//! The table holds a fixed number of pins, each with an optional mode and a
//! logic level. Configuring and writing pins are checked operations, and the
//! report lists configured pins, outputs first, each group by ascending index.

pub mod pin;
pub mod text;
pub mod table;
pub mod report;

pub use pin::{Pin, PinMode, PinValue, PIN_COUNT};
pub use table::{PinError, PinTable, Transition};
pub use report::{report, report_entries, report_line, report_prefix, ReportEntry, REPORT_WIDTH};
pub use text::{decimal, mode_label, right_padd, value_label};
