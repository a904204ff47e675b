//! Display configuration resolution engine.
//!
//! Translates an OS-reported relative DPI scale range into absolute
//! percentages from the fixed DPI value table, plans the reverse mapping
//! needed to apply a new percentage, and normalizes raw display-path data
//! into a left-to-right ordered topology view.

pub mod dpi;
pub mod select;
pub mod topology;
