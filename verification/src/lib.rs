//! A fixed-layout terminal telemetry dashboard.
//!
//! The dashboard owns three bounded row buffers (announcements, telemetry,
//! debug), each drawn inside a bordered box, and repaints in place by
//! emitting cursor-repositioning escape sequences. All text cells are
//! formatted to a fixed visible width; telemetry values are fixed-point
//! numbers shown with two decimal places.

pub mod control;
pub mod numfmt;
pub mod pad;
pub mod telemetry;
pub mod terminal;
