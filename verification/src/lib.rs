//! Verified core of a desktop countdown timer.
//!
//! The library owns the timer's logic: parsing a `hh:mm:ss`-style duration,
//! the frame-driven clock with pause semantics, the bouncing or static text
//! layout, the one-shot completion signal with its blink cadence, the
//! remaining-time formatter, and the per-frame controller that ties them
//! together.  Windowing, font rasterization and notification delivery are
//! collaborators outside the library; a thin shell hands events in and
//! carries render commands and the completion signal out.

pub mod clock;
pub mod frame;
pub mod layout;
pub mod parse;
pub mod signal;
pub mod timefmt;
