//! A stopwatch that tracks contiguous spans of monotonic time and reports
//! the total duration accumulated across them.
//!
//! A [`Stopwatch`] owns an ordered sequence of [`TimeSpan`]s. Starting the
//! stopwatch opens a new span; starting it again closes the running span
//! and opens a fresh one (a "split"); stopping closes the running span.
//! The total elapsed time is the sum of the durations of all spans, where
//! an open span counts the time up to the instant of the query.
//!
//! Instants are plain nanosecond counts on the monotonic scale of the
//! stopwatch that recorded them, so all accumulation logic is ordinary
//! integer arithmetic with exact contracts.

mod clock;
pub mod laws;
pub mod span;
pub mod stopwatch;
pub mod text;

pub use span::TimeSpan;
pub use stopwatch::Stopwatch;
pub use text::format_elapsed_ns;
