use vstd::prelude::*;

verus! {

/// A span of time that is started but might not have an end yet.
///
/// Both endpoints are nanosecond readings of the monotonic clock of the
/// stopwatch that owns the span. A span with `stop == None` is *open*
/// (still running); one with `stop == Some(t)` is *closed*.
#[derive(Clone, Copy, Debug)]
pub struct TimeSpan {
    /// The instant at which the span started.
    pub start: u64,
    /// The instant at which the span stopped, if any.
    pub stop: Option<u64>,
}

impl TimeSpan {
    /// A closed span records both of its endpoints.
    pub open spec fn is_closed(self) -> bool {
        self.stop is Some
    }

    /// An open span is still running: its end is not known yet.
    pub open spec fn is_open(self) -> bool {
        self.stop is None
    }

    /// Endpoints in order: a closed span does not end before it starts.
    pub open spec fn wf(self) -> bool {
        self.is_closed() ==> self.stop->0 >= self.start
    }

    /// The duration of the span in nanoseconds. A closed span measures
    /// `stop - start`; an open span measures up to `now`, answering "how
    /// long so far". An end earlier than the start counts as zero, the
    /// way the monotonic clock's own subtraction saturates.
    pub open spec fn spec_duration(self, now: u64) -> nat {
        match self.stop {
            Some(t) => if t >= self.start { (t - self.start) as nat } else { 0 },
            None => if now >= self.start { (now - self.start) as nat } else { 0 },
        }
    }

    /// Converts the span into a duration in nanoseconds, measuring an
    /// open span up to the instant `now`.
    pub fn duration_ns(&self, now: u64) -> (d: u64)
        ensures
            d == self.spec_duration(now),
    {
        match self.stop {
            Some(t) => if t >= self.start { t - self.start } else { 0 },
            None => if now >= self.start { now - self.start } else { 0 },
        }
    }
}

} // verus!
