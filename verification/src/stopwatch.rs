use vstd::prelude::*;

use crate::clock::nanos_since;
use crate::span::TimeSpan;

verus! {

/// The core stopwatch invariant: at most the last span is open, that is,
/// every span before the last is closed. Every operation preserves it.
pub open spec fn spans_wf(spans: Seq<TimeSpan>) -> bool {
    forall|i: int| 0 <= i < spans.len() - 1 ==> (#[trigger] spans[i]).is_closed()
}

/// Every span's endpoints are in order. The operations preserve this as
/// long as the clock never moves backward, i.e. each span is closed at an
/// instant no earlier than its start.
pub open spec fn endpoints_ordered(spans: Seq<TimeSpan>) -> bool {
    forall|i: int| 0 <= i < spans.len() ==> (#[trigger] spans[i]).wf()
}

/// Every span is closed: nothing is being measured right now.
pub open spec fn all_closed(spans: Seq<TimeSpan>) -> bool {
    forall|i: int| 0 <= i < spans.len() ==> (#[trigger] spans[i]).is_closed()
}

/// A stopwatch is running iff its history is non-empty and the last span
/// is open.
pub open spec fn spec_running(spans: Seq<TimeSpan>) -> bool {
    spans.len() > 0 && spans.last().is_open()
}

/// What stopping at instant `now` does to the span history: a running
/// stopwatch has its last span closed with `now`; an idle one is left
/// exactly as it is.
pub open spec fn spec_stop_spans(spans: Seq<TimeSpan>, now: u64) -> Seq<TimeSpan> {
    if spec_running(spans) {
        spans.update(spans.len() - 1, (TimeSpan { start: spans.last().start, stop: Some(now) }))
    } else {
        spans
    }
}

/// What stopping at instant `now` returns: a copy of the span it closed,
/// or nothing if the stopwatch was already idle.
pub open spec fn spec_stop_result(spans: Seq<TimeSpan>, now: u64) -> Option<TimeSpan> {
    if spec_running(spans) {
        Some((TimeSpan { start: spans.last().start, stop: Some(now) }))
    } else {
        None
    }
}

/// What starting at instant `now` does to the span history: the effect of
/// stopping, followed by a fresh open span beginning at `now`.
pub open spec fn spec_start_spans(spans: Seq<TimeSpan>, now: u64) -> Seq<TimeSpan> {
    spec_stop_spans(spans, now).push(TimeSpan { start: now, stop: None })
}

/// Total elapsed nanoseconds across all spans: the sum of every span's
/// duration, measuring open spans up to `now`.
pub open spec fn spec_elapsed(spans: Seq<TimeSpan>, now: u64) -> nat
    decreases spans.len(),
{
    if spans.len() == 0 {
        0
    } else {
        spec_elapsed(spans.drop_last(), now) + spans.last().spec_duration(now)
    }
}

/// A stopwatch used to calculate time differences.
///
/// It owns the ordered sequence of spans it has measured; the sequence is
/// public so that callers can render lap-by-lap breakdowns and reset the
/// stopwatch by clearing it. A caller that mutates the sequence directly
/// is responsible for keeping the invariant [`spans_wf`].
#[derive(Clone, Debug)]
pub struct Stopwatch {
    /// The clock reading all of this stopwatch's instants are measured
    /// from, fixed at construction.
    pub origin: std::time::Instant,
    /// All time spans that this stopwatch has run or is running.
    /// Only the last span is allowed to have no stop value, which means
    /// it is still active.
    pub spans: Vec<TimeSpan>,
}

impl Default for Stopwatch {
    /// Creates an idle stopwatch with no recorded spans.
    fn default() -> (s: Stopwatch)
        ensures
            s.spans@ == Seq::<TimeSpan>::empty(),
            !spec_running(s.spans@),
    {
        let s = Stopwatch { origin: std::time::Instant::now(), spans: Vec::new() };
        proof {
            assert(s.spans@ =~= Seq::<TimeSpan>::empty());
        }
        s
    }
}

impl Stopwatch {
    /// The stopwatch invariant, stated of this stopwatch's own history.
    pub open spec fn wf(self) -> bool {
        spans_wf(self.spans@)
    }

    /// Returns whether the stopwatch is running: true iff there is at
    /// least one span and the last one has no stop value.
    pub fn is_running(&self) -> (b: bool)
        ensures
            b == spec_running(self.spans@),
    {
        self.spans.len() > 0 && self.spans[self.spans.len() - 1].stop.is_none()
    }

    /// Stops the stopwatch at instant `now` without resetting it: if it
    /// is running, the last span is closed with `now` and a copy of it is
    /// returned; otherwise nothing changes and nothing is returned.
    pub fn stop_at(&mut self, now: u64) -> (r: Option<TimeSpan>)
        ensures
            final(self).spans@ == spec_stop_spans(old(self).spans@, now),
            r == spec_stop_result(old(self).spans@, now),
            !spec_running(final(self).spans@),
            spans_wf(old(self).spans@) ==> spans_wf(final(self).spans@),
    {
        if self.is_running() {
            let last = self.spans.pop().unwrap();
            let closed = TimeSpan { start: last.start, stop: Some(now) };
            self.spans.push(closed);
            proof {
                assert(self.spans@ =~= spec_stop_spans(old(self).spans@, now));
                lemma_stop_preserves_wf(old(self).spans@, now);
            }
            Some(closed)
        } else {
            None
        }
    }

    /// Starts the stopwatch at instant `now`.
    ///
    /// If it is already running, this creates a new split: the running
    /// span is closed with `now` (and returned), and a brand-new span
    /// beginning at `now` is opened. If it is idle, a new span is opened
    /// and nothing is returned.
    pub fn start_at(&mut self, now: u64) -> (r: Option<TimeSpan>)
        ensures
            final(self).spans@ == spec_start_spans(old(self).spans@, now),
            r == spec_stop_result(old(self).spans@, now),
            final(self).spans@.len() == old(self).spans@.len() + 1,
            spec_running(final(self).spans@),
            spans_wf(old(self).spans@) ==> spans_wf(final(self).spans@),
    {
        let r = self.stop_at(now);
        let ghost stopped = self.spans@;
        self.spans.push(TimeSpan { start: now, stop: None });
        proof {
            if spans_wf(old(self).spans@) {
                assert forall|i: int| 0 <= i < self.spans@.len() - 1 implies (
                #[trigger] self.spans@[i]).is_closed() by {
                    assert(self.spans@[i] == stopped[i]);
                }
            }
        }
        r
    }

    /// Returns the total elapsed time accumulated inside of this
    /// stopwatch, in nanoseconds: the sum of every span's duration, with
    /// open spans measured up to instant `now`.
    pub fn elapsed_at(&self, now: u64) -> (e: u128)
        ensures
            e == spec_elapsed(self.spans@, now),
    {
        let ghost spans = self.spans@;
        let ghost bound: int = u64::MAX as int;
        let mut e: u128 = 0;
        let mut i: usize = 0;
        while i < self.spans.len()
            invariant
                self.spans@ == spans,
                i <= spans.len(),
                e == spec_elapsed(spans.take(i as int), now),
                e <= i * bound,
                bound == u64::MAX as int,
            decreases spans.len() - i,
        {
            let d: u64 = self.spans[i].duration_ns(now);
            proof {
                assert(spans.take(i + 1).drop_last() =~= spans.take(i as int));
                assert(spans.take(i + 1).last() == spans[i as int]);
                assert((i + 1) * bound == i * bound + bound) by (nonlinear_arith);
                assert((i + 1) * bound <= bound * bound) by (nonlinear_arith)
                    requires
                        0 <= bound,
                        i + 1 <= bound,
                ;
            }
            e = e + (d as u128);
            i = i + 1;
        }
        proof {
            assert(spans.take(spans.len() as int) =~= spans);
        }
        e
    }

    /// Starts the stopwatch at the current instant of its monotonic
    /// clock. If it is already started, it will create a new split: the
    /// span that was running is closed and returned.
    ///
    /// Whatever instant the clock hands back, the history afterwards is
    /// exactly the one that starting at that instant yields.
    pub fn start(&mut self) -> (r: Option<TimeSpan>)
        ensures
            exists|now: u64|
                {
                    &&& #[trigger] final(self).spans@ == spec_start_spans(old(self).spans@, now)
                    &&& r == spec_stop_result(old(self).spans@, now)
                },
            final(self).spans@.len() == old(self).spans@.len() + 1,
            spec_running(final(self).spans@),
            spans_wf(old(self).spans@) ==> spans_wf(final(self).spans@),
    {
        let now = nanos_since(&self.origin);
        self.start_at(now)
    }

    /// Stops the stopwatch at the current instant of its monotonic clock
    /// without resetting it: if it is running, the last span is closed
    /// and a copy of it is returned; if it is idle, nothing changes and
    /// nothing is returned, no matter how often it is called.
    ///
    /// Whatever instant the clock hands back, the history afterwards is
    /// exactly the one that stopping at that instant yields.
    pub fn stop(&mut self) -> (r: Option<TimeSpan>)
        ensures
            exists|now: u64|
                {
                    &&& #[trigger] final(self).spans@ == spec_stop_spans(old(self).spans@, now)
                    &&& r == spec_stop_result(old(self).spans@, now)
                },
            !spec_running(old(self).spans@) ==> final(self).spans@ == old(self).spans@ && (r
                is None),
            !spec_running(final(self).spans@),
            spans_wf(old(self).spans@) ==> spans_wf(final(self).spans@),
    {
        let now = nanos_since(&self.origin);
        self.stop_at(now)
    }

    /// Returns the total elapsed time accumulated inside of this
    /// stopwatch, in nanoseconds, measuring an open span up to the
    /// current instant of its monotonic clock.
    ///
    /// The result is the elapsed time at some instant; if every span is
    /// closed, it is the exact sum of their durations, the same at every
    /// instant.
    pub fn elapsed(&self) -> (e: u128)
        ensures
            exists|now: u64| e == #[trigger] spec_elapsed(self.spans@, now),
            all_closed(self.spans@) ==> e == spec_elapsed(self.spans@, 0),
    {
        let now = nanos_since(&self.origin);
        let e = self.elapsed_at(now);
        proof {
            if all_closed(self.spans@) {
                lemma_elapsed_ignores_now_when_closed(self.spans@, now, 0);
            }
        }
        e
    }
}

/// When every span is closed, the elapsed total does not depend on the
/// instant of the query at all.
pub proof fn lemma_elapsed_ignores_now_when_closed(spans: Seq<TimeSpan>, n1: u64, n2: u64)
    requires
        all_closed(spans),
    ensures
        spec_elapsed(spans, n1) == spec_elapsed(spans, n2),
    decreases spans.len(),
{
    if spans.len() > 0 {
        assert(all_closed(spans.drop_last())) by {
            assert forall|i: int| 0 <= i < spans.drop_last().len() implies (
            #[trigger] spans.drop_last()[i]).is_closed() by {
                assert(spans.drop_last()[i] == spans[i]);
            }
        }
        lemma_elapsed_ignores_now_when_closed(spans.drop_last(), n1, n2);
    }
}

/// Closing the last span keeps the invariant, and afterwards no span is
/// open at all.
proof fn lemma_stop_preserves_wf(spans: Seq<TimeSpan>, now: u64)
    ensures
        !spec_running(spec_stop_spans(spans, now)),
        spans_wf(spans) ==> spans_wf(spec_stop_spans(spans, now)),
{
}

} // verus!
