use vstd::prelude::*;

use crate::span::TimeSpan;
use crate::stopwatch::{
    all_closed, endpoints_ordered, spans_wf, spec_elapsed, spec_running, spec_start_spans,
    spec_stop_result, spec_stop_spans,
};

verus! {

/// Under any sequence of calls, at most the last span is open: starting
/// and stopping both preserve the core invariant, stopping leaves no span
/// open, and starting leaves exactly the new span open. As long as the
/// clock never moves backward (`now` is no earlier than the running
/// span's start), each span's endpoints stay in order as well.
pub proof fn lemma_operations_preserve_invariant(spans: Seq<TimeSpan>, now: u64)
    ensures
        spans_wf(spans) ==> spans_wf(spec_stop_spans(spans, now)),
        spans_wf(spans) ==> spans_wf(spec_start_spans(spans, now)),
        !spec_running(spec_stop_spans(spans, now)),
        spec_running(spec_start_spans(spans, now)),
        endpoints_ordered(spans) && (spec_running(spans) ==> now >= spans.last().start)
            ==> endpoints_ordered(spec_stop_spans(spans, now)) && endpoints_ordered(
            spec_start_spans(spans, now),
        ),
{
    let stopped = spec_stop_spans(spans, now);
    let started = spec_start_spans(spans, now);
    if spans_wf(spans) {
        assert forall|i: int| 0 <= i < started.len() - 1 implies (
        #[trigger] started[i]).is_closed() by {
            assert(started[i] == stopped[i]);
        }
    }
    if endpoints_ordered(spans) && (spec_running(spans) ==> now >= spans.last().start) {
        assert forall|i: int| 0 <= i < started.len() implies (#[trigger] started[i]).wf() by {
            if i < stopped.len() {
                assert(started[i] == stopped[i]);
            }
        }
    }
}

/// Stopping is idempotent: stopping an already-stopped stopwatch, at any
/// instant and any number of times, returns nothing and leaves the
/// history exactly as the first stop left it.
pub proof fn lemma_stop_idempotent(spans: Seq<TimeSpan>, n1: u64, n2: u64)
    ensures
        spec_stop_spans(spec_stop_spans(spans, n1), n2) == spec_stop_spans(spans, n1),
        spec_stop_result(spec_stop_spans(spans, n1), n2) is None,
{
}

/// Starting N times in a row with no stop in between produces exactly N
/// new spans, all but the last closed and the last open.
pub open spec fn spec_start_n(spans: Seq<TimeSpan>, nows: Seq<u64>) -> Seq<TimeSpan>
    decreases nows.len(),
{
    if nows.len() == 0 {
        spans
    } else {
        spec_start_n(spec_start_spans(spans, nows[0]), nows.drop_first())
    }
}

/// Split behavior: from a history obeying the core invariant, N
/// consecutive starts add exactly N spans, keep the invariant, and leave
/// the stopwatch running (so all spans but the last are closed).
pub proof fn lemma_split_behavior(spans: Seq<TimeSpan>, nows: Seq<u64>)
    requires
        spans_wf(spans),
    ensures
        spec_start_n(spans, nows).len() == spans.len() + nows.len(),
        spans_wf(spec_start_n(spans, nows)),
        nows.len() > 0 ==> spec_running(spec_start_n(spans, nows)),
    decreases nows.len(),
{
    if nows.len() > 0 {
        lemma_operations_preserve_invariant(spans, nows[0]);
        lemma_split_behavior(spec_start_spans(spans, nows[0]), nows.drop_first());
    }
}

/// Split behavior, finished off: starting N > 0 times from an empty
/// history and then stopping once leaves exactly N spans, all closed.
pub proof fn lemma_split_then_stop(nows: Seq<u64>, last: u64)
    requires
        nows.len() > 0,
    ensures
        spec_stop_spans(spec_start_n(Seq::<TimeSpan>::empty(), nows), last).len() == nows.len(),
        all_closed(spec_stop_spans(spec_start_n(Seq::<TimeSpan>::empty(), nows), last)),
{
    let started = spec_start_n(Seq::<TimeSpan>::empty(), nows);
    let stopped = spec_stop_spans(started, last);
    lemma_split_behavior(Seq::<TimeSpan>::empty(), nows);
    assert forall|i: int| 0 <= i < stopped.len() implies (#[trigger] stopped[i]).is_closed() by {
        if i < stopped.len() - 1 {
            assert(stopped[i] == started[i]);
        }
    }
}

/// One start/stop pair after another: each session opens a span at its
/// first instant and closes it at its second.
pub open spec fn spec_sessions(spans: Seq<TimeSpan>, times: Seq<(u64, u64)>) -> Seq<TimeSpan>
    decreases times.len(),
{
    if times.len() == 0 {
        spans
    } else {
        spec_sessions(
            spec_stop_spans(spec_start_spans(spans, times[0].0), times[0].1),
            times.drop_first(),
        )
    }
}

/// The total the sessions are owed: the sum of each session's duration.
pub open spec fn spec_sessions_total(times: Seq<(u64, u64)>) -> nat
    decreases times.len(),
{
    if times.len() == 0 {
        0
    } else {
        (times[0].1 - times[0].0) as nat + spec_sessions_total(times.drop_first())
    }
}

/// Resume accumulation: running any number of start/stop sessions, each
/// stopped no earlier than it started, adds exactly the sum of their
/// durations to the elapsed total of an all-closed history — no time
/// outside the sessions ever accumulates.
pub proof fn lemma_resume_accumulates(spans: Seq<TimeSpan>, times: Seq<(u64, u64)>, now: u64)
    requires
        all_closed(spans),
        forall|i: int| 0 <= i < times.len() ==> (#[trigger] times[i]).0 <= times[i].1,
    ensures
        all_closed(spec_sessions(spans, times)),
        spec_elapsed(spec_sessions(spans, times), now) == spec_elapsed(spans, now)
            + spec_sessions_total(times),
    decreases times.len(),
{
    if times.len() > 0 {
        let t0 = times[0].0;
        let t1 = times[0].1;
        let one = spec_stop_spans(spec_start_spans(spans, t0), t1);
        assert(!spec_running(spans));
        assert(one =~= spans.push(TimeSpan { start: t0, stop: Some(t1) }));
        assert(all_closed(one)) by {
            assert forall|i: int| 0 <= i < one.len() implies (#[trigger] one[i]).is_closed() by {
                if i < spans.len() {
                    assert(one[i] == spans[i]);
                }
            }
        }
        assert(one.drop_last() =~= spans);
        assert(spec_elapsed(one, now) == spec_elapsed(spans, now) + (t1 - t0));
        lemma_resume_accumulates(one, times.drop_first(), now);
    }
}

/// Querying while running: starting an all-closed history at `t` and
/// querying at `now` reports the closed total plus exactly the running
/// span's time so far.
pub proof fn lemma_running_query(spans: Seq<TimeSpan>, t: u64, now: u64)
    requires
        all_closed(spans),
        t <= now,
    ensures
        spec_elapsed(spec_start_spans(spans, t), now) == spec_elapsed(spans, now) + (now - t),
{
    let started = spec_start_spans(spans, t);
    assert(!spec_running(spans)) by {
        if spans.len() > 0 {
            assert(spans[spans.len() - 1].is_closed());
        }
    }
    assert(started.drop_last() =~= spans);
    assert(started.last() == (TimeSpan { start: t, stop: None }));
}

/// Zero state: an empty history is idle, reports zero elapsed time at
/// any instant, and stopping it has no effect and returns nothing.
pub proof fn lemma_zero_state(now: u64)
    ensures
        !spec_running(Seq::<TimeSpan>::empty()),
        spec_elapsed(Seq::<TimeSpan>::empty(), now) == 0,
        spec_stop_spans(Seq::<TimeSpan>::empty(), now) == Seq::<TimeSpan>::empty(),
        spec_stop_result(Seq::<TimeSpan>::empty(), now) is None,
{
}

/// Reset correctness: once the history is cleared, a start begins a
/// fresh measurement — a stopwatch restarted at `t` and queried at `now`
/// reports exactly `now - t`, with no contribution from before the
/// reset.
pub proof fn lemma_reset_starts_fresh(t: u64, now: u64)
    requires
        t <= now,
    ensures
        spec_elapsed(spec_start_spans(Seq::<TimeSpan>::empty(), t), now) == now - t,
{
    lemma_running_query(Seq::<TimeSpan>::empty(), t, now);
}

/// Between two queries the elapsed total never shrinks: as long as the
/// clock never moves backward, a later instant reports at least as much
/// elapsed time as an earlier one.
pub proof fn lemma_elapsed_monotone(spans: Seq<TimeSpan>, n1: u64, n2: u64)
    requires
        n1 <= n2,
    ensures
        spec_elapsed(spans, n1) <= spec_elapsed(spans, n2),
    decreases spans.len(),
{
    if spans.len() > 0 {
        lemma_elapsed_monotone(spans.drop_last(), n1, n2);
    }
}

} // verus!
