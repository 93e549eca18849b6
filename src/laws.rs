//! What holds of every run of the state machine.
use crate::clock::{span, Timestamp, NANOS_PER_SEC, MAX_SPAN_SECS};
use crate::monitor::{next, run, LogEntry, MonitorModel, ProbeOutcome};
use vstd::prelude::*;

verus! {

/// How many records in `es` open an outage.
pub open spec fn starts(es: Seq<LogEntry>) -> nat
    decreases es.len(),
{
    if es.len() == 0 {
        0
    } else {
        starts(es.drop_last()) + if es.last() is OutageStart { 1nat } else { 0nat }
    }
}

/// How many records in `es` close an outage.
pub open spec fn ends(es: Seq<LogEntry>) -> nat
    decreases es.len(),
{
    if es.len() == 0 {
        0
    } else {
        ends(es.drop_last()) + if es.last() is OutageEnd { 1nat } else { 0nat }
    }
}

/// Whether the probe before the last one succeeded; before the first probe
/// the network counts as up.
pub open spec fn up_before_last(ticks: Seq<(ProbeOutcome, Timestamp)>) -> bool {
    ticks.len() < 2 || ticks[ticks.len() - 2].0.reachable()
}

/// How many times the outcomes go from reachable (or the start) to unreachable.
pub open spec fn down_edges(ticks: Seq<(ProbeOutcome, Timestamp)>) -> nat
    decreases ticks.len(),
{
    if ticks.len() == 0 {
        0
    } else {
        down_edges(ticks.drop_last()) + if up_before_last(ticks) && !ticks.last().0.reachable() {
            1nat
        } else {
            0nat
        }
    }
}

/// How many times the outcomes go from unreachable to reachable.
pub open spec fn up_edges(ticks: Seq<(ProbeOutcome, Timestamp)>) -> nat
    decreases ticks.len(),
{
    if ticks.len() == 0 {
        0
    } else {
        up_edges(ticks.drop_last()) + if !up_before_last(ticks) && ticks.last().0.reachable() {
            1nat
        } else {
            0nat
        }
    }
}

proof fn lemma_counts_push(es: Seq<LogEntry>, e: LogEntry)
    ensures
        starts(es.push(e)) == starts(es) + if e is OutageStart { 1nat } else { 0nat },
        ends(es.push(e)) == ends(es) + if e is OutageEnd { 1nat } else { 0nat },
{
    assert(es.push(e).drop_last() =~= es);
}

proof fn lemma_run_shape(m: MonitorModel, ticks: Seq<(ProbeOutcome, Timestamp)>)
    requires
        m.up,
    ensures
        run(m, ticks).0.up == (ticks.len() == 0 || ticks.last().0.reachable()),
        starts(run(m, ticks).1) == down_edges(ticks),
        ends(run(m, ticks).1) == up_edges(ticks),
        forall|k: int|
            0 <= k < run(m, ticks).1.len() ==> ((#[trigger] run(m, ticks).1[k]) is OutageStart
                <==> k % 2 == 0),
        run(m, ticks).1.len() % 2 == 0 <==> run(m, ticks).0.up,
    decreases ticks.len(),
{
    if ticks.len() > 0 {
        let p = ticks.drop_last();
        lemma_run_shape(m, p);
        let before = run(m, p);
        assert(before.0.up == up_before_last(ticks)) by {
            if p.len() > 0 {
                assert(p.last() == ticks[ticks.len() - 2]);
            }
        }
        let step = next(before.0, ticks.last().0.reachable(), ticks.last().1);
        if let Some(e) = step.1 {
            lemma_counts_push(before.1, e);
            assert forall|k: int| 0 <= k < before.1.push(e).len() implies (
            #[trigger] before.1.push(e)[k] is OutageStart <==> k % 2 == 0) by {
                if k < before.1.len() {
                    assert(before.1.push(e)[k] == before.1[k]);
                }
            }
        }
    }
}

/// The records of a run from an Up state start as many outages as the
/// outcomes have edges from reachable to unreachable, end as many as they
/// have edges back, and alternate strictly, outage start first.
pub proof fn lemma_records_follow_edges(m: MonitorModel, ticks: Seq<(ProbeOutcome, Timestamp)>)
    requires
        m.up,
    ensures
        starts(run(m, ticks).1) == down_edges(ticks),
        ends(run(m, ticks).1) == up_edges(ticks),
        forall|k: int|
            0 <= k < run(m, ticks).1.len() ==> ((#[trigger] run(m, ticks).1[k]) is OutageStart
                <==> k % 2 == 0),
{
    lemma_run_shape(m, ticks);
}

/// From an Up state, a run of unreachable outcomes, however long, logs one
/// record: the start of the outage at the first of them.
pub proof fn lemma_outage_logged_once(m: MonitorModel, ticks: Seq<(ProbeOutcome, Timestamp)>)
    requires
        m.up,
        ticks.len() > 0,
        forall|i: int| 0 <= i < ticks.len() ==> !(#[trigger] ticks[i]).0.reachable(),
    ensures
        run(m, ticks).1 == seq![LogEntry::OutageStart(ticks[0].1)],
        run(m, ticks).0 == (MonitorModel { up: false, since: ticks[0].1 }),
    decreases ticks.len(),
{
    let p = ticks.drop_last();
    if p.len() > 0 {
        lemma_outage_logged_once(m, p);
        assert(p[0] == ticks[0]);
    } else {
        assert(run(m, p).1 =~= Seq::<LogEntry>::empty());
        assert(seq![LogEntry::OutageStart(ticks[0].1)] =~= Seq::<LogEntry>::empty().push(
            LogEntry::OutageStart(ticks[0].1),
        ));
    }
}

/// From an Up state, a run of reachable outcomes, however long, logs nothing
/// and leaves the state as it was.
pub proof fn lemma_all_reachable_logs_nothing(m: MonitorModel, ticks: Seq<(ProbeOutcome, Timestamp)>)
    requires
        m.up,
        forall|i: int| 0 <= i < ticks.len() ==> (#[trigger] ticks[i]).0.reachable(),
    ensures
        run(m, ticks).0 == m,
        run(m, ticks).1 == Seq::<LogEntry>::empty(),
    decreases ticks.len(),
{
    if ticks.len() > 0 {
        lemma_all_reachable_logs_nothing(m, ticks.drop_last());
    }
}

/// On recovery the recorded duration is the recovery instant minus the
/// instant the outage began, exactly: not negative when the clock did not go
/// back, and zero only when the two instants coincide.
pub proof fn lemma_recovery_duration(m: MonitorModel, now: Timestamp)
    requires
        !m.up,
        m.since.wf(),
        now.wf(),
    ensures
        next(m, true, now).1 == Some(LogEntry::OutageEnd(span(m.since, now))),
        span(m.since, now).total() == now.total() - m.since.total(),
        span(m.since, now).wf(),
        now.total() >= m.since.total() ==> span(m.since, now).total() >= 0,
        span(m.since, now).total() == 0 <==> now.total() == m.since.total(),
{
    let ns = NANOS_PER_SEC as int;
    let d = now.total() - m.since.total();
    assert(-(MAX_SPAN_SECS as int) * ns < d < MAX_SPAN_SECS as int * ns) by (nonlinear_arith)
        requires
            d == now.total() - m.since.total(),
            ns == NANOS_PER_SEC as int,
            m.since.wf(),
            now.wf(),
    ;
    vstd::arithmetic::div_mod::lemma_fundamental_div_mod(d, ns);
    vstd::arithmetic::div_mod::lemma_mod_bound(d, ns);
    let q = d / ns;
    let r = d % ns;
    assert(-(MAX_SPAN_SECS as int) <= q <= MAX_SPAN_SECS as int) by (nonlinear_arith)
        requires
            d == ns * q + r,
            0 <= r < ns,
            ns == 1_000_000_000,
            -(MAX_SPAN_SECS as int) * ns < d < MAX_SPAN_SECS as int * ns,
    ;
    assert(span(m.since, now).total() == q * ns + r) by (nonlinear_arith)
        requires
            span(m.since, now).secs == q,
            span(m.since, now).nanos == r,
            span(m.since, now).total() == span(m.since, now).secs as int * ns
                + span(m.since, now).nanos as int,
    ;
    assert(q * ns == ns * q) by (nonlinear_arith);
}

/// The instant that a record opening an outage carries.
pub open spec fn start_instant(e: LogEntry) -> Timestamp {
    match e {
        LogEntry::OutageStart(t) => t,
        LogEntry::OutageEnd(_) => Timestamp { secs: 0, nanos: 0 },
    }
}

/// Whether the instants of the outcomes never go back.
pub open spec fn nondecreasing(ticks: Seq<(ProbeOutcome, Timestamp)>) -> bool {
    forall|i: int, j: int|
        0 <= i <= j < ticks.len() ==> (#[trigger] ticks[i].1).total() <= (#[trigger] ticks[j].1).total()
}

proof fn lemma_run_durations(m: MonitorModel, ticks: Seq<(ProbeOutcome, Timestamp)>)
    requires
        m.up,
        m.since.wf(),
        forall|i: int| 0 <= i < ticks.len() ==> (#[trigger] ticks[i]).1.wf(),
    ensures
        run(m, ticks).0.since.wf(),
        !run(m, ticks).0.up ==> run(m, ticks).1.len() > 0 && run(m, ticks).1.last()
            == LogEntry::OutageStart(run(m, ticks).0.since),
        !run(m, ticks).0.up ==> exists|i: int|
            0 <= i < ticks.len() && run(m, ticks).0.since == (#[trigger] ticks[i]).1,
        forall|k: int|
            0 <= k < run(m, ticks).1.len() && (#[trigger] run(m, ticks).1[k]) is OutageEnd ==> k
                > 0 && run(m, ticks).1[k - 1] is OutageStart && exists|i: int, j: int|
                0 <= i < j < ticks.len() && start_instant(run(m, ticks).1[k - 1]) == (
                #[trigger] ticks[i]).1 && run(m, ticks).1[k] == LogEntry::OutageEnd(
                span(ticks[i].1, (#[trigger] ticks[j]).1),
            ),
    decreases ticks.len(),
{
    if ticks.len() > 0 {
        let p = ticks.drop_last();
        assert forall|i: int| 0 <= i < p.len() implies (#[trigger] p[i]).1.wf() by {
            assert(p[i] == ticks[i]);
        }
        lemma_run_durations(m, p);
        let before = run(m, p);
        let n = ticks.len() - 1;
        let step = next(before.0, ticks.last().0.reachable(), ticks.last().1);
        assert(forall|i: int| 0 <= i < p.len() ==> p[i] == ticks[i]);
        if !before.0.up {
            let i0 = choose|i: int| 0 <= i < p.len() && before.0.since == (#[trigger] p[i]).1;
            assert(ticks[i0].1 == before.0.since);
        }
        if let Some(e) = step.1 {
            let es = before.1.push(e);
            assert forall|k: int| 0 <= k < es.len() && (#[trigger] es[k]) is OutageEnd implies k > 0
                && es[k - 1] is OutageStart && exists|i: int, j: int|
                0 <= i < j < ticks.len() && start_instant(es[k - 1]) == (#[trigger] ticks[i]).1
                    && es[k] == LogEntry::OutageEnd(span(ticks[i].1, (#[trigger] ticks[j]).1)) by {
                if k < before.1.len() {
                    assert(es[k] == before.1[k]);
                    assert(es[k - 1] == before.1[k - 1]);
                    let (i1, j1) = choose|i: int, j: int|
                        0 <= i < j < p.len() && start_instant(before.1[k - 1]) == (#[trigger] p[i]).1
                            && before.1[k] == LogEntry::OutageEnd(span(p[i].1, (#[trigger] p[j]).1));
                    assert(ticks[i1] == p[i1] && ticks[j1] == p[j1]);
                } else {
                    let i0 = choose|i: int| 0 <= i < p.len() && before.0.since == (#[trigger] p[i]).1;
                    assert(ticks[i0].1 == before.0.since);
                    assert(es[k - 1] == before.1.last());
                    assert(0 <= i0 < n < ticks.len());
                }
            }
        }
    }
}

/// In a run from an Up state, each record that closes an outage directly
/// follows the record that opened it, and its duration is the instant of a
/// later reachable probe minus that opening instant, exactly; when the
/// instants never go back, no recorded duration is negative.
pub proof fn lemma_run_durations_exact(m: MonitorModel, ticks: Seq<(ProbeOutcome, Timestamp)>)
    requires
        m.up,
        m.since.wf(),
        forall|i: int| 0 <= i < ticks.len() ==> (#[trigger] ticks[i]).1.wf(),
    ensures
        forall|k: int|
            0 <= k < run(m, ticks).1.len() && (#[trigger] run(m, ticks).1[k]) is OutageEnd ==> k
                > 0 && run(m, ticks).1[k - 1] is OutageStart && exists|i: int, j: int|
                0 <= i < j < ticks.len() && start_instant(run(m, ticks).1[k - 1]) == (
                #[trigger] ticks[i]).1 && run(m, ticks).1[k] == LogEntry::OutageEnd(
                span(ticks[i].1, (#[trigger] ticks[j]).1),
            ) && span(ticks[i].1, ticks[j].1).total() == ticks[j].1.total() - ticks[i].1.total(),
        nondecreasing(ticks) ==> forall|k: int|
            0 <= k < run(m, ticks).1.len() && (#[trigger] run(m, ticks).1[k]) is OutageEnd
                ==> run(m, ticks).1[k]->OutageEnd_0.total() >= 0,
{
    lemma_run_durations(m, ticks);
    let es = run(m, ticks).1;
    assert forall|k: int| 0 <= k < es.len() && (#[trigger] es[k]) is OutageEnd implies k > 0
        && es[k - 1] is OutageStart && exists|i: int, j: int|
        0 <= i < j < ticks.len() && start_instant(es[k - 1]) == (#[trigger] ticks[i]).1 && es[k]
            == LogEntry::OutageEnd(span(ticks[i].1, (#[trigger] ticks[j]).1)) && span(
            ticks[i].1,
            ticks[j].1,
        ).total() == ticks[j].1.total() - ticks[i].1.total() by {
        let (i1, j1) = choose|i: int, j: int|
            0 <= i < j < ticks.len() && start_instant(es[k - 1]) == (#[trigger] ticks[i]).1 && es[k]
                == LogEntry::OutageEnd(span(ticks[i].1, (#[trigger] ticks[j]).1));
        lemma_recovery_duration(MonitorModel { up: false, since: ticks[i1].1 }, ticks[j1].1);
    }
    if nondecreasing(ticks) {
        assert forall|k: int| 0 <= k < es.len() && (#[trigger] es[k]) is OutageEnd implies es[k]->OutageEnd_0.total()
            >= 0 by {
            let (i1, j1) = choose|i: int, j: int|
                0 <= i < j < ticks.len() && start_instant(es[k - 1]) == (#[trigger] ticks[i]).1
                    && es[k] == LogEntry::OutageEnd(span(ticks[i].1, (#[trigger] ticks[j]).1));
            lemma_recovery_duration(MonitorModel { up: false, since: ticks[i1].1 }, ticks[j1].1);
            assert(ticks[i1].1.total() <= ticks[j1].1.total());
        }
    }
}

/// Replays `ticks` while each append to the log either reaches it
/// (`delivered[i]`) or is lost: the state follows the outcomes alone, and the
/// log holds the records whose appends went through.
pub open spec fn run_with_sink(
    m: MonitorModel,
    ticks: Seq<(ProbeOutcome, Timestamp)>,
    delivered: Seq<bool>,
) -> (MonitorModel, Seq<LogEntry>)
    decreases ticks.len(),
{
    if ticks.len() == 0 {
        (m, Seq::empty())
    } else {
        let before = run_with_sink(m, ticks.drop_last(), delivered);
        let step = next(before.0, ticks.last().0.reachable(), ticks.last().1);
        match step.1 {
            Some(e) => if delivered[ticks.len() - 1] {
                (step.0, before.1.push(e))
            } else {
                (step.0, before.1)
            },
            None => (step.0, before.1),
        }
    }
}

/// Lost appends to the log change nothing in the state: after any pattern of
/// failed writes the monitor is where it would be had all gone through, so
/// the next outcome brings the same transition and the same record.
pub proof fn lemma_lost_writes_keep_state(
    m: MonitorModel,
    ticks: Seq<(ProbeOutcome, Timestamp)>,
    delivered: Seq<bool>,
    outcome: ProbeOutcome,
    now: Timestamp,
)
    requires
        delivered.len() == ticks.len(),
    ensures
        run_with_sink(m, ticks, delivered).0 == run(m, ticks).0,
        next(run_with_sink(m, ticks, delivered).0, outcome.reachable(), now) == next(
            run(m, ticks).0,
            outcome.reachable(),
            now,
        ),
{
    lemma_sink_state(m, ticks, delivered);
}

proof fn lemma_sink_state(m: MonitorModel, ticks: Seq<(ProbeOutcome, Timestamp)>, delivered: Seq<bool>)
    ensures
        run_with_sink(m, ticks, delivered).0 == run(m, ticks).0,
    decreases ticks.len(),
{
    if ticks.len() > 0 {
        lemma_sink_state(m, ticks.drop_last(), delivered);
    }
}

} // verus!
