//! The connectivity state machine: Up or Down, one transition per change of
//! probe outcome, and one log record per transition.
use crate::clock::{
    elapsed_between, format_delta, format_utc, span, utc_now, delta_text, utc_text, Elapsed,
    Timestamp,
};
use vstd::prelude::*;
use vstd::string::*;

verus! {

/// Why a probe, or the log around it, failed.
#[derive(Clone, Debug, PartialEq, Eq)]
pub enum MonitorError {
    /// The target's name resolved to too few addresses, or not at all.
    Resolution(String),
    /// The echo request got no reply in time, or could not be sent.
    Probe(String),
    /// An append to the log failed.
    LogWrite(String),
    /// The process could not start monitoring (privileges, log file).
    StartupFatal(String),
}

/// The result of one reachability probe.
#[derive(Clone, Debug, PartialEq, Eq)]
pub enum ProbeOutcome {
    Reachable,
    Unreachable(MonitorError),
}

impl ProbeOutcome {
    pub open spec fn reachable(&self) -> bool {
        self is Reachable
    }
}

/// A record for the log: the start of an outage, with its instant, or its
/// end, with how long it lasted.
#[derive(Clone, Copy, Debug, PartialEq, Eq)]
pub enum LogEntry {
    OutageStart(Timestamp),
    OutageEnd(Elapsed),
}

impl LogEntry {
    pub open spec fn wf(self) -> bool {
        match self {
            LogEntry::OutageStart(t) => t.wf(),
            LogEntry::OutageEnd(e) => e.wf(),
        }
    }

    /// The text appended to the log for this record: an outage start opens a
    /// line, the matching end closes it.
    pub open spec fn text(self) -> Seq<char> {
        match self {
            LogEntry::OutageStart(t) => "Internet unavailable,  "@ + utc_text(t.secs, t.nanos)
                + ", "@,
            LogEntry::OutageEnd(e) => delta_text(e.secs, e.nanos) + "\n"@,
        }
    }

    /// The text appended to the log for this record.
    pub fn render(&self) -> (r: String)
        requires
            self.wf(),
        ensures
            r@ == self.text(),
    {
        match self {
            LogEntry::OutageStart(t) => {
                let head = String::from_str("Internet unavailable,  ");
                let at = format_utc(t);
                let r = head.concat(at.as_str()).concat(", ");
                proof {
                    reveal_strlit("Internet unavailable,  ");
                    reveal_strlit(", ");
                }
                r
            },
            LogEntry::OutageEnd(e) => {
                let r = format_delta(e).concat("\n");
                proof {
                    reveal_strlit("\n");
                }
                r
            },
        }
    }
}

/// The first line of the log, written once when monitoring starts.
pub open spec fn header_text() -> Seq<char> {
    "Event,    Time,   Duration\n"@
}

/// The first line of the log, written once when monitoring starts.
pub fn header_line() -> (r: String)
    ensures
        r@ == header_text(),
{
    proof {
        reveal_strlit("Event,    Time,   Duration\n");
    }
    String::from_str("Event,    Time,   Duration\n")
}

/// What the monitor knows: whether the network is deemed up, and when the
/// latest outage began (the start of monitoring before the first one).
#[derive(Clone, Copy, Debug, PartialEq, Eq)]
pub struct MonitorModel {
    pub up: bool,
    pub since: Timestamp,
}

/// One transition: the new state, and the record it logs, if any.
pub open spec fn next(m: MonitorModel, reachable: bool, now: Timestamp) -> (MonitorModel, Option<LogEntry>) {
    if reachable {
        if m.up {
            (m, None)
        } else {
            (MonitorModel { up: true, since: m.since }, Some(LogEntry::OutageEnd(span(m.since, now))))
        }
    } else {
        if m.up {
            (MonitorModel { up: false, since: now }, Some(LogEntry::OutageStart(now)))
        } else {
            (m, None)
        }
    }
}

/// Tracks connectivity from one probe outcome per tick.
pub struct InternetMonitor {
    is_inet_available: bool,
    last_disconnect_time: Timestamp,
}

impl View for InternetMonitor {
    type V = MonitorModel;

    closed spec fn view(&self) -> MonitorModel {
        MonitorModel { up: self.is_inet_available, since: self.last_disconnect_time }
    }
}

impl InternetMonitor {
    pub closed spec fn wf(&self) -> bool {
        self.last_disconnect_time.wf()
    }

    /// A monitor that starts Up at the given instant.
    pub fn starting_at(now: Timestamp) -> (r: InternetMonitor)
        requires
            now.wf(),
        ensures
            r.wf(),
            r@ == (MonitorModel { up: true, since: now }),
    {
        InternetMonitor { is_inet_available: true, last_disconnect_time: now }
    }

    /// A monitor that starts Up now.
    pub fn new() -> (r: InternetMonitor)
        ensures
            r.wf(),
            r@.up,
            r@.since.wf(),
    {
        InternetMonitor::starting_at(utc_now())
    }

    /// Whether the network is deemed up.
    pub fn is_inet_available(&self) -> (r: bool)
        ensures
            r == self@.up,
    {
        self.is_inet_available
    }

    /// When the latest outage began (the start of monitoring before one).
    pub fn last_disconnect_time(&self) -> (r: Timestamp)
        ensures
            r == self@.since,
    {
        self.last_disconnect_time
    }

    /// Applies one probe outcome observed at `now` and returns the record to
    /// log, if the outcome changes the state.
    pub fn observe(&mut self, outcome: &ProbeOutcome, now: Timestamp) -> (r: Option<LogEntry>)
        requires
            old(self).wf(),
            now.wf(),
        ensures
            final(self).wf(),
            (final(self)@, r) == next(old(self)@, outcome.reachable(), now),
            r matches Some(e) ==> e.wf(),
    {
        match outcome {
            ProbeOutcome::Reachable => {
                if !self.is_inet_available {
                    self.is_inet_available = true;
                    Some(LogEntry::OutageEnd(elapsed_between(&self.last_disconnect_time, &now)))
                } else {
                    None
                }
            },
            ProbeOutcome::Unreachable(_) => {
                if self.is_inet_available {
                    self.is_inet_available = false;
                    self.last_disconnect_time = now;
                    Some(LogEntry::OutageStart(now))
                } else {
                    None
                }
            },
        }
    }

    /// Applies one probe outcome at the current instant of the system clock
    /// and returns the record to log, if the outcome changes the state.
    pub fn check_connected(&mut self, outcome: &ProbeOutcome) -> (r: Option<LogEntry>)
        requires
            old(self).wf(),
        ensures
            final(self).wf(),
            exists|now: Timestamp|
                now.wf() && #[trigger] next(old(self)@, outcome.reachable(), now) == (
                final(self)@,
                r,
            ),
            r matches Some(e) ==> e.wf(),
    {
        let now = utc_now();
        self.observe(outcome, now)
    }
}

/// The state and the records after a run of probe outcomes, each with the
/// instant it was observed, starting from `m`.
pub open spec fn run(m: MonitorModel, ticks: Seq<(ProbeOutcome, Timestamp)>) -> (MonitorModel, Seq<LogEntry>)
    decreases ticks.len(),
{
    if ticks.len() == 0 {
        (m, Seq::empty())
    } else {
        let before = run(m, ticks.drop_last());
        let step = next(before.0, ticks.last().0.reachable(), ticks.last().1);
        match step.1 {
            Some(e) => (step.0, before.1.push(e)),
            None => (step.0, before.1),
        }
    }
}

/// The log text that a sequence of records appends, in order.
pub open spec fn log_text(es: Seq<LogEntry>) -> Seq<char>
    decreases es.len(),
{
    if es.len() == 0 {
        Seq::empty()
    } else {
        log_text(es.drop_last()) + es.last().text()
    }
}

/// The log text that the records append, in order.
pub fn render_log(entries: &Vec<LogEntry>) -> (r: String)
    requires
        forall|k: int| 0 <= k < entries.len() ==> (#[trigger] entries@[k]).wf(),
    ensures
        r@ == log_text(entries@),
{
    let mut r = String::new();
    let mut i: usize = 0;
    while i < entries.len()
        invariant
            i <= entries.len(),
            forall|k: int| 0 <= k < entries.len() ==> (#[trigger] entries@[k]).wf(),
            r@ == log_text(entries@.subrange(0, i as int)),
        decreases entries.len() - i,
    {
        let piece = entries[i].render();
        r.append(piece.as_str());
        assert(entries@.subrange(0, i + 1).drop_last() =~= entries@.subrange(0, i as int));
        i += 1;
    }
    assert(entries@.subrange(0, entries.len() as int) =~= entries@);
    r
}

impl InternetMonitor {
    /// Applies the probe outcomes in order, each at its instant, and returns
    /// the records they log.
    pub fn replay(&mut self, ticks: &Vec<(ProbeOutcome, Timestamp)>) -> (r: Vec<LogEntry>)
        requires
            old(self).wf(),
            forall|k: int| 0 <= k < ticks.len() ==> (#[trigger] ticks@[k]).1.wf(),
        ensures
            final(self).wf(),
            (final(self)@, r@) == run(old(self)@, ticks@),
            forall|k: int| 0 <= k < r.len() ==> (#[trigger] r@[k]).wf(),
    {
        let ghost start = self@;
        let mut out: Vec<LogEntry> = Vec::new();
        let mut i: usize = 0;
        while i < ticks.len()
            invariant
                i <= ticks.len(),
                self.wf(),
                forall|k: int| 0 <= k < ticks.len() ==> (#[trigger] ticks@[k]).1.wf(),
                (self@, out@) == run(start, ticks@.subrange(0, i as int)),
                forall|k: int| 0 <= k < out.len() ==> (#[trigger] out@[k]).wf(),
            decreases ticks.len() - i,
        {
            assert(ticks@.subrange(0, i + 1).drop_last() =~= ticks@.subrange(0, i as int));
            let e = self.observe(&ticks[i].0, ticks[i].1);
            match e {
                Some(e) => out.push(e),
                None => {},
            }
            i += 1;
        }
        assert(ticks@.subrange(0, ticks.len() as int) =~= ticks@);
        out
    }
}

} // verus!
