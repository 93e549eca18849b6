use inet_monitor::clock::{elapsed_between, Elapsed, Timestamp};
use inet_monitor::monitor::{
    header_line, render_log, InternetMonitor, LogEntry, MonitorError, ProbeOutcome,
};
use inet_monitor::probe::{pick_address, IpAddress, SKIPPED_ADDRESSES};

fn at(secs: i64, nanos: u32) -> Timestamp {
    Timestamp::from_parts(secs, nanos).unwrap()
}

fn down() -> ProbeOutcome {
    ProbeOutcome::Unreachable(MonitorError::Probe("timed out".to_string()))
}

fn up() -> ProbeOutcome {
    ProbeOutcome::Reachable
}

fn full_log(ticks: &Vec<(ProbeOutcome, Timestamp)>) -> String {
    let mut monitor = InternetMonitor::starting_at(at(1_600_000_000, 0));
    let entries = monitor.replay(ticks);
    let mut text = header_line();
    text.push_str(&render_log(&entries));
    text
}

#[test]
fn outage_scenario_logs_one_line() {
    let ticks = vec![
        (up(), at(1_700_000_000, 0)),
        (down(), at(1_700_000_001, 0)),
        (down(), at(1_700_000_002, 0)),
        (up(), at(1_700_000_006, 250_000_000)),
    ];
    assert_eq!(
        full_log(&ticks),
        "Event,    Time,   Duration\nInternet unavailable,  2023-11-14 22:13:21 UTC, PT5.25S\n"
    );
}

#[test]
fn all_reachable_logs_header_only() {
    for n in [0usize, 1, 7] {
        let ticks: Vec<(ProbeOutcome, Timestamp)> =
            (0..n).map(|i| (up(), at(1_700_000_000 + i as i64, 0))).collect();
        assert_eq!(full_log(&ticks), "Event,    Time,   Duration\n");
    }
}

#[test]
fn constructor_starts_up_and_logs_nothing() {
    let m = InternetMonitor::starting_at(at(42, 7));
    assert!(m.is_inet_available());
    assert_eq!(m.last_disconnect_time(), at(42, 7));
    let now = InternetMonitor::new();
    assert!(now.is_inet_available());
    assert!(now.last_disconnect_time().secs > 1_600_000_000);
}

#[test]
fn first_outcome_unreachable_is_an_edge() {
    let mut m = InternetMonitor::starting_at(at(0, 0));
    let e = m.observe(&down(), at(10, 0));
    assert_eq!(e, Some(LogEntry::OutageStart(at(10, 0))));
    assert!(!m.is_inet_available());
}

#[test]
fn long_outage_logs_one_start() {
    let mut m = InternetMonitor::starting_at(at(0, 0));
    let ticks: Vec<(ProbeOutcome, Timestamp)> =
        (0..25).map(|i| (down(), at(100 + i as i64, 0))).collect();
    let entries = m.replay(&ticks);
    assert_eq!(entries, vec![LogEntry::OutageStart(at(100, 0))]);
    assert!(!m.is_inet_available());
    assert_eq!(m.last_disconnect_time(), at(100, 0));
}

#[test]
fn records_alternate_with_edges() {
    let pattern = [true, false, false, true, true, false, true, false, false, false, true, false];
    let ticks: Vec<(ProbeOutcome, Timestamp)> = pattern
        .iter()
        .enumerate()
        .map(|(i, r)| (if *r { up() } else { down() }, at(1_000 + i as i64, 0)))
        .collect();
    let mut m = InternetMonitor::starting_at(at(999, 0));
    let entries = m.replay(&ticks);
    assert_eq!(
        entries,
        vec![
            LogEntry::OutageStart(at(1_001, 0)),
            LogEntry::OutageEnd(Elapsed { secs: 2, nanos: 0 }),
            LogEntry::OutageStart(at(1_005, 0)),
            LogEntry::OutageEnd(Elapsed { secs: 1, nanos: 0 }),
            LogEntry::OutageStart(at(1_007, 0)),
            LogEntry::OutageEnd(Elapsed { secs: 3, nanos: 0 }),
            LogEntry::OutageStart(at(1_011, 0)),
        ]
    );
    assert!(!m.is_inet_available());
}

#[test]
fn recovery_duration_is_exact() {
    let mut m = InternetMonitor::starting_at(at(0, 0));
    m.observe(&down(), at(10, 500_000_000));
    let e = m.observe(&up(), at(12, 250_000_000));
    assert_eq!(e, Some(LogEntry::OutageEnd(Elapsed { secs: 1, nanos: 750_000_000 })));
    assert_eq!(e.unwrap().render(), "PT1.75S\n");
}

#[test]
fn recovery_at_same_instant_is_zero() {
    let mut m = InternetMonitor::starting_at(at(0, 0));
    m.observe(&down(), at(10, 5));
    let e = m.observe(&up(), at(10, 5)).unwrap();
    assert_eq!(e, LogEntry::OutageEnd(Elapsed { secs: 0, nanos: 0 }));
    assert_eq!(e.render(), "P0D\n");
}

#[test]
fn clock_going_back_gives_negative_span() {
    let e = elapsed_between(&at(12, 250_000_000), &at(10, 500_000_000));
    assert_eq!(e, Elapsed { secs: -2, nanos: 250_000_000 });
    assert_eq!(LogEntry::OutageEnd(e).render(), "-PT1.75S\n");
}

#[test]
fn start_entry_text() {
    let e = LogEntry::OutageStart(at(1_700_000_000, 250_000_000));
    assert_eq!(e.render(), "Internet unavailable,  2023-11-14 22:13:20.250 UTC, ");
}

#[test]
fn lost_write_does_not_disturb_tracking() {
    let mut m = InternetMonitor::starting_at(at(0, 0));
    let start = m.observe(&down(), at(5, 0));
    assert!(start.is_some());
    // the append of this record fails: the record is dropped, the state stays
    drop(start);
    assert!(!m.is_inet_available());
    assert_eq!(m.observe(&down(), at(6, 0)), None);
    assert_eq!(
        m.observe(&up(), at(8, 0)),
        Some(LogEntry::OutageEnd(Elapsed { secs: 3, nanos: 0 }))
    );
    assert!(m.is_inet_available());
}

#[test]
fn repeated_outcomes_log_nothing() {
    let mut m = InternetMonitor::starting_at(at(0, 0));
    assert_eq!(m.observe(&up(), at(1, 0)), None);
    assert_eq!(m.observe(&up(), at(2, 0)), None);
    m.observe(&down(), at(3, 0));
    assert_eq!(m.observe(&down(), at(4, 0)), None);
}

#[test]
fn check_connected_uses_the_clock() {
    let mut m = InternetMonitor::starting_at(at(0, 0));
    match m.check_connected(&down()) {
        Some(LogEntry::OutageStart(t)) => assert!(t.secs > 1_600_000_000),
        other => panic!("unexpected {:?}", other),
    }
    assert!(!m.is_inet_available());
}

#[test]
fn timestamp_bounds() {
    assert!(Timestamp::from_parts(0, 999_999_999).is_some());
    assert!(Timestamp::from_parts(0, 1_000_000_000).is_none());
    assert!(Timestamp::from_parts(8_210_266_876_799, 0).is_some());
    assert!(Timestamp::from_parts(8_210_266_876_800, 0).is_none());
    assert!(Timestamp::from_parts(-8_334_601_228_800, 0).is_some());
    assert!(Timestamp::from_parts(-8_334_601_228_801, 0).is_none());
}

#[test]
fn extreme_instants_format_and_subtract() {
    let lo = at(-8_334_601_228_800, 0);
    let hi = at(8_210_266_876_799, 999_999_999);
    let e = elapsed_between(&lo, &hi);
    assert_eq!(e, Elapsed { secs: 16_544_868_105_599, nanos: 999_999_999 });
    let s = LogEntry::OutageStart(hi).render();
    assert!(s.starts_with("Internet unavailable,  +262142-12-31 23:59:59.999999999 UTC"));
    let s = LogEntry::OutageStart(lo).render();
    assert!(s.starts_with("Internet unavailable,  -262143-01-01 00:00:00 UTC"));
}

#[test]
fn second_address_is_probed() {
    let a = IpAddress::V6([0x2a00, 0x1450, 0, 0, 0, 0, 0, 0x2004]);
    let b = IpAddress::V4([142, 250, 185, 100]);
    assert_eq!(pick_address(&vec![a, b], SKIPPED_ADDRESSES), Ok(b));
    assert_eq!(pick_address(&vec![a, b], 0), Ok(a));
}

#[test]
fn too_few_addresses_is_a_resolution_error() {
    let a = IpAddress::V4([1, 2, 3, 4]);
    assert!(matches!(pick_address(&vec![a], SKIPPED_ADDRESSES), Err(MonitorError::Resolution(_))));
    assert!(matches!(pick_address(&vec![], 0), Err(MonitorError::Resolution(_))));
}

#[test]
fn header_text() {
    assert_eq!(header_line(), "Event,    Time,   Duration\n");
}
