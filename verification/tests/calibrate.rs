use tscns::calibrator::{MAX_INTERVAL_NANOS, SLACK_NANOS};
use tscns::{
    calibrate, init, init_wait_is_over, pass, read_nanos, start, CalibrationState, Calibrator,
    ParamStore, Params, CALIBRATE_INTERVAL_NANOS, INIT_CALIBRATE_NANOS, SLOPE_ONE,
};

const C0: u64 = 1_000_000;
const N0: u64 = 1_700_000_000_000_000_000;

/// A model started on a counter that ticks once per nanosecond.
fn started_at_one_per_nano(store: &ParamStore) -> Calibrator {
    init(
        store,
        CALIBRATE_INTERVAL_NANOS,
        (C0, N0),
        (C0 + INIT_CALIBRATE_NANOS, N0 + INIT_CALIBRATE_NANOS),
    )
    .unwrap()
}

/// A model brought, by one pass, into a state with an error on record.
fn with_error_on_record(store: &ParamStore) -> Calibrator {
    let mut cal = init(store, 3_000_000_000, (0, 10_000_000_000), (1_000, 10_000_001_000)).unwrap();
    assert!(calibrate(&mut cal, store, (3_000_000_000, 12_997_000_000)));
    cal
}

#[test]
fn defaults() {
    assert_eq!(INIT_CALIBRATE_NANOS, 20_000_000);
    assert_eq!(CALIBRATE_INTERVAL_NANOS, 3_000_000_000);
    assert_eq!(SLACK_NANOS, 1_000);
    assert_eq!(MAX_INTERVAL_NANOS, 1u64 << 62);
}

#[test]
fn bootstrap_on_a_counter_of_one_cycle_per_nanosecond() {
    let store = ParamStore::new();
    let cal = started_at_one_per_nano(&store);
    let s = cal.state();
    assert_eq!(
        s,
        CalibrationState {
            base_tsc: C0,
            base_ns: N0,
            ns_per_tsc: SLOPE_ONE,
            base_ns_err: 0,
            next_calibrate_tsc: C0 + 2_999_999_000,
            interval_ns: 3_000_000_000,
        }
    );
    let ns_per_tsc = s.ns_per_tsc as f64 / SLOPE_ONE as f64;
    assert!((ns_per_tsc - 1.0).abs() < 1e-6);
    assert_eq!(cal.params(), Params { base_tsc: C0, base_ns: N0, ns_per_tsc: SLOPE_ONE });
    assert_eq!(store.try_load(), Some(cal.params()));
    for elapsed in [0u64, 1, 999, 20_000_000, 2_999_999_999] {
        assert_eq!(read_nanos(&cal.params(), C0 + elapsed), N0 + elapsed);
    }
}

#[test]
fn bootstrap_on_a_slow_counter() {
    // 24 MHz: 480 000 cycles in 20 ms.
    let store = ParamStore::new();
    let cal = init(&store, 3_000_000_000, (0, 1_000), (480_000, 20_001_000)).unwrap();
    let s = cal.state();
    assert_eq!(s.ns_per_tsc, 375_299_968_947_541_333);
    assert_eq!(s.next_calibrate_tsc, 71_999_976);
    assert_eq!(s.base_ns_err, 0);
}

#[test]
fn bootstrap_refuses_an_interval_out_of_range() {
    let store = ParamStore::new();
    assert!(init(&store, 1_000, (0, 1), (1, 2)).is_none());
    assert!(init(&store, 0, (0, 1), (1, 2)).is_none());
    assert!(init(&store, MAX_INTERVAL_NANOS + 1, (0, 1), (1, 2)).is_none());
    assert!(init(&store, u64::MAX, (0, 1), (1, 2)).is_none());
    let longest = init(&store, MAX_INTERVAL_NANOS, (0, 1), (1, 2)).unwrap();
    assert_eq!(longest.state().next_calibrate_tsc, 4_611_686_018_427_386_904);
    let shortest = init(&store, 1_001, (0, 1), (1, 2)).unwrap();
    assert_eq!(shortest.state().next_calibrate_tsc, 1);
}

#[test]
fn bootstrap_refuses_a_silent_clock() {
    let store = ParamStore::new();
    assert!(init(&store, 3_000_000_000, (10, 0), (20, 10)).is_none());
    assert!(init(&store, 3_000_000_000, (10, 0), (20, 0)).is_none());
    assert!(init(&store, 3_000_000_000, (10, 5), (20, 0)).is_none());
}

#[test]
fn bootstrap_refuses_pairs_that_have_not_moved_on() {
    let store = ParamStore::new();
    assert!(init(&store, 3_000_000_000, (10, 5), (10, 15)).is_none());
    assert!(init(&store, 3_000_000_000, (10, 5), (9, 15)).is_none());
    assert!(init(&store, 3_000_000_000, (10, 5), (20, 5)).is_none());
    assert!(init(&store, 3_000_000_000, (10, 5), (20, 4)).is_none());
}

#[test]
fn bootstrap_refuses_a_slope_out_of_range() {
    let store = ParamStore::new();
    // 2048 ns per cycle and more do not fit.
    assert!(init(&store, 3_000_000_000, (0, 1), (1, 1 + 2_048)).is_none());
    assert!(init(&store, 3_000_000_000, (0, 1), (1, 1 + 4_096)).is_none());
    let steep = init(&store, 3_000_000_000, (0, 1), (1, 2_048)).unwrap();
    assert_eq!(steep.state().ns_per_tsc, 2_047 * SLOPE_ONE);
    // Less than 2^-53 ns per cycle rounds down to a standing clock.
    assert!(init(&store, 3_000_000_000, (0, 1), (1 << 54, 2)).is_none());
    // Two nanoseconds per cycle leave no whole cycle in 1 ns.
    assert!(init(&store, 1_001, (0, 1), (1, 3)).is_none());
}

#[test]
fn refused_bootstrap_publishes_nothing() {
    let store = ParamStore::new();
    assert!(init(&store, 3_000_000_000, (10, 0), (20, 10)).is_none());
    assert_eq!(store.try_load(), Some(Params { base_tsc: 0, base_ns: 0, ns_per_tsc: 0 }));
}

#[test]
fn next_pass_is_held_at_the_top_of_u64() {
    let store = ParamStore::new();
    let cal = init(&store, 3_000_000_000, (u64::MAX - 5, 1), (u64::MAX, 6)).unwrap();
    assert_eq!(cal.state().next_calibrate_tsc, u64::MAX);
}

#[test]
fn wait_between_the_first_two_pairs() {
    assert!(!init_wait_is_over(1_000, 20_000_000, 1_000));
    assert!(!init_wait_is_over(1_000, 20_000_000, 20_000_999));
    assert!(init_wait_is_over(1_000, 20_000_000, 20_001_000));
    assert!(init_wait_is_over(1_000, 20_000_000, 20_001_001));
    assert!(init_wait_is_over(1_000, 0, 1_000));
    // A silent clock never ends the wait.
    assert!(!init_wait_is_over(1_000, 20_000_000, 0));
    assert!(!init_wait_is_over(u64::MAX, 1, u64::MAX));
}

#[test]
fn pass_is_due_from_the_appointed_cycle() {
    let store = ParamStore::new();
    let cal = started_at_one_per_nano(&store);
    let due = cal.state().next_calibrate_tsc;
    assert!(!cal.is_due(0));
    assert!(!cal.is_due(due - 1));
    assert!(cal.is_due(due));
    assert!(cal.is_due(u64::MAX));
}

#[test]
fn premature_passes_change_nothing() {
    let store = ParamStore::new();
    let mut cal = started_at_one_per_nano(&store);
    let before = cal.state();
    let published = store.try_load();
    for i in 0..1_000u64 {
        let cycles = C0 + INIT_CALIBRATE_NANOS + i * 100;
        assert!(!calibrate(&mut cal, &store, (cycles, N0 + (cycles - C0))));
        assert_eq!(cal.state(), before);
    }
    assert!(!calibrate(&mut cal, &store, (before.next_calibrate_tsc - 1, N0 + 5_000_000_000)));
    assert_eq!(cal.state(), before);
    assert_eq!(store.try_load(), published);
}

#[test]
fn pass_with_a_silent_clock_changes_nothing() {
    let store = ParamStore::new();
    let mut cal = started_at_one_per_nano(&store);
    let before = cal.state();
    assert!(!calibrate(&mut cal, &store, (C0 + 3_000_000_000, 0)));
    assert_eq!(cal.state(), before);
    assert_eq!(cal.state().ns_per_tsc, SLOPE_ONE);
    assert_eq!(store.try_load(), Some(cal.params()));
}

#[test]
fn pass_on_a_clock_that_agrees_keeps_the_slope() {
    let store = ParamStore::new();
    let mut cal = started_at_one_per_nano(&store);
    assert!(calibrate(&mut cal, &store, (C0 + 3_000_000_000, N0 + 3_000_000_000)));
    assert_eq!(
        cal.state(),
        CalibrationState {
            base_tsc: C0 + 3_000_000_000,
            base_ns: N0 + 3_000_000_000,
            ns_per_tsc: SLOPE_ONE,
            base_ns_err: 0,
            next_calibrate_tsc: C0 + 5_999_999_000,
            interval_ns: 3_000_000_000,
        }
    );
    assert_eq!(store.try_load(), Some(cal.params()));
}

#[test]
fn drift_correction_after_the_counter_speeds_up() {
    let store = ParamStore::new();
    let mut cal = started_at_one_per_nano(&store);
    // From now on the counter makes 1.001 cycles per nanosecond. Three
    // seconds later the clock is 3 ms ahead of the reference.
    let cycles = C0 + 3_003_000_000;
    let reference = N0 + 3_000_000_000;
    assert!(cal.is_due(cycles));
    assert!(calibrate(&mut cal, &store, (cycles, reference)));
    let s = cal.state();
    assert_eq!(
        s,
        CalibrationState {
            base_tsc: cycles,
            // the clock does not jump: it goes on from what it showed
            base_ns: N0 + 3_003_000_000,
            // 0.998 ns per cycle: slow enough to lose, within the next
            // interval, the 3 ms and the 3 ms more that would have come
            ns_per_tsc: 8_989_184_856_231_510,
            base_ns_err: 3_000_000,
            next_calibrate_tsc: 6_010_011_022,
            interval_ns: 3_000_000_000,
        }
    );
    assert_eq!(store.try_load(), Some(cal.params()));
    assert_eq!(read_nanos(&cal.params(), cycles), reference + 3_000_000);
    // One interval later the error is all but gone.
    let later = read_nanos(&cal.params(), cycles + 3_003_000_000);
    assert_eq!(later, reference + 3_000_000_000 - 6_001);
}

#[test]
fn pass_on_a_clock_that_is_behind_keeps_the_slope() {
    let store = ParamStore::new();
    let mut cal = started_at_one_per_nano(&store);
    // The counter has made fewer cycles than nanoseconds have passed.
    let cycles = C0 + 3_000_000_000;
    assert!(calibrate(&mut cal, &store, (cycles, N0 + 3_000_500_000)));
    assert_eq!(
        cal.state(),
        CalibrationState {
            base_tsc: cycles,
            base_ns: N0 + 3_000_000_000,
            ns_per_tsc: SLOPE_ONE,
            base_ns_err: 0,
            next_calibrate_tsc: cycles + 2_999_999_000,
            interval_ns: 3_000_000_000,
        }
    );
}

#[test]
fn pass_with_a_shrinking_error_raises_the_slope() {
    let store = ParamStore::new();
    let mut cal = with_error_on_record(&store);
    let s = cal.state();
    assert_eq!(s.base_ns_err, 3_000_000);
    assert_eq!(s.base_ns, 13_000_000_000);
    let cycles = s.next_calibrate_tsc;
    let shown = read_nanos(&cal.params(), cycles);
    // The clock is still ahead, but by 1 ms where it was 3 ms.
    assert!(calibrate(&mut cal, &store, (cycles, shown - 1_000_000)));
    let t = cal.state();
    assert_eq!(t.base_tsc, cycles);
    assert_eq!(t.base_ns, shown);
    assert_eq!(t.base_ns_err, 1_000_000);
    assert!(t.ns_per_tsc > s.ns_per_tsc);
    let elapsed = (shown - 1_000_000 - s.base_ns + 3_000_000) as u128;
    let expected = 1_000_000i128 - (2_000_000u128 * 3_000_000_000 / elapsed) as i128;
    let slope = s.ns_per_tsc as u128 * (3_000_000_000i128 - expected) as u128 / 3_000_000_000;
    assert_eq!(t.ns_per_tsc as u128, slope);
}

#[test]
fn pass_with_the_reference_behind_the_base_keeps_the_slope() {
    let store = ParamStore::new();
    let mut cal = init(&store, 3_000_000_000, (0, 10_000_000_000), (1_000, 10_000_001_000)).unwrap();
    assert!(calibrate(&mut cal, &store, (3_000_000_000, 9_000_000_000)));
    assert_eq!(
        cal.state(),
        CalibrationState {
            base_tsc: 3_000_000_000,
            base_ns: 13_000_000_000,
            ns_per_tsc: SLOPE_ONE,
            base_ns_err: 4_000_000_000,
            next_calibrate_tsc: 5_999_999_000,
            interval_ns: 3_000_000_000,
        }
    );
}

#[test]
fn pass_that_would_stop_the_clock_keeps_the_slope() {
    let store = ParamStore::new();
    let mut cal = init(&store, 3_000_000_000, (0, 10_000_000_000), (1_000, 10_000_001_000)).unwrap();
    // 2 s ahead after 4 s: 3.5 s would be expected at the next pass, more
    // than the interval has nanoseconds.
    assert!(calibrate(&mut cal, &store, (6_000_000_000, 14_000_000_000)));
    assert_eq!(
        cal.state(),
        CalibrationState {
            base_tsc: 6_000_000_000,
            base_ns: 16_000_000_000,
            ns_per_tsc: SLOPE_ONE,
            base_ns_err: 2_000_000_000,
            next_calibrate_tsc: 8_999_999_000,
            interval_ns: 3_000_000_000,
        }
    );
}

#[test]
fn pass_with_no_time_gone_keeps_the_slope() {
    let store = ParamStore::new();
    let mut cal = init(&store, 3_000_000_000, (0, 10_000_000_000), (1_000, 10_000_001_000)).unwrap();
    assert!(calibrate(&mut cal, &store, (3_000_000_000, 10_000_000_000)));
    let s = cal.state();
    assert_eq!(s.ns_per_tsc, SLOPE_ONE);
    assert_eq!(s.base_ns, 13_000_000_000);
    assert_eq!(s.base_ns_err, 3_000_000_000);
}

#[test]
fn next_pass_moves_on_with_every_pass() {
    let store = ParamStore::new();
    let mut cal = started_at_one_per_nano(&store);
    let mut reference = N0;
    for _ in 0..20 {
        let before = cal.state();
        let cycles = before.next_calibrate_tsc;
        reference += 3_000_000_000;
        assert!(calibrate(&mut cal, &store, (cycles, reference)));
        let after = cal.state();
        assert!(after.next_calibrate_tsc > before.next_calibrate_tsc);
        assert!(after.base_tsc >= before.base_tsc);
        assert!(after.ns_per_tsc > 0);
        assert_eq!(after.interval_ns, before.interval_ns);
    }
}

#[test]
fn clock_never_steps_back_over_reads_and_passes() {
    let store = ParamStore::new();
    let mut cal = started_at_one_per_nano(&store);
    let mut cycles = C0;
    let mut reference = N0;
    let mut last = 0;
    for round in 0..3_000u64 {
        // a counter that runs 0.1 % fast, and a jittery reference
        cycles += 10_010_000;
        reference += 10_000_000 + (round * 7_919) % 1_000;
        if cal.is_due(cycles) {
            let at_pass = read_nanos(&cal.params(), cycles);
            calibrate(&mut cal, &store, (cycles, reference));
            assert_eq!(read_nanos(&cal.params(), cycles), at_pass);
        }
        let ns = read_nanos(&store.try_load().unwrap(), cycles);
        assert!(ns >= last);
        last = ns;
    }
    assert!(cal.state().base_tsc > C0);
}

#[test]
fn counter_that_is_the_reference_clock() {
    // Without a cycle counter the reference clock stands in for it.
    let store = ParamStore::new();
    let cal = init(&store, CALIBRATE_INTERVAL_NANOS, (N0, N0), (N0 + 20_000_123, N0 + 20_000_123))
        .unwrap();
    assert_eq!(cal.state().ns_per_tsc, SLOPE_ONE);
    assert_eq!(SLOPE_ONE as f64 / cal.state().ns_per_tsc as f64, 1.0);
    for now in [N0, N0 + 1, N0 + 20_000_123, N0 + 86_400_000_000_000] {
        assert_eq!(read_nanos(&store.try_load().unwrap(), now), now);
    }
}

#[test]
fn started_model_passes_through_both_pairs() {
    let store = ParamStore::new();
    let pairs: [((u64, u64), (u64, u64)); 4] = [
        ((C0, N0), (C0 + 20_000_000, N0 + 20_000_000)),
        ((0, 1_000), (480_000, 20_001_000)),
        ((77, N0), (77 + 59_999_999, N0 + 20_000_003)),
        ((123, 456), (123 + 7, 456 + 13)),
    ];
    for (first, second) in pairs {
        let cal = init(&store, 3_000_000_000, first, second).unwrap();
        assert_eq!(read_nanos(&cal.params(), first.0), first.1);
        let at_second = read_nanos(&cal.params(), second.0);
        assert!(second.1 - 1 <= at_second && at_second <= second.1);
    }
}

#[test]
fn start_makes_what_init_publishes() {
    let store = ParamStore::new();
    let first = (C0, N0);
    let second = (C0 + 20_000_000, N0 + 20_000_000);
    let made = start(3_000_000_000, first, second).unwrap();
    let published = init(&store, 3_000_000_000, first, second).unwrap();
    assert_eq!(made.state(), published.state());
    assert_eq!(made.params(), Params { base_tsc: C0, base_ns: N0, ns_per_tsc: SLOPE_ONE });
    assert_eq!(store.try_load(), Some(made.params()));
    assert!(start(3_000_000_000, (10, 0), (20, 10)).is_none());
    assert!(start(1_000, first, second).is_none());
    assert!(start(3_000_000_000, second, first).is_none());
}

#[test]
fn pass_hands_out_the_parameters_to_publish() {
    let mut cal = start(3_000_000_000, (C0, N0), (C0 + 20_000_000, N0 + 20_000_000)).unwrap();
    let before = cal.state();
    // not due
    assert_eq!(pass(&mut cal, (C0 + 1_000, N0 + 1_000)), None);
    assert_eq!(cal.state(), before);
    // due, but the clock is silent
    assert_eq!(pass(&mut cal, (C0 + 3_003_000_000, 0)), None);
    assert_eq!(cal.state(), before);
    // due
    let publish = pass(&mut cal, (C0 + 3_003_000_000, N0 + 3_000_000_000));
    assert_eq!(
        publish,
        Some(Params {
            base_tsc: C0 + 3_003_000_000,
            base_ns: N0 + 3_003_000_000,
            ns_per_tsc: 8_989_184_856_231_510,
        })
    );
    assert_eq!(publish, Some(cal.params()));
    assert_eq!(cal.state().base_ns_err, 3_000_000);
    assert_eq!(cal.state().next_calibrate_tsc, 6_010_011_022);
}

#[test]
fn pass_and_calibrate_agree() {
    let store = ParamStore::new();
    let mut one = started_at_one_per_nano(&store);
    let mut other = start(
        CALIBRATE_INTERVAL_NANOS,
        (C0, N0),
        (C0 + INIT_CALIBRATE_NANOS, N0 + INIT_CALIBRATE_NANOS),
    )
    .unwrap();
    let mut cycles = C0;
    let mut reference = N0;
    for round in 0..40u64 {
        cycles += 1_000_000_000 + round * 1_000_003;
        reference += 1_000_000_000 - (round % 5) * 100_000;
        let publish = pass(&mut other, (cycles, reference));
        let committed = calibrate(&mut one, &store, (cycles, reference));
        assert_eq!(committed, publish.is_some());
        assert_eq!(one.state(), other.state());
        assert_eq!(store.try_load(), Some(other.params()));
    }
    assert!(one.state().base_tsc > C0);
}

#[test]
fn next_pass_stays_at_the_top_of_u64() {
    let mut cal = start(3_000_000_000, (u64::MAX - 5, 1), (u64::MAX, 6)).unwrap();
    assert_eq!(cal.state().next_calibrate_tsc, u64::MAX);
    assert!(pass(&mut cal, (u64::MAX, 10)).is_some());
    assert_eq!(cal.state().next_calibrate_tsc, u64::MAX);
    assert_eq!(cal.state().base_tsc, u64::MAX);
}
