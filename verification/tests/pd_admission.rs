use gateway_admission::pd_admission::{
    admission_wait, admission_window, admit_decode, begin_wait, set_pd_admission_wait_secs,
    wait_for_slot, Admission, PdAdmissionWait, Slot, WaitEvent, WaitState,
    DEFAULT_PD_ADMISSION_WAIT_SECS, NANOS_PER_SEC, SLOT_POLL_INTERVAL,
};

/// Runs a wait on a clock that moves only by sleeping. Gives the verdict, the
/// count that it reports, how long it took and how often it slept.
fn run(window: usize, wait: u128, in_flight: impl Fn(u128) -> usize) -> (Slot, usize, u128, u32) {
    let origin: u128 = 1_000;
    let mut now = origin;
    let mut sleeps = 0;
    let mut state = begin_wait(window);
    loop {
        let event = match state {
            WaitState::FirstRead | WaitState::Reread { .. } | WaitState::LastRead => {
                WaitEvent::InFlight(in_flight(now - origin))
            }
            WaitState::Arm | WaitState::CheckClock { .. } => WaitEvent::Clock(now),
            WaitState::Sleep { nanos, .. } => {
                now += nanos;
                sleeps += 1;
                WaitEvent::Slept
            }
            WaitState::Settled { slot, in_flight } => {
                return (slot, in_flight, now - origin, sleeps)
            }
        };
        state = wait_for_slot(window, wait, state, event);
    }
}

#[test]
fn unknown_window_never_waits_or_sheds() {
    let window = admission_window(None);
    let (slot, _, waited, _) = run(window, 30 * NANOS_PER_SEC, |_| 1_000);
    assert_eq!(slot, Slot::Free);
    assert_eq!(waited, 0);
    assert!(matches!(
        admit_decode(slot, window, "grpc://127.0.0.1:9901", "m"),
        Admission::Dispatch
    ));
}

#[test]
fn in_flight_below_window_admits_without_waiting() {
    let window = admission_window(Some(4));
    let (slot, observed, waited, sleeps) = run(window, 30 * NANOS_PER_SEC, |_| 3);
    assert_eq!((slot, observed), (Slot::Free, 3));
    assert_eq!((waited, sleeps), (0, 0), "no wait below the window");
    assert!(matches!(
        admit_decode(slot, window, "grpc://127.0.0.1:9902", "m"),
        Admission::Dispatch
    ));
}

#[test]
fn a_freed_slot_admits_the_waiting_request() {
    let freed = |at: u128| if at >= 500_000_000 { 3 } else { 4 };
    let (slot, observed, waited, sleeps) = run(4, 30 * NANOS_PER_SEC, freed);
    assert_eq!(slot, Slot::Waited);
    assert_eq!(observed, 3);
    assert_eq!(waited, 500_000_000);
    assert_eq!(sleeps, 10);
    assert!(matches!(
        admit_decode(slot, 4, "grpc://127.0.0.1:9902", "m"),
        Admission::DispatchAfterWait
    ));
}

#[test]
fn a_full_window_sheds_at_the_deadline() {
    let (slot, _, waited, sleeps) = run(2, 30 * NANOS_PER_SEC, |_| 2);
    assert_eq!(slot, Slot::Full);
    assert!(
        waited >= 30 * NANOS_PER_SEC,
        "the shed must wait out the whole admission window, waited {waited}"
    );
    assert_eq!(waited, 30 * NANOS_PER_SEC);
    assert_eq!(sleeps, 600);
}

#[test]
fn a_zero_wait_sheds_without_sleeping() {
    let (slot, _, waited, sleeps) = run(2, 0, |_| 2);
    assert_eq!(slot, Slot::Full);
    assert_eq!((waited, sleeps), (0, 0));
}

#[test]
fn the_last_sleep_is_cut_to_the_deadline() {
    let (slot, _, waited, sleeps) = run(1, 120_000_000, |_| 1);
    assert_eq!((slot, waited, sleeps), (Slot::Full, 120_000_000, 3));
    assert_eq!(
        wait_for_slot(
            1,
            120_000_000,
            WaitState::CheckClock { deadline: 100 },
            WaitEvent::Clock(70)
        ),
        WaitState::Sleep { deadline: 100, nanos: 30 }
    );
    assert_eq!(
        wait_for_slot(
            1,
            SLOT_POLL_INTERVAL,
            WaitState::CheckClock { deadline: SLOT_POLL_INTERVAL + 1 },
            WaitEvent::Clock(0)
        ),
        WaitState::Sleep { deadline: SLOT_POLL_INTERVAL + 1, nanos: SLOT_POLL_INTERVAL }
    );
}

#[test]
fn a_shed_reports_the_count_read_last_even_below_the_window() {
    let state = wait_for_slot(2, 0, WaitState::LastRead, WaitEvent::InFlight(1));
    assert_eq!(state, WaitState::Settled { slot: Slot::Full, in_flight: 1 });
}

#[test]
fn a_shed_names_the_worker_the_model_and_the_window() {
    match admit_decode(Slot::Full, 2, "grpc://127.0.0.1:9903", "m") {
        Admission::Shed(shed) => {
            assert_eq!(shed.worker, "grpc://127.0.0.1:9903");
            assert_eq!(shed.model_id, "m");
            assert_eq!(shed.window, 2);
        }
        other => panic!("a full window sheds, got {other:?}"),
    }
}

#[test]
fn the_latched_wait_is_what_a_dispatch_waits() {
    let mut latch = PdAdmissionWait::default();
    assert_eq!(latch.secs, DEFAULT_PD_ADMISSION_WAIT_SECS);
    assert_eq!(admission_wait(&latch), 30_000_000_000);
    set_pd_admission_wait_secs(&mut latch, 1);
    assert_eq!(admission_wait(&latch), 1_000_000_000);
    let (slot, _, waited, _) = run(2, admission_wait(&latch), |_| 2);
    assert_eq!((slot, waited), (Slot::Full, NANOS_PER_SEC));
    set_pd_admission_wait_secs(&mut latch, u64::MAX);
    assert_eq!(admission_wait(&latch), 18_446_744_073_709_551_615_000_000_000);
}

#[test]
fn the_window_is_what_the_engine_reports() {
    assert_eq!(admission_window(Some(u16::MAX)), 65_535);
    assert_eq!(admission_window(Some(0)), 0);
    assert_eq!(admission_window(None), 0);
}

#[test]
fn a_single_dispatcher_never_overshoots_the_window() {
    let mut in_flight: usize = 0;
    for _ in 0..10 {
        let (slot, _, _, _) = run(3, 0, |_| in_flight);
        if slot != Slot::Full {
            in_flight += 1;
        }
        assert!(in_flight <= 3);
    }
    assert_eq!(in_flight, 3);
}
