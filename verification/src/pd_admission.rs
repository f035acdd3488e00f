//! Admission control for disaggregated dispatch, bounded by the decode engine's
//! running window.
//!
//! A request that arrives with the window full waits for a slot rather than
//! joining the engine's queue, and is shed if none frees in time. Where the
//! engine reports no window, admission abstains.
//!
//! The wait is a state machine: each state says what the caller reads or does
//! next, and [`wait_for_slot`] takes what came of it to the next state. Times
//! are nanoseconds on one clock, counted from any origin.

use vstd::prelude::*;
use vstd::string::*;

verus! {

/// Default seconds a dispatch may wait for a decode slot.
pub const DEFAULT_PD_ADMISSION_WAIT_SECS: u64 = 30;

/// How many nanoseconds the wait sleeps between two reads of the in-flight
/// count.
pub const SLOT_POLL_INTERVAL: u128 = 50_000_000;

/// Nanoseconds in a second.
pub const NANOS_PER_SEC: u128 = 1_000_000_000;

/// How long a dispatch waits for a decode slot before it is shed.
#[derive(Debug, Clone, Copy)]
pub struct PdAdmissionWait {
    pub secs: u64,
}

impl Default for PdAdmissionWait {
    fn default() -> (latch: PdAdmissionWait)
        ensures
            latch.secs == DEFAULT_PD_ADMISSION_WAIT_SECS,
            latch.secs == 30,
    {
        PdAdmissionWait { secs: DEFAULT_PD_ADMISSION_WAIT_SECS }
    }
}

/// Latches the admission wait.
pub fn set_pd_admission_wait_secs(latch: &mut PdAdmissionWait, secs: u64)
    ensures
        final(latch).secs == secs,
{
    latch.secs = secs;
}

/// The latched admission wait in nanoseconds.
pub fn admission_wait(latch: &PdAdmissionWait) -> (nanos: u128)
    ensures
        nanos == latch.secs * NANOS_PER_SEC,
        nanos == latch.secs * 1_000_000_000,
{
    latch.secs as u128 * NANOS_PER_SEC
}

/// What admission decided for one dispatch.
#[derive(Debug, Clone, Copy, PartialEq, Eq, Structural)]
pub enum Slot {
    /// The window is unknown, or there was room straight away.
    Free,
    /// A slot freed during the wait.
    Waited,
    /// The deadline passed with the window still full.
    Full,
}

/// Where a wait stands, and with that what it needs next.
#[derive(Debug, Clone, Copy, PartialEq, Eq, Structural)]
pub enum WaitState {
    /// Read the in-flight count for the first time.
    FirstRead,
    /// Read the clock to fix the deadline.
    Arm,
    /// Read the clock to see whether the deadline has passed.
    CheckClock { deadline: u128 },
    /// Sleep for `nanos`.
    Sleep { deadline: u128, nanos: u128 },
    /// Read the in-flight count after a sleep.
    Reread { deadline: u128 },
    /// The deadline has passed: read the in-flight count a last time.
    LastRead,
    /// The wait is over; `in_flight` is the count read last.
    Settled { slot: Slot, in_flight: usize },
}

/// What came of the read or the sleep that a state asked for.
#[derive(Debug, Clone, Copy, PartialEq, Eq, Structural)]
pub enum WaitEvent {
    /// The in-flight count that was read.
    InFlight(usize),
    /// The time that the clock showed.
    Clock(u128),
    /// The sleep is over.
    Slept,
}

/// Where every wait on a window of `window` begins. A window of zero means that
/// none was reported: admission abstains without a read.
pub open spec fn wait_begun(window: usize) -> WaitState {
    if window == 0 {
        WaitState::Settled { slot: Slot::Free, in_flight: 0 }
    } else {
        WaitState::FirstRead
    }
}

/// Whether `event` is what `state` asked for. A clock reading that fixes the
/// deadline must leave room for it.
pub open spec fn is_answer(wait: u128, state: WaitState, event: WaitEvent) -> bool {
    match state {
        WaitState::FirstRead => event is InFlight,
        WaitState::Arm => event matches WaitEvent::Clock(now) && now + wait <= u128::MAX,
        WaitState::CheckClock { deadline } => event is Clock,
        WaitState::Sleep { deadline, nanos } => event is Slept,
        WaitState::Reread { deadline } => event is InFlight,
        WaitState::LastRead => event is InFlight,
        WaitState::Settled { slot, in_flight } => false,
    }
}

/// The state after `state` when `event` came of what it asked for.
pub open spec fn wait_next(
    window: usize,
    wait: u128,
    state: WaitState,
    event: WaitEvent,
) -> WaitState {
    match (state, event) {
        (WaitState::FirstRead, WaitEvent::InFlight(n)) => if n < window {
            WaitState::Settled { slot: Slot::Free, in_flight: n }
        } else {
            WaitState::Arm
        },
        (WaitState::Arm, WaitEvent::Clock(now)) => WaitState::CheckClock {
            deadline: (now + wait) as u128,
        },
        (WaitState::CheckClock { deadline }, WaitEvent::Clock(now)) => if now >= deadline {
            WaitState::LastRead
        } else if deadline - now < SLOT_POLL_INTERVAL {
            WaitState::Sleep { deadline, nanos: (deadline - now) as u128 }
        } else {
            WaitState::Sleep { deadline, nanos: SLOT_POLL_INTERVAL }
        },
        (WaitState::Sleep { deadline, nanos }, WaitEvent::Slept) => WaitState::Reread { deadline },
        (WaitState::Reread { deadline }, WaitEvent::InFlight(n)) => if n < window {
            WaitState::Settled { slot: Slot::Waited, in_flight: n }
        } else {
            WaitState::CheckClock { deadline }
        },
        (WaitState::LastRead, WaitEvent::InFlight(n)) => WaitState::Settled {
            slot: Slot::Full,
            in_flight: n,
        },
        _ => state,
    }
}

/// Begins the wait for a slot in a window of `window`.
pub fn begin_wait(window: usize) -> (state: WaitState)
    ensures
        state == wait_begun(window),
{
    if window == 0 {
        WaitState::Settled { slot: Slot::Free, in_flight: 0 }
    } else {
        WaitState::FirstRead
    }
}

/// Takes a wait of at most `wait` nanoseconds for the in-flight count to drop
/// below `window` one step on.
pub fn wait_for_slot(window: usize, wait: u128, state: WaitState, event: WaitEvent) -> (next:
    WaitState)
    requires
        is_answer(wait, state, event),
    ensures
        next == wait_next(window, wait, state, event),
{
    match (state, event) {
        (WaitState::FirstRead, WaitEvent::InFlight(n)) => {
            if n < window {
                WaitState::Settled { slot: Slot::Free, in_flight: n }
            } else {
                WaitState::Arm
            }
        },
        (WaitState::Arm, WaitEvent::Clock(now)) => {
            WaitState::CheckClock { deadline: now + wait }
        },
        (WaitState::CheckClock { deadline }, WaitEvent::Clock(now)) => {
            if now >= deadline {
                WaitState::LastRead
            } else {
                let left: u128 = deadline - now;
                let nanos: u128 = if left < SLOT_POLL_INTERVAL {
                    left
                } else {
                    SLOT_POLL_INTERVAL
                };
                WaitState::Sleep { deadline, nanos }
            }
        },
        (WaitState::Sleep { deadline, nanos: _ }, WaitEvent::Slept) => {
            WaitState::Reread { deadline }
        },
        (WaitState::Reread { deadline }, WaitEvent::InFlight(n)) => {
            if n < window {
                WaitState::Settled { slot: Slot::Waited, in_flight: n }
            } else {
                WaitState::CheckClock { deadline }
            }
        },
        (WaitState::LastRead, WaitEvent::InFlight(n)) => {
            WaitState::Settled { slot: Slot::Full, in_flight: n }
        },
        _ => state,
    }
}

/// The window that bounds a dispatch: what the engine reports, and zero, on
/// which admission abstains, where it reports none.
pub fn admission_window(reported: Option<u16>) -> (window: usize)
    ensures
        window == match reported {
            Some(n) => n as int,
            None => 0,
        },
{
    match reported {
        Some(n) => n as usize,
        None => 0,
    }
}

/// A dispatch that is refused for want of a decode slot.
#[derive(Debug)]
pub struct Shed {
    /// The decode worker's URL.
    pub worker: String,
    pub model_id: String,
    pub window: usize,
}

/// What becomes of a dispatch.
#[derive(Debug)]
pub enum Admission {
    /// Dispatch now.
    Dispatch,
    /// Dispatch now, and count the wait.
    DispatchAfterWait,
    /// Answer with the shed instead, and count it.
    Shed(Shed),
}

/// Settles a disaggregated dispatch by the slot that the wait ended with.
pub fn admit_decode(slot: Slot, window: usize, worker: &str, model_id: &str) -> (admission:
    Admission)
    ensures
        match slot {
            Slot::Free => admission is Dispatch,
            Slot::Waited => admission is DispatchAfterWait,
            Slot::Full => admission matches Admission::Shed(shed) && shed.worker@ == worker@
                && shed.model_id@ == model_id@ && shed.window == window,
        },
{
    match slot {
        Slot::Free => Admission::Dispatch,
        Slot::Waited => Admission::DispatchAfterWait,
        Slot::Full => Admission::Shed(
            Shed { worker: worker.to_owned(), model_id: model_id.to_owned(), window },
        ),
    }
}

} // verus!
