//! What holds of every wait for a decode slot, from its first read to its
//! verdict.

use crate::pd_admission;
use crate::pd_admission::{Slot, WaitEvent, WaitState, SLOT_POLL_INTERVAL};
use vstd::prelude::*;

verus! {

/// The state that a wait reaches through `events`.
pub open spec fn state_after(window: usize, wait: u128, events: Seq<WaitEvent>) -> WaitState
    decreases events.len(),
{
    if events.len() == 0 {
        pd_admission::wait_begun(window)
    } else {
        pd_admission::wait_next(
            window,
            wait,
            state_after(window, wait, events.drop_last()),
            events.last(),
        )
    }
}

/// Whether each event is what the state before it asked for.
pub open spec fn is_run(window: usize, wait: u128, events: Seq<WaitEvent>) -> bool
    decreases events.len(),
{
    events.len() > 0 ==> {
        &&& is_run(window, wait, events.drop_last())
        &&& pd_admission::is_answer(
            wait,
            state_after(window, wait, events.drop_last()),
            events.last(),
        )
    }
}

/// The first clock reading, from which the deadline counts.
pub open spec fn started(events: Seq<WaitEvent>) -> Option<u128>
    decreases events.len(),
{
    if events.len() == 0 {
        None
    } else if started(events.drop_last()) is Some {
        started(events.drop_last())
    } else {
        match events.last() {
            WaitEvent::Clock(now) => Some(now),
            _ => None,
        }
    }
}

/// The clock reading that came last.
pub open spec fn last_clock(events: Seq<WaitEvent>) -> Option<u128>
    decreases events.len(),
{
    if events.len() == 0 {
        None
    } else {
        match events.last() {
            WaitEvent::Clock(now) => Some(now),
            _ => last_clock(events.drop_last()),
        }
    }
}

/// The least time that the clock can show after `events`: what it showed last
/// and what was slept since.
pub open spec fn earliest(window: usize, wait: u128, events: Seq<WaitEvent>) -> int
    decreases events.len(),
{
    if events.len() == 0 {
        0
    } else {
        match (state_after(window, wait, events.drop_last()), events.last()) {
            (_, WaitEvent::Clock(now)) => now as int,
            (WaitState::Sleep { deadline, nanos }, WaitEvent::Slept) => earliest(
                window,
                wait,
                events.drop_last(),
            ) + nanos,
            _ => earliest(window, wait, events.drop_last()),
        }
    }
}

/// Whether the clock never goes back and no sleep ends early.
pub open spec fn is_timely(window: usize, wait: u128, events: Seq<WaitEvent>) -> bool
    decreases events.len(),
{
    events.len() > 0 ==> {
        &&& is_timely(window, wait, events.drop_last())
        &&& events.last() matches WaitEvent::Clock(now) ==> now >= earliest(
            window,
            wait,
            events.drop_last(),
        )
    }
}

/// How many sleeps have ended.
pub open spec fn sleeps(events: Seq<WaitEvent>) -> nat
    decreases events.len(),
{
    if events.len() == 0 {
        0
    } else {
        sleeps(events.drop_last()) + if events.last() is Slept {
            1nat
        } else {
            0nat
        }
    }
}

/// Without a reported window, admission abstains: it admits at once, with no read
/// and no sleep, however many requests are in flight.
pub proof fn law_unknown_window_abstains(wait: u128, events: Seq<WaitEvent>)
    requires
        is_run(0, wait, events),
    ensures
        events.len() == 0,
        state_after(0, wait, events) == (WaitState::Settled { slot: Slot::Free, in_flight: 0 }),
    decreases events.len(),
{
    if events.len() > 0 {
        law_unknown_window_abstains(wait, events.drop_last());
    }
}

/// A count below the window admits at once, with no clock reading and no sleep.
pub proof fn law_room_admits_at_once(window: usize, wait: u128, in_flight: usize)
    requires
        in_flight < window,
    ensures
        is_run(window, wait, seq![WaitEvent::InFlight(in_flight)]),
        state_after(window, wait, seq![WaitEvent::InFlight(in_flight)]) == (WaitState::Settled {
            slot: Slot::Free,
            in_flight,
        }),
{
    let events = seq![WaitEvent::InFlight(in_flight)];
    reveal_with_fuel(state_after, 2);
    reveal_with_fuel(is_run, 2);
    assert(events.drop_last() =~= Seq::<WaitEvent>::empty());
}

/// No dispatch is admitted past a known window: a dispatch that is admitted was
/// admitted on a count below it.
pub proof fn law_admitted_below_window(window: usize, wait: u128, events: Seq<WaitEvent>)
    requires
        window > 0,
        is_run(window, wait, events),
    ensures
        state_after(window, wait, events) matches WaitState::Settled { slot, in_flight }
            ==> slot != Slot::Full ==> in_flight < window,
    decreases events.len(),
{
    if events.len() > 0 {
        law_admitted_below_window(window, wait, events.drop_last());
    }
}

/// The first count below the window that is read before the deadline admits: a
/// wait that goes on or ends in a shed has seen none but for the count that a
/// shed reports.
pub proof fn law_freed_slot_admits(window: usize, wait: u128, events: Seq<WaitEvent>, i: int)
    requires
        is_run(window, wait, events),
        0 <= i < events.len(),
        match state_after(window, wait, events) {
            WaitState::Settled { slot, in_flight } => slot == Slot::Full && i < events.len() - 1,
            _ => true,
        },
    ensures
        events[i] matches WaitEvent::InFlight(n) ==> n >= window,
    decreases events.len(),
{
    let before = events.drop_last();
    if i < before.len() {
        assert(before[i] == events[i]);
        law_freed_slot_admits(window, wait, before, i);
    }
}

/// A window that never frees sheds: where no count read is below it, the only
/// verdict is a shed.
pub proof fn law_full_window_sheds(window: usize, wait: u128, events: Seq<WaitEvent>)
    requires
        window > 0,
        is_run(window, wait, events),
        forall|i: int|
            0 <= i < events.len() ==> (#[trigger] events[i] matches WaitEvent::InFlight(n)
                ==> n >= window),
    ensures
        state_after(window, wait, events) matches WaitState::Settled { slot, in_flight } ==> slot
            == Slot::Full,
    decreases events.len(),
{
    if events.len() > 0 {
        let before = events.drop_last();
        assert forall|i: int| 0 <= i < before.len() implies (#[trigger] before[i] matches WaitEvent::InFlight(
            n,
        ) ==> n >= window) by {
            assert(before[i] == events[i]);
        }
        law_full_window_sheds(window, wait, before);
        assert(events[events.len() - 1] == events.last());
    }
}

/// The in-flight count that was read last.
pub open spec fn last_count(events: Seq<WaitEvent>) -> Option<usize>
    decreases events.len(),
{
    if events.len() == 0 {
        None
    } else {
        match events.last() {
            WaitEvent::InFlight(n) => Some(n),
            _ => last_count(events.drop_last()),
        }
    }
}

proof fn lemma_counts_are_full(window: usize, wait: u128, events: Seq<WaitEvent>)
    requires
        is_run(window, wait, events),
    ensures
        match state_after(window, wait, events) {
            WaitState::FirstRead => true,
            WaitState::Settled { slot, in_flight } => window > 0 ==> last_count(events) == Some(
                in_flight,
            ) && events.len() > 0 && events.last() == WaitEvent::InFlight(in_flight),
            _ => last_count(events) matches Some(n) && n >= window,
        },
    decreases events.len(),
{
    if events.len() > 0 {
        lemma_counts_are_full(window, wait, events.drop_last());
    }
}

/// A shed reports the count that was read last, after the deadline. The count
/// read before it was at or above the window, so that a count that has not
/// dropped since is too.
pub proof fn law_shed_reports_the_last_count(window: usize, wait: u128, events: Seq<WaitEvent>)
    requires
        window > 0,
        is_run(window, wait, events),
        state_after(window, wait, events) matches WaitState::Settled { slot, in_flight } && slot
            == Slot::Full,
    ensures
        ({
            &&& state_after(window, wait, events) matches WaitState::Settled { slot, in_flight }
            &&& last_count(events) == Some(in_flight)
            &&& last_count(events.drop_last()) matches Some(polled)
            &&& polled >= window
            &&& in_flight >= polled ==> in_flight >= window
        }),
{
    lemma_counts_are_full(window, wait, events);
    lemma_counts_are_full(window, wait, events.drop_last());
}

/// What a wait knows of its deadline in each state.
spec fn deadline_holds(wait: u128, state: WaitState, events: Seq<WaitEvent>) -> bool {
    let start = started(events);
    let shown = last_clock(events);
    match state {
        WaitState::FirstRead | WaitState::Arm => start is None && shown is None,
        WaitState::CheckClock { deadline } | WaitState::Reread { deadline } => start matches Some(s)
            && deadline == s + wait,
        WaitState::Sleep { deadline, nanos } => {
            &&& start matches Some(s)
            &&& shown matches Some(now)
            &&& deadline == s + wait
            &&& 0 < nanos <= SLOT_POLL_INTERVAL
            &&& now + nanos <= deadline
            &&& nanos < SLOT_POLL_INTERVAL ==> now + nanos == deadline
        },
        WaitState::LastRead => start matches Some(s) && shown matches Some(now) && now >= s + wait,
        WaitState::Settled { slot, in_flight } => match slot {
            Slot::Free => start is None,
            Slot::Waited => start is Some,
            Slot::Full => start matches Some(s) && shown matches Some(now) && now >= s + wait,
        },
    }
}

proof fn lemma_deadline_holds(window: usize, wait: u128, events: Seq<WaitEvent>)
    requires
        is_run(window, wait, events),
    ensures
        deadline_holds(wait, state_after(window, wait, events), events),
    decreases events.len(),
{
    if events.len() > 0 {
        lemma_deadline_holds(window, wait, events.drop_last());
    }
}

/// A shed comes at the deadline, not before it: the clock had shown the time at
/// which the wait was armed plus the whole admission wait.
pub proof fn law_shed_waits_out_the_deadline(window: usize, wait: u128, events: Seq<WaitEvent>)
    requires
        is_run(window, wait, events),
        state_after(window, wait, events) matches WaitState::Settled { slot, in_flight } && slot
            == Slot::Full,
    ensures
        started(events) matches Some(s) && last_clock(events) matches Some(now) && now >= s + wait,
{
    lemma_deadline_holds(window, wait, events);
}

/// No sleep is empty, none is longer than the poll interval, and none runs past
/// the deadline.
pub proof fn law_sleep_ends_by_the_deadline(window: usize, wait: u128, events: Seq<WaitEvent>)
    requires
        is_run(window, wait, events),
        state_after(window, wait, events) is Sleep,
    ensures
        ({
            &&& state_after(window, wait, events) matches WaitState::Sleep { deadline, nanos }
            &&& started(events) matches Some(s)
            &&& last_clock(events) matches Some(now)
            &&& 0 < nanos <= SLOT_POLL_INTERVAL
            &&& deadline == s + wait
            &&& now + nanos <= deadline
        }),
{
    lemma_deadline_holds(window, wait, events);
}

/// What the sleeps so far say of the time, in each state.
spec fn sleeps_hold(window: usize, wait: u128, events: Seq<WaitEvent>) -> bool {
    let n = sleeps(events);
    let slept = n * SLOT_POLL_INTERVAL;
    let time = earliest(window, wait, events);
    match state_after(window, wait, events) {
        WaitState::FirstRead | WaitState::Arm => n == 0,
        WaitState::CheckClock { deadline } | WaitState::Reread { deadline } => {
            &&& slept < wait + SLOT_POLL_INTERVAL
            &&& started(events) matches Some(s) && (time >= s + slept || time >= s + wait)
        },
        WaitState::Sleep { deadline, nanos } => {
            &&& slept < wait
            &&& started(events) matches Some(s) && time >= s + slept && last_clock(events) == Some(
                time as u128,
            ) && time >= 0
        },
        WaitState::LastRead | WaitState::Settled { .. } => n > 0 ==> slept < wait
            + SLOT_POLL_INTERVAL,
    }
}

proof fn lemma_sleeps_hold(window: usize, wait: u128, events: Seq<WaitEvent>)
    requires
        is_run(window, wait, events),
        is_timely(window, wait, events),
    ensures
        sleeps_hold(window, wait, events),
    decreases events.len(),
{
    if events.len() > 0 {
        let before = events.drop_last();
        lemma_sleeps_hold(window, wait, before);
        lemma_deadline_holds(window, wait, before);
        lemma_deadline_holds(window, wait, events);
        assert((sleeps(before) + 1) * SLOT_POLL_INTERVAL == sleeps(before) * SLOT_POLL_INTERVAL
            + SLOT_POLL_INTERVAL) by (nonlinear_arith);
    }
}

/// With a clock that does not go back and sleeps that do not end early, the
/// sleeps of a wait fit into the admission wait: all of them but the last take
/// up less than the whole of it.
pub proof fn law_sleeps_are_bounded(window: usize, wait: u128, events: Seq<WaitEvent>)
    requires
        is_run(window, wait, events),
        is_timely(window, wait, events),
    ensures
        sleeps(events) > 0 ==> (sleeps(events) - 1) * SLOT_POLL_INTERVAL < wait,
{
    lemma_sleeps_hold(window, wait, events);
    assert((sleeps(events) - 1) * SLOT_POLL_INTERVAL == sleeps(events) * SLOT_POLL_INTERVAL
        - SLOT_POLL_INTERVAL) by (nonlinear_arith);
}

/// A zero wait sheds without sleeping.
pub proof fn law_zero_wait_never_sleeps(window: usize, events: Seq<WaitEvent>)
    requires
        is_run(window, 0, events),
        is_timely(window, 0, events),
    ensures
        sleeps(events) == 0,
        !(state_after(window, 0, events) is Sleep),
{
    lemma_sleeps_hold(window, 0, events);
    law_sleeps_are_bounded(window, 0, events);
    assert(sleeps(events) > 0 ==> (sleeps(events) - 1) * SLOT_POLL_INTERVAL >= 0)
        by (nonlinear_arith);
    assert(sleeps(events) * SLOT_POLL_INTERVAL >= 0) by (nonlinear_arith);
}

/// A wait is bound to end: between two sleeps it asks for two reads, and for
/// at most four things besides.
pub proof fn law_steps_are_bounded(window: usize, wait: u128, events: Seq<WaitEvent>)
    requires
        is_run(window, wait, events),
    ensures
        events.len() <= 3 * sleeps(events) + 4,
{
    lemma_steps(window, wait, events);
}

proof fn lemma_steps(window: usize, wait: u128, events: Seq<WaitEvent>)
    requires
        is_run(window, wait, events),
    ensures
        match state_after(window, wait, events) {
            WaitState::FirstRead => events.len() == 0,
            WaitState::Arm => events.len() <= 3 * sleeps(events) + 1,
            WaitState::CheckClock { .. } => events.len() <= 3 * sleeps(events) + 2,
            WaitState::Sleep { .. } => events.len() <= 3 * sleeps(events) + 3,
            WaitState::Reread { .. } => events.len() <= 3 * sleeps(events) + 1,
            WaitState::LastRead => events.len() <= 3 * sleeps(events) + 3,
            WaitState::Settled { .. } => events.len() <= 3 * sleeps(events) + 4,
        },
    decreases events.len(),
{
    if events.len() > 0 {
        lemma_steps(window, wait, events.drop_last());
    }
}

/// A wait begins with a read of the in-flight count, except that without a
/// window it is over.
pub proof fn law_wait_begins_with_a_read(window: usize)
    ensures
        window > 0 ==> pd_admission::wait_begun(window) == WaitState::FirstRead,
        window == 0 ==> pd_admission::wait_begun(window) == (WaitState::Settled {
            slot: Slot::Free,
            in_flight: 0,
        }),
{
}

/// Any count answers a read, any time answers a look at the clock, and a sleep
/// is answered by its end; only the time that fixes the deadline must leave
/// room for it.
pub proof fn law_every_request_can_be_answered(
    wait: u128,
    deadline: u128,
    nanos: u128,
    n: usize,
    now: u128,
)
    ensures
        pd_admission::is_answer(wait, WaitState::FirstRead, WaitEvent::InFlight(n)),
        pd_admission::is_answer(wait, WaitState::Reread { deadline }, WaitEvent::InFlight(n)),
        pd_admission::is_answer(wait, WaitState::LastRead, WaitEvent::InFlight(n)),
        pd_admission::is_answer(wait, WaitState::CheckClock { deadline }, WaitEvent::Clock(now)),
        pd_admission::is_answer(wait, WaitState::Sleep { deadline, nanos }, WaitEvent::Slept),
        pd_admission::is_answer(wait, WaitState::Arm, WaitEvent::Clock(now)) <==> now + wait
            <= u128::MAX,
{
}

/// Nothing but a count answers a read, nothing but a time a look at the clock,
/// nothing but its end a sleep, and nothing at all a wait that is over.
pub proof fn law_only_what_was_asked_answers(wait: u128, state: WaitState, event: WaitEvent)
    requires
        pd_admission::is_answer(wait, state, event),
    ensures
        event is InFlight <==> state is FirstRead || state is Reread || state is LastRead,
        event is Clock <==> state is Arm || state is CheckClock,
        event is Slept <==> state is Sleep,
        !(state is Settled),
{
}

/// A count decides by the window alone: below it the wait is over with that
/// count, at it or above it the wait goes on, and after the deadline no count
/// admits.
pub proof fn law_counts_decide_by_the_window(
    window: usize,
    wait: u128,
    deadline: u128,
    n: usize,
)
    ensures
        pd_admission::wait_next(window, wait, WaitState::FirstRead, WaitEvent::InFlight(n)) == if n
            < window {
            WaitState::Settled { slot: Slot::Free, in_flight: n }
        } else {
            WaitState::Arm
        },
        pd_admission::wait_next(
            window,
            wait,
            WaitState::Reread { deadline },
            WaitEvent::InFlight(n),
        ) == if n < window {
            WaitState::Settled { slot: Slot::Waited, in_flight: n }
        } else {
            WaitState::CheckClock { deadline }
        },
        pd_admission::wait_next(window, wait, WaitState::LastRead, WaitEvent::InFlight(n))
            == (WaitState::Settled { slot: Slot::Full, in_flight: n }),
{
}

/// The deadline is the time of arming plus the whole wait, and it never moves.
/// A look at the clock ends the wait from the deadline on; before it, the wait
/// sleeps for fifty milliseconds or, if that is less, exactly up to the
/// deadline.
pub proof fn law_clock_decides_by_the_deadline(
    window: usize,
    wait: u128,
    deadline: u128,
    nanos: u128,
    now: u128,
)
    ensures
        now + wait <= u128::MAX ==> (pd_admission::wait_next(
            window,
            wait,
            WaitState::Arm,
            WaitEvent::Clock(now),
        ) matches WaitState::CheckClock { deadline: fixed } && fixed == now + wait),
        now >= deadline ==> pd_admission::wait_next(
            window,
            wait,
            WaitState::CheckClock { deadline },
            WaitEvent::Clock(now),
        ) == WaitState::LastRead,
        now < deadline ==> (pd_admission::wait_next(
            window,
            wait,
            WaitState::CheckClock { deadline },
            WaitEvent::Clock(now),
        ) matches WaitState::Sleep { deadline: kept, nanos: length } && kept == deadline && (
        if deadline - now >= 50_000_000 {
            length == 50_000_000
        } else {
            now + length == deadline
        })),
        pd_admission::wait_next(
            window,
            wait,
            WaitState::Sleep { deadline, nanos },
            WaitEvent::Slept,
        ) == (WaitState::Reread { deadline }),
{
}

/// A verdict says how it came about: a free slot is found on the first read,
/// with no look at the clock and no sleep; a slot that was waited for comes
/// after at least one sleep; and each reports the count read last.
pub proof fn law_verdict_tells_how_it_came(window: usize, wait: u128, events: Seq<WaitEvent>)
    requires
        window > 0,
        is_run(window, wait, events),
        state_after(window, wait, events) is Settled,
    ensures
        ({
            &&& state_after(window, wait, events) matches WaitState::Settled { slot, in_flight }
            &&& events.len() > 0
            &&& events[events.len() - 1] == WaitEvent::InFlight(in_flight)
            &&& slot == Slot::Free <==> events.len() == 1
            &&& slot == Slot::Waited ==> exists|i: int|
                0 <= i < events.len() && #[trigger] events[i] is Slept
            &&& slot != Slot::Full <==> in_flight < window && (events.len() == 1 || events[events.len()
                - 2] is Slept)
        }),
{
    let before = events.drop_last();
    lemma_length_tells_state(window, wait, events);
    if events.len() > 0 {
        lemma_length_tells_state(window, wait, before);
        if before.len() > 0 {
            assert(before.last() == events[events.len() - 2]);
        }
    }
}

proof fn lemma_length_tells_state(window: usize, wait: u128, events: Seq<WaitEvent>)
    requires
        window > 0,
        is_run(window, wait, events),
    ensures
        match state_after(window, wait, events) {
            WaitState::FirstRead => events.len() == 0,
            WaitState::Settled { slot, in_flight } => events.len() > 0 && events.last()
                == WaitEvent::InFlight(in_flight),
            WaitState::Arm => events.len() == 1,
            WaitState::Reread { .. } => events.len() > 1 && events.last() is Slept,
            WaitState::LastRead => events.len() > 1 && events.last() is Clock,
            _ => events.len() > 1,
        },
    decreases events.len(),
{
    if events.len() > 0 {
        lemma_length_tells_state(window, wait, events.drop_last());
    }
}

/// A worker's load as several dispatchers see it: the in-flight
/// count, and how many dispatchers have read it, were admitted, and have yet to
/// count themselves in.
pub struct Load {
    pub in_flight: nat,
    pub admitted: nat,
}

/// What changes a worker's load.
pub enum LoadStep {
    /// A wait of `wait` through `events` settles on the present count without a
    /// shed.
    Admit { wait: u128, events: Seq<WaitEvent> },
    /// An admitted dispatcher counts its request in.
    Enter,
    /// A request ends.
    Leave,
}

/// Whether `step` can be taken on `load`. A dispatcher is admitted on the count
/// that its wait read last, and no more than `dispatchers` of them are under
/// way.
pub open spec fn can_step(window: usize, dispatchers: nat, load: Load, step: LoadStep) -> bool {
    match step {
        LoadStep::Admit { wait, events } => {
            &&& is_run(window, wait, events)
            &&& state_after(window, wait, events) matches WaitState::Settled { slot, in_flight }
            &&& slot != Slot::Full
            &&& in_flight == load.in_flight
            &&& load.admitted < dispatchers
        },
        LoadStep::Enter => load.admitted > 0,
        LoadStep::Leave => load.in_flight > 0,
    }
}

/// The load after `step`.
pub open spec fn load_next(load: Load, step: LoadStep) -> Load {
    match step {
        LoadStep::Admit { .. } => Load { admitted: load.admitted + 1, ..load },
        LoadStep::Enter => Load {
            in_flight: load.in_flight + 1,
            admitted: (load.admitted - 1) as nat,
        },
        LoadStep::Leave => Load { in_flight: (load.in_flight - 1) as nat, ..load },
    }
}

/// The load of an idle worker after `steps`.
pub open spec fn load_after(steps: Seq<LoadStep>) -> Load
    decreases steps.len(),
{
    if steps.len() == 0 {
        Load { in_flight: 0, admitted: 0 }
    } else {
        load_next(load_after(steps.drop_last()), steps.last())
    }
}

/// Whether each of `steps` can be taken in its turn.
pub open spec fn are_steps(window: usize, dispatchers: nat, steps: Seq<LoadStep>) -> bool
    decreases steps.len(),
{
    steps.len() > 0 ==> {
        &&& are_steps(window, dispatchers, steps.drop_last())
        &&& can_step(window, dispatchers, load_after(steps.drop_last()), steps.last())
    }
}

/// Dispatchers that read the same last free slot at once can overshoot the
/// window by no more than the number of them less one, and a single dispatcher
/// never does.
pub proof fn law_overshoot_is_bounded(window: usize, dispatchers: nat, steps: Seq<LoadStep>)
    requires
        window > 0,
        dispatchers > 0,
        are_steps(window, dispatchers, steps),
    ensures
        load_after(steps).in_flight + load_after(steps).admitted <= window + dispatchers - 1,
    decreases steps.len(),
{
    if steps.len() > 0 {
        law_overshoot_is_bounded(window, dispatchers, steps.drop_last());
        if let LoadStep::Admit { wait, events } = steps.last() {
            law_admitted_below_window(window, wait, events);
        }
    }
}

} // verus!
