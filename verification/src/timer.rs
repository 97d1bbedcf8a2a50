//! The delay timer: a byte that counts down once per period and reports its
//! current value whenever it is asked.

use vstd::prelude::*;

verus! {

/// Length in seconds of the period after which the timer counts down.
pub const TIMER_PERIOD_SECS: u64 = 1;

/// The countdown value of the delay timer.
#[derive(Clone, Copy, Debug, PartialEq, Eq, Structural)]
pub struct Timer {
    pub time: u8,
}

/// The value one period after `time`: one less, and 0 stays 0.
pub open spec fn ticked(time: u8) -> u8 {
    if time != 0 {
        (time - 1) as u8
    } else {
        0
    }
}

/// The value `periods` periods after `time`.
pub open spec fn ticked_by(time: u8, periods: nat) -> u8
    decreases periods,
{
    if periods == 0 {
        time
    } else {
        ticked(ticked_by(time, (periods - 1) as nat))
    }
}

impl Timer {
    /// A timer that starts counting down from `seed`.
    pub fn new(seed: u8) -> (timer: Timer)
        ensures
            timer.time == seed,
    {
        Timer { time: seed }
    }

    /// The current count. Reading it does not change it.
    pub fn value(&self) -> (val: u8)
        ensures
            val == self.time,
    {
        self.time
    }

    /// One period elapses.
    pub fn tick(&mut self)
        ensures
            final(self).time == ticked(old(self).time),
    {
        if self.time != 0 {
            self.time -= 1;
        }
    }
}

/// What the timer's schedule waits for.
#[derive(Clone, Copy, Debug, PartialEq, Eq, Structural)]
pub enum TimerEvent {
    /// One period has gone by.
    PeriodElapsed,
    /// The machine asks for the current count.
    Requested,
}

/// The count after an event, and the reply that the event is owed: a period
/// takes one off the count and is owed none; a request is owed the count as
/// it stands and leaves it alone.
pub open spec fn run_timer_spec(time: u8, event: TimerEvent) -> (u8, Option<u8>) {
    match event {
        TimerEvent::PeriodElapsed => (ticked(time), None),
        TimerEvent::Requested => (time, Some(time)),
    }
}

/// The count after a run of events, first to last.
pub open spec fn count_after(time: u8, events: Seq<TimerEvent>) -> u8
    decreases events.len(),
{
    if events.len() == 0 {
        time
    } else {
        run_timer_spec(count_after(time, events.drop_last()), events.last()).0
    }
}

/// The number of periods among the events.
pub open spec fn periods_in(events: Seq<TimerEvent>) -> nat
    decreases events.len(),
{
    if events.len() == 0 {
        0
    } else {
        periods_in(events.drop_last()) + if events.last() == TimerEvent::PeriodElapsed {
            1nat
        } else {
            0nat
        }
    }
}

/// One step of the timer's schedule: what the timer does when a period has
/// gone by, and what it answers when it is asked.
pub fn run_timer(time: &mut Timer, event: TimerEvent) -> (reply: Option<u8>)
    ensures
        (final(time).time, reply) == run_timer_spec(old(time).time, event),
        event == TimerEvent::PeriodElapsed ==> final(time).time == ticked(old(time).time)
            && reply == None::<u8>,
        event == TimerEvent::Requested ==> final(time).time == old(time).time && reply == Some(
            old(time).time,
        ),
{
    match event {
        TimerEvent::PeriodElapsed => {
            time.tick();
            None
        },
        TimerEvent::Requested => Some(time.value()),
    }
}

/// A request that comes one period after the timer was seeded is answered
/// with the seed less one, and with 0 for a seed of 0.
pub proof fn lemma_request_after_one_period(seed: u8)
    ensures
        ({
            let (count, none) = run_timer_spec(seed, TimerEvent::PeriodElapsed);
            let (after, reply) = run_timer_spec(count, TimerEvent::Requested);
            &&& none == None::<u8>
            &&& reply == Some(ticked(seed))
            &&& seed > 0 ==> reply == Some((seed - 1) as u8)
            &&& after == count
        }),
{
}

/// Two requests with no period between them get the same answer: asking
/// does not count down.
pub proof fn lemma_requests_agree(time: u8)
    ensures
        ({
            let (count, first) = run_timer_spec(time, TimerEvent::Requested);
            let (after, second) = run_timer_spec(count, TimerEvent::Requested);
            &&& first == Some(time)
            &&& second == first
            &&& after == time
        }),
{
}

/// Only periods count down: after any run of events the count is the one
/// that the periods among them alone would have left.
pub proof fn lemma_only_periods_count(time: u8, events: Seq<TimerEvent>)
    ensures
        count_after(time, events) == ticked_by(time, periods_in(events)),
    decreases events.len(),
{
    if events.len() > 0 {
        lemma_only_periods_count(time, events.drop_last());
    }
}

/// After `periods` periods the count is the seed less `periods`, and never
/// below 0.
pub proof fn lemma_ticked_by(time: u8, periods: nat)
    ensures
        ticked_by(time, periods) == if periods <= time {
            time - periods
        } else {
            0
        },
    decreases periods,
{
    if periods > 0 {
        lemma_ticked_by(time, (periods - 1) as nat);
    }
}

} // verus!
