//! The collector: what the poll loop publishes and what it does next.
//!
//! The loop itself (waiting for the sensor under a deadline, sleeping) runs
//! outside this library. It reports what happened as a `PollEvent` and is
//! answered with a `PollAction`. The collector keeps the published values:
//! the last good reading and the two counters.

use vstd::prelude::*;

verus! {

/// Name of the gauge that holds the last good reading.
pub const GAUGE_CO2_PPM_NAME: &'static str = "mhz19_co2_ppm";

/// Description of the gauge that holds the last good reading.
pub const GAUGE_CO2_PPM_HELP: &'static str = "co2 ppm";

/// Name of the counter of attempts.
pub const COUNTER_MEASURE_TOTAL_NAME: &'static str = "mhz19_measure_total";

/// Description of the counter of attempts.
pub const COUNTER_MEASURE_TOTAL_HELP: &'static str = "total count of measurement";

/// Name of the counter of failed attempts.
pub const COUNTER_FAILURE_TOTAL_NAME: &'static str = "mhz19_failure_total";

/// Description of the counter of failed attempts.
pub const COUNTER_FAILURE_TOTAL_HELP: &'static str = "total count of measurement failures";

/// How one attempt to measure ended.
#[derive(Clone, Copy, Debug, PartialEq, Eq, Structural)]
pub enum Attempt {
    /// The sensor answered with this reading, in parts per million.
    Measured(u32),
    /// The exchange failed: the transport or the protocol.
    Failed,
    /// The exchange did not finish within its deadline and was given up.
    TimedOut,
}

/// The published values.
#[derive(Clone, Copy, Debug, PartialEq, Eq, Structural)]
pub struct Metrics {
    /// The last good reading, in parts per million; 0 before the first.
    pub co2_ppm: u32,
    /// Number of attempts made.
    pub measure_total: u64,
    /// Number of attempts that gave no reading.
    pub failure_total: u64,
}

/// A counter after one more count. A counter that has reached the largest
/// value stays there: it never goes back.
pub open spec fn counted(n: u64) -> u64 {
    if n < u64::MAX {
        (n + 1) as u64
    } else {
        n
    }
}

/// The values before any attempt.
pub open spec fn fresh() -> Metrics {
    Metrics { co2_ppm: 0, measure_total: 0, failure_total: 0 }
}

/// The values once `attempt` has been counted: every attempt counts as one,
/// a reading replaces the last one, and anything else counts as a failure
/// and leaves the last reading in place.
pub open spec fn recorded(metrics: Metrics, attempt: Attempt) -> Metrics {
    match attempt {
        Attempt::Measured(ppm) => Metrics {
            co2_ppm: ppm,
            measure_total: counted(metrics.measure_total),
            failure_total: metrics.failure_total,
        },
        _ => Metrics {
            co2_ppm: metrics.co2_ppm,
            measure_total: counted(metrics.measure_total),
            failure_total: counted(metrics.failure_total),
        },
    }
}

/// The values once each of `attempts` has been counted, in order.
pub open spec fn recorded_all(metrics: Metrics, attempts: Seq<Attempt>) -> Metrics
    decreases attempts.len(),
{
    if attempts.len() == 0 {
        metrics
    } else {
        recorded(recorded_all(metrics, attempts.drop_last()), attempts.last())
    }
}

impl Metrics {
    /// No more failures than attempts.
    pub open spec fn consistent(self) -> bool {
        self.failure_total <= self.measure_total
    }

    /// Counts one attempt.
    pub fn record(&mut self, attempt: Attempt)
        ensures
            *final(self) == recorded(*old(self), attempt),
    {
        if self.measure_total < u64::MAX {
            self.measure_total = self.measure_total + 1;
        }
        match attempt {
            Attempt::Measured(ppm) => {
                self.co2_ppm = ppm;
            },
            _ => {
                if self.failure_total < u64::MAX {
                    self.failure_total = self.failure_total + 1;
                }
            },
        }
    }
}

/// Where the poll loop stands.
#[derive(Clone, Copy, Debug, PartialEq, Eq, Structural)]
pub enum PollPhase {
    /// Between two attempts.
    Resting,
    /// An attempt is under way.
    Measuring,
}

/// What the poll loop reports.
#[derive(Clone, Copy, Debug, PartialEq, Eq, Structural)]
pub enum PollEvent {
    /// The next attempt is due: at start, and after each rest.
    Due,
    /// The attempt that was started under `ticket` ended.
    Finished { ticket: u64, attempt: Attempt },
}

/// What the poll loop is to do next.
#[derive(Clone, Copy, Debug, PartialEq, Eq, Structural)]
pub enum PollAction {
    /// Run one exchange with the sensor, give it up after `timeout_millis`,
    /// and report how it ended under `ticket`.
    Measure { ticket: u64, timeout_millis: u64 },
    /// Rest for `interval_millis`, then report that the next attempt is due.
    Sleep { interval_millis: u64 },
}

/// A collector as a mathematical value.
pub struct Poll {
    pub interval_millis: u64,
    pub timeout_millis: u64,
    pub metrics: Metrics,
    pub phase: PollPhase,
}

impl Poll {
    /// The deadline of an attempt is strictly shorter than the rest between
    /// two attempts, and there are no more failures than attempts.
    pub open spec fn well_formed(self) -> bool {
        &&& self.timeout_millis < self.interval_millis
        &&& self.metrics.consistent()
    }
}

/// A collector before its first attempt.
pub open spec fn initial(interval_millis: u64, timeout_millis: u64) -> Poll {
    Poll { interval_millis, timeout_millis, metrics: fresh(), phase: PollPhase::Resting }
}

/// The event is the one that the collector is waiting for: the next attempt
/// while it rests, or the end of the attempt that is under way. The ticket
/// of that attempt is the number of attempts counted before it.
pub open spec fn awaited(poll: Poll, event: PollEvent) -> bool {
    match event {
        PollEvent::Due => poll.phase == PollPhase::Resting,
        PollEvent::Finished { ticket, attempt } => poll.phase == PollPhase::Measuring && ticket
            == poll.metrics.measure_total,
    }
}

/// The collector after `event`. An awaited event moves the loop on; any
/// other, such as the late end of an attempt that was given up, changes
/// nothing.
pub open spec fn poll_next(poll: Poll, event: PollEvent) -> Poll {
    if !awaited(poll, event) {
        poll
    } else {
        match event {
            PollEvent::Due => Poll { phase: PollPhase::Measuring, ..poll },
            PollEvent::Finished { ticket, attempt } => Poll {
                metrics: recorded(poll.metrics, attempt),
                phase: PollPhase::Resting,
                ..poll
            },
        }
    }
}

/// The answer to `event`: after an awaited event the next thing to do, else
/// nothing.
pub open spec fn poll_action(poll: Poll, event: PollEvent) -> Option<PollAction> {
    if !awaited(poll, event) {
        None
    } else {
        match event {
            PollEvent::Due => Some(
                PollAction::Measure {
                    ticket: poll.metrics.measure_total,
                    timeout_millis: poll.timeout_millis,
                },
            ),
            PollEvent::Finished { ticket, attempt } => Some(
                PollAction::Sleep { interval_millis: poll.interval_millis },
            ),
        }
    }
}

/// The collector after each of `events`, in order.
pub open spec fn poll_run(poll: Poll, events: Seq<PollEvent>) -> Poll
    decreases events.len(),
{
    if events.len() == 0 {
        poll
    } else {
        poll_next(poll_run(poll, events.drop_last()), events.last())
    }
}

/// The state of the poll loop and the values that it publishes.
#[derive(Debug)]
pub struct MHZ19Collector {
    interval_millis: u64,
    timeout_millis: u64,
    metrics: Metrics,
    phase: PollPhase,
}

impl View for MHZ19Collector {
    type V = Poll;

    closed spec fn view(&self) -> Poll {
        Poll {
            interval_millis: self.interval_millis,
            timeout_millis: self.timeout_millis,
            metrics: self.metrics,
            phase: self.phase,
        }
    }
}

impl MHZ19Collector {
    #[verifier::type_invariant]
    spec fn well_formed(self) -> bool {
        &&& self.timeout_millis < self.interval_millis
        &&& self.metrics.consistent()
    }

    /// A collector that has made no attempt yet. It rests `interval_millis`
    /// between attempts and gives an attempt up after `timeout_millis`,
    /// which has to be the shorter of the two: there is no collector
    /// otherwise.
    pub fn new(interval_millis: u64, timeout_millis: u64) -> (collector: Option<MHZ19Collector>)
        ensures
            collector is Some <==> timeout_millis < interval_millis,
            collector matches Some(c) ==> c@ == initial(interval_millis, timeout_millis),
    {
        if timeout_millis < interval_millis {
            Some(
                MHZ19Collector {
                    interval_millis,
                    timeout_millis,
                    metrics: Metrics { co2_ppm: 0, measure_total: 0, failure_total: 0 },
                    phase: PollPhase::Resting,
                },
            )
        } else {
            None
        }
    }

    /// The rest between two attempts, in milliseconds.
    pub fn interval_millis(&self) -> (millis: u64)
        ensures
            millis == self@.interval_millis,
            millis > self@.timeout_millis,
    {
        proof {
            use_type_invariant(self);
        }
        self.interval_millis
    }

    /// The deadline of one attempt, in milliseconds.
    pub fn timeout_millis(&self) -> (millis: u64)
        ensures
            millis == self@.timeout_millis,
            millis < self@.interval_millis,
    {
        proof {
            use_type_invariant(self);
        }
        self.timeout_millis
    }

    /// Where the loop stands.
    pub fn phase(&self) -> (phase: PollPhase)
        ensures
            phase == self@.phase,
    {
        self.phase
    }

    /// The values to publish. There are never more failures than attempts.
    pub fn metrics(&self) -> (metrics: Metrics)
        ensures
            metrics == self@.metrics,
            metrics.consistent(),
    {
        proof {
            use_type_invariant(self);
        }
        self.metrics
    }

    /// Takes in what the poll loop reports and says what to do next; `None`
    /// when the event is not the awaited one, which leaves the collector as
    /// it was.
    pub fn step(&mut self, event: PollEvent) -> (action: Option<PollAction>)
        ensures
            final(self)@ == poll_next(old(self)@, event),
            action == poll_action(old(self)@, event),
            final(self)@.well_formed(),
    {
        proof {
            use_type_invariant(&*self);
        }
        match event {
            PollEvent::Due => {
                if self.phase == PollPhase::Resting {
                    self.phase = PollPhase::Measuring;
                    Some(
                        PollAction::Measure {
                            ticket: self.metrics.measure_total,
                            timeout_millis: self.timeout_millis,
                        },
                    )
                } else {
                    None
                }
            },
            PollEvent::Finished { ticket, attempt } => {
                if self.phase == PollPhase::Measuring && ticket == self.metrics.measure_total {
                    let mut metrics = self.metrics;
                    metrics.record(attempt);
                    self.metrics = metrics;
                    self.phase = PollPhase::Resting;
                    Some(PollAction::Sleep { interval_millis: self.interval_millis })
                } else {
                    None
                }
            },
        }
    }
}

/// An attempt that gives no reading, be it a failure or a deadline that
/// passed, adds exactly one to each counter and leaves the last reading as
/// it was. (A counter that has reached `u64::MAX` stays there.)
pub proof fn lemma_failure_counts_once(metrics: Metrics, attempt: Attempt)
    requires
        metrics.consistent(),
        metrics.measure_total < u64::MAX,
        !(attempt is Measured),
    ensures
        recorded(metrics, attempt).measure_total == metrics.measure_total + 1,
        recorded(metrics, attempt).failure_total == metrics.failure_total + 1,
        recorded(metrics, attempt).co2_ppm == metrics.co2_ppm,
{
}

/// A reading is published as it is, adds one to the attempts and leaves the
/// failures as they were.
pub proof fn lemma_reading_published(metrics: Metrics, ppm: u32)
    requires
        metrics.measure_total < u64::MAX,
    ensures
        recorded(metrics, Attempt::Measured(ppm)).co2_ppm == ppm,
        recorded(metrics, Attempt::Measured(ppm)).measure_total == metrics.measure_total + 1,
        recorded(metrics, Attempt::Measured(ppm)).failure_total == metrics.failure_total,
{
}

/// In the poll loop, the end of the attempt under way by a passed deadline
/// adds exactly one to each counter, leaves the last reading as it was, and
/// is answered with the rest before the next attempt.
pub proof fn lemma_timeout_in_loop(poll: Poll)
    requires
        poll.phase == PollPhase::Measuring,
        poll.metrics.consistent(),
        poll.metrics.measure_total < u64::MAX,
    ensures
        ({
            let event = PollEvent::Finished {
                ticket: poll.metrics.measure_total,
                attempt: Attempt::TimedOut,
            };
            let after = poll_next(poll, event);
            &&& after.metrics.measure_total == poll.metrics.measure_total + 1
            &&& after.metrics.failure_total == poll.metrics.failure_total + 1
            &&& after.metrics.co2_ppm == poll.metrics.co2_ppm
            &&& after.phase == PollPhase::Resting
            &&& poll_action(poll, event) == Some(
                PollAction::Sleep { interval_millis: poll.interval_millis },
            )
        }),
{
}

/// Counting keeps the failures within the attempts, and no counter ever
/// goes down.
pub proof fn lemma_record_consistent(metrics: Metrics, attempt: Attempt)
    requires
        metrics.consistent(),
    ensures
        recorded(metrics, attempt).consistent(),
        recorded(metrics, attempt).measure_total >= metrics.measure_total,
        recorded(metrics, attempt).failure_total >= metrics.failure_total,
{
}

/// After any number of attempts in a row that give no reading, starting
/// from nothing, both counters stand at that number and the reading is
/// still the initial one.
pub proof fn lemma_sustained_failure(attempts: Seq<Attempt>)
    requires
        forall|i: int| 0 <= i < attempts.len() ==> !(attempts[i] is Measured),
        attempts.len() <= u64::MAX,
    ensures
        recorded_all(fresh(), attempts).measure_total == attempts.len(),
        recorded_all(fresh(), attempts).failure_total == attempts.len(),
        recorded_all(fresh(), attempts).co2_ppm == fresh().co2_ppm,
    decreases attempts.len(),
{
    if attempts.len() > 0 {
        let init = attempts.drop_last();
        assert forall|i: int| 0 <= i < init.len() implies !(init[i] is Measured) by {
            assert(init[i] == attempts[i]);
        }
        lemma_sustained_failure(init);
    }
}

/// Whatever the poll loop reports, in whatever order, the collector never
/// holds more failures than attempts, its counters never go down, and its
/// interval and deadline stay what they were.
pub proof fn lemma_failures_within_attempts(poll: Poll, events: Seq<PollEvent>)
    requires
        poll.metrics.consistent(),
    ensures
        poll_run(poll, events).metrics.consistent(),
        poll_run(poll, events).metrics.measure_total >= poll.metrics.measure_total,
        poll_run(poll, events).metrics.failure_total >= poll.metrics.failure_total,
        poll_run(poll, events).interval_millis == poll.interval_millis,
        poll_run(poll, events).timeout_millis == poll.timeout_millis,
    decreases events.len(),
{
    if events.len() > 0 {
        lemma_failures_within_attempts(poll, events.drop_last());
    }
}

/// Every state that a collector can reach from its start holds no more
/// failures than attempts.
pub proof fn lemma_reachable_consistent(
    interval_millis: u64,
    timeout_millis: u64,
    events: Seq<PollEvent>,
)
    ensures
        poll_run(initial(interval_millis, timeout_millis), events).metrics.consistent(),
        timeout_millis < interval_millis ==> poll_run(
            initial(interval_millis, timeout_millis),
            events,
        ).well_formed(),
{
    lemma_failures_within_attempts(initial(interval_millis, timeout_millis), events);
}

/// In a well-formed collector an attempt is always given up sooner than the
/// rest that follows it lasts: the deadline handed out with an attempt is
/// strictly shorter than the interval handed out at its end.
pub proof fn lemma_deadline_within_interval(poll: Poll, ticket: u64, attempt: Attempt)
    requires
        poll.well_formed(),
    ensures
        poll_action(poll, PollEvent::Due) matches Some(
            PollAction::Measure { timeout_millis, .. },
        ) ==> timeout_millis < poll.interval_millis,
        poll_action(poll, PollEvent::Finished { ticket, attempt }) matches Some(
            PollAction::Sleep { interval_millis },
        ) ==> poll.timeout_millis < interval_millis,
{
}

/// The loop never ends: while resting, the next attempt is always granted;
/// however that attempt ends, the end is taken in and answered with a rest,
/// after which the collector rests again.
pub proof fn lemma_loop_goes_on(poll: Poll, attempt: Attempt)
    requires
        poll.phase == PollPhase::Resting,
    ensures
        ({
            let ticket = poll.metrics.measure_total;
            let measuring = poll_next(poll, PollEvent::Due);
            let ended = PollEvent::Finished { ticket, attempt };
            &&& poll_action(poll, PollEvent::Due) == Some(
                PollAction::Measure { ticket, timeout_millis: poll.timeout_millis },
            )
            &&& measuring.phase == PollPhase::Measuring
            &&& poll_action(measuring, ended) == Some(
                PollAction::Sleep { interval_millis: poll.interval_millis },
            )
            &&& poll_next(measuring, ended).phase == PollPhase::Resting
        }),
{
}

/// The end of an attempt that is not the one under way, such as the late
/// answer to an attempt that was given up, changes nothing: neither the
/// reading nor a counter.
pub proof fn lemma_late_result_discarded(poll: Poll, ticket: u64, attempt: Attempt)
    requires
        poll.phase == PollPhase::Resting || ticket != poll.metrics.measure_total,
    ensures
        poll_next(poll, PollEvent::Finished { ticket, attempt }) == poll,
        poll_action(poll, PollEvent::Finished { ticket, attempt }) is None,
{
}

} // verus!
