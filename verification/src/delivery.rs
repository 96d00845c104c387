//! How one delivery is decided: immediate reservation, the bounded wait for
//! queue capacity, and what becomes of a recipient that stays full.
//!
//! Each decision is a function of what has been observed so far. It names the
//! next observation to make, until the delivery is settled; the outbound
//! queues, the timer, and the drain signal stay with the caller.

use vstd::prelude::*;

use crate::connection::{Moment, Nanos};
use crate::routing::InMemoryMessageCoordinator;

verus! {

/// What became of a delivery that was settled.
#[derive(Clone, Copy, Debug, PartialEq, Eq, Structural)]
pub enum DeliveryOutcome {
    Delivered,
    Canceled,
    ChannelClosed,
    SlowConsumer,
}

/// How an attempted delivery is accounted for.
#[derive(Clone, Copy, Debug, PartialEq, Eq, Structural)]
pub enum DeliveryResolution {
    /// The frame is in the recipient's queue.
    Enqueued,
    /// The delivery was called off after it was attempted.
    Canceled,
    /// The recipient's connection is closing.
    ChannelClosed,
    /// The frame is lost to a recipient that is disconnected for it.
    Dropped,
    /// The queue accounted for the frame itself.
    RecordedByQueue,
}

/// The bookkeeping a delivery leaves behind.
#[derive(Clone, Copy, Debug, PartialEq, Eq, Structural)]
pub struct DeliveryRecord {
    /// The delivery counts as attempted.
    pub attempted: bool,
    /// The recipient's queue was full.
    pub backpressured: bool,
    /// How the attempt was resolved; open while a permit is held.
    pub resolution: Option<DeliveryResolution>,
    /// The delivery disconnected a slow consumer.
    pub disconnected_slow_consumer: bool,
}

/// The record of a delivery called off before it was attempted.
pub open spec fn not_attempted() -> DeliveryRecord {
    DeliveryRecord {
        attempted: false,
        backpressured: false,
        resolution: None,
        disconnected_slow_consumer: false,
    }
}

/// The record of an attempted delivery.
pub open spec fn attempt_record(
    backpressured: bool,
    resolution: Option<DeliveryResolution>,
    disconnected_slow_consumer: bool,
) -> DeliveryRecord {
    DeliveryRecord { attempted: true, backpressured, resolution, disconnected_slow_consumer }
}

/// Answer of a queue asked for a permit without waiting.
#[derive(Clone, Copy, Debug, PartialEq, Eq, Structural)]
pub enum ReserveAttempt {
    Permit,
    Closed,
    Canceled,
    /// The queue is full; it may witness since when. `now` is the time of the
    /// answer.
    Full { witnessed_at: Option<Moment>, now: Moment },
}

/// What ended a wait for capacity. Where several are ready at once the drain
/// signal comes first and the deadline second.
#[derive(Clone, Copy, Debug, PartialEq, Eq, Structural)]
pub enum CapacityWake {
    Drained,
    DeadlineReached,
    Permit,
    Closed,
    Full,
    Canceled,
}

/// Answer of a queue asked, at the deadline, for capacity released before it.
#[derive(Clone, Copy, Debug, PartialEq, Eq, Structural)]
pub enum LateAttempt {
    Permit,
    NotReleased,
    Closed,
    Canceled,
    Full,
}

/// When the grace of a full recipient ends: one timeout after it was observed
/// full, or at once if that lies beyond the clock.
pub open spec fn grace_deadline(full_observed_at: Moment, timeout: Nanos) -> Moment {
    if full_observed_at + timeout <= u128::MAX {
        (full_observed_at + timeout) as u128
    } else {
        full_observed_at
    }
}

/// Since when a queue counts as full.
pub open spec fn full_since(witnessed_at: Option<Moment>, now: Moment) -> Moment {
    match witnessed_at {
        Some(witnessed) => witnessed,
        None => now,
    }
}

/// When the grace of a full recipient ends.
pub fn capacity_deadline(witnessed_at: Option<Moment>, now: Moment, timeout: Nanos) -> (deadline:
    Moment)
    ensures
        deadline == grace_deadline(full_since(witnessed_at, now), timeout),
{
    let full_observed_at = match witnessed_at {
        Some(witnessed) => witnessed,
        None => now,
    };
    match full_observed_at.checked_add(timeout) {
        Some(deadline) => deadline,
        None => full_observed_at,
    }
}

/// What has been observed of a wait for capacity.
#[derive(Clone, Copy, Debug, PartialEq, Eq, Structural)]
pub struct CapacityWait {
    pub wake: Option<CapacityWake>,
    /// Whether the delivery was still wanted when the wait ended.
    pub open_at_wake: Option<bool>,
    pub late: Option<LateAttempt>,
    /// Whether the slow-consumer close was initiated by this delivery.
    pub initiated_close: Option<bool>,
}

/// Where a wait for capacity stands.
#[derive(Clone, Copy, Debug, PartialEq, Eq, Structural)]
pub enum CapacityStep {
    AwaitCapacity,
    ReadGate,
    TryReleasedBeforeDeadline,
    RequestClose,
    Settled(CapacityVerdict),
}

/// How a wait for capacity ends.
#[derive(Clone, Copy, Debug, PartialEq, Eq, Structural)]
pub enum CapacityVerdict {
    Permit,
    /// Nobody wants the delivery any more.
    CalledOff,
    /// The queue fenced the delivery off.
    Canceled,
    ChannelClosed,
    SlowConsumer { initiated_close: bool },
}

impl CapacityWait {
    pub fn new() -> (wait: Self)
        ensures
            wait.wake is None,
            wait.open_at_wake is None,
            wait.late is None,
            wait.initiated_close is None,
    {
        CapacityWait { wake: None, open_at_wake: None, late: None, initiated_close: None }
    }

    /// Where the wait stands. Capacity that returned only after the deadline
    /// cannot revive it, and a queue state that became terminal by then is
    /// more specific than the expired grace.
    pub open spec fn spec_step(self) -> CapacityStep {
        match self.wake {
            None => CapacityStep::AwaitCapacity,
            Some(CapacityWake::Drained) => CapacityStep::Settled(CapacityVerdict::CalledOff),
            Some(CapacityWake::Closed) | Some(CapacityWake::Full) => CapacityStep::Settled(
                CapacityVerdict::ChannelClosed,
            ),
            Some(CapacityWake::Canceled) => CapacityStep::Settled(CapacityVerdict::Canceled),
            Some(CapacityWake::Permit) => match self.open_at_wake {
                None => CapacityStep::ReadGate,
                Some(false) => CapacityStep::Settled(CapacityVerdict::CalledOff),
                Some(true) => CapacityStep::Settled(CapacityVerdict::Permit),
            },
            Some(CapacityWake::DeadlineReached) => match self.open_at_wake {
                None => CapacityStep::ReadGate,
                Some(false) => CapacityStep::Settled(CapacityVerdict::CalledOff),
                Some(true) => match self.late {
                    None => CapacityStep::TryReleasedBeforeDeadline,
                    Some(LateAttempt::Permit) => CapacityStep::Settled(CapacityVerdict::Permit),
                    Some(LateAttempt::Canceled) => CapacityStep::Settled(CapacityVerdict::Canceled),
                    Some(LateAttempt::Closed) => CapacityStep::Settled(
                        CapacityVerdict::ChannelClosed,
                    ),
                    Some(LateAttempt::NotReleased) | Some(LateAttempt::Full) =>
                        match self.initiated_close {
                        None => CapacityStep::RequestClose,
                        Some(initiated_close) => CapacityStep::Settled(
                            CapacityVerdict::SlowConsumer { initiated_close },
                        ),
                    },
                },
            },
        }
    }

    /// Where the wait stands.
    pub fn step(&self) -> (step: CapacityStep)
        ensures
            step == self.spec_step(),
    {
        let wake = match self.wake {
            None => {
                return CapacityStep::AwaitCapacity;
            },
            Some(wake) => wake,
        };
        match wake {
            CapacityWake::Drained => {
                return CapacityStep::Settled(CapacityVerdict::CalledOff);
            },
            CapacityWake::Closed | CapacityWake::Full => {
                return CapacityStep::Settled(CapacityVerdict::ChannelClosed);
            },
            CapacityWake::Canceled => {
                return CapacityStep::Settled(CapacityVerdict::Canceled);
            },
            CapacityWake::Permit | CapacityWake::DeadlineReached => {},
        }
        let open = match self.open_at_wake {
            None => {
                return CapacityStep::ReadGate;
            },
            Some(open) => open,
        };
        if !open {
            return CapacityStep::Settled(CapacityVerdict::CalledOff);
        }
        if wake == CapacityWake::Permit {
            return CapacityStep::Settled(CapacityVerdict::Permit);
        }
        match self.late {
            None => CapacityStep::TryReleasedBeforeDeadline,
            Some(LateAttempt::Permit) => CapacityStep::Settled(CapacityVerdict::Permit),
            Some(LateAttempt::Canceled) => CapacityStep::Settled(CapacityVerdict::Canceled),
            Some(LateAttempt::Closed) => CapacityStep::Settled(CapacityVerdict::ChannelClosed),
            Some(LateAttempt::NotReleased) | Some(LateAttempt::Full) => match self.initiated_close {
                None => CapacityStep::RequestClose,
                Some(initiated_close) => CapacityStep::Settled(
                    CapacityVerdict::SlowConsumer { initiated_close },
                ),
            },
        }
    }
}

/// The record of a delivery whose wait for capacity ended with `verdict`.
pub open spec fn wait_record(verdict: CapacityVerdict) -> DeliveryRecord {
    match verdict {
        CapacityVerdict::Permit => attempt_record(true, None, false),
        CapacityVerdict::CalledOff | CapacityVerdict::Canceled => attempt_record(
            true,
            Some(DeliveryResolution::Canceled),
            false,
        ),
        CapacityVerdict::ChannelClosed => attempt_record(
            true,
            Some(DeliveryResolution::ChannelClosed),
            false,
        ),
        CapacityVerdict::SlowConsumer { initiated_close } => attempt_record(
            true,
            Some(DeliveryResolution::Dropped),
            initiated_close,
        ),
    }
}

/// The record of an attempted delivery.
fn attempted(
    backpressured: bool,
    resolution: Option<DeliveryResolution>,
    disconnected_slow_consumer: bool,
) -> (record: DeliveryRecord)
    ensures
        record == attempt_record(backpressured, resolution, disconnected_slow_consumer),
{
    DeliveryRecord { attempted: true, backpressured, resolution, disconnected_slow_consumer }
}

/// The record of a delivery whose wait for capacity ended with `verdict`.
fn record_of_wait(verdict: CapacityVerdict) -> (record: DeliveryRecord)
    ensures
        record == wait_record(verdict),
{
    match verdict {
        CapacityVerdict::Permit => attempted(true, None, false),
        CapacityVerdict::CalledOff | CapacityVerdict::Canceled => attempted(
            true,
            Some(DeliveryResolution::Canceled),
            false,
        ),
        CapacityVerdict::ChannelClosed => attempted(
            true,
            Some(DeliveryResolution::ChannelClosed),
            false,
        ),
        CapacityVerdict::SlowConsumer { initiated_close } => attempted(
            true,
            Some(DeliveryResolution::Dropped),
            initiated_close,
        ),
    }
}

/// How a conditional reservation ends.
#[derive(Clone, Copy, Debug, PartialEq, Eq, Structural)]
pub enum ReservationOutcome {
    /// A permit is held.
    Reserved,
    ChannelClosed,
    SlowConsumer,
    Canceled,
}

/// What has been observed of a conditional reservation.
#[derive(Clone, Copy, Debug, PartialEq, Eq, Structural)]
pub struct ReservationProgress {
    /// Whether the delivery was wanted to begin with: no drain, and the
    /// sender's own condition holds.
    pub open_at_start: Option<bool>,
    pub attempt: Option<ReserveAttempt>,
    pub wait: CapacityWait,
}

/// The next step of a conditional reservation.
#[derive(Clone, Copy, Debug, PartialEq, Eq, Structural)]
pub enum ReservationStep {
    /// Observe whether the delivery is wanted.
    ReadGate,
    /// Ask the queue for a permit without waiting.
    TryReserve,
    /// Wait for capacity, at most until `deadline`.
    AwaitCapacity { deadline: Moment },
    /// Observe whether the delivery is still wanted.
    ReadGateAgain,
    /// Ask the queue for capacity released before `deadline`.
    TryReleasedBefore { deadline: Moment },
    /// Request the slow-consumer close of the recipient.
    RequestClose,
    Done { outcome: ReservationOutcome, record: DeliveryRecord },
}

impl ReservationProgress {
    pub fn new() -> (progress: Self)
        ensures
            progress.open_at_start is None,
            progress.attempt is None,
            progress.wait.wake is None,
            progress.wait.open_at_wake is None,
            progress.wait.late is None,
            progress.wait.initiated_close is None,
    {
        ReservationProgress { open_at_start: None, attempt: None, wait: CapacityWait::new() }
    }

    /// The step that follows while the queue's answer was `attempt`.
    pub open spec fn step_after(self, attempt: ReserveAttempt, timeout: Nanos) -> ReservationStep {
        match attempt {
            ReserveAttempt::Permit => ReservationStep::Done {
                outcome: ReservationOutcome::Reserved,
                record: attempt_record(false, None, false),
            },
            ReserveAttempt::Closed => ReservationStep::Done {
                outcome: ReservationOutcome::ChannelClosed,
                record: attempt_record(false, Some(DeliveryResolution::ChannelClosed), false),
            },
            ReserveAttempt::Canceled => ReservationStep::Done {
                outcome: ReservationOutcome::Canceled,
                record: attempt_record(false, Some(DeliveryResolution::Canceled), false),
            },
            ReserveAttempt::Full { witnessed_at, now } => {
                let deadline = grace_deadline(full_since(witnessed_at, now), timeout);
                match self.wait.spec_step() {
                    CapacityStep::AwaitCapacity => ReservationStep::AwaitCapacity { deadline },
                    CapacityStep::ReadGate => ReservationStep::ReadGateAgain,
                    CapacityStep::TryReleasedBeforeDeadline => ReservationStep::TryReleasedBefore {
                        deadline,
                    },
                    CapacityStep::RequestClose => ReservationStep::RequestClose,
                    CapacityStep::Settled(verdict) => ReservationStep::Done {
                        outcome: match verdict {
                            CapacityVerdict::Permit => ReservationOutcome::Reserved,
                            CapacityVerdict::CalledOff | CapacityVerdict::Canceled =>
                                ReservationOutcome::Canceled,
                            CapacityVerdict::ChannelClosed => ReservationOutcome::ChannelClosed,
                            CapacityVerdict::SlowConsumer { .. } =>
                                ReservationOutcome::SlowConsumer,
                        },
                        record: wait_record(verdict),
                    },
                }
            },
        }
    }

    /// The next step of a conditional reservation.
    pub open spec fn spec_step(self, timeout: Nanos) -> ReservationStep {
        match self.open_at_start {
            None => ReservationStep::ReadGate,
            Some(false) => ReservationStep::Done {
                outcome: ReservationOutcome::Canceled,
                record: not_attempted(),
            },
            Some(true) => match self.attempt {
                None => ReservationStep::TryReserve,
                Some(attempt) => self.step_after(attempt, timeout),
            },
        }
    }
}

/// The outcome of a reservation whose wait ended with `verdict`.
fn reservation_after_wait(verdict: CapacityVerdict) -> (step: ReservationStep)
    ensures
        step == (ReservationStep::Done {
            outcome: match verdict {
                CapacityVerdict::Permit => ReservationOutcome::Reserved,
                CapacityVerdict::CalledOff | CapacityVerdict::Canceled =>
                    ReservationOutcome::Canceled,
                CapacityVerdict::ChannelClosed => ReservationOutcome::ChannelClosed,
                CapacityVerdict::SlowConsumer { .. } => ReservationOutcome::SlowConsumer,
            },
            record: wait_record(verdict),
        }),
{
    let outcome = match verdict {
        CapacityVerdict::Permit => ReservationOutcome::Reserved,
        CapacityVerdict::CalledOff | CapacityVerdict::Canceled => ReservationOutcome::Canceled,
        CapacityVerdict::ChannelClosed => ReservationOutcome::ChannelClosed,
        CapacityVerdict::SlowConsumer { .. } => ReservationOutcome::SlowConsumer,
    };
    ReservationStep::Done { outcome, record: record_of_wait(verdict) }
}

impl InMemoryMessageCoordinator {
    /// The next step of reserving one recipient's queue for a frame that is
    /// sent only while its sender still wants it.
    pub fn reserve_one_if(&self, progress: &ReservationProgress) -> (step: ReservationStep)
        ensures
            step == progress.spec_step(self@.slow_consumer_timeout),
    {
        match progress.open_at_start {
            None => {
                return ReservationStep::ReadGate;
            },
            Some(open) => {
                if !open {
                    let record = DeliveryRecord {
                        attempted: false,
                        backpressured: false,
                        resolution: None,
                        disconnected_slow_consumer: false,
                    };
                    return ReservationStep::Done { outcome: ReservationOutcome::Canceled, record };
                }
            },
        }
        match progress.attempt {
            None => ReservationStep::TryReserve,
            Some(ReserveAttempt::Permit) => ReservationStep::Done {
                outcome: ReservationOutcome::Reserved,
                record: attempted(false, None, false),
            },
            Some(ReserveAttempt::Closed) => ReservationStep::Done {
                outcome: ReservationOutcome::ChannelClosed,
                record: attempted(false, Some(DeliveryResolution::ChannelClosed), false),
            },
            Some(ReserveAttempt::Canceled) => ReservationStep::Done {
                outcome: ReservationOutcome::Canceled,
                record: attempted(false, Some(DeliveryResolution::Canceled), false),
            },
            Some(ReserveAttempt::Full { witnessed_at, now }) => {
                let deadline = capacity_deadline(witnessed_at, now, self.slow_consumer_timeout());
                match progress.wait.step() {
                    CapacityStep::AwaitCapacity => ReservationStep::AwaitCapacity { deadline },
                    CapacityStep::ReadGate => ReservationStep::ReadGateAgain,
                    CapacityStep::TryReleasedBeforeDeadline => ReservationStep::TryReleasedBefore {
                        deadline,
                    },
                    CapacityStep::RequestClose => ReservationStep::RequestClose,
                    CapacityStep::Settled(verdict) => reservation_after_wait(verdict),
                }
            },
        }
    }
}

/// Answer of a queue that was handed a frame without waiting.
#[derive(Clone, Copy, Debug, PartialEq, Eq, Structural)]
pub enum SendAttempt {
    /// The queue took a decision on the frame and recorded it as `outcome`.
    Taken { outcome: DeliveryOutcome },
    Closed,
    /// The queue is full; it may witness since when. `now` is the time of the
    /// answer.
    Full { witnessed_at: Option<Moment>, now: Moment },
    /// The queue cannot account for the frame; `outcome` is what failing the
    /// connection closed was recorded as.
    FailedClosed { outcome: DeliveryOutcome },
}

/// Answer of a queue to a frame sent on a held permit.
#[derive(Clone, Copy, Debug, PartialEq, Eq, Structural)]
pub enum SendReceipt {
    /// The frame is in the queue.
    Enqueued,
    /// The permit had become stale.
    Stale,
    /// The recipient's connection is closing.
    Closed,
}

/// What has been observed of a conditional delivery.
#[derive(Clone, Copy, Debug, PartialEq, Eq, Structural)]
pub struct DeliveryProgress {
    pub open_at_start: Option<bool>,
    pub attempt: Option<SendAttempt>,
    pub wait: CapacityWait,
    pub receipt: Option<SendReceipt>,
}

/// The next step of a conditional delivery.
#[derive(Clone, Copy, Debug, PartialEq, Eq, Structural)]
pub enum DeliveryStep {
    /// Observe whether the delivery is wanted.
    ReadGate,
    /// Hand the queue the frame without waiting.
    TrySend,
    /// Wait for capacity, at most until `deadline`.
    AwaitCapacity { deadline: Moment },
    /// Observe whether the delivery is still wanted.
    ReadGateAgain,
    /// Ask the queue for capacity released before `deadline`.
    TryReleasedBefore { deadline: Moment },
    /// Request the slow-consumer close of the recipient.
    RequestClose,
    /// Send the frame on the permit.
    Send,
    /// `outcome` is `None` for a delivery its sender called off.
    Done { outcome: Option<DeliveryOutcome>, record: DeliveryRecord },
}

/// What a frame sent on a permit comes to.
pub open spec fn receipt_outcome(receipt: SendReceipt) -> DeliveryOutcome {
    match receipt {
        SendReceipt::Enqueued => DeliveryOutcome::Delivered,
        SendReceipt::Stale => DeliveryOutcome::Canceled,
        SendReceipt::Closed => DeliveryOutcome::ChannelClosed,
    }
}

/// How a frame sent on a permit is accounted for.
pub open spec fn receipt_resolution(receipt: SendReceipt) -> DeliveryResolution {
    match receipt {
        SendReceipt::Enqueued => DeliveryResolution::Enqueued,
        SendReceipt::Stale => DeliveryResolution::Canceled,
        SendReceipt::Closed => DeliveryResolution::ChannelClosed,
    }
}

/// What a frame sent on a permit comes to, and how it is accounted for.
pub fn settle_receipt(receipt: SendReceipt) -> (settled: (DeliveryOutcome, DeliveryResolution))
    ensures
        settled.0 == receipt_outcome(receipt),
        settled.1 == receipt_resolution(receipt),
{
    match receipt {
        SendReceipt::Enqueued => (DeliveryOutcome::Delivered, DeliveryResolution::Enqueued),
        SendReceipt::Stale => (DeliveryOutcome::Canceled, DeliveryResolution::Canceled),
        SendReceipt::Closed => (DeliveryOutcome::ChannelClosed, DeliveryResolution::ChannelClosed),
    }
}

impl DeliveryProgress {
    pub fn new() -> (progress: Self)
        ensures
            progress.open_at_start is None,
            progress.attempt is None,
            progress.wait.wake is None,
            progress.wait.open_at_wake is None,
            progress.wait.late is None,
            progress.wait.initiated_close is None,
            progress.receipt is None,
    {
        DeliveryProgress {
            open_at_start: None,
            attempt: None,
            wait: CapacityWait::new(),
            receipt: None,
        }
    }

    /// The step that follows once the wait for capacity ended with `verdict`.
    pub open spec fn step_after_wait(self, verdict: CapacityVerdict) -> DeliveryStep {
        match verdict {
            CapacityVerdict::Permit => match self.receipt {
                None => DeliveryStep::Send,
                Some(receipt) => DeliveryStep::Done {
                    outcome: Some(receipt_outcome(receipt)),
                    record: attempt_record(true, Some(receipt_resolution(receipt)), false),
                },
            },
            CapacityVerdict::CalledOff => DeliveryStep::Done {
                outcome: None,
                record: wait_record(verdict),
            },
            CapacityVerdict::Canceled => DeliveryStep::Done {
                outcome: Some(DeliveryOutcome::Canceled),
                record: wait_record(verdict),
            },
            CapacityVerdict::ChannelClosed => DeliveryStep::Done {
                outcome: Some(DeliveryOutcome::ChannelClosed),
                record: wait_record(verdict),
            },
            CapacityVerdict::SlowConsumer { .. } => DeliveryStep::Done {
                outcome: Some(DeliveryOutcome::SlowConsumer),
                record: wait_record(verdict),
            },
        }
    }

    /// The step that follows while the queue's answer was `attempt`.
    pub open spec fn step_after(self, attempt: SendAttempt, timeout: Nanos) -> DeliveryStep {
        match attempt {
            SendAttempt::Taken { outcome } => DeliveryStep::Done {
                outcome: Some(outcome),
                record: attempt_record(false, Some(DeliveryResolution::RecordedByQueue), false),
            },
            SendAttempt::FailedClosed { outcome } => DeliveryStep::Done {
                outcome: Some(outcome),
                record: attempt_record(false, Some(DeliveryResolution::RecordedByQueue), false),
            },
            SendAttempt::Closed => DeliveryStep::Done {
                outcome: Some(DeliveryOutcome::ChannelClosed),
                record: attempt_record(false, Some(DeliveryResolution::ChannelClosed), false),
            },
            SendAttempt::Full { witnessed_at, now } => {
                let deadline = grace_deadline(full_since(witnessed_at, now), timeout);
                match self.wait.spec_step() {
                    CapacityStep::AwaitCapacity => DeliveryStep::AwaitCapacity { deadline },
                    CapacityStep::ReadGate => DeliveryStep::ReadGateAgain,
                    CapacityStep::TryReleasedBeforeDeadline => DeliveryStep::TryReleasedBefore {
                        deadline,
                    },
                    CapacityStep::RequestClose => DeliveryStep::RequestClose,
                    CapacityStep::Settled(verdict) => self.step_after_wait(verdict),
                }
            },
        }
    }

    /// The next step of a conditional delivery.
    pub open spec fn spec_step(self, timeout: Nanos) -> DeliveryStep {
        match self.open_at_start {
            None => DeliveryStep::ReadGate,
            Some(false) => DeliveryStep::Done { outcome: None, record: not_attempted() },
            Some(true) => match self.attempt {
                None => DeliveryStep::TrySend,
                Some(attempt) => self.step_after(attempt, timeout),
            },
        }
    }
}

/// The delivery step that follows once the wait ended with `verdict`.
fn delivery_after_wait(progress: &DeliveryProgress, verdict: CapacityVerdict) -> (step: DeliveryStep)
    ensures
        step == progress.step_after_wait(verdict),
{
    let record = record_of_wait(verdict);
    match verdict {
        CapacityVerdict::Permit => match progress.receipt {
            None => DeliveryStep::Send,
            Some(receipt) => {
                let (outcome, resolution) = settle_receipt(receipt);
                DeliveryStep::Done {
                    outcome: Some(outcome),
                    record: attempted(true, Some(resolution), false),
                }
            },
        },
        CapacityVerdict::CalledOff => DeliveryStep::Done { outcome: None, record },
        CapacityVerdict::Canceled => DeliveryStep::Done {
            outcome: Some(DeliveryOutcome::Canceled),
            record,
        },
        CapacityVerdict::ChannelClosed => DeliveryStep::Done {
            outcome: Some(DeliveryOutcome::ChannelClosed),
            record,
        },
        CapacityVerdict::SlowConsumer { .. } => DeliveryStep::Done {
            outcome: Some(DeliveryOutcome::SlowConsumer),
            record,
        },
    }
}

/// The next step of queueing the frame that opens a room transition.
#[derive(Clone, Copy, Debug, PartialEq, Eq)]
pub enum InitialStep {
    /// Ask the queue for a permit without waiting.
    TryReserve,
    /// Wait for capacity, at most until `deadline`.
    AwaitCapacity { deadline: Moment },
    /// Ask the queue for capacity released before `deadline`.
    TryReleasedBefore { deadline: Moment },
    /// Request the slow-consumer close of the recipient.
    RequestClose,
    /// `permit` holds the queue, or the transition failed with the outcome.
    Done { permit: Result<(), DeliveryOutcome>, record: DeliveryRecord },
}

/// What has been observed of the reservation that opens a room transition. No
/// gate and no drain signal can call it off.
#[derive(Clone, Copy, Debug, PartialEq, Eq, Structural)]
pub struct InitialProgress {
    pub attempt: Option<ReserveAttempt>,
    pub wake: Option<CapacityWake>,
    pub late: Option<LateAttempt>,
    pub initiated_close: Option<bool>,
}

impl InitialProgress {
    pub fn new() -> (progress: Self)
        ensures
            progress.attempt is None,
            progress.wake is None,
            progress.late is None,
            progress.initiated_close is None,
    {
        InitialProgress { attempt: None, wake: None, late: None, initiated_close: None }
    }

    /// The wait for capacity of a transition, which stays wanted throughout.
    pub open spec fn wait(self) -> CapacityWait {
        CapacityWait {
            wake: self.wake,
            open_at_wake: Some(true),
            late: self.late,
            initiated_close: self.initiated_close,
        }
    }

    /// The next step of a transition reservation.
    pub open spec fn spec_step(self, timeout: Nanos) -> InitialStep {
        match self.attempt {
            None => InitialStep::TryReserve,
            Some(ReserveAttempt::Permit) => InitialStep::Done {
                permit: Ok(()),
                record: attempt_record(false, None, false),
            },
            Some(ReserveAttempt::Closed) => InitialStep::Done {
                permit: Err(DeliveryOutcome::ChannelClosed),
                record: attempt_record(false, Some(DeliveryResolution::ChannelClosed), false),
            },
            Some(ReserveAttempt::Canceled) => InitialStep::Done {
                permit: Err(DeliveryOutcome::Canceled),
                record: attempt_record(false, Some(DeliveryResolution::Canceled), false),
            },
            Some(ReserveAttempt::Full { witnessed_at, now }) => {
                let deadline = grace_deadline(full_since(witnessed_at, now), timeout);
                match self.wait().spec_step() {
                    CapacityStep::AwaitCapacity | CapacityStep::ReadGate =>
                        InitialStep::AwaitCapacity { deadline },
                    CapacityStep::TryReleasedBeforeDeadline => InitialStep::TryReleasedBefore {
                        deadline,
                    },
                    CapacityStep::RequestClose => InitialStep::RequestClose,
                    CapacityStep::Settled(verdict) => InitialStep::Done {
                        permit: match verdict {
                            CapacityVerdict::Permit => Ok(()),
                            CapacityVerdict::CalledOff | CapacityVerdict::Canceled => Err(
                                DeliveryOutcome::Canceled,
                            ),
                            CapacityVerdict::ChannelClosed => Err(DeliveryOutcome::ChannelClosed),
                            CapacityVerdict::SlowConsumer { .. } => Err(
                                DeliveryOutcome::SlowConsumer,
                            ),
                        },
                        record: wait_record(verdict),
                    },
                }
            },
        }
    }
}

impl InMemoryMessageCoordinator {
    /// The next step of delivering one frame that is sent only while its
    /// sender still wants it.
    pub fn deliver_to_one_if(&self, progress: &DeliveryProgress) -> (step: DeliveryStep)
        ensures
            step == progress.spec_step(self@.slow_consumer_timeout),
    {
        match progress.open_at_start {
            None => {
                return DeliveryStep::ReadGate;
            },
            Some(open) => {
                if !open {
                    let record = DeliveryRecord {
                        attempted: false,
                        backpressured: false,
                        resolution: None,
                        disconnected_slow_consumer: false,
                    };
                    return DeliveryStep::Done { outcome: None, record };
                }
            },
        }
        match progress.attempt {
            None => DeliveryStep::TrySend,
            Some(SendAttempt::Taken { outcome }) => DeliveryStep::Done {
                outcome: Some(outcome),
                record: attempted(false, Some(DeliveryResolution::RecordedByQueue), false),
            },
            Some(SendAttempt::FailedClosed { outcome }) => DeliveryStep::Done {
                outcome: Some(outcome),
                record: attempted(false, Some(DeliveryResolution::RecordedByQueue), false),
            },
            Some(SendAttempt::Closed) => DeliveryStep::Done {
                outcome: Some(DeliveryOutcome::ChannelClosed),
                record: attempted(false, Some(DeliveryResolution::ChannelClosed), false),
            },
            Some(SendAttempt::Full { witnessed_at, now }) => {
                let deadline = capacity_deadline(witnessed_at, now, self.slow_consumer_timeout());
                match progress.wait.step() {
                    CapacityStep::AwaitCapacity => DeliveryStep::AwaitCapacity { deadline },
                    CapacityStep::ReadGate => DeliveryStep::ReadGateAgain,
                    CapacityStep::TryReleasedBeforeDeadline => DeliveryStep::TryReleasedBefore {
                        deadline,
                    },
                    CapacityStep::RequestClose => DeliveryStep::RequestClose,
                    CapacityStep::Settled(verdict) => delivery_after_wait(progress, verdict),
                }
            },
        }
    }

    /// The next step of reserving the frame that opens a room transition.
    pub fn reserve_initial_transition(&self, progress: &InitialProgress) -> (step: InitialStep)
        ensures
            step == progress.spec_step(self@.slow_consumer_timeout),
    {
        match progress.attempt {
            None => InitialStep::TryReserve,
            Some(ReserveAttempt::Permit) => InitialStep::Done {
                permit: Ok(()),
                record: attempted(false, None, false),
            },
            Some(ReserveAttempt::Closed) => InitialStep::Done {
                permit: Err(DeliveryOutcome::ChannelClosed),
                record: attempted(false, Some(DeliveryResolution::ChannelClosed), false),
            },
            Some(ReserveAttempt::Canceled) => InitialStep::Done {
                permit: Err(DeliveryOutcome::Canceled),
                record: attempted(false, Some(DeliveryResolution::Canceled), false),
            },
            Some(ReserveAttempt::Full { witnessed_at, now }) => {
                let deadline = capacity_deadline(witnessed_at, now, self.slow_consumer_timeout());
                let wait = CapacityWait {
                    wake: progress.wake,
                    open_at_wake: Some(true),
                    late: progress.late,
                    initiated_close: progress.initiated_close,
                };
                match wait.step() {
                    CapacityStep::AwaitCapacity | CapacityStep::ReadGate =>
                        InitialStep::AwaitCapacity { deadline },
                    CapacityStep::TryReleasedBeforeDeadline => InitialStep::TryReleasedBefore {
                        deadline,
                    },
                    CapacityStep::RequestClose => InitialStep::RequestClose,
                    CapacityStep::Settled(verdict) => {
                        let permit = match verdict {
                            CapacityVerdict::Permit => Ok(()),
                            CapacityVerdict::CalledOff | CapacityVerdict::Canceled => Err(
                                DeliveryOutcome::Canceled,
                            ),
                            CapacityVerdict::ChannelClosed => Err(DeliveryOutcome::ChannelClosed),
                            CapacityVerdict::SlowConsumer { .. } => Err(
                                DeliveryOutcome::SlowConsumer,
                            ),
                        };
                        InitialStep::Done { permit, record: record_of_wait(verdict) }
                    },
                }
            },
        }
    }
}

/// A settled reservation is accounted for exactly once: an attempt is left
/// open only while its permit is held, and nothing is recorded of one that was
/// never attempted.
pub proof fn law_settled_reservations_are_accounted(progress: ReservationProgress, timeout: Nanos)
    ensures
        progress.spec_step(timeout) matches ReservationStep::Done { outcome, record } ==> {
            &&& record.attempted ==> (record.resolution is None <==> outcome is Reserved)
            &&& !record.attempted ==> record == not_attempted() && outcome is Canceled
            &&& outcome is SlowConsumer <==> record.resolution == Some(DeliveryResolution::Dropped)
        },
{
}

/// A settled delivery is never silently dropped: every attempted one has a
/// resolution, and a frame is lost only to a recipient whose close was
/// requested for it.
pub proof fn law_no_silent_drop(progress: DeliveryProgress, timeout: Nanos)
    ensures
        progress.spec_step(timeout) matches DeliveryStep::Done { outcome, record } ==> {
            &&& record.attempted ==> record.resolution is Some
            &&& !record.attempted ==> outcome is None
            &&& record.resolution == Some(DeliveryResolution::Dropped) ==> outcome == Some(
                DeliveryOutcome::SlowConsumer,
            ) && progress.wait.initiated_close is Some
            &&& outcome is None && record.attempted ==> record.resolution == Some(
                DeliveryResolution::Canceled,
            )
        },
{
}

/// Capacity that returns at or after the deadline cannot revive an expired
/// wait; only capacity released before it is still granted.
pub proof fn law_expired_waits_are_not_revived(wait: CapacityWait)
    requires
        wait.wake == Some(CapacityWake::DeadlineReached),
        wait.late != Some(LateAttempt::Permit),
    ensures
        wait.spec_step() != CapacityStep::Settled(CapacityVerdict::Permit),
{
}

/// A queue that turns out closed or fenced off at the deadline is not taken
/// for a slow consumer.
pub proof fn law_terminal_queue_states_precede_expiry(wait: CapacityWait)
    requires
        wait.wake == Some(CapacityWake::DeadlineReached),
        wait.late == Some(LateAttempt::Closed) || wait.late == Some(LateAttempt::Canceled),
    ensures
        !(wait.spec_step() matches CapacityStep::Settled(CapacityVerdict::SlowConsumer { .. })),
        wait.spec_step() != CapacityStep::RequestClose,
{
}

/// A delivery called off during a drain is neither a drop nor a disconnect.
pub proof fn law_drain_is_no_loss(wait: CapacityWait)
    requires
        wait.wake == Some(CapacityWake::Drained),
    ensures
        wait.spec_step() == CapacityStep::Settled(CapacityVerdict::CalledOff),
        wait_record(CapacityVerdict::CalledOff).resolution == Some(DeliveryResolution::Canceled),
        !wait_record(CapacityVerdict::CalledOff).disconnected_slow_consumer,
{
}

/// Every step asks for something not observed yet, so a reservation settles
/// after finitely many observations.
pub proof fn law_reservations_make_progress(progress: ReservationProgress, timeout: Nanos)
    ensures
        match progress.spec_step(timeout) {
            ReservationStep::ReadGate => progress.open_at_start is None,
            ReservationStep::TryReserve => progress.attempt is None,
            ReservationStep::AwaitCapacity { .. } => progress.wait.wake is None,
            ReservationStep::ReadGateAgain => progress.wait.open_at_wake is None,
            ReservationStep::TryReleasedBefore { .. } => progress.wait.late is None,
            ReservationStep::RequestClose => progress.wait.initiated_close is None,
            ReservationStep::Done { .. } => true,
        },
{
}

/// Every step asks for something not observed yet, so a delivery settles after
/// finitely many observations.
pub proof fn law_deliveries_make_progress(progress: DeliveryProgress, timeout: Nanos)
    ensures
        match progress.spec_step(timeout) {
            DeliveryStep::ReadGate => progress.open_at_start is None,
            DeliveryStep::TrySend => progress.attempt is None,
            DeliveryStep::AwaitCapacity { .. } => progress.wait.wake is None,
            DeliveryStep::ReadGateAgain => progress.wait.open_at_wake is None,
            DeliveryStep::TryReleasedBefore { .. } => progress.wait.late is None,
            DeliveryStep::RequestClose => progress.wait.initiated_close is None,
            DeliveryStep::Send => progress.receipt is None,
            DeliveryStep::Done { .. } => true,
        },
{
}

/// Every step asks for something not observed yet, so the reservation that
/// opens a room transition settles after finitely many observations.
pub proof fn law_transitions_make_progress(progress: InitialProgress, timeout: Nanos)
    ensures
        match progress.spec_step(timeout) {
            InitialStep::TryReserve => progress.attempt is None,
            InitialStep::AwaitCapacity { .. } => progress.wake is None,
            InitialStep::TryReleasedBefore { .. } => progress.late is None,
            InitialStep::RequestClose => progress.initiated_close is None,
            InitialStep::Done { .. } => true,
        },
{
}

/// The grace of a full recipient runs from the moment its queue was witnessed
/// full, not from when the wait began.
pub proof fn law_grace_starts_when_full_is_witnessed(
    witnessed: Moment,
    now: Moment,
    later: Moment,
    timeout: Nanos,
)
    ensures
        grace_deadline(full_since(Some(witnessed), now), timeout) == grace_deadline(
            full_since(Some(witnessed), later),
            timeout,
        ),
        witnessed + timeout <= u128::MAX ==> grace_deadline(
            full_since(Some(witnessed), now),
            timeout,
        ) == witnessed + timeout,
{
}

/// A wait ends with a permit exactly if capacity came back in time, or was
/// released before the deadline, while the delivery was still wanted.
pub open spec fn capacity_granted(wait: CapacityWait) -> bool {
    &&& wait.open_at_wake == Some(true)
    &&& wait.wake == Some(CapacityWake::Permit) || (wait.wake == Some(CapacityWake::DeadlineReached)
        && wait.late == Some(LateAttempt::Permit))
}

/// A wait ends on a closing connection exactly if the queue said so when it woke
/// the wait, or at the deadline of a delivery still wanted.
pub open spec fn found_closed(wait: CapacityWait) -> bool {
    ||| wait.wake == Some(CapacityWake::Closed)
    ||| wait.wake == Some(CapacityWake::Full)
    ||| wait.wake == Some(CapacityWake::DeadlineReached) && wait.open_at_wake == Some(true)
        && wait.late == Some(LateAttempt::Closed)
}

/// A wait ends fenced off exactly if the queue said so when it woke the wait, or
/// at the deadline of a delivery still wanted.
pub open spec fn fenced_off(wait: CapacityWait) -> bool {
    ||| wait.wake == Some(CapacityWake::Canceled)
    ||| wait.wake == Some(CapacityWake::DeadlineReached) && wait.open_at_wake == Some(true)
        && wait.late == Some(LateAttempt::Canceled)
}

/// A wait ends called off exactly if the server drains or nobody wants the
/// delivery once the wait is over.
pub open spec fn wish_ended(wait: CapacityWait) -> bool {
    ||| wait.wake == Some(CapacityWake::Drained)
    ||| (wait.wake == Some(CapacityWake::Permit) || wait.wake == Some(
        CapacityWake::DeadlineReached,
    )) && wait.open_at_wake == Some(false)
}

/// The grace is over: the deadline came while the delivery was wanted, and
/// nothing was released before it.
pub open spec fn grace_spent(wait: CapacityWait) -> bool {
    &&& wait.wake == Some(CapacityWake::DeadlineReached)
    &&& wait.open_at_wake == Some(true)
    &&& wait.late == Some(LateAttempt::NotReleased) || wait.late == Some(LateAttempt::Full)
}

/// A wanted delivery that found the queue full.
pub open spec fn delivery_waits(progress: DeliveryProgress) -> bool {
    progress.open_at_start == Some(true) && progress.attempt is Some && progress.attempt->0 is Full
}

/// A wanted delivery that the queue settled by itself as `outcome`.
pub open spec fn settled_by_queue(progress: DeliveryProgress, outcome: DeliveryOutcome) -> bool {
    &&& progress.open_at_start == Some(true)
    &&& progress.attempt == Some(SendAttempt::Taken { outcome }) || progress.attempt == Some(
        SendAttempt::FailedClosed { outcome },
    )
}

/// A delivery ends as delivered exactly if the queue took the frame: at once,
/// by its own record, or on a permit that it was then enqueued on.
pub proof fn law_delivered_means_taken(progress: DeliveryProgress, timeout: Nanos)
    ensures
        (progress.spec_step(timeout) matches DeliveryStep::Done {
            outcome: Some(DeliveryOutcome::Delivered),
            ..
        }) <==> settled_by_queue(progress, DeliveryOutcome::Delivered) || (delivery_waits(progress)
            && capacity_granted(progress.wait) && progress.receipt == Some(SendReceipt::Enqueued)),
        progress.spec_step(timeout) matches DeliveryStep::Done { record, .. } ==> (record.resolution
            == Some(DeliveryResolution::Enqueued) <==> delivery_waits(progress)
            && capacity_granted(progress.wait) && progress.receipt == Some(SendReceipt::Enqueued)),
{
}

/// A delivery ends on a closed channel exactly if the queue, when asked, or the
/// permit, when used, turned out closed.
pub proof fn law_closed_means_the_channel_closed(progress: DeliveryProgress, timeout: Nanos)
    ensures
        ({
            let closed = (progress.open_at_start == Some(true) && progress.attempt == Some(
                SendAttempt::Closed,
            )) || (delivery_waits(progress) && (found_closed(progress.wait) || (capacity_granted(
                progress.wait,
            ) && progress.receipt == Some(SendReceipt::Closed))));
            &&& (progress.spec_step(timeout) matches DeliveryStep::Done {
                outcome: Some(DeliveryOutcome::ChannelClosed),
                ..
            }) <==> closed || settled_by_queue(progress, DeliveryOutcome::ChannelClosed)
            &&& progress.spec_step(timeout) matches DeliveryStep::Done { record, .. } ==> (
            record.resolution == Some(DeliveryResolution::ChannelClosed) <==> closed)
        }),
{
}

/// A frame is dropped, and its recipient taken for a slow consumer, exactly if
/// the whole grace passed with the queue full; the disconnect counts for the one
/// delivery that initiated it.
pub proof fn law_only_spent_graces_drop_frames(progress: DeliveryProgress, timeout: Nanos)
    ensures
        ({
            let spent = delivery_waits(progress) && grace_spent(progress.wait)
                && progress.wait.initiated_close is Some;
            &&& (progress.spec_step(timeout) matches DeliveryStep::Done {
                outcome: Some(DeliveryOutcome::SlowConsumer),
                ..
            }) <==> spent || settled_by_queue(progress, DeliveryOutcome::SlowConsumer)
            &&& progress.spec_step(timeout) matches DeliveryStep::Done { record, .. } ==> {
                &&& record.resolution == Some(DeliveryResolution::Dropped) <==> spent
                &&& record.disconnected_slow_consumer <==> spent && progress.wait.initiated_close
                    == Some(true)
            }
        }),
{
}

/// A delivery is canceled exactly if its queue fenced it off, and has no outcome
/// exactly if its sender no longer wanted it; either counts as canceled once it
/// was attempted.
pub proof fn law_canceled_deliveries_were_unwanted_or_fenced(
    progress: DeliveryProgress,
    timeout: Nanos,
)
    ensures
        ({
            let fenced = delivery_waits(progress) && (fenced_off(progress.wait) || (
            capacity_granted(progress.wait) && progress.receipt == Some(SendReceipt::Stale)));
            let unwanted = delivery_waits(progress) && wish_ended(progress.wait);
            &&& (progress.spec_step(timeout) matches DeliveryStep::Done {
                outcome: Some(DeliveryOutcome::Canceled),
                ..
            }) <==> fenced || settled_by_queue(progress, DeliveryOutcome::Canceled)
            &&& (progress.spec_step(timeout) matches DeliveryStep::Done { outcome: None, .. }) <==> (
            unwanted || progress.open_at_start == Some(false))
            &&& progress.spec_step(timeout) matches DeliveryStep::Done { record, .. } ==> (
            record.resolution == Some(DeliveryResolution::Canceled) <==> fenced || unwanted)
        }),
{
}

/// Every delivery that was wanted counts as attempted, and as backpressured
/// exactly if it found the queue full; one that was not wanted leaves nothing
/// behind, and a frame the queue settled by itself is left to its record.
pub proof fn law_wanted_deliveries_count_as_attempts(progress: DeliveryProgress, timeout: Nanos)
    ensures
        progress.spec_step(timeout) matches DeliveryStep::Done { outcome, record } ==> {
            &&& record.attempted <==> progress.open_at_start == Some(true)
            &&& record.backpressured <==> delivery_waits(progress)
            &&& !record.attempted ==> record.resolution is None
            &&& record.resolution == Some(DeliveryResolution::RecordedByQueue) <==> (outcome is Some
                && settled_by_queue(progress, outcome->0))
        },
{
}

/// A delivery asks for each observation exactly when it is the next one it
/// needs, and waits for one timeout from when the queue was full.
pub proof fn law_deliveries_ask_for_what_is_missing(progress: DeliveryProgress, timeout: Nanos)
    ensures
        ({
            let step = progress.spec_step(timeout);
            let wait = progress.wait;
            let woken = wait.wake == Some(CapacityWake::Permit) || wait.wake == Some(
                CapacityWake::DeadlineReached,
            );
            &&& step is ReadGate <==> progress.open_at_start is None
            &&& step is TrySend <==> progress.open_at_start == Some(true) && progress.attempt
                is None
            &&& step is AwaitCapacity <==> delivery_waits(progress) && wait.wake is None
            &&& step is ReadGateAgain <==> delivery_waits(progress) && woken && wait.open_at_wake
                is None
            &&& step is TryReleasedBefore <==> delivery_waits(progress) && wait.wake == Some(
                CapacityWake::DeadlineReached,
            ) && wait.open_at_wake == Some(true) && wait.late is None
            &&& step is RequestClose <==> delivery_waits(progress) && grace_spent(wait)
                && wait.initiated_close is None
            &&& step is Send <==> delivery_waits(progress) && capacity_granted(wait)
                && progress.receipt is None
            &&& progress.attempt matches Some(SendAttempt::Full { witnessed_at, now }) ==> {
                let since = if witnessed_at is Some {
                    witnessed_at->0
                } else {
                    now
                };
                &&& step matches DeliveryStep::AwaitCapacity { deadline } ==> {
                    &&& since + timeout <= u128::MAX ==> deadline - since == timeout
                    &&& since + timeout > u128::MAX ==> deadline == since
                }
                &&& step matches DeliveryStep::TryReleasedBefore { deadline } ==> {
                    &&& since + timeout <= u128::MAX ==> deadline - since == timeout
                    &&& since + timeout > u128::MAX ==> deadline == since
                }
            }
        }),
{
}

/// A wanted reservation that found the queue full.
pub open spec fn reservation_waits(progress: ReservationProgress) -> bool {
    progress.open_at_start == Some(true) && progress.attempt is Some && progress.attempt->0 is Full
}

/// A reservation ends with each outcome exactly on what its queue answered: a
/// permit only if one was granted, a slow consumer only if the whole grace
/// passed, and canceled only if it was fenced off or nobody wanted it.
pub proof fn law_reservations_end_as_the_queue_answered(
    progress: ReservationProgress,
    timeout: Nanos,
)
    ensures
        ({
            let step = progress.spec_step(timeout);
            let wanted = progress.open_at_start == Some(true);
            let waits = reservation_waits(progress);
            let wait = progress.wait;
            &&& (step matches ReservationStep::Done { outcome: ReservationOutcome::Reserved, .. })
                <==> (wanted && progress.attempt == Some(ReserveAttempt::Permit)) || (waits
                && capacity_granted(wait))
            &&& (step matches ReservationStep::Done { outcome: ReservationOutcome::ChannelClosed, .. })
                <==> (wanted && progress.attempt == Some(ReserveAttempt::Closed)) || (waits
                && found_closed(wait))
            &&& (step matches ReservationStep::Done { outcome: ReservationOutcome::SlowConsumer, .. })
                <==> waits && grace_spent(wait) && wait.initiated_close is Some
            &&& (step matches ReservationStep::Done { outcome: ReservationOutcome::Canceled, .. })
                <==> progress.open_at_start == Some(false) || (wanted && progress.attempt == Some(
                ReserveAttempt::Canceled,
            )) || (waits && (fenced_off(wait) || wish_ended(wait)))
        }),
{
}

/// What a settled reservation leaves behind says how it ended.
pub proof fn law_reservation_records_say_how_it_ended(
    progress: ReservationProgress,
    timeout: Nanos,
)
    ensures
        progress.spec_step(timeout) matches ReservationStep::Done { outcome, record } ==> {
            &&& record.attempted <==> progress.open_at_start == Some(true)
            &&& record.backpressured <==> reservation_waits(progress)
            &&& record.resolution is None <==> outcome is Reserved || progress.open_at_start == Some(
                false,
            )
            &&& record.resolution == Some(DeliveryResolution::ChannelClosed) <==> outcome
                is ChannelClosed
            &&& record.resolution == Some(DeliveryResolution::Dropped) <==> outcome is SlowConsumer
            &&& record.resolution == Some(DeliveryResolution::Canceled) <==> outcome is Canceled
                && progress.open_at_start == Some(true)
            &&& record.disconnected_slow_consumer <==> outcome is SlowConsumer
                && progress.wait.initiated_close == Some(true)
        },
{
}

/// A reservation asks for each observation exactly when it is the next one it
/// needs, and waits for one timeout from when the queue was full.
pub proof fn law_reservations_ask_for_what_is_missing(
    progress: ReservationProgress,
    timeout: Nanos,
)
    ensures
        ({
            let step = progress.spec_step(timeout);
            let waits = reservation_waits(progress);
            let wait = progress.wait;
            let woken = wait.wake == Some(CapacityWake::Permit) || wait.wake == Some(
                CapacityWake::DeadlineReached,
            );
            &&& step is ReadGate <==> progress.open_at_start is None
            &&& step is TryReserve <==> progress.open_at_start == Some(true) && progress.attempt
                is None
            &&& step is AwaitCapacity <==> waits && wait.wake is None
            &&& step is ReadGateAgain <==> waits && woken && wait.open_at_wake is None
            &&& step is TryReleasedBefore <==> waits && wait.wake == Some(
                CapacityWake::DeadlineReached,
            ) && wait.open_at_wake == Some(true) && wait.late is None
            &&& step is RequestClose <==> waits && grace_spent(wait) && wait.initiated_close is None
            &&& progress.attempt matches Some(ReserveAttempt::Full { witnessed_at, now }) ==> {
                let since = if witnessed_at is Some {
                    witnessed_at->0
                } else {
                    now
                };
                &&& step matches ReservationStep::AwaitCapacity { deadline } ==> {
                    &&& since + timeout <= u128::MAX ==> deadline - since == timeout
                    &&& since + timeout > u128::MAX ==> deadline == since
                }
                &&& step matches ReservationStep::TryReleasedBefore { deadline } ==> {
                    &&& since + timeout <= u128::MAX ==> deadline - since == timeout
                    &&& since + timeout > u128::MAX ==> deadline == since
                }
            }
        }),
{
}

/// The reservation that opens a room transition succeeds exactly if the queue
/// granted a permit, at once, in time, or released before the deadline, and
/// fails with what the queue answered otherwise. Only a drain calls it off.
pub proof fn law_transitions_end_as_the_queue_answered(progress: InitialProgress, timeout: Nanos)
    ensures
        ({
            let step = progress.spec_step(timeout);
            let waits = progress.attempt is Some && progress.attempt->0 is Full;
            let at_deadline = waits && progress.wake == Some(CapacityWake::DeadlineReached);
            let unreleased = at_deadline && (progress.late == Some(LateAttempt::NotReleased)
                || progress.late == Some(LateAttempt::Full));
            let closed = progress.attempt == Some(ReserveAttempt::Closed) || (waits && (
            progress.wake == Some(CapacityWake::Closed) || progress.wake == Some(
                CapacityWake::Full,
            ))) || (at_deadline && progress.late == Some(LateAttempt::Closed));
            let canceled = progress.attempt == Some(ReserveAttempt::Canceled) || (waits && (
            progress.wake == Some(CapacityWake::Canceled) || progress.wake == Some(
                CapacityWake::Drained,
            ))) || (at_deadline && progress.late == Some(LateAttempt::Canceled));
            let granted = progress.attempt == Some(ReserveAttempt::Permit) || (waits
                && progress.wake == Some(CapacityWake::Permit)) || (at_deadline && progress.late
                == Some(LateAttempt::Permit));
            &&& step is Done <==> granted || closed || canceled || (unreleased
                && progress.initiated_close is Some)
            &&& step matches InitialStep::Done { permit, record } ==> {
                &&& permit is Ok <==> granted
                &&& permit == Err::<(), DeliveryOutcome>(DeliveryOutcome::ChannelClosed) <==> closed
                &&& permit == Err::<(), DeliveryOutcome>(DeliveryOutcome::Canceled) <==> canceled
                &&& permit == Err::<(), DeliveryOutcome>(DeliveryOutcome::SlowConsumer)
                    <==> unreleased
                &&& permit != Err::<(), DeliveryOutcome>(DeliveryOutcome::Delivered)
                &&& record.attempted
                &&& record.backpressured <==> waits
                &&& record.resolution is None <==> granted
                &&& record.resolution == Some(DeliveryResolution::ChannelClosed) <==> closed
                &&& record.resolution == Some(DeliveryResolution::Canceled) <==> canceled
                &&& record.resolution == Some(DeliveryResolution::Dropped) <==> unreleased
                &&& record.disconnected_slow_consumer <==> unreleased && progress.initiated_close
                    == Some(true)
            }
            &&& step is TryReserve <==> progress.attempt is None
            &&& step is AwaitCapacity <==> waits && progress.wake is None
            &&& step is TryReleasedBefore <==> at_deadline && progress.late is None
            &&& step is RequestClose <==> unreleased && progress.initiated_close is None
            &&& progress.attempt matches Some(ReserveAttempt::Full { witnessed_at, now }) ==> {
                let since = if witnessed_at is Some {
                    witnessed_at->0
                } else {
                    now
                };
                &&& step matches InitialStep::AwaitCapacity { deadline } ==> {
                    &&& since + timeout <= u128::MAX ==> deadline - since == timeout
                    &&& since + timeout > u128::MAX ==> deadline == since
                }
                &&& step matches InitialStep::TryReleasedBefore { deadline } ==> {
                    &&& since + timeout <= u128::MAX ==> deadline - since == timeout
                    &&& since + timeout > u128::MAX ==> deadline == since
                }
            }
        }),
{
}

/// A frame counts as delivered, and as enqueued, exactly if its receipt says
/// that it is in the queue; a stale permit cancels it and a closing connection
/// loses it.
pub proof fn law_receipts_are_taken_at_their_word(receipt: SendReceipt)
    ensures
        receipt_outcome(receipt) is Delivered <==> receipt == SendReceipt::Enqueued,
        receipt_resolution(receipt) is Enqueued <==> receipt == SendReceipt::Enqueued,
        receipt_outcome(receipt) is ChannelClosed <==> receipt == SendReceipt::Closed,
        receipt_resolution(receipt) is ChannelClosed <==> receipt == SendReceipt::Closed,
        receipt_outcome(receipt) is Canceled <==> receipt == SendReceipt::Stale,
        receipt_resolution(receipt) is Canceled <==> receipt == SendReceipt::Stale,
{
}

} // verus!
