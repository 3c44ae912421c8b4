//! The scrape tasks: when each one sleeps, fetches, emits and stops.
//!
//! A task is a loop around three waits: the jittered sleep (raced against
//! cancellation), the HTTP request and the send on the outbound channel. The
//! waits are the caller's; what happens after each is decided here.

use crate::config::ApiConfig;
use crate::endpoint::RoomMachinesEndpoint;
use crate::url::{machines, machines_url};
use vstd::prelude::*;

verus! {

/// Seconds between two polls of one room, before jitter.
pub const BASE_INTERVAL: u64 = 60;

/// Least offset to the base interval, in seconds.
pub const MIN_OFFSET: i64 = -9;

/// Greatest offset to the base interval, in seconds.
pub const MAX_OFFSET: i64 = 9;

/// How long a task sleeps between two polls: a base interval and the range
/// from which the offset to it is drawn.
#[derive(Debug, Clone, Copy)]
pub struct PollPolicy {
    pub base_secs: u64,
    pub min_offset: i64,
    pub max_offset: i64,
}

/// The distance of a number from zero.
fn magnitude(x: i64) -> (m: u64)
    ensures
        m == if x >= 0 {
            x as int
        } else {
            -(x as int)
        },
{
    if x >= 0 {
        x as u64
    } else if x == i64::MIN {
        0x8000_0000_0000_0000u64
    } else {
        (-x) as u64
    }
}

impl PollPolicy {
    /// The range is not empty and every delay in it is a number of seconds.
    pub open spec fn wf(&self) -> bool {
        &&& self.min_offset <= self.max_offset
        &&& 0 <= self.base_secs + self.min_offset
        &&& self.base_secs + self.max_offset <= u64::MAX
    }

    /// The delay for one offset.
    pub open spec fn delay(&self, offset: i64) -> int {
        self.base_secs + offset
    }

    /// One minute, nine seconds more or less.
    pub fn symmetric() -> (policy: PollPolicy)
        ensures
            policy.wf(),
            policy == (PollPolicy { base_secs: 60, min_offset: -9i64, max_offset: 9 }),
    {
        PollPolicy { base_secs: BASE_INTERVAL, min_offset: MIN_OFFSET, max_offset: MAX_OFFSET }
    }

    /// One minute and up to nine seconds more.
    pub fn one_sided() -> (policy: PollPolicy)
        ensures
            policy.wf(),
            policy == (PollPolicy { base_secs: 60, min_offset: 0, max_offset: 9 }),
    {
        PollPolicy { base_secs: BASE_INTERVAL, min_offset: 0, max_offset: MAX_OFFSET }
    }

    /// A policy of the caller's own, if its range is not empty and holds no
    /// delay below zero or beyond what a number of seconds can be.
    pub fn new(base_secs: u64, min_offset: i64, max_offset: i64) -> (policy: Option<PollPolicy>)
        ensures
            policy == (if (PollPolicy { base_secs, min_offset, max_offset }).wf() {
                Some(PollPolicy { base_secs, min_offset, max_offset })
            } else {
                None
            }),
    {
        let below: bool = min_offset < 0 && base_secs < magnitude(min_offset);
        let above: bool = max_offset > 0 && u64::MAX - base_secs < magnitude(max_offset);
        if min_offset <= max_offset && !below && !above {
            Some(PollPolicy { base_secs, min_offset, max_offset })
        } else {
            None
        }
    }

    /// The delay, in seconds, for an offset of the range.
    pub fn delay_for(&self, offset: i64) -> (seconds: u64)
        requires
            self.wf(),
            self.min_offset <= offset <= self.max_offset,
        ensures
            seconds == self.delay(offset),
    {
        if offset >= 0 {
            self.base_secs + magnitude(offset)
        } else {
            self.base_secs - magnitude(offset)
        }
    }

    /// The next delay, in seconds: the base interval and an offset drawn
    /// anew from the range.
    pub fn next_delay(&self) -> (seconds: u64)
        requires
            self.wf(),
        ensures
            self.delay(self.min_offset) <= seconds <= self.delay(self.max_offset),
    {
        let offset = random_offset(self.min_offset, self.max_offset);
        self.delay_for(offset)
    }
}

/// Calls `rand::random_range` on the inclusive range from `low` to `high`.
/// The contract claims only that the number drawn lies in the range; the
/// range must not be empty, or the call would panic.
#[verifier::external_body]
fn random_offset(low: i64, high: i64) -> (offset: i64)
    requires
        low <= high,
    ensures
        low <= offset <= high,
{
    rand::random_range(low..=high)
}

/// The next delay of the usual policy, in seconds: between 51 and 69.
pub fn get_minute_dur_offset() -> (seconds: u64)
    ensures
        51 <= seconds <= 69,
{
    PollPolicy::symmetric().next_delay()
}

/// Whether a status code stands for success: the codes from 200 to 299.
pub open spec fn is_success(status: u16) -> bool {
    200 <= status <= 299
}

/// Where a task is in its cycle.
#[derive(Debug, Clone, Copy, PartialEq, Eq, Structural)]
pub enum ScrapeState {
    /// In the jittered sleep, which cancellation interrupts.
    Sleeping,
    /// Waiting for the response to its request.
    Fetching,
    /// Waiting for room on the outbound channel.
    Sending,
    /// Out of its loop, for good.
    Stopped,
}

/// What a task has waited for.
#[derive(Debug, Clone, Copy, PartialEq, Eq, Structural)]
pub enum ScrapeEvent {
    /// Cancellation won the race against the sleep.
    Cancelled,
    /// The sleep ran out.
    Woke,
    /// The request was answered, with this status code.
    Response(u16),
    /// The request failed before any answer.
    TransportError,
    /// The outcome is on the channel.
    Sent,
    /// The channel has lost its receiver.
    ReceiverDropped,
}

/// What a task does next.
#[derive(Debug, Clone, Copy, PartialEq, Eq, Structural)]
pub enum ScrapeAction {
    /// Sleep for a freshly drawn delay, racing cancellation.
    Sleep,
    /// Issue one GET to the endpoint's URL.
    Fetch,
    /// Send the payload as a success.
    EmitSuccess,
    /// Send the error as a failure.
    EmitFailure,
    /// Leave the loop.
    Stop,
}

/// A state and the action that leads into it.
#[derive(Debug, Clone, Copy, PartialEq, Eq, Structural)]
pub struct ScrapeStep {
    pub state: ScrapeState,
    pub action: ScrapeAction,
}

/// What follows an event. `emit_failures` tells whether failures are sent on
/// or only logged. `None`: the event cannot be met in that state.
pub open spec fn scrape_next(state: ScrapeState, event: ScrapeEvent, emit_failures: bool)
    -> Option<ScrapeStep> {
    let again = ScrapeStep { state: ScrapeState::Sleeping, action: ScrapeAction::Sleep };
    let failed = if emit_failures {
        ScrapeStep { state: ScrapeState::Sending, action: ScrapeAction::EmitFailure }
    } else {
        again
    };
    match (state, event) {
        (ScrapeState::Sleeping, ScrapeEvent::Cancelled) => Some(
            ScrapeStep { state: ScrapeState::Stopped, action: ScrapeAction::Stop },
        ),
        (ScrapeState::Sleeping, ScrapeEvent::Woke) => Some(
            ScrapeStep { state: ScrapeState::Fetching, action: ScrapeAction::Fetch },
        ),
        (ScrapeState::Fetching, ScrapeEvent::Response(status)) => if is_success(status) {
            Some(ScrapeStep { state: ScrapeState::Sending, action: ScrapeAction::EmitSuccess })
        } else {
            Some(failed)
        },
        (ScrapeState::Fetching, ScrapeEvent::TransportError) => Some(failed),
        (ScrapeState::Sending, ScrapeEvent::Sent) => Some(again),
        (ScrapeState::Sending, ScrapeEvent::ReceiverDropped) => Some(
            ScrapeStep { state: ScrapeState::Stopped, action: ScrapeAction::Stop },
        ),
        _ => None,
    }
}

/// How a task starts: with a sleep.
pub fn scrape_start() -> (step: ScrapeStep)
    ensures
        step == (ScrapeStep { state: ScrapeState::Sleeping, action: ScrapeAction::Sleep }),
{
    ScrapeStep { state: ScrapeState::Sleeping, action: ScrapeAction::Sleep }
}

/// What a task does after an event.
pub fn scrape_task(state: ScrapeState, event: ScrapeEvent, emit_failures: bool) -> (step: Option<
    ScrapeStep,
>)
    ensures
        step == scrape_next(state, event, emit_failures),
{
    let again = ScrapeStep { state: ScrapeState::Sleeping, action: ScrapeAction::Sleep };
    let stop = ScrapeStep { state: ScrapeState::Stopped, action: ScrapeAction::Stop };
    let failed = if emit_failures {
        ScrapeStep { state: ScrapeState::Sending, action: ScrapeAction::EmitFailure }
    } else {
        again
    };
    match state {
        ScrapeState::Sleeping => match event {
            ScrapeEvent::Cancelled => Some(stop),
            ScrapeEvent::Woke => Some(
                ScrapeStep { state: ScrapeState::Fetching, action: ScrapeAction::Fetch },
            ),
            _ => None,
        },
        ScrapeState::Fetching => match event {
            ScrapeEvent::Response(status) => if 200 <= status && status <= 299 {
                Some(ScrapeStep { state: ScrapeState::Sending, action: ScrapeAction::EmitSuccess })
            } else {
                Some(failed)
            },
            ScrapeEvent::TransportError => Some(failed),
            _ => None,
        },
        ScrapeState::Sending => match event {
            ScrapeEvent::Sent => Some(again),
            ScrapeEvent::ReceiverDropped => Some(stop),
            _ => None,
        },
        ScrapeState::Stopped => None,
    }
}

/// A sleeping task that meets cancellation stops at once: it neither
/// finishes its sleep nor fetches again.
pub proof fn lemma_cancellation_stops_sleeper(emit_failures: bool)
    ensures
        scrape_next(ScrapeState::Sleeping, ScrapeEvent::Cancelled, emit_failures) == Some(
            ScrapeStep { state: ScrapeState::Stopped, action: ScrapeAction::Stop },
        ),
{
}

/// A stopped task stays stopped, and a task stops only on cancellation during
/// its sleep or on the loss of its receiver.
pub proof fn lemma_stop_is_final(state: ScrapeState, event: ScrapeEvent, emit_failures: bool)
    ensures
        scrape_next(ScrapeState::Stopped, event, emit_failures) is None,
        scrape_next(state, event, emit_failures) matches Some(step) && step.state
            == ScrapeState::Stopped ==> (state == ScrapeState::Sleeping && event
            == ScrapeEvent::Cancelled) || (state == ScrapeState::Sending && event
            == ScrapeEvent::ReceiverDropped),
{
}

/// What a task has done over a run of events.
pub struct ScrapeTally {
    /// Where the task is.
    pub state: ScrapeState,
    /// How many requests it has issued.
    pub fetches: nat,
    /// How many outcomes it has handed to the outbound channel.
    pub sends: nat,
}

/// Where a task is after a run of events, and what it has done on the way.
/// `None`: one of the events could not be met.
pub open spec fn scrape_run(events: Seq<ScrapeEvent>, emit_failures: bool) -> Option<ScrapeTally>
    decreases events.len(),
{
    if events.len() == 0 {
        Some(ScrapeTally { state: ScrapeState::Sleeping, fetches: 0, sends: 0 })
    } else {
        match scrape_run(events.drop_last(), emit_failures) {
            Some(tally) => match scrape_next(tally.state, events.last(), emit_failures) {
                Some(step) => Some(
                    ScrapeTally {
                        state: step.state,
                        fetches: if step.action == ScrapeAction::Fetch {
                            tally.fetches + 1
                        } else {
                            tally.fetches
                        },
                        sends: if step.action == ScrapeAction::EmitSuccess || step.action
                            == ScrapeAction::EmitFailure {
                            tally.sends + 1
                        } else {
                            tally.sends
                        },
                    },
                ),
                None => None,
            },
            None => None,
        }
    }
}

/// A task sends at most once for each request it has issued, and nothing
/// before its first request. Where failures are sent on, every request that
/// has ended has had its one send.
pub proof fn lemma_one_send_per_cycle(events: Seq<ScrapeEvent>, emit_failures: bool)
    ensures
        scrape_run(events, emit_failures) matches Some(tally) ==> {
            &&& tally.sends <= tally.fetches
            &&& tally.state == ScrapeState::Fetching ==> tally.sends < tally.fetches
            &&& emit_failures ==> tally.fetches == if tally.state == ScrapeState::Fetching {
                tally.sends + 1
            } else {
                tally.sends
            }
        },
    decreases events.len(),
{
    if events.len() > 0 {
        lemma_one_send_per_cycle(events.drop_last(), emit_failures);
    }
}

/// One task to spawn: the room it watches and the URL it polls.
pub struct ScrapeTarget {
    pub endpoint: RoomMachinesEndpoint,
    pub url: String,
}

/// The tasks to spawn: exactly one for each configured endpoint, in the order
/// of the configuration, each with the URL of its room.
pub fn http_endpoints(api_config: &ApiConfig) -> (targets: Vec<ScrapeTarget>)
    ensures
        targets@.len() == api_config.endpoints@.len(),
        forall|i: int|
            0 <= i < targets@.len() ==> {
                &&& (#[trigger] targets@[i]).endpoint == api_config.endpoints@[i]
                &&& targets@[i].url@ == machines_url(
                    api_config.proto@,
                    api_config.host@,
                    api_config.port,
                    api_config.endpoints@[i].location_id@,
                    api_config.endpoints@[i].room_id@,
                )
            },
{
    let mut targets: Vec<ScrapeTarget> = Vec::new();
    let mut i: usize = 0;
    while i < api_config.endpoints.len()
        invariant
            i <= api_config.endpoints@.len(),
            targets@.len() == i,
            forall|k: int|
                0 <= k < i ==> {
                    &&& (#[trigger] targets@[k]).endpoint == api_config.endpoints@[k]
                    &&& targets@[k].url@ == machines_url(
                        api_config.proto@,
                        api_config.host@,
                        api_config.port,
                        api_config.endpoints@[k].location_id@,
                        api_config.endpoints@[k].room_id@,
                    )
                },
        decreases api_config.endpoints@.len() - i,
    {
        let endpoint = &api_config.endpoints[i];
        let url = machines(api_config, endpoint.location_id(), endpoint.room_id());
        targets.push(ScrapeTarget { endpoint: endpoint.duplicate(), url });
        i = i + 1;
    }
    targets
}

} // verus!
