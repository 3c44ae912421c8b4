//! The two controllers: the ingestion router, which takes every scrape
//! result and answers the requests for metadata, and the reconciliation
//! engine, which runs its startup pass once and then takes scrape results.
//!
//! Both are loops around a wait for cancellation or for the next message. The
//! waits, the HTTP request and the channels are the caller's; what happens
//! after each event is decided here.

use crate::config::ApiConfig;
use crate::url::{location, location_url};
use vstd::prelude::*;

verus! {

/// Where the router is.
#[derive(Debug, Clone, Copy, PartialEq, Eq, Structural)]
pub enum RouterState {
    /// Waiting for cancellation or for the next message.
    Waiting,
    /// Fetching the metadata that one request asked for.
    Fetching,
    /// Out of its loop, for good.
    Stopped,
}

/// What the router has waited for.
#[derive(Debug)]
pub enum RouterEvent {
    /// Cancellation was signalled.
    Cancelled,
    /// Every sender of the inbound channel is gone.
    ChannelClosed,
    /// A scrape task sent an outcome.
    ScrapeResult,
    /// The engine asks for the metadata of this location.
    MetadataRequest(String),
    /// The fetch for the pending request has ended, well or badly.
    Fetched,
}

/// What the router does next.
#[derive(Debug)]
pub enum RouterAction {
    /// Leave the loop.
    Stop,
    /// Hand the scrape outcome on to whoever consumes steady-state data.
    Forward,
    /// Issue one GET to this URL for the pending request.
    Fetch(String),
    /// Write what the fetch gave, or its error, to the reply channel of the
    /// pending request. A reply that finds no receiver is logged and dropped.
    Reply,
}

/// What an action says.
pub enum RouterPlan {
    Stop,
    Forward,
    Fetch(Seq<char>),
    Reply,
}

impl View for RouterAction {
    type V = RouterPlan;

    open spec fn view(&self) -> RouterPlan {
        match self {
            RouterAction::Stop => RouterPlan::Stop,
            RouterAction::Forward => RouterPlan::Forward,
            RouterAction::Fetch(url) => RouterPlan::Fetch(url@),
            RouterAction::Reply => RouterPlan::Reply,
        }
    }
}

/// A state and the action that leads into it.
#[derive(Debug)]
pub struct RouterStep {
    pub state: RouterState,
    pub action: RouterAction,
}

/// What a step says.
pub struct RouterOutcome {
    pub state: RouterState,
    pub plan: RouterPlan,
}

impl View for RouterStep {
    type V = RouterOutcome;

    open spec fn view(&self) -> RouterOutcome {
        RouterOutcome { state: self.state, plan: self.action@ }
    }
}

/// What follows an event. `None`: the event cannot be met in that state.
/// Messages are taken in the order of their arrival; cancellation is seen only
/// while waiting, so a fetch under way is brought to its reply.
pub open spec fn router_next(api_config: ApiConfig, state: RouterState, event: RouterEvent)
    -> Option<RouterOutcome> {
    match (state, event) {
        (RouterState::Waiting, RouterEvent::Cancelled) => Some(
            RouterOutcome { state: RouterState::Stopped, plan: RouterPlan::Stop },
        ),
        (RouterState::Waiting, RouterEvent::ChannelClosed) => Some(
            RouterOutcome { state: RouterState::Stopped, plan: RouterPlan::Stop },
        ),
        (RouterState::Waiting, RouterEvent::ScrapeResult) => Some(
            RouterOutcome { state: RouterState::Waiting, plan: RouterPlan::Forward },
        ),
        (RouterState::Waiting, RouterEvent::MetadataRequest(location_id)) => Some(
            RouterOutcome {
                state: RouterState::Fetching,
                plan: RouterPlan::Fetch(
                    location_url(
                        api_config.proto@,
                        api_config.host@,
                        api_config.port,
                        location_id@,
                    ),
                ),
            },
        ),
        (RouterState::Fetching, RouterEvent::Fetched) => Some(
            RouterOutcome { state: RouterState::Waiting, plan: RouterPlan::Reply },
        ),
        _ => None,
    }
}

/// What the router does after an event.
pub fn http_controller(api_config: &ApiConfig, state: RouterState, event: &RouterEvent) -> (step:
    Option<RouterStep>)
    ensures
        match step {
            Some(s) => router_next(*api_config, state, *event) == Some(s@),
            None => router_next(*api_config, state, *event) is None,
        },
{
    match state {
        RouterState::Waiting => match event {
            RouterEvent::Cancelled => Some(
                RouterStep { state: RouterState::Stopped, action: RouterAction::Stop },
            ),
            RouterEvent::ChannelClosed => Some(
                RouterStep { state: RouterState::Stopped, action: RouterAction::Stop },
            ),
            RouterEvent::ScrapeResult => Some(
                RouterStep { state: RouterState::Waiting, action: RouterAction::Forward },
            ),
            RouterEvent::MetadataRequest(location_id) => {
                let url = location(api_config, location_id.as_str());
                Some(RouterStep { state: RouterState::Fetching, action: RouterAction::Fetch(url) })
            },
            RouterEvent::Fetched => None,
        },
        RouterState::Fetching => match event {
            RouterEvent::Fetched => Some(
                RouterStep { state: RouterState::Waiting, action: RouterAction::Reply },
            ),
            _ => None,
        },
        RouterState::Stopped => None,
    }
}

/// Every request is answered once: a request starts a fetch, a fetch under
/// way can only end in a reply, and nothing else replies.
pub proof fn lemma_one_reply_per_request(
    api_config: ApiConfig,
    state: RouterState,
    event: RouterEvent,
)
    ensures
        event is MetadataRequest ==> (router_next(api_config, RouterState::Waiting, event)
            matches Some(o) && o.state == RouterState::Fetching && o.plan is Fetch),
        state == RouterState::Fetching ==> (router_next(api_config, state, event) matches Some(o)
            ==> event is Fetched && o.state == RouterState::Waiting && o.plan is Reply),
        router_next(api_config, state, event) matches Some(o) && o.plan is Reply ==> state
            == RouterState::Fetching,
        router_next(api_config, state, event) matches Some(o) && o.state == RouterState::Fetching
            ==> event is MetadataRequest,
{
}

/// Where the router is after a run of events, and how many replies it has
/// written on the way. `None`: one of the events could not be met.
pub open spec fn router_run(api_config: ApiConfig, events: Seq<RouterEvent>) -> Option<
    (RouterState, nat),
>
    decreases events.len(),
{
    if events.len() == 0 {
        Some((RouterState::Waiting, 0nat))
    } else {
        match router_run(api_config, events.drop_last()) {
            Some((state, replies)) => match router_next(api_config, state, events.last()) {
                Some(outcome) => Some(
                    (
                        outcome.state,
                        if outcome.plan is Reply {
                            replies + 1
                        } else {
                            replies
                        },
                    ),
                ),
                None => None,
            },
            None => None,
        }
    }
}

/// How many requests for metadata a run of events holds.
pub open spec fn requests_in(events: Seq<RouterEvent>) -> nat
    decreases events.len(),
{
    if events.len() == 0 {
        0
    } else if events.last() is MetadataRequest {
        requests_in(events.drop_last()) + 1
    } else {
        requests_in(events.drop_last())
    }
}

/// Over any run of events, the router writes one reply for each request, never
/// none and never two: while it waits or has stopped, as many replies are
/// written as requests have come, and while it fetches, all but the one
/// request that the fetch is for have had theirs.
pub proof fn lemma_replies_match_requests(api_config: ApiConfig, events: Seq<RouterEvent>)
    ensures
        router_run(api_config, events) matches Some((state, replies)) ==> requests_in(events)
            == if state == RouterState::Fetching {
            replies + 1
        } else {
            replies
        },
    decreases events.len(),
{
    if events.len() > 0 {
        lemma_replies_match_requests(api_config, events.drop_last());
    }
}

/// What the engine has waited for on its inbound channel.
#[derive(Debug, Clone, Copy, PartialEq, Eq, Structural)]
pub enum EngineEvent {
    /// Cancellation was signalled.
    Cancelled,
    /// Every sender of the inbound channel is gone.
    ChannelClosed,
    /// A scrape succeeded.
    ScrapeSuccess,
    /// A scrape failed.
    ScrapeFailure,
}

/// What the engine does next.
#[derive(Debug, Clone, Copy, PartialEq, Eq, Structural)]
pub enum EngineAction {
    /// Start to take what the inbound channel holds.
    Listen,
    /// Leave the loop.
    Stop,
    /// Take the payload; nothing is written for it.
    Accept,
    /// Log the failure and go on.
    LogFailure,
}

/// What follows an event in the steady state.
pub open spec fn engine_next(event: EngineEvent) -> EngineAction {
    match event {
        EngineEvent::Cancelled => EngineAction::Stop,
        EngineEvent::ChannelClosed => EngineAction::Stop,
        EngineEvent::ScrapeSuccess => EngineAction::Accept,
        EngineEvent::ScrapeFailure => EngineAction::LogFailure,
    }
}

/// What the engine does after an event in the steady state. No event is
/// fatal: the engine stops only on cancellation or when its channel closes.
pub fn db_controller(event: EngineEvent) -> (action: EngineAction)
    ensures
        action == engine_next(event),
        action == EngineAction::Stop <==> (event == EngineEvent::Cancelled || event
            == EngineEvent::ChannelClosed),
{
    match event {
        EngineEvent::Cancelled => EngineAction::Stop,
        EngineEvent::ChannelClosed => EngineAction::Stop,
        EngineEvent::ScrapeSuccess => EngineAction::Accept,
        EngineEvent::ScrapeFailure => EngineAction::LogFailure,
    }
}

/// Where the engine is in its life.
#[derive(Debug, Clone, Copy, PartialEq, Eq, Structural)]
pub enum EnginePhase {
    /// In the startup pass; the inbound channel is not read.
    Precheck,
    /// Taking scrape results as they come.
    Steady,
    /// Out of its loop, for good.
    Stopped,
}

/// What the engine meets.
#[derive(Debug, Clone, Copy, PartialEq, Eq, Structural)]
pub enum EngineSignal {
    /// The startup pass has come to its end, with or without failures.
    PrecheckEnded,
    /// Something came on the inbound channel, or cancellation was seen
    /// while waiting for it.
    Event(EngineEvent),
}

/// What follows a signal. `None`: the signal cannot be met in that phase.
/// The startup pass is left only by its end, so nothing is taken from the
/// inbound channel before it, and there is no way back into it.
pub open spec fn engine_phase_next(phase: EnginePhase, signal: EngineSignal) -> Option<
    (EnginePhase, EngineAction),
> {
    match (phase, signal) {
        (EnginePhase::Precheck, EngineSignal::PrecheckEnded) => Some(
            (EnginePhase::Steady, EngineAction::Listen),
        ),
        (EnginePhase::Steady, EngineSignal::Event(event)) => Some(
            (
                if engine_next(event) == EngineAction::Stop {
                    EnginePhase::Stopped
                } else {
                    EnginePhase::Steady
                },
                engine_next(event),
            ),
        ),
        _ => None,
    }
}

/// How the engine starts: in the startup pass.
pub fn engine_start() -> (phase: EnginePhase)
    ensures
        phase == EnginePhase::Precheck,
{
    EnginePhase::Precheck
}

/// What the engine does after a signal.
pub fn engine_step(phase: EnginePhase, signal: EngineSignal) -> (step: Option<
    (EnginePhase, EngineAction),
>)
    ensures
        step == engine_phase_next(phase, signal),
{
    match phase {
        EnginePhase::Precheck => match signal {
            EngineSignal::PrecheckEnded => Some((EnginePhase::Steady, EngineAction::Listen)),
            EngineSignal::Event(_) => None,
        },
        EnginePhase::Steady => match signal {
            EngineSignal::Event(event) => {
                let action = db_controller(event);
                match action {
                    EngineAction::Stop => Some((EnginePhase::Stopped, action)),
                    _ => Some((EnginePhase::Steady, action)),
                }
            },
            EngineSignal::PrecheckEnded => None,
        },
        EnginePhase::Stopped => None,
    }
}

/// Where the engine is after a run of signals from its start. `None`: one
/// of the signals could not be met.
pub open spec fn engine_run(signals: Seq<EngineSignal>) -> Option<EnginePhase>
    decreases signals.len(),
{
    if signals.len() == 0 {
        Some(EnginePhase::Precheck)
    } else {
        match engine_run(signals.drop_last()) {
            Some(phase) => match engine_phase_next(phase, signals.last()) {
                Some(step) => Some(step.0),
                None => None,
            },
            None => None,
        }
    }
}

/// The startup pass runs once, to its end, before anything is taken from
/// the inbound channel, and never again: in every run that the engine can
/// make, the first signal is the end of the pass and no later one is, and
/// the engine is out of the pass from then on.
pub proof fn lemma_precheck_runs_once_and_first(signals: Seq<EngineSignal>)
    requires
        engine_run(signals) is Some,
    ensures
        signals.len() == 0 <==> engine_run(signals) == Some(EnginePhase::Precheck),
        signals.len() > 0 ==> signals[0] == EngineSignal::PrecheckEnded,
        forall|i: int| 0 < i < signals.len() ==> (#[trigger] signals[i]) is Event,
    decreases signals.len(),
{
    if signals.len() > 0 {
        let init = signals.drop_last();
        lemma_precheck_runs_once_and_first(init);
        assert forall|i: int| 0 < i < signals.len() implies (#[trigger] signals[i]) is Event by {
            if i < init.len() {
                assert(init[i] is Event);
            }
        }
        if init.len() > 0 {
            assert(init[0] == signals[0]);
        }
    }
}

/// The engine stops only on cancellation or when its channel closes, and
/// only from the steady state; once stopped it meets nothing more.
pub proof fn lemma_engine_stops_on_cancel_or_close(phase: EnginePhase, signal: EngineSignal)
    ensures
        engine_phase_next(EnginePhase::Stopped, signal) is None,
        engine_phase_next(phase, signal) matches Some(step) && step.0 == EnginePhase::Stopped
            ==> phase == EnginePhase::Steady && (signal == EngineSignal::Event(
            EngineEvent::Cancelled,
        ) || signal == EngineSignal::Event(EngineEvent::ChannelClosed)),
{
}

} // verus!
