//! The Readiness Gate: a two-state machine driven by the typed events
//! of a bounded watch on one named workload. It completes at the first
//! event that shows the workload running; every other event is
//! ignored; a stream that closes while it is still waiting is a
//! timeout. It is single-shot: it stops at the first usable event and
//! never keeps watching past it.

use vstd::prelude::*;
use crate::text::str_eq;

verus! {

/// One typed event from the watch stream, reduced to plain data. Added
/// and modified events carry the phase the cluster reported.
#[derive(Debug)]
pub enum GateEvent {
    Added { phase: String },
    Modified { phase: String },
    Deleted,
    Error,
}

/// Spec-level model of `GateEvent`.
pub ghost enum GateEventModel {
    Added { phase: Seq<char> },
    Modified { phase: Seq<char> },
    Deleted,
    Error,
}

impl View for GateEvent {
    type V = GateEventModel;

    open spec fn view(&self) -> GateEventModel {
        match self {
            GateEvent::Added { phase } => GateEventModel::Added { phase: phase@ },
            GateEvent::Modified { phase } => GateEventModel::Modified { phase: phase@ },
            GateEvent::Deleted => GateEventModel::Deleted,
            GateEvent::Error => GateEventModel::Error,
        }
    }
}

/// The models of a delivered stream of events, in order.
pub open spec fn event_models(s: Seq<GateEvent>) -> Seq<GateEventModel> {
    s.map_values(|e: GateEvent| e@)
}

/// The two states of the Readiness Gate.
#[derive(Clone, Copy, Debug, PartialEq, Eq, Structural)]
pub enum GateState {
    AwaitingReady,
    Ready,
}

/// How waiting on readiness fails.
#[derive(Clone, Copy, Debug, PartialEq, Eq, Structural)]
pub enum GateError {
    /// The bounded watch window closed while readiness was still awaited.
    Timeout,
    /// The watch could not be opened or broke down; the caller that
    /// talks to the cluster reports this one.
    Query,
}

/// An event settles readiness: the workload arrived already running,
/// or was modified to the running phase.
pub open spec fn event_ready(e: GateEventModel) -> bool {
    match e {
        GateEventModel::Added { phase } => phase == "Running"@,
        GateEventModel::Modified { phase } => phase == "Running"@,
        _ => false,
    }
}

/// One transition: once ready, always ready; a waiting state becomes
/// ready on a usable event and otherwise keeps waiting.
pub open spec fn gate_step_model(s: GateState, e: GateEventModel) -> GateState {
    match s {
        GateState::Ready => GateState::Ready,
        GateState::AwaitingReady => if event_ready(e) {
            GateState::Ready
        } else {
            GateState::AwaitingReady
        },
    }
}

/// The state reached after a whole delivered stream.
pub open spec fn gate_run_model(events: Seq<GateEventModel>) -> GateState
    decreases events.len(),
{
    if events.len() == 0 {
        GateState::AwaitingReady
    } else {
        gate_step_model(gate_run_model(events.drop_last()), events.last())
    }
}

/// A run ends ready exactly when some event of the stream was usable.
pub proof fn lemma_gate_run_ready(events: Seq<GateEventModel>)
    ensures
        gate_run_model(events) == GateState::Ready <==> exists|i: int|
            0 <= i < events.len() && event_ready(#[trigger] events[i]),
    decreases events.len(),
{
    if events.len() == 0 {
    } else {
        lemma_gate_run_ready(events.drop_last());
        assert(forall|k: int|
            0 <= k < events.len() - 1 ==> (#[trigger] events[k]) == events.drop_last()[k]);
        if gate_run_model(events) == GateState::Ready {
            if event_ready(events.last()) {
                assert(event_ready(events[events.len() - 1]));
            } else {
                let i = choose|i: int|
                    0 <= i < events.drop_last().len() && event_ready(
                        #[trigger] events.drop_last()[i],
                    );
                assert(event_ready(events[i]));
            }
        } else {
            assert(forall|i: int|
                0 <= i < events.len() ==> !event_ready(#[trigger] events[i]));
        }
    }
}

/// An event settles readiness, executed.
pub fn event_accepts(e: &GateEvent) -> (r: bool)
    ensures
        r == event_ready(e@),
{
    match e {
        GateEvent::Added { phase } => str_eq(phase.as_str(), "Running"),
        GateEvent::Modified { phase } => str_eq(phase.as_str(), "Running"),
        GateEvent::Deleted => false,
        GateEvent::Error => false,
    }
}

/// One transition, executed. The caller that reads the watch stream
/// feeds each event through here and stops at `Ready` or when the
/// bounded window closes.
pub fn gate_step(s: GateState, e: &GateEvent) -> (t: GateState)
    ensures
        t == gate_step_model(s, e@),
{
    match s {
        GateState::Ready => GateState::Ready,
        GateState::AwaitingReady => {
            if event_accepts(e) {
                GateState::Ready
            } else {
                GateState::AwaitingReady
            }
        },
    }
}

/// Consumes a whole delivered stream: succeeds exactly when some event
/// shows the workload running (single-shot, so it stops at the first
/// such event), and reports a timeout when the stream closed with
/// readiness still awaited.
pub fn await_ready_events(events: &Vec<GateEvent>) -> (r: Result<(), GateError>)
    ensures
        r is Ok <==> gate_run_model(event_models(events@)) == GateState::Ready,
        r is Ok <==> exists|i: int|
            0 <= i < events@.len() && event_ready(#[trigger] event_models(events@)[i]),
        r is Err ==> r->Err_0 == GateError::Timeout,
{
    let ghost ms = event_models(events@);
    let mut i: usize = 0;
    while i < events.len()
        invariant
            ms == event_models(events@),
            ms.len() == events@.len(),
            i <= events@.len(),
            forall|k: int| 0 <= k < i ==> !event_ready(#[trigger] ms[k]),
        decreases events@.len() - i,
    {
        if event_accepts(&events[i]) {
            proof {
                assert(event_ready(ms[i as int]));
                lemma_gate_run_ready(ms);
            }
            return Ok(());
        }
        i += 1;
    }
    proof {
        lemma_gate_run_ready(ms);
    }
    Err(GateError::Timeout)
}

} // verus!
