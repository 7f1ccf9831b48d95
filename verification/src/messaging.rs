use vstd::prelude::*;
use crate::RuntimeEvent;

verus! {

/// A successfully established messaging connection, as seen by a module's
/// per-run state. Outbound publishes are forwarded over this bounded channel
/// to the client task owned by the surrounding program; the protocol client
/// itself is outside this library.
pub struct MessagingConnection {
    pub outbound: tokio::sync::mpsc::Sender<i64>,
}

/// One observation made by the companion event loop while it runs: either the
/// connection produced an event, or it is exhausted, or the shutdown signal
/// arrived, or the shutdown channel closed with no signal ever to come.
pub enum LoopEvent {
    ConnectionEvent,
    ConnectionExhausted,
    StopRequested,
    ControlChannelClosed,
}

/// What the companion event loop does after an observation.
#[derive(PartialEq, Eq, Structural, Clone, Copy, Debug)]
pub enum LoopDecision {
    Continue,
    Stop,
}

/// The companion event loop consumes connection events until either the
/// connection is exhausted or a stop arrives; a closed control channel means
/// no stop can ever arrive, so the loop also terminates then.
pub fn event_loop_step(event: &LoopEvent) -> (d: LoopDecision)
    ensures
        d is Stop <==> !(event is ConnectionEvent),
{
    match event {
        LoopEvent::ConnectionEvent => LoopDecision::Continue,
        LoopEvent::ConnectionExhausted => LoopDecision::Stop,
        LoopEvent::StopRequested => LoopDecision::Stop,
        LoopEvent::ControlChannelClosed => LoopDecision::Stop,
    }
}

/// One step of the teardown protocol that the cleanup supervisor prescribes
/// for a reaped module; the surrounding program performs the waits.
#[derive(PartialEq, Eq, Structural, Clone, Copy, Debug)]
pub enum ShutdownAction {
    SendStop,
    AwaitCompanion,
    AwaitExecution,
}

/// The teardown order for one reaped module: the shutdown signal is sent
/// first, then the companion's termination is awaited, and the execution
/// result is collected only after both. A module that never had a companion
/// has only its execution result to collect.
pub open spec fn shutdown_plan(has_companion: bool) -> Seq<ShutdownAction> {
    if has_companion {
        seq![
            ShutdownAction::SendStop,
            ShutdownAction::AwaitCompanion,
            ShutdownAction::AwaitExecution,
        ]
    } else {
        seq![ShutdownAction::AwaitExecution]
    }
}

/// Returns the teardown steps for one reaped module, in the exact order the
/// surrounding program must perform them.
pub fn shutdown_actions(has_companion: bool) -> (v: Vec<ShutdownAction>)
    ensures
        v@ == shutdown_plan(has_companion),
{
    if has_companion {
        let v = vec![
            ShutdownAction::SendStop,
            ShutdownAction::AwaitCompanion,
            ShutdownAction::AwaitExecution,
        ];
        proof {
            assert(v@ =~= shutdown_plan(true));
        }
        v
    } else {
        let v = vec![ShutdownAction::AwaitExecution];
        proof {
            assert(v@ =~= shutdown_plan(false));
        }
        v
    }
}

/// Law: whenever a companion existed, the plan sends the shutdown signal, it
/// awaits the companion, and the send stands strictly before the await; the
/// execution result is collected strictly after both.
pub proof fn lemma_shutdown_signal_precedes_join(has_companion: bool)
    ensures
        has_companion ==> shutdown_plan(has_companion).contains(ShutdownAction::SendStop),
        has_companion ==> shutdown_plan(has_companion).contains(ShutdownAction::AwaitCompanion),
        forall|i: int, j: int|
            0 <= i < shutdown_plan(has_companion).len()
                && 0 <= j < shutdown_plan(has_companion).len()
                && (#[trigger] shutdown_plan(has_companion)[i]) is SendStop
                && (#[trigger] shutdown_plan(has_companion)[j]) is AwaitCompanion ==> i < j,
        forall|i: int, j: int|
            0 <= i < shutdown_plan(has_companion).len()
                && 0 <= j < shutdown_plan(has_companion).len()
                && !((#[trigger] shutdown_plan(has_companion)[i]) is AwaitExecution)
                && (#[trigger] shutdown_plan(has_companion)[j]) is AwaitExecution ==> i < j,
{
    let p = shutdown_plan(has_companion);
    if has_companion {
        assert(p[0] is SendStop);
        assert(p[1] is AwaitCompanion);
        assert(p.contains(ShutdownAction::SendStop));
        assert(p.contains(ShutdownAction::AwaitCompanion));
    }
}

} // verus!
