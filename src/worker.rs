use vstd::prelude::*;

verus! {

/// Frame period of the push worker, in milliseconds.
pub const PUSH_RATE_MS: u64 = 1000;

/// Pause between two connection attempts, in milliseconds.
pub const CONNECT_RETRY_MS: u64 = 500;

/// Pause after the prepare messages, so that the display can store them, in milliseconds.
pub const PREPARE_COMMIT_MS: u64 = 1000;

/// Where a push worker stands.
#[derive(Clone, Copy, Debug, PartialEq, Eq, Structural)]
pub enum WorkerState {
    Idle,
    Connecting,
    Preparing,
    Streaming,
    Reconnecting,
    Terminated,
}

/// What the outside world reports to the worker.
#[derive(Clone, Copy, Debug, PartialEq, Eq, Structural)]
pub enum WorkerEvent {
    Started,
    ConnectSucceeded,
    ConnectFailed,
    PrepareSent,
    FrameSent { elapsed_ms: u64 },
    SendFailed,
    ReconnectSucceeded,
    ReconnectFailed,
}

/// What the worker asks the outside world to do next.
#[derive(Clone, Copy, Debug, PartialEq, Eq, Structural)]
pub enum WorkerAction {
    /// Wait `delay_ms`, then open the connection.
    Connect { delay_ms: u64 },
    /// Send the three prepare messages.
    SendPrepare,
    /// Wait `delay_ms`, then read a snapshot and send a frame.
    SendFrame { delay_ms: u64 },
    /// Open the connection again at once.
    Reconnect,
    /// Nothing to do for this event.
    Ignore,
    /// Stop the worker.
    Exit,
}

#[derive(Clone, Copy, Debug, PartialEq, Eq, Structural)]
pub struct WorkerStep {
    pub state: WorkerState,
    pub action: WorkerAction,
}

/// Time left of the frame period after `elapsed_ms` of work; none once the period is spent.
pub open spec fn remaining(elapsed_ms: u64, period_ms: u64) -> u64 {
    if elapsed_ms >= period_ms {
        0
    } else {
        (period_ms - elapsed_ms) as u64
    }
}

/// The transition table of a running worker.
pub open spec fn transition(state: WorkerState, event: WorkerEvent, period_ms: u64) -> WorkerStep {
    match (state, event) {
        (WorkerState::Idle, WorkerEvent::Started) => WorkerStep {
            state: WorkerState::Connecting,
            action: WorkerAction::Connect { delay_ms: 0 },
        },
        (WorkerState::Connecting, WorkerEvent::ConnectFailed) => WorkerStep {
            state: WorkerState::Connecting,
            action: WorkerAction::Connect { delay_ms: CONNECT_RETRY_MS },
        },
        (WorkerState::Connecting, WorkerEvent::ConnectSucceeded) => WorkerStep {
            state: WorkerState::Preparing,
            action: WorkerAction::SendPrepare,
        },
        (WorkerState::Preparing, WorkerEvent::PrepareSent) => WorkerStep {
            state: WorkerState::Streaming,
            action: WorkerAction::SendFrame { delay_ms: PREPARE_COMMIT_MS },
        },
        (WorkerState::Preparing, WorkerEvent::SendFailed) => WorkerStep {
            state: WorkerState::Reconnecting,
            action: WorkerAction::Reconnect,
        },
        (WorkerState::Streaming, WorkerEvent::FrameSent { elapsed_ms }) => WorkerStep {
            state: WorkerState::Streaming,
            action: WorkerAction::SendFrame { delay_ms: remaining(elapsed_ms, period_ms) },
        },
        (WorkerState::Streaming, WorkerEvent::SendFailed) => WorkerStep {
            state: WorkerState::Reconnecting,
            action: WorkerAction::Reconnect,
        },
        (WorkerState::Reconnecting, WorkerEvent::ReconnectSucceeded) => WorkerStep {
            state: WorkerState::Preparing,
            action: WorkerAction::SendPrepare,
        },
        (WorkerState::Reconnecting, WorkerEvent::ReconnectFailed) => WorkerStep {
            state: WorkerState::Streaming,
            action: WorkerAction::SendFrame { delay_ms: period_ms },
        },
        (WorkerState::Terminated, _) => WorkerStep {
            state: WorkerState::Terminated,
            action: WorkerAction::Exit,
        },
        _ => WorkerStep { state, action: WorkerAction::Ignore },
    }
}

/// How long an action keeps the worker from looking at its running flag again.
pub open spec fn action_delay(action: WorkerAction) -> u64 {
    match action {
        WorkerAction::Connect { delay_ms } => delay_ms,
        WorkerAction::SendFrame { delay_ms } => delay_ms,
        _ => 0,
    }
}

/// Time to sleep after a frame that took `elapsed_ms`: the rest of the period, or nothing
/// when the work took longer than the period.
pub fn wait_for_next_iteration(elapsed_ms: u64, period_ms: u64) -> (r: u64)
    ensures
        r == remaining(elapsed_ms, period_ms),
        r <= period_ms,
        elapsed_ms < period_ms ==> elapsed_ms + r == period_ms,
{
    if elapsed_ms >= period_ms {
        0
    } else {
        period_ms - elapsed_ms
    }
}

/// The next step of a push worker. Once `running` is false the worker terminates, whatever
/// the event; otherwise it follows the transition table.
pub fn next_step(state: WorkerState, event: WorkerEvent, running: bool, period_ms: u64) -> (r:
    WorkerStep)
    ensures
        !running ==> r == (WorkerStep { state: WorkerState::Terminated, action: WorkerAction::Exit }),
        running ==> r == transition(state, event, period_ms),
{
    if !running {
        return WorkerStep { state: WorkerState::Terminated, action: WorkerAction::Exit };
    }
    match (state, event) {
        (WorkerState::Idle, WorkerEvent::Started) => WorkerStep {
            state: WorkerState::Connecting,
            action: WorkerAction::Connect { delay_ms: 0 },
        },
        (WorkerState::Connecting, WorkerEvent::ConnectFailed) => WorkerStep {
            state: WorkerState::Connecting,
            action: WorkerAction::Connect { delay_ms: CONNECT_RETRY_MS },
        },
        (WorkerState::Connecting, WorkerEvent::ConnectSucceeded) => WorkerStep {
            state: WorkerState::Preparing,
            action: WorkerAction::SendPrepare,
        },
        (WorkerState::Preparing, WorkerEvent::PrepareSent) => WorkerStep {
            state: WorkerState::Streaming,
            action: WorkerAction::SendFrame { delay_ms: PREPARE_COMMIT_MS },
        },
        (WorkerState::Preparing, WorkerEvent::SendFailed) => WorkerStep {
            state: WorkerState::Reconnecting,
            action: WorkerAction::Reconnect,
        },
        (WorkerState::Streaming, WorkerEvent::FrameSent { elapsed_ms }) => WorkerStep {
            state: WorkerState::Streaming,
            action: WorkerAction::SendFrame {
                delay_ms: wait_for_next_iteration(elapsed_ms, period_ms),
            },
        },
        (WorkerState::Streaming, WorkerEvent::SendFailed) => WorkerStep {
            state: WorkerState::Reconnecting,
            action: WorkerAction::Reconnect,
        },
        (WorkerState::Reconnecting, WorkerEvent::ReconnectSucceeded) => WorkerStep {
            state: WorkerState::Preparing,
            action: WorkerAction::SendPrepare,
        },
        (WorkerState::Reconnecting, WorkerEvent::ReconnectFailed) => WorkerStep {
            state: WorkerState::Streaming,
            action: WorkerAction::SendFrame { delay_ms: period_ms },
        },
        (WorkerState::Terminated, _) => WorkerStep {
            state: WorkerState::Terminated,
            action: WorkerAction::Exit,
        },
        _ => WorkerStep { state, action: WorkerAction::Ignore },
    }
}

/// Cancellation is prompt: with a frame period of at least the retry and commit pauses, no
/// step keeps the worker away from its running flag for more than one period, and the first
/// step after the flag is cleared exits.
pub proof fn lemma_cancellation_within_one_period(
    state: WorkerState,
    event: WorkerEvent,
    period_ms: u64,
)
    requires
        period_ms >= CONNECT_RETRY_MS,
        period_ms >= PREPARE_COMMIT_MS,
    ensures
        action_delay(transition(state, event, period_ms).action) <= period_ms,
        transition(state, event, period_ms).state == WorkerState::Terminated ==> transition(
            state,
            event,
            period_ms,
        ).action == WorkerAction::Exit,
{
}

} // verus!
