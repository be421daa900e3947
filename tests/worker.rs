use sensor_bridge::worker::{
    next_step, wait_for_next_iteration, WorkerAction, WorkerEvent, WorkerState, PUSH_RATE_MS,
};

#[test]
fn frame_wait_time() {
    assert_eq!(wait_for_next_iteration(200, 1000), 800);
    assert_eq!(wait_for_next_iteration(1000, 1000), 0);
    assert_eq!(wait_for_next_iteration(1500, 1000), 0);
}

#[test]
fn reconnect_scenario_prepares_before_frames() {
    let mut state = WorkerState::Idle;
    let mut elapsed_ms = 0u64;
    let mut actions = Vec::new();
    let events = [
        WorkerEvent::Started,
        WorkerEvent::ConnectFailed,
        WorkerEvent::ConnectFailed,
        WorkerEvent::ConnectSucceeded,
        WorkerEvent::PrepareSent,
        WorkerEvent::FrameSent { elapsed_ms: 100 },
    ];
    for e in events {
        let step = next_step(state, e, true, PUSH_RATE_MS);
        state = step.state;
        match step.action {
            WorkerAction::Connect { delay_ms } => elapsed_ms += delay_ms,
            WorkerAction::SendFrame { delay_ms } => elapsed_ms += delay_ms,
            _ => {}
        }
        actions.push(step.action);
        if state == WorkerState::Streaming && elapsed_ms > 0 {
            assert!(elapsed_ms <= 3000);
        }
    }
    assert_eq!(state, WorkerState::Streaming);
    let prepare = actions.iter().position(|a| *a == WorkerAction::SendPrepare).unwrap();
    let first_frame = actions.iter().position(|a| matches!(a, WorkerAction::SendFrame { .. })).unwrap();
    assert!(prepare < first_frame);
}

#[test]
fn send_failure_reconnects_and_prepares_again() {
    let s = next_step(WorkerState::Streaming, WorkerEvent::SendFailed, true, 1000);
    assert_eq!(s.state, WorkerState::Reconnecting);
    assert_eq!(s.action, WorkerAction::Reconnect);
    let s = next_step(WorkerState::Reconnecting, WorkerEvent::ReconnectFailed, true, 1000);
    assert_eq!(s.state, WorkerState::Streaming);
    assert_eq!(s.action, WorkerAction::SendFrame { delay_ms: 1000 });
    let s = next_step(WorkerState::Reconnecting, WorkerEvent::ReconnectSucceeded, true, 1000);
    assert_eq!(s.action, WorkerAction::SendPrepare);
}

#[test]
fn cancellation_exits_at_next_step() {
    for state in [WorkerState::Idle, WorkerState::Connecting, WorkerState::Streaming, WorkerState::Reconnecting] {
        let s = next_step(state, WorkerEvent::FrameSent { elapsed_ms: 5 }, false, 1000);
        assert_eq!(s.state, WorkerState::Terminated);
        assert_eq!(s.action, WorkerAction::Exit);
    }
    let s = next_step(WorkerState::Connecting, WorkerEvent::ConnectFailed, true, 1000);
    assert_eq!(s.action, WorkerAction::Connect { delay_ms: 500 });
    let s = next_step(WorkerState::Streaming, WorkerEvent::FrameSent { elapsed_ms: 1 }, true, 1000);
    assert_eq!(s.action, WorkerAction::SendFrame { delay_ms: 999 });
}
