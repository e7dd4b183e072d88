use codex_shuttle::waiting::{
    agent_limits, bridge_limits, child_limits, stop_step, wait_step, StopAction, StopState,
    WaitAction, APP_SERVER_WAIT, BRIDGE_WAIT, CONTROL_SOCKET_WAIT, EXEC_SERVER_WAIT,
};

#[test]
fn things_are_waited_for_as_long_as_they_may_take() {
    assert_eq!(wait_step(5_000, false, false, 4_999), WaitAction::Again);
    assert_eq!(wait_step(5_000, false, false, 5_000), WaitAction::TooLate);
    assert_eq!(wait_step(5_000, true, true, 9_000), WaitAction::Done);
    assert_eq!(wait_step(5_000, false, true, 0), WaitAction::Ended);
    assert_eq!(APP_SERVER_WAIT, 5_000);
    assert_eq!(BRIDGE_WAIT, 5_000);
    assert_eq!(EXEC_SERVER_WAIT, 5_000);
    assert_eq!(CONTROL_SOCKET_WAIT, 10_000);
}

#[test]
fn an_agent_is_asked_and_then_forced_to_end() {
    let limits = agent_limits();
    let (state, action) = stop_step(&limits, StopState::Alone, true, 0);
    assert_eq!((state, action), (StopState::Asked, StopAction::Ask));
    assert_eq!(stop_step(&limits, state, true, 2_999), (state, StopAction::Again));
    assert_eq!(stop_step(&limits, state, false, 2_999), (state, StopAction::Ended));
    let (state, action) = stop_step(&limits, state, true, 3_000);
    assert_eq!((state, action), (StopState::Forced, StopAction::Force));
    assert_eq!(stop_step(&limits, state, true, 1_999), (state, StopAction::Again));
    assert_eq!(stop_step(&limits, state, true, 2_000), (state, StopAction::GiveUp));
}

#[test]
fn children_and_bridges_have_limits_of_their_own() {
    let patient = child_limits(true);
    let alone = StopState::Alone;
    assert_eq!(stop_step(&patient, alone, true, 2_999), (alone, StopAction::Again));
    assert_eq!(stop_step(&patient, alone, false, 1), (alone, StopAction::Ended));
    assert_eq!(stop_step(&patient, alone, true, 3_000).1, StopAction::Ask);
    assert_eq!(stop_step(&child_limits(false), alone, true, 0).1, StopAction::Ask);
    let asked = StopState::Asked;
    assert_eq!(stop_step(&child_limits(false), asked, true, 1_999).1, StopAction::Again);
    assert_eq!(stop_step(&child_limits(false), asked, true, 2_000).1, StopAction::Force);
    assert_eq!(stop_step(&bridge_limits(), asked, true, 2_999).1, StopAction::Again);
    assert_eq!(stop_step(&bridge_limits(), asked, true, 3_000).1, StopAction::Force);
    assert_eq!(stop_step(&bridge_limits(), StopState::Forced, true, 0).1, StopAction::GiveUp);
}
