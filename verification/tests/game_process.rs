use beditor::game_process::{finish_spawn, on_process_started, plan_spawn, SpawnError, SpawnStep, TransportAction};

#[test]
fn a_running_game_refuses_another_start() {
    assert_eq!(plan_spawn(true), SpawnStep::Refuse(SpawnError::AlreadyRunning));
    assert_eq!(plan_spawn(false), SpawnStep::Launch);
}

#[test]
fn launch_outcomes() {
    assert_eq!(finish_spawn(true, true, true), Ok(()));
    assert_eq!(finish_spawn(false, true, true), Err(SpawnError::StartFailed));
    assert_eq!(finish_spawn(true, false, false), Err(SpawnError::NoStdin));
    assert_eq!(finish_spawn(true, true, false), Err(SpawnError::NoStdout));
}

#[test]
fn stdio_transport_decisions() {
    assert_eq!(on_process_started(true, true, true), TransportAction::AlreadyRegistered);
    assert_eq!(on_process_started(false, true, true), TransportAction::Register);
    assert_eq!(on_process_started(false, false, true), TransportAction::StdinTaken);
    assert_eq!(on_process_started(false, true, false), TransportAction::StdoutTaken);
    assert_eq!(on_process_started(false, false, false), TransportAction::BothTaken);
}
