use bridge_core::orchestrator::{Orchestrator, Phase, StartupAction};

#[test]
fn startup_launches_the_service_exactly_once_before_the_run_loop() {
    let mut orch = Orchestrator::new();
    let mut recorded: Vec<StartupAction> = Vec::new();
    while let Some(action) = orch.step() {
        recorded.push(action);
    }
    assert_eq!(
        recorded,
        vec![
            StartupAction::LaunchService,
            StartupAction::RegisterHandlers,
            StartupAction::EnterRunLoop,
        ]
    );
    let launches = recorded
        .iter()
        .filter(|a| **a == StartupAction::LaunchService)
        .count();
    assert_eq!(launches, 1);
    let launch_at = recorded
        .iter()
        .position(|a| *a == StartupAction::LaunchService)
        .unwrap();
    let run_loop_at = recorded
        .iter()
        .position(|a| *a == StartupAction::EnterRunLoop)
        .unwrap();
    assert!(launch_at < run_loop_at);
}

#[test]
fn startup_is_not_reentrant() {
    let mut orch = Orchestrator::new();
    while orch.step().is_some() {}
    assert_eq!(orch.phase, Phase::Running);
    assert_eq!(orch.step(), None);
    assert_eq!(orch.phase, Phase::Running);
}

#[test]
fn the_lifecycle_ends_when_the_run_loop_returns() {
    let mut orch = Orchestrator::new();
    while orch.step().is_some() {}
    orch.on_run_loop_exit();
    assert_eq!(orch.phase, Phase::Terminated);
    assert_eq!(orch.step(), None);
}
