//! The startup sequence: launch the background service on its own execution
//! context, register the command handlers with the interactive host, then
//! enter the host's blocking run loop. The decisions live here, verified;
//! the caller performs each action (the spawn, the host construction, the
//! run loop) on its side of the boundary and reports the loop's exit.

use vstd::prelude::*;

verus! {

/// Where the process stands in its lifecycle. The phases advance strictly
/// in this order and are never revisited.
#[derive(Debug, PartialEq, Eq, Structural, Clone, Copy)]
pub enum Phase {
    Uninitialized,
    ServiceLaunched,
    HandlersRegistered,
    Running,
    Terminated,
}

/// What the caller must do next during startup. Launching the service is
/// fire-and-forget: the caller keeps no handle and never joins the task.
#[derive(Debug, PartialEq, Eq, Structural, Clone, Copy)]
pub enum StartupAction {
    LaunchService,
    RegisterHandlers,
    EnterRunLoop,
}

/// The action the startup sequence issues from `phase`, if any.
pub open spec fn action_of(phase: Phase) -> Option<StartupAction> {
    match phase {
        Phase::Uninitialized => Some(StartupAction::LaunchService),
        Phase::ServiceLaunched => Some(StartupAction::RegisterHandlers),
        Phase::HandlersRegistered => Some(StartupAction::EnterRunLoop),
        Phase::Running => None,
        Phase::Terminated => None,
    }
}

/// The phase that follows `phase` once its action has been performed.
pub open spec fn phase_after(phase: Phase) -> Phase {
    match phase {
        Phase::Uninitialized => Phase::ServiceLaunched,
        Phase::ServiceLaunched => Phase::HandlersRegistered,
        Phase::HandlersRegistered => Phase::Running,
        Phase::Running => Phase::Running,
        Phase::Terminated => Phase::Terminated,
    }
}

/// How many steps remain until the startup sequence is done.
pub open spec fn steps_left(phase: Phase) -> nat {
    match phase {
        Phase::Uninitialized => 3,
        Phase::ServiceLaunched => 2,
        Phase::HandlersRegistered => 1,
        Phase::Running => 0,
        Phase::Terminated => 0,
    }
}

/// Every action the startup sequence issues from `phase` until it is done,
/// in order.
pub open spec fn startup_actions(phase: Phase) -> Seq<StartupAction>
    decreases steps_left(phase),
{
    match action_of(phase) {
        None => Seq::empty(),
        Some(a) => seq![a] + startup_actions(phase_after(phase)),
    }
}

/// The startup sequence, driven one step at a time by the caller.
pub struct Orchestrator {
    pub phase: Phase,
}

impl Orchestrator {
    /// A fresh process: nothing launched, nothing registered.
    pub fn new() -> (r: Self)
        ensures
            r.phase == Phase::Uninitialized,
    {
        Orchestrator { phase: Phase::Uninitialized }
    }

    /// Issues the next startup action and advances the phase, or reports
    /// with `None` that startup is complete. The service launch is issued
    /// exactly from the initial phase, so it is issued exactly once, and
    /// strictly before the run loop is entered.
    pub fn step(&mut self) -> (a: Option<StartupAction>)
        ensures
            a == action_of(old(self).phase),
            final(self).phase == phase_after(old(self).phase),
            (a == Some(StartupAction::LaunchService)) <==> old(self).phase
                == Phase::Uninitialized,
    {
        match self.phase {
            Phase::Uninitialized => {
                self.phase = Phase::ServiceLaunched;
                Some(StartupAction::LaunchService)
            },
            Phase::ServiceLaunched => {
                self.phase = Phase::HandlersRegistered;
                Some(StartupAction::RegisterHandlers)
            },
            Phase::HandlersRegistered => {
                self.phase = Phase::Running;
                Some(StartupAction::EnterRunLoop)
            },
            Phase::Running => None,
            Phase::Terminated => None,
        }
    }

    /// Records that the host's run loop has returned. The lifecycle ends
    /// here: there is no restart path.
    pub fn on_run_loop_exit(&mut self)
        requires
            old(self).phase == Phase::Running,
        ensures
            final(self).phase == Phase::Terminated,
    {
        self.phase = Phase::Terminated;
    }
}

/// Law: a full startup from the initial phase issues exactly the sequence
/// launch, register, enter-run-loop; in particular the background service
/// is launched exactly once, and before the run loop is entered.
pub proof fn lemma_service_launched_once_before_run_loop()
    ensures
        startup_actions(Phase::Uninitialized) == seq![
            StartupAction::LaunchService,
            StartupAction::RegisterHandlers,
            StartupAction::EnterRunLoop,
        ],
        forall|i: int|
            0 <= i < startup_actions(Phase::Uninitialized).len()
                && startup_actions(Phase::Uninitialized)[i] == StartupAction::LaunchService
                ==> i == 0,
{
    reveal_with_fuel(startup_actions, 5);
    assert(startup_actions(Phase::Uninitialized) =~= seq![
        StartupAction::LaunchService,
        StartupAction::RegisterHandlers,
        StartupAction::EnterRunLoop,
    ]);
}

} // verus!
