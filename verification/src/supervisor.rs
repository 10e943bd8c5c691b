//! Supervision decisions: what the engine does when a component stops or a
//! shutdown signal arrives. The concurrent plumbing that races the
//! components lives outside the library; it feeds each event to
//! [`supervise`] and performs the action it returns.
//!
//! Policy: the engine fails fast. Any core component's termination —
//! expected or not — shuts the whole engine down rather than running with
//! only part of its safety logic active, and exits non-zero naming the
//! component. The external shutdown signal exits zero. The telemetry
//! exporter is read-only plumbing: its death is logged but does not stop
//! trading.

use vstd::prelude::*;

verus! {

/// The long-running components the supervisor watches.
#[derive(Clone, Copy, Debug, PartialEq, Eq, Structural)]
pub enum Component {
    Feed,
    Signal,
    Execution,
    Account,
    Telemetry,
}

/// Core components make trading decisions; telemetry only reports them.
pub open spec fn is_core(c: Component) -> bool {
    !(c is Telemetry)
}

/// What the supervisor reacts to.
#[derive(Clone, Copy, Debug, PartialEq, Eq, Structural)]
pub enum EngineEvent {
    /// The external shutdown signal.
    ShutdownSignal,
    /// A component's task ended, in error or not.
    ComponentStopped { component: Component, failed: bool },
}

/// What the plumbing must do next.
#[derive(Clone, Copy, Debug, PartialEq, Eq, Structural)]
pub struct SupervisorAction {
    /// Cancel all remaining components and stop the process.
    pub initiate_shutdown: bool,
    /// Process exit code: zero only for a clean, signal-driven shutdown.
    pub exit_code: u8,
    /// The component to name in the log, when one caused the shutdown.
    pub failed_component: Option<Component>,
}

/// The supervision policy as a function of the event alone.
pub open spec fn supervise_spec(event: EngineEvent) -> SupervisorAction {
    match event {
        EngineEvent::ShutdownSignal => SupervisorAction {
            initiate_shutdown: true,
            exit_code: 0,
            failed_component: None,
        },
        EngineEvent::ComponentStopped { component, failed } => {
            if is_core(component) {
                SupervisorAction {
                    initiate_shutdown: true,
                    exit_code: 1,
                    failed_component: Some(component),
                }
            } else {
                SupervisorAction {
                    initiate_shutdown: false,
                    exit_code: 0,
                    failed_component: Some(component),
                }
            }
        },
    }
}

/// Decide the engine's reaction to one event, exactly as
/// [`supervise_spec`] says.
pub fn supervise(event: EngineEvent) -> (a: SupervisorAction)
    ensures
        a == supervise_spec(event),
{
    match event {
        EngineEvent::ShutdownSignal => SupervisorAction {
            initiate_shutdown: true,
            exit_code: 0,
            failed_component: None,
        },
        EngineEvent::ComponentStopped { component, failed: _ } => {
            let core = match component {
                Component::Telemetry => false,
                _ => true,
            };
            if core {
                SupervisorAction {
                    initiate_shutdown: true,
                    exit_code: 1,
                    failed_component: Some(component),
                }
            } else {
                SupervisorAction {
                    initiate_shutdown: false,
                    exit_code: 0,
                    failed_component: Some(component),
                }
            }
        },
    }
}

} // verus!
