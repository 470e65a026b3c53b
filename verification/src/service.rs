//! Service-lifecycle rules: control dispatch, status-report fields, and
//! exit codes.
//!
//! The service control handler, the status reports and the distinguished
//! exit codes are OS plumbing, but what they decide is plain: which
//! control request does what, which controls a state accepts, how the
//! checkpoint counter moves, and which exit code each failure class
//! carries.  Those rules live here; the glue passes the raw codes through.

use vstd::prelude::*;

verus! {

/// The stop control request.
pub const SERVICE_CONTROL_STOP: u32 = 0x00000001;

/// The interrogate control request.
pub const SERVICE_CONTROL_INTERROGATE: u32 = 0x00000004;

/// The power-event control request.
pub const SERVICE_CONTROL_POWEREVENT: u32 = 0x0000000D;

/// The power event raised when the host resumes automatically.
pub const PBT_APMRESUMEAUTOMATIC: u32 = 0x00000012;

/// Acceptance mask bit for the stop control.
pub const SERVICE_ACCEPT_STOP: u32 = 0x00000001;

/// Acceptance mask bit for power events.
pub const SERVICE_ACCEPT_POWEREVENT: u32 = 0x00000040;

/// The all-is-well exit code.
pub const ERROR_SUCCESS: u32 = 0;

/// The exit code of an unhandled control request.
pub const ERROR_CALL_NOT_IMPLEMENTED: u32 = 120;

/// The distinguished exit code of an unreadable configuration.
pub const ERROR_BADKEY: u32 = 1010;

/// The distinguished exit code of a failed core task.
pub const ERROR_ARENA_TRASHED: u32 = 7;

/// The lifecycle states the service reports.
#[derive(Clone, Copy, Debug, PartialEq, Eq, Structural)]
pub enum ServiceState {
    Stopped,
    StartPending,
    StopPending,
    Running,
}

/// What the control handler decides for one control request.
#[derive(Clone, Copy, Debug, PartialEq, Eq, Structural)]
pub enum ControlDecision {
    /// Report stop-pending and signal the service to unwind.
    BeginStop,
    /// Raise the resume signal: the host woke up.
    SignalWakeup,
    /// Acknowledge and do nothing.
    Acknowledge,
    /// The control is not handled.
    NotImplemented,
}

/// The control-dispatch rule: stop begins the unwind, the automatic-resume
/// power event raises the resume signal (any other power event is merely
/// acknowledged, as is an interrogation), and everything else is
/// unimplemented.
pub open spec fn spec_dispatch_control(control: u32, event_type: u32) -> ControlDecision {
    if control == SERVICE_CONTROL_STOP {
        ControlDecision::BeginStop
    } else if control == SERVICE_CONTROL_POWEREVENT {
        if event_type == PBT_APMRESUMEAUTOMATIC {
            ControlDecision::SignalWakeup
        } else {
            ControlDecision::Acknowledge
        }
    } else if control == SERVICE_CONTROL_INTERROGATE {
        ControlDecision::Acknowledge
    } else {
        ControlDecision::NotImplemented
    }
}

/// Dispatches one control request.
pub fn dispatch_control(control: u32, event_type: u32) -> (r: ControlDecision)
    ensures
        r == spec_dispatch_control(control, event_type),
{
    if control == SERVICE_CONTROL_STOP {
        ControlDecision::BeginStop
    } else if control == SERVICE_CONTROL_POWEREVENT {
        if event_type == PBT_APMRESUMEAUTOMATIC {
            ControlDecision::SignalWakeup
        } else {
            ControlDecision::Acknowledge
        }
    } else if control == SERVICE_CONTROL_INTERROGATE {
        ControlDecision::Acknowledge
    } else {
        ControlDecision::NotImplemented
    }
}

/// The handler's return code for a decision.
pub fn control_result(decision: ControlDecision) -> (r: u32)
    ensures
        r == (if decision == ControlDecision::NotImplemented {
            ERROR_CALL_NOT_IMPLEMENTED
        } else {
            ERROR_SUCCESS
        }),
{
    match decision {
        ControlDecision::NotImplemented => ERROR_CALL_NOT_IMPLEMENTED,
        _ => ERROR_SUCCESS,
    }
}

/// The controls a reported state accepts: none while starting, stop and
/// power events otherwise.
pub fn controls_accepted(state: ServiceState) -> (r: u32)
    ensures
        r == (if state == ServiceState::StartPending {
            0u32
        } else {
            SERVICE_ACCEPT_STOP | SERVICE_ACCEPT_POWEREVENT
        }),
{
    if state == ServiceState::StartPending {
        0
    } else {
        SERVICE_ACCEPT_STOP | SERVICE_ACCEPT_POWEREVENT
    }
}

/// The checkpoint for one status report and the counter that follows it:
/// settled states report zero and leave the counter alone; pending states
/// report the counter and advance it.
pub fn next_checkpoint(state: ServiceState, counter: u32) -> (r: (u32, u32))
    requires
        counter < u32::MAX,
    ensures
        state == ServiceState::Running || state == ServiceState::Stopped ==> r == (
        0u32,
        counter,
        ),
        state == ServiceState::StartPending || state == ServiceState::StopPending ==> r == (
        counter,
        (counter + 1) as u32,
        ),
{
    match state {
        ServiceState::Running => (0, counter),
        ServiceState::Stopped => (0, counter),
        ServiceState::StartPending => (counter, counter + 1),
        ServiceState::StopPending => (counter, counter + 1),
    }
}

/// Why the service run ended.
#[derive(Clone, Copy, Debug, PartialEq, Eq, Structural)]
pub enum StopReason {
    /// The controller asked for a stop; the run completed.
    Requested,
    /// The configuration could not be read at start-up.
    ConfigurationUnreadable,
    /// The poller or the supervisor failed.
    CoreTaskFailed,
}

/// The distinguished exit code of each way the service stops.
pub fn exit_code(reason: StopReason) -> (r: u32)
    ensures
        reason == StopReason::Requested ==> r == ERROR_SUCCESS,
        reason == StopReason::ConfigurationUnreadable ==> r == ERROR_BADKEY,
        reason == StopReason::CoreTaskFailed ==> r == ERROR_ARENA_TRASHED,
{
    match reason {
        StopReason::Requested => ERROR_SUCCESS,
        StopReason::ConfigurationUnreadable => ERROR_BADKEY,
        StopReason::CoreTaskFailed => ERROR_ARENA_TRASHED,
    }
}

} // verus!
