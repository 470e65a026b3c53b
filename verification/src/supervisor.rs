//! The shutdown supervisor: the power-loss policy state machine.
//!
//! The supervisor consumes status snapshots, a host-resume signal and the
//! passage of time, and decides when to warn the logged-in users, when to
//! initiate a shutdown or hibernation, and how to recover once power
//! returns or the host wakes.  The machine here is pure: the surrounding
//! glue feeds it events with a clock reading and performs the actions it
//! returns, in order.

use vstd::prelude::*;
use vstd::string::StringExecFns;

use crate::codec::UpsStatus;
use crate::config::RuntimeConfig;
use crate::flags::{flag_set, spec_flag_set, spec_work_mode, UpsWorkMode, BATTERY_LOW};

verus! {

/// The three states of the power-loss policy.
#[derive(Clone, Copy, Debug, PartialEq, Eq, Structural)]
pub enum SupervisorState {
    /// Utility power is believed present; watch for a power-loss edge.
    Normal,
    /// Power was lost; the users are warned and the grace timer runs until
    /// `deadline_ms`.
    GracePeriod { deadline_ms: u64 },
    /// Shutdown or hibernation was initiated; await the wake that follows
    /// it, or the return of power.
    AwaitingResume,
}

/// One input to the supervisor.
#[derive(Clone, Copy, Debug)]
pub enum SupervisorEvent {
    /// A fresh status snapshot was published.
    Snapshot(UpsStatus),
    /// The clock advanced; nothing else happened.
    TimerTick,
    /// The host-resume signal was observed.
    Resumed,
}

/// One action the glue must perform, in the order returned.
#[derive(Clone, Debug, PartialEq, Eq)]
pub enum SupervisorAction {
    /// Broadcast this warning to all active local sessions.
    Notify { message: String },
    /// Reset the host-resume signal, so that only a wake that follows the
    /// imminent shutdown is observed later.
    ResetResumeSignal,
    /// Acquire the shutdown privilege and hibernate or shut down.
    InitiateShutdown { hibernate: bool },
}

/// What the policy decides on one event, before the actions are spelled
/// out.
#[derive(Clone, Copy, Debug, PartialEq, Eq, Structural)]
pub enum SupervisorOutcome {
    /// Nothing to do; the state is unchanged.
    Stay,
    /// A power-loss edge was seen: warn the users and start the grace
    /// timer.
    EnterGrace,
    /// Initiate the shutdown: the grace timer expired or the battery ran
    /// low.
    ShutdownNow,
    /// Power returned or the host woke: back to normal watching.
    BackToNormal,
}

/// The decision rule of the supervisor, in priority order.
///
/// In the grace period the expired timer is consulted first, then a low
/// battery, then restored power; a snapshot that is both low-battery and
/// on-line thus still shuts down.
pub open spec fn spec_decide(
    state: SupervisorState,
    now_ms: u64,
    event: SupervisorEvent,
) -> SupervisorOutcome {
    match state {
        SupervisorState::Normal => match event {
            SupervisorEvent::Snapshot(s) => if spec_work_mode(s.flags) != UpsWorkMode::Line {
                SupervisorOutcome::EnterGrace
            } else {
                SupervisorOutcome::Stay
            },
            _ => SupervisorOutcome::Stay,
        },
        SupervisorState::GracePeriod { deadline_ms } => if now_ms >= deadline_ms {
            SupervisorOutcome::ShutdownNow
        } else {
            match event {
                SupervisorEvent::Snapshot(s) => if spec_flag_set(s.flags, BATTERY_LOW) {
                    SupervisorOutcome::ShutdownNow
                } else if spec_work_mode(s.flags) == UpsWorkMode::Line {
                    SupervisorOutcome::BackToNormal
                } else {
                    SupervisorOutcome::Stay
                },
                _ => SupervisorOutcome::Stay,
            }
        },
        SupervisorState::AwaitingResume => match event {
            SupervisorEvent::Resumed => SupervisorOutcome::BackToNormal,
            SupervisorEvent::Snapshot(s) => if spec_work_mode(s.flags) == UpsWorkMode::Line {
                SupervisorOutcome::BackToNormal
            } else {
                SupervisorOutcome::Stay
            },
            _ => SupervisorOutcome::Stay,
        },
    }
}

/// The state that follows an outcome.
pub open spec fn spec_next_state(
    state: SupervisorState,
    config: RuntimeConfig,
    now_ms: u64,
    outcome: SupervisorOutcome,
) -> SupervisorState {
    match outcome {
        SupervisorOutcome::Stay => state,
        SupervisorOutcome::EnterGrace => SupervisorState::GracePeriod {
            deadline_ms: (now_ms + config.shutdown_timeout_s * 1000) as u64,
        },
        SupervisorOutcome::ShutdownNow => SupervisorState::AwaitingResume,
        SupervisorOutcome::BackToNormal => SupervisorState::Normal,
    }
}

/// The name of what `format_seconds` returns: how a whole-second duration
/// is rendered as text.  The rendering depends on the seconds value alone.
pub uninterp spec fn human_duration_text(secs: u64) -> Seq<char>;

/// Relies on `humantime::format_duration`, displayed through
/// `ToString::to_string`: it renders a whole-second duration as text from
/// the duration value alone (years down to seconds, zero as `0s`).
#[verifier::external_body]
fn format_seconds(secs: u64) -> (r: String)
    ensures
        r@ == human_duration_text(secs),
{
    humantime::format_duration(std::time::Duration::from_secs(secs)).to_string()
}

/// The warning broadcast on a power-loss edge.
pub open spec fn spec_warning_message(secs: u64, hibernate: bool) -> Seq<char> {
    "Power loss detected.\n\nUnless power is restored within the next "@ + human_duration_text(
        secs,
    ) + ", the system will "@ + (if hibernate {
        "hibernate"@
    } else {
        "shut down"@
    }) + "."@
}

/// Formats the warning broadcast on a power-loss edge.
pub fn warning_message(shutdown_timeout_s: u32, hibernate: bool) -> (r: String)
    ensures
        r@ == spec_warning_message(shutdown_timeout_s as u64, hibernate),
{
    let mut msg = String::from_str(
        "Power loss detected.\n\nUnless power is restored within the next ",
    );
    let duration_text = format_seconds(shutdown_timeout_s as u64);
    msg.append(duration_text.as_str());
    msg.append(", the system will ");
    if hibernate {
        msg.append("hibernate");
    } else {
        msg.append("shut down");
    }
    msg.append(".");
    proof {
        assert(msg@ =~= spec_warning_message(shutdown_timeout_s as u64, hibernate));
    }
    msg
}

/// Feeds one event to the supervisor.
///
/// Returns the next state and the actions the glue must perform, in order.
/// A power-loss edge warns once and arms the grace timer; a shutdown always
/// resets the resume signal first, so that a spurious earlier wake cannot
/// short-circuit the wait that follows.
pub fn step(
    state: SupervisorState,
    config: &RuntimeConfig,
    now_ms: u64,
    event: &SupervisorEvent,
) -> (r: (SupervisorState, Vec<SupervisorAction>))
    requires
        now_ms + config.shutdown_timeout_s * 1000 <= u64::MAX,
    ensures
        r.0 == spec_next_state(state, *config, now_ms, spec_decide(state, now_ms, *event)),
        ({
            let actions = r.1@;
            match spec_decide(state, now_ms, *event) {
                SupervisorOutcome::Stay => actions =~= Seq::<SupervisorAction>::empty(),
                SupervisorOutcome::BackToNormal => actions =~= Seq::<SupervisorAction>::empty(),
                SupervisorOutcome::EnterGrace => actions.len() == 1 && (actions[0] matches
                SupervisorAction::Notify { message } && message@ == warning_string(*config)),
                SupervisorOutcome::ShutdownNow => actions.len() == 2 && actions[0]
                    == SupervisorAction::ResetResumeSignal && actions[1] == (
                SupervisorAction::InitiateShutdown { hibernate: config.hibernate }),
            }
        }),
{
    let outcome = decide(state, now_ms, event);
    let next = match outcome {
        SupervisorOutcome::Stay => state,
        SupervisorOutcome::EnterGrace => SupervisorState::GracePeriod {
            deadline_ms: now_ms + (config.shutdown_timeout_s as u64) * 1000,
        },
        SupervisorOutcome::ShutdownNow => SupervisorState::AwaitingResume,
        SupervisorOutcome::BackToNormal => SupervisorState::Normal,
    };
    let mut actions: Vec<SupervisorAction> = Vec::new();
    match outcome {
        SupervisorOutcome::EnterGrace => {
            let message = warning_message(config.shutdown_timeout_s, config.hibernate);
            actions.push(SupervisorAction::Notify { message });
        },
        SupervisorOutcome::ShutdownNow => {
            actions.push(SupervisorAction::ResetResumeSignal);
            actions.push(SupervisorAction::InitiateShutdown { hibernate: config.hibernate });
        },
        _ => {},
    }
    (next, actions)
}

/// The warning text the supervisor emits for a configuration.
pub open spec fn warning_string(config: RuntimeConfig) -> Seq<char> {
    spec_warning_message(config.shutdown_timeout_s as u64, config.hibernate)
}

/// Computes the decision rule.
pub fn decide(state: SupervisorState, now_ms: u64, event: &SupervisorEvent) -> (r:
    SupervisorOutcome)
    ensures
        r == spec_decide(state, now_ms, *event),
{
    match state {
        SupervisorState::Normal => match event {
            SupervisorEvent::Snapshot(s) => {
                let mode = s.work_mode();
                if mode != UpsWorkMode::Line {
                    SupervisorOutcome::EnterGrace
                } else {
                    SupervisorOutcome::Stay
                }
            },
            _ => SupervisorOutcome::Stay,
        },
        SupervisorState::GracePeriod { deadline_ms } => if now_ms >= deadline_ms {
            SupervisorOutcome::ShutdownNow
        } else {
            match event {
                SupervisorEvent::Snapshot(s) => if flag_set(s.flags, BATTERY_LOW) {
                    SupervisorOutcome::ShutdownNow
                } else if s.work_mode() == UpsWorkMode::Line {
                    SupervisorOutcome::BackToNormal
                } else {
                    SupervisorOutcome::Stay
                },
                _ => SupervisorOutcome::Stay,
            }
        },
        SupervisorState::AwaitingResume => match event {
            SupervisorEvent::Resumed => SupervisorOutcome::BackToNormal,
            SupervisorEvent::Snapshot(s) => if s.work_mode() == UpsWorkMode::Line {
                SupervisorOutcome::BackToNormal
            } else {
                SupervisorOutcome::Stay
            },
            _ => SupervisorOutcome::Stay,
        },
    }
}

} // verus!
