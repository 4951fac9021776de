//! What to do when an audio stream reports a fault (a glitch changes
//! nothing; a fatal error stops the device and starts one recovery) and
//! when an audio device dies mid-call: one silent reopen, then
//! up to three reopens after growing pauses, falling back to the default
//! device when the chosen one was unplugged, and giving up (listen-only for a
//! microphone, silence for a speaker) when nothing works. The waiting, the
//! opening and the notifying are done by the caller, which hands back what
//! each attempt gave.

use vstd::prelude::*;
use crate::audio::{AudioIoError, DeviceKind, DeviceLoss, StreamFault, classify_loss};
use crate::engine::DeviceStatus;

verus! {

/// What a stream fault leads to: the device it stopped, if any, and whether
/// a recovery of that device is started.
#[derive(Clone, Copy, PartialEq, Eq, Structural, Debug)]
pub struct FaultResponse {
    pub stopped: Option<DeviceKind>,
    pub start_recovery: bool,
}

/// The device on the side of a stream fault.
pub open spec fn fault_device(fault: StreamFault) -> DeviceKind {
    match fault {
        StreamFault::Input => DeviceKind::Input,
        StreamFault::Output => DeviceKind::Output,
    }
}

/// The response to `error` on the `fault` side, while a recovery of that
/// device is (`recovering`) or is not under way: a transient glitch stops
/// nothing; any other error marks the device stopped and starts a recovery
/// unless one is already running.
pub fn fault_response(fault: StreamFault, error: &AudioIoError, recovering: bool) -> (r: FaultResponse)
    ensures
        r == (if *error is Transient {
            FaultResponse { stopped: None, start_recovery: false }
        } else {
            FaultResponse { stopped: Some(fault_device(fault)), start_recovery: !recovering }
        }),
{
    if !error.fatal() {
        return FaultResponse { stopped: None, start_recovery: false };
    }
    let kind = match fault {
        StreamFault::Input => DeviceKind::Input,
        StreamFault::Output => DeviceKind::Output,
    };
    FaultResponse { stopped: Some(kind), start_recovery: !recovering }
}

/// Number of reopens after the silent one.
pub const PROBES: usize = 3;

/// The pause before each reopen after the silent one, in milliseconds.
pub open spec fn backoff_ms(attempt: int) -> u64 {
    if attempt == 0 {
        250
    } else if attempt == 1 {
        1_000
    } else {
        3_000
    }
}

pub fn backoff(attempt: usize) -> (r: u64)
    requires
        attempt < PROBES,
    ensures
        r == backoff_ms(attempt as int),
{
    if attempt == 0 {
        250
    } else if attempt == 1 {
        1_000
    } else {
        3_000
    }
}

/// Where a recovery stands: before the silent reopen, before reopen number
/// `attempt`, trying the default device after reopen `attempt` found the
/// chosen one unplugged, or over.
#[derive(Clone, Copy, PartialEq, Eq, Structural, Debug)]
pub enum Recovery {
    Silent,
    Probe { attempt: usize },
    Fallback { attempt: usize, cause: DeviceLoss },
    Finished,
}

/// What the last attempt gave: the device is no longer wanted (checked after
/// the pause), it opened, or opening it failed with `error` while the OS
/// still lists it (`still_listed`; true when no particular device was chosen).
#[derive(Clone, PartialEq, Eq, Debug)]
pub enum RecoveryEvent {
    Gone,
    Opened,
    Failed { error: AudioIoError, still_listed: bool },
}

/// What the caller does next, in this order: report `error_code`, stop the
/// device, forget the chosen device, mark the device running, notify
/// `status` with `cause`, then (where `open` is set) wait its pause, check
/// that the device is still wanted and open it — the default device when its
/// flag is set, the chosen one otherwise.
#[derive(Clone, Copy, PartialEq, Eq, Debug)]
pub struct RecoveryAction {
    pub error_code: Option<&'static str>,
    pub stop: bool,
    pub clear_choice: bool,
    pub mark_running: bool,
    pub status: Option<DeviceStatus>,
    pub cause: Option<DeviceLoss>,
    pub open: Option<(u64, bool)>,
}

/// Nothing to do.
pub open spec fn idle() -> RecoveryAction {
    RecoveryAction {
        error_code: None,
        stop: false,
        clear_choice: false,
        mark_running: false,
        status: None,
        cause: None,
        open: None,
    }
}

/// The status of a device that is given up on.
pub open spec fn given_up_status(kind: DeviceKind) -> DeviceStatus {
    match kind {
        DeviceKind::Input => DeviceStatus::ListenOnly,
        DeviceKind::Output => DeviceStatus::Silent,
    }
}

/// The code reported when the device is found lost.
pub open spec fn lost_code(kind: DeviceKind) -> &'static str {
    match kind {
        DeviceKind::Input => "ERR_VOICE_MIC_LOST",
        DeviceKind::Output => "ERR_VOICE_OUTPUT_LOST",
    }
}

/// Stop the device and report it given up on for `cause`.
pub open spec fn give_up(kind: DeviceKind, cause: DeviceLoss) -> RecoveryAction {
    RecoveryAction { stop: true, status: Some(given_up_status(kind)), cause: Some(cause), ..idle() }
}

/// Reopen after the pause of attempt `attempt`.
pub open spec fn probe(attempt: int) -> RecoveryAction {
    RecoveryAction { open: Some((backoff_ms(attempt), false)), ..idle() }
}

/// The recovery after `event`, for a device of `kind`; `chosen` tells whether
/// a particular device (rather than the default) was in use.
pub open spec fn step_spec(
    kind: DeviceKind,
    chosen: bool,
    state: Recovery,
    event: RecoveryEvent,
) -> (Recovery, RecoveryAction) {
    match state {
        Recovery::Finished => (Recovery::Finished, idle()),
        Recovery::Silent => match event {
            RecoveryEvent::Gone => (Recovery::Finished, idle()),
            RecoveryEvent::Opened => (Recovery::Finished, RecoveryAction { mark_running: true, ..idle() }),
            RecoveryEvent::Failed { .. } => (
                Recovery::Probe { attempt: 0 },
                RecoveryAction {
                    error_code: Some(lost_code(kind)),
                    status: Some(DeviceStatus::Lost),
                    open: Some((backoff_ms(0), false)),
                    ..idle()
                },
            ),
        },
        Recovery::Probe { attempt } => match event {
            RecoveryEvent::Gone => (Recovery::Finished, idle()),
            RecoveryEvent::Opened => (
                Recovery::Finished,
                RecoveryAction {
                    mark_running: true,
                    status: Some(DeviceStatus::Recovered),
                    ..idle()
                },
            ),
            RecoveryEvent::Failed { error, still_listed } => {
                let cause = crate::audio::classify_loss_spec(still_listed, error);
                if cause == DeviceLoss::PermissionRevoked {
                    (Recovery::Finished, give_up(kind, cause))
                } else if chosen && cause == DeviceLoss::Unplugged {
                    (
                        Recovery::Fallback { attempt, cause },
                        RecoveryAction { open: Some((0, true)), ..idle() },
                    )
                } else if attempt + 1 >= PROBES {
                    (Recovery::Finished, give_up(kind, cause))
                } else {
                    (Recovery::Probe { attempt: (attempt + 1) as usize }, probe(attempt + 1))
                }
            },
        },
        Recovery::Fallback { attempt, cause } => match event {
            RecoveryEvent::Opened => (
                Recovery::Finished,
                RecoveryAction {
                    clear_choice: true,
                    mark_running: true,
                    status: Some(DeviceStatus::SwitchedToDefault),
                    cause: Some(cause),
                    ..idle()
                },
            ),
            _ => if attempt + 1 >= PROBES {
                (Recovery::Finished, give_up(kind, cause))
            } else {
                (Recovery::Probe { attempt: (attempt + 1) as usize }, probe(attempt + 1))
            },
        },
    }
}

/// The attempts stay within the three reopens.
pub open spec fn recovery_ok(state: Recovery) -> bool {
    match state {
        Recovery::Probe { attempt } => attempt < PROBES,
        Recovery::Fallback { attempt, .. } => attempt < PROBES,
        _ => true,
    }
}

/// How many steps a recovery can still take at most.
pub open spec fn steps_left(state: Recovery) -> int {
    match state {
        Recovery::Silent => 1 + 2 * PROBES,
        Recovery::Probe { attempt } => 2 * (PROBES - attempt),
        Recovery::Fallback { attempt, .. } => 2 * (PROBES - attempt) - 1,
        Recovery::Finished => 0,
    }
}

/// The first thing to do: wait 50 ms, then reopen the device silently.
pub fn start() -> (r: (Recovery, RecoveryAction))
    ensures
        r.0 == Recovery::Silent,
        r.1 == (RecoveryAction { open: Some((50, false)), ..idle() }),
{
    (
        Recovery::Silent,
        RecoveryAction {
            error_code: None,
            stop: false,
            clear_choice: false,
            mark_running: false,
            status: None,
            cause: None,
            open: Some((50, false)),
        },
    )
}

fn given_up(kind: DeviceKind, cause: DeviceLoss) -> (r: RecoveryAction)
    ensures
        r == give_up(kind, cause),
{
    let status = match kind {
        DeviceKind::Input => DeviceStatus::ListenOnly,
        DeviceKind::Output => DeviceStatus::Silent,
    };
    RecoveryAction {
        error_code: None,
        stop: true,
        clear_choice: false,
        mark_running: false,
        status: Some(status),
        cause: Some(cause),
        open: None,
    }
}

fn probe_action(attempt: usize) -> (r: RecoveryAction)
    requires
        attempt < PROBES,
    ensures
        r == probe(attempt as int),
{
    RecoveryAction {
        error_code: None,
        stop: false,
        clear_choice: false,
        mark_running: false,
        status: None,
        cause: None,
        open: Some((backoff(attempt), false)),
    }
}

/// The recovery after `event`, and what to do next.
pub fn step(kind: DeviceKind, chosen: bool, state: Recovery, event: &RecoveryEvent) -> (r: (
    Recovery,
    RecoveryAction,
))
    requires
        recovery_ok(state),
    ensures
        r == step_spec(kind, chosen, state, *event),
        recovery_ok(r.0),
{
    let nothing = RecoveryAction {
        error_code: None,
        stop: false,
        clear_choice: false,
        mark_running: false,
        status: None,
        cause: None,
        open: None,
    };
    match state {
        Recovery::Finished => (Recovery::Finished, nothing),
        Recovery::Silent => match event {
            RecoveryEvent::Gone => (Recovery::Finished, nothing),
            RecoveryEvent::Opened => (Recovery::Finished, RecoveryAction { mark_running: true, ..nothing }),
            RecoveryEvent::Failed { .. } => {
                let code: &'static str = match kind {
                    DeviceKind::Input => "ERR_VOICE_MIC_LOST",
                    DeviceKind::Output => "ERR_VOICE_OUTPUT_LOST",
                };
                (
                    Recovery::Probe { attempt: 0 },
                    RecoveryAction {
                        error_code: Some(code),
                        status: Some(DeviceStatus::Lost),
                        open: Some((backoff(0), false)),
                        ..nothing
                    },
                )
            },
        },
        Recovery::Probe { attempt } => match event {
            RecoveryEvent::Gone => (Recovery::Finished, nothing),
            RecoveryEvent::Opened => (
                Recovery::Finished,
                RecoveryAction { mark_running: true, status: Some(DeviceStatus::Recovered), ..nothing },
            ),
            RecoveryEvent::Failed { error, still_listed } => {
                let cause = classify_loss(*still_listed, error);
                if cause == DeviceLoss::PermissionRevoked {
                    (Recovery::Finished, given_up(kind, cause))
                } else if chosen && cause == DeviceLoss::Unplugged {
                    (Recovery::Fallback { attempt, cause }, RecoveryAction { open: Some((0, true)), ..nothing })
                } else if attempt + 1 >= PROBES {
                    (Recovery::Finished, given_up(kind, cause))
                } else {
                    (Recovery::Probe { attempt: attempt + 1 }, probe_action(attempt + 1))
                }
            },
        },
        Recovery::Fallback { attempt, cause } => match event {
            RecoveryEvent::Opened => (
                Recovery::Finished,
                RecoveryAction {
                    clear_choice: true,
                    mark_running: true,
                    status: Some(DeviceStatus::SwitchedToDefault),
                    cause: Some(cause),
                    ..nothing
                },
            ),
            _ => if attempt + 1 >= PROBES {
                (Recovery::Finished, given_up(kind, cause))
            } else {
                (Recovery::Probe { attempt: attempt + 1 }, probe_action(attempt + 1))
            },
        },
    }
}

/// Every step of an unfinished recovery brings it closer to its end: a
/// recovery takes at most seven steps after the first.
pub proof fn lemma_recovery_ends(kind: DeviceKind, chosen: bool, state: Recovery, event: RecoveryEvent)
    requires
        recovery_ok(state),
        state != Recovery::Finished,
    ensures
        0 <= steps_left(step_spec(kind, chosen, state, event).0) < steps_left(state),
        steps_left(state) <= 7,
{
}

/// A permission error gives up at once, and every giving up stops the device
/// and leaves a microphone listen-only and a speaker silent.
pub proof fn lemma_permission_gives_up(
    kind: DeviceKind,
    chosen: bool,
    attempt: usize,
    error: AudioIoError,
    still_listed: bool,
)
    requires
        attempt < PROBES,
        error == AudioIoError::PermissionDenied,
    ensures
        step_spec(kind, chosen, Recovery::Probe { attempt }, RecoveryEvent::Failed { error, still_listed })
            == (Recovery::Finished, give_up(kind, DeviceLoss::PermissionRevoked)),
        give_up(kind, DeviceLoss::PermissionRevoked).stop,
        give_up(kind, DeviceLoss::PermissionRevoked).status == Some(
            if kind == DeviceKind::Input {
                DeviceStatus::ListenOnly
            } else {
                DeviceStatus::Silent
            },
        ),
{
}

/// A chosen device that was unplugged is replaced by the default device
/// before any further reopen.
pub proof fn lemma_unplugged_falls_back(kind: DeviceKind, attempt: usize, error: AudioIoError)
    requires
        attempt < PROBES,
        error is NoDevice || error is Other,
    ensures
        step_spec(
            kind,
            true,
            Recovery::Probe { attempt },
            RecoveryEvent::Failed { error, still_listed: false },
        ).1.open == Some((0u64, true)),
{
}

} // verus!
