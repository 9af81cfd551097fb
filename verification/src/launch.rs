//! The order of a launch and of its teardown.
//!
//! A launch is a walk through [`LaunchState`]. The host performs one
//! [`LaunchAction`] at a time and reports how it ended as a [`LaunchEvent`];
//! [`step`] answers with the state reached and the action to perform next.
//! Nothing here touches the host.

use crate::accounting::{
    add_utmpx_entry, log_after_login, log_after_logout, login_view, remove_utmpx_entry, RecordView,
};
use crate::environment::{
    cleared, env_reset, lemma_round_trip_is_reset, owned_names, prepare_environment, prepared,
};
use crate::host::{change_tty_ownership, DeviceOwnership, HostState, HostView};
use crate::identity::{Session, User};
use crate::seat::{binding_of, resolve_binding};
use crate::tty::{resolve_tty, tty_name_of, tty_number, tty_path_of};
use vstd::prelude::*;

verus! {

/// How far a launch has come. Each state is named after the step that was
/// completed last.
#[derive(Clone, Copy, Debug, PartialEq, Eq, Structural)]
pub enum LaunchState {
    /// No launch is under way.
    Idle,
    /// The terminal belongs to the user.
    OwnershipAcquired,
    /// The working directory is the user's home, or the attempt was reported.
    DirectoryChanged,
    /// The session's environment is in place.
    EnvironmentApplied,
    /// The session process exists; its login is not yet recorded.
    ChildSpawned { pid: i32 },
    /// The login was recorded, or the failure to do so reported; the session
    /// process runs.
    ChildRunning { pid: i32 },
    /// The session command could not be started.
    SpawnFailed,
    /// No session process is left: it ended, or it never started.
    ChildExited,
    /// The authentication session was handed back.
    AuthSessionClosed,
    /// The environment no longer holds a variable of the session.
    EnvironmentReset,
    /// The terminal was handed back to root, or the failure reported.
    OwnershipReleased,
    /// The terminal's accounting record shows it free.
    AccountingClosed,
}

/// What the host is asked to do next.
#[derive(Clone, Copy, Debug, PartialEq, Eq, Structural)]
pub enum LaunchAction {
    /// Make `uid` the owner of the terminal device and leave its group alone.
    AcquireOwnership { uid: u32 },
    /// Change the working directory to the user's home.
    ChangeDirectory,
    /// Set the session's variables.
    ApplyEnvironment,
    /// Start the session command with these credentials and with the
    /// standard streams of the login manager.
    SpawnChild { uid: u32, gid: u32 },
    /// Record the login of the user on the terminal, for this process.
    RecordLogin { pid: i32 },
    /// Block until this process has ended.
    WaitForChild { pid: i32 },
    /// Report that the command did not start, and pause so that the report
    /// can be read.
    PauseAfterFailure,
    /// Hand the authentication session back to the authenticator.
    CloseAuthSession,
    /// Remove the session's variables.
    ResetEnvironment,
    /// Make `uid` (root) the owner of the terminal device again.
    ReleaseOwnership { uid: u32 },
    /// Mark the terminal's accounting record as free.
    RecordLogout,
    /// Return to the caller: all that the launch changed is reversed.
    Finish,
    /// Return to the caller: the terminal could not be acquired and nothing
    /// else was attempted.
    Abort,
}

/// How the action asked for last has ended.
#[derive(Clone, Copy, Debug, PartialEq, Eq, Structural)]
pub enum LaunchEvent {
    /// It was done.
    Done,
    /// It failed; the host has reported the failure.
    Failed,
    /// The session command was started as process `pid`.
    Spawned { pid: i32 },
}

/// The owner that a released terminal goes back to.
pub const ROOT_UID: u32 = 0;

/// A state together with the action that the host performs next.
#[derive(Clone, Copy, Debug, PartialEq, Eq, Structural)]
pub struct Step {
    pub state: LaunchState,
    pub action: LaunchAction,
}

/// Where a launch for `uid` and `gid` starts.
pub open spec fn begin_spec(uid: u32) -> Step {
    Step { state: LaunchState::Idle, action: LaunchAction::AcquireOwnership { uid } }
}

/// The transition table.
///
/// Only two events decide anything: a failure to acquire the terminal ends
/// the launch before anything else is attempted, and a command that does not
/// start sends the launch to its teardown without a login record. Every other
/// failure is reported by the host and the launch goes on, so that the
/// teardown is never cut short.
pub open spec fn step_spec(uid: u32, gid: u32, state: LaunchState, event: LaunchEvent) -> Step {
    match state {
        LaunchState::Idle => if event == LaunchEvent::Failed {
            Step { state: LaunchState::Idle, action: LaunchAction::Abort }
        } else {
            Step { state: LaunchState::OwnershipAcquired, action: LaunchAction::ChangeDirectory }
        },
        LaunchState::OwnershipAcquired => Step {
            state: LaunchState::DirectoryChanged,
            action: LaunchAction::ApplyEnvironment,
        },
        LaunchState::DirectoryChanged => Step {
            state: LaunchState::EnvironmentApplied,
            action: LaunchAction::SpawnChild { uid, gid },
        },
        LaunchState::EnvironmentApplied => match event {
            LaunchEvent::Spawned { pid } => Step {
                state: LaunchState::ChildSpawned { pid },
                action: LaunchAction::RecordLogin { pid },
            },
            _ => Step { state: LaunchState::SpawnFailed, action: LaunchAction::PauseAfterFailure },
        },
        LaunchState::ChildSpawned { pid } => Step {
            state: LaunchState::ChildRunning { pid },
            action: LaunchAction::WaitForChild { pid },
        },
        LaunchState::ChildRunning { pid } => Step {
            state: LaunchState::ChildExited,
            action: LaunchAction::CloseAuthSession,
        },
        LaunchState::SpawnFailed => Step {
            state: LaunchState::ChildExited,
            action: LaunchAction::CloseAuthSession,
        },
        LaunchState::ChildExited => Step {
            state: LaunchState::AuthSessionClosed,
            action: LaunchAction::ResetEnvironment,
        },
        LaunchState::AuthSessionClosed => Step {
            state: LaunchState::EnvironmentReset,
            action: LaunchAction::ReleaseOwnership { uid: ROOT_UID },
        },
        LaunchState::EnvironmentReset => Step {
            state: LaunchState::OwnershipReleased,
            action: LaunchAction::RecordLogout,
        },
        LaunchState::OwnershipReleased => Step {
            state: LaunchState::AccountingClosed,
            action: LaunchAction::Finish,
        },
        LaunchState::AccountingClosed => Step {
            state: LaunchState::Idle,
            action: LaunchAction::Finish,
        },
    }
}

/// What a failure of an action means for the launch.
#[derive(Clone, Copy, Debug, PartialEq, Eq, Structural)]
pub enum FailurePolicy {
    /// The failure is reported and the launch goes on as if the action had
    /// been done.
    ReportAndContinue,
    /// The launch is given up before anything else is attempted.
    AbortLaunch,
    /// The failure is reported and the launch goes to its teardown.
    SkipToTeardown,
}

/// What it means for the launch that the action performed in `state` fails.
pub open spec fn failure_policy_spec(state: LaunchState) -> FailurePolicy {
    match state {
        LaunchState::Idle => FailurePolicy::AbortLaunch,
        LaunchState::EnvironmentApplied => FailurePolicy::SkipToTeardown,
        _ => FailurePolicy::ReportAndContinue,
    }
}

/// What it means for the launch that the action performed in `state` fails:
/// the terminal must be acquired, the command must start for a session to
/// run, and nothing else stops a launch.
pub fn failure_policy(state: LaunchState) -> (policy: FailurePolicy)
    ensures
        policy == failure_policy_spec(state),
{
    match state {
        LaunchState::Idle => FailurePolicy::AbortLaunch,
        LaunchState::EnvironmentApplied => FailurePolicy::SkipToTeardown,
        _ => FailurePolicy::ReportAndContinue,
    }
}

/// A failure that is only reported changes neither the state that the
/// launch reaches nor the action that follows.
pub proof fn lemma_reported_failure_keeps_course(uid: u32, gid: u32, state: LaunchState)
    requires
        failure_policy_spec(state) == FailurePolicy::ReportAndContinue,
    ensures
        step_spec(uid, gid, state, LaunchEvent::Failed) == step_spec(
            uid,
            gid,
            state,
            LaunchEvent::Done,
        ),
{
}

/// Whether the host returns to its caller on this action.
pub open spec fn ends_launch(action: LaunchAction) -> bool {
    action == LaunchAction::Finish || action == LaunchAction::Abort
}

impl LaunchAction {
    /// Whether the launch is over with this action.
    pub fn is_last(&self) -> (last: bool)
        ensures
            last == ends_launch(*self),
    {
        match self {
            LaunchAction::Finish => true,
            LaunchAction::Abort => true,
            _ => false,
        }
    }
}

/// The first step of a launch for the user `uid`.
pub fn begin(uid: u32) -> (first: Step)
    ensures
        first == begin_spec(uid),
{
    Step { state: LaunchState::Idle, action: LaunchAction::AcquireOwnership { uid } }
}

/// The state reached from `state` on `event`, and the action to perform
/// there, in a launch for the user `uid` of group `gid`.
pub fn step(uid: u32, gid: u32, state: LaunchState, event: LaunchEvent) -> (next: Step)
    ensures
        next == step_spec(uid, gid, state, event),
{
    match state {
        LaunchState::Idle => match event {
            LaunchEvent::Failed => Step { state: LaunchState::Idle, action: LaunchAction::Abort },
            _ => Step {
                state: LaunchState::OwnershipAcquired,
                action: LaunchAction::ChangeDirectory,
            },
        },
        LaunchState::OwnershipAcquired => Step {
            state: LaunchState::DirectoryChanged,
            action: LaunchAction::ApplyEnvironment,
        },
        LaunchState::DirectoryChanged => Step {
            state: LaunchState::EnvironmentApplied,
            action: LaunchAction::SpawnChild { uid, gid },
        },
        LaunchState::EnvironmentApplied => match event {
            LaunchEvent::Spawned { pid } => Step {
                state: LaunchState::ChildSpawned { pid },
                action: LaunchAction::RecordLogin { pid },
            },
            _ => Step { state: LaunchState::SpawnFailed, action: LaunchAction::PauseAfterFailure },
        },
        LaunchState::ChildSpawned { pid } => Step {
            state: LaunchState::ChildRunning { pid },
            action: LaunchAction::WaitForChild { pid },
        },
        LaunchState::ChildRunning { .. } | LaunchState::SpawnFailed => Step {
            state: LaunchState::ChildExited,
            action: LaunchAction::CloseAuthSession,
        },
        LaunchState::ChildExited => Step {
            state: LaunchState::AuthSessionClosed,
            action: LaunchAction::ResetEnvironment,
        },
        LaunchState::AuthSessionClosed => Step {
            state: LaunchState::EnvironmentReset,
            action: LaunchAction::ReleaseOwnership { uid: ROOT_UID },
        },
        LaunchState::EnvironmentReset => Step {
            state: LaunchState::OwnershipReleased,
            action: LaunchAction::RecordLogout,
        },
        LaunchState::OwnershipReleased => Step {
            state: LaunchState::AccountingClosed,
            action: LaunchAction::Finish,
        },
        LaunchState::AccountingClosed => Step {
            state: LaunchState::Idle,
            action: LaunchAction::Finish,
        },
    }
}

/// What the host reports in the course of one launch.
#[derive(Clone, Debug)]
pub struct Observations {
    /// What the link of the standard input resolved to, if it resolved.
    pub resolved: Option<String>,
    /// The host's list of login sessions.
    pub listing: String,
    /// Whether the terminal could be given to the user.
    pub acquired: bool,
    /// Whether the working directory could be changed to the user's home.
    pub directory_changed: bool,
    /// The process id of the session command, if it started.
    pub spawned: Option<i32>,
    /// Whether the login could be written to the accounting log.
    pub login_written: bool,
    /// The time of the login, in seconds and microseconds.
    pub seconds: i32,
    pub microseconds: i32,
    /// Whether the terminal could be given back to root.
    pub released: bool,
}

/// How a launch has ended.
#[derive(Clone, Debug)]
pub struct LaunchReport {
    /// Whether the launch went through to the end of its teardown; `false`
    /// where it was given up because the terminal could not be acquired.
    pub completed: bool,
    /// The actions that the host was asked for, in order.
    pub trace: Vec<LaunchAction>,
}

/// The actions of a launch for the user `uid` of group `gid`, given whether
/// the terminal could be acquired and whether the command started.
pub open spec fn launch_trace(uid: u32, gid: u32, acquired: bool, spawned: Option<i32>) -> Seq<
    LaunchAction,
> {
    if !acquired {
        seq![LaunchAction::AcquireOwnership { uid }, LaunchAction::Abort]
    } else {
        let setup = seq![
            LaunchAction::AcquireOwnership { uid },
            LaunchAction::ChangeDirectory,
            LaunchAction::ApplyEnvironment,
            LaunchAction::SpawnChild { uid, gid },
        ];
        let session = match spawned {
            Some(pid) => seq![LaunchAction::RecordLogin { pid }, LaunchAction::WaitForChild { pid }],
            None => seq![LaunchAction::PauseAfterFailure],
        };
        let teardown = seq![
            LaunchAction::CloseAuthSession,
            LaunchAction::ResetEnvironment,
            LaunchAction::ReleaseOwnership { uid: ROOT_UID },
            LaunchAction::RecordLogout,
            LaunchAction::Finish,
        ];
        setup + session + teardown
    }
}

/// The place in [`launch_trace`] of the action that is performed in `state`.
pub open spec fn place(step: Step, spawned: Option<i32>) -> int {
    let extra: int = if spawned is Some {
        1
    } else {
        0
    };
    match step.state {
        LaunchState::Idle => if step.action == LaunchAction::Abort {
            1
        } else {
            0
        },
        LaunchState::OwnershipAcquired => 1,
        LaunchState::DirectoryChanged => 2,
        LaunchState::EnvironmentApplied => 3,
        LaunchState::ChildSpawned { pid } => 4,
        LaunchState::ChildRunning { pid } => 5,
        LaunchState::SpawnFailed => 4,
        LaunchState::ChildExited => 5 + extra,
        LaunchState::AuthSessionClosed => 6 + extra,
        LaunchState::EnvironmentReset => 7 + extra,
        LaunchState::OwnershipReleased => 8 + extra,
        LaunchState::AccountingClosed => 9 + extra,
    }
}

/// The accounting log of the host while the session runs: with the login,
/// where the command started and the login could be written.
pub open spec fn log_in_session(before: HostView, user: User, seen: Observations) -> Seq<
    RecordView,
> {
    match seen.spawned {
        Some(pid) => if seen.login_written {
            log_after_login(
                before.accounting,
                login_view(
                    user.name@,
                    tty_name_of(tty_path_of(seen.resolved)),
                    pid,
                    seen.seconds,
                    seen.microseconds,
                ),
            )
        } else {
            before.accounting
        },
        None => before.accounting,
    }
}

/// The environment of the session.
pub open spec fn session_environment(
    before: HostView,
    user: User,
    session: Session,
    seen: Observations,
) -> Map<Seq<char>, Seq<char>> {
    let path = tty_path_of(seen.resolved);
    let binding = binding_of(seen.listing@, tty_name_of(path), user.name@);
    prepared(before.environment, user, session, binding.0, binding.1, tty_number(path))
}

/// The host in each state of a launch that began with the host `before`.
///
/// Setup adds to the host step by step; teardown takes back the
/// environment, the terminal and the login, in that order. The working
/// directory stays where the launch has put it.
pub open spec fn host_at(
    state: LaunchState,
    before: HostView,
    user: User,
    session: Session,
    seen: Observations,
) -> HostView {
    let owned = DeviceOwnership { uid: user.uid, gid: before.terminal.gid };
    let directory = if seen.directory_changed {
        user.homedir@
    } else {
        before.working_directory
    };
    let applied = session_environment(before, user, session, seen);
    let logged = log_in_session(before, user, seen);
    let handed_back = DeviceOwnership {
        uid: if seen.released {
            ROOT_UID
        } else {
            user.uid
        },
        gid: before.terminal.gid,
    };
    match state {
        LaunchState::Idle => before,
        LaunchState::OwnershipAcquired => HostView { terminal: owned, ..before },
        LaunchState::DirectoryChanged => HostView {
            terminal: owned,
            working_directory: directory,
            ..before
        },
        LaunchState::EnvironmentApplied | LaunchState::ChildSpawned { .. } | LaunchState::SpawnFailed => HostView {
            terminal: owned,
            working_directory: directory,
            environment: applied,
            ..before
        },
        LaunchState::ChildRunning { .. } | LaunchState::ChildExited => HostView {
            terminal: owned,
            working_directory: directory,
            environment: applied,
            accounting: logged,
            ..before
        },
        LaunchState::AuthSessionClosed => HostView {
            terminal: owned,
            working_directory: directory,
            environment: applied,
            accounting: logged,
            auth_session_open: false,
        },
        LaunchState::EnvironmentReset => HostView {
            terminal: owned,
            working_directory: directory,
            environment: cleared(before.environment),
            accounting: logged,
            auth_session_open: false,
        },
        LaunchState::OwnershipReleased => HostView {
            terminal: handed_back,
            working_directory: directory,
            environment: cleared(before.environment),
            accounting: logged,
            auth_session_open: false,
        },
        LaunchState::AccountingClosed => HostView {
            terminal: handed_back,
            working_directory: directory,
            environment: cleared(before.environment),
            accounting: log_after_logout(logged, tty_name_of(tty_path_of(seen.resolved))),
            auth_session_open: false,
        },
    }
}

/// The host after a launch that began with the host `before`: as it was,
/// where the terminal could not be acquired; else with all that the launch
/// set up taken back.
pub open spec fn launched_host(before: HostView, user: User, session: Session, seen: Observations) -> HostView {
    if seen.acquired {
        host_at(LaunchState::AccountingClosed, before, user, session, seen)
    } else {
        before
    }
}

/// Whether `step` is a step of the launch for `uid` and `gid` that the host
/// answers as `seen` says.
pub open spec fn on_course(step: Step, uid: u32, gid: u32, seen: Observations) -> bool {
    let at = place(step, seen.spawned);
    let trace = launch_trace(uid, gid, seen.acquired, seen.spawned);
    &&& 0 <= at < trace.len()
    &&& step.action == trace[at]
    &&& step.state != LaunchState::Idle ==> seen.acquired
    &&& match step.state {
        LaunchState::ChildSpawned { pid } => seen.spawned == Some(pid),
        LaunchState::ChildRunning { pid } => seen.spawned == Some(pid),
        LaunchState::SpawnFailed => seen.spawned is None,
        _ => true,
    }
}

/// What the host that answers as `seen` says reports of `action`.
pub open spec fn answer(action: LaunchAction, seen: Observations) -> LaunchEvent {
    match action {
        LaunchAction::AcquireOwnership { .. } => if seen.acquired {
            LaunchEvent::Done
        } else {
            LaunchEvent::Failed
        },
        LaunchAction::ChangeDirectory => if seen.directory_changed {
            LaunchEvent::Done
        } else {
            LaunchEvent::Failed
        },
        LaunchAction::SpawnChild { .. } => match seen.spawned {
            Some(pid) => LaunchEvent::Spawned { pid },
            None => LaunchEvent::Failed,
        },
        LaunchAction::RecordLogin { .. } => if seen.login_written {
            LaunchEvent::Done
        } else {
            LaunchEvent::Failed
        },
        LaunchAction::ReleaseOwnership { .. } => if seen.released {
            LaunchEvent::Done
        } else {
            LaunchEvent::Failed
        },
        _ => LaunchEvent::Done,
    }
}

/// From a step of a launch that is not its last, [`step_spec`] leads to the
/// step that follows in [`launch_trace`]: a host that performs what it is
/// asked and reports how it ended takes the actions of the trace, each once
/// and in order.
pub proof fn lemma_step_follows_trace(current: Step, uid: u32, gid: u32, seen: Observations)
    requires
        on_course(current, uid, gid, seen),
        !ends_launch(current.action),
    ensures
        on_course(
            step_spec(uid, gid, current.state, answer(current.action, seen)),
            uid,
            gid,
            seen,
        ),
        place(step_spec(uid, gid, current.state, answer(current.action, seen)), seen.spawned)
            == place(current, seen.spawned) + 1,
        on_course(begin_spec(uid), uid, gid, seen),
        place(begin_spec(uid), seen.spawned) == 0,
{
}

/// Every launch that has acquired the terminal ends in the same teardown:
/// the authentication session is closed, the environment reset, the
/// terminal released and the logout recorded, in this order and each once.
pub proof fn lemma_teardown_is_complete(uid: u32, gid: u32, spawned: Option<i32>)
    ensures
        ({
            let trace = launch_trace(uid, gid, true, spawned);
            let start = trace.len() - 5;
            &&& start >= 5
            &&& trace[start] == LaunchAction::CloseAuthSession
            &&& trace[start + 1] == LaunchAction::ResetEnvironment
            &&& trace[start + 2] == LaunchAction::ReleaseOwnership { uid: ROOT_UID }
            &&& trace[start + 3] == LaunchAction::RecordLogout
            &&& trace[start + 4] == LaunchAction::Finish
            &&& forall|i: int|
                0 <= i < start ==> {
                    &&& trace[i] != LaunchAction::CloseAuthSession
                    &&& trace[i] != LaunchAction::ResetEnvironment
                    &&& !(trace[i] is ReleaseOwnership)
                    &&& trace[i] != LaunchAction::RecordLogout
                    &&& !ends_launch(trace[i])
                }
        }),
{
}

/// A login is recorded for a session process that has started, once and
/// before the process is waited for; for a command that did not start, no
/// login is recorded and the accounting log is changed by the logout alone.
pub proof fn lemma_login_only_for_a_started_child(
    before: HostView,
    user: User,
    session: Session,
    seen: Observations,
)
    requires
        seen.acquired,
    ensures
        ({
            let trace = launch_trace(user.uid, user.gid, true, seen.spawned);
            match seen.spawned {
                Some(pid) => {
                    &&& trace[4] == LaunchAction::RecordLogin { pid }
                    &&& trace[5] == LaunchAction::WaitForChild { pid }
                    &&& forall|i: int| 0 <= i < trace.len() && i != 4 ==> !(trace[i] is RecordLogin)
                },
                None => {
                    &&& forall|i: int| 0 <= i < trace.len() ==> !(trace[i] is RecordLogin)
                    &&& forall|i: int| 0 <= i < trace.len() ==> !(trace[i] is WaitForChild)
                    &&& launched_host(before, user, session, seen).accounting == log_after_logout(
                        before.accounting,
                        tty_name_of(tty_path_of(seen.resolved)),
                    )
                },
            }
        }),
{
}

/// A launch leaves nothing half applied. Where the terminal was not
/// acquired, the host is as it was. Else no variable of the session is set,
/// the authentication session is closed, the terminal's group is as it was
/// and its owner is root unless the host refused to give it back, and no
/// variable that the session does not own has changed.
pub proof fn lemma_launch_is_reversed(
    before: HostView,
    user: User,
    session: Session,
    seen: Observations,
)
    ensures
        !seen.acquired ==> launched_host(before, user, session, seen) == before,
        seen.acquired ==> {
            let after = launched_host(before, user, session, seen);
            &&& forall|name: Seq<char>|
                owned_names().contains(name) ==> !after.environment.contains_key(name)
            &&& forall|name: Seq<char>|
                !owned_names().contains(name) ==> (after.environment.contains_key(name)
                    == before.environment.contains_key(name) && (before.environment.contains_key(
                    name,
                ) ==> after.environment[name] == before.environment[name]))
            &&& !after.auth_session_open
            &&& after.terminal.gid == before.terminal.gid
            &&& seen.released ==> after.terminal.uid == ROOT_UID
        },
{
}

/// Runs one launch on the host `host`, which answers as `seen` says, and
/// reports the actions taken.
///
/// The launch walks through [`step`] and performs each action on `host`.
/// Where the terminal cannot be acquired, the launch is given up and the
/// host is as it was. In every other case the launch goes through its
/// teardown, whatever has failed on the way: the authentication session is
/// closed once, no variable of the session is left in the environment, the
/// terminal is back with root unless the host refused that, and the
/// terminal's accounting record is marked as free.
pub fn exec_session_as_user(
    user: &User,
    session: &Session,
    host: &mut HostState,
    seen: &Observations,
) -> (report: LaunchReport)
    ensures
        final(host)@ == launched_host(old(host)@, *user, *session, *seen),
        report.completed == seen.acquired,
        report.trace@ == launch_trace(user.uid, user.gid, seen.acquired, seen.spawned),
{
    let resolved = match &seen.resolved {
        Some(target) => Some(target.clone()),
        None => None,
    };
    let tty = resolve_tty(resolved);
    let binding = resolve_binding(seen.listing.as_str(), tty.name.as_str(), user.name.as_str());
    let mut current = begin(user.uid);
    let mut trace: Vec<LaunchAction> = Vec::new();
    trace.push(current.action);
    let ghost before = host@;
    let ghost full = launch_trace(user.uid, user.gid, seen.acquired, seen.spawned);
    proof {
        assert(trace@ =~= full.take(1));
    }
    while !current.action.is_last()
        invariant
            before == old(host)@,
            full == launch_trace(user.uid, user.gid, seen.acquired, seen.spawned),
            tty.path@ == tty_path_of(seen.resolved),
            tty.name@ == tty_name_of(tty.path@),
            tty.number == tty_number(tty.path@),
            (binding.session_id@, binding.seat@) == binding_of(
                seen.listing@,
                tty.name@,
                user.name@,
            ),
            on_course(current, user.uid, user.gid, *seen),
            host@ == host_at(current.state, before, *user, *session, *seen),
            trace@ == full.take(place(current, seen.spawned) + 1),
        decreases 12 - place(current, seen.spawned),
    {
        let ghost at = place(current, seen.spawned);
        let event = match current.action {
            LaunchAction::AcquireOwnership { uid } => {
                if seen.acquired {
                    change_tty_ownership(&mut host.terminal, uid);
                    LaunchEvent::Done
                } else {
                    LaunchEvent::Failed
                }
            },
            LaunchAction::ChangeDirectory => {
                if seen.directory_changed {
                    host.working_directory = user.homedir.clone();
                    LaunchEvent::Done
                } else {
                    LaunchEvent::Failed
                }
            },
            LaunchAction::ApplyEnvironment => {
                prepare_environment(&mut host.environment, user, session, &binding, &tty);
                LaunchEvent::Done
            },
            LaunchAction::SpawnChild { .. } => {
                match seen.spawned {
                    Some(pid) => LaunchEvent::Spawned { pid },
                    None => LaunchEvent::Failed,
                }
            },
            LaunchAction::RecordLogin { pid } => {
                if seen.login_written {
                    add_utmpx_entry(
                        &mut host.accounting,
                        user.name.as_str(),
                        tty.name.as_str(),
                        pid,
                        seen.seconds,
                        seen.microseconds,
                    );
                    LaunchEvent::Done
                } else {
                    LaunchEvent::Failed
                }
            },
            LaunchAction::WaitForChild { .. } => LaunchEvent::Done,
            LaunchAction::PauseAfterFailure => LaunchEvent::Done,
            LaunchAction::CloseAuthSession => {
                host.auth_session_open = false;
                LaunchEvent::Done
            },
            LaunchAction::ResetEnvironment => {
                proof {
                    lemma_round_trip_is_reset(
                        before.environment,
                        *user,
                        *session,
                        binding.session_id@,
                        binding.seat@,
                        tty.number,
                    );
                }
                env_reset(&mut host.environment);
                LaunchEvent::Done
            },
            LaunchAction::ReleaseOwnership { uid } => {
                if seen.released {
                    change_tty_ownership(&mut host.terminal, uid);
                    LaunchEvent::Done
                } else {
                    LaunchEvent::Failed
                }
            },
            LaunchAction::RecordLogout => {
                remove_utmpx_entry(&mut host.accounting, tty.name.as_str());
                LaunchEvent::Done
            },
            LaunchAction::Finish => LaunchEvent::Done,
            LaunchAction::Abort => LaunchEvent::Done,
        };
        current = step(user.uid, user.gid, current.state, event);
        proof {
            assert(place(current, seen.spawned) == at + 1);
            assert(full.take(at + 1).push(full[at + 1]) =~= full.take(at + 2));
        }
        trace.push(current.action);
    }
    proof {
        assert(full.take(full.len() as int) =~= full);
    }
    let completed = match current.action {
        LaunchAction::Finish => true,
        _ => false,
    };
    LaunchReport { completed, trace }
}

} // verus!
