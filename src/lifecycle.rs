//! The decisions of the server lifecycle: whether a running server can be
//! reused, what a stale PID file means, how long to wait for a server to go
//! away, and who may launch a new server for an output base.

use vstd::prelude::*;
use crate::cmdline::{
    are_startup_options_different, split_argument_string, options_differ, join_nul, has_no_nul,
    lemma_split_join,
};
use crate::logging::{LoggingInfo, RestartReason};
use crate::text::{str_eq, contains_str, contains_seq, parse_i32, parse_i32_spec, views};

verus! {

/// Seconds to wait for the server to go away after a forced kill.
pub const POST_KILL_GRACE_PERIOD_SECS: u64 = 10;

/// Seconds to wait for the server to go away after a graceful shutdown
/// request, before killing it.
pub const POST_SHUTDOWN_GRACE_PERIOD_SECS: u64 = 60;

/// Milliseconds between two liveness checks while waiting.
pub const POLL_INTERVAL_MS: u64 = 100;

/// The name of the PID file under the server directory.
pub const SERVER_PID_FILE: &'static str = "server.pid.txt";

// ---------------------------------------------------------------------------
// Reuse of a running server
// ---------------------------------------------------------------------------

/// What to do about the server found running for this output base.
#[derive(Clone, Copy, Debug, PartialEq, Eq, Structural)]
pub struct Reconciliation {
    /// Point the `install` link at this client's install base.
    pub relink_install: bool,
    /// Kill the server: it runs another version.
    pub kill_for_version: bool,
    /// Kill the server: it was started with other options.
    pub kill_for_options: bool,
}

impl Reconciliation {
    pub open spec fn kills(self) -> bool {
        self.kill_for_version || self.kill_for_options
    }
}

/// The decision, over the running server's recorded arguments.
pub open spec fn reconcile_spec(
    connected: bool,
    version_matches: bool,
    running_args: Seq<Seq<char>>,
    requested_args: Seq<Seq<char>>,
) -> Reconciliation {
    Reconciliation {
        relink_install: !version_matches,
        kill_for_version: connected && !version_matches,
        kill_for_options: connected && version_matches && options_differ(running_args, requested_args),
    }
}

/// Decides whether the connected server can serve this client. A server of
/// another version is killed (and the install link renewed); a server of this
/// version whose `cmdline` marker differs from the requested arguments is
/// killed; otherwise it is reused.
pub fn reconcile_running_server(
    connected: bool,
    version_matches: bool,
    running_cmdline: &str,
    requested_args: &Vec<String>,
) -> (r: Reconciliation)
    ensures
        exists|pieces: Seq<Seq<char>>|
            {
                &&& (running_cmdline@.len() == 0 ==> pieces.len() == 0)
                &&& (running_cmdline@.len() > 0 ==> join_nul(pieces) == running_cmdline@)
                &&& (forall|i: int| 0 <= i < pieces.len() ==> has_no_nul(#[trigger] pieces[i]))
                &&& r == #[trigger] reconcile_spec(connected, version_matches, pieces, views(requested_args@))
            },
{
    let running = split_argument_string(running_cmdline);
    let differ = if connected && version_matches {
        are_startup_options_different(&running, requested_args)
    } else {
        false
    };
    let r = Reconciliation {
        relink_install: !version_matches,
        kill_for_version: connected && !version_matches,
        kill_for_options: connected && version_matches && differ,
    };
    proof {
        let pieces = views(running@);
        assert forall|i: int| 0 <= i < pieces.len() implies has_no_nul(#[trigger] pieces[i]) by {
            assert(pieces[i] == running@[i]@);
        }
        assert(r == reconcile_spec(connected, version_matches, pieces, views(requested_args@)));
        assert(running_cmdline@.len() == 0 ==> pieces.len() == 0);
        assert(running_cmdline@.len() > 0 ==> join_nul(pieces) == running_cmdline@);
    }
    r
}

/// The restart reason a reconciliation gives: another version first, then
/// other options; none when the server is kept.
pub open spec fn reconciliation_reason(r: Reconciliation) -> Option<RestartReason> {
    if r.kill_for_version {
        Some(RestartReason::NewVersion)
    } else if r.kill_for_options {
        Some(RestartReason::NewOptions)
    } else {
        None
    }
}

/// Records why the running server is killed, if it is.
pub fn record_reconciliation(r: Reconciliation, logging_info: &mut LoggingInfo) -> (kill: bool)
    ensures
        kill == r.kills(),
        final(logging_info).binary_path == old(logging_info).binary_path,
        final(logging_info).start_time_ms == old(logging_info).start_time_ms,
        final(logging_info).restart_reason == match reconciliation_reason(r) {
            Some(reason) => if old(logging_info).restart_reason == RestartReason::NoRestart {
                reason
            } else {
                old(logging_info).restart_reason
            },
            None => old(logging_info).restart_reason,
        },
{
    if r.kill_for_version {
        logging_info.set_restart_reason_if_not_set(RestartReason::NewVersion);
        true
    } else if r.kill_for_options {
        logging_info.set_restart_reason_if_not_set(RestartReason::NewOptions);
        true
    } else {
        false
    }
}

/// What the operating system adds to the working directory of a process
/// whose directory was deleted.
pub open spec fn deleted_marker() -> Seq<char> {
    " (deleted)"@
}

/// Whether a connected server works in another directory than this
/// workspace, or in one whose path says it was deleted. When its directory
/// cannot be known it is taken to match.
pub open spec fn workspace_moved_spec(server_cwd: Option<Seq<char>>, workspace: Seq<char>) -> bool {
    match server_cwd {
        None => false,
        Some(c) => c != workspace || contains_seq(c, deleted_marker()),
    }
}

/// Checks the server's working directory against the workspace; a server
/// that moved is killed and the connection made anew.
pub fn workspace_moved(server_cwd: Option<&str>, workspace: &str) -> (r: bool)
    ensures
        r == workspace_moved_spec(
            match server_cwd {
                Some(c) => Some(c@),
                None => None,
            },
            workspace@,
        ),
{
    match server_cwd {
        None => false,
        Some(c) => !str_eq(c, workspace) || contains_str(c, " (deleted)"),
    }
}

// ---------------------------------------------------------------------------
// Waiting for a new server to become ready
// ---------------------------------------------------------------------------

/// Milliseconds between two progress reports while a new server starts.
pub const STARTUP_REPORT_INTERVAL_MS: u64 = 10_000;

/// The next move while a newly launched server starts up.
#[derive(Clone, Copy, Debug, PartialEq, Eq, Structural)]
pub enum StartupStep {
    /// Connected: the server is ready.
    Ready,
    /// The server process died before it was ready: show its log and fail.
    Crashed,
    /// The start-up timeout passed with the process alive but not ready.
    TimedOut,
    /// Try again after a poll interval; `report` asks for a progress message.
    Retry { report: bool },
}

/// The wait for a new server: the start-up timeout and when progress was
/// last reported, in milliseconds since the launch.
#[derive(Clone, Copy, Debug, PartialEq, Eq, Structural)]
pub struct StartupWait {
    pub timeout_ms: u64,
    pub last_report_ms: u64,
}

pub open spec fn startup_step_spec(w: StartupWait, elapsed_ms: u64, connected: bool, alive: bool) -> (StartupWait, StartupStep) {
    if connected {
        (w, StartupStep::Ready)
    } else if !alive {
        (w, StartupStep::Crashed)
    } else if elapsed_ms >= w.timeout_ms {
        (w, StartupStep::TimedOut)
    } else if elapsed_ms >= w.last_report_ms + STARTUP_REPORT_INTERVAL_MS {
        (StartupWait { last_report_ms: elapsed_ms, ..w }, StartupStep::Retry { report: true })
    } else {
        (w, StartupStep::Retry { report: false })
    }
}

impl StartupWait {
    pub fn new(timeout_secs: u64) -> (r: StartupWait)
        requires
            timeout_secs <= u64::MAX / 1000,
        ensures
            r.timeout_ms == timeout_secs * 1000,
            r.last_report_ms == 0,
    {
        StartupWait { timeout_ms: timeout_secs * 1000, last_report_ms: 0 }
    }

    /// Takes one attempt, `elapsed_ms` after the launch: whether connecting
    /// worked and whether the launched process is still alive.
    pub fn step(&mut self, elapsed_ms: u64, connected: bool, alive: bool) -> (r: StartupStep)
        requires
            old(self).last_report_ms <= elapsed_ms,
            elapsed_ms <= u64::MAX - STARTUP_REPORT_INTERVAL_MS,
        ensures
            (*final(self), r) == startup_step_spec(*old(self), elapsed_ms, connected, alive),
            final(self).last_report_ms <= elapsed_ms,
    {
        if connected {
            StartupStep::Ready
        } else if !alive {
            StartupStep::Crashed
        } else if elapsed_ms >= self.timeout_ms {
            StartupStep::TimedOut
        } else if elapsed_ms >= self.last_report_ms + STARTUP_REPORT_INTERVAL_MS {
            self.last_report_ms = elapsed_ms;
            StartupStep::Retry { report: true }
        } else {
            StartupStep::Retry { report: false }
        }
    }
}

/// Progress is reported at most once per report interval.
pub proof fn lemma_progress_reports_are_spaced(w: StartupWait, elapsed_ms: u64, connected: bool, alive: bool)
    requires
        startup_step_spec(w, elapsed_ms, connected, alive).1 == (StartupStep::Retry { report: true }),
    ensures
        elapsed_ms >= w.last_report_ms + STARTUP_REPORT_INTERVAL_MS,
        startup_step_spec(w, elapsed_ms, connected, alive).0.last_report_ms == elapsed_ms,
{
}

/// A connected server of the right version whose options match is never
/// killed.
pub proof fn lemma_matching_server_is_reused(running: Seq<Seq<char>>, requested: Seq<Seq<char>>)
    requires
        !options_differ(running, requested),
    ensures
        !reconcile_spec(true, true, running, requested).kills(),
{
}

/// A server started with exactly the requested arguments (recorded in its
/// `cmdline` marker) is reused by a later call with the same arguments: no
/// kill, however often the call is repeated.
pub proof fn lemma_same_options_never_kill(args: Seq<Seq<char>>, pieces: Seq<Seq<char>>)
    requires
        forall|i: int| 0 <= i < args.len() ==> has_no_nul(#[trigger] args[i]),
        join_nul(args).len() > 0,
        join_nul(pieces) == join_nul(args),
        forall|i: int| 0 <= i < pieces.len() ==> has_no_nul(#[trigger] pieces[i]),
    ensures
        !reconcile_spec(true, true, pieces, args).kills(),
{
    lemma_split_join(args, pieces);
}

// ---------------------------------------------------------------------------
// PID file and stale servers
// ---------------------------------------------------------------------------

/// The PID written in the PID file, or -1 when the file could not be read or
/// does not hold an integer.
pub open spec fn server_pid_spec(content: Option<Seq<char>>) -> i32 {
    match content {
        Some(c) => match parse_i32_spec(c) {
            Some(p) => p,
            None => -1i32,
        },
        None => -1i32,
    }
}

/// Reads the server's PID from the PID file's content (`None` when the file
/// could not be read).
pub fn get_server_pid(content: Option<&str>) -> (r: i32)
    ensures
        r == server_pid_spec(
            match content {
                Some(c) => Some(c@),
                None => None,
            },
        ),
{
    match content {
        None => -1,
        Some(c) => match parse_i32(c) {
            Some(p) => p,
            None => -1,
        },
    }
}

/// Why a server is restarted after a PID file was found without a
/// responsive server: the recorded process was gone, was killed, or vanished
/// between the check and the kill. `None` when there was no usable PID.
pub open spec fn stale_reason_spec(server_pid: i32, verified: bool, killed: bool) -> Option<RestartReason> {
    if server_pid <= 0 {
        None
    } else if !verified {
        Some(RestartReason::PidFileButNoServer)
    } else if killed {
        Some(RestartReason::ServerUnresponsive)
    } else {
        Some(RestartReason::ServerVanished)
    }
}

/// Whether the PID from the PID file is worth checking.
pub fn should_check_previous_server(server_pid: i32) -> (r: bool)
    ensures
        r == (server_pid > 0),
{
    server_pid > 0
}

/// Records why a previous server for this output base had to go, from what
/// was observed: the PID from the file, whether it named a live server of
/// this output base, and whether killing it succeeded.
pub fn ensure_previous_server_process_terminated(
    server_pid: i32,
    verified: bool,
    killed: bool,
    logging_info: &mut LoggingInfo,
) -> (r: Option<RestartReason>)
    ensures
        r == stale_reason_spec(server_pid, verified, killed),
        final(logging_info).binary_path == old(logging_info).binary_path,
        final(logging_info).start_time_ms == old(logging_info).start_time_ms,
        final(logging_info).restart_reason == match r {
            Some(reason) => if old(logging_info).restart_reason == RestartReason::NoRestart {
                reason
            } else {
                old(logging_info).restart_reason
            },
            None => old(logging_info).restart_reason,
        },
{
    if server_pid <= 0 {
        return None;
    }
    let reason = if !verified {
        RestartReason::PidFileButNoServer
    } else if killed {
        RestartReason::ServerUnresponsive
    } else {
        RestartReason::ServerVanished
    };
    logging_info.set_restart_reason_if_not_set(reason);
    Some(reason)
}

// ---------------------------------------------------------------------------
// Waiting for a server to terminate
// ---------------------------------------------------------------------------

/// The next move while waiting for a server process to go away.
#[derive(Clone, Copy, Debug, PartialEq, Eq, Structural)]
pub enum WaitStep {
    /// The process is gone.
    Terminated,
    /// Sleep one poll interval, then check again.
    Sleep,
    /// The grace period is over and the process is still there.
    TimedOut,
}

/// The wait for a server process to terminate: checks start at once and
/// repeat every poll interval until the process is gone or more than the
/// grace period has passed.
#[derive(Clone, Copy, Debug, PartialEq, Eq, Structural)]
pub struct TerminationWait {
    /// Time slept so far, in milliseconds.
    pub elapsed_ms: u64,
    /// The grace period, in milliseconds.
    pub limit_ms: u64,
}

pub open spec fn wait_step_spec(w: TerminationWait, alive: bool) -> (TerminationWait, WaitStep) {
    if !alive {
        (w, WaitStep::Terminated)
    } else if w.elapsed_ms + POLL_INTERVAL_MS > w.limit_ms {
        (TerminationWait { elapsed_ms: (w.elapsed_ms + POLL_INTERVAL_MS) as u64, ..w }, WaitStep::TimedOut)
    } else {
        (TerminationWait { elapsed_ms: (w.elapsed_ms + POLL_INTERVAL_MS) as u64, ..w }, WaitStep::Sleep)
    }
}

/// The outcome of a wait over a run of liveness checks: `Sleep` while it is
/// still undecided.
pub open spec fn wait_outcome(w: TerminationWait, checks: Seq<bool>) -> WaitStep
    decreases checks.len(),
{
    if checks.len() == 0 {
        WaitStep::Sleep
    } else {
        let (next, step) = wait_step_spec(w, checks[0]);
        if step == WaitStep::Sleep {
            wait_outcome(next, checks.drop_first())
        } else {
            step
        }
    }
}

/// Forced kills issued after a graceful shutdown request, by how the wait
/// ended: one when it timed out, none otherwise.
pub open spec fn kills_after_wait(outcome: WaitStep) -> nat {
    if outcome == WaitStep::TimedOut {
        1
    } else {
        0
    }
}

impl TerminationWait {
    /// A wait with a grace period of `secs` seconds.
    pub fn new(secs: u64) -> (r: TerminationWait)
        requires
            secs <= u64::MAX / 1000,
        ensures
            r.elapsed_ms == 0,
            r.limit_ms == secs * 1000,
            r.limit_ms <= u64::MAX - POLL_INTERVAL_MS,
    {
        assert(secs * 1000 <= u64::MAX - POLL_INTERVAL_MS) by (nonlinear_arith)
            requires
                secs <= u64::MAX / 1000,
                POLL_INTERVAL_MS == 100,
        ;
        TerminationWait { elapsed_ms: 0, limit_ms: secs * 1000 }
    }
}

/// Takes the result of one liveness check of the awaited server process.
pub fn await_server_process_termination(wait: &mut TerminationWait, alive: bool) -> (r: WaitStep)
    requires
        old(wait).limit_ms <= u64::MAX - POLL_INTERVAL_MS,
        old(wait).elapsed_ms <= old(wait).limit_ms,
    ensures
        (*final(wait), r) == wait_step_spec(*old(wait), alive),
        r == WaitStep::Sleep ==> final(wait).elapsed_ms <= final(wait).limit_ms,
{
    if !alive {
        return WaitStep::Terminated;
    }
    wait.elapsed_ms = wait.elapsed_ms + POLL_INTERVAL_MS;
    if wait.elapsed_ms > wait.limit_ms {
        WaitStep::TimedOut
    } else {
        WaitStep::Sleep
    }
}

proof fn lemma_wait_dead_in_time(w: TerminationWait, checks: Seq<bool>, k: int)
    requires
        0 <= k < checks.len(),
        !checks[k],
        forall|j: int| 0 <= j < k ==> checks[j],
        w.elapsed_ms + k * POLL_INTERVAL_MS <= w.limit_ms,
        w.limit_ms <= u64::MAX - POLL_INTERVAL_MS,
    ensures
        wait_outcome(w, checks) == WaitStep::Terminated,
    decreases k,
{
    if k > 0 {
        let (next, step) = wait_step_spec(w, checks[0]);
        assert(step == WaitStep::Sleep);
        assert forall|j: int| 0 <= j < k - 1 implies checks.drop_first()[j] by {
            assert(checks[j + 1]);
        }
        lemma_wait_dead_in_time(next, checks.drop_first(), k - 1);
    }
}

proof fn lemma_wait_alive_too_long(w: TerminationWait, checks: Seq<bool>, k: int)
    requires
        0 <= k < checks.len(),
        forall|j: int| 0 <= j <= k ==> checks[j],
        w.elapsed_ms + k * POLL_INTERVAL_MS <= w.limit_ms,
        w.elapsed_ms + (k + 1) * POLL_INTERVAL_MS > w.limit_ms,
        w.limit_ms <= u64::MAX - POLL_INTERVAL_MS,
    ensures
        wait_outcome(w, checks) == WaitStep::TimedOut,
    decreases k,
{
    if k > 0 {
        let (next, step) = wait_step_spec(w, checks[0]);
        assert(step == WaitStep::Sleep);
        assert forall|j: int| 0 <= j <= k - 1 implies checks.drop_first()[j] by {
            assert(checks[j + 1]);
        }
        lemma_wait_alive_too_long(next, checks.drop_first(), k - 1);
    }
}

/// After a graceful shutdown request: a server whose process is seen gone
/// within the grace period is not killed; one still alive at every check
/// throughout the grace period is killed exactly once.
pub proof fn lemma_shutdown_grace_period(checks: Seq<bool>, k: int)
    requires
        0 <= k < checks.len(),
    ensures
        ({
            let w = TerminationWait { elapsed_ms: 0, limit_ms: (POST_SHUTDOWN_GRACE_PERIOD_SECS * 1000) as u64 };
            &&& (!checks[k] && (forall|j: int| 0 <= j < k ==> checks[j]) && k * POLL_INTERVAL_MS
                <= w.limit_ms ==> kills_after_wait(wait_outcome(w, checks)) == 0)
            &&& ((forall|j: int| 0 <= j <= k ==> checks[j]) && k * POLL_INTERVAL_MS <= w.limit_ms && (
            k + 1) * POLL_INTERVAL_MS > w.limit_ms ==> kills_after_wait(wait_outcome(w, checks))
                == 1)
        }),
{
    let w = TerminationWait { elapsed_ms: 0, limit_ms: (POST_SHUTDOWN_GRACE_PERIOD_SECS * 1000) as u64 };
    if !checks[k] && (forall|j: int| 0 <= j < k ==> checks[j]) && k * POLL_INTERVAL_MS <= w.limit_ms {
        lemma_wait_dead_in_time(w, checks, k);
    }
    if (forall|j: int| 0 <= j <= k ==> checks[j]) && k * POLL_INTERVAL_MS <= w.limit_ms && (k + 1)
        * POLL_INTERVAL_MS > w.limit_ms {
        lemma_wait_alive_too_long(w, checks, k);
    }
}

// ---------------------------------------------------------------------------
// The output-base lock
// ---------------------------------------------------------------------------

/// Who holds the lock of one output base. Clients are told apart by an
/// identifier (their PID).
#[derive(Clone, Copy, Debug, PartialEq, Eq, Structural)]
pub struct OutputBaseLock {
    pub holder: Option<u32>,
}

/// The result of asking for the lock.
#[derive(Clone, Copy, Debug, PartialEq, Eq, Structural)]
pub enum LockOutcome {
    Acquired,
    /// Held by another client: wait and ask again.
    Wait,
    /// Held by another client and `--noblock_for_lock` was given.
    Busy,
}

impl OutputBaseLock {
    pub fn new() -> (r: OutputBaseLock)
        ensures
            r.holder is None,
    {
        OutputBaseLock { holder: None }
    }

    /// Asks for the lock on behalf of `client`.
    pub fn acquire(&mut self, client: u32, block: bool) -> (r: LockOutcome)
        ensures
            (old(self).holder is None || old(self).holder == Some(client)) ==> r == LockOutcome::Acquired
                && final(self).holder == Some(client),
            !(old(self).holder is None || old(self).holder == Some(client)) ==> *final(self) == *old(
                self,
            ) && r == (if block {
                LockOutcome::Wait
            } else {
                LockOutcome::Busy
            }),
    {
        match self.holder {
            None => {
                self.holder = Some(client);
                LockOutcome::Acquired
            },
            Some(h) => {
                if h == client {
                    LockOutcome::Acquired
                } else if block {
                    LockOutcome::Wait
                } else {
                    LockOutcome::Busy
                }
            },
        }
    }

    /// Gives the lock up; doing so again, or without holding it, changes
    /// nothing.
    pub fn release(&mut self, client: u32)
        ensures
            final(self).holder == if old(self).holder == Some(client) {
                None
            } else {
                old(self).holder
            },
    {
        if self.holder == Some(client) {
            self.holder = None;
        }
    }

    /// Whether `client` holds the lock.
    pub fn is_held_by(&self, client: u32) -> (r: bool)
        ensures
            r == (self.holder == Some(client)),
    {
        self.holder == Some(client)
    }
}

/// Whether a client launches a server: only while it holds the lock, and only
/// when, with the lock held, it still finds no server to connect to.
pub open spec fn launch_spec(holds_lock: bool, server_found: bool) -> bool {
    holds_lock && !server_found
}

pub fn should_launch(lock: &OutputBaseLock, client: u32, server_found: bool) -> (r: bool)
    ensures
        r == launch_spec(lock.holder == Some(client), server_found),
{
    lock.is_held_by(client) && !server_found
}

/// One step of a client in the launch protocol of an output base.
#[derive(Clone, Copy, Debug, PartialEq, Eq, Structural)]
pub enum LaunchAction {
    /// Ask for the lock (without blocking; a blocked client asks again).
    Acquire,
    /// With the lock held, look for a server and launch one if none runs.
    LaunchIfNeeded,
    /// Give the lock up.
    Release,
}

/// The shared state of an output base as the clients see it.
pub struct LaunchModel {
    pub lock: OutputBaseLock,
    pub server_running: bool,
    /// How many servers were launched so far.
    pub launches: nat,
}

/// One client's step, taken atomically.
pub open spec fn launch_model_step(m: LaunchModel, client: u32, action: LaunchAction) -> LaunchModel {
    match action {
        LaunchAction::Acquire => if m.lock.holder is None || m.lock.holder == Some(client) {
            LaunchModel { lock: OutputBaseLock { holder: Some(client) }, ..m }
        } else {
            m
        },
        LaunchAction::LaunchIfNeeded => if launch_spec(m.lock.holder == Some(client), m.server_running) {
            LaunchModel { server_running: true, launches: m.launches + 1, ..m }
        } else {
            m
        },
        LaunchAction::Release => if m.lock.holder == Some(client) {
            LaunchModel { lock: OutputBaseLock { holder: None }, ..m }
        } else {
            m
        },
    }
}

/// The state after the clients' steps, in the order they happened.
pub open spec fn launch_model_run(m: LaunchModel, steps: Seq<(u32, LaunchAction)>) -> LaunchModel
    decreases steps.len(),
{
    if steps.len() == 0 {
        m
    } else {
        let prev = launch_model_run(m, steps.drop_last());
        launch_model_step(prev, steps.last().0, steps.last().1)
    }
}

/// However the steps of any number of clients interleave, starting with no
/// server and a free lock, at most one server is launched for the output
/// base: a launch needs the lock, and a client that gets the lock after the
/// launch finds the running server.
pub proof fn lemma_lock_mutual_exclusion(steps: Seq<(u32, LaunchAction)>)
    ensures
        launch_model_run(
            LaunchModel { lock: OutputBaseLock { holder: None }, server_running: false, launches: 0 },
            steps,
        ).launches <= 1,
{
    lemma_launches_match_server(steps);
}

proof fn lemma_launches_match_server(steps: Seq<(u32, LaunchAction)>)
    ensures
        ({
            let m = launch_model_run(
                LaunchModel { lock: OutputBaseLock { holder: None }, server_running: false, launches: 0 },
                steps,
            );
            m.launches == if m.server_running { 1nat } else { 0nat }
        }),
    decreases steps.len(),
{
    if steps.len() > 0 {
        lemma_launches_match_server(steps.drop_last());
    }
}

/// While one client holds the lock, another cannot take it, and cannot
/// launch.
pub proof fn lemma_held_lock_excludes_others(m: LaunchModel, a: u32, b: u32, action: LaunchAction)
    requires
        a != b,
        m.lock.holder == Some(a),
    ensures
        launch_model_step(m, b, action).lock == m.lock,
        launch_model_step(m, b, action).launches == m.launches,
{
}

} // verus!
