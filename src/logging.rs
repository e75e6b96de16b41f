//! What the client tells the server about itself: why a server was
//! (re)started, how long start-up took, and the argument vector forwarded
//! with each command.

use vstd::prelude::*;
use crate::text::{push_decimal, push_str, decimal, views, lemma_views_push, lemma_views_add};

verus! {

/// Why a server was started or restarted for this invocation.
#[derive(Clone, Copy, Debug, PartialEq, Eq, Structural)]
pub enum RestartReason {
    NoRestart,
    NoDaemon,
    NewVersion,
    NewOptions,
    PidFileButNoServer,
    ServerVanished,
    ServerUnresponsive,
}

impl RestartReason {
    pub open spec fn spec_name(self) -> Seq<char> {
        match self {
            RestartReason::NoRestart => "no_restart"@,
            RestartReason::NoDaemon => "no_daemon"@,
            RestartReason::NewVersion => "new_version"@,
            RestartReason::NewOptions => "new_options"@,
            RestartReason::PidFileButNoServer => "pid_file_but_no_server"@,
            RestartReason::ServerVanished => "server_vanished"@,
            RestartReason::ServerUnresponsive => "server_unresponsive"@,
        }
    }

    /// The name under which the reason is reported to the server.
    pub fn name(&self) -> (r: &'static str)
        ensures
            r@ == self.spec_name(),
    {
        match self {
            RestartReason::NoRestart => "no_restart",
            RestartReason::NoDaemon => "no_daemon",
            RestartReason::NewVersion => "new_version",
            RestartReason::NewOptions => "new_options",
            RestartReason::PidFileButNoServer => "pid_file_but_no_server",
            RestartReason::ServerVanished => "server_vanished",
            RestartReason::ServerUnresponsive => "server_unresponsive",
        }
    }

    /// The name as an owned string.
    pub fn to_string(&self) -> (r: String)
        ensures
            r@ == self.spec_name(),
    {
        String::from_str(self.name())
    }
}

/// Facts about this client invocation that are forwarded to the server.
pub struct LoggingInfo {
    /// The absolute path of the client binary.
    pub binary_path: String,
    /// When the client started, in milliseconds since the Unix epoch.
    pub start_time_ms: u64,
    /// Why a server was (re)started; set at most once.
    pub restart_reason: RestartReason,
}

impl LoggingInfo {
    pub fn new(binary_path: String, start_time_ms: u64) -> (r: LoggingInfo)
        ensures
            r.binary_path@ == binary_path@,
            r.start_time_ms == start_time_ms,
            r.restart_reason == RestartReason::NoRestart,
    {
        LoggingInfo { binary_path, start_time_ms, restart_reason: RestartReason::NoRestart }
    }

    /// Records `reason` unless a reason was recorded before: the first writer
    /// wins.
    pub fn set_restart_reason_if_not_set(&mut self, reason: RestartReason)
        ensures
            final(self).binary_path == old(self).binary_path,
            final(self).start_time_ms == old(self).start_time_ms,
            final(self).restart_reason == if old(self).restart_reason == RestartReason::NoRestart {
                reason
            } else {
                old(self).restart_reason
            },
    {
        if self.restart_reason == RestartReason::NoRestart {
            self.restart_reason = reason;
        }
    }
}

/// Durations measured by the client before the command is sent, in
/// milliseconds; zero stands for "not measured".
#[derive(Clone, Copy, Debug, PartialEq, Eq, Structural)]
pub struct CommandTiming {
    pub client_startup_ms: u64,
    pub extract_data_ms: u64,
    pub command_wait_ms: u64,
}

/// The synthesized logging flags, in the order in which they are forwarded.
pub open spec fn logging_args_spec(
    binary_path: Seq<char>,
    restart_reason: RestartReason,
    timing: CommandTiming,
) -> Seq<Seq<char>> {
    seq!["--startup_time="@ + decimal(timing.client_startup_ms as nat)] + (if timing.command_wait_ms
        != 0 {
        seq!["--command_wait_time="@ + decimal(timing.command_wait_ms as nat)]
    } else {
        seq![]
    }) + (if timing.extract_data_ms != 0 {
        seq!["--extract_data_time="@ + decimal(timing.extract_data_ms as nat)]
    } else {
        seq![]
    }) + (if restart_reason != RestartReason::NoRestart {
        seq!["--restart_reason="@ + restart_reason.spec_name()]
    } else {
        seq![]
    }) + seq!["--binary_path="@ + binary_path]
}

fn flag_with_decimal(flag: &str, n: u64) -> (r: String)
    ensures
        r@ == flag@ + decimal(n as nat),
{
    let mut s = String::from_str(flag);
    push_decimal(&mut s, n);
    s
}

/// Appends the logging flags that accompany a command to `args`.
pub fn add_logging_args(logging_info: &LoggingInfo, timing: CommandTiming, args: &mut Vec<String>)
    ensures
        views(final(args)@) == views(old(args)@) + logging_args_spec(
            logging_info.binary_path@,
            logging_info.restart_reason,
            timing,
        ),
{
    let ghost start = views(args@);
    let a = flag_with_decimal("--startup_time=", timing.client_startup_ms);
    proof { lemma_views_push(args@, a); }
    args.push(a);
    let ghost after_startup = views(args@);
    if timing.command_wait_ms != 0 {
        let a = flag_with_decimal("--command_wait_time=", timing.command_wait_ms);
        proof { lemma_views_push(args@, a); }
        args.push(a);
    }
    let ghost after_wait = views(args@);
    if timing.extract_data_ms != 0 {
        let a = flag_with_decimal("--extract_data_time=", timing.extract_data_ms);
        proof { lemma_views_push(args@, a); }
        args.push(a);
    }
    let ghost after_extract = views(args@);
    if logging_info.restart_reason != RestartReason::NoRestart {
        let mut a = String::from_str("--restart_reason=");
        push_str(&mut a, logging_info.restart_reason.name());
        proof { lemma_views_push(args@, a); }
        args.push(a);
    }
    let ghost after_reason = views(args@);
    let mut a = String::from_str("--binary_path=");
    push_str(&mut a, logging_info.binary_path.as_str());
    proof { lemma_views_push(args@, a); }
    args.push(a);
    assert(views(args@) =~= start + logging_args_spec(
        logging_info.binary_path@,
        logging_info.restart_reason,
        timing,
    ));
}

/// The argument vector forwarded to the server: a non-empty command comes
/// first, followed by the logging flags; the user's command arguments follow
/// verbatim.
pub open spec fn forwarded_args_spec(
    command: Seq<char>,
    command_args: Seq<Seq<char>>,
    binary_path: Seq<char>,
    restart_reason: RestartReason,
    timing: CommandTiming,
) -> Seq<Seq<char>> {
    if command.len() > 0 {
        seq![command] + logging_args_spec(binary_path, restart_reason, timing) + command_args
    } else {
        command_args
    }
}

/// Builds the argument vector that is sent with a command.
pub fn build_arg_vector(
    command: &str,
    command_args: &Vec<String>,
    logging_info: &LoggingInfo,
    timing: CommandTiming,
) -> (r: Vec<String>)
    ensures
        views(r@) == forwarded_args_spec(
            command@,
            views(command_args@),
            logging_info.binary_path@,
            logging_info.restart_reason,
            timing,
        ),
{
    let mut r: Vec<String> = Vec::new();
    assert(views(r@) =~= Seq::<Seq<char>>::empty());
    if command.unicode_len() > 0 {
        let c = String::from_str(command);
        proof { lemma_views_push(r@, c); }
        r.push(c);
        add_logging_args(logging_info, timing, &mut r);
    }
    let ghost before = r@;
    let mut i: usize = 0;
    while i < command_args.len()
        invariant
            i <= command_args@.len(),
            r@ == before + command_args@.subrange(0, i as int),
        decreases command_args@.len() - i,
    {
        r.push(command_args[i].clone());
        assert(command_args@.subrange(0, i + 1) == command_args@.subrange(0, i as int).push(
            command_args@[i as int],
        ));
        i = i + 1;
    }
    assert(command_args@.subrange(0, i as int) == command_args@);
    proof { lemma_views_add(before, command_args@); }
    assert(views(before) =~= if command@.len() > 0 {
        seq![command@] + logging_args_spec(logging_info.binary_path@, logging_info.restart_reason, timing)
    } else {
        Seq::<Seq<char>>::empty()
    });
    r
}

} // verus!
