//! One command session with a connected server: the request that opens it,
//! the handling of each streamed response, and the exit code the session ends
//! with.

use vstd::prelude::*;
use crate::exit_code::ExitCode;
use crate::text::{str_eq, push_decimal, decimal, parse_i32, parse_i32_spec};

verus! {

/// One startup option and where it came from.
pub struct StartupOption {
    pub source: String,
    pub option: String,
}

/// The request that starts a command on the server.
pub struct RunRequest {
    pub cookie: String,
    pub block_for_lock: bool,
    pub preemptible: bool,
    pub client_description: String,
    pub arg: Vec<String>,
    /// Empty when no invocation policy is given.
    pub invocation_policy: String,
    pub startup_options: Vec<StartupOption>,
}

/// An environment variable that a requested `exec` sets.
pub struct EnvironmentVariable {
    pub name: String,
    pub value: String,
}

/// The server's request that the client replace itself with another program.
pub struct ExecRequest {
    pub argv: Vec<String>,
    pub environment_variable: Vec<EnvironmentVariable>,
    pub working_directory: String,
}

/// One message of the response stream.
pub struct RunResponse {
    pub cookie: String,
    pub standard_output: Vec<u8>,
    pub standard_error: Vec<u8>,
    /// Empty until the server has assigned the command an id.
    pub command_id: String,
    pub finished: bool,
    pub exit_code: i32,
    pub termination_expected: bool,
    pub exec_request: Option<ExecRequest>,
}

/// The client description sent with a request: at least the client's PID.
pub open spec fn client_description_spec(pid: u32) -> Seq<char> {
    "pid="@ + decimal(pid as nat)
}

/// Builds the request for a command. The startup options keep their order.
pub fn build_run_request(
    request_cookie: &str,
    block_for_lock: bool,
    preemptible: bool,
    client_pid: u32,
    arg: Vec<String>,
    invocation_policy: &str,
    startup_options: Vec<StartupOption>,
) -> (r: RunRequest)
    ensures
        r.cookie@ == request_cookie@,
        r.block_for_lock == block_for_lock,
        r.preemptible == preemptible,
        r.client_description@ == client_description_spec(client_pid),
        r.arg@ == arg@,
        r.invocation_policy@ == invocation_policy@,
        r.startup_options@ == startup_options@,
{
    let mut description = String::from_str("pid=");
    push_decimal(&mut description, client_pid as u64);
    RunRequest {
        cookie: String::from_str(request_cookie),
        block_for_lock,
        preemptible,
        client_description: description,
        arg,
        invocation_policy: String::from_str(invocation_policy),
        startup_options,
    }
}

/// What the client does with a response that passed the cookie check.
#[derive(Clone, Copy, Debug, PartialEq, Eq, Structural)]
pub struct ResponseActions {
    /// Write the response's standard output payload to standard output.
    pub forward_stdout: bool,
    /// Write the response's standard error payload to standard error.
    pub forward_stderr: bool,
    /// The command id has just become known: tell the cancellation listener.
    pub command_id_received: bool,
}

/// How a session ends once the stream is over.
pub enum SessionEnd {
    /// The stream broke or ended without a final message: the exit code is
    /// recovered from the sentinel file the server may have left.
    AbruptExit,
    /// The server asked the client to replace itself with another program.
    Exec(ExecRequest),
    /// Exit with this code.
    Exit(i32),
}

/// The state of a session while its responses are read.
pub struct Session {
    /// The cookie every response must carry.
    pub response_cookie: String,
    /// The command id, once known.
    pub command_id: String,
    pub command_id_set: bool,
    /// A final message was seen.
    pub finished: bool,
    /// The exit code of the final message.
    pub final_exit_code: i32,
    /// The final message says the server is shutting down.
    pub termination_expected: bool,
    /// The exec request of the final message, if any.
    pub exec_request: Option<ExecRequest>,
    /// Writing to standard output or standard error failed.
    pub pipe_broken: bool,
}

impl Session {
    pub open spec fn is_fresh(&self, response_cookie: Seq<char>) -> bool {
        &&& self.response_cookie@ == response_cookie
        &&& !self.command_id_set
        &&& !self.finished
        &&& !self.pipe_broken
        &&& !self.termination_expected
        &&& self.exec_request is None
    }

    /// A session that expects `response_cookie` on every response.
    pub fn new(response_cookie: &str) -> (r: Session)
        ensures
            r.is_fresh(response_cookie@),
    {
        Session {
            response_cookie: String::from_str(response_cookie),
            command_id: String::new(),
            command_id_set: false,
            finished: false,
            final_exit_code: 0,
            termination_expected: false,
            exec_request: None,
            pipe_broken: false,
        }
    }

    /// Handles one response. A response whose cookie differs from the
    /// expected one aborts the session with `InternalError`, whatever it
    /// carries. Otherwise a final message is recorded, non-empty payloads are
    /// forwarded, and the first non-empty command id is taken and announced.
    pub fn on_response(&mut self, response: RunResponse) -> (r: Result<ResponseActions, ExitCode>)
        ensures
            (response.cookie@ != old(self).response_cookie@) <==> (r == Err::<ResponseActions, ExitCode>(
                ExitCode::InternalError,
            )),
            (response.cookie@ == old(self).response_cookie@) ==> r is Ok,
            r is Err ==> *final(self) == *old(self),
            r matches Ok(a) ==> {
                &&& a.forward_stdout == (response.standard_output@.len() > 0)
                &&& a.forward_stderr == (response.standard_error@.len() > 0)
                &&& a.command_id_received == (!old(self).command_id_set && response.command_id@.len() > 0)
                &&& final(self).response_cookie == old(self).response_cookie
                &&& final(self).pipe_broken == old(self).pipe_broken
                &&& final(self).command_id_set == (old(self).command_id_set || response.command_id@.len() > 0)
                &&& (a.command_id_received ==> final(self).command_id@ == response.command_id@)
                &&& (!a.command_id_received ==> final(self).command_id == old(self).command_id)
                &&& final(self).finished == (old(self).finished || response.finished)
                &&& (response.finished ==> final(self).final_exit_code == response.exit_code
                    && final(self).termination_expected == response.termination_expected
                    && final(self).exec_request == response.exec_request)
                &&& (!response.finished ==> final(self).final_exit_code == old(self).final_exit_code
                    && final(self).termination_expected == old(self).termination_expected
                    && final(self).exec_request == old(self).exec_request)
            },
    {
        if !str_eq(response.cookie.as_str(), self.response_cookie.as_str()) {
            return Err(ExitCode::InternalError);
        }
        let forward_stdout = response.standard_output.len() > 0;
        let forward_stderr = response.standard_error.len() > 0;
        let command_id_received = !self.command_id_set && response.command_id.as_str().unicode_len() > 0;
        if command_id_received {
            self.command_id = response.command_id;
            self.command_id_set = true;
        }
        if response.finished {
            self.finished = true;
            self.final_exit_code = response.exit_code;
            self.termination_expected = response.termination_expected;
            self.exec_request = response.exec_request;
        }
        Ok(ResponseActions { forward_stdout, forward_stderr, command_id_received })
    }

    /// Records that writing a payload failed; returns true the first time
    /// only, when the command is to be cancelled.
    pub fn on_broken_pipe(&mut self) -> (cancel: bool)
        ensures
            cancel == !old(self).pipe_broken,
            final(self).pipe_broken,
            final(self).response_cookie == old(self).response_cookie,
            final(self).command_id == old(self).command_id,
            final(self).command_id_set == old(self).command_id_set,
            final(self).finished == old(self).finished,
            final(self).final_exit_code == old(self).final_exit_code,
            final(self).termination_expected == old(self).termination_expected,
            final(self).exec_request == old(self).exec_request,
    {
        let cancel = !self.pipe_broken;
        self.pipe_broken = true;
        cancel
    }

    /// How the session ends, given whether the transport closed cleanly. A
    /// broken transport or a missing final message falls back to the
    /// abrupt-exit path; an exec request without a program is an internal
    /// error; a broken output pipe takes priority over the server's code.
    pub fn end(self, transport_ok: bool) -> (r: SessionEnd)
        ensures
            !transport_ok || !self.finished ==> r is AbruptExit,
            transport_ok && self.finished ==> match self.exec_request {
                Some(e) => if e.argv@.len() == 0 {
                    r == SessionEnd::Exit(ExitCode::InternalError.spec_code())
                } else {
                    r == SessionEnd::Exec(e)
                },
                None => r == SessionEnd::Exit(
                    if self.pipe_broken {
                        ExitCode::LocalEnvironmentalError.spec_code()
                    } else {
                        self.final_exit_code
                    },
                ),
            },
    {
        if !transport_ok || !self.finished {
            return SessionEnd::AbruptExit;
        }
        match self.exec_request {
            Some(e) => {
                if e.argv.len() == 0 {
                    SessionEnd::Exit(ExitCode::InternalError.code())
                } else {
                    SessionEnd::Exec(e)
                }
            },
            None => {
                if self.pipe_broken {
                    SessionEnd::Exit(ExitCode::LocalEnvironmentalError.code())
                } else {
                    SessionEnd::Exit(self.final_exit_code)
                }
            },
        }
    }
}

/// The exit code after an abrupt end: the integer in the sentinel file when
/// it could be read, then deleted, and holds an integer; `InternalError`
/// otherwise.
pub open spec fn abrupt_exit_code_spec(content: Option<Seq<char>>, deleted: bool) -> i32 {
    match content {
        Some(c) => if deleted && parse_i32_spec(c) is Some {
            parse_i32_spec(c).unwrap()
        } else {
            ExitCode::InternalError.spec_code()
        },
        None => ExitCode::InternalError.spec_code(),
    }
}

/// Computes the exit code after an abrupt end from the sentinel file's
/// content (`None` when it could not be read) and whether deleting it worked.
pub fn get_exit_code_for_abrupt_exit(content: Option<&str>, deleted: bool) -> (r: i32)
    ensures
        r == abrupt_exit_code_spec(
            match content {
                Some(c) => Some(c@),
                None => None,
            },
            deleted,
        ),
{
    match content {
        None => ExitCode::InternalError.code(),
        Some(c) => {
            if !deleted {
                return ExitCode::InternalError.code();
            }
            match parse_i32(c) {
                Some(v) => v,
                None => ExitCode::InternalError.code(),
            }
        },
    }
}

} // verus!
