//! What the client knows about the server process it works with.

use vstd::prelude::*;
use crate::paths::{join_path, join_path_spec};

verus! {

/// The server process and where its output goes.
pub struct ServerProcessInfo {
    /// Where the daemonized server's stdout and stderr are written.
    pub jvm_log_file: String,
    /// Whether that file is appended to rather than truncated.
    pub jvm_log_file_append: bool,
    /// The server's PID; -1 while no server is known.
    pub server_pid: i32,
}

/// The server's log file: the one asked for, else `server/jvm.out` under the
/// output base.
pub open spec fn jvm_out_file_spec(output_base: Seq<char>, server_jvm_out: Option<Seq<char>>) -> Seq<char> {
    match server_jvm_out {
        Some(p) => p,
        None => join_path_spec(output_base, "server/jvm.out"@),
    }
}

impl ServerProcessInfo {
    pub fn new(output_base: &str, server_jvm_out: Option<&str>) -> (r: ServerProcessInfo)
        ensures
            r.jvm_log_file@ == jvm_out_file_spec(output_base@, match server_jvm_out {
                Some(p) => Some(p@),
                None => None,
            }),
            r.jvm_log_file_append == server_jvm_out is Some,
            r.server_pid == -1,
    {
        ServerProcessInfo {
            jvm_log_file: Self::get_jvm_out_file(output_base, server_jvm_out),
            jvm_log_file_append: server_jvm_out.is_some(),
            server_pid: -1,
        }
    }

    /// The server's log file.
    pub fn get_jvm_out_file(output_base: &str, server_jvm_out: Option<&str>) -> (r: String)
        ensures
            r@ == jvm_out_file_spec(output_base@, match server_jvm_out {
                Some(p) => Some(p@),
                None => None,
            }),
    {
        match server_jvm_out {
            Some(p) => String::from_str(p),
            None => join_path(output_base, "server/jvm.out"),
        }
    }
}

} // verus!
