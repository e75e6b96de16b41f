//! The top-level decisions of a client run: which mode to run in, the
//! configuration completed from defaults, and the argument vector a new server
//! is started with.

use vstd::prelude::*;
use crate::bazel_util::{hashed_base_dir, hex_of, md5_of};
use crate::exit_code::{ExitCode, ExitError};
use crate::paths::{join_path, join_path_spec};
use crate::startup_options::{StartupOptions, lower_of};
use crate::text::{
    str_eq, push_str, push_signed_decimal, signed_decimal, decimal, digit_char, replace_all,
    replace_str, views,
    lemma_views_push,
};
use crate::workspace_layout::{pretty_workspace_name, pretty_name_spec, last_slash};
use crate::cmdline::{has_no_nul, join_nul, lemma_join_nul_len};
use crate::lifecycle::{reconcile_spec, lemma_same_options_never_kill};

verus! {

/// The command under which the client becomes the server itself.
pub open spec fn is_server_mode_spec(command: Seq<char>) -> bool {
    command == "exec-server"@
}

pub fn is_server_mode(command: &str) -> (r: bool)
    ensures
        r == is_server_mode_spec(command@),
{
    str_eq(command, "exec-server")
}

/// An invocation that only asks for the client's version:
/// exactly `<binary> --version`.
pub fn is_version_request(args: &Vec<String>) -> (r: bool)
    ensures
        r == (args@.len() == 2 && args@[1]@ == "--version"@),
{
    args.len() == 2 && str_eq(args[1].as_str(), "--version")
}

/// How the client runs.
#[derive(Clone, Copy, Debug, PartialEq, Eq, Structural)]
pub enum LaunchMode {
    /// Become the server (`exec-server`); never returns.
    Server,
    /// Run a one-shot server for this command and exit with it.
    Batch,
    /// Find or start a server and send it the command.
    ClientServer,
}

/// Chooses the mode: `exec-server` first, then `--batch`, else the common
/// client/server path.
pub fn select_launch_mode(command: &str, batch: bool) -> (r: LaunchMode)
    ensures
        is_server_mode_spec(command@) ==> r == LaunchMode::Server,
        !is_server_mode_spec(command@) && batch ==> r == LaunchMode::Batch,
        !is_server_mode_spec(command@) && !batch ==> r == LaunchMode::ClientServer,
{
    if is_server_mode(command) {
        LaunchMode::Server
    } else if batch {
        LaunchMode::Batch
    } else {
        LaunchMode::ClientServer
    }
}

/// The absolute path of the client binary: `filename` itself when absolute,
/// else its resolved form (`resolved`, when the path could be resolved) or
/// its place under `cwd`.
pub fn check_and_get_binary_path(cwd: &str, filename: &str, resolved: Option<&str>) -> (r: String)
    ensures
        filename@.len() > 0 && filename@[0] == '/' ==> r@ == filename@,
        !(filename@.len() > 0 && filename@[0] == '/') ==> r@ == match resolved {
            Some(p) => p@,
            None => join_path_spec(cwd@, filename@),
        },
{
    if filename.unicode_len() > 0 && filename.get_char(0) == '/' {
        return String::from_str(filename);
    }
    match resolved {
        Some(p) => String::from_str(p),
        None => join_path(cwd, filename),
    }
}

/// Escapes a value for `--option_sources`: '_' becomes "_U", then ':'
/// becomes "_C".
pub fn escape_for_option_source(input: &str) -> (r: String)
    ensures
        r@ == replace_all(replace_all(input@, "_"@, "_U"@), ":"@, "_C"@),
{
    proof {
        reveal_strlit("_");
        reveal_strlit(":");
    }
    let a = replace_str(input, "_", "_U");
    replace_str(a.as_str(), ":", "_C")
}

/// The arguments a new server is started with.
pub open spec fn server_exe_args_spec(
    lower_product: Seq<char>,
    workspace: Seq<char>,
    install_md5: Seq<char>,
    host_jvm_debug: bool,
    batch: bool,
    command_port: Option<i32>,
    write_command_log: bool,
) -> Seq<Seq<char>> {
    seq![
        lower_product + "("@ + pretty_name_spec(workspace) + ")"@,
        "-XX:+HeapDumpOnOutOfMemoryError"@,
        "-Xverify:none"@,
        "-Dfile.encoding=ISO-8859-1"@,
    ] + (if host_jvm_debug {
        seq!["-Xdebug"@, "-Xrunjdwp:transport=dt_socket,server=y,address=5005"@]
    } else {
        seq![]
    }) + (if batch {
        seq!["--batch"@]
    } else {
        seq![]
    }) + (match command_port {
        Some(p) => seq!["--command_port="@ + signed_decimal(p as int)],
        None => seq![],
    }) + seq!["--install_md5="@ + install_md5] + (if write_command_log {
        seq!["--write_command_log"@]
    } else {
        seq!["--nowrite_command_log"@]
    })
}

fn push_arg(args: &mut Vec<String>, a: String)
    ensures
        views(final(args)@) == views(old(args)@).push(a@),
{
    proof {
        lemma_views_push(args@, a);
    }
    args.push(a);
}

/// Builds the argument vector of a new server for `workspace`.
pub fn get_server_exe_args(install_md5: &str, workspace: &str, startup_options: &StartupOptions) -> (r: Vec<String>)
    ensures
        views(r@) == server_exe_args_spec(
            lower_of(startup_options.product_name@),
            workspace@,
            install_md5@,
            startup_options.host_jvm_debug,
            startup_options.batch,
            startup_options.command_port,
            startup_options.write_command_log,
        ),
{
    let lower = startup_options.lowercase_product_name();
    server_exe_args_for(lower.as_str(), install_md5, workspace, startup_options)
}

/// The argument vector of a new server, given the product name in lower
/// case.
pub fn server_exe_args_for(
    lower_product: &str,
    install_md5: &str,
    workspace: &str,
    startup_options: &StartupOptions,
) -> (r: Vec<String>)
    ensures
        views(r@) == server_exe_args_spec(
            lower_product@,
            workspace@,
            install_md5@,
            startup_options.host_jvm_debug,
            startup_options.batch,
            startup_options.command_port,
            startup_options.write_command_log,
        ),
{
    let mut r: Vec<String> = Vec::new();
    let mut name = String::from_str(lower_product);
    push_str(&mut name, "(");
    let pretty = pretty_workspace_name(workspace);
    push_str(&mut name, pretty.as_str());
    push_str(&mut name, ")");
    push_arg(&mut r, name);
    push_arg(&mut r, String::from_str("-XX:+HeapDumpOnOutOfMemoryError"));
    push_arg(&mut r, String::from_str("-Xverify:none"));
    push_arg(&mut r, String::from_str("-Dfile.encoding=ISO-8859-1"));
    if startup_options.host_jvm_debug {
        push_arg(&mut r, String::from_str("-Xdebug"));
        push_arg(&mut r, String::from_str("-Xrunjdwp:transport=dt_socket,server=y,address=5005"));
    }
    if startup_options.batch {
        push_arg(&mut r, String::from_str("--batch"));
    }
    match startup_options.command_port {
        Some(p) => {
            let mut a = String::from_str("--command_port=");
            push_signed_decimal(&mut a, p as i64);
            push_arg(&mut r, a);
        },
        None => {},
    }
    let mut m = String::from_str("--install_md5=");
    push_str(&mut m, install_md5);
    push_arg(&mut r, m);
    if startup_options.write_command_log {
        push_arg(&mut r, String::from_str("--write_command_log"));
    } else {
        push_arg(&mut r, String::from_str("--nowrite_command_log"));
    }
    assert(views(r@) =~= server_exe_args_spec(
        lower_product@,
        workspace@,
        install_md5@,
        startup_options.host_jvm_debug,
        startup_options.batch,
        startup_options.command_port,
        startup_options.write_command_log,
    ));
    r
}

/// Every argument is free of NUL characters.
pub open spec fn all_no_nul(args: Seq<Seq<char>>) -> bool {
    forall|i: int| 0 <= i < args.len() ==> has_no_nul(#[trigger] args[i])
}

proof fn lemma_no_nul_concat(a: Seq<char>, b: Seq<char>)
    requires
        has_no_nul(a),
        has_no_nul(b),
    ensures
        has_no_nul(a + b),
{
    assert forall|i: int| 0 <= i < (a + b).len() implies (a + b)[i] != '\0' by {
        if i < a.len() {
            assert((a + b)[i] == a[i]);
        } else {
            assert((a + b)[i] == b[i - a.len()]);
        }
    }
}

proof fn lemma_all_no_nul_concat(a: Seq<Seq<char>>, b: Seq<Seq<char>>)
    requires
        all_no_nul(a),
        all_no_nul(b),
    ensures
        all_no_nul(a + b),
{
    assert forall|i: int| 0 <= i < (a + b).len() implies has_no_nul(#[trigger] (a + b)[i]) by {
        if i < a.len() {
            assert((a + b)[i] == a[i]);
        } else {
            assert((a + b)[i] == b[i - a.len()]);
        }
    }
}

proof fn lemma_decimal_no_nul(n: nat)
    ensures
        has_no_nul(decimal(n)),
    decreases n,
{
    if n >= 10 {
        lemma_decimal_no_nul(n / 10);
        lemma_no_nul_concat(decimal(n / 10), seq![digit_char(n % 10)]);
        assert(decimal(n) == decimal(n / 10) + seq![digit_char(n % 10)]);
    }
}

proof fn lemma_server_exe_args_no_nul(
    lower_product: Seq<char>,
    workspace: Seq<char>,
    install_md5: Seq<char>,
    host_jvm_debug: bool,
    batch: bool,
    command_port: Option<i32>,
    write_command_log: bool,
)
    requires
        has_no_nul(lower_product),
        has_no_nul(workspace),
        has_no_nul(install_md5),
    ensures
        ({
            let args = server_exe_args_spec(
                lower_product,
                workspace,
                install_md5,
                host_jvm_debug,
                batch,
                command_port,
                write_command_log,
            );
            all_no_nul(args) && args.len() >= 2
        }),
{
    reveal_strlit("(");
    reveal_strlit(")");
    reveal_strlit("-XX:+HeapDumpOnOutOfMemoryError");
    reveal_strlit("-Xverify:none");
    reveal_strlit("-Dfile.encoding=ISO-8859-1");
    reveal_strlit("-Xdebug");
    reveal_strlit("-Xrunjdwp:transport=dt_socket,server=y,address=5005");
    reveal_strlit("--batch");
    reveal_strlit("--command_port=");
    reveal_strlit("--install_md5=");
    reveal_strlit("--write_command_log");
    reveal_strlit("--nowrite_command_log");
    let pretty = pretty_name_spec(workspace);
    assert(has_no_nul(pretty)) by {
        match last_slash(workspace) {
            Some(k) => {
                assert forall|i: int| 0 <= i < pretty.len() implies pretty[i] != '\0' by {
                    assert(pretty[i] == workspace[k + 1 + i]);
                }
            },
            None => {},
        }
    }
    lemma_no_nul_concat(lower_product, "("@);
    lemma_no_nul_concat(lower_product + "("@, pretty);
    lemma_no_nul_concat(lower_product + "("@ + pretty, ")"@);
    let head = seq![
        lower_product + "("@ + pretty + ")"@,
        "-XX:+HeapDumpOnOutOfMemoryError"@,
        "-Xverify:none"@,
        "-Dfile.encoding=ISO-8859-1"@,
    ];
    assert(all_no_nul(head)) by {
        assert forall|i: int| 0 <= i < head.len() implies has_no_nul(#[trigger] head[i]) by {
            if i == 0 {
            } else if i == 1 {
            } else if i == 2 {
            } else {
            }
        }
    }
    let debug: Seq<Seq<char>> = if host_jvm_debug {
        seq!["-Xdebug"@, "-Xrunjdwp:transport=dt_socket,server=y,address=5005"@]
    } else {
        seq![]
    };
    assert(all_no_nul(debug)) by {
        assert forall|i: int| 0 <= i < debug.len() implies has_no_nul(#[trigger] debug[i]) by {
            if i == 0 {
            } else {
            }
        }
    }
    let batch_arg: Seq<Seq<char>> = if batch {
        seq!["--batch"@]
    } else {
        seq![]
    };
    assert(all_no_nul(batch_arg)) by {
        assert forall|i: int| 0 <= i < batch_arg.len() implies has_no_nul(#[trigger] batch_arg[i]) by {}
    }
    let port_arg: Seq<Seq<char>> = match command_port {
        Some(p) => seq!["--command_port="@ + signed_decimal(p as int)],
        None => seq![],
    };
    assert(all_no_nul(port_arg)) by {
        match command_port {
            Some(p) => {
                let d = signed_decimal(p as int);
                if p < 0 {
                    lemma_decimal_no_nul((-p) as nat);
                    lemma_no_nul_concat(seq!['-'], decimal((-p) as nat));
                } else {
                    lemma_decimal_no_nul(p as nat);
                }
                lemma_no_nul_concat("--command_port="@, d);
                assert forall|i: int| 0 <= i < port_arg.len() implies has_no_nul(#[trigger] port_arg[i]) by {}
            },
            None => {},
        }
    }
    lemma_no_nul_concat("--install_md5="@, install_md5);
    let tail: Seq<Seq<char>> = seq!["--install_md5="@ + install_md5] + (if write_command_log {
        seq!["--write_command_log"@]
    } else {
        seq!["--nowrite_command_log"@]
    });
    assert(all_no_nul(tail)) by {
        assert forall|i: int| 0 <= i < tail.len() implies has_no_nul(#[trigger] tail[i]) by {
            if i == 0 {
            } else {
            }
        }
    }
    lemma_all_no_nul_concat(head, debug);
    lemma_all_no_nul_concat(head + debug, batch_arg);
    lemma_all_no_nul_concat(head + debug + batch_arg, port_arg);
    lemma_all_no_nul_concat(head + debug + batch_arg + port_arg, tail);
    assert(server_exe_args_spec(
        lower_product,
        workspace,
        install_md5,
        host_jvm_debug,
        batch,
        command_port,
        write_command_log,
    ) == head + debug + batch_arg + port_arg + tail);
}

/// A server started with the arguments that `get_server_exe_args` builds
/// (recorded in its `cmdline` marker) is reused by every later call with the
/// same options: the marker, split at NUL, never makes the reconciliation
/// kill it. Product name, workspace and install key hold no NUL, as no path
/// or command-line argument can.
pub proof fn lemma_same_startup_options_never_kill(
    lower_product: Seq<char>,
    workspace: Seq<char>,
    install_md5: Seq<char>,
    host_jvm_debug: bool,
    batch: bool,
    command_port: Option<i32>,
    write_command_log: bool,
    pieces: Seq<Seq<char>>,
)
    requires
        has_no_nul(lower_product),
        has_no_nul(workspace),
        has_no_nul(install_md5),
        join_nul(pieces) == join_nul(
            server_exe_args_spec(
                lower_product,
                workspace,
                install_md5,
                host_jvm_debug,
                batch,
                command_port,
                write_command_log,
            ),
        ),
        all_no_nul(pieces),
    ensures
        !reconcile_spec(
            true,
            true,
            pieces,
            server_exe_args_spec(
                lower_product,
                workspace,
                install_md5,
                host_jvm_debug,
                batch,
                command_port,
                write_command_log,
            ),
        ).kills(),
{
    let args = server_exe_args_spec(
        lower_product,
        workspace,
        install_md5,
        host_jvm_debug,
        batch,
        command_port,
        write_command_log,
    );
    lemma_server_exe_args_no_nul(
        lower_product,
        workspace,
        install_md5,
        host_jvm_debug,
        batch,
        command_port,
        write_command_log,
    );
    lemma_join_nul_len(args);
    lemma_same_options_never_kill(args, pieces);
}

/// Completes the configuration: a missing install base becomes
/// `<output_user_root>/install/<install_md5>`, a missing output base the
/// hashed directory of the workspace under the output user root. In server
/// mode both must have been given (`BadArgv` otherwise).
#[verifier::rlimit(40)]
pub fn update_configuration(
    install_md5: &str,
    workspace: &str,
    server_mode: bool,
    startup_options: &mut StartupOptions,
) -> (r: Result<(), ExitError>)
    ensures
        ({
            let no_install = old(startup_options).install_base@.len() == 0;
            let no_output = old(startup_options).output_base is None;
            &&& (r is Err <==> server_mode && (no_install || no_output))
            &&& (r matches Err(e) ==> e.code == ExitCode::BadArgv && e.reason@ == if no_install {
                "exec-server requires --install_base"@
            } else {
                "exec-server requires --output_base"@
            })
            &&& (r is Ok ==> final(startup_options).install_base@ == if no_install {
                join_path_spec(old(startup_options).output_user_root@ + "/install"@, install_md5@)
            } else {
                old(startup_options).install_base@
            })
            &&& (r is Ok && !no_output ==> final(startup_options).output_base == old(startup_options).output_base)
            &&& (r is Ok && no_output ==> (final(startup_options).output_base matches Some(b) && b@
                == join_path_spec(old(startup_options).output_user_root@, hex_of(md5_of(workspace@)))))
            &&& *final(startup_options) == (StartupOptions {
                install_base: final(startup_options).install_base,
                output_base: final(startup_options).output_base,
                ..*old(startup_options)
            })
        }),
{
    if startup_options.install_base.as_str().unicode_len() == 0 {
        if server_mode {
            return Err(ExitError::new(
                ExitCode::BadArgv,
                String::from_str("exec-server requires --install_base"),
            ));
        }
        let mut root = startup_options.output_user_root.clone();
        push_str(&mut root, "/install");
        startup_options.install_base = join_path(root.as_str(), install_md5);
    }
    if startup_options.output_base.is_none() {
        if server_mode {
            return Err(ExitError::new(
                ExitCode::BadArgv,
                String::from_str("exec-server requires --output_base"),
            ));
        }
        startup_options.output_base = Some(
            hashed_base_dir(startup_options.output_user_root.as_str(), workspace),
        );
    }
    Ok(())
}

} // verus!
