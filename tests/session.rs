use bazel::exit_code::ExitCode;
use bazel::session::{
    build_run_request, get_exit_code_for_abrupt_exit, ExecRequest, RunResponse, Session, SessionEnd,
    StartupOption,
};

fn response(cookie: &str, stdout: &str, command_id: &str, finished: bool, exit_code: i32) -> RunResponse {
    RunResponse {
        cookie: cookie.to_string(),
        standard_output: stdout.as_bytes().to_vec(),
        standard_error: Vec::new(),
        command_id: command_id.to_string(),
        finished,
        exit_code,
        termination_expected: false,
        exec_request: None,
    }
}

fn exit_of(end: SessionEnd) -> Option<i32> {
    match end {
        SessionEnd::Exit(c) => Some(c),
        _ => None,
    }
}

#[test]
fn version_command_prints_and_succeeds() {
    let mut s = Session::new("resp");
    let a = s.on_response(response("resp", "X", "", false, 0)).unwrap();
    assert!(a.forward_stdout);
    assert!(!a.forward_stderr);
    assert!(!a.command_id_received);
    let b = s.on_response(response("resp", "", "", true, 0)).unwrap();
    assert!(!b.forward_stdout);
    assert_eq!(exit_of(s.end(true)), Some(ExitCode::Success.code()));
}

#[test]
fn wrong_cookie_aborts_with_internal_error() {
    let mut s = Session::new("resp");
    let r = s.on_response(response("other", "payload", "id-1", true, 0));
    assert_eq!(r.err(), Some(ExitCode::InternalError));
    assert!(!s.finished);
    assert!(!s.command_id_set);
}

#[test]
fn first_command_id_is_announced_once() {
    let mut s = Session::new("c");
    assert!(s.on_response(response("c", "", "id-1", false, 0)).unwrap().command_id_received);
    assert!(!s.on_response(response("c", "", "id-2", false, 0)).unwrap().command_id_received);
    assert_eq!(s.command_id, "id-1");
}

#[test]
fn broken_pipe_cancels_once_and_wins() {
    let mut s = Session::new("c");
    s.on_response(response("c", "out", "", false, 0)).unwrap();
    assert!(s.on_broken_pipe());
    assert!(!s.on_broken_pipe());
    s.on_response(response("c", "", "", true, 3)).unwrap();
    assert_eq!(exit_of(s.end(true)), Some(ExitCode::LocalEnvironmentalError.code()));
}

#[test]
fn server_exit_code_is_returned() {
    let mut s = Session::new("c");
    s.on_response(response("c", "", "", true, 3)).unwrap();
    assert_eq!(exit_of(s.end(true)), Some(3));
}

#[test]
fn missing_final_message_is_abrupt() {
    let mut s = Session::new("c");
    s.on_response(response("c", "partial", "", false, 0)).unwrap();
    assert!(matches!(s.end(true), SessionEnd::AbruptExit));
    let mut t = Session::new("c");
    t.on_response(response("c", "", "", true, 0)).unwrap();
    assert!(matches!(t.end(false), SessionEnd::AbruptExit));
}

#[test]
fn exec_request_without_program_is_internal_error() {
    let mut s = Session::new("c");
    let mut r = response("c", "", "", true, 0);
    r.exec_request = Some(ExecRequest {
        argv: Vec::new(),
        environment_variable: Vec::new(),
        working_directory: "/".to_string(),
    });
    s.on_response(r).unwrap();
    assert_eq!(exit_of(s.end(true)), Some(ExitCode::InternalError.code()));
}

#[test]
fn exec_request_is_handed_over() {
    let mut s = Session::new("c");
    let mut r = response("c", "", "", true, 0);
    r.exec_request = Some(ExecRequest {
        argv: vec!["/bin/true".to_string()],
        environment_variable: Vec::new(),
        working_directory: "/tmp".to_string(),
    });
    s.on_response(r).unwrap();
    match s.end(true) {
        SessionEnd::Exec(e) => assert_eq!(e.argv, vec!["/bin/true".to_string()]),
        _ => panic!("expected an exec request"),
    }
}

#[test]
fn abrupt_exit_uses_sentinel_value() {
    assert_eq!(get_exit_code_for_abrupt_exit(Some("12"), true), 12);
    assert_eq!(get_exit_code_for_abrupt_exit(Some(" -3\n"), true), -3);
    assert_eq!(get_exit_code_for_abrupt_exit(Some("+7"), true), 7);
}

#[test]
fn abrupt_exit_without_usable_sentinel_is_internal_error() {
    assert_eq!(get_exit_code_for_abrupt_exit(None, true), 37);
    assert_eq!(get_exit_code_for_abrupt_exit(Some("abc"), true), 37);
    assert_eq!(get_exit_code_for_abrupt_exit(Some(""), true), 37);
    assert_eq!(get_exit_code_for_abrupt_exit(Some("12"), false), 37);
    assert_eq!(get_exit_code_for_abrupt_exit(Some("99999999999"), true), 37);
}

#[test]
fn run_request_carries_everything() {
    let r = build_run_request(
        "req",
        true,
        false,
        4242,
        vec!["version".to_string()],
        "",
        vec![StartupOption { source: "".to_string(), option: "--batch".to_string() }],
    );
    assert_eq!(r.cookie, "req");
    assert!(r.block_for_lock);
    assert!(!r.preemptible);
    assert_eq!(r.client_description, "pid=4242");
    assert_eq!(r.arg, vec!["version".to_string()]);
    assert_eq!(r.invocation_policy, "");
    assert_eq!(r.startup_options.len(), 1);
}

#[test]
fn exit_codes_have_fixed_numbers() {
    assert_eq!(ExitCode::Success.code(), 0);
    assert_eq!(ExitCode::BadArgv.code(), 2);
    assert_eq!(ExitCode::Interrupted.code(), 8);
    assert_eq!(ExitCode::LockHeldNoblockForLock.code(), 9);
    assert_eq!(ExitCode::LocalEnvironmentalError.code(), 36);
    assert_eq!(ExitCode::InternalError.code(), 37);
    assert_eq!(ExitCode::from_code(36), Some(ExitCode::LocalEnvironmentalError));
    assert_eq!(ExitCode::from_code(1), None);
}
