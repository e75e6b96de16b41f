use bazel::locator::{is_loopback, is_trusted, locate};
use bazel::lifecycle::{
    record_reconciliation, workspace_moved, Reconciliation, StartupStep, StartupWait,
    await_server_process_termination, ensure_previous_server_process_terminated, get_server_pid, reconcile_running_server,
    should_launch, LockOutcome, OutputBaseLock, TerminationWait, WaitStep,
    POST_SHUTDOWN_GRACE_PERIOD_SECS,
};
use bazel::logging::{LoggingInfo, RestartReason};

fn strings(v: &[&str]) -> Vec<String> {
    v.iter().map(|s| s.to_string()).collect()
}

#[test]
fn matching_server_is_reused_again_and_again() {
    let args = strings(&["bazel(ws)", "--install_md5=abc"]);
    let marker = "bazel(ws)\0--install_md5=abc";
    for _ in 0..3 {
        let r = reconcile_running_server(true, true, marker, &args);
        assert!(!r.kill_for_version);
        assert!(!r.kill_for_options);
        assert!(!r.relink_install);
    }
}

#[test]
fn other_version_is_killed() {
    let args = strings(&["x"]);
    let r = reconcile_running_server(true, false, "x", &args);
    assert!(r.kill_for_version);
    assert!(!r.kill_for_options);
    assert!(r.relink_install);
    let d = reconcile_running_server(false, false, "x", &args);
    assert!(!d.kill_for_version);
    assert!(d.relink_install);
}

#[test]
fn other_options_are_killed() {
    let args = strings(&["x", "--host_jvm_args=foo"]);
    let r = reconcile_running_server(true, true, "x", &args);
    assert!(r.kill_for_options);
    assert!(!r.kill_for_version);
}

#[test]
fn pid_file_is_read_as_decimal() {
    assert_eq!(get_server_pid(Some("1234")), 1234);
    assert_eq!(get_server_pid(Some("1234\n")), 1234);
    assert_eq!(get_server_pid(Some("x")), -1);
    assert_eq!(get_server_pid(None), -1);
}

#[test]
fn stale_pid_reasons() {
    let mut info = LoggingInfo::new("/bin/bazel".to_string(), 0);
    assert_eq!(ensure_previous_server_process_terminated(-1, true, true, &mut info), None);
    assert_eq!(info.restart_reason, RestartReason::NoRestart);
    assert_eq!(
        ensure_previous_server_process_terminated(10, false, false, &mut info),
        Some(RestartReason::PidFileButNoServer)
    );
    assert_eq!(info.restart_reason, RestartReason::PidFileButNoServer);
    assert_eq!(
        ensure_previous_server_process_terminated(10, true, true, &mut info),
        Some(RestartReason::ServerUnresponsive)
    );
    assert_eq!(info.restart_reason, RestartReason::PidFileButNoServer);
    let mut fresh = LoggingInfo::new("/bin/bazel".to_string(), 0);
    assert_eq!(
        ensure_previous_server_process_terminated(10, true, false, &mut fresh),
        Some(RestartReason::ServerVanished)
    );
    assert_eq!(fresh.restart_reason, RestartReason::ServerVanished);
}

fn kills_after_shutdown(alive_until_ms: u64) -> u32 {
    let mut w = TerminationWait::new(POST_SHUTDOWN_GRACE_PERIOD_SECS);
    let mut now: u64 = 0;
    loop {
        match await_server_process_termination(&mut w, now < alive_until_ms) {
            WaitStep::Terminated => return 0,
            WaitStep::TimedOut => return 1,
            WaitStep::Sleep => now += 100,
        }
    }
}

#[test]
fn shutdown_within_grace_period_needs_no_kill() {
    assert_eq!(kills_after_shutdown(0), 0);
    assert_eq!(kills_after_shutdown(30_000), 0);
    assert_eq!(kills_after_shutdown(60_000), 0);
}

#[test]
fn shutdown_beyond_grace_period_kills_once() {
    assert_eq!(kills_after_shutdown(60_001), 1);
    assert_eq!(kills_after_shutdown(u64::MAX), 1);
}

#[test]
fn lock_admits_one_client_at_a_time() {
    let mut lock = OutputBaseLock::new();
    assert_eq!(lock.acquire(1, true), LockOutcome::Acquired);
    assert_eq!(lock.acquire(2, true), LockOutcome::Wait);
    assert_eq!(lock.acquire(2, false), LockOutcome::Busy);
    assert!(should_launch(&lock, 1, false));
    assert!(!should_launch(&lock, 2, false));
    lock.release(1);
    lock.release(1);
    assert_eq!(lock.acquire(2, false), LockOutcome::Acquired);
    // The second client now finds the first one's server and launches nothing.
    assert!(!should_launch(&lock, 2, true));
}

#[test]
fn no_server_directory_means_no_server() {
    assert!(locate(None, None, None, None).is_none());
}

#[test]
fn located_server_from_its_files() {
    let info = locate(Some("127.0.0.1:4567\n"), Some("rq"), Some("rs"), Some("321")).unwrap();
    assert_eq!(info.endpoint, "127.0.0.1:4567");
    assert_eq!(info.request_cookie, "rq");
    assert_eq!(info.response_cookie, "rs");
    assert_eq!(info.server_pid, 321);
    assert!(is_trusted(&info, true, Some("rs")));
    assert!(!is_trusted(&info, true, Some("other")));
    assert!(!is_trusted(&info, false, Some("rs")));
    assert!(!is_trusted(&info, true, None));
    assert!(locate(Some("10.0.0.1:4567"), Some("rq"), Some("rs"), Some("321")).is_none());
    assert!(locate(Some("[::1]:4567"), Some("rq"), Some("rs"), Some("321")).is_some());
    assert!(locate(Some("127.x:junk"), Some("rq"), Some("rs"), Some("321")).is_none());
    assert!(locate(Some("localhost:1"), Some("rq"), Some("rs"), Some("321")).is_none());
    assert!(locate(Some("127.0.0.1:4567"), Some("rq"), Some("rs"), Some("-1")).is_none());
    assert!(locate(Some("127.0.0.1:4567"), Some("rq"), None, Some("321")).is_none());
    assert!(locate(Some("127.0.0.1:4567"), Some("rq"), Some("rs"), Some("pid")).is_none());
}

#[test]
fn reconciliation_sets_the_restart_reason() {
    let mut info = LoggingInfo::new("/b".to_string(), 0);
    let keep = Reconciliation { relink_install: false, kill_for_version: false, kill_for_options: false };
    assert!(!record_reconciliation(keep, &mut info));
    assert_eq!(info.restart_reason, RestartReason::NoRestart);
    let opts = Reconciliation { relink_install: false, kill_for_version: false, kill_for_options: true };
    assert!(record_reconciliation(opts, &mut info));
    assert_eq!(info.restart_reason, RestartReason::NewOptions);
    let mut fresh = LoggingInfo::new("/b".to_string(), 0);
    let ver = Reconciliation { relink_install: true, kill_for_version: true, kill_for_options: false };
    assert!(record_reconciliation(ver, &mut fresh));
    assert_eq!(fresh.restart_reason, RestartReason::NewVersion);
}

#[test]
fn server_in_another_directory_has_moved() {
    assert!(!workspace_moved(None, "/ws"));
    assert!(!workspace_moved(Some("/ws"), "/ws"));
    assert!(workspace_moved(Some("/other"), "/ws"));
    assert!(workspace_moved(Some("/ws (deleted)"), "/ws"));
    assert!(workspace_moved(Some("/ws (deleted)"), "/ws (deleted)"));
    assert!(workspace_moved(Some("/a (deleted)/ws"), "/a (deleted)/ws"));
}

#[test]
fn startup_wait_outcomes() {
    let mut w = StartupWait::new(120);
    assert_eq!(w.step(0, false, true), StartupStep::Retry { report: false });
    assert_eq!(w.step(9_999, false, true), StartupStep::Retry { report: false });
    assert_eq!(w.step(10_000, false, true), StartupStep::Retry { report: true });
    assert_eq!(w.step(15_000, false, true), StartupStep::Retry { report: false });
    assert_eq!(w.step(20_000, false, true), StartupStep::Retry { report: true });
    assert_eq!(w.step(20_100, true, true), StartupStep::Ready);
    assert_eq!(w.step(20_200, false, false), StartupStep::Crashed);
    assert_eq!(w.step(120_000, false, true), StartupStep::TimedOut);
}

#[test]
fn loopback_endpoints_are_parsed() {
    assert!(is_loopback("127.0.0.1:80"));
    assert!(is_loopback(" 127.255.3.4:65535\n"));
    assert!(is_loopback("[::1]:1"));
    assert!(!is_loopback("127.0.0.1:65536"));
    assert!(!is_loopback("127.0.0.1"));
    assert!(!is_loopback("127.0.0.1:"));
    assert!(!is_loopback("127.01.0.1:80"));
    assert!(!is_loopback("127.0.0.256:80"));
    assert!(!is_loopback("127.0.0.1.5:80"));
    assert!(!is_loopback("128.0.0.1:80"));
    assert!(!is_loopback("[::2]:80"));
    assert!(!is_loopback("127.x:junk"));
    assert!(!is_loopback(""));
}

#[test]
fn ipv6_loopback_spellings() {
    assert!(is_loopback("[::1]:80"));
    assert!(is_loopback("[0:0:0:0:0:0:0:1]:80"));
    assert!(is_loopback("[0000:0000:0000:0000:0000:0000:0000:0001]:80"));
    assert!(is_loopback("[0::1]:80"));
    assert!(is_loopback("[0:0:0::0:0001]:80"));
    assert!(is_loopback("[::0.0.0.1]:80"));
    assert!(is_loopback("[0:0:0:0:0:0:0.0.0.1]:80"));
    assert!(is_loopback("[::1%3]:80"));
    assert!(is_loopback("[::1]:00080"));
    assert!(is_loopback("127.0.0.1:0000443"));
    assert!(!is_loopback("[::]:80"));
    assert!(!is_loopback("[1::]:80"));
    assert!(!is_loopback("[::2]:80"));
    assert!(!is_loopback("[:::1]:80"));
    assert!(!is_loopback("[::1::]:80"));
    assert!(!is_loopback("[0:0:0:0:0:0:0:0:1]:80"));
    assert!(!is_loopback("[0:0:0:0:0:0:0::1]:80"));
    assert!(!is_loopback("[00001::1]:80"));
    assert!(!is_loopback("[::1%]:80"));
    assert!(!is_loopback("[::1%x]:80"));
    assert!(!is_loopback("[::1]80"));
    assert!(!is_loopback("[::1]:65536"));
    assert!(!is_loopback("[0.0.0.1::]:80"));
    assert!(!is_loopback("[::ffff:127.0.0.1]:80"));
}
