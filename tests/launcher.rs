use bazel::bazel_util::{
    absolute_path_from_flag, hashed_base_dir, server_env_changes, to_hex, EnvVarAction,
};
use bazel::exit_code::ExitCode;
use bazel::launcher::{
    check_and_get_binary_path, escape_for_option_source, get_server_exe_args, is_server_mode,
    is_version_request, select_launch_mode, server_exe_args_for, update_configuration, LaunchMode,
};
use bazel::logging::{build_arg_vector, CommandTiming, LoggingInfo, RestartReason};
use bazel::startup_options::{output_user_root_for, StartupOptions};

fn strings(v: &[&str]) -> Vec<String> {
    v.iter().map(|s| s.to_string()).collect()
}

#[test]
fn output_base_is_the_md5_of_the_workspace() {
    assert_eq!(
        hashed_base_dir("/root/_bazel_user", "/home/user/ws"),
        "/root/_bazel_user/ffe5628e572b07d34829d92bc0bea793"
    );
    assert_eq!(hashed_base_dir("/r/", ""), "/r/d41d8cd98f00b204e9800998ecf8427e");
}

#[test]
fn hex_is_lower_case_two_digits_per_byte() {
    assert_eq!(to_hex(&vec![0x00, 0x0f, 0xa0, 0xff]), "000fa0ff");
    assert_eq!(to_hex(&Vec::new()), "");
}

#[test]
fn startup_defaults() {
    let o = StartupOptions::new("Bazel", "/var/tmp", "alice");
    assert_eq!(o.output_user_root, "/var/tmp/_bazel_alice");
    assert_eq!(o.lowercase_product_name(), "bazel");
    assert!(o.block_for_lock);
    assert_eq!(o.connect_timeout_secs, 30);
    assert_eq!(o.io_nice_level, -1);
    assert!(o.output_base.is_none());
}

#[test]
fn configuration_fills_in_install_and_output_base() {
    let mut o = StartupOptions::new("Bazel", "/var/tmp", "alice");
    assert!(update_configuration("abc", "/home/user/ws", false, &mut o).is_ok());
    assert_eq!(o.install_base, "/var/tmp/_bazel_alice/install/abc");
    assert!(o.write_command_log);
    assert!(!o.host_jvm_debug);
    assert_eq!(o.output_user_root, "/var/tmp/_bazel_alice");
    assert_eq!(
        o.output_base,
        Some("/var/tmp/_bazel_alice/ffe5628e572b07d34829d92bc0bea793".to_string())
    );
}

#[test]
fn server_mode_needs_explicit_bases() {
    let mut o = StartupOptions::new("Bazel", "/var/tmp", "alice");
    let e = update_configuration("abc", "/ws", true, &mut o).err().unwrap();
    assert_eq!(e.code, ExitCode::BadArgv);
    assert_eq!(e.reason, "exec-server requires --install_base");
    o.install_base = "/ib".to_string();
    let e = update_configuration("abc", "/ws", true, &mut o).err().unwrap();
    assert_eq!(e.reason, "exec-server requires --output_base");
    o.output_base = Some("/ob".to_string());
    assert!(update_configuration("abc", "/ws", true, &mut o).is_ok());
    assert_eq!(o.output_base, Some("/ob".to_string()));
}

#[test]
fn server_arguments() {
    let mut o = StartupOptions::new("Bazel", "/var/tmp", "alice");
    assert_eq!(
        get_server_exe_args("abc", "/home/user/ws", &o),
        strings(&[
            "bazel(ws)",
            "-XX:+HeapDumpOnOutOfMemoryError",
            "-Xverify:none",
            "-Dfile.encoding=ISO-8859-1",
            "--install_md5=abc",
            "--write_command_log",
        ])
    );
    o.batch = true;
    o.command_port = Some(-1);
    o.write_command_log = false;
    o.host_jvm_debug = true;
    assert_eq!(
        get_server_exe_args("abc", "/ws", &o),
        strings(&[
            "bazel(ws)",
            "-XX:+HeapDumpOnOutOfMemoryError",
            "-Xverify:none",
            "-Dfile.encoding=ISO-8859-1",
            "-Xdebug",
            "-Xrunjdwp:transport=dt_socket,server=y,address=5005",
            "--batch",
            "--command_port=-1",
            "--install_md5=abc",
            "--nowrite_command_log",
        ])
    );
}

#[test]
fn server_arguments_from_a_lower_case_name() {
    let o = StartupOptions::new("Bazel", "/var/tmp", "alice");
    assert_eq!(
        server_exe_args_for("blaze", "m", "/w/x", &o),
        strings(&[
            "blaze(x)",
            "-XX:+HeapDumpOnOutOfMemoryError",
            "-Xverify:none",
            "-Dfile.encoding=ISO-8859-1",
            "--install_md5=m",
            "--write_command_log",
        ])
    );
    assert_eq!(output_user_root_for("/o", "blaze", "bob"), "/o/_blaze_bob");
}

#[test]
fn forwarded_arguments() {
    let mut info = LoggingInfo::new("/usr/bin/bazel".to_string(), 5);
    let t = CommandTiming { client_startup_ms: 12, extract_data_ms: 0, command_wait_ms: 0 };
    assert_eq!(
        build_arg_vector("version", &Vec::new(), &info, t),
        strings(&["version", "--startup_time=12", "--binary_path=/usr/bin/bazel"])
    );
    info.set_restart_reason_if_not_set(RestartReason::NewOptions);
    info.set_restart_reason_if_not_set(RestartReason::NewVersion);
    let t = CommandTiming { client_startup_ms: 0, extract_data_ms: 7, command_wait_ms: 3 };
    assert_eq!(
        build_arg_vector("build", &strings(&["//a", "-k"]), &info, t),
        strings(&[
            "build",
            "--startup_time=0",
            "--command_wait_time=3",
            "--extract_data_time=7",
            "--restart_reason=new_options",
            "--binary_path=/usr/bin/bazel",
            "//a",
            "-k",
        ])
    );
    assert_eq!(build_arg_vector("", &strings(&["a"]), &info, t), strings(&["a"]));
}

#[test]
fn restart_reason_names() {
    assert_eq!(RestartReason::NoRestart.to_string(), "no_restart");
    assert_eq!(RestartReason::PidFileButNoServer.to_string(), "pid_file_but_no_server");
    assert_eq!(RestartReason::ServerUnresponsive.to_string(), "server_unresponsive");
}

#[test]
fn modes() {
    assert!(is_server_mode("exec-server"));
    assert!(!is_server_mode("build"));
    assert_eq!(select_launch_mode("exec-server", true), LaunchMode::Server);
    assert_eq!(select_launch_mode("build", true), LaunchMode::Batch);
    assert_eq!(select_launch_mode("build", false), LaunchMode::ClientServer);
    assert!(is_version_request(&strings(&["bazel", "--version"])));
    assert!(!is_version_request(&strings(&["bazel", "version"])));
    assert!(!is_version_request(&strings(&["bazel", "--version", "x"])));
}

#[test]
fn option_source_escaping() {
    assert_eq!(escape_for_option_source("a_b:c"), "a_Ub_Cc");
    assert_eq!(escape_for_option_source("_:"), "_U_C");
    assert_eq!(escape_for_option_source(""), "");
}

#[test]
fn binary_path() {
    assert_eq!(check_and_get_binary_path("/cwd", "/abs/bazel", None), "/abs/bazel");
    assert_eq!(check_and_get_binary_path("/cwd", "bin/bazel", None), "/cwd/bin/bazel");
    assert_eq!(check_and_get_binary_path("/cwd", "bin/bazel", Some("/real/bazel")), "/real/bazel");
}

#[test]
fn path_flags() {
    assert_eq!(absolute_path_from_flag("", "/cwd", "/home/u"), "/cwd");
    assert_eq!(absolute_path_from_flag("~/x", "/cwd", "/home/u"), "/home/u/x");
    assert_eq!(absolute_path_from_flag("/abs", "/cwd", "/home/u"), "/abs");
    assert_eq!(absolute_path_from_flag("rel", "/cwd", "/home/u"), "/cwd/rel");
}

#[test]
fn server_environment() {
    let present = strings(&["PATH", "LD_PRELOAD", "_JAVA_OPTIONS"]);
    let c = server_env_changes(&present, Some("en_US.ISO-8859-1"));
    let names: Vec<&str> = c.iter().map(|x| x.name.as_str()).collect();
    assert_eq!(names, vec!["LD_PRELOAD", "_JAVA_OPTIONS", "LANG", "LANGUAGE", "LC_ALL", "LC_CTYPE"]);
    assert_eq!(c[0].change.action, EnvVarAction::Unset);
    assert_eq!(c[2].change.action, EnvVarAction::Assign);
    assert_eq!(c[5].change.value, "en_US.ISO-8859-1");
    assert!(server_env_changes(&Vec::new(), None).is_empty());
}

#[test]
fn plain_defaults() {
    let o = StartupOptions::default();
    assert_eq!(o.product_name, "Bazel");
    assert_eq!(o.server_jvm_out, Some(String::new()));
    assert!(!o.block_for_lock);
    assert!(!o.write_command_log);
    assert_eq!(o.connect_timeout_secs, 0);
    assert_eq!(o.io_nice_level, 0);
}
