use bazel::options::{
    get_nullary_option, get_unary_option, is_arg, search_nullary_option, search_unary_option,
};
use bazel::exit_code::ExitCode;
use bazel::startup_options::{
    check_valid_nullary, is_nullary, is_unary, BazelStartupOptions, StartupOptions,
    StartupOptionsTrait,
};

fn strings(v: &[&str]) -> Vec<String> {
    v.iter().map(|s| s.to_string()).collect()
}

#[test]
fn args_are_flags_but_not_help() {
    assert!(is_arg("--batch"));
    assert!(is_arg("-s"));
    assert!(!is_arg("--help"));
    assert!(!is_arg("-help"));
    assert!(!is_arg("-h"));
    assert!(!is_arg("build"));
    assert!(!is_arg(""));
}

#[test]
fn nullary_option_matches_exactly() {
    assert_eq!(get_nullary_option("--batch", "--batch").ok(), Some(true));
    assert_eq!(get_nullary_option("--batchx", "--batch").ok(), Some(false));
    assert_eq!(get_nullary_option("--other", "--batch").ok(), Some(false));
    let e = get_nullary_option("--batch=1", "--batch").err().unwrap();
    assert_eq!(e.code, ExitCode::BadArgv);
    assert_eq!(e.reason, "In argument '--batch=1': option '--batch' does not take a value.");
}

#[test]
fn nullary_search_takes_the_last_occurrence() {
    let args = strings(&["--batch", "--nobatch"]);
    assert_eq!(search_nullary_option(&args, "batch", true).ok(), Some(false));
    let args = strings(&["--nobatch", "--batch"]);
    assert_eq!(search_nullary_option(&args, "batch", false).ok(), Some(true));
    let args = strings(&["--other"]);
    assert_eq!(search_nullary_option(&args, "batch", true).ok(), Some(true));
    let args = strings(&["--", "--batch"]);
    assert_eq!(search_nullary_option(&args, "batch", false).ok(), Some(false));
    let args = strings(&["--batch=yes"]);
    assert_eq!(search_nullary_option(&args, "batch", false).err().unwrap().code, ExitCode::BadArgv);
}

#[test]
fn unary_option_forms() {
    assert_eq!(get_unary_option("--output_base=/x", None, "--output_base"), Some("/x".to_string()));
    assert_eq!(get_unary_option("--output_base", Some("/y"), "--output_base"), Some("/y".to_string()));
    assert_eq!(get_unary_option("--output_base", None, "--output_base"), None);
    assert_eq!(get_unary_option("--output_basex=1", None, "--output_base"), None);
    assert_eq!(get_unary_option("--other=1", None, "--output_base"), None);
}

#[test]
fn unary_search_takes_the_first_occurrence() {
    let args = strings(&["--a", "--output_base=/1", "--output_base", "/2"]);
    assert_eq!(search_unary_option(&args, "--output_base"), Some("/1".to_string()));
    let args = strings(&["--output_base", "/2"]);
    assert_eq!(search_unary_option(&args, "--output_base"), Some("/2".to_string()));
    let args = strings(&["--", "--output_base=/1"]);
    assert_eq!(search_unary_option(&args, "--output_base"), None);
    assert_eq!(search_unary_option(&Vec::new(), "--output_base"), None);
    let args = strings(&["--output_base=/last"]);
    assert_eq!(search_unary_option(&args, "--output_base"), Some("/last".to_string()));
}

#[test]
fn flag_table() {
    assert!(is_nullary("--batch"));
    assert!(is_nullary("--nobatch"));
    assert!(is_nullary("--nomaster_bazelrc"));
    assert!(!is_nullary("--bazelrc"));
    assert!(is_unary("--bazelrc"));
    assert!(is_unary("--output_base=/x"));
    assert!(!is_unary("--batch"));
    assert_eq!(check_valid_nullary("--batch"), Ok(true));
    assert_eq!(check_valid_nullary("--foo=1"), Ok(false));
    assert_eq!(
        check_valid_nullary("--batch=1"),
        Err("In argument '--batch=1': option '--batch' does not take a value.".to_string())
    );
}

#[test]
fn bazelrc_flag_is_taken_from_the_command_line_only() {
    let mut o = BazelStartupOptions::new();
    assert_eq!(o.process_arg_extra("--bazelrc=/my.rc", None, "").ok(), Some(true));
    assert_eq!(o.user_bazelrc, "/my.rc");
    assert_eq!(o.process_arg_extra("--batch", None, "").ok(), Some(false));
    let e = o.process_arg_extra("--bazelrc", Some("/x.rc"), "/etc/bazel.bazelrc").err().unwrap();
    assert_eq!(e.code, ExitCode::BadArgv);
    assert_eq!(e.reason, "Can't specify --bazelrc in the RC file.");
    assert_eq!(o.user_bazelrc, "/my.rc");
}

#[test]
fn product_options_contribute_server_arguments() {
    check_server_arguments(&StartupOptions::new("Bazel", "/var/tmp", "u"));
}

fn check_server_arguments<T: StartupOptionsTrait>(o: &T) {
    let mut args = vec!["x".to_string()];
    o.add_jvm_argument_suffix("/ib", "A-server.jar", &mut args);
    assert_eq!(args, vec!["x".to_string(), "-jar".to_string(), "/ib/A-server.jar".to_string()]);
    assert_eq!(o.get_exe("/jdk/bin/java", "A-server.jar"), "/jdk/bin/java");
    let mut extra = Vec::new();
    o.add_extra_options(&mut extra);
    assert_eq!(extra, vec!["--noincompatible_enable_execution_transition".to_string()]);
}
