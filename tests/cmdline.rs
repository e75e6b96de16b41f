use bazel::cmdline::{
    are_startup_options_different, get_argument_string, is_volatile_arg, split_argument_string,
};

fn strings(v: &[&str]) -> Vec<String> {
    v.iter().map(|s| s.to_string()).collect()
}

#[test]
fn argument_string_joins_with_nul() {
    let args = strings(&["x", "--a=1", "y"]);
    assert_eq!(get_argument_string(&args), "x\0--a=1\0y");
    assert_eq!(get_argument_string(&Vec::new()), "");
    assert_eq!(get_argument_string(&strings(&["only"])), "only");
}

#[test]
fn argument_string_splits_at_nul() {
    assert_eq!(split_argument_string("x\0--a=1\0y"), strings(&["x", "--a=1", "y"]));
    assert_eq!(split_argument_string(""), Vec::<String>::new());
    assert_eq!(split_argument_string("a\0"), strings(&["a", ""]));
    assert_eq!(split_argument_string("\0\0"), strings(&["", "", ""]));
}

#[test]
fn split_undoes_join() {
    let args = strings(&["bazel(ws)", "--install_md5=abc", "--max_idle_secs=5"]);
    assert_eq!(split_argument_string(&get_argument_string(&args)), args);
}

#[test]
fn volatile_flags_are_recognised() {
    assert!(is_volatile_arg("--connect_timeout_secs=30"));
    assert!(is_volatile_arg("--max_idle_secs=5"));
    assert!(is_volatile_arg("--client_debug=true"));
    assert!(is_volatile_arg("--preemptible=false"));
    assert!(is_volatile_arg("--option_sources=a:b"));
    assert!(!is_volatile_arg("--local_startup_timeout_secs=120"));
    assert!(!is_volatile_arg("--client_debug"));
    assert!(!is_volatile_arg("--host_jvm_args=foo"));
    assert!(!is_volatile_arg("--max_idle_secsx=5"));
    assert!(!is_volatile_arg(""));
}

#[test]
fn marker_with_changed_idle_time_is_not_different() {
    let running = split_argument_string("x\0--install_md5=abc\0--max_idle_secs=5");
    let requested = strings(&["x", "--install_md5=abc", "--max_idle_secs=99"]);
    assert!(!are_startup_options_different(&running, &requested));
}

#[test]
fn volatile_values_do_not_make_options_differ() {
    let running = strings(&[
        "x",
        "--connect_timeout_secs=1",
        "--max_idle_secs=2",
        "--client_debug=false",
        "--preemptible=false",
        "--option_sources=a:b",
    ]);
    let requested = strings(&[
        "x",
        "--connect_timeout_secs=9",
        "--max_idle_secs=8",
        "--client_debug=true",
        "--preemptible=true",
        "--option_sources=",
    ]);
    assert!(!are_startup_options_different(&running, &requested));
}

#[test]
fn added_flag_makes_options_differ() {
    let running = strings(&["x", "--install_md5=abc"]);
    let requested = strings(&["x", "--install_md5=abc", "--host_jvm_args=foo"]);
    assert!(are_startup_options_different(&running, &requested));
}

#[test]
fn changed_flag_makes_options_differ() {
    let running = strings(&["x", "--install_md5=abc"]);
    let requested = strings(&["x", "--install_md5=def"]);
    assert!(are_startup_options_different(&running, &requested));
}

#[test]
fn order_does_not_count_but_repetition_does() {
    let running = strings(&["a", "b", "b"]);
    assert!(!are_startup_options_different(&running, &strings(&["b", "a", "b"])));
    assert!(are_startup_options_different(&running, &strings(&["a", "a", "b"])));
}

#[test]
fn empty_lists_do_not_differ() {
    assert!(!are_startup_options_different(&Vec::new(), &Vec::new()));
}

#[test]
fn dropped_volatile_flag_does_not_make_options_differ() {
    let running = strings(&["a", "--max_idle_secs=5"]);
    assert!(!are_startup_options_different(&running, &strings(&["a"])));
    assert!(!are_startup_options_different(&strings(&["a"]), &running));
}

#[test]
fn other_timeouts_are_not_volatile() {
    assert!(are_startup_options_different(
        &strings(&["--local_startup_timeout_secs=1"]),
        &strings(&["--local_startup_timeout_secs=2"])
    ));
}
