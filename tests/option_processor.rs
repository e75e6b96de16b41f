use bazel::option_processor::{CommandLine, OptionProcessor};
use bazel::startup_options::StartupOptions;

fn option_processor() -> OptionProcessor {
    OptionProcessor::new(StartupOptions::new("Bazel", "/var/tmp", "user"))
}

#[test]
fn split_command_line_with_empty_args() {
    let args = Vec::<String>::new();
    let got = option_processor().split_command_line(args);
    assert_eq!(
        got.err().unwrap(),
        String::from("Unable to split command line, args is empty")
    )
}

#[test]
fn split_command_line_with_all_params() {
    let args = vec![
        "bazel".to_string(),
        "--nomaster_bazelrc".to_string(),
        "build".to_string(),
        "--bar".to_string(),
        ":mytarget".to_string(),
    ];
    let got = option_processor().split_command_line(args);
    assert_eq!(
        got.unwrap(),
        CommandLine {
            path_to_binary: "bazel".to_string(),
            startup_args: vec!["--nomaster_bazelrc".to_string()],
            command: "build".to_string(),
            command_args: vec!["--bar".to_string(), ":mytarget".to_string()],
        }
    );
}

#[test]
fn split_command_line_with_absolute_path_to_binary() {
    let args = vec![
        "mybazel".to_string(),
        "build".to_string(),
        ":mytarget".to_string(),
    ];
    let got = option_processor().split_command_line(args);
    assert_eq!(
        got.unwrap(),
        CommandLine {
            path_to_binary: "mybazel".to_string(),
            startup_args: Default::default(),
            command: "build".to_string(),
            command_args: vec![":mytarget".to_string()],
        }
    );
}

#[test]
fn split_command_line_with_unary_startup_with_equal() {
    let args = vec![
        "bazel".to_string(),
        "--bazelrc=foo".to_string(),
        "build".to_string(),
        ":mytarget".to_string(),
    ];
    let got = option_processor().split_command_line(args);
    assert_eq!(
        got.unwrap(),
        CommandLine {
            path_to_binary: "bazel".to_string(),
            startup_args: vec!["--bazelrc=foo".to_string()],
            command: "build".to_string(),
            command_args: vec![":mytarget".to_string()],
        }
    );
}

#[test]
fn split_command_line_with_unary_startup_without_equal() {
    let args = vec![
        "bazel".to_string(),
        "--bazelrc".to_string(),
        "foo".to_string(),
        "build".to_string(),
        ":mytarget".to_string(),
    ];
    let got = option_processor().split_command_line(args);
    assert_eq!(
        got.unwrap(),
        CommandLine {
            path_to_binary: "bazel".to_string(),
            startup_args: vec!["--bazelrc=foo".to_string()],
            command: "build".to_string(),
            command_args: vec![":mytarget".to_string()],
        }
    );
}

#[test]
fn split_command_line_with_incomplete_unary_option() {
    let args = vec!["bazel".to_string(), "--bazelrc".to_string()];
    let got = option_processor().split_command_line(args);
    assert_eq!(got.err().unwrap(), String::from("Startup option '--bazelrc' expects a value.\nUsage: '--bazelrc=somevalue' or '--bazelrc somevalue'.\n  For more info, run 'bazel help startup_options'."));
}

#[test]
fn split_command_line_with_multiple_startup() {
    let args = vec![
        "bazel".to_string(),
        "--bazelrc".to_string(),
        "foo".to_string(),
        "--nomaster_bazelrc".to_string(),
        "build".to_string(),
        ":mytarget".to_string(),
    ];
    let got = option_processor().split_command_line(args);
    assert_eq!(
        got.unwrap(),
        CommandLine {
            path_to_binary: "bazel".to_string(),
            startup_args: vec![
                "--bazelrc=foo".to_string(),
                "--nomaster_bazelrc".to_string()
            ],
            command: "build".to_string(),
            command_args: vec![":mytarget".to_string()],
        }
    );
}

#[test]
fn split_command_line_with_no_startup_args() {
    let args = vec![
        "bazel".to_string(),
        "build".to_string(),
        ":mytarget".to_string(),
    ];
    let got = option_processor().split_command_line(args);
    assert_eq!(
        got.unwrap(),
        CommandLine {
            path_to_binary: "bazel".to_string(),
            startup_args: Default::default(),
            command: "build".to_string(),
            command_args: vec![":mytarget".to_string()],
        }
    );
}

#[test]
fn split_command_line_with_no_command_args() {
    let args = vec!["bazel".to_string(), "build".to_string()];
    let got = option_processor().split_command_line(args);
    assert_eq!(
        got.unwrap(),
        CommandLine {
            path_to_binary: "bazel".to_string(),
            startup_args: Default::default(),
            command: "build".to_string(),
            command_args: Default::default(),
        }
    );
}

#[test]
fn split_command_line_with_bazel_help() {
    let args = vec!["bazel".to_string(), "help".to_string()];
    let got = option_processor().split_command_line(args);
    assert_eq!(
        got.unwrap(),
        CommandLine {
            path_to_binary: "bazel".to_string(),
            startup_args: Default::default(),
            command: "help".to_string(),
            command_args: Default::default(),
        }
    );
}

#[test]
fn split_command_line_with_bazel_version() {
    let args = vec!["bazel".to_string(), "version".to_string()];
    let got = option_processor().split_command_line(args);
    assert_eq!(
        got.unwrap(),
        CommandLine {
            path_to_binary: "bazel".to_string(),
            startup_args: Default::default(),
            command: "version".to_string(),
            command_args: Default::default(),
        }
    );
}

#[test]
fn split_command_line_with_multiple_command_args() {
    let args = vec![
        "bazel".to_string(),
        "build".to_string(),
        "--foo".to_string(),
        "-s".to_string(),
        ":mytarget".to_string(),
    ];
    let got = option_processor().split_command_line(args);
    assert_eq!(
        got.unwrap(),
        CommandLine {
            path_to_binary: "bazel".to_string(),
            startup_args: Default::default(),
            command: "build".to_string(),
            command_args: vec![
                "--foo".to_string(),
                "-s".to_string(),
                ":mytarget".to_string()
            ],
        }
    );
}

#[test]
fn split_command_line_with_dash_in_startup_args() {
    let args = vec!["bazel".to_string(), "--".to_string()];
    let got = option_processor().split_command_line(args);
    assert_eq!(
        got.err().unwrap(),
        String::from(
            "Unknown startup option: '--'.\n  For more info, run 'bazel help startup_options'."
        )
    );
}

#[test]
fn split_command_line_with_dash_dash() {
    let args = vec![
        "bazel".to_string(),
        "--nomaster_bazelrc".to_string(),
        "build".to_string(),
        "--b".to_string(),
        "--".to_string(),
        ":mytarget".to_string(),
    ];
    let got = option_processor().split_command_line(args);
    assert_eq!(
        got.unwrap(),
        CommandLine {
            path_to_binary: "bazel".to_string(),
            startup_args: vec!["--nomaster_bazelrc".to_string()],
            command: "build".to_string(),
            command_args: vec!["--b".to_string(), "--".to_string(), ":mytarget".to_string()],
        }
    );
}
