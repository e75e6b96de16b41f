use bazel::archive_utils::{extract_archive_or_die, get_server_jar_path, PartialZipExtractor};
use bazel::exit_code::ExitCode;
use bazel::server_process_info::ServerProcessInfo;
use bazel::workspace_layout::{
    find_workspace, get_output_root, in_workspace, parent_path, pretty_workspace_name,
    workspace_candidates, workspace_rc_path, workspace_relativize_rc_file_path,
};

fn strings(v: &[&str]) -> Vec<String> {
    v.iter().map(|s| s.to_string()).collect()
}

#[test]
fn candidates_walk_up_to_the_root() {
    assert_eq!(workspace_candidates("/a/b/c"), strings(&["/a/b/c", "/a/b", "/a", "/"]));
    assert_eq!(workspace_candidates("/"), strings(&["/"]));
    assert_eq!(workspace_candidates("rel"), strings(&["rel"]));
    assert_eq!(parent_path("/a"), Some("/".to_string()));
    assert_eq!(parent_path("/"), None);
}

#[test]
fn nearest_marked_directory_is_the_workspace() {
    let c = strings(&["/a/b/c", "/a/b", "/a", "/"]);
    assert_eq!(find_workspace(&c, &vec![false, true, true, false]), Ok("/a/b".to_string()));
    assert_eq!(
        find_workspace(&c, &vec![false, false, false, false]),
        Err("could not find workspace".to_string())
    );
    assert!(in_workspace(&vec![false, true]));
    assert!(!in_workspace(&vec![false, false]));
}

#[test]
fn workspace_paths() {
    assert_eq!(get_output_root(), "/var/tmp");
    assert_eq!(workspace_rc_path("/ws"), "/ws/tools/bazel.rc");
    assert_eq!(pretty_workspace_name("/home/u/myproject"), "myproject");
    assert_eq!(
        workspace_relativize_rc_file_path("/ws", "%workspace%/tools/x.rc"),
        "/ws/tools/x.rc"
    );
    assert_eq!(workspace_relativize_rc_file_path("/ws", "/abs.rc"), "/abs.rc");
}

#[test]
fn server_log_file() {
    let p = ServerProcessInfo::new("/ob", None);
    assert_eq!(p.jvm_log_file, "/ob/server/jvm.out");
    assert!(!p.jvm_log_file_append);
    assert_eq!(p.server_pid, -1);
    let q = ServerProcessInfo::new("/ob", Some("/tmp/jvm.log"));
    assert_eq!(q.jvm_log_file, "/tmp/jvm.log");
    assert!(q.jvm_log_file_append);
}

#[test]
fn archive_scan_stops_at_the_install_key() {
    let mut x = PartialZipExtractor::new("install_base_key");
    assert!(!x.accept("A-server.jar", false));
    assert!(!x.accept("dir/", false));
    assert!(!x.accept("embedded_tools", true));
    assert!(x.accept("install_base_key", false));
    x.process(b"abc".to_vec());
    let (names, value) = x.finish("/bin/bazel").ok().unwrap();
    assert_eq!(names, strings(&["A-server.jar", "install_base_key"]));
    assert_eq!(value, b"abc".to_vec());
    let y = PartialZipExtractor::new("install_base_key");
    assert_eq!(y.finish("/bin/bazel").err().unwrap().code, ExitCode::LocalEnvironmentalError);
}

#[test]
fn server_jar_is_the_first_member() {
    assert_eq!(get_server_jar_path(&strings(&["a.jar", "b"])).ok(), Some("a.jar".to_string()));
    assert_eq!(
        get_server_jar_path(&Vec::new()).err().unwrap().code,
        ExitCode::LocalEnvironmentalError
    );
}

#[test]
fn replaced_binary_is_detected() {
    assert!(extract_archive_or_die("/b", "Bazel", "abc", "abc").is_ok());
    let e = extract_archive_or_die("/b", "Bazel", "abc", "def").err().unwrap();
    assert_eq!(e.code, ExitCode::LocalEnvironmentalError);
}

