//! The startup options of one invocation and the table of startup flags the
//! client knows: which take no value (`--name` / `--noname`) and which take
//! one (`--name=value` or `--name value`).

use vstd::prelude::*;
use crate::exit_code::{ExitCode, ExitError};
use crate::options::{get_unary_option, unary_value};
use crate::paths::{join_path, join_path_spec};
use crate::text::{chars_of, string_of, str_eq, push_str, first_index_of, find_char, views, lemma_views_push};

verus! {

/// A startup flag together with where it was given (an rc file, or the
/// command line when `source` is empty).
pub struct RcStartupFlag {
    pub source: String,
    pub value: String,
}

impl RcStartupFlag {
    pub fn new(source: String, value: String) -> (r: RcStartupFlag)
        ensures
            r.source@ == source@,
            r.value@ == value@,
    {
        RcStartupFlag { source, value }
    }
}

/// The names of the startup flags that take no value.
pub open spec fn nullary_flag_names() -> Seq<Seq<char>> {
    seq![
        "batch"@, "batch_cpu_scheduling"@, "block_for_lock"@, "client_debug"@, "preemptible"@,
        "expand_configs_in_place"@, "fatal_event_bus_exceptions"@, "host_jvm_debug"@,
        "autodetect_server_javabase"@, "idle_server_tasks"@,
        "incompatible_enable_execution_transition"@, "shutdown_on_low_sys_mem"@,
        "ignore_all_rc_files"@, "unlimit_coredumps"@, "watchfs"@, "write_command_log"@,
        "windows_enable_symlinks"@, "home_rc"@, "master_bazelrc"@, "system_rc"@,
        "workspace_rc"@,
    ]
}

/// The names of the startup flags that take a value.
pub open spec fn unary_flag_names() -> Seq<Seq<char>> {
    seq![
        "command_port"@, "connect_timeout_secs"@, "local_startup_timeout_secs"@,
        "digest_function"@, "unix_digest_hash_attribute_name"@, "server_javabase"@,
        "host_jvm_args"@, "host_jvm_profile"@, "invocation_policy"@, "io_nice_level"@,
        "install_base"@, "macos_qos_class"@, "max_idle_secs"@, "output_base"@,
        "output_user_root"@, "server_jvm_out"@, "failure_detail_out"@, "bazelrc"@,
    ]
}

fn nullary_names() -> (r: Vec<&'static str>)
    ensures
        r@.map_values(|s: &'static str| s@) == nullary_flag_names(),
{
    let r = vec![
        "batch", "batch_cpu_scheduling", "block_for_lock", "client_debug", "preemptible",
        "expand_configs_in_place", "fatal_event_bus_exceptions", "host_jvm_debug",
        "autodetect_server_javabase", "idle_server_tasks",
        "incompatible_enable_execution_transition", "shutdown_on_low_sys_mem",
        "ignore_all_rc_files", "unlimit_coredumps", "watchfs", "write_command_log",
        "windows_enable_symlinks", "home_rc", "master_bazelrc", "system_rc", "workspace_rc",
    ];
    assert(r@.map_values(|s: &'static str| s@) =~= nullary_flag_names());
    r
}

fn unary_names() -> (r: Vec<&'static str>)
    ensures
        r@.map_values(|s: &'static str| s@) == unary_flag_names(),
{
    let r = vec![
        "command_port", "connect_timeout_secs", "local_startup_timeout_secs", "digest_function",
        "unix_digest_hash_attribute_name", "server_javabase", "host_jvm_args", "host_jvm_profile",
        "invocation_policy", "io_nice_level", "install_base", "macos_qos_class", "max_idle_secs",
        "output_base", "output_user_root", "server_jvm_out", "failure_detail_out", "bazelrc",
    ];
    assert(r@.map_values(|s: &'static str| s@) =~= unary_flag_names());
    r
}

/// `flag` is `--name` or `--noname` for a flag that takes no value.
pub open spec fn is_nullary_flag(flag: Seq<char>) -> bool {
    exists|i: int|
        0 <= i < nullary_flag_names().len() && (flag == "--"@ + #[trigger] nullary_flag_names()[i]
            || flag == "--no"@ + nullary_flag_names()[i])
}

/// `flag` is `--name` for a flag that takes a value.
pub open spec fn is_unary_flag(flag: Seq<char>) -> bool {
    exists|i: int| 0 <= i < unary_flag_names().len() && flag == "--"@ + #[trigger] unary_flag_names()[i]
}

fn prefixed(prefix: &str, name: &str) -> (r: String)
    ensures
        r@ == prefix@ + name@,
{
    let mut s = String::from_str(prefix);
    push_str(&mut s, name);
    s
}

/// Whether `flag` is a flag that takes no value, in either form.
pub fn is_nullary(flag: &str) -> (r: bool)
    ensures
        r == is_nullary_flag(flag@),
{
    let names = nullary_names();
    let ghost spec_names = nullary_flag_names();
    let mut i: usize = 0;
    while i < names.len()
        invariant
            i <= names@.len(),
            names@.map_values(|s: &'static str| s@) == spec_names,
            spec_names == nullary_flag_names(),
            forall|j: int|
                0 <= j < i ==> flag@ != "--"@ + #[trigger] spec_names[j] && flag@ != "--no"@
                    + spec_names[j],
        decreases names@.len() - i,
    {
        assert(spec_names[i as int] == names@[i as int]@);
        let p = prefixed("--", names[i]);
        let n = prefixed("--no", names[i]);
        if str_eq(flag, p.as_str()) || str_eq(flag, n.as_str()) {
            return true;
        }
        i = i + 1;
    }
    false
}

/// Whether `flag` is a flag that takes a value.
pub fn is_unary_name(flag: &str) -> (r: bool)
    ensures
        r == is_unary_flag(flag@),
{
    let names = unary_names();
    let ghost spec_names = unary_flag_names();
    let mut i: usize = 0;
    while i < names.len()
        invariant
            i <= names@.len(),
            names@.map_values(|s: &'static str| s@) == spec_names,
            spec_names == unary_flag_names(),
            forall|j: int| 0 <= j < i ==> flag@ != "--"@ + #[trigger] spec_names[j],
        decreases names@.len() - i,
    {
        assert(spec_names[i as int] == names@[i as int]@);
        let p = prefixed("--", names[i]);
        if str_eq(flag, p.as_str()) {
            return true;
        }
        i = i + 1;
    }
    false
}

/// The part of `arg` before its first '=', or all of it.
pub open spec fn flag_part(arg: Seq<char>) -> Seq<char> {
    match first_index_of(arg, '=') {
        Some(k) => arg.subrange(0, k),
        None => arg,
    }
}

/// `arg` names a flag that takes a value (with or without `=value`).
pub open spec fn is_unary_spec(arg: Seq<char>) -> bool {
    is_unary_flag(flag_part(arg))
}

/// Whether `arg` is a flag that takes a value, given with or without one.
pub fn is_unary(arg: &str) -> (r: bool)
    ensures
        r == is_unary_spec(arg@),
{
    let v = chars_of(arg);
    match find_char(&v, '=') {
        Some(k) => {
            let f = string_of(&v, 0, k);
            is_unary_name(f.as_str())
        },
        None => is_unary_name(arg),
    }
}

/// The message for a nullary flag that was given a value.
pub open spec fn takes_no_value_message(arg: Seq<char>, flag: Seq<char>) -> Seq<char> {
    "In argument '"@ + arg + "': option '"@ + flag + "' does not take a value."@
}

/// Whether `arg` is a nullary flag: `Ok(true)` for `--name` or `--noname`,
/// an error for such a flag given a value, `Ok(false)` otherwise.
pub open spec fn check_valid_nullary_spec(arg: Seq<char>) -> Result<bool, Seq<char>> {
    match first_index_of(arg, '=') {
        None => Ok(is_nullary_flag(arg)),
        Some(k) => if is_nullary_flag(arg.subrange(0, k)) {
            Err(takes_no_value_message(arg, arg.subrange(0, k)))
        } else {
            Ok(false)
        },
    }
}

/// Checks whether `arg` is a valid nullary flag.
pub fn check_valid_nullary(arg: &str) -> (r: Result<bool, String>)
    ensures
        match check_valid_nullary_spec(arg@) {
            Ok(b) => r matches Ok(x) && x == b,
            Err(m) => r matches Err(e) && e@ == m,
        },
{
    let v = chars_of(arg);
    match find_char(&v, '=') {
        None => Ok(is_nullary(arg)),
        Some(k) => {
            let f = string_of(&v, 0, k);
            if is_nullary(f.as_str()) {
                let mut m = String::from_str("In argument '");
                push_str(&mut m, arg);
                push_str(&mut m, "': option '");
                push_str(&mut m, f.as_str());
                push_str(&mut m, "' does not take a value.");
                assert(m@ =~= takes_no_value_message(arg@, f@));
                Err(m)
            } else {
                Ok(false)
            }
        },
    }
}

/// The options that shape the server of one invocation.
pub struct StartupOptions {
    pub product_name: String,
    pub server_jvm_out: Option<String>,
    pub failure_detail_out: Option<String>,
    pub output_base: Option<String>,
    pub install_base: String,
    pub output_root: String,
    pub output_user_root: String,
    pub ignore_all_rc_files: bool,
    pub block_for_lock: bool,
    pub host_jvm_debug: bool,
    pub autodetect_server_javabase: bool,
    pub host_jvm_profile: String,
    pub host_jvm_args: Vec<String>,
    pub batch: bool,
    pub batch_cpu_scheduling: bool,
    pub io_nice_level: i32,
    pub max_idle_secs: i32,
    pub shutdown_on_low_sys_mem: bool,
    pub oom_more_eagerly: bool,
    pub oom_more_eagerly_threshold: i32,
    pub write_command_log: bool,
    pub watchfs: bool,
    pub fatal_event_bus_exceptions: bool,
    pub client_debug: bool,
    pub preemptible: bool,
    pub connect_timeout_secs: u64,
    pub local_startup_timeout_secs: u64,
    pub command_port: Option<i32>,
    pub invocation_policy: String,
    pub original_startup_options: Vec<RcStartupFlag>,
    pub incompatible_enable_execution_transition: bool,
}

/// The default user root: `<output_root>/_<product>_<user>`, the product
/// name in lower case.
pub open spec fn output_user_root_spec(output_root: Seq<char>, lower_product: Seq<char>, user_name: Seq<char>) -> Seq<char> {
    join_path_spec(output_root, "_"@ + lower_product + "_"@ + user_name)
}

impl Default for StartupOptions {
    /// Options with every flag off and every path empty: the state before a
    /// product fills in its defaults.
    fn default() -> (r: StartupOptions)
        ensures
            r.product_name@ == "Bazel"@,
            r.server_jvm_out matches Some(p) && p@.len() == 0,
            r.failure_detail_out is None,
            r.output_base is None,
            r.install_base@.len() == 0,
            r.output_root@.len() == 0,
            r.output_user_root@.len() == 0,
            !r.ignore_all_rc_files,
            !r.block_for_lock,
            !r.host_jvm_debug,
            !r.autodetect_server_javabase,
            r.host_jvm_profile@.len() == 0,
            r.host_jvm_args@.len() == 0,
            !r.batch,
            !r.batch_cpu_scheduling,
            r.io_nice_level == 0,
            r.max_idle_secs == 0,
            !r.shutdown_on_low_sys_mem,
            !r.oom_more_eagerly,
            r.oom_more_eagerly_threshold == 0,
            !r.write_command_log,
            !r.watchfs,
            !r.fatal_event_bus_exceptions,
            !r.client_debug,
            !r.preemptible,
            r.connect_timeout_secs == 0,
            r.local_startup_timeout_secs == 0,
            r.command_port is None,
            r.invocation_policy@.len() == 0,
            r.original_startup_options@.len() == 0,
            !r.incompatible_enable_execution_transition,
    {
        StartupOptions {
            product_name: String::from_str("Bazel"),
            server_jvm_out: Some(String::new()),
            failure_detail_out: None,
            output_base: None,
            install_base: String::new(),
            output_root: String::new(),
            output_user_root: String::new(),
            ignore_all_rc_files: false,
            block_for_lock: false,
            host_jvm_debug: false,
            autodetect_server_javabase: false,
            host_jvm_profile: String::new(),
            host_jvm_args: Vec::new(),
            batch: false,
            batch_cpu_scheduling: false,
            io_nice_level: 0,
            max_idle_secs: 0,
            shutdown_on_low_sys_mem: false,
            oom_more_eagerly: false,
            oom_more_eagerly_threshold: 0,
            write_command_log: false,
            watchfs: false,
            fatal_event_bus_exceptions: false,
            client_debug: false,
            preemptible: false,
            connect_timeout_secs: 0,
            local_startup_timeout_secs: 0,
            command_port: None,
            invocation_policy: String::new(),
            original_startup_options: Vec::new(),
            incompatible_enable_execution_transition: false,
        }
    }
}

/// The default user root, given the product name in lower case.
pub fn output_user_root_for(output_root: &str, lower_product: &str, user_name: &str) -> (r: String)
    ensures
        r@ == output_user_root_spec(output_root@, lower_product@, user_name@),
{
    let mut leaf = String::from_str("_");
    push_str(&mut leaf, lower_product);
    push_str(&mut leaf, "_");
    push_str(&mut leaf, user_name);
    join_path(output_root, leaf.as_str())
}

/// Names what `str::to_lowercase` returns for a string.
pub uninterp spec fn lower_of(s: Seq<char>) -> Seq<char>;

/// Relies on `str::to_lowercase`: the lower-case form, which depends on the
/// characters alone; the empty string stays empty.
#[verifier::external_body]
fn to_lowercase(s: &str) -> (r: String)
    ensures
        r@ == lower_of(s@),
        s@.len() == 0 ==> r@.len() == 0,
{
    s.to_lowercase()
}

impl StartupOptions {
    /// The defaults for `product_name`, for a user `user_name` whose output
    /// trees live under `output_root`.
    pub fn new(product_name: &str, output_root: &str, user_name: &str) -> (r: StartupOptions)
        ensures
            r.product_name@ == product_name@,
            r.output_root@ == output_root@,
            r.output_user_root@ == output_user_root_spec(output_root@, lower_of(product_name@), user_name@),
            r.server_jvm_out is None,
            r.failure_detail_out is None,
            r.output_base is None,
            r.install_base@.len() == 0,
            !r.ignore_all_rc_files,
            r.block_for_lock,
            !r.host_jvm_debug,
            r.autodetect_server_javabase,
            r.host_jvm_profile@.len() == 0,
            r.host_jvm_args@.len() == 0,
            !r.batch,
            !r.batch_cpu_scheduling,
            r.io_nice_level == -1,
            r.max_idle_secs == 0,
            !r.shutdown_on_low_sys_mem,
            !r.oom_more_eagerly,
            r.oom_more_eagerly_threshold == 100,
            r.write_command_log,
            !r.watchfs,
            !r.fatal_event_bus_exceptions,
            !r.client_debug,
            !r.preemptible,
            r.connect_timeout_secs == 30,
            r.local_startup_timeout_secs == 120,
            r.command_port is None,
            r.invocation_policy@.len() == 0,
            r.original_startup_options@.len() == 0,
            !r.incompatible_enable_execution_transition,
    {
        let lower = to_lowercase(product_name);
        let output_user_root = output_user_root_for(output_root, lower.as_str(), user_name);
        StartupOptions {
            product_name: String::from_str(product_name),
            server_jvm_out: None,
            failure_detail_out: None,
            output_base: None,
            install_base: String::new(),
            output_root: String::from_str(output_root),
            output_user_root,
            ignore_all_rc_files: false,
            block_for_lock: true,
            host_jvm_debug: false,
            autodetect_server_javabase: true,
            host_jvm_profile: String::new(),
            host_jvm_args: Vec::new(),
            batch: false,
            batch_cpu_scheduling: false,
            io_nice_level: -1,
            max_idle_secs: 0,
            shutdown_on_low_sys_mem: false,
            oom_more_eagerly: false,
            oom_more_eagerly_threshold: 100,
            write_command_log: true,
            watchfs: false,
            fatal_event_bus_exceptions: false,
            client_debug: false,
            preemptible: false,
            connect_timeout_secs: 30,
            local_startup_timeout_secs: 120,
            command_port: None,
            invocation_policy: String::new(),
            original_startup_options: Vec::new(),
            incompatible_enable_execution_transition: false,
        }
    }

    /// The product name in lower case.
    pub fn lowercase_product_name(&self) -> (r: String)
        ensures
            r@ == lower_of(self.product_name@),
    {
        to_lowercase(self.product_name.as_str())
    }
}

/// What a product's startup options contribute to the server's command line.
pub trait StartupOptionsTrait {
    /// The product-specific arguments added to every server's command line.
    spec fn spec_extra_options(&self) -> Seq<Seq<char>>;

    /// Appends the product-specific server arguments.
    fn add_extra_options(&self, result: &mut Vec<String>)
        ensures
            views(final(result)@) == views(old(result)@) + self.spec_extra_options(),
    ;

    /// The program that runs the server: the JVM itself.
    fn get_exe(&self, jvm: &str, jar_path: &str) -> (r: String)
        ensures
            r@ == jvm@,
    ;

    /// Appends the arguments that follow the JVM's own: `-jar` and the
    /// server jar inside the install directory.
    fn add_jvm_argument_suffix(&self, real_install_dir: &str, jar_path: &str, result: &mut Vec<String>)
        ensures
            views(final(result)@) == views(old(result)@) + seq!["-jar"@, join_path_spec(real_install_dir@, jar_path@)],
    ;
}

fn push_jar_suffix(real_install_dir: &str, jar_path: &str, result: &mut Vec<String>)
    ensures
        views(final(result)@) == views(old(result)@) + seq!["-jar"@, join_path_spec(real_install_dir@, jar_path@)],
{
    let a = String::from_str("-jar");
    proof { lemma_views_push(result@, a); }
    result.push(a);
    let b = join_path(real_install_dir, jar_path);
    proof { lemma_views_push(result@, b); }
    result.push(b);
    assert(views(result@) =~= views(old(result)@) + seq!["-jar"@, join_path_spec(real_install_dir@, jar_path@)]);
}

/// The execution-transition flag in its positive or negative form.
pub open spec fn execution_transition_flag(enabled: bool) -> Seq<char> {
    if enabled {
        "--incompatible_enable_execution_transition"@
    } else {
        "--noincompatible_enable_execution_transition"@
    }
}

impl StartupOptionsTrait for StartupOptions {
    open spec fn spec_extra_options(&self) -> Seq<Seq<char>> {
        seq![execution_transition_flag(self.incompatible_enable_execution_transition)]
    }

    fn add_extra_options(&self, result: &mut Vec<String>) {
        let a = if self.incompatible_enable_execution_transition {
            String::from_str("--incompatible_enable_execution_transition")
        } else {
            String::from_str("--noincompatible_enable_execution_transition")
        };
        proof { lemma_views_push(result@, a); }
        result.push(a);
        assert(views(result@) =~= views(old(result)@) + self.spec_extra_options());
    }

    fn get_exe(&self, jvm: &str, jar_path: &str) -> (r: String) {
        String::from_str(jvm)
    }

    fn add_jvm_argument_suffix(&self, real_install_dir: &str, jar_path: &str, result: &mut Vec<String>) {
        push_jar_suffix(real_install_dir, jar_path, result);
    }
}

/// The Bazel-specific startup options: which rc files to read.
pub struct BazelStartupOptions {
    pub user_bazelrc: String,
    pub use_system_rc: bool,
    pub use_workspace_rc: bool,
    pub use_home_rc: bool,
    pub use_master_bazelrc: bool,
}

impl StartupOptionsTrait for BazelStartupOptions {
    open spec fn spec_extra_options(&self) -> Seq<Seq<char>> {
        seq![]
    }

    fn add_extra_options(&self, result: &mut Vec<String>) {
        assert(views(result@) =~= views(result@) + self.spec_extra_options());
    }

    fn get_exe(&self, jvm: &str, jar_path: &str) -> (r: String) {
        String::from_str(jvm)
    }

    fn add_jvm_argument_suffix(&self, real_install_dir: &str, jar_path: &str, result: &mut Vec<String>) {
        push_jar_suffix(real_install_dir, jar_path, result);
    }
}

impl BazelStartupOptions {
    pub fn new() -> (r: BazelStartupOptions)
        ensures
            r.user_bazelrc@.len() == 0,
            r.use_system_rc,
            r.use_workspace_rc,
            r.use_home_rc,
            r.use_master_bazelrc,
    {
        BazelStartupOptions {
            user_bazelrc: String::new(),
            use_system_rc: true,
            use_workspace_rc: true,
            use_home_rc: true,
            use_master_bazelrc: true,
        }
    }

    /// Handles `--bazelrc`: returns whether `arg` (with `next_arg` standing by
    /// for its value) was that flag. The flag may not come from an rc file
    /// (`rcfile` non-empty): that is a `BadArgv` error.
    pub fn process_arg_extra(&mut self, arg: &str, next_arg: Option<&str>, rcfile: &str) -> (r: Result<bool, ExitError>)
        ensures
            ({
                let value = unary_value(arg@, match next_arg {
                    Some(n) => Some(n@),
                    None => None,
                }, "--bazelrc"@);
                &&& (value is None ==> r == Ok::<bool, ExitError>(false) && final(self).user_bazelrc == old(self).user_bazelrc)
                &&& (value is Some && rcfile@.len() > 0 ==> (r matches Err(e) && e.code == ExitCode::BadArgv
                    && e.reason@ == "Can't specify --bazelrc in the RC file."@)
                    && final(self).user_bazelrc == old(self).user_bazelrc)
                &&& (value is Some && rcfile@.len() == 0 ==> r == Ok::<bool, ExitError>(true)
                    && final(self).user_bazelrc@ == value.unwrap())
            }),
            final(self).use_system_rc == old(self).use_system_rc,
            final(self).use_workspace_rc == old(self).use_workspace_rc,
            final(self).use_home_rc == old(self).use_home_rc,
            final(self).use_master_bazelrc == old(self).use_master_bazelrc,
    {
        match get_unary_option(arg, next_arg, "--bazelrc") {
            None => Ok(false),
            Some(v) => {
                if rcfile.unicode_len() > 0 {
                    return Err(
                        ExitError::new(
                            ExitCode::BadArgv,
                            String::from_str("Can't specify --bazelrc in the RC file."),
                        ),
                    );
                }
                self.user_bazelrc = v;
                Ok(true)
            },
        }
    }
}

} // verus!
