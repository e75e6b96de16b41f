//! Client-side launcher core for a build tool that runs a long-lived server
//! per workspace output directory: option handling, server reconciliation,
//! the command session protocol and its cancellation latch.

pub mod text;
pub mod exit_code;
pub mod logging;
pub mod cmdline;
pub mod cancel;
pub mod session;
pub mod lifecycle;
pub mod options;
pub mod paths;
pub mod startup_options;
pub mod option_processor;
pub mod bazel_util;
pub mod workspace_layout;
pub mod server_process_info;
pub mod archive_utils;
pub mod launcher;
pub mod locator;
pub mod net;
pub mod rc_file;
