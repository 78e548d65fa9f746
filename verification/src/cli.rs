//! The command line: its commands, and how their failures become exit codes.

use vstd::prelude::*;

use crate::error::{AppError, AppErrorView};

verus! {

/// The parsed command line.
#[derive(Debug)]
pub struct Cli {
    pub command: Commands,
}

/// The subcommands of the tool.
#[derive(Debug)]
pub enum Commands {
    /// Validate a server configuration file
    Validate { config: String, mods_dir: Option<String> },
    /// Render Kubernetes manifests from configuration
    Render { config: String, output: Option<String> },
    /// Validate Kubernetes manifest YAML on disk
    CheckManifests { path: String },
    /// TCP probe for Kubernetes health checks
    Probe { host: String, port: u16, timeout_secs: u64 },
    /// Write eula.txt when accepted
    WriteEula { output: String },
}

/// The exit code of the process for an error.
pub open spec fn code_of(e: AppErrorView) -> i32 {
    match e {
        AppErrorView::EulaNotAccepted => 3,
        AppErrorView::Config(_) => 4,
        AppErrorView::InvalidMod { .. } => 5,
        AppErrorView::Manifest(_) => 6,
        AppErrorView::Io { .. } => 7,
        AppErrorView::ProbeFailed(code) => code,
        AppErrorView::Rcon(_) => 1,
        AppErrorView::Dashboard(_) => 1,
    }
}

/// The exit code of the process for an error.
pub fn exit_code(err: &AppError) -> (code: i32)
    ensures
        code == code_of(err@),
{
    match err {
        AppError::EulaNotAccepted => 3,
        AppError::Config(_) => 4,
        AppError::InvalidMod { .. } => 5,
        AppError::Manifest(_) => 6,
        AppError::Io { .. } => 7,
        AppError::ProbeFailed(code) => *code,
        AppError::Rcon(_) => 1,
        AppError::Dashboard(_) => 1,
    }
}

/// The result of the `probe` command for the probe's exit code: success
/// for 0, else a failure carrying the code.
pub fn cmd_probe(code: i32) -> (r: Result<(), AppError>)
    ensures
        code == 0 ==> r is Ok,
        code != 0 ==> (r matches Err(e) && e@ == AppErrorView::ProbeFailed(code)),
{
    if code != 0 {
        return Err(AppError::ProbeFailed(code));
    }
    Ok(())
}

} // verus!
