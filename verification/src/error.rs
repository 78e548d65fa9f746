//! The error type shared by every part of the tool, and its messages.

use vstd::prelude::*;

use crate::text::{owned, push_signed_decimal, push_str, signed_decimal};

verus! {

/// Everything that can go wrong in the tool.
#[derive(Debug, PartialEq, Eq)]
pub enum AppError {
    Config(String),
    InvalidMod { path: String, reason: String },
    Manifest(String),
    Io { path: String, message: String },
    EulaNotAccepted,
    ProbeFailed(i32),
    Rcon(String),
    Dashboard(String),
}

/// An `AppError` with its texts seen as character sequences.
pub enum AppErrorView {
    Config(Seq<char>),
    InvalidMod { path: Seq<char>, reason: Seq<char> },
    Manifest(Seq<char>),
    Io { path: Seq<char>, message: Seq<char> },
    EulaNotAccepted,
    ProbeFailed(i32),
    Rcon(Seq<char>),
    Dashboard(Seq<char>),
}

impl View for AppError {
    type V = AppErrorView;

    open spec fn view(&self) -> AppErrorView {
        match self {
            AppError::Config(m) => AppErrorView::Config(m@),
            AppError::InvalidMod { path, reason } => AppErrorView::InvalidMod {
                path: path@,
                reason: reason@,
            },
            AppError::Manifest(m) => AppErrorView::Manifest(m@),
            AppError::Io { path, message } => AppErrorView::Io { path: path@, message: message@ },
            AppError::EulaNotAccepted => AppErrorView::EulaNotAccepted,
            AppError::ProbeFailed(c) => AppErrorView::ProbeFailed(*c),
            AppError::Rcon(m) => AppErrorView::Rcon(m@),
            AppError::Dashboard(m) => AppErrorView::Dashboard(m@),
        }
    }
}

/// A result with its error seen through its view.
pub open spec fn outcome<T>(r: Result<T, AppError>) -> Result<T, AppErrorView> {
    match r {
        Ok(v) => Ok(v),
        Err(e) => Err(e@),
    }
}

/// The message shown to the user for an error.
pub open spec fn error_text(e: AppErrorView) -> Seq<char> {
    match e {
        AppErrorView::Config(m) => "configuration error: "@ + m,
        AppErrorView::InvalidMod { path, reason } => "invalid mod file: "@ + path + ": "@ + reason,
        AppErrorView::Manifest(m) => "manifest error: "@ + m,
        AppErrorView::Io { path, message } => "io error at "@ + path + ": "@ + message,
        AppErrorView::EulaNotAccepted => "eula must be accepted (set eula=true)"@,
        AppErrorView::ProbeFailed(c) => "probe failed with exit code "@ + signed_decimal(c as int),
        AppErrorView::Rcon(m) => "rcon error: "@ + m,
        AppErrorView::Dashboard(m) => "dashboard error: "@ + m,
    }
}

/// Builds an error of the `Config` kind from a message.
pub fn config_error(m: &str) -> (e: AppError)
    ensures
        e@ == AppErrorView::Config(m@),
{
    AppError::Config(owned(m))
}

/// Builds an error of the `Manifest` kind from a message.
pub fn manifest_error(m: &str) -> (e: AppError)
    ensures
        e@ == AppErrorView::Manifest(m@),
{
    AppError::Manifest(owned(m))
}

/// Builds an error of the `Rcon` kind from a message.
pub fn rcon_error(m: &str) -> (e: AppError)
    ensures
        e@ == AppErrorView::Rcon(m@),
{
    AppError::Rcon(owned(m))
}

/// Builds an error of the `Dashboard` kind from a message.
pub fn dashboard_error(m: &str) -> (e: AppError)
    ensures
        e@ == AppErrorView::Dashboard(m@),
{
    AppError::Dashboard(owned(m))
}

impl AppError {
    /// The message shown to the user for this error.
    pub fn to_string(&self) -> (s: String)
        ensures
            s@ == error_text(self@),
    {
        let mut out = String::new();
        match self {
            AppError::Config(m) => {
                push_str(&mut out, "configuration error: ");
                push_str(&mut out, m.as_str());
            },
            AppError::InvalidMod { path, reason } => {
                push_str(&mut out, "invalid mod file: ");
                push_str(&mut out, path.as_str());
                push_str(&mut out, ": ");
                push_str(&mut out, reason.as_str());
            },
            AppError::Manifest(m) => {
                push_str(&mut out, "manifest error: ");
                push_str(&mut out, m.as_str());
            },
            AppError::Io { path, message } => {
                push_str(&mut out, "io error at ");
                push_str(&mut out, path.as_str());
                push_str(&mut out, ": ");
                push_str(&mut out, message.as_str());
            },
            AppError::EulaNotAccepted => {
                push_str(&mut out, "eula must be accepted (set eula=true)");
            },
            AppError::ProbeFailed(c) => {
                push_str(&mut out, "probe failed with exit code ");
                push_signed_decimal(&mut out, *c as i64);
            },
            AppError::Rcon(m) => {
                push_str(&mut out, "rcon error: ");
                push_str(&mut out, m.as_str());
            },
            AppError::Dashboard(m) => {
                push_str(&mut out, "dashboard error: ");
                push_str(&mut out, m.as_str());
            },
        }
        assert(out@ =~= error_text(self@));
        out
    }
}

} // verus!
