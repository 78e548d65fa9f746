//! The TCP health probe's decisions.

use vstd::prelude::*;

use crate::error::{config_error, outcome, AppError, AppErrorView};

verus! {

/// Checks the port a probe is asked to connect to: port 0 is refused.
pub fn check_probe_port(port: u16) -> (r: Result<(), AppError>)
    ensures
        port == 0 ==> (r matches Err(e) && e@ == AppErrorView::Config(
            "port must be greater than 0"@,
        )),
        port != 0 ==> r is Ok,
{
    if port == 0 {
        return Err(config_error("port must be greater than 0"));
    }
    Ok(())
}

/// The exit code of a Kubernetes exec probe for the outcome of a port check:
/// 0 when the port accepted the connection, 1 when it did not, 2 when the
/// check itself failed.
pub fn probe_exit_code(check: &Result<bool, AppError>) -> (code: i32)
    ensures
        code == match check {
            Ok(true) => 0i32,
            Ok(false) => 1i32,
            Err(_) => 2i32,
        },
{
    match check {
        Ok(true) => 0,
        Ok(false) => 1,
        Err(_) => 2,
    }
}

} // verus!
