//! The server's `eula.txt`.

use vstd::prelude::*;

use crate::error::{AppError, AppErrorView};
use crate::text::owned;

verus! {

/// Renders `eula.txt`, which may only be written once the EULA is accepted.
pub fn render_eula(accepted: bool) -> (r: Result<String, AppError>)
    ensures
        accepted ==> (r matches Ok(s) && s@ == "eula=true\n"@),
        !accepted ==> (r matches Err(e) && e@ == AppErrorView::EulaNotAccepted),
{
    if !accepted {
        return Err(AppError::EulaNotAccepted);
    }
    Ok(owned("eula=true\n"))
}

} // verus!
