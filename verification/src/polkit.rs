//! polkit authorization for the `org.modulix.Daemon` write methods: the
//! action ids and what a verdict means for the caller.

use vstd::prelude::*;

use crate::error::Error;
use crate::text::concat2;

verus! {

/// polkit action id for install-shaped methods.
pub const ACTION_INSTALL: &'static str = "org.modulix.daemon.install";

/// polkit action id for uninstall-shaped methods.
pub const ACTION_REMOVE: &'static str = "org.modulix.daemon.remove";

/// polkit action id for `UpdateSystem`.
pub const ACTION_UPDATE: &'static str = "org.modulix.daemon.update";

/// What polkit's verdict means for the caller: `Ok` when authorized, else an
/// error naming the action.
pub fn authorization_result(is_authorized: bool, action_id: &str) -> (r: Result<(), Error>)
    ensures
        is_authorized ==> r is Ok,
        !is_authorized ==> (r matches Err(Error::CoreUtils(m)) && m@ == "not authorized for action "@ + action_id@),
{
    if is_authorized {
        Ok(())
    } else {
        Err(Error::CoreUtils(concat2("not authorized for action ", action_id)))
    }
}

/// The error raised when no polkit subject can be built from the message
/// header; `detail` describes why.
pub fn subject_error(detail: &str) -> (r: Error)
    ensures
        r matches Error::CoreUtils(m) && m@ == "polkit subject: "@ + detail@,
{
    Error::CoreUtils(concat2("polkit subject: ", detail))
}

} // verus!
