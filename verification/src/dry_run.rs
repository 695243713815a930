//! Whether lifecycle commands (install/uninstall package, module, plugin)
//! actually touch the system, from `MX_DAEMON_DRY_RUN`.

use vstd::prelude::*;

use crate::text::str_eq;

verus! {

/// `1`/`true` mean a dry run, `0`/`false` a real one; unset, or any other
/// value, falls back to the build profile (dry in a debug build).
pub open spec fn spec_is_dry_run(env_value: Option<Seq<char>>, debug_build: bool) -> bool {
    match env_value {
        Some(v) => if v == "1"@ || v == "true"@ {
            true
        } else if v == "0"@ || v == "false"@ {
            false
        } else {
            debug_build
        },
        None => debug_build,
    }
}

/// Whether lifecycle commands must skip the real library transaction, given
/// the value of `MX_DAEMON_DRY_RUN` (`None` when unset or not UTF-8) and
/// whether this is a debug build.
pub fn is_dry_run(env_value: Option<&str>, debug_build: bool) -> (r: bool)
    ensures
        r == spec_is_dry_run(
            match env_value {
                Some(v) => Some(v@),
                None => None,
            },
            debug_build,
        ),
{
    match env_value {
        Some(v) => {
            if str_eq(v, "1") || str_eq(v, "true") {
                true
            } else if str_eq(v, "0") || str_eq(v, "false") {
                false
            } else {
                debug_build
            }
        },
        None => debug_build,
    }
}

} // verus!
