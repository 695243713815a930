//! `UpdateSystem`: refresh every flake input and rebuild, with the rebuild
//! mode (`"switch"` or `"boot"`) as the single argument.

use vstd::prelude::*;

use crate::error::Error;
use crate::text::{concat3, owned, str_eq};

verus! {

/// Half of `total`, rounded down, but at least one.
pub open spec fn spec_half_cores(total: u32) -> u32 {
    if total / 2 >= 1 {
        (total / 2) as u32
    } else {
        1
    }
}

/// Halves `total`, rounding down, never below one: a background rebuild
/// always gets at least one core.
pub fn half_cores(total: u32) -> (r: u32)
    ensures
        r == spec_half_cores(total),
{
    let half = total / 2;
    if half >= 1 { half } else { 1 }
}

/// How the rebuilt system is activated.
pub enum BuildMode {
    /// Activate now.
    Switch,
    /// Activate at next boot.
    Boot,
}

/// What an `UpdateSystem` call runs and reports.
pub struct UpdatePlan {
    /// The activation mode.
    pub build: BuildMode,
    /// Cap on the cores the build may use; `None` for every core.
    pub cores: Option<u32>,
    /// The status line reported on success.
    pub status: String,
}

/// Refreshes every flake input and rebuilds the system.
pub struct UpdateSystem;

impl UpdateSystem {
    /// `"UpdateSystem"`, the D-Bus method this command serves.
    pub fn name(&self) -> (r: &'static str)
        ensures
            r@ == "UpdateSystem"@,
    {
        "UpdateSystem"
    }

    /// Reads the mode argument: `"switch"` rebuilds with every core and
    /// reports `"system updated (switch)"`; `"boot"` is capped to half of
    /// the `available_cores` and reports `"system update prepared for next
    /// boot"`. A missing or other mode is an error.
    pub fn plan(&self, arguments: &[&str], available_cores: u32) -> (r: Result<UpdatePlan, Error>)
        ensures
            arguments@.len() == 0 ==> (r matches Err(Error::CoreUtils(m)) && m@
                == "UpdateSystem: missing mode argument"@),
            arguments@.len() > 0 && arguments@[0]@ == "switch"@ ==> (r matches Ok(p) && p.build is Switch
                && p.cores is None && p.status@ == "system updated (switch)"@),
            arguments@.len() > 0 && arguments@[0]@ == "boot"@ ==> (r matches Ok(p) && p.build is Boot
                && p.cores == Some(spec_half_cores(available_cores))
                && p.status@ == "system update prepared for next boot"@),
            arguments@.len() > 0 && arguments@[0]@ != "switch"@ && arguments@[0]@ != "boot"@ ==> (r matches Err(
                Error::CoreUtils(m),
            ) && m@ == "UpdateSystem: unknown mode '"@ + arguments@[0]@ + "', expected 'switch' or 'boot'"@),
    {
        proof {
            reveal_strlit("switch");
            reveal_strlit("boot");
            assert("switch"@ != "boot"@) by {
                assert("switch"@.len() != "boot"@.len());
            }
        }
        if arguments.len() == 0 {
            return Err(Error::CoreUtils(owned("UpdateSystem: missing mode argument")));
        }
        let mode = arguments[0];
        if str_eq(mode, "switch") {
            Ok(UpdatePlan { build: BuildMode::Switch, cores: None, status: owned("system updated (switch)") })
        } else if str_eq(mode, "boot") {
            Ok(
                UpdatePlan {
                    build: BuildMode::Boot,
                    cores: Some(half_cores(available_cores)),
                    status: owned("system update prepared for next boot"),
                },
            )
        } else {
            Err(
                Error::CoreUtils(
                    concat3("UpdateSystem: unknown mode '", mode, "', expected 'switch' or 'boot'"),
                ),
            )
        }
    }
}

/// The core cap of a boot rebuild is at least one, and half of `total`
/// rounded down whenever that is at least one.
pub proof fn law_half_cores_bounds(total: u32)
    ensures
        spec_half_cores(total) >= 1,
        total >= 2 ==> 2 * spec_half_cores(total) <= total < 2 * spec_half_cores(total) + 2,
        total < 2 ==> spec_half_cores(total) == 1,
{
}

} // verus!
