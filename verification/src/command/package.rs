//! Install/uninstall system packages by name, all names in one transaction.

use vstd::prelude::*;

use crate::text::{concat3, join, joined, views_of};

verus! {

/// Installs one or more system packages by name.
pub struct InstallPackage;

/// Uninstalls one or more system packages by name.
pub struct UninstallPackage;

impl InstallPackage {
    /// `"InstallPackage"`, the D-Bus method this command serves.
    pub fn name(&self) -> (r: &'static str)
        ensures
            r@ == "InstallPackage"@,
    {
        "InstallPackage"
    }

    /// `"package <names> installed"`, with `names` the arguments joined
    /// with `", "`.
    pub fn status(&self, arguments: &[&str]) -> (r: String)
        ensures
            r@ == "package "@ + joined(views_of(arguments@), ", "@) + " installed"@,
    {
        let names = join(arguments, ", ");
        concat3("package ", names.as_str(), " installed")
    }
}

impl UninstallPackage {
    /// `"UninstallPackage"`, the D-Bus method this command serves.
    pub fn name(&self) -> (r: &'static str)
        ensures
            r@ == "UninstallPackage"@,
    {
        "UninstallPackage"
    }

    /// `"package <names> uninstalled"`.
    pub fn status(&self, arguments: &[&str]) -> (r: String)
        ensures
            r@ == "package "@ + joined(views_of(arguments@), ", "@) + " uninstalled"@,
    {
        let names = join(arguments, ", ");
        concat3("package ", names.as_str(), " uninstalled")
    }
}

} // verus!
