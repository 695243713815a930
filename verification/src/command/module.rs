//! Install/uninstall Modulix modules by name, one transaction per name.

use vstd::prelude::*;

use crate::text::{concat3, join, joined, views_of};

verus! {

/// Installs one or more Modulix modules by name.
pub struct InstallModule;

/// Uninstalls one or more Modulix modules by name.
pub struct UninstallModule;

impl InstallModule {
    /// `"InstallModule"`, the D-Bus method this command serves.
    pub fn name(&self) -> (r: &'static str)
        ensures
            r@ == "InstallModule"@,
    {
        "InstallModule"
    }

    /// `"module <names> installed"`, listing every requested name.
    pub fn status(&self, arguments: &[&str]) -> (r: String)
        ensures
            r@ == "module "@ + joined(views_of(arguments@), ", "@) + " installed"@,
    {
        let names = join(arguments, ", ");
        concat3("module ", names.as_str(), " installed")
    }
}

impl UninstallModule {
    /// `"UninstallModule"`, the D-Bus method this command serves.
    pub fn name(&self) -> (r: &'static str)
        ensures
            r@ == "UninstallModule"@,
    {
        "UninstallModule"
    }

    /// `"module <names> uninstalled"`, listing every requested name.
    pub fn status(&self, arguments: &[&str]) -> (r: String)
        ensures
            r@ == "module "@ + joined(views_of(arguments@), ", "@) + " uninstalled"@,
    {
        let names = join(arguments, ", ");
        concat3("module ", names.as_str(), " uninstalled")
    }
}

} // verus!
