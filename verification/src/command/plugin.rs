//! Install/uninstall one plugin of a module; the arguments are exactly
//! `[module, plugin]`.

use vstd::prelude::*;

use crate::error::Error;
use crate::text::{concat3, owned};

verus! {

/// Installs a plugin for a module.
pub struct InstallPlugin;

/// Uninstalls a plugin from a module.
pub struct UninstallPlugin;

/// The plugin namespace of `module` from its metadata: an error when the
/// module declares none.
pub fn plugin_namespace_of(module: &str, namespace: Option<&str>) -> (r: Result<String, Error>)
    ensures
        match namespace {
            Some(ns) => r matches Ok(s) && s@ == ns@,
            None => r matches Err(Error::CoreUtils(m)) && m@ == "module "@ + module@ + " has no plugin namespace"@,
        },
{
    match namespace {
        Some(ns) => Ok(owned(ns)),
        None => Err(Error::CoreUtils(concat3("module ", module, " has no plugin namespace"))),
    }
}

impl InstallPlugin {
    /// `"InstallPlugin"`, the D-Bus method this command serves.
    pub fn name(&self) -> (r: &'static str)
        ensures
            r@ == "InstallPlugin"@,
    {
        "InstallPlugin"
    }

    /// `"plugin <plugin> installed for module <module>"` for arguments
    /// `[module, plugin]`.
    pub fn status(&self, arguments: &[&str]) -> (r: String)
        requires
            arguments@.len() == 2,
        ensures
            r@ == "plugin "@ + arguments@[1]@ + " installed for module "@ + arguments@[0]@,
    {
        let mut out = concat3("plugin ", arguments[1], " installed for module ");
        out.append(arguments[0]);
        out
    }
}

impl UninstallPlugin {
    /// `"UninstallPlugin"`, the D-Bus method this command serves.
    pub fn name(&self) -> (r: &'static str)
        ensures
            r@ == "UninstallPlugin"@,
    {
        "UninstallPlugin"
    }

    /// `"plugin <plugin> uninstalled for module <module>"` for arguments
    /// `[module, plugin]`.
    pub fn status(&self, arguments: &[&str]) -> (r: String)
        requires
            arguments@.len() == 2,
        ensures
            r@ == "plugin "@ + arguments@[1]@ + " uninstalled for module "@ + arguments@[0]@,
    {
        let mut out = concat3("plugin ", arguments[1], " uninstalled for module ");
        out.append(arguments[0]);
        out
    }
}

} // verus!
