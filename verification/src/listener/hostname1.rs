//! `org.freedesktop.hostname1`: which intercepted method calls are hostname
//! change requests, and the library call each one becomes.

use vstd::prelude::*;

use crate::text::{concat2, str_eq};

verus! {

/// Interface whose method calls are monitored.
pub const HOSTNAME1_INTERFACE: &'static str = "org.freedesktop.hostname1";

/// Listener for `org.freedesktop.hostname1`.
pub struct Hostname1Listener;

impl Hostname1Listener {
    /// `"hostname1"`, this listener's name in logs.
    pub fn name(&self) -> (r: &'static str)
        ensures
            r@ == "hostname1"@,
    {
        "hostname1"
    }
}

/// Whether an intercepted method call is a hostname change request:
/// `SetStaticHostname` or `SetHostname`; every other member is ignored.
pub fn is_hostname_request(member: &str) -> (r: bool)
    ensures
        r == (member@ == "SetStaticHostname"@ || member@ == "SetHostname"@),
{
    str_eq(member, "SetStaticHostname") || str_eq(member, "SetHostname")
}

/// The library call for a hostname change: `set-hostname <hostname>`.
pub fn set_hostname_line(hostname: &str) -> (r: String)
    ensures
        r@ == "set-hostname "@ + hostname@,
{
    concat2("set-hostname ", hostname)
}

} // verus!
