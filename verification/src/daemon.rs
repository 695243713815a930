//! The daemon's own interface, `org.modulix.Daemon`: where it is served,
//! which command a method call dispatches to, and when a write invalidates
//! the store's installed listing.

use vstd::prelude::*;

use crate::command::{command_name, find_command, first_named_command, registry, spec_registry, CommandKind};
use crate::text::{has_prefix, starts_with};

verus! {

/// Well-known bus name the daemon owns on the system bus.
pub const BUS_NAME: &'static str = "org.modulix.Daemon";

/// Object path at which `org.modulix.Daemon` and `org.modulix.Store1` are
/// served.
pub const OBJECT_PATH: &'static str = "/org/modulix/Daemon";

/// The `org.modulix.Daemon` interface: its table of commands.
pub struct Daemon {
    commands: Vec<CommandKind>,
}

impl Daemon {
    /// The commands this interface dispatches to.
    pub closed spec fn spec_commands(&self) -> Seq<CommandKind> {
        self.commands@
    }

    /// The interface with every command of the registry wired in.
    pub fn new() -> (r: Daemon)
        ensures
            r.spec_commands() == spec_registry(),
    {
        Daemon { commands: registry() }
    }

    /// The command serving the method `name`: the first registered command
    /// with that name, `None` for an unknown method.
    pub fn command_for(&self, name: &str) -> (r: Option<CommandKind>)
        ensures
            match r {
                Some(k) => first_named_command(self.spec_commands(), name@, 0) >= 0 && k
                    == self.spec_commands()[first_named_command(self.spec_commands(), name@, 0)],
                None => first_named_command(self.spec_commands(), name@, 0) == -1,
            },
    {
        find_command(&self.commands, name)
    }
}

/// What a dispatched method call does next, given the caller's
/// authorization and the method's name.
pub enum Dispatch<E> {
    /// Authorization failed: reply with this error; nothing is looked up or
    /// run.
    Deny(E),
    /// No registered command serves the method.
    UnknownMethod,
    /// Run this command.
    Execute(CommandKind),
}

impl Daemon {
    /// What an install or uninstall call does next: a failed authorization
    /// is answered with its error before anything else; an authorized call
    /// runs the first command named `name`, or is an unknown method when
    /// none is.
    pub fn dispatch<E>(&self, authorization: Result<(), E>, name: &str) -> (r: Dispatch<E>)
        ensures
            match authorization {
                Err(e) => r == Dispatch::<E>::Deny(e),
                Ok(_) => if first_named_command(self.spec_commands(), name@, 0) == -1 {
                    r is UnknownMethod
                } else {
                    r == Dispatch::<E>::Execute(
                        self.spec_commands()[first_named_command(self.spec_commands(), name@, 0)],
                    )
                },
            },
    {
        match authorization {
            Err(e) => Dispatch::Deny(e),
            Ok(()) => match self.command_for(name) {
                Some(k) => Dispatch::Execute(k),
                None => Dispatch::UnknownMethod,
            },
        }
    }
}

impl Default for Daemon {
    /// The same as [`Daemon::new`].
    fn default() -> (r: Daemon)
        ensures
            r.spec_commands() == spec_registry(),
    {
        Daemon::new()
    }
}

/// Whether a dispatched call must invalidate the store's installed listing:
/// it succeeded and its method is an `Install*` or `Uninstall*` one.
pub fn invalidates_installed(name: &str, succeeded: bool) -> (r: bool)
    ensures
        r == (succeeded && (has_prefix(name@, "Install"@) || has_prefix(name@, "Uninstall"@))),
{
    succeeded && (starts_with(name, "Install") || starts_with(name, "Uninstall"))
}

/// Every command the interface dispatches to is an `Install*` or
/// `Uninstall*` one, so every successful dispatched call invalidates the
/// store's installed listing.
pub proof fn law_every_dispatched_success_invalidates()
    ensures
        forall|i: int|
            0 <= i < spec_registry().len() ==> has_prefix(command_name(#[trigger] spec_registry()[i]), "Install"@)
                || has_prefix(command_name(spec_registry()[i]), "Uninstall"@),
{
    reveal_strlit("Install");
    reveal_strlit("Uninstall");
    reveal_strlit("InstallPackage");
    reveal_strlit("UninstallPackage");
    reveal_strlit("InstallModule");
    reveal_strlit("UninstallModule");
    reveal_strlit("InstallPlugin");
    reveal_strlit("UninstallPlugin");
    let r = spec_registry();
    assert(command_name(r[0]).take(7) =~= "Install"@);
    assert(command_name(r[1]).take(9) =~= "Uninstall"@);
    assert(command_name(r[2]).take(7) =~= "Install"@);
    assert(command_name(r[3]).take(9) =~= "Uninstall"@);
    assert(command_name(r[4]).take(7) =~= "Install"@);
    assert(command_name(r[5]).take(9) =~= "Uninstall"@);
}

} // verus!
