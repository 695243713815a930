//! Commands of the daemon's own interface (`org.modulix.Daemon`): their
//! D-Bus method names, the status line each reports, and how the arguments
//! of each are read.

pub mod module;
pub mod package;
pub mod plugin;
pub mod setting;
pub mod update;

use vstd::prelude::*;

use crate::text::str_eq;

verus! {

/// The commands dispatched by name on `org.modulix.Daemon`.
pub enum CommandKind {
    InstallPackage,
    UninstallPackage,
    InstallModule,
    UninstallModule,
    InstallPlugin,
    UninstallPlugin,
}

/// The D-Bus method name a command serves.
pub open spec fn command_name(k: CommandKind) -> Seq<char> {
    match k {
        CommandKind::InstallPackage => "InstallPackage"@,
        CommandKind::UninstallPackage => "UninstallPackage"@,
        CommandKind::InstallModule => "InstallModule"@,
        CommandKind::UninstallModule => "UninstallModule"@,
        CommandKind::InstallPlugin => "InstallPlugin"@,
        CommandKind::UninstallPlugin => "UninstallPlugin"@,
    }
}

impl CommandKind {
    /// The D-Bus method name this command serves.
    pub fn name(&self) -> (r: &'static str)
        ensures
            r@ == command_name(*self),
    {
        match self {
            CommandKind::InstallPackage => "InstallPackage",
            CommandKind::UninstallPackage => "UninstallPackage",
            CommandKind::InstallModule => "InstallModule",
            CommandKind::UninstallModule => "UninstallModule",
            CommandKind::InstallPlugin => "InstallPlugin",
            CommandKind::UninstallPlugin => "UninstallPlugin",
        }
    }

    /// A copy of the command.
    pub fn copy(&self) -> (r: CommandKind)
        ensures
            r == *self,
    {
        match self {
            CommandKind::InstallPackage => CommandKind::InstallPackage,
            CommandKind::UninstallPackage => CommandKind::UninstallPackage,
            CommandKind::InstallModule => CommandKind::InstallModule,
            CommandKind::UninstallModule => CommandKind::UninstallModule,
            CommandKind::InstallPlugin => CommandKind::InstallPlugin,
            CommandKind::UninstallPlugin => CommandKind::UninstallPlugin,
        }
    }
}

/// Every command wired up on `org.modulix.Daemon`, in order.
pub open spec fn spec_registry() -> Seq<CommandKind> {
    seq![
        CommandKind::InstallPackage,
        CommandKind::UninstallPackage,
        CommandKind::InstallModule,
        CommandKind::UninstallModule,
        CommandKind::InstallPlugin,
        CommandKind::UninstallPlugin,
    ]
}

/// All commands exposed on `org.modulix.Daemon`: package, module and plugin
/// install/uninstall.
pub fn registry() -> (r: Vec<CommandKind>)
    ensures
        r@ == spec_registry(),
{
    let mut v: Vec<CommandKind> = Vec::new();
    v.push(CommandKind::InstallPackage);
    v.push(CommandKind::UninstallPackage);
    v.push(CommandKind::InstallModule);
    v.push(CommandKind::UninstallModule);
    v.push(CommandKind::InstallPlugin);
    v.push(CommandKind::UninstallPlugin);
    assert(v@ =~= spec_registry());
    v
}

/// Index of the first command of `commands` named `name`, or `-1`.
pub open spec fn first_named_command(commands: Seq<CommandKind>, name: Seq<char>, j: int) -> int
    decreases commands.len() - j,
{
    if j < 0 || j >= commands.len() {
        -1
    } else if command_name(commands[j]) == name {
        j
    } else {
        first_named_command(commands, name, j + 1)
    }
}

/// The first of `commands` named `name`, if any.
pub fn find_command(commands: &Vec<CommandKind>, name: &str) -> (r: Option<CommandKind>)
    ensures
        match r {
            Some(k) => first_named_command(commands@, name@, 0) >= 0 && k == commands@[first_named_command(
                commands@,
                name@,
                0,
            )],
            None => first_named_command(commands@, name@, 0) == -1,
        },
{
    let mut i: usize = 0;
    while i < commands.len()
        invariant
            i <= commands@.len(),
            first_named_command(commands@, name@, 0) == first_named_command(commands@, name@, i as int),
        decreases commands.len() - i,
    {
        if str_eq(commands[i].name(), name) {
            return Some(commands[i].copy());
        }
        i = i + 1;
    }
    None
}

/// No two registered commands serve the same method, so dispatch by name
/// finds each registered command at its own place.
pub proof fn law_registry_dispatch_finds_each_command()
    ensures
        forall|i: int, j: int|
            0 <= i < j < spec_registry().len() ==> command_name(#[trigger] spec_registry()[i]) != command_name(
                #[trigger] spec_registry()[j],
            ),
        forall|i: int|
            0 <= i < spec_registry().len() ==> first_named_command(
                spec_registry(),
                command_name(#[trigger] spec_registry()[i]),
                0,
            ) == i,
{
    reveal_strlit("InstallPackage");
    reveal_strlit("UninstallPackage");
    reveal_strlit("InstallModule");
    reveal_strlit("UninstallModule");
    reveal_strlit("InstallPlugin");
    reveal_strlit("UninstallPlugin");
    let r = spec_registry();
    assert(command_name(r[0]).len() == 14);
    assert(command_name(r[1]).len() == 16);
    assert(command_name(r[2]).len() == 13);
    assert(command_name(r[3]).len() == 15);
    assert(command_name(r[4]).len() == 13);
    assert(command_name(r[5]).len() == 15);
    assert(command_name(r[2])[7] != command_name(r[4])[7]);
    assert(command_name(r[3])[9] != command_name(r[5])[9]);
    assert forall|i: int| 0 <= i < r.len() implies first_named_command(r, command_name(#[trigger] r[i]), 0) == i by {
        reveal_with_fuel(first_named_command, 7);
    }
}

} // verus!
