use mx_daemon::command::module::{InstallModule, UninstallModule};
use mx_daemon::command::package::{InstallPackage, UninstallPackage};
use mx_daemon::command::plugin::{plugin_namespace_of, InstallPlugin, UninstallPlugin};
use mx_daemon::command::setting::{apply_list, apply_option, list_line, option_line, set_options};
use mx_daemon::command::update::{half_cores, BuildMode, UpdateSystem};
use mx_daemon::command::{find_command, registry, CommandKind};
use mx_daemon::error::Error;

fn message(e: Error) -> String {
    match e {
        Error::CoreUtils(m) => m,
    }
}

#[test]
fn install_module_name_matches_method() {
    assert_eq!(InstallModule.name(), "InstallModule");
}

#[test]
fn uninstall_module_name_matches_method() {
    assert_eq!(UninstallModule.name(), "UninstallModule");
}

#[test]
fn install_module_reports_success() {
    let result = InstallModule.status(&["audio"]);
    assert_eq!(result, "module audio installed");
}

#[test]
fn uninstall_module_reports_success() {
    let result = UninstallModule.status(&["audio"]);
    assert_eq!(result, "module audio uninstalled");
}

#[test]
fn install_package_name_matches_method() {
    assert_eq!(InstallPackage.name(), "InstallPackage");
}

#[test]
fn uninstall_package_name_matches_method() {
    assert_eq!(UninstallPackage.name(), "UninstallPackage");
}

#[test]
fn install_package_reports_success() {
    let result = InstallPackage.status(&["htop"]);
    assert_eq!(result, "package htop installed");
}

#[test]
fn uninstall_package_reports_success() {
    let result = UninstallPackage.status(&["htop"]);
    assert_eq!(result, "package htop uninstalled");
}

#[test]
fn package_status_joins_several_names() {
    assert_eq!(InstallPackage.status(&["htop", "vim"]), "package htop, vim installed");
    assert_eq!(UninstallPackage.status(&[]), "package  uninstalled");
}

#[test]
fn module_status_joins_several_names() {
    assert_eq!(InstallModule.status(&["audio", "video", "games"]), "module audio, video, games installed");
}

#[test]
fn install_plugin_name_matches_method() {
    assert_eq!(InstallPlugin.name(), "InstallPlugin");
}

#[test]
fn uninstall_plugin_name_matches_method() {
    assert_eq!(UninstallPlugin.name(), "UninstallPlugin");
}

#[test]
fn install_plugin_reports_success() {
    let result = InstallPlugin.status(&["audio", "reverb"]);
    assert_eq!(result, "plugin reverb installed for module audio");
}

#[test]
fn uninstall_plugin_reports_success() {
    let result = UninstallPlugin.status(&["audio", "reverb"]);
    assert_eq!(result, "plugin reverb uninstalled for module audio");
}

#[test]
fn plugin_namespace_of_reads_metadata() {
    assert_eq!(plugin_namespace_of("audio", Some("audioPlugins")).unwrap(), "audioPlugins");
    let err = plugin_namespace_of("audio", None).unwrap_err();
    assert_eq!(message(err), "module audio has no plugin namespace");
}

#[test]
fn apply_option_sets_value() {
    let result = apply_option(&("theme".to_string(), "dark".to_string(), false)).unwrap();
    assert_eq!(result, "option theme set to dark");
}

#[test]
fn apply_option_resets_to_default() {
    let result = apply_option(&("theme".to_string(), String::new(), true)).unwrap();
    assert_eq!(result, "option theme reset to default");
}

#[test]
fn apply_list_sets_entry() {
    let result = apply_list(&("favorites".to_string(), "vim".to_string(), false)).unwrap();
    assert_eq!(result, "list favorites entry set to vim");
}

#[test]
fn apply_list_resets_to_default() {
    let result = apply_list(&("favorites".to_string(), String::new(), true)).unwrap();
    assert_eq!(result, "list favorites reset to default");
}

#[test]
fn apply_option_reset_ignores_value() {
    let result = apply_option(&("theme".to_string(), "dark".to_string(), true)).unwrap();
    assert_eq!(result, "option theme reset to default");
}

#[test]
fn set_options_joins_options_then_lists() {
    let options = vec![
        ("theme".to_string(), "dark".to_string(), false),
        ("font".to_string(), String::new(), true),
    ];
    let lists = vec![("favorites".to_string(), "vim".to_string(), false)];
    let result = set_options(&options, &lists).unwrap();
    assert_eq!(
        result,
        "option theme set to dark\noption font reset to default\nlist favorites entry set to vim"
    );
    assert_eq!(set_options(&Vec::new(), &Vec::new()).unwrap(), "");
}

#[test]
fn update_system_name_matches_method() {
    assert_eq!(UpdateSystem.name(), "UpdateSystem");
}

#[test]
fn half_cores_rounds_down() {
    assert_eq!(half_cores(8), 4);
    assert_eq!(half_cores(5), 2);
}

#[test]
fn half_cores_never_below_one() {
    assert_eq!(half_cores(1), 1);
    assert_eq!(half_cores(0), 1);
}

#[test]
fn half_cores_of_large_counts() {
    assert_eq!(half_cores(2), 1);
    assert_eq!(half_cores(3), 1);
    assert_eq!(half_cores(u32::MAX), u32::MAX / 2);
}

#[test]
fn update_system_switch_reports_success() {
    let plan = UpdateSystem.plan(&["switch"], 8).unwrap();
    assert_eq!(plan.status, "system updated (switch)");
    assert!(matches!(plan.build, BuildMode::Switch));
    assert_eq!(plan.cores, None);
}

#[test]
fn update_system_boot_reports_success() {
    let plan = UpdateSystem.plan(&["boot"], 8).unwrap();
    assert_eq!(plan.status, "system update prepared for next boot");
    assert!(matches!(plan.build, BuildMode::Boot));
    assert_eq!(plan.cores, Some(4));
}

#[test]
fn update_system_missing_mode_errors() {
    let result = UpdateSystem.plan(&[], 8);
    assert!(result.is_err());
    assert_eq!(message(result.err().unwrap()), "UpdateSystem: missing mode argument");
}

#[test]
fn update_system_unknown_mode_errors() {
    let result = UpdateSystem.plan(&["frobnicate"], 8);
    assert!(result.is_err());
    assert_eq!(
        message(result.err().unwrap()),
        "UpdateSystem: unknown mode 'frobnicate', expected 'switch' or 'boot'"
    );
}

#[test]
fn update_system_boot_on_one_core_keeps_one() {
    let plan = UpdateSystem.plan(&["boot", "ignored"], 1).unwrap();
    assert_eq!(plan.cores, Some(1));
}

// The registry is not empty: it holds the six install and uninstall
// commands that its documentation lists, and every one of them is served on
// the daemon's interface.
#[test]
fn registry_lists_every_lifecycle_command() {
    let names: Vec<&str> = registry().iter().map(|c| c.name()).collect();
    assert_eq!(
        names,
        vec![
            "InstallPackage",
            "UninstallPackage",
            "InstallModule",
            "UninstallModule",
            "InstallPlugin",
            "UninstallPlugin"
        ]
    );
}

#[test]
fn find_command_dispatches_by_name() {
    let commands = registry();
    for c in commands.iter() {
        let found = find_command(&commands, c.name()).unwrap();
        assert_eq!(found.name(), c.name());
    }
    assert!(find_command(&commands, "SetOptions").is_none());
    assert!(find_command(&commands, "installpackage").is_none());
    assert!(matches!(find_command(&commands, "UninstallPlugin"), Some(CommandKind::UninstallPlugin)));
}

#[test]
fn setting_library_calls() {
    assert_eq!(option_line(&("theme".to_string(), "dark".to_string(), false)), "set-option theme dark");
    assert_eq!(option_line(&("theme".to_string(), "dark".to_string(), true)), "reset-option theme");
    assert_eq!(list_line(&("favorites".to_string(), "vim".to_string(), false)), "set-list favorites vim");
    assert_eq!(list_line(&("favorites".to_string(), String::new(), true)), "reset-list favorites");
}
