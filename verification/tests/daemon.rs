use mx_daemon::command::registry;
use mx_daemon::config_dir::resolve;
use mx_daemon::command::CommandKind;
use mx_daemon::daemon::{invalidates_installed, Daemon, Dispatch, BUS_NAME, OBJECT_PATH};
use mx_daemon::dry_run::is_dry_run;
use mx_daemon::error::Error;
use mx_daemon::listener::hostname1::{is_hostname_request, set_hostname_line, Hostname1Listener};
use mx_daemon::polkit::{authorization_result, subject_error, ACTION_INSTALL, ACTION_REMOVE, ACTION_UPDATE};

const DEFAULT_DIR: &str = "/etc/nixos/";

#[test]
fn bus_name_matches_deployed_name() {
    assert_eq!(BUS_NAME, "org.modulix.Daemon");
}

#[test]
fn object_path_is_well_formed() {
    assert!(OBJECT_PATH.starts_with('/'));
}

#[test]
fn daemon_dispatches_every_registered_method() {
    let daemon = Daemon::new();
    for name in [
        "InstallPackage",
        "UninstallPackage",
        "InstallModule",
        "UninstallModule",
        "InstallPlugin",
        "UninstallPlugin",
    ] {
        assert_eq!(daemon.command_for(name).unwrap().name(), name);
    }
    assert!(daemon.command_for("SetOptions").is_none());
    assert!(daemon.command_for("").is_none());
    assert!(Daemon::default().command_for("InstallModule").is_some());
}

#[test]
fn only_successful_lifecycle_calls_invalidate() {
    assert!(invalidates_installed("InstallPackage", true));
    assert!(invalidates_installed("UninstallPlugin", true));
    assert!(!invalidates_installed("InstallPackage", false));
    assert!(!invalidates_installed("SetOptions", true));
    assert!(!invalidates_installed("UpdateSystem", true));
}

#[test]
fn resolve_none_falls_back_to_compile_time_constant() {
    assert_eq!(resolve(None, DEFAULT_DIR), DEFAULT_DIR);
}

#[test]
fn resolve_empty_falls_back_to_compile_time_constant() {
    assert_eq!(resolve(Some(""), DEFAULT_DIR), DEFAULT_DIR);
}

#[test]
fn resolve_without_trailing_slash_appends_one() {
    assert_eq!(resolve(Some("/x/y"), DEFAULT_DIR), "/x/y/");
}

#[test]
fn resolve_with_trailing_slash_is_idempotent() {
    assert_eq!(resolve(Some("/x/y/"), DEFAULT_DIR), "/x/y/");
}

#[test]
fn resolve_appends_slash_to_default_too() {
    assert_eq!(resolve(None, "/etc/nixos"), "/etc/nixos/");
    assert_eq!(resolve(None, ""), "/");
}

#[test]
fn resolve_twice_is_resolve_once() {
    let once = resolve(Some("/srv/config"), DEFAULT_DIR);
    let twice = resolve(Some(once.as_str()), "/elsewhere");
    assert_eq!(once, twice);
}

#[test]
fn dry_run_values() {
    assert!(is_dry_run(Some("1"), false));
    assert!(is_dry_run(Some("true"), false));
    assert!(!is_dry_run(Some("0"), true));
    assert!(!is_dry_run(Some("false"), true));
    assert!(is_dry_run(Some("yes"), true));
    assert!(!is_dry_run(Some("yes"), false));
    assert!(is_dry_run(None, true));
    assert!(!is_dry_run(None, false));
}

#[test]
fn polkit_action_ids() {
    assert_eq!(ACTION_INSTALL, "org.modulix.daemon.install");
    assert_eq!(ACTION_REMOVE, "org.modulix.daemon.remove");
    assert_eq!(ACTION_UPDATE, "org.modulix.daemon.update");
}

#[test]
fn polkit_refusal_is_an_error() {
    assert!(authorization_result(true, ACTION_INSTALL).is_ok());
    match authorization_result(false, ACTION_REMOVE) {
        Err(Error::CoreUtils(m)) => assert_eq!(m, "not authorized for action org.modulix.daemon.remove"),
        Ok(()) => panic!("refusal must be an error"),
    }
    match subject_error("no sender") {
        Error::CoreUtils(m) => assert_eq!(m, "polkit subject: no sender"),
    }
}

#[test]
fn hostname_requests() {
    assert_eq!(Hostname1Listener.name(), "hostname1");
    assert!(is_hostname_request("SetStaticHostname"));
    assert!(is_hostname_request("SetHostname"));
    assert!(!is_hostname_request("SetPrettyHostname"));
    assert!(!is_hostname_request("sethostname"));
    assert_eq!(set_hostname_line("box"), "set-hostname box");
}

#[test]
fn every_registered_command_invalidates_on_success() {
    for command in registry().iter() {
        assert!(invalidates_installed(command.name(), true));
        assert!(!invalidates_installed(command.name(), false));
    }
}

#[test]
fn dispatch_gate_checks_authorization_first() {
    let daemon = Daemon::new();
    let denied: Dispatch<&str> = daemon.dispatch(Err("refused"), "InstallPackage");
    assert!(matches!(denied, Dispatch::Deny("refused")));
    let denied_unknown: Dispatch<&str> = daemon.dispatch(Err("refused"), "NoSuchMethod");
    assert!(matches!(denied_unknown, Dispatch::Deny("refused")));
    let unknown: Dispatch<&str> = daemon.dispatch(Ok(()), "NoSuchMethod");
    assert!(matches!(unknown, Dispatch::UnknownMethod));
    let run: Dispatch<&str> = daemon.dispatch(Ok(()), "UninstallModule");
    assert!(matches!(run, Dispatch::Execute(CommandKind::UninstallModule)));
}
