use mx_daemon::listener::udisks2::mount_info::{
    bytes_to_string, disk_path_for, fstab_entry, is_plain_device, luks_mount_info, luks_mount_line, mount_info,
    mount_line, remount_line, unmount_line, ConfigDetail, ConfigurationItem, FstabEntry, MountInfo,
};
use mx_daemon::listener::udisks2::{
    has_filesystem_interface, ConfigWatch, Udisks2Listener, WatchStep, FILESYSTEM_INTERFACE, MANAGER_PATH, SERVICE,
};

fn detail(key: &str, bytes: &[u8]) -> ConfigDetail {
    ConfigDetail { key: key.to_string(), bytes: Some(bytes.to_vec()) }
}

fn item(kind: &str, details: Vec<ConfigDetail>) -> ConfigurationItem {
    ConfigurationItem { kind: kind.to_string(), details }
}

fn fstab(dir: &str, opts: &str) -> FstabEntry {
    FstabEntry { mount_point: dir.to_string(), options: opts.to_string() }
}

fn info(dir: &str, opts: &str) -> MountInfo {
    mount_info(dir.to_string(), opts.to_string(), "ext4".to_string(), "1234-ABCD")
}

#[test]
fn name_is_udisks2() {
    assert_eq!(Udisks2Listener.name(), "udisks2");
}

#[test]
fn service_constants() {
    assert_eq!(SERVICE, "org.freedesktop.UDisks2");
    assert_eq!(MANAGER_PATH, "/org/freedesktop/UDisks2");
    assert!(has_filesystem_interface(&["org.freedesktop.UDisks2.Block", FILESYSTEM_INTERFACE]));
    assert!(!has_filesystem_interface(&["org.freedesktop.UDisks2.Block"]));
    assert!(!has_filesystem_interface(&[]));
}

#[test]
fn bytes_to_string_strips_trailing_nul() {
    assert_eq!(bytes_to_string(b"/run/media/disk\0"), "/run/media/disk");
}

#[test]
fn bytes_to_string_without_nul() {
    assert_eq!(bytes_to_string(b"/run/media/disk"), "/run/media/disk");
}

#[test]
fn bytes_to_string_strips_one_nul_only() {
    assert_eq!(bytes_to_string(b"a\0\0"), "a\0");
    assert_eq!(bytes_to_string(b"\0"), "");
    assert_eq!(bytes_to_string(b""), "");
}

#[test]
fn bytes_to_string_decodes_utf8_and_replaces_invalid_bytes() {
    assert_eq!(bytes_to_string("/media/clé\0".as_bytes()), "/media/clé");
    assert_eq!(bytes_to_string(b"a\xffb\0"), "a\u{FFFD}b");
}

#[test]
fn fstab_entry_extracts_dir_and_opts() {
    let configuration = vec![item(
        "fstab",
        vec![detail("dir", b"/mnt/data\0"), detail("opts", b"noatime,nofail\0")],
    )];
    assert_eq!(fstab_entry(&configuration), Some(fstab("/mnt/data", "noatime,nofail")));
}

#[test]
fn fstab_entry_ignores_other_entries() {
    let configuration = vec![item("crypttab", vec![detail("options", b"luks\0")])];
    assert_eq!(fstab_entry(&configuration), None);
}

#[test]
fn fstab_entry_empty_configuration() {
    assert_eq!(fstab_entry(&[]), None);
}

#[test]
fn fstab_entry_missing_dir() {
    let configuration = vec![item("fstab", vec![detail("opts", b"noatime\0")])];
    assert_eq!(fstab_entry(&configuration), None);
}

#[test]
fn fstab_entry_missing_opts() {
    let configuration = vec![item("fstab", vec![detail("dir", b"/mnt/data\0")])];
    assert_eq!(fstab_entry(&configuration), None);
}

#[test]
fn fstab_entry_uses_first_fstab_item() {
    let configuration = vec![
        item("crypttab", vec![detail("dir", b"/nope\0")]),
        item("fstab", vec![detail("dir", b"/first\0"), detail("opts", b"ro\0")]),
        item("fstab", vec![detail("dir", b"/second\0")]),
    ];
    assert_eq!(fstab_entry(&configuration), Some(fstab("/first", "ro")));
}

#[test]
fn fstab_entry_dir_that_is_not_bytes_is_missing() {
    let configuration = vec![item("fstab", vec![ConfigDetail { key: "dir".to_string(), bytes: None }])];
    assert_eq!(fstab_entry(&configuration), None);
}

#[test]
fn mount_info_uses_uuid_path() {
    let i = info("/mnt/data", "noatime");
    assert_eq!(i.disk_path, "/dev/disk/by-uuid/1234-ABCD");
    assert_eq!(disk_path_for("u"), "/dev/disk/by-uuid/u");
    assert!(is_plain_device("/"));
    assert!(!is_plain_device("/org/freedesktop/UDisks2/block_devices/sda1"));
}

#[test]
fn library_lines() {
    let i = info("/mnt/data", "noatime");
    assert_eq!(unmount_line(&i), "unmount /dev/disk/by-uuid/1234-ABCD from /mnt/data");
    assert_eq!(remount_line(&i, "ro"), "remount /dev/disk/by-uuid/1234-ABCD at /mnt/data with options=ro");
    assert_eq!(mount_line(&i), "mount /dev/disk/by-uuid/1234-ABCD at /mnt/data (fstype=ext4, options=noatime)");
    let l = luks_mount_info(&i, b"/dev/mapper/luks-1\0", b"/dev/sda2\0");
    assert_eq!(l.mapper_device, "/dev/mapper/luks-1");
    assert_eq!(l.backing_device, "/dev/sda2");
    assert_eq!(
        luks_mount_line(&l),
        "mount-luks /dev/disk/by-uuid/1234-ABCD (/dev/sda2 -> /dev/mapper/luks-1) at /mnt/data (fstype=ext4, options=noatime)"
    );
}

#[test]
fn startup_device_first_read_is_a_baseline() {
    let mut w = ConfigWatch::new(false);
    match w.on_configuration(Some(fstab("/mnt/data", "noatime"))) {
        WatchStep::Gather { entry: e, report } => {
            assert!(!report);
            assert_eq!(e, fstab("/mnt/data", "noatime"));
        }
        _ => panic!("first read with an entry gathers it"),
    }
    w.on_gathered(info("/mnt/data", "noatime"));
    assert!(matches!(w.on_configuration(Some(fstab("/mnt/data", "noatime"))), WatchStep::Idle));
}

#[test]
fn new_device_first_read_is_reported() {
    let mut w = ConfigWatch::new(true);
    assert!(matches!(
        w.on_configuration(Some(fstab("/mnt/usb", ""))),
        WatchStep::Gather { report: true, .. }
    ));
    let mut empty = ConfigWatch::new(true);
    assert!(matches!(empty.on_configuration(None), WatchStep::Idle));
}

#[test]
fn watch_reports_each_kind_of_change() {
    let mut w = ConfigWatch::new(false);
    assert!(matches!(w.on_configuration(None), WatchStep::Idle));
    // A new entry is a mount.
    assert!(matches!(
        w.on_configuration(Some(fstab("/mnt/a", "rw"))),
        WatchStep::Gather { report: true, .. }
    ));
    w.on_gathered(info("/mnt/a", "rw"));
    // Same entry: nothing.
    assert!(matches!(w.on_configuration(Some(fstab("/mnt/a", "rw"))), WatchStep::Idle));
    // Changed options: an options change, recorded.
    match w.on_configuration(Some(fstab("/mnt/a", "ro"))) {
        WatchStep::OptionsChanged { info: old, new_options } => {
            assert_eq!(old.options, "rw");
            assert_eq!(new_options, "ro");
        }
        _ => panic!("options change expected"),
    }
    assert_eq!(w.current.as_ref().unwrap().options, "ro");
    assert!(matches!(w.on_configuration(Some(fstab("/mnt/a", "ro"))), WatchStep::Idle));
    // Changed mount point: unmount then mount.
    match w.on_configuration(Some(fstab("/mnt/b", "ro"))) {
        WatchStep::Remount { old, entry: e } => {
            assert_eq!(old.mount_point, "/mnt/a");
            assert_eq!(e.mount_point, "/mnt/b");
        }
        _ => panic!("remount expected"),
    }
    w.on_gathered(info("/mnt/b", "ro"));
    // Removed entry: an unmount.
    match w.on_configuration(None) {
        WatchStep::Unmount { info: old } => assert_eq!(old.mount_point, "/mnt/b"),
        _ => panic!("unmount expected"),
    }
    assert!(w.current.is_none());
    assert!(matches!(w.on_configuration(None), WatchStep::Idle));
}
