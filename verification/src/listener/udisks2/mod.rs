//! `org.freedesktop.UDisks2`: which devices to watch, and what each change
//! of a device's `fstab` mount configuration means.
//!
//! A new `fstab` entry is a mount, a removed entry an unmount, a changed
//! `dir` a mount point change (an unmount followed by a mount), and a changed
//! `opts` on an otherwise unchanged entry a mount options change. The first
//! configuration read for a device is only a baseline for a device present
//! at startup; for a device that appeared while watching, an entry already
//! there is reported as a mount.

pub mod mount_info;

use vstd::prelude::*;

use crate::text::str_eq;
use mount_info::{FstabEntry, MountInfo};

verus! {

/// D-Bus service name of UDisks2.
pub const SERVICE: &'static str = "org.freedesktop.UDisks2";

/// Object path of UDisks2's object manager.
pub const MANAGER_PATH: &'static str = "/org/freedesktop/UDisks2";

/// Interface a device must expose for its configuration to be watched.
pub const FILESYSTEM_INTERFACE: &'static str = "org.freedesktop.UDisks2.Filesystem";

/// Listener for `org.freedesktop.UDisks2`.
pub struct Udisks2Listener;

impl Udisks2Listener {
    /// `"udisks2"`, this listener's name in logs.
    pub fn name(&self) -> (r: &'static str)
        ensures
            r@ == "udisks2"@,
    {
        "udisks2"
    }
}

/// Whether one of `interfaces` is the `Filesystem` interface.
pub fn has_filesystem_interface(interfaces: &[&str]) -> (r: bool)
    ensures
        r == exists|i: int| 0 <= i < interfaces@.len() && (#[trigger] interfaces@[i])@ == FILESYSTEM_INTERFACE@,
{
    let mut i: usize = 0;
    while i < interfaces.len()
        invariant
            i <= interfaces@.len(),
            forall|j: int| 0 <= j < i ==> (#[trigger] interfaces@[j])@ != FILESYSTEM_INTERFACE@,
        decreases interfaces.len() - i,
    {
        if str_eq(interfaces[i], FILESYSTEM_INTERFACE) {
            return true;
        }
        i = i + 1;
    }
    false
}

/// What the watcher of one device does after a configuration change.
pub enum WatchStep {
    /// Nothing to report.
    Idle,
    /// Gather the device's mount information for `entry`, report a mount if
    /// `report`, and hand the gathered information back (see
    /// [`ConfigWatch::on_gathered`]).
    Gather { entry: FstabEntry, report: bool },
    /// Report that the mount configuration `info` was removed.
    Unmount { info: MountInfo },
    /// Report that `old` was removed, then gather and report a mount for
    /// `entry`, handing the gathered information back.
    Remount { old: MountInfo, entry: FstabEntry },
    /// Report that the options of `info` changed to `new_options`.
    OptionsChanged { info: MountInfo, new_options: String },
}

/// The state of the watcher of one device's `Block.Configuration`.
pub struct ConfigWatch {
    /// The mount configuration last reported or recorded.
    pub current: Option<MountInfo>,
    /// No configuration has been read yet.
    pub first: bool,
    /// An entry found on the first read is reported as a mount.
    pub report_initial_config: bool,
}

/// `info` with its options replaced by `options`.
pub open spec fn with_options(info: MountInfo, options: String) -> MountInfo {
    MountInfo {
        mount_point: info.mount_point,
        disk_path: info.disk_path,
        filesystem_type: info.filesystem_type,
        options: options,
    }
}

/// The step and next state of a watcher in state `w` on configuration read
/// `entry`.
pub open spec fn watch_transition(w: ConfigWatch, entry: Option<FstabEntry>) -> (WatchStep, ConfigWatch) {
    let next = |current: Option<MountInfo>|
        ConfigWatch { current: current, first: false, report_initial_config: w.report_initial_config };
    if w.first {
        match entry {
            Some(e) => (WatchStep::Gather { entry: e, report: w.report_initial_config }, next(None)),
            None => (WatchStep::Idle, next(w.current)),
        }
    } else {
        match (w.current, entry) {
            (None, None) => (WatchStep::Idle, next(None)),
            (None, Some(e)) => (WatchStep::Gather { entry: e, report: true }, next(None)),
            (Some(info), None) => (WatchStep::Unmount { info: info }, next(None)),
            (Some(info), Some(e)) => if info.mount_point@ != e.mount_point@ {
                (WatchStep::Remount { old: info, entry: e }, next(None))
            } else if info.options@ != e.options@ {
                (
                    WatchStep::OptionsChanged { info: info, new_options: e.options },
                    next(Some(with_options(info, e.options))),
                )
            } else {
                (WatchStep::Idle, next(Some(info)))
            },
        }
    }
}

impl ConfigWatch {
    /// The watcher of a device, before its first configuration read;
    /// `report_initial_config` is `false` for a device present at startup
    /// and `true` for one that just appeared.
    pub fn new(report_initial_config: bool) -> (r: ConfigWatch)
        ensures
            r.current is None,
            r.first,
            r.report_initial_config == report_initial_config,
    {
        ConfigWatch { current: None, first: true, report_initial_config }
    }

    /// Decides what a configuration read means. On the first read an entry
    /// is only gathered, and reported if the device just appeared; later, a
    /// new entry is a mount, a removed one an unmount, a changed mount point
    /// an unmount then a mount, and changed options on the same mount point
    /// an options change, after which the recorded options are the new ones.
    pub fn on_configuration(&mut self, entry: Option<FstabEntry>) -> (r: WatchStep)
        ensures
            (r, *final(self)) == watch_transition(*old(self), entry),
    {
        let ghost w = *self;
        let current = self.current.take();
        if self.first {
            self.first = false;
            match entry {
                Some(e) => {
                    return WatchStep::Gather { entry: e, report: self.report_initial_config };
                },
                None => {
                    self.current = current;
                    return WatchStep::Idle;
                },
            }
        }
        match (current, entry) {
            (None, None) => WatchStep::Idle,
            (None, Some(e)) => WatchStep::Gather { entry: e, report: true },
            (Some(info), None) => WatchStep::Unmount { info },
            (Some(info), Some(e)) => {
                if !str_eq(info.mount_point.as_str(), e.mount_point.as_str()) {
                    WatchStep::Remount { old: info, entry: e }
                } else if !str_eq(info.options.as_str(), e.options.as_str()) {
                    let mut updated = info.duplicate();
                    updated.options = e.options.clone();
                    self.current = Some(updated);
                    WatchStep::OptionsChanged { info, new_options: e.options }
                } else {
                    self.current = Some(info);
                    WatchStep::Idle
                }
            },
        }
    }

    /// Records the mount information gathered after a `Gather` or `Remount`
    /// step; it is what the next reads compare against.
    pub fn on_gathered(&mut self, info: MountInfo)
        ensures
            final(self).current == Some(info),
            final(self).first == old(self).first,
            final(self).report_initial_config == old(self).report_initial_config,
    {
        self.current = Some(info);
    }
}

/// A watcher that has not read any configuration yet has recorded none.
pub open spec fn watch_wf(w: ConfigWatch) -> bool {
    w.first ==> w.current is None
}

/// Whether `info` records exactly the mount point and options of `e`.
pub open spec fn records_entry(info: MountInfo, e: FstabEntry) -> bool {
    info.mount_point@ == e.mount_point@ && info.options@ == e.options@
}

/// Every watcher step keeps the watcher well formed, and a fresh watcher
/// is well formed.
pub proof fn law_watch_stays_well_formed(w: ConfigWatch, entry: Option<FstabEntry>, report: bool)
    requires
        watch_wf(w),
    ensures
        watch_wf(watch_transition(w, entry).1),
        !watch_transition(w, entry).1.first,
        watch_wf(ConfigWatch { current: None, first: true, report_initial_config: report }),
{
}

/// The first read of a device present at startup is only a baseline: it
/// never reports a mount.
pub proof fn law_startup_baseline_reports_nothing(w: ConfigWatch, entry: Option<FstabEntry>)
    requires
        w.first,
        !w.report_initial_config,
    ensures
        match watch_transition(w, entry).0 {
            WatchStep::Idle => true,
            WatchStep::Gather { entry: _, report } => !report,
            _ => false,
        },
{
}

/// A change is reported once: reading the same configuration again, after
/// the step's gathered information (if any) was recorded, reports nothing.
pub proof fn law_repeated_read_is_idle(w: ConfigWatch, entry: Option<FstabEntry>, gathered: MountInfo)
    requires
        watch_wf(w),
        entry matches Some(e) ==> records_entry(gathered, e),
    ensures
        ({
            let (step, next) = watch_transition(w, entry);
            let settled = match step {
                WatchStep::Gather { .. } => ConfigWatch {
                    current: Some(gathered),
                    first: next.first,
                    report_initial_config: next.report_initial_config,
                },
                WatchStep::Remount { .. } => ConfigWatch {
                    current: Some(gathered),
                    first: next.first,
                    report_initial_config: next.report_initial_config,
                },
                _ => next,
            };
            watch_transition(settled, entry).0 is Idle
        }),
{
}

} // verus!
