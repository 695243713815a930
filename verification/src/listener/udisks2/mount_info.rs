//! A partition's `fstab` mount configuration: reading the `fstab` entry out
//! of `Block.Configuration`, describing the partition by its filesystem UUID,
//! and the lines handed to the external library for each event.
//!
//! Byte-array values that UDisks2 returns are NUL-terminated;
//! [`bytes_to_string`] strips that byte before decoding.

use vstd::prelude::*;
use vstd::utf8::{decode_utf8, valid_utf8};

use crate::text::{concat2, str_eq};

verus! {

/// What `String::from_utf8_lossy` decodes `bytes` to.
pub uninterp spec fn utf8_lossy(bytes: Seq<u8>) -> Seq<char>;

/// `String::from_utf8_lossy`: decodes `bytes` as UTF-8, replacing invalid
/// sequences with U+FFFD. The contract names the result and states the one
/// case std documents plainly: valid UTF-8 decodes to its characters.
#[verifier::external_body]
fn decode_lossy(bytes: &[u8]) -> (r: String)
    ensures
        r@ == utf8_lossy(bytes@),
        valid_utf8(bytes@) ==> r@ == decode_utf8(bytes@),
{
    String::from_utf8_lossy(bytes).into_owned()
}

/// `bytes` without one trailing NUL byte, if it ends with one.
pub open spec fn strip_nul(bytes: Seq<u8>) -> Seq<u8> {
    if bytes.len() > 0 && bytes.last() == 0 {
        bytes.drop_last()
    } else {
        bytes
    }
}

/// The string of an `ay` value: one trailing NUL removed, then decoded as
/// UTF-8 with invalid sequences replaced.
pub open spec fn spec_bytes_to_string(bytes: Seq<u8>) -> Seq<char> {
    utf8_lossy(strip_nul(bytes))
}

/// `s` is what `bytes` decodes to, one trailing NUL removed, whenever the
/// remaining bytes are valid UTF-8.
pub open spec fn decoded_when_valid(bytes: Seq<u8>, s: Seq<char>) -> bool {
    valid_utf8(strip_nul(bytes)) ==> s == decode_utf8(strip_nul(bytes))
}

/// Strips the trailing NUL byte D-Bus uses to terminate `ay`-encoded paths,
/// then decodes the rest as UTF-8, lossily; never fails.
pub fn bytes_to_string(bytes: &[u8]) -> (r: String)
    ensures
        r@ == spec_bytes_to_string(bytes@),
        valid_utf8(strip_nul(bytes@)) ==> r@ == decode_utf8(strip_nul(bytes@)),
{
    let n = bytes.len();
    if n > 0 && bytes[n - 1] == 0 {
        let trimmed = slice_prefix(bytes, n - 1);
        decode_lossy(trimmed.as_slice())
    } else {
        decode_lossy(bytes)
    }
}

fn slice_prefix(bytes: &[u8], n: usize) -> (r: Vec<u8>)
    requires
        n <= bytes@.len(),
    ensures
        r@ == bytes@.take(n as int),
{
    let mut out: Vec<u8> = Vec::new();
    let mut i: usize = 0;
    while i < n
        invariant
            n <= bytes@.len(),
            i <= n,
            out@ == bytes@.take(i as int),
        decreases n - i,
    {
        out.push(bytes[i]);
        proof {
            assert(out@ =~= bytes@.take(i + 1));
        }
        i = i + 1;
    }
    out
}

/// One detail of a configuration entry: its key, and its value when it is a
/// byte array.
pub struct ConfigDetail {
    pub key: String,
    pub bytes: Option<Vec<u8>>,
}

/// One entry of `Block.Configuration`: its kind (`"fstab"`, `"crypttab"`,
/// ...) and its details.
pub struct ConfigurationItem {
    pub kind: String,
    pub details: Vec<ConfigDetail>,
}

/// The `fstab` entry of a `Block.Configuration` value: the configured mount
/// point and mount options.
#[derive(Debug, PartialEq, Eq)]
pub struct FstabEntry {
    pub mount_point: String,
    pub options: String,
}

/// Index of the first item of kind `"fstab"`, or `-1`.
pub open spec fn first_fstab(items: Seq<ConfigurationItem>, j: int) -> int
    decreases items.len() - j,
{
    if j < 0 || j >= items.len() {
        -1
    } else if items[j].kind@ == "fstab"@ {
        j
    } else {
        first_fstab(items, j + 1)
    }
}

/// Index of the first detail with key `key`, or `-1`.
pub open spec fn first_detail(details: Seq<ConfigDetail>, key: Seq<char>, j: int) -> int
    decreases details.len() - j,
{
    if j < 0 || j >= details.len() {
        -1
    } else if details[j].key@ == key {
        j
    } else {
        first_detail(details, key, j + 1)
    }
}

/// The byte-array value of detail `key`, if present and a byte array.
pub open spec fn detail_bytes(details: Seq<ConfigDetail>, key: Seq<char>) -> Option<Seq<u8>> {
    let i = first_detail(details, key, 0);
    if i >= 0 {
        match details[i].bytes {
            Some(b) => Some(b@),
            None => None,
        }
    } else {
        None
    }
}

/// The mount point and options of the first `"fstab"` entry, when it has
/// both a `dir` and an `opts` byte array.
pub open spec fn spec_fstab_entry(items: Seq<ConfigurationItem>) -> Option<(Seq<char>, Seq<char>)> {
    let i = first_fstab(items, 0);
    if i < 0 {
        None
    } else {
        match (detail_bytes(items[i].details@, "dir"@), detail_bytes(items[i].details@, "opts"@)) {
            (Some(dir), Some(opts)) => Some((spec_bytes_to_string(dir), spec_bytes_to_string(opts))),
            _ => None,
        }
    }
}

fn find_detail<'a>(details: &'a Vec<ConfigDetail>, key: &str) -> (r: Option<&'a Vec<u8>>)
    ensures
        match r {
            Some(b) => detail_bytes(details@, key@) == Some(b@),
            None => detail_bytes(details@, key@) is None,
        },
{
    let mut i: usize = 0;
    while i < details.len()
        invariant
            i <= details@.len(),
            first_detail(details@, key@, 0) == first_detail(details@, key@, i as int),
        decreases details.len() - i,
    {
        if str_eq(details[i].key.as_str(), key) {
            return match &details[i].bytes {
                Some(b) => Some(b),
                None => None,
            };
        }
        i = i + 1;
    }
    None
}

/// The `fstab` entry of a `Block.Configuration` value, if any: built from
/// the first entry of kind exactly `"fstab"` whose details have both a `dir`
/// and an `opts` byte array; `None` otherwise.
pub fn fstab_entry(configuration: &[ConfigurationItem]) -> (r: Option<FstabEntry>)
    ensures
        match r {
            Some(e) => spec_fstab_entry(configuration@) == Some((e.mount_point@, e.options@)),
            None => spec_fstab_entry(configuration@) is None,
        },
        r matches Some(e) ==> ({
            let details = configuration@[first_fstab(configuration@, 0)].details@;
            &&& detail_bytes(details, "dir"@) matches Some(dir) && decoded_when_valid(dir, e.mount_point@)
            &&& detail_bytes(details, "opts"@) matches Some(opts) && decoded_when_valid(opts, e.options@)
        }),
{
    let mut i: usize = 0;
    while i < configuration.len()
        invariant
            i <= configuration@.len(),
            first_fstab(configuration@, 0) == first_fstab(configuration@, i as int),
        decreases configuration.len() - i,
    {
        if str_eq(configuration[i].kind.as_str(), "fstab") {
            let details = &configuration[i].details;
            let dir = match find_detail(details, "dir") {
                Some(d) => d,
                None => {
                    return None;
                },
            };
            let opts = match find_detail(details, "opts") {
                Some(o) => o,
                None => {
                    return None;
                },
            };
            return Some(
                FstabEntry {
                    mount_point: bytes_to_string(dir.as_slice()),
                    options: bytes_to_string(opts.as_slice()),
                },
            );
        }
        i = i + 1;
    }
    None
}

/// Mount information for a partition, ready to hand to the external library.
#[derive(Debug, PartialEq, Eq)]
pub struct MountInfo {
    /// Mount point configured in `fstab`.
    pub mount_point: String,
    /// `/dev/disk/by-uuid/<uuid>`; for an unlocked LUKS device, the UUID of
    /// the locked container.
    pub disk_path: String,
    /// Filesystem type reported by UDisks2.
    pub filesystem_type: String,
    /// Mount options configured in `fstab`, comma-separated.
    pub options: String,
}

impl MountInfo {
    /// A field-by-field copy.
    pub fn duplicate(&self) -> (r: MountInfo)
        ensures
            r == *self,
    {
        MountInfo {
            mount_point: self.mount_point.clone(),
            disk_path: self.disk_path.clone(),
            filesystem_type: self.filesystem_type.clone(),
            options: self.options.clone(),
        }
    }
}

/// Mount information for an unlocked LUKS partition, plus the mapper
/// (cleartext) and real (locked) device files.
pub struct LuksMountInfo {
    pub mount: MountInfo,
    pub mapper_device: String,
    pub backing_device: String,
}

/// Whether a `CryptoBackingDevice` object path says the device is not an
/// unlocked LUKS mapper: it is the root path `/`.
pub fn is_plain_device(backing_device: &str) -> (r: bool)
    ensures
        r == (backing_device@ == "/"@),
{
    str_eq(backing_device, "/")
}

/// `/dev/disk/by-uuid/<uuid>`.
pub fn disk_path_for(uuid: &str) -> (r: String)
    ensures
        r@ == "/dev/disk/by-uuid/"@ + uuid@,
{
    concat2("/dev/disk/by-uuid/", uuid)
}

/// The mount information gathered for a device: the `fstab` mount point and
/// options, the device's filesystem type, and the disk path of `uuid` (the
/// device's own UUID, or its backing device's for an unlocked LUKS device).
pub fn mount_info(mount_point: String, options: String, filesystem_type: String, uuid: &str) -> (r: MountInfo)
    ensures
        r.mount_point == mount_point,
        r.options == options,
        r.filesystem_type == filesystem_type,
        r.disk_path@ == "/dev/disk/by-uuid/"@ + uuid@,
{
    MountInfo { mount_point, disk_path: disk_path_for(uuid), filesystem_type, options }
}

/// The LUKS mount record of `info`, with the mapper and backing device files
/// read from their `ay` values.
pub fn luks_mount_info(info: &MountInfo, preferred_device: &[u8], device: &[u8]) -> (r: LuksMountInfo)
    ensures
        r.mount == *info,
        r.mapper_device@ == spec_bytes_to_string(preferred_device@),
        r.backing_device@ == spec_bytes_to_string(device@),
        decoded_when_valid(preferred_device@, r.mapper_device@),
        decoded_when_valid(device@, r.backing_device@),
{
    LuksMountInfo {
        mount: info.duplicate(),
        mapper_device: bytes_to_string(preferred_device),
        backing_device: bytes_to_string(device),
    }
}

/// Concatenation of string pieces.
pub open spec fn cat(parts: Seq<Seq<char>>) -> Seq<char>
    decreases parts.len(),
{
    if parts.len() == 0 {
        Seq::empty()
    } else {
        cat(parts.drop_last()) + parts.last()
    }
}

fn build(parts: &[&str]) -> (r: String)
    ensures
        r@ == cat(parts@.map_values(|p: &str| p@)),
{
    let mut out = String::new();
    let mut i: usize = 0;
    while i < parts.len()
        invariant
            i <= parts@.len(),
            out@ == cat(parts@.take(i as int).map_values(|p: &str| p@)),
        decreases parts.len() - i,
    {
        proof {
            assert(parts@.take(i + 1).map_values(|p: &str| p@).drop_last() =~= parts@.take(i as int).map_values(
                |p: &str| p@,
            ));
        }
        out.append(parts[i]);
        i = i + 1;
    }
    proof {
        assert(parts@.take(parts@.len() as int) =~= parts@);
    }
    out
}

/// The library call for a removed mount configuration:
/// `unmount <disk_path> from <mount_point>`.
pub fn unmount_line(info: &MountInfo) -> (r: String)
    ensures
        r@ == "unmount "@ + info.disk_path@ + " from "@ + info.mount_point@,
{
    let r = build(&["unmount ", info.disk_path.as_str(), " from ", info.mount_point.as_str()]);
    proof {
        reveal_with_fuel(cat, 5);
    }
    r
}

/// The library call for changed mount options:
/// `remount <disk_path> at <mount_point> with options=<new_options>`.
pub fn remount_line(info: &MountInfo, new_options: &str) -> (r: String)
    ensures
        r@ == "remount "@ + info.disk_path@ + " at "@ + info.mount_point@ + " with options="@ + new_options@,
{
    let r = build(
        &["remount ", info.disk_path.as_str(), " at ", info.mount_point.as_str(), " with options=", new_options],
    );
    proof {
        reveal_with_fuel(cat, 7);
    }
    r
}

/// The library call for a plain mount:
/// `mount <disk_path> at <mount_point> (fstype=<type>, options=<options>)`.
pub fn mount_line(info: &MountInfo) -> (r: String)
    ensures
        r@ == "mount "@ + info.disk_path@ + " at "@ + info.mount_point@ + " (fstype="@ + info.filesystem_type@
            + ", options="@ + info.options@ + ")"@,
{
    let r = build(
        &[
            "mount ",
            info.disk_path.as_str(),
            " at ",
            info.mount_point.as_str(),
            " (fstype=",
            info.filesystem_type.as_str(),
            ", options=",
            info.options.as_str(),
            ")",
        ],
    );
    proof {
        reveal_with_fuel(cat, 10);
    }
    r
}

/// The library call for a LUKS mount: `mount-luks <disk_path> (<backing> ->
/// <mapper>) at <mount_point> (fstype=<type>, options=<options>)`.
pub fn luks_mount_line(info: &LuksMountInfo) -> (r: String)
    ensures
        r@ == "mount-luks "@ + info.mount.disk_path@ + " ("@ + info.backing_device@ + " -> "@
            + info.mapper_device@ + ") at "@ + info.mount.mount_point@ + " (fstype="@
            + info.mount.filesystem_type@ + ", options="@ + info.mount.options@ + ")"@,
{
    let r = build(
        &[
            "mount-luks ",
            info.mount.disk_path.as_str(),
            " (",
            info.backing_device.as_str(),
            " -> ",
            info.mapper_device.as_str(),
            ") at ",
            info.mount.mount_point.as_str(),
            " (fstype=",
            info.mount.filesystem_type.as_str(),
            ", options=",
            info.mount.options.as_str(),
            ")",
        ],
    );
    proof {
        reveal_with_fuel(cat, 14);
    }
    r
}

} // verus!
