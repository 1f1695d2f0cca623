//! Folder configuration: the configuration of a new shared folder, sharing
//! an existing folder with more devices, and the status line of a folder.

use vstd::prelude::*;
use crate::config::opt_view;
use crate::devices::pair_views;
use crate::errors::CliError;
use crate::text::{concat2, decimal, decimal_string, join, join_seq, owned, pad_right, pad_right_spec, views};

verus! {

/// A device that a folder is shared with, as the folder configuration
/// lists it.
#[derive(Debug)]
pub struct FolderDevice {
    pub device_id: String,
    pub introduced_by: String,
    pub encryption_password: String,
}

/// The free disk space to keep.
#[derive(Debug)]
pub struct MinDiskFree {
    pub value: u64,
    pub unit: String,
}

/// File versioning settings.
#[derive(Debug)]
pub struct Versioning {
    pub kind: String,
    pub params: Vec<(String, String)>,
    pub cleanup_interval_s: u64,
    pub fs_path: String,
    pub fs_type: String,
}

/// One extended-attribute filter rule.
#[derive(Debug)]
pub struct XattrFilterEntry {
    pub pattern: String,
    pub permit: bool,
}

/// Extended-attribute filter settings.
#[derive(Debug)]
pub struct XattrFilter {
    pub entries: Vec<XattrFilterEntry>,
    pub max_single_entry_size: u64,
    pub max_total_size: u64,
}

/// The configuration of a folder, as Syncthing's folder configuration
/// endpoint takes it.
#[derive(Debug)]
pub struct FolderConfig {
    pub id: String,
    pub label: String,
    pub filesystem_type: String,
    pub path: String,
    pub folder_type: String,
    pub devices: Vec<FolderDevice>,
    pub rescan_interval_s: u64,
    pub fs_watcher_enabled: bool,
    pub fs_watcher_delay_s: u64,
    pub fs_watcher_timeout_s: u64,
    pub ignore_perms: bool,
    pub auto_normalize: bool,
    pub min_disk_free: MinDiskFree,
    pub versioning: Versioning,
    pub copiers: u64,
    pub puller_max_pending_kib: u64,
    pub hashers: u64,
    pub order: String,
    pub ignore_delete: bool,
    pub scan_progress_interval_s: u64,
    pub puller_pause_s: u64,
    pub max_conflicts: u64,
    pub disable_sparse_files: bool,
    pub disable_temp_indexes: bool,
    pub paused: bool,
    pub weak_hash_threshold_pct: u64,
    pub marker_name: String,
    pub copy_ownership_from_parent: bool,
    pub mod_time_window_s: u64,
    pub max_concurrent_writes: u64,
    pub disable_fsync: bool,
    pub block_pull_order: String,
    pub copy_range_method: String,
    pub case_sensitive_fs: bool,
    pub junctions_as_dirs: bool,
    pub sync_ownership: bool,
    pub send_ownership: bool,
    pub sync_xattrs: bool,
    pub send_xattrs: bool,
    pub xattr_filter: XattrFilter,
}

/// A device entry for a new share: the device ID, introduced by no one,
/// without an encryption password.
pub open spec fn is_new_folder_device(d: FolderDevice, id: Seq<char>) -> bool {
    &&& d.device_id@ == id
    &&& d.introduced_by@ == Seq::<char>::empty()
    &&& d.encryption_password@ == Seq::<char>::empty()
}

/// The settings that a new folder gets besides its ID, label, path and devices.
pub open spec fn has_new_folder_settings(f: FolderConfig) -> bool {
    &&& f.filesystem_type@ == "basic"@
    &&& f.folder_type@ == "sendreceive"@
    &&& f.rescan_interval_s == 3600
    &&& f.fs_watcher_enabled
    &&& f.fs_watcher_delay_s == 10
    &&& f.fs_watcher_timeout_s == 0
    &&& !f.ignore_perms
    &&& f.auto_normalize
    &&& f.min_disk_free.value == 1
    &&& f.min_disk_free.unit@ == "%"@
    &&& f.versioning.kind@ == Seq::<char>::empty()
    &&& f.versioning.params@.len() == 0
    &&& f.versioning.cleanup_interval_s == 3600
    &&& f.versioning.fs_path@ == Seq::<char>::empty()
    &&& f.versioning.fs_type@ == "basic"@
    &&& f.copiers == 0
    &&& f.puller_max_pending_kib == 0
    &&& f.hashers == 0
    &&& f.order@ == "random"@
    &&& !f.ignore_delete
    &&& f.scan_progress_interval_s == 0
    &&& f.puller_pause_s == 0
    &&& f.max_conflicts == 10
    &&& !f.disable_sparse_files
    &&& !f.disable_temp_indexes
    &&& !f.paused
    &&& f.weak_hash_threshold_pct == 25
    &&& f.marker_name@ == ".stfolder"@
    &&& !f.copy_ownership_from_parent
    &&& f.mod_time_window_s == 0
    &&& f.max_concurrent_writes == 2
    &&& !f.disable_fsync
    &&& f.block_pull_order@ == "standard"@
    &&& f.copy_range_method@ == "standard"@
    &&& !f.case_sensitive_fs
    &&& !f.junctions_as_dirs
    &&& !f.sync_ownership
    &&& !f.send_ownership
    &&& !f.sync_xattrs
    &&& !f.send_xattrs
    &&& f.xattr_filter.entries@.len() == 0
    &&& f.xattr_filter.max_single_entry_size == 1024
    &&& f.xattr_filter.max_total_size == 4096
}

/// The empty string.
fn empty_string() -> (r: String)
    ensures
        r@ == Seq::<char>::empty(),
{
    String::new()
}

/// The entry that shares a folder with one device.
pub fn folder_device_config(device_id: &str) -> (r: FolderDevice)
    ensures
        is_new_folder_device(r, device_id@),
{
    FolderDevice {
        device_id: owned(device_id),
        introduced_by: empty_string(),
        encryption_password: empty_string(),
    }
}

/// The entries that share a folder with each selected device, in order.
pub fn folder_device_configs(devices: &[(String, String)]) -> (r: Vec<FolderDevice>)
    ensures
        r@.len() == devices@.len(),
        forall|i: int| 0 <= i < devices@.len() ==> is_new_folder_device(#[trigger] r@[i], devices@[i].0@),
{
    let mut out: Vec<FolderDevice> = Vec::new();
    let mut i: usize = 0;
    while i < devices.len()
        invariant
            i <= devices@.len(),
            out@.len() == i,
            forall|j: int| 0 <= j < i ==> is_new_folder_device(#[trigger] out@[j], devices@[j].0@),
        decreases devices.len() - i,
    {
        out.push(folder_device_config(devices[i].0.as_str()));
        i = i + 1;
    }
    out
}

/// The label of a new folder: the one given, else its ID.
pub fn new_folder_label(label: Option<String>, id: &str) -> (r: String)
    ensures
        r@ == match label {
            Some(l) => l@,
            None => id@,
        },
{
    match label {
        Some(l) => l,
        None => owned(id),
    }
}

/// The configuration of a new folder with the given ID, label and path,
/// shared with the selected devices, with the default settings.
pub fn build_folder_config(id: &str, label: &str, path: &str, devices: &[(String, String)]) -> (r: FolderConfig)
    ensures
        r.id@ == id@,
        r.label@ == label@,
        r.path@ == path@,
        r.devices@.len() == devices@.len(),
        forall|i: int| 0 <= i < devices@.len() ==> is_new_folder_device(#[trigger] r.devices@[i], devices@[i].0@),
        has_new_folder_settings(r),
{
    FolderConfig {
        id: owned(id),
        label: owned(label),
        filesystem_type: owned("basic"),
        path: owned(path),
        folder_type: owned("sendreceive"),
        devices: folder_device_configs(devices),
        rescan_interval_s: 3600,
        fs_watcher_enabled: true,
        fs_watcher_delay_s: 10,
        fs_watcher_timeout_s: 0,
        ignore_perms: false,
        auto_normalize: true,
        min_disk_free: MinDiskFree { value: 1, unit: owned("%") },
        versioning: Versioning {
            kind: empty_string(),
            params: Vec::new(),
            cleanup_interval_s: 3600,
            fs_path: empty_string(),
            fs_type: owned("basic"),
        },
        copiers: 0,
        puller_max_pending_kib: 0,
        hashers: 0,
        order: owned("random"),
        ignore_delete: false,
        scan_progress_interval_s: 0,
        puller_pause_s: 0,
        max_conflicts: 10,
        disable_sparse_files: false,
        disable_temp_indexes: false,
        paused: false,
        weak_hash_threshold_pct: 25,
        marker_name: owned(".stfolder"),
        copy_ownership_from_parent: false,
        mod_time_window_s: 0,
        max_concurrent_writes: 2,
        disable_fsync: false,
        block_pull_order: owned("standard"),
        copy_range_method: owned("standard"),
        case_sensitive_fs: false,
        junctions_as_dirs: false,
        sync_ownership: false,
        send_ownership: false,
        sync_xattrs: false,
        send_xattrs: false,
        xattr_filter: XattrFilter { entries: Vec::new(), max_single_entry_size: 1024, max_total_size: 4096 },
    }
}

/// A device entry of an existing folder's configuration.
#[derive(Debug)]
pub enum SharedDevice {
    /// An entry that the configuration already held; its `deviceID` when
    /// that is a string. The entry itself is kept as it was.
    Listed(Option<String>),
    /// An entry added to share the folder with one more device.
    Added(FolderDevice),
}

/// The device entries of an existing folder's configuration; `None` when
/// the configuration has no devices array.
#[derive(Debug)]
pub struct SharedFolder {
    pub devices: Option<Vec<SharedDevice>>,
}

/// The device ID of an entry, when it has a string one.
pub open spec fn shared_id(d: SharedDevice) -> Option<Seq<char>> {
    match d {
        SharedDevice::Listed(id) => opt_view(id),
        SharedDevice::Added(fd) => Some(fd.device_id@),
    }
}

/// An entry added for a new share (see `is_new_folder_device`).
pub open spec fn is_added_entry(d: SharedDevice) -> bool {
    match d {
        SharedDevice::Added(fd) => is_new_folder_device(fd, fd.device_id@),
        SharedDevice::Listed(_) => false,
    }
}

/// The device IDs of the entries.
pub open spec fn shared_ids(v: Seq<SharedDevice>) -> Seq<Option<Seq<char>>> {
    v.map_values(|d: SharedDevice| shared_id(d))
}

/// The device IDs of a folder after sharing it with `devices` in order: each
/// device not yet listed is appended; listed ones are skipped.
pub open spec fn share_spec(ids: Seq<Option<Seq<char>>>, devices: Seq<Seq<char>>) -> Seq<Option<Seq<char>>>
    decreases devices.len(),
{
    if devices.len() == 0 {
        ids
    } else {
        let prev = share_spec(ids, devices.drop_last());
        if prev.contains(Some(devices.last())) {
            prev
        } else {
            prev.push(Some(devices.last()))
        }
    }
}

/// The IDs of (ID, name) pairs.
pub open spec fn pair_ids(v: Seq<(String, String)>) -> Seq<Seq<char>> {
    v.map_values(|p: (String, String)| p.0@)
}

/// Whether an entry lists `id`.
fn lists_id(entries: &Vec<SharedDevice>, id: &str) -> (r: bool)
    ensures
        r == shared_ids(entries@).contains(Some(id@)),
{
    let mut i: usize = 0;
    while i < entries.len()
        invariant
            i <= entries@.len(),
            forall|j: int| 0 <= j < i ==> shared_id(#[trigger] entries@[j]) != Some(id@),
        decreases entries.len() - i,
    {
        let found = match &entries[i] {
            SharedDevice::Listed(Some(x)) => crate::text::str_eq(x.as_str(), id),
            SharedDevice::Listed(None) => false,
            SharedDevice::Added(fd) => crate::text::str_eq(fd.device_id.as_str(), id),
        };
        if found {
            assert(shared_ids(entries@)[i as int] == Some(id@));
            return true;
        }
        i = i + 1;
    }
    assert forall|j: int| 0 <= j < shared_ids(entries@).len() implies shared_ids(entries@)[j] != Some(id@) by {
        assert(shared_id(entries@[j]) != Some(id@));
    }
    false
}

/// Shares a folder with more devices: each selected device that the folder
/// does not list yet is appended, in order; the entries it had stay as they
/// were. A folder configuration without a devices array is refused and left
/// unchanged.
pub fn add_devices_to_folder(folder: &mut SharedFolder, devices: &[(String, String)]) -> (r: Result<(), CliError>)
    ensures
        match old(folder).devices {
            None => r matches Err(CliError::NoDevicesArray) && final(folder).devices is None,
            Some(before) => {
                &&& r is Ok
                &&& final(folder).devices matches Some(after) && {
                    &&& shared_ids(after@) == share_spec(shared_ids(before@), pair_ids(devices@))
                    &&& after@.subrange(0, before@.len() as int) == before@
                    &&& forall|k: int| before@.len() <= k < after@.len() ==> is_added_entry(#[trigger] after@[k])
                }
            },
        },
{
    let existing = folder.devices.take();
    match existing {
        None => Err(CliError::NoDevicesArray),
        Some(mut entries) => {
            let ghost before = entries@;
            let ghost ids = pair_ids(devices@);
            let mut i: usize = 0;
            while i < devices.len()
                invariant
                    i <= devices@.len(),
                    ids == pair_ids(devices@),
                    shared_ids(entries@) == share_spec(shared_ids(before), ids.take(i as int)),
                    before.len() <= entries@.len(),
                    entries@.subrange(0, before.len() as int) == before,
                    forall|k: int|
                        before.len() <= k < entries@.len() ==> is_added_entry(#[trigger] entries@[k]),
                decreases devices.len() - i,
            {
                let id = devices[i].0.as_str();
                assert(ids.take(i + 1).drop_last() =~= ids.take(i as int));
                assert(ids.take(i + 1).last() == id@);
                if !lists_id(&entries, id) {
                    let ghost prev = entries@;
                    entries.push(SharedDevice::Added(folder_device_config(id)));
                    assert(shared_ids(entries@) =~= shared_ids(prev).push(Some(id@)));
                    assert(entries@.subrange(0, before.len() as int) =~= prev.subrange(0, before.len() as int));
                }
                i = i + 1;
            }
            assert(ids.take(devices@.len() as int) =~= ids);
            folder.devices = Some(entries);
            Ok(())
        },
    }
}

/// Sharing never drops or reorders the devices a folder had.
pub proof fn lemma_share_keeps_listed(ids: Seq<Option<Seq<char>>>, devices: Seq<Seq<char>>)
    ensures
        share_spec(ids, devices).len() >= ids.len(),
        share_spec(ids, devices).subrange(0, ids.len() as int) == ids,
    decreases devices.len(),
{
    if devices.len() > 0 {
        lemma_share_keeps_listed(ids, devices.drop_last());
        let prev = share_spec(ids, devices.drop_last());
        assert(prev.push(Some(devices.last())).subrange(0, ids.len() as int) =~= prev.subrange(0, ids.len() as int));
    }
}

/// After sharing, the folder lists every requested device, and every device
/// it lists was listed before or requested.
pub proof fn lemma_share_lists_requested(ids: Seq<Option<Seq<char>>>, devices: Seq<Seq<char>>)
    ensures
        forall|j: int| 0 <= j < devices.len() ==> share_spec(ids, devices).contains(Some(#[trigger] devices[j])),
        forall|x: Option<Seq<char>>|
            share_spec(ids, devices).contains(x) ==> ids.contains(x) || (x matches Some(d) && devices.contains(d)),
    decreases devices.len(),
{
    if devices.len() > 0 {
        let init = devices.drop_last();
        lemma_share_lists_requested(ids, init);
        let prev = share_spec(ids, init);
        let last = devices.last();
        assert forall|j: int| 0 <= j < devices.len() implies share_spec(ids, devices).contains(Some(#[trigger] devices[j])) by {
            if j < init.len() {
                assert(init[j] == devices[j]);
                assert(prev.contains(Some(init[j])));
                if !prev.contains(Some(last)) {
                    let k = choose|k: int| 0 <= k < prev.len() && prev[k] == Some(init[j]);
                    assert(prev.push(Some(last))[k] == Some(init[j]));
                }
            } else {
                if !prev.contains(Some(last)) {
                    assert(prev.push(Some(last))[prev.len() as int] == Some(last));
                }
            }
        }
        assert forall|x: Option<Seq<char>>| share_spec(ids, devices).contains(x) implies ids.contains(x) || (x matches Some(
            d,
        ) && devices.contains(d)) by {
            let r = share_spec(ids, devices);
            let k = choose|k: int| 0 <= k < r.len() && r[k] == x;
            if k < prev.len() {
                assert(prev[k] == x);
                assert(prev.contains(x));
                if !ids.contains(x) {
                    let d = x->Some_0;
                    let m = choose|m: int| 0 <= m < init.len() && init[m] == d;
                    assert(devices[m] == d);
                }
            } else {
                assert(devices[devices.len() - 1] == last);
            }
        }
    }
}

/// Sharing with devices that the folder already lists changes nothing.
pub proof fn lemma_share_listed_unchanged(ids: Seq<Option<Seq<char>>>, devices: Seq<Seq<char>>)
    requires
        forall|j: int| 0 <= j < devices.len() ==> ids.contains(Some(#[trigger] devices[j])),
    ensures
        share_spec(ids, devices) == ids,
    decreases devices.len(),
{
    if devices.len() > 0 {
        let init = devices.drop_last();
        assert forall|j: int| 0 <= j < init.len() implies ids.contains(Some(#[trigger] init[j])) by {
            assert(init[j] == devices[j]);
        }
        lemma_share_listed_unchanged(ids, init);
        assert(ids.contains(Some(devices[devices.len() - 1])));
    }
}

/// Sharing a folder twice with the same devices gives what sharing it once
/// gives.
pub proof fn lemma_share_idempotent(ids: Seq<Option<Seq<char>>>, devices: Seq<Seq<char>>)
    ensures
        share_spec(share_spec(ids, devices), devices) == share_spec(ids, devices),
{
    lemma_share_lists_requested(ids, devices);
    lemma_share_listed_unchanged(share_spec(ids, devices), devices);
}

/// The fields of a folder's status that its line reads. The size of the
/// files still needed is shown as text written from `needBytes`, which is
/// handed to the line separately.
#[derive(Debug)]
pub struct FolderStatus {
    pub state: Option<String>,
    pub need_files: Option<u64>,
    pub errors: Option<u64>,
}

/// The parts of a folder's status line: the state (`unknown` when missing),
/// the files still needed with their size when there are any, and the
/// error count when there are errors.
pub open spec fn status_parts(status: FolderStatus, need_bytes_text: Seq<char>) -> Seq<Seq<char>> {
    let state = match status.state {
        Some(s) => s@,
        None => "unknown"@,
    };
    let need_files: u64 = match status.need_files {
        Some(n) => n,
        None => 0,
    };
    let errors: u64 = match status.errors {
        Some(n) => n,
        None => 0,
    };
    let need: Seq<Seq<char>> = if need_files > 0 {
        seq![decimal(need_files as nat) + " files ("@ + need_bytes_text + ")"@]
    } else {
        Seq::empty()
    };
    let errs: Seq<Seq<char>> = if errors > 0 {
        seq![decimal(errors as nat) + " errors"@]
    } else {
        Seq::empty()
    };
    seq![state] + need + errs
}

/// The status line of a folder: its parts joined by `, `. The size of the
/// files still needed comes already written out.
pub fn build_folder_status_line(status: &FolderStatus, need_bytes_text: &str) -> (r: String)
    ensures
        r@ == join_seq(status_parts(*status, need_bytes_text@), ", "@),
{
    let state = match &status.state {
        Some(s) => owned(s.as_str()),
        None => owned("unknown"),
    };
    let need_files: u64 = match status.need_files {
        Some(n) => n,
        None => 0,
    };
    let errors: u64 = match status.errors {
        Some(n) => n,
        None => 0,
    };
    let mut parts: Vec<String> = Vec::new();
    parts.push(state);
    if need_files > 0 {
        let mut p = decimal_string(need_files);
        p.append(" files (");
        p.append(need_bytes_text);
        p.append(")");
        parts.push(p);
    }
    if errors > 0 {
        parts.push(concat2(decimal_string(errors).as_str(), " errors"));
    }
    assert(views(parts@) =~= status_parts(*status, need_bytes_text@));
    join(&parts, ", ")
}

/// A folder as the configuration lists it: the fields that the overview reads.
#[derive(Debug)]
pub struct FolderEntry {
    pub id: Option<String>,
    pub label: Option<String>,
    pub paused: Option<bool>,
}

/// The ID of a listed folder, `?` when it has none.
pub open spec fn folder_id_view(f: FolderEntry) -> Seq<char> {
    match f.id {
        Some(id) => id@,
        None => "?"@,
    }
}

/// The label of a listed folder: its label when that is not empty, else its ID.
pub open spec fn folder_label_view(f: FolderEntry) -> Seq<char> {
    match f.label {
        Some(l) => if l@.len() > 0 {
            l@
        } else {
            folder_id_view(f)
        },
        None => folder_id_view(f),
    }
}

/// A folder is shown by its label whenever that is not empty, whatever its
/// ID; by its ID only when the label is missing or empty; by `?` when it
/// has neither.
pub proof fn lemma_folder_label_choice(f: FolderEntry, other_id: Option<String>)
    ensures
        f.label matches Some(l) ==> (l@.len() > 0 ==> folder_label_view(f) == l@),
        f.label matches Some(l) ==> (l@.len() > 0 ==> folder_label_view((FolderEntry { id: other_id, ..f }))
            == folder_label_view(f)),
        (f.label is None || f.label->0@.len() == 0) ==> folder_label_view(f) == match f.id {
            Some(id) => id@,
            None => "?"@,
        },
        f.id matches Some(id) ==> folder_id_view(f) == id@,
{
}

/// The ID of a listed folder, `?` when it has none.
pub fn folder_id(folder: &FolderEntry) -> (r: String)
    ensures
        r@ == folder_id_view(*folder),
{
    match &folder.id {
        Some(id) => owned(id.as_str()),
        None => owned("?"),
    }
}

/// The label of a listed folder: its label when that is not empty, else its ID.
pub fn folder_label(folder: &FolderEntry) -> (r: String)
    ensures
        r@ == folder_label_view(*folder),
{
    match &folder.label {
        Some(l) => {
            if l.as_str().unicode_len() > 0 {
                owned(l.as_str())
            } else {
                folder_id(folder)
            }
        },
        None => folder_id(folder),
    }
}

/// Whether a listed folder is paused; a missing flag counts as not paused.
pub fn folder_is_paused(folder: &FolderEntry) -> (r: bool)
    ensures
        r == (folder.paused == Some(true)),
{
    match folder.paused {
        Some(p) => p,
        None => false,
    }
}

/// What the overview says of a folder.
#[derive(Debug)]
pub enum FolderState {
    /// The folder is paused.
    Paused,
    /// Its status could not be had.
    Unavailable,
    /// Its status line.
    Status(String),
}

/// The text for each folder state.
pub open spec fn folder_state_text(s: FolderState) -> Seq<char> {
    match s {
        FolderState::Paused => "paused"@,
        FolderState::Unavailable => "(status unavailable)"@,
        FolderState::Status(line) => line@,
    }
}

/// The overview line of a folder: its label padded to 20 characters, then
/// what is known of its state.
pub fn folder_overview_line(label: &str, state: &FolderState) -> (r: String)
    ensures
        r@ == pad_right_spec(label@, 20) + " "@ + folder_state_text(*state),
{
    let mut r = pad_right(label, 20);
    r.append(" ");
    match state {
        FolderState::Paused => r.append("paused"),
        FolderState::Unavailable => r.append("(status unavailable)"),
        FolderState::Status(line) => r.append(line.as_str()),
    }
    r
}

} // verus!
