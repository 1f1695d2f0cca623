//! The lines the client prints about the system, errors, pending devices
//! and folders, events and configuration, and the unit that a byte count is
//! shown in.

use vstd::prelude::*;
use crate::config::Config;
use crate::devices::{short_id, short_id_ok, short_id_view};
use crate::text::{concat2, concat3, decimal, decimal_string, owned, views};
use crate::times::{duration_text, format_duration_since, UtcDateTime};

verus! {

/// The unit that a byte count is shown in.
#[derive(Debug, Clone, Copy, PartialEq, Eq, Structural)]
pub enum ByteUnit {
    B,
    KB,
    MB,
    GB,
    TB,
}

/// The number of bytes in one unit.
pub open spec fn unit_size(u: ByteUnit) -> nat {
    match u {
        ByteUnit::B => 1,
        ByteUnit::KB => 1024,
        ByteUnit::MB => 1048576,
        ByteUnit::GB => 1073741824,
        ByteUnit::TB => 1099511627776,
    }
}

/// The largest unit (up to TB) that the count reaches; bytes below 1 KB.
pub open spec fn byte_unit_spec(bytes: nat) -> ByteUnit {
    if bytes >= 1099511627776 {
        ByteUnit::TB
    } else if bytes >= 1073741824 {
        ByteUnit::GB
    } else if bytes >= 1048576 {
        ByteUnit::MB
    } else if bytes >= 1024 {
        ByteUnit::KB
    } else {
        ByteUnit::B
    }
}

/// The unit that a byte count is shown in: the largest of KB, MB, GB, TB
/// (powers of 1024) that the count reaches, else bytes.
pub fn byte_unit(bytes: u64) -> (u: ByteUnit)
    ensures
        u == byte_unit_spec(bytes as nat),
{
    if bytes >= 1099511627776 {
        ByteUnit::TB
    } else if bytes >= 1073741824 {
        ByteUnit::GB
    } else if bytes >= 1048576 {
        ByteUnit::MB
    } else if bytes >= 1024 {
        ByteUnit::KB
    } else {
        ByteUnit::B
    }
}

/// A count shown in a unit other than bytes is at least one and (below TB)
/// less than 1024 of that unit; bytes are shown only below 1 KB.
pub proof fn lemma_byte_unit_range(bytes: nat)
    ensures
        byte_unit_spec(bytes) == ByteUnit::B <==> bytes < 1024,
        byte_unit_spec(bytes) != ByteUnit::B ==> unit_size(byte_unit_spec(bytes)) <= bytes,
        byte_unit_spec(bytes) != ByteUnit::TB ==> bytes < 1024 * unit_size(byte_unit_spec(bytes)),
{
}

/// A byte is the smallest unit and each unit is 1024 times the one below
/// it, so TB is 2^40 bytes. A count shown in a unit is at least one of it,
/// and below 2^50 bytes (1024 TB) less than 1024 of it.
pub proof fn lemma_units_step(bytes: nat)
    ensures
        unit_size(ByteUnit::B) == 1,
        unit_size(ByteUnit::KB) == 1024 * unit_size(ByteUnit::B),
        unit_size(ByteUnit::MB) == 1024 * unit_size(ByteUnit::KB),
        unit_size(ByteUnit::GB) == 1024 * unit_size(ByteUnit::MB),
        unit_size(ByteUnit::TB) == 1024 * unit_size(ByteUnit::GB),
        bytes >= 1 ==> unit_size(byte_unit_spec(bytes)) <= bytes,
        bytes < 0x4_0000_0000_0000 ==> bytes < 1024 * unit_size(byte_unit_spec(bytes)),
{
}

/// The number of bytes in one unit.
pub fn unit_divisor(u: ByteUnit) -> (d: u64)
    ensures
        d == unit_size(u),
{
    match u {
        ByteUnit::B => 1,
        ByteUnit::KB => 1024,
        ByteUnit::MB => 1048576,
        ByteUnit::GB => 1073741824,
        ByteUnit::TB => 1099511627776,
    }
}

/// The name of a unit.
pub open spec fn unit_label_spec(u: ByteUnit) -> Seq<char> {
    match u {
        ByteUnit::B => "B"@,
        ByteUnit::KB => "KB"@,
        ByteUnit::MB => "MB"@,
        ByteUnit::GB => "GB"@,
        ByteUnit::TB => "TB"@,
    }
}

/// The name of a unit.
pub fn unit_label(u: ByteUnit) -> (r: &'static str)
    ensures
        r@ == unit_label_spec(u),
{
    match u {
        ByteUnit::B => "B",
        ByteUnit::KB => "KB",
        ByteUnit::MB => "MB",
        ByteUnit::GB => "GB",
        ByteUnit::TB => "TB",
    }
}

/// A byte count below 1 KB, written out: the count and ` B`.
pub fn format_small_bytes(bytes: u64) -> (r: String)
    ensures
        r@ == decimal(bytes as nat) + " B"@,
{
    concat2(decimal_string(bytes).as_str(), " B")
}

/// The version line: `Syncthing` and the version, `unknown` when missing.
pub fn version_line(version: Option<&str>) -> (r: String)
    ensures
        r@ == "Syncthing "@ + match version {
            Some(v) => v@,
            None => "unknown"@,
        },
{
    match version {
        Some(v) => concat2("Syncthing ", v),
        None => concat2("Syncthing ", "unknown"),
    }
}

/// The uptime line: whole hours and the minutes left over (0 when missing).
pub fn uptime_line(uptime: Option<u64>) -> (r: String)
    ensures
        ({
            let u: u64 = match uptime {
                Some(u) => u,
                None => 0,
            };
            r@ == "Uptime: "@ + decimal((u / 3600) as nat) + "h "@ + decimal(((u % 3600) / 60) as nat) + "m"@
        }),
{
    let u: u64 = match uptime {
        Some(u) => u,
        None => 0,
    };
    let hours = u / 3600;
    let mins = (u % 3600) / 60;
    let mut r = concat2("Uptime: ", decimal_string(hours).as_str());
    r.append("h ");
    r.append(decimal_string(mins).as_str());
    r.append("m");
    r
}

/// An error of one folder: the fields that are shown.
#[derive(Debug)]
pub struct FolderErrorEntry {
    pub path: Option<String>,
    pub error: Option<String>,
}

/// An optional string, or `?`.
pub open spec fn or_question(o: Option<String>) -> Seq<char> {
    match o {
        Some(s) => s@,
        None => "?"@,
    }
}

/// The lines for a folder's errors: one `path: error` line each (`?` for a
/// missing field), or a single line saying there are none.
pub fn folder_error_lines(folder_id: &str, errors: &Option<Vec<FolderErrorEntry>>) -> (r: Vec<String>)
    ensures
        match errors {
            Some(errs) if errs@.len() > 0 => r@.len() == errs@.len() && forall|i: int|
                0 <= i < errs@.len() ==> (#[trigger] r@[i])@ == or_question(errs@[i].path) + ": "@ + or_question(
                    errs@[i].error,
                ),
            _ => r@.len() == 1 && r@[0]@ == "No errors for folder '"@ + folder_id@ + "'"@,
        },
{
    let mut lines: Vec<String> = Vec::new();
    match errors {
        Some(errs) if errs.len() > 0 => {
            let mut i: usize = 0;
            while i < errs.len()
                invariant
                    i <= errs@.len(),
                    lines@.len() == i,
                    forall|j: int|
                        0 <= j < i ==> (#[trigger] lines@[j])@ == or_question(errs@[j].path) + ": "@ + or_question(
                            errs@[j].error,
                        ),
                decreases errs.len() - i,
            {
                let path = match &errs[i].path {
                    Some(p) => p.as_str(),
                    None => "?",
                };
                let error = match &errs[i].error {
                    Some(e) => e.as_str(),
                    None => "?",
                };
                lines.push(concat3(path, ": ", error));
                i = i + 1;
            }
        },
        _ => {
            lines.push(concat3("No errors for folder '", folder_id, "'"));
        },
    }
    lines
}

/// A system error: the fields that are shown.
#[derive(Debug)]
pub struct SystemErrorEntry {
    pub when: Option<String>,
    pub message: Option<String>,
}

/// The line for a system error at `now`: `[age] message`, with the age of
/// its time and `?` for missing fields.
pub open spec fn error_line(e: SystemErrorEntry, now: UtcDateTime) -> Seq<char> {
    "["@ + duration_text(or_question(e.when), now) + "] "@ + or_question(e.message)
}

/// The lines for the system errors: `[age] message` each, with the age of
/// its time (`?` for a missing field), or a single line saying there are
/// none.
pub fn global_error_lines(errors: &Option<Vec<SystemErrorEntry>>, now: &UtcDateTime) -> (r: Vec<String>)
    ensures
        match errors {
            Some(errs) if errs@.len() > 0 => r@.len() == errs@.len() && forall|i: int|
                0 <= i < errs@.len() ==> #[trigger] r@[i]@ == error_line(errs@[i], *now),
            _ => r@.len() == 1 && r@[0]@ == "No errors"@,
        },
{
    let mut lines: Vec<String> = Vec::new();
    match errors {
        Some(errs) if errs.len() > 0 => {
            let mut i: usize = 0;
            while i < errs.len()
                invariant
                    i <= errs@.len(),
                    lines@.len() == i,
                    forall|j: int| 0 <= j < i ==> #[trigger] lines@[j]@ == error_line(errs@[j], *now),
                decreases errs.len() - i,
            {
                let when = match &errs[i].when {
                    Some(w) => w.as_str(),
                    None => "?",
                };
                let msg = match &errs[i].message {
                    Some(m) => m.as_str(),
                    None => "?",
                };
                let age = format_duration_since(when, now);
                let line = concat3("[", age.as_str(), "] ");
                let line = concat2(line.as_str(), msg);
                assert(when@ == or_question(errs@[i as int].when));
                assert(line@ == error_line(errs@[i as int], *now));
                lines.push(line);
                i = i + 1;
            }
        },
        _ => {
            lines.push(owned("No errors"));
        },
    }
    lines
}

/// A device waiting to be accepted: its ID and the name it announced.
#[derive(Debug)]
pub struct PendingDevice {
    pub device_id: String,
    pub name: Option<String>,
}

/// The lines for pending devices: `  name (short ID)` each (`unknown` for a
/// missing name), or `  (none)`.
pub fn pending_device_lines(devices: &Option<Vec<PendingDevice>>) -> (r: Vec<String>)
    requires
        devices matches Some(devs) ==> forall|i: int| 0 <= i < devs@.len() ==> short_id_ok(#[trigger] devs@[i].device_id@),
    ensures
        match devices {
            Some(devs) if devs@.len() > 0 => r@.len() == devs@.len() && forall|i: int|
                0 <= i < devs@.len() ==> (#[trigger] r@[i])@ == "  "@ + match devs@[i].name {
                    Some(n) => n@,
                    None => "unknown"@,
                } + " ("@ + short_id_view(devs@[i].device_id@) + ")"@,
            _ => r@.len() == 1 && r@[0]@ == "  (none)"@,
        },
{
    let mut lines: Vec<String> = Vec::new();
    match devices {
        Some(devs) if devs.len() > 0 => {
            let mut i: usize = 0;
            while i < devs.len()
                invariant
                    i <= devs@.len(),
                    forall|k: int| 0 <= k < devs@.len() ==> short_id_ok(#[trigger] devs@[k].device_id@),
                    lines@.len() == i,
                    forall|j: int|
                        0 <= j < i ==> (#[trigger] lines@[j])@ == "  "@ + match devs@[j].name {
                            Some(n) => n@,
                            None => "unknown"@,
                        } + " ("@ + short_id_view(devs@[j].device_id@) + ")"@,
                decreases devs.len() - i,
            {
                let name = match &devs[i].name {
                    Some(n) => n.as_str(),
                    None => "unknown",
                };
                let mut line = concat3("  ", name, " (");
                line.append(short_id(devs[i].device_id.as_str()).as_str());
                line.append(")");
                lines.push(line);
                i = i + 1;
            }
        },
        _ => {
            lines.push(owned("  (none)"));
        },
    }
    lines
}

/// A device's offer of a folder: the device and the label it gave.
#[derive(Debug)]
pub struct FolderOffer {
    pub device_id: String,
    pub label: Option<String>,
}

/// A folder that devices offer to share: its ID and the offers, `None` when
/// the offers are not an object.
#[derive(Debug)]
pub struct PendingFolder {
    pub folder_id: String,
    pub offered_by: Option<Vec<FolderOffer>>,
}

/// The line for one offer: the label (the folder ID when missing), `from`
/// and the short ID of the offering device.
pub open spec fn offer_line(folder_id: Seq<char>, offer: FolderOffer) -> Seq<char> {
    let label = match offer.label {
        Some(l) => l@,
        None => folder_id,
    };
    label + " from "@ + short_id_view(offer.device_id@)
}

/// The lines of all offers, folder by folder, offer by offer.
pub open spec fn pending_lines_spec(folders: Seq<PendingFolder>) -> Seq<Seq<char>>
    decreases folders.len(),
{
    if folders.len() == 0 {
        Seq::empty()
    } else {
        let f = folders.last();
        pending_lines_spec(folders.drop_last()) + match f.offered_by {
            Some(offers) => offers@.map_values(|o: FolderOffer| offer_line(f.folder_id@, o)),
            None => Seq::empty(),
        }
    }
}

/// The lines of one pending folder: one per offer, in order, each the
/// offer's label (the folder ID when it gave none), `from` and the short
/// ID of the offering device; none when the offers are not an object.
pub proof fn lemma_pending_lines_one(f: PendingFolder)
    ensures
        pending_lines_spec(seq![f]).len() == match f.offered_by {
            Some(offers) => offers@.len(),
            None => 0,
        },
        f.offered_by matches Some(offers) ==> forall|k: int|
            0 <= k < offers@.len() ==> #[trigger] pending_lines_spec(seq![f])[k] == match offers@[k].label {
                Some(l) => l@,
                None => f.folder_id@,
            } + " from "@ + short_id_view(offers@[k].device_id@),
{
    assert(seq![f].drop_last() =~= Seq::<PendingFolder>::empty());
    assert(seq![f].last() == f);
    let tail = match f.offered_by {
        Some(offers) => offers@.map_values(|o: FolderOffer| offer_line(f.folder_id@, o)),
        None => Seq::empty(),
    };
    assert(pending_lines_spec(Seq::<PendingFolder>::empty()) =~= Seq::<Seq<char>>::empty());
    assert(pending_lines_spec(seq![f]) == pending_lines_spec(Seq::<PendingFolder>::empty()) + tail);
    assert(pending_lines_spec(seq![f]) =~= tail);
}

/// The lines of several pending folders are those of each folder in turn:
/// the lines of the first folders are kept, and those of the later ones
/// follow them.
pub proof fn lemma_pending_lines_concat(a: Seq<PendingFolder>, b: Seq<PendingFolder>)
    ensures
        pending_lines_spec(a + b) == pending_lines_spec(a) + pending_lines_spec(b),
    decreases b.len(),
{
    if b.len() == 0 {
        assert(a + b =~= a);
        assert(pending_lines_spec(a) + pending_lines_spec(b) =~= pending_lines_spec(a));
    } else {
        lemma_pending_lines_concat(a, b.drop_last());
        assert((a + b).drop_last() =~= a + b.drop_last());
        assert((a + b).last() == b.last());
        let tail = match b.last().offered_by {
            Some(offers) => offers@.map_values(|o: FolderOffer| offer_line(b.last().folder_id@, o)),
            None => Seq::empty(),
        };
        assert(pending_lines_spec(a) + pending_lines_spec(b.drop_last()) + tail
            =~= pending_lines_spec(a) + (pending_lines_spec(b.drop_last()) + tail));
    }
}

/// Every device ID that offers the folder can be cut to its short form.
pub open spec fn offer_ids_ok(f: PendingFolder) -> bool {
    match f.offered_by {
        Some(offers) => forall|j: int| 0 <= j < offers@.len() ==> short_id_ok(#[trigger] offers@[j].device_id@),
        None => true,
    }
}

/// Every offering device's ID can be cut to its short form.
pub open spec fn offers_ok(folders: Seq<PendingFolder>) -> bool {
    forall|i: int|
        0 <= i < folders.len() ==> offer_ids_ok(#[trigger] folders[i])
}

/// The lines for folders offered by other devices, one per offer; none when
/// the pending folders are not an object.
pub fn pending_folder_lines(folders: &Option<Vec<PendingFolder>>) -> (r: Vec<String>)
    requires
        folders matches Some(f) ==> offers_ok(f@),
    ensures
        match folders {
            Some(f) => views(r@) == pending_lines_spec(f@),
            None => r@.len() == 0,
        },
{
    let mut lines: Vec<String> = Vec::new();
    let flds = match folders {
        Some(f) => f,
        None => return lines,
    };
    let mut i: usize = 0;
    while i < flds.len()
        invariant
            i <= flds@.len(),
            offers_ok(flds@),
            views(lines@) == pending_lines_spec(flds@.subrange(0, i as int)),
        decreases flds.len() - i,
    {
        let folder = &flds[i];
        assert(flds@.subrange(0, i + 1).drop_last() =~= flds@.subrange(0, i as int));
        match &folder.offered_by {
            Some(offers) => {
                let ghost start = views(lines@);
                let mut j: usize = 0;
                while j < offers.len()
                    invariant
                        j <= offers@.len(),
                        folder.offered_by == Some(*offers),
                        forall|k: int| 0 <= k < offers@.len() ==> short_id_ok(#[trigger] offers@[k].device_id@),
                        views(lines@) == start + offers@.subrange(0, j as int).map_values(
                            |o: FolderOffer| offer_line(folder.folder_id@, o),
                        ),
                    decreases offers.len() - j,
                {
                    let label = match &offers[j].label {
                        Some(l) => l.as_str(),
                        None => folder.folder_id.as_str(),
                    };
                    let line = concat3(label, " from ", short_id(offers[j].device_id.as_str()).as_str());
                    let ghost prev = views(lines@);
                    lines.push(line);
                    assert(views(lines@) =~= prev.push(line@));
                    assert(offers@.subrange(0, j + 1).map_values(|o: FolderOffer| offer_line(folder.folder_id@, o))
                        =~= offers@.subrange(0, j as int).map_values(
                        |o: FolderOffer| offer_line(folder.folder_id@, o),
                    ).push(offer_line(folder.folder_id@, offers@[j as int])));
                    j = j + 1;
                }
                assert(offers@.subrange(0, offers@.len() as int) =~= offers@);
            },
            None => {},
        }
        i = i + 1;
    }
    assert(flds@.subrange(0, flds@.len() as int) =~= flds@);
    lines
}

/// Lines indented by two spaces, or `  (none)` when there are none.
pub fn indented_or_none(lines: &Vec<String>) -> (r: Vec<String>)
    ensures
        lines@.len() == 0 ==> r@.len() == 1 && r@[0]@ == "  (none)"@,
        lines@.len() > 0 ==> r@.len() == lines@.len() && forall|i: int|
            0 <= i < lines@.len() ==> (#[trigger] r@[i])@ == "  "@ + lines@[i]@,
{
    let mut out: Vec<String> = Vec::new();
    if lines.len() == 0 {
        out.push(owned("  (none)"));
        return out;
    }
    let mut i: usize = 0;
    while i < lines.len()
        invariant
            i <= lines@.len(),
            out@.len() == i,
            forall|j: int| 0 <= j < i ==> (#[trigger] out@[j])@ == "  "@ + lines@[j]@,
        decreases lines.len() - i,
    {
        out.push(concat2("  ", lines[i].as_str()));
        i = i + 1;
    }
    out
}

/// An event: the fields that are shown.
#[derive(Debug)]
pub struct EventEntry {
    pub id: Option<u64>,
    pub kind: Option<String>,
    pub time: Option<String>,
}

/// The line for an event at `now`: `[id] age - type`, with 0 and `?` for
/// missing fields.
pub open spec fn event_line(e: EventEntry, now: UtcDateTime) -> Seq<char> {
    "["@ + decimal(
        match e.id {
            Some(n) => n as nat,
            None => 0,
        },
    ) + "] "@ + duration_text(or_question(e.time), now) + " - "@ + or_question(e.kind)
}

/// The number of events shown: at most `limit`.
pub open spec fn shown_events(n: nat, limit: u32) -> nat {
    if n < limit {
        n
    } else {
        limit as nat
    }
}

/// The lines for events, newest first: the last `limit` events in reverse
/// order; none when the events are not an array.
pub fn event_lines(events: &Option<Vec<EventEntry>>, limit: u32, now: &UtcDateTime) -> (r: Vec<String>)
    ensures
        match events {
            Some(evs) => r@.len() == shown_events(evs@.len(), limit) && forall|i: int|
                0 <= i < r@.len() ==> #[trigger] r@[i]@ == event_line(evs@[evs@.len() - 1 - i], *now),
            None => r@.len() == 0,
        },
{
    let mut lines: Vec<String> = Vec::new();
    let evs = match events {
        Some(e) => e,
        None => return lines,
    };
    let n = evs.len();
    let count: usize = if n < limit as usize {
        n
    } else {
        limit as usize
    };
    let mut i: usize = 0;
    while i < count
        invariant
            n == evs@.len(),
            count <= n,
            count == shown_events(n as nat, limit),
            i <= count,
            lines@.len() == i,
            forall|j: int| 0 <= j < i ==> #[trigger] lines@[j]@ == event_line(evs@[n - 1 - j], *now),
        decreases count - i,
    {
        let e = &evs[n - 1 - i];
        let id: u64 = match e.id {
            Some(x) => x,
            None => 0,
        };
        let kind = match &e.kind {
            Some(k) => k.as_str(),
            None => "?",
        };
        let time = match &e.time {
            Some(t) => t.as_str(),
            None => "?",
        };
        let age = format_duration_since(time, now);
        let mut line = concat3("[", decimal_string(id).as_str(), "] ");
        line.append(age.as_str());
        line.append(" - ");
        line.append(kind);
        assert(time@ == or_question(e.time));
        assert(line@ == "["@ + decimal(id as nat) + "] "@ + age@ + " - "@ + or_question(e.kind));
        assert(line@ == event_line(*e, *now));
        lines.push(line);
        i = i + 1;
    }
    lines
}

/// The lines that show the configuration: the stored API key (or a note
/// that Syncthing's own is used) and the host.
pub fn config_report(config: &Config) -> (r: Vec<String>)
    ensures
        r@.len() == 2,
        r@[0]@ == "API Key: "@ + match config.api_key {
            Some(k) => k@,
            None => "(from syncthing config)"@,
        },
        r@[1]@ == "Host: "@ + config.host_view(),
{
    let key = match &config.api_key {
        Some(k) => k.as_str(),
        None => "(from syncthing config)",
    };
    let mut lines: Vec<String> = Vec::new();
    lines.push(concat2("API Key: ", key));
    lines.push(concat2("Host: ", config.host()));
    lines
}

/// Stores the API key and the host that are given; the others stay.
pub fn apply_config_update(config: &mut Config, api_key: Option<String>, host: Option<String>)
    ensures
        final(config).api_key == if api_key is Some {
            api_key
        } else {
            old(config).api_key
        },
        final(config).host == if host is Some {
            host
        } else {
            old(config).host
        },
{
    if let Some(key) = api_key {
        config.api_key = Some(key);
    }
    if let Some(h) = host {
        config.host = Some(h);
    }
}

/// The message after a rescan was triggered, for one folder or all.
pub fn scan_message(folder: Option<&str>) -> (r: String)
    ensures
        r@ == match folder {
            Some(f) => "Scan triggered for folder: "@ + f@,
            None => "Scan triggered for all folders"@,
        },
{
    match folder {
        Some(f) => concat2("Scan triggered for folder: ", f),
        None => owned("Scan triggered for all folders"),
    }
}

/// The message after a folder was added: its ID, path and the names of the
/// devices it is shared with.
pub fn folder_added_message(id: &str, path: &str, device_names: &str) -> (r: String)
    ensures
        r@ == "added folder "@ + id@ + " at "@ + path@ + " shared with "@ + device_names@,
{
    let mut r = concat3("added folder ", id, " at ");
    r.append(path);
    r.append(" shared with ");
    r.append(device_names);
    r
}

/// The message after a folder was shared with more devices.
pub fn folder_shared_message(id: &str, device_names: &str) -> (r: String)
    ensures
        r@ == "shared folder "@ + id@ + " with "@ + device_names@,
{
    let mut r = concat3("shared folder ", id, " with ");
    r.append(device_names);
    r
}

/// The message after a folder was removed.
pub fn folder_removed_message(id: &str) -> (r: String)
    ensures
        r@ == "removed folder "@ + id@,
{
    concat2("removed folder ", id)
}

} // verus!
