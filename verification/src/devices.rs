//! Devices as the Syncthing configuration lists them: picking devices by
//! name, ID or ID prefix, or all paused or unpaused ones; adding this device
//! to a selection; and the lines printed about devices.

use vstd::prelude::*;
use vstd::utf8::{encode_utf8, is_ascii_chars, is_char_boundary};
use crate::errors::CliError;
use crate::text::{
    concat2, concat3, eq_ignore_ascii_case, eq_ignore_ascii_case_spec, join, join_seq, owned,
    pad_right, pad_right_spec, starts_with, str_eq, views,
};

verus! {

/// A configured device: the fields of its configuration that the client reads.
#[derive(Debug)]
pub struct DeviceEntry {
    /// `deviceID`, when it is a string.
    pub device_id: Option<String>,
    /// `name`, when it is a string.
    pub name: Option<String>,
    /// `paused`, when it is a boolean.
    pub paused: Option<bool>,
}

/// The Unicode lowercase mapping of a string (`str::to_lowercase`).
pub uninterp spec fn unicode_lowercase(s: Seq<char>) -> Seq<char>;

/// `str::to_lowercase`: the string with each character replaced by its
/// Unicode lowercase mapping. The result is named, not described: it is
/// `unicode_lowercase` of the argument. One fact is stated of it: a string
/// that differs from the argument only in the case of ASCII letters has the
/// same lowercase. `to_lowercase` lowercases the ASCII letters as
/// `to_ascii_lowercase` does (std points from the one to the other for
/// exactly that), and an ASCII letter's case does not change how any other
/// character is lowercased.
#[verifier::external_body]
fn to_lowercase(s: &str) -> (r: String)
    ensures
        r@ == unicode_lowercase(s@),
        forall|t: Seq<char>| #[trigger] eq_ignore_ascii_case_spec(t, s@) ==> unicode_lowercase(t) == r@,
{
    s.to_lowercase()
}

/// The views of (ID, name) pairs.
pub open spec fn pair_views(v: Seq<(String, String)>) -> Seq<(Seq<char>, Seq<char>)> {
    v.map_values(|p: (String, String)| (p.0@, p.1@))
}

/// The names of (ID, name) pairs.
pub open spec fn pair_names(v: Seq<(String, String)>) -> Seq<Seq<char>> {
    v.map_values(|p: (String, String)| p.1@)
}

/// The (ID, name) of a device with a string ID; the name defaults to the ID.
pub open spec fn id_and_name(d: DeviceEntry) -> Option<(Seq<char>, Seq<char>)> {
    match d.device_id {
        Some(id) => Some(
            (
                id@,
                match d.name {
                    Some(n) => n@,
                    None => id@,
                },
            ),
        ),
        None => None,
    }
}

/// Whether a device is paused; a missing flag counts as not paused.
pub open spec fn is_paused(d: DeviceEntry) -> bool {
    match d.paused {
        Some(p) => p,
        None => false,
    }
}

/// An optional string, or the empty string.
pub open spec fn or_empty(o: Option<String>) -> Seq<char> {
    match o {
        Some(s) => s@,
        None => Seq::empty(),
    }
}

/// The match rule of a query against a device's name and ID, with the
/// lowercase forms of the ID and the query: the name or the ID equals the
/// query up to ASCII case, or the lowercase query is a prefix of the
/// lowercase ID.
pub open spec fn query_matches_spec(
    name: Seq<char>,
    id: Seq<char>,
    query: Seq<char>,
    id_lower: Seq<char>,
    query_lower: Seq<char>,
) -> bool {
    eq_ignore_ascii_case_spec(name, query) || eq_ignore_ascii_case_spec(id, query)
        || query_lower.is_prefix_of(id_lower)
}

/// Whether a device matches a query (missing name or ID count as empty):
/// its name equals the query up to ASCII case, or the lowercase query is a
/// prefix of its lowercase ID.
pub open spec fn device_matches_spec(d: DeviceEntry, query: Seq<char>) -> bool {
    eq_ignore_ascii_case_spec(or_empty(d.name), query)
        || unicode_lowercase(query).is_prefix_of(unicode_lowercase(or_empty(d.device_id)))
}

/// The (ID, name) of each device, in order, whose paused flag is `paused`.
pub open spec fn paused_selection(devs: Seq<DeviceEntry>, paused: bool) -> Seq<(Seq<char>, Seq<char>)>
    decreases devs.len(),
{
    if devs.len() == 0 {
        Seq::empty()
    } else {
        let rest = paused_selection(devs.drop_last(), paused);
        let d = devs.last();
        if is_paused(d) == paused {
            match id_and_name(d) {
                Some(p) => rest.push(p),
                None => rest,
            }
        } else {
            rest
        }
    }
}

/// The (ID, name) of each device, in order, that matches the query.
pub open spec fn query_selection(devs: Seq<DeviceEntry>, query: Seq<char>) -> Seq<(Seq<char>, Seq<char>)>
    decreases devs.len(),
{
    if devs.len() == 0 {
        Seq::empty()
    } else {
        let rest = query_selection(devs.drop_last(), query);
        let d = devs.last();
        if device_matches_spec(d, query) {
            match id_and_name(d) {
                Some(p) => rest.push(p),
                None => rest,
            }
        } else {
            rest
        }
    }
}

/// `e` is the error of a query that does not select exactly one device.
pub open spec fn query_error(e: CliError, devs: Seq<DeviceEntry>, query: Seq<char>) -> bool {
    let m = query_selection(devs, query);
    if m.len() == 0 {
        e matches CliError::NoDeviceMatched(q) && q@ == query
    } else {
        e matches CliError::AmbiguousDevice(q, names) && q@ == query && views(names@) == m.map_values(
            |p: (Seq<char>, Seq<char>)| p.1,
        )
    }
}

/// The devices that a list of queries resolves to, each query selecting
/// exactly one device; `None` when some query does not.
pub open spec fn resolve_spec(devs: Seq<DeviceEntry>, queries: Seq<Seq<char>>) -> Option<Seq<(Seq<char>, Seq<char>)>>
    decreases queries.len(),
{
    if queries.len() == 0 {
        Some(Seq::empty())
    } else {
        match resolve_spec(devs, queries.drop_last()) {
            Some(prev) => {
                let m = query_selection(devs, queries.last());
                if m.len() == 1 {
                    Some(prev + m)
                } else {
                    None
                }
            },
            None => None,
        }
    }
}

/// Whether some pair has the ID `id`.
pub open spec fn has_id(v: Seq<(String, String)>, id: Seq<char>) -> bool {
    exists|i: int| 0 <= i < v.len() && (#[trigger] v[i]).0@ == id
}

/// A selection with a device added unless one with its ID is in it already.
pub open spec fn with_device(v: Seq<(String, String)>, d: (String, String)) -> Seq<(String, String)> {
    if has_id(v, d.0@) {
        v
    } else {
        v.push(d)
    }
}

/// The name of the device with ID `id` (the first such), or `this-device`
/// when there is none or it has no name.
pub open spec fn current_device_name(devs: Seq<DeviceEntry>, id: Seq<char>) -> Seq<char>
    decreases devs.len(),
{
    if devs.len() == 0 {
        "this-device"@
    } else if devs[0].device_id matches Some(x) && x@ == id {
        match devs[0].name {
            Some(n) => n@,
            None => "this-device"@,
        }
    } else {
        current_device_name(devs.drop_first(), id)
    }
}

/// The byte length of the short form of an ID: its first 7 bytes.
pub open spec fn short_id_len(id: Seq<char>) -> int {
    let n = encode_utf8(id).len() as int;
    if n < 7 {
        n
    } else {
        7
    }
}

/// The short form of an ID can be cut: its end is a character boundary.
pub open spec fn short_id_ok(id: Seq<char>) -> bool {
    is_char_boundary(encode_utf8(id), short_id_len(id))
}

/// The short form of an ID: the characters whose UTF-8 encoding is the
/// ID's first 7 bytes.
pub open spec fn short_id_view(id: Seq<char>) -> Seq<char> {
    choose|s: Seq<char>| encode_utf8(s) == encode_utf8(id).subrange(0, short_id_len(id))
}

/// The short form of an ID, a device ID's first 7 bytes (`&id[..7.min(id.len())]`).
pub fn short_id(id: &str) -> (r: String)
    requires
        short_id_ok(id@),
    ensures
        encode_utf8(r@) == encode_utf8(id@).subrange(0, short_id_len(id@)),
        r@ == short_id_view(id@),
{
    let n = id.as_bytes().len();
    let k = if n < 7 {
        n
    } else {
        7
    };
    let (head, _) = id.split_at(k);
    let r = head.to_owned();
    proof {
        let t = encode_utf8(id@).subrange(0, short_id_len(id@));
        assert(encode_utf8(r@) == t);
        let c = choose|s: Seq<char>| encode_utf8(s) == t;
        assert(encode_utf8(c) == t);
        vstd::utf8::encode_utf8_decode_utf8(c);
        vstd::utf8::encode_utf8_decode_utf8(r@);
    }
    r
}

/// Whether a query matches, given the device's name and ID and the lowercase
/// forms of the ID and the query.
pub fn query_matches(name: &str, id: &str, query: &str, id_lower: &str, query_lower: &str) -> (r: bool)
    ensures
        r == query_matches_spec(name@, id@, query@, id_lower@, query_lower@),
{
    eq_ignore_ascii_case(name, query) || eq_ignore_ascii_case(id, query) || starts_with(
        id_lower,
        query_lower,
    )
}

/// Whether a device matches a query: by name or full ID up to ASCII case,
/// or by a prefix of its ID up to case.
pub fn device_matches(device: &DeviceEntry, query: &str) -> (r: bool)
    ensures
        r == device_matches_spec(*device, query@),
{
    let q = to_lowercase(query);
    proof {
        reveal_strlit("");
        assert(""@ =~= Seq::<char>::empty());
    }
    let id = match &device.device_id {
        Some(s) => s.as_str(),
        None => "",
    };
    let name = match &device.name {
        Some(s) => s.as_str(),
        None => "",
    };
    assert(id@ == or_empty(device.device_id));
    assert(name@ == or_empty(device.name));
    let id_lower = to_lowercase(id);
    proof {
        // An ID equal to the query up to ASCII case has the query's lowercase,
        // so the ID test adds nothing to the prefix test.
        if eq_ignore_ascii_case_spec(id@, query@) {
            assert(unicode_lowercase(id@) == q@);
            assert(id_lower@.subrange(0, q@.len() as int) =~= q@);
        }
    }
    query_matches(name, id, query, id_lower.as_str(), q.as_str())
}

/// The (ID, name) of a device with a string ID; the name defaults to the ID.
pub fn device_id_and_name(device: &DeviceEntry) -> (r: Option<(String, String)>)
    ensures
        match id_and_name(*device) {
            Some(p) => r matches Some(x) && x.0@ == p.0 && x.1@ == p.1,
            None => r is None,
        },
{
    match &device.device_id {
        Some(id) => {
            let name = match &device.name {
                Some(n) => owned(n.as_str()),
                None => owned(id.as_str()),
            };
            Some((owned(id.as_str()), name))
        },
        None => None,
    }
}

/// The (ID, name) of each device, in order, whose paused flag is `paused`.
fn select_paused(devices: &[DeviceEntry], paused: bool) -> (r: Vec<(String, String)>)
    ensures
        pair_views(r@) == paused_selection(devices@, paused),
{
    let mut out: Vec<(String, String)> = Vec::new();
    let mut i: usize = 0;
    while i < devices.len()
        invariant
            i <= devices@.len(),
            pair_views(out@) == paused_selection(devices@.subrange(0, i as int), paused),
        decreases devices.len() - i,
    {
        let d = &devices[i];
        let p = match d.paused {
            Some(p) => p,
            None => false,
        };
        assert(devices@.subrange(0, i + 1).drop_last() =~= devices@.subrange(0, i as int));
        if p == paused {
            match device_id_and_name(d) {
                Some(pair) => {
                    out.push(pair);
                    assert(pair_views(out@) =~= paused_selection(devices@.subrange(0, i + 1), paused));
                },
                None => {},
            }
        }
        i = i + 1;
    }
    assert(devices@.subrange(0, devices@.len() as int) =~= devices@);
    out
}

/// The (ID, name) of each device, in order, that matches the query.
fn select_matching(devices: &[DeviceEntry], query: &str) -> (r: Vec<(String, String)>)
    ensures
        pair_views(r@) == query_selection(devices@, query@),
{
    let mut out: Vec<(String, String)> = Vec::new();
    let mut i: usize = 0;
    while i < devices.len()
        invariant
            i <= devices@.len(),
            pair_views(out@) == query_selection(devices@.subrange(0, i as int), query@),
        decreases devices.len() - i,
    {
        let d = &devices[i];
        assert(devices@.subrange(0, i + 1).drop_last() =~= devices@.subrange(0, i as int));
        if device_matches(d, query) {
            match device_id_and_name(d) {
                Some(pair) => {
                    out.push(pair);
                    assert(pair_views(out@) =~= query_selection(devices@.subrange(0, i + 1), query@));
                },
                None => {},
            }
        }
        i = i + 1;
    }
    assert(devices@.subrange(0, devices@.len() as int) =~= devices@);
    out
}

/// The names of (ID, name) pairs.
fn names_of(pairs: &Vec<(String, String)>) -> (r: Vec<String>)
    ensures
        views(r@) == pair_names(pairs@),
{
    let mut out: Vec<String> = Vec::new();
    let mut i: usize = 0;
    while i < pairs.len()
        invariant
            i <= pairs@.len(),
            out@.len() == i,
            forall|j: int| 0 <= j < i ==> (#[trigger] out@[j])@ == pairs@[j].1@,
        decreases pairs.len() - i,
    {
        out.push(owned(pairs[i].1.as_str()));
        i = i + 1;
    }
    assert(views(out@) =~= pair_names(pairs@));
    out
}

/// The devices to pause or unpause: with `all`, every device not yet in the
/// target state; else the single device that the query matches.
pub fn select_devices(devices: &[DeviceEntry], query: Option<&str>, all: bool, target_paused: bool) -> (r: Result<Vec<(String, String)>, CliError>)
    ensures
        all && query is Some ==> r matches Err(CliError::DeviceAndAll),
        all && query is None ==> (r matches Ok(v) && pair_views(v@) == paused_selection(devices@, !target_paused)),
        !all ==> match query {
            None => r matches Err(CliError::NoDeviceOrAll),
            Some(q) => {
                let m = query_selection(devices@, q@);
                &&& m.len() == 1 ==> (r matches Ok(v) && pair_views(v@) == m)
                &&& m.len() != 1 ==> (r matches Err(e) && query_error(e, devices@, q@))
            },
        },
{
    if all && query.is_some() {
        return Err(CliError::DeviceAndAll);
    }
    if all {
        return Ok(select_paused(devices, !target_paused));
    }
    let q = match query {
        Some(q) => q,
        None => return Err(CliError::NoDeviceOrAll),
    };
    let matches = select_matching(devices, q);
    if matches.len() == 0 {
        return Err(CliError::NoDeviceMatched(owned(q)));
    }
    if matches.len() > 1 {
        let names = names_of(&matches);
        proof {
            assert(pair_names(matches@) =~= query_selection(devices@, q@).map_values(
                |p: (Seq<char>, Seq<char>)| p.1,
            ));
        }
        return Err(CliError::AmbiguousDevice(owned(q), names));
    }
    Ok(matches)
}

/// The devices that each query names, in the order of the queries; each
/// query must name exactly one device.
pub fn resolve_devices(devices: &[DeviceEntry], queries: &[String]) -> (r: Result<Vec<(String, String)>, CliError>)
    ensures
        queries@.len() == 0 ==> r matches Err(CliError::NoDeviceGiven),
        queries@.len() > 0 ==> match resolve_spec(devices@, views(queries@)) {
            Some(sel) => r matches Ok(v) && pair_views(v@) == sel,
            None => r matches Err(e) && exists|i: int|
                0 <= i < queries@.len() && resolve_spec(devices@, views(queries@).take(i)) is Some
                    && query_selection(devices@, #[trigger] queries@[i]@).len() != 1 && query_error(
                    e,
                    devices@,
                    queries@[i]@,
                ),
        },
{
    if queries.len() == 0 {
        return Err(CliError::NoDeviceGiven);
    }
    let ghost qs = views(queries@);
    let mut selected: Vec<(String, String)> = Vec::new();
    let mut i: usize = 0;
    assert(qs.take(0) =~= Seq::<Seq<char>>::empty());
    while i < queries.len()
        invariant
            qs == views(queries@),
            i <= queries@.len(),
            resolve_spec(devices@, qs.take(i as int)) == Some(pair_views(selected@)),
        decreases queries.len() - i,
    {
        assert(qs.take(i + 1).drop_last() =~= qs.take(i as int));
        assert(qs.take(i + 1).last() == queries@[i as int]@);
        match select_devices(devices, Some(queries[i].as_str()), false, false) {
            Ok(mut sel) => {
                let ghost prev = selected@;
                selected.append(&mut sel);
                assert(pair_views(selected@) =~= pair_views(prev) + query_selection(devices@, queries@[i as int]@));
            },
            Err(e) => {
                assert(resolve_spec(devices@, qs.take(i + 1)) is None);
                proof {
                    lemma_resolve_none_stays(devices@, qs, i as int + 1);
                    assert(qs.take(qs.len() as int) =~= qs);
                }
                return Err(e);
            },
        }
        i = i + 1;
    }
    assert(qs.take(queries@.len() as int) =~= qs);
    Ok(selected)
}

/// Once a prefix of the queries fails to resolve, every longer one fails too.
proof fn lemma_resolve_none_stays(devs: Seq<DeviceEntry>, qs: Seq<Seq<char>>, k: int)
    requires
        0 <= k <= qs.len(),
        resolve_spec(devs, qs.take(k)) is None,
    ensures
        resolve_spec(devs, qs.take(qs.len() as int)) is None,
    decreases qs.len() - k,
{
    if k < qs.len() {
        assert(qs.take(k + 1).drop_last() =~= qs.take(k));
        lemma_resolve_none_stays(devs, qs, k + 1);
    }
}

/// The device with ID `device_id`, named as configured (the first device
/// with that ID); `this-device` when it is not configured or has no name.
pub fn find_current_device(devices: &[DeviceEntry], device_id: &str) -> (r: (String, String))
    ensures
        r.0@ == device_id@,
        r.1@ == current_device_name(devices@, device_id@),
{
    let mut i: usize = 0;
    assert(devices@.skip(0) =~= devices@);
    while i < devices.len()
        invariant
            i <= devices@.len(),
            current_device_name(devices@, device_id@) == current_device_name(devices@.skip(i as int), device_id@),
        decreases devices.len() - i,
    {
        assert(devices@.skip(i as int).drop_first() =~= devices@.skip(i + 1));
        assert(devices@.skip(i as int)[0] == devices@[i as int]);
        match &devices[i].device_id {
            Some(x) => {
                if str_eq(x.as_str(), device_id) {
                    let name = match &devices[i].name {
                        Some(n) => owned(n.as_str()),
                        None => owned("this-device"),
                    };
                    return (owned(device_id), name);
                }
            },
            None => {},
        }
        i = i + 1;
    }
    assert(devices@.skip(i as int) =~= Seq::<DeviceEntry>::empty());
    (owned(device_id), owned("this-device"))
}

/// Adds a device to a selection unless a device with its ID is in it already.
pub fn add_device_if_missing(devices: &mut Vec<(String, String)>, device: (String, String))
    ensures
        final(devices)@ == with_device(old(devices)@, device),
{
    let mut i: usize = 0;
    let mut already_selected = false;
    while i < devices.len()
        invariant
            i <= devices@.len(),
            devices@ == old(devices)@,
            already_selected == exists|j: int| 0 <= j < i && (#[trigger] devices@[j]).0@ == device.0@,
        decreases devices.len() - i,
    {
        if str_eq(devices[i].0.as_str(), device.0.as_str()) {
            already_selected = true;
        }
        i = i + 1;
    }
    if !already_selected {
        devices.push(device);
    }
}

/// Adds this device (ID `device_id`, named as configured) to a selection
/// unless it is in it already.
pub fn include_current_device(selected: &mut Vec<(String, String)>, device_id: &str, configured: &[DeviceEntry])
    ensures
        pair_views(final(selected)@) == if has_id(old(selected)@, device_id@) {
            pair_views(old(selected)@)
        } else {
            pair_views(old(selected)@).push((device_id@, current_device_name(configured@, device_id@)))
        },
{
    let current = find_current_device(configured, device_id);
    add_device_if_missing(selected, current);
    proof {
        if !has_id(old(selected)@, device_id@) {
            assert(pair_views(final(selected)@) =~= pair_views(old(selected)@).push(
                (device_id@, current_device_name(configured@, device_id@)),
            ));
        }
    }
}

/// The names of the selected devices, joined by `, `.
pub fn device_names(devices: &[(String, String)]) -> (r: String)
    ensures
        r@ == join_seq(pair_names(devices@), ", "@),
{
    let mut names: Vec<String> = Vec::new();
    let mut i: usize = 0;
    while i < devices.len()
        invariant
            i <= devices@.len(),
            names@.len() == i,
            forall|j: int| 0 <= j < i ==> (#[trigger] names@[j])@ == devices@[j].1@,
        decreases devices.len() - i,
    {
        names.push(owned(devices[i].1.as_str()));
        i = i + 1;
    }
    assert(views(names@) =~= pair_names(devices@));
    join(&names, ", ")
}

/// The message when no device is in the state to change.
pub fn no_devices_message(paused: bool) -> (r: String)
    ensures
        r@ == if paused {
            "No devices to pause"@
        } else {
            "No devices to unpause"@
        },
{
    if paused {
        owned("No devices to pause")
    } else {
        owned("No devices to unpause")
    }
}

/// The line that reports a device paused or unpaused: the verb, the name and
/// the short ID in brackets.
pub fn paused_device_line(paused: bool, id: &str, name: &str) -> (r: String)
    requires
        short_id_ok(id@),
    ensures
        r@ == (if paused {
            "paused"@
        } else {
            "unpaused"@
        }) + " "@ + name@ + " ("@ + short_id_view(id@) + ")"@,
{
    let verb = if paused {
        "paused"
    } else {
        "unpaused"
    };
    let mut r = concat3(verb, " ", name);
    r.append(" (");
    r.append(short_id(id).as_str());
    r.append(")");
    r
}

/// The ID of a listed device, `?` when it has none.
pub open spec fn listed_id(d: DeviceEntry) -> Seq<char> {
    match d.device_id {
        Some(id) => id@,
        None => "?"@,
    }
}

/// The line that lists a device: its name (its ID when it has none) padded
/// to 20 characters, the short ID in brackets, `connected` or `offline`
/// padded to 12, and when it was last seen.
pub fn device_line(device: &DeviceEntry, connected: bool, last_seen: &str) -> (r: String)
    requires
        short_id_ok(listed_id(*device)),
    ensures
        r@ == pad_right_spec(
            match device.name {
                Some(n) => n@,
                None => listed_id(*device),
            },
            20,
        ) + " ("@ + short_id_view(listed_id(*device)) + ") "@ + pad_right_spec(
            if connected {
                "connected"@
            } else {
                "offline"@
            },
            12,
        ) + " last: "@ + last_seen@,
{
    let id = match &device.device_id {
        Some(id) => id.as_str(),
        None => "?",
    };
    let name = match &device.name {
        Some(n) => n.as_str(),
        None => id,
    };
    let status = if connected {
        "connected"
    } else {
        "offline"
    };
    let mut r = pad_right(name, 20);
    r.append(" (");
    r.append(short_id(id).as_str());
    r.append(") ");
    r.append(pad_right(status, 12).as_str());
    r.append(" last: ");
    r.append(last_seen);
    r
}

/// After a device is added, a device with its ID is in the selection, and
/// adding any device with that ID again changes nothing.
pub proof fn lemma_add_device_idempotent(v: Seq<(String, String)>, d: (String, String), again: (String, String))
    requires
        again.0@ == d.0@,
    ensures
        has_id(with_device(v, d), d.0@),
        with_device(with_device(v, d), again) == with_device(v, d),
{
    if !has_id(v, d.0@) {
        let w = v.push(d);
        assert(w[v.len() as int] == d);
    }
}

/// Adding a device keeps the selection as it was, in order, in front.
pub proof fn lemma_add_device_keeps_selection(v: Seq<(String, String)>, d: (String, String))
    ensures
        with_device(v, d).len() >= v.len(),
        with_device(v, d).subrange(0, v.len() as int) == v,
{
    assert(with_device(v, d).subrange(0, v.len() as int) =~= v);
}

/// Resolving queries gives exactly one device per query.
pub proof fn lemma_resolve_one_per_query(devs: Seq<DeviceEntry>, queries: Seq<Seq<char>>)
    ensures
        resolve_spec(devs, queries) matches Some(sel) ==> sel.len() == queries.len(),
    decreases queries.len(),
{
    if queries.len() > 0 {
        lemma_resolve_one_per_query(devs, queries.drop_last());
    }
}

/// The number of devices with a string ID.
pub open spec fn count_with_id(devs: Seq<DeviceEntry>) -> nat
    decreases devs.len(),
{
    if devs.len() == 0 {
        0
    } else {
        count_with_id(devs.drop_last()) + if devs.last().device_id is Some {
            1nat
        } else {
            0nat
        }
    }
}

/// Every device with an ID is either among the paused ones or among the
/// unpaused ones, never both: `--all` pause and `--all` unpause together
/// cover each such device once.
pub proof fn lemma_paused_selections_partition(devs: Seq<DeviceEntry>)
    ensures
        paused_selection(devs, true).len() + paused_selection(devs, false).len() == count_with_id(devs),
    decreases devs.len(),
{
    if devs.len() > 0 {
        lemma_paused_selections_partition(devs.drop_last());
    }
}

/// Each device that `--all` selects is in the state opposite to the target.
pub proof fn lemma_paused_selection_sound(devs: Seq<DeviceEntry>, paused: bool, k: int)
    requires
        0 <= k < paused_selection(devs, paused).len(),
    ensures
        exists|i: int|
            0 <= i < devs.len() && is_paused(#[trigger] devs[i]) == paused && id_and_name(devs[i]) == Some(
                paused_selection(devs, paused)[k],
            ),
    decreases devs.len(),
{
    let rest = paused_selection(devs.drop_last(), paused);
    if k < rest.len() {
        lemma_paused_selection_sound(devs.drop_last(), paused, k);
        let i = choose|i: int|
            0 <= i < devs.drop_last().len() && is_paused(#[trigger] devs.drop_last()[i]) == paused
                && id_and_name(devs.drop_last()[i]) == Some(rest[k]);
        assert(devs[i] == devs.drop_last()[i]);
    } else {
        let i = devs.len() - 1;
        assert(devs[i] == devs.last());
    }
}

/// An ASCII ID can always be cut to its short form, which is its first 7
/// characters (all of it when shorter).
pub proof fn lemma_short_id_ascii(id: Seq<char>)
    requires
        is_ascii_chars(id),
    ensures
        short_id_ok(id),
        short_id_view(id) == id.subrange(0, if id.len() < 7 { id.len() as int } else { 7 }),
{
    let bytes = encode_utf8(id);
    vstd::utf8::is_ascii_chars_encode_utf8(id);
    vstd::utf8::encode_utf8_valid_utf8(id);
    let k = short_id_len(id);
    assert(k == if id.len() < 7 { id.len() as int } else { 7 });
    if k == bytes.len() {
        vstd::utf8::is_char_boundary_start_end_of_seq(bytes);
    } else {
        vstd::utf8::is_ascii_chars_nat_bound(id);
        assert((id[k] as nat) < 128);
        assert(bytes[k] == id[k] as u8);
        assert(vstd::utf8::is_leading_byte_width_1(bytes[k]));
        vstd::utf8::is_char_boundary_iff_is_leading_byte(bytes, k);
    }
    let head = id.subrange(0, k);
    assert(is_ascii_chars(head));
    vstd::utf8::is_ascii_chars_encode_utf8(head);
    assert(encode_utf8(head) =~= bytes.subrange(0, k));
    let c = short_id_view(id);
    assert(encode_utf8(c) == bytes.subrange(0, k));
    vstd::utf8::encode_utf8_decode_utf8(c);
    vstd::utf8::encode_utf8_decode_utf8(head);
}

/// What picks a device for a query. Its whole name equal to the query up to
/// ASCII case picks it, and so does its lowercase ID starting with the
/// lowercase query. Nothing else does, beyond its whole ID equal to the
/// query up to ASCII case: in particular a name that is longer than the
/// query and merely starts with it does not pick the device.
pub proof fn lemma_device_match_rule(d: DeviceEntry, q: Seq<char>)
    ensures
        eq_ignore_ascii_case_spec(or_empty(d.name), q) ==> device_matches_spec(d, q),
        unicode_lowercase(q).is_prefix_of(unicode_lowercase(or_empty(d.device_id))) ==> device_matches_spec(d, q),
        device_matches_spec(d, q) ==> eq_ignore_ascii_case_spec(or_empty(d.name), q)
            || eq_ignore_ascii_case_spec(or_empty(d.device_id), q)
            || unicode_lowercase(q).is_prefix_of(unicode_lowercase(or_empty(d.device_id))),
        or_empty(d.name).len() != q.len() && !eq_ignore_ascii_case_spec(or_empty(d.device_id), q)
            && !unicode_lowercase(q).is_prefix_of(unicode_lowercase(or_empty(d.device_id)))
            ==> !device_matches_spec(d, q),
{
}

/// Each device that a query selects is a configured device with an ID
/// that the query picks by its name, its ID, or a prefix of its ID.
pub proof fn lemma_query_selection_sound(devs: Seq<DeviceEntry>, q: Seq<char>, k: int)
    requires
        0 <= k < query_selection(devs, q).len(),
    ensures
        exists|i: int|
            0 <= i < devs.len() && id_and_name(#[trigger] devs[i]) == Some(query_selection(devs, q)[k]) && (
            eq_ignore_ascii_case_spec(or_empty(devs[i].name), q) || eq_ignore_ascii_case_spec(
                or_empty(devs[i].device_id),
                q,
            ) || unicode_lowercase(q).is_prefix_of(unicode_lowercase(or_empty(devs[i].device_id)))),
    decreases devs.len(),
{
    let rest = query_selection(devs.drop_last(), q);
    if k < rest.len() {
        lemma_query_selection_sound(devs.drop_last(), q, k);
        let i = choose|i: int|
            0 <= i < devs.drop_last().len() && id_and_name(#[trigger] devs.drop_last()[i]) == Some(rest[k]) && (
            eq_ignore_ascii_case_spec(or_empty(devs.drop_last()[i].name), q) || eq_ignore_ascii_case_spec(
                or_empty(devs.drop_last()[i].device_id),
                q,
            ) || unicode_lowercase(q).is_prefix_of(unicode_lowercase(or_empty(devs.drop_last()[i].device_id))));
        assert(devs[i] == devs.drop_last()[i]);
    } else {
        let i = devs.len() - 1;
        assert(devs[i] == devs.last());
        lemma_device_match_rule(devs.last(), q);
    }
}

/// Every configured device with an ID whose name equals the query up to
/// ASCII case, or whose lowercase ID starts with the lowercase query, is
/// selected: no query selects fewer devices than those.
pub proof fn lemma_query_selection_complete(devs: Seq<DeviceEntry>, q: Seq<char>, i: int)
    requires
        0 <= i < devs.len(),
        devs[i].device_id is Some,
        eq_ignore_ascii_case_spec(or_empty(devs[i].name), q) || unicode_lowercase(q).is_prefix_of(
            unicode_lowercase(or_empty(devs[i].device_id)),
        ),
    ensures
        query_selection(devs, q).contains(id_and_name(devs[i])->0),
    decreases devs.len(),
{
    let rest = query_selection(devs.drop_last(), q);
    lemma_device_match_rule(devs[i], q);
    if i < devs.len() - 1 {
        assert(devs[i] == devs.drop_last()[i]);
        lemma_query_selection_complete(devs.drop_last(), q, i);
        let p = id_and_name(devs[i])->0;
        let j = choose|j: int| 0 <= j < rest.len() && rest[j] == p;
        if device_matches_spec(devs.last(), q) && id_and_name(devs.last()) is Some {
            assert(query_selection(devs, q)[j] == p);
        } else {
            assert(query_selection(devs, q)[j] == p);
        }
    } else {
        assert(devs.last() == devs[i]);
        let s = query_selection(devs, q);
        assert(s[s.len() - 1] == id_and_name(devs[i])->0);
    }
}

/// Resolving the queries succeeds exactly when every query selects exactly
/// one device, and then gives, query by query, the device it selects. A
/// query that selects two or more devices makes resolving fail: no device
/// is ever picked from an ambiguous query.
pub proof fn lemma_resolve_exact(devs: Seq<DeviceEntry>, qs: Seq<Seq<char>>)
    ensures
        resolve_spec(devs, qs) is Some <==> forall|k: int|
            0 <= k < qs.len() ==> #[trigger] query_selection(devs, qs[k]).len() == 1,
        resolve_spec(devs, qs) matches Some(sel) ==> sel.len() == qs.len() && forall|k: int|
            0 <= k < qs.len() ==> #[trigger] sel[k] == query_selection(devs, qs[k])[0],
        (exists|k: int| 0 <= k < qs.len() && #[trigger] query_selection(devs, qs[k]).len() >= 2)
            ==> resolve_spec(devs, qs) is None,
    decreases qs.len(),
{
    if qs.len() > 0 {
        let init = qs.drop_last();
        lemma_resolve_exact(devs, init);
        assert forall|k: int| 0 <= k < init.len() implies #[trigger] init[k] == qs[k] by {}
        let last = qs.len() - 1;
        assert(qs[last] == qs.last());
        if resolve_spec(devs, qs) is Some {
            assert forall|k: int| 0 <= k < qs.len() implies #[trigger] query_selection(devs, qs[k]).len() == 1 by {
                if k < last {
                    assert(init[k] == qs[k]);
                    assert(query_selection(devs, init[k]).len() == 1);
                }
            }
        }
        if forall|k: int| 0 <= k < qs.len() ==> #[trigger] query_selection(devs, qs[k]).len() == 1 {
            assert forall|k: int| 0 <= k < init.len() implies #[trigger] query_selection(devs, init[k]).len() == 1 by {
                assert(init[k] == qs[k]);
                assert(query_selection(devs, qs[k]).len() == 1);
            }
            assert(query_selection(devs, qs[last]).len() == 1);
        }
        if exists|k: int| 0 <= k < qs.len() && #[trigger] query_selection(devs, qs[k]).len() >= 2 {
            let k = choose|k: int| 0 <= k < qs.len() && #[trigger] query_selection(devs, qs[k]).len() >= 2;
            if k < last {
                assert(init[k] == qs[k]);
                assert(query_selection(devs, init[k]).len() >= 2);
            }
        }
        if resolve_spec(devs, qs) is Some {
            let sel = resolve_spec(devs, qs)->0;
            let prev = resolve_spec(devs, init)->0;
            assert forall|k: int| 0 <= k < qs.len() implies #[trigger] sel[k] == query_selection(devs, qs[k])[0] by {
                if k < last {
                    assert(init[k] == qs[k]);
                    assert(prev[k] == query_selection(devs, init[k])[0]);
                }
            }
        }
    }
}

} // verus!
