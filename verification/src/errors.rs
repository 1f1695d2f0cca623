//! The errors of choosing devices and sharing folders, with their messages.

use vstd::prelude::*;
use crate::text::{concat3, join, join_seq, owned, views};

verus! {

/// Why a device selection or a folder change was refused.
#[derive(Debug)]
pub enum CliError {
    /// Both a device and `--all` were given.
    DeviceAndAll,
    /// Neither a device nor `--all` was given.
    NoDeviceOrAll,
    /// No device matched the query.
    NoDeviceMatched(String),
    /// Several devices matched the query; their names.
    AmbiguousDevice(String, Vec<String>),
    /// No `--device` was given.
    NoDeviceGiven,
    /// The folder configuration has no devices array.
    NoDevicesArray,
}

/// The message of an error.
pub open spec fn cli_error_message(e: CliError) -> Seq<char> {
    match e {
        CliError::DeviceAndAll => "specify either a device or --all, not both"@,
        CliError::NoDeviceOrAll => "specify a device name/ID or --all"@,
        CliError::NoDeviceMatched(q) => "no device matched '"@ + q@ + "'"@,
        CliError::AmbiguousDevice(q, names) => "'"@ + q@ + "' matched multiple devices: "@ + join_seq(
            views(names@),
            ", "@,
        ),
        CliError::NoDeviceGiven => "specify at least one --device"@,
        CliError::NoDevicesArray => "folder config has no devices array"@,
    }
}

impl CliError {
    /// The message shown to the user.
    pub fn to_string(&self) -> (r: String)
        ensures
            r@ == cli_error_message(*self),
    {
        match self {
            CliError::DeviceAndAll => owned("specify either a device or --all, not both"),
            CliError::NoDeviceOrAll => owned("specify a device name/ID or --all"),
            CliError::NoDeviceMatched(q) => concat3("no device matched '", q.as_str(), "'"),
            CliError::AmbiguousDevice(q, names) => {
                let mut r = concat3("'", q.as_str(), "' matched multiple devices: ");
                r.append(join(names, ", ").as_str());
                r
            },
            CliError::NoDeviceGiven => owned("specify at least one --device"),
            CliError::NoDevicesArray => owned("folder config has no devices array"),
        }
    }
}

} // verus!
