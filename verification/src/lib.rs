//! A command-line client library for the Syncthing REST API: configuration,
//! host and API-key resolution, request endpoints, device selection, folder
//! configuration and the text that the client prints.

pub mod api;
pub mod config;
pub mod devices;
pub mod errors;
pub mod folders;
pub mod hosts;
pub mod reports;
pub mod text;
pub mod times;
