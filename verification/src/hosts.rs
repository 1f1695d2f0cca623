//! Which Syncthing instance the client talks to: normalizing the host given
//! on the command line, telling a local host from a remote one, choosing the
//! API key for it and making the client.

use vstd::prelude::*;
use crate::api::{ApiClient, ApiError};
use crate::config::{
    configured_key, configured_key_result, file_key, file_key_result, get_api_key, get_local_api_key, Config, ConfigError,
    ConfigFileRead,
};
use crate::text::{
    concat2, owned, rsplit_once, rsplit_once_spec, split_once, split_once_spec, starts_with,
    str_eq, strip_prefix, strip_prefix_spec, trim_end_char,
};

verus! {

/// A host with a scheme is kept; one without gets `http://`.
pub open spec fn normalize_host_spec(host: Seq<char>) -> Seq<char> {
    if "http://"@.is_prefix_of(host) || "https://"@.is_prefix_of(host) {
        host
    } else {
        "http://"@ + host
    }
}

/// The host without a leading `http://` or `https://`.
pub open spec fn without_scheme(host: Seq<char>) -> Seq<char> {
    match strip_prefix_spec(host, "http://"@) {
        Some(rest) => rest,
        None => match strip_prefix_spec(host, "https://"@) {
            Some(rest) => rest,
            None => host,
        },
    }
}

/// The authority that the host check looks at: the text before the first
/// `/` of the host without its scheme, and of that the text after the last
/// `@`. Where there is no `@`, the whole host without its scheme is taken.
pub open spec fn authority_of(host: Seq<char>) -> Seq<char> {
    let w = without_scheme(host);
    let before_path = match split_once_spec(w, '/') {
        Some((a, _)) => a,
        None => w,
    };
    match rsplit_once_spec(before_path, '@') {
        Some((_, a)) => a,
        None => w,
    }
}

/// The host name of an authority: inside `[`..`]` for a bracketed one (the
/// whole authority when the `]` is missing), else the text before the first
/// `:`.
pub open spec fn host_name_spec(authority: Seq<char>) -> Seq<char> {
    match strip_prefix_spec(authority, "["@) {
        Some(rest) => match split_once_spec(rest, ']') {
            Some((h, _)) => h,
            None => authority,
        },
        None => match split_once_spec(authority, ':') {
            Some((h, _)) => h,
            None => authority,
        },
    }
}

/// The host names of this machine.
pub open spec fn is_loopback_name(name: Seq<char>) -> bool {
    name == "localhost"@ || name == "127.0.0.1"@ || name == "::1"@ || name == "[::1]"@
}

/// Whether a host names this machine.
pub open spec fn is_local_host_spec(host: Seq<char>) -> bool {
    is_loopback_name(host_name_spec(authority_of(host)))
}

/// The host that requests go to: the one given, normalized, else the
/// configured one.
pub open spec fn chosen_host(host_override: Option<&str>, config: Config) -> Seq<char> {
    match host_override {
        Some(h) => normalize_host_spec(h@),
        None => config.host_view(),
    }
}

/// `r` is the API key for `host`: the local instance's own key for a local
/// host, else the configured key or the one in Syncthing's `config.xml`.
pub open spec fn host_key_result(
    r: Result<String, ConfigError>,
    host: Seq<char>,
    config: Config,
    path: Seq<char>,
    file: ConfigFileRead,
) -> bool {
    if is_local_host_spec(host) {
        file_key_result(r, path, file)
    } else {
        configured_key_result(r, config, path, file)
    }
}

/// The API key for `host`, when one can be had.
pub open spec fn host_key(host: Seq<char>, config: Config, file: ConfigFileRead) -> Option<Seq<char>> {
    if is_local_host_spec(host) {
        file_key(file)
    } else {
        configured_key(config, file)
    }
}

/// Adds `http://` to a host that has no `http://` or `https://`.
pub fn normalize_host(host: &str) -> (r: String)
    ensures
        r@ == normalize_host_spec(host@),
{
    if starts_with(host, "http://") || starts_with(host, "https://") {
        owned(host)
    } else {
        concat2("http://", host)
    }
}

/// The host name part of an authority (`host:port`, `[ipv6]:port`).
pub fn host_name(authority: &str) -> (r: &str)
    ensures
        r@ == host_name_spec(authority@),
{
    if let Some(rest) = strip_prefix(authority, "[") {
        match split_once(rest, ']') {
            Some((ipv6_host, _)) => ipv6_host,
            None => authority,
        }
    } else {
        match split_once(authority, ':') {
            Some((hostname, _)) => hostname,
            None => authority,
        }
    }
}

/// Whether a host (with or without scheme, port, path or user) names this
/// machine: `localhost`, `127.0.0.1` or `::1`.
pub fn is_local_host(host: &str) -> (r: bool)
    ensures
        r == is_local_host_spec(host@),
{
    let without_scheme = match strip_prefix(host, "http://") {
        Some(rest) => rest,
        None => match strip_prefix(host, "https://") {
            Some(rest) => rest,
            None => host,
        },
    };
    let before_path = match split_once(without_scheme, '/') {
        Some((authority, _)) => authority,
        None => without_scheme,
    };
    let authority = match rsplit_once(before_path, '@') {
        Some((_, authority)) => authority,
        None => without_scheme,
    };
    let hostname = host_name(authority);
    str_eq(hostname, "localhost") || str_eq(hostname, "127.0.0.1") || str_eq(hostname, "::1")
        || str_eq(hostname, "[::1]")
}

/// Whether the key of the local Syncthing instance is to be used for a host:
/// exactly when the host is local.
pub fn should_use_local_api_key(normalized_host: &str) -> (r: bool)
    ensures
        r == is_local_host_spec(normalized_host@),
{
    is_local_host(normalized_host)
}

/// The API key for a host: for a local host the key in the local
/// Syncthing's `config.xml`, else the configured key or, when none is
/// configured, the one in that `config.xml`.
pub fn api_key_for_host(
    normalized_host: &str,
    config: &Config,
    syncthing_path: &str,
    syncthing_file: &ConfigFileRead,
) -> (r: Result<String, ConfigError>)
    ensures
        host_key_result(r, normalized_host@, *config, syncthing_path@, *syncthing_file),
{
    if should_use_local_api_key(normalized_host) {
        return get_local_api_key(syncthing_path, syncthing_file);
    }
    get_api_key(config, syncthing_path, syncthing_file)
}

/// Why no client could be made.
#[derive(Debug)]
pub enum ClientSetupError {
    /// No API key could be had.
    Config(ConfigError),
    /// The HTTP client could not be built.
    Api(ApiError),
}

/// The client for the chosen host (the one given, normalized, else the
/// configured one) with the API key for that host.
pub fn get_client(
    host_override: Option<&str>,
    config: &Config,
    syncthing_path: &str,
    syncthing_file: &ConfigFileRead,
) -> (r: Result<ApiClient, ClientSetupError>)
    ensures
        ({
            let host = chosen_host(host_override, *config);
            let key = host_key(host, *config, *syncthing_file);
            &&& r matches Ok(c) ==> key == Some(c.api_key_view()) && c.base_url_view() == trim_end_char(host, '/')
            &&& (r matches Err(ClientSetupError::Config(_))) <==> key is None
            &&& r matches Err(ClientSetupError::Config(e)) ==> host_key_result(
                Err(e),
                host,
                *config,
                syncthing_path@,
                *syncthing_file,
            )
        }),
{
    let host = match host_override {
        Some(h) => normalize_host(h),
        None => owned(config.host()),
    };
    let api_key = match api_key_for_host(host.as_str(), config, syncthing_path, syncthing_file) {
        Ok(key) => key,
        Err(e) => return Err(ClientSetupError::Config(e)),
    };
    match ApiClient::new(api_key.as_str(), host.as_str()) {
        Ok(c) => Ok(c),
        Err(e) => Err(ClientSetupError::Api(e)),
    }
}

/// Normalizing a host twice gives what normalizing it once gives.
pub proof fn lemma_normalize_host_idempotent(host: Seq<char>)
    ensures
        normalize_host_spec(normalize_host_spec(host)) == normalize_host_spec(host),
{
    if !("http://"@.is_prefix_of(host) || "https://"@.is_prefix_of(host)) {
        lemma_prefix_of_concat("http://"@, host);
    }
}

/// A normalized host starts with `http://` or `https://`.
pub proof fn lemma_normalized_host_has_scheme(host: Seq<char>)
    ensures
        "http://"@.is_prefix_of(normalize_host_spec(host)) || "https://"@.is_prefix_of(normalize_host_spec(host)),
{
    if !("http://"@.is_prefix_of(host) || "https://"@.is_prefix_of(host)) {
        lemma_prefix_of_concat("http://"@, host);
    }
}

/// Whether a host is local does not change when it is normalized.
pub proof fn lemma_local_host_survives_normalization(host: Seq<char>)
    ensures
        is_local_host_spec(normalize_host_spec(host)) == is_local_host_spec(host),
{
    if !("http://"@.is_prefix_of(host) || "https://"@.is_prefix_of(host)) {
        let n = "http://"@ + host;
        lemma_prefix_of_concat("http://"@, host);
        assert(n.subrange("http://"@.len() as int, n.len() as int) =~= host);
        assert(without_scheme(n) == host);
        assert(without_scheme(host) == host);
    }
}

/// A sequence is a prefix of itself followed by anything.
proof fn lemma_prefix_of_concat(p: Seq<char>, s: Seq<char>)
    ensures
        p.is_prefix_of(p + s),
{
    assert((p + s).subrange(0, p.len() as int) =~= p);
}

} // verus!
