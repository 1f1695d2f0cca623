//! The client's own configuration (API key and host) and the API key that
//! Syncthing keeps in its `config.xml`.

use vstd::prelude::*;
use crate::text::{
    chars_of, concat2, find_from, find_from_exec, lemma_find_from_first, lemma_find_from_found,
    occurs_at, owned,
};

verus! {

/// The host that is used when none is configured.
pub open spec fn default_host() -> Seq<char> {
    "http://localhost:8384"@
}

/// The opening tag of the API key element in Syncthing's `config.xml`.
pub open spec fn apikey_open() -> Seq<char> {
    seq!['<', 'a', 'p', 'i', 'k', 'e', 'y', '>']
}

/// The closing tag of the API key element in Syncthing's `config.xml`.
pub open spec fn apikey_close() -> Seq<char> {
    seq!['<', '/', 'a', 'p', 'i', 'k', 'e', 'y', '>']
}

/// The API key that a `config.xml` text holds: the text between the first
/// `<apikey>` and the first `</apikey>` after it.
pub open spec fn api_key_in(xml: Seq<char>) -> Option<Seq<char>> {
    match find_from(xml, apikey_open(), 0) {
        Some(i) => match find_from(xml, apikey_close(), i + 8) {
            Some(j) => Some(xml.subrange(i + 8, j)),
            None => None,
        },
        None => None,
    }
}

/// The character view of an optional string.
pub open spec fn opt_view(o: Option<String>) -> Option<Seq<char>> {
    match o {
        Some(s) => Some(s@),
        None => None,
    }
}

/// The client's stored configuration. Both entries are optional.
#[derive(Debug)]
pub struct Config {
    pub api_key: Option<String>,
    pub host: Option<String>,
}

impl Config {
    /// The host that requests go to: the configured one, else the default.
    pub open spec fn host_view(&self) -> Seq<char> {
        match self.host {
            Some(h) => h@,
            None => default_host(),
        }
    }

    /// The configured host, or `http://localhost:8384` when none is set.
    pub fn host(&self) -> (r: &str)
        ensures
            r@ == self.host_view(),
    {
        match &self.host {
            Some(h) => h.as_str(),
            None => "http://localhost:8384",
        }
    }
}

impl Default for Config {
    /// A configuration with neither an API key nor a host.
    fn default() -> (r: Config)
        ensures
            r.api_key is None,
            r.host is None,
    {
        Config { api_key: None, host: None }
    }
}

/// What reading Syncthing's `config.xml` gave.
#[derive(Debug)]
pub enum ConfigFileRead {
    /// There is no file at the path.
    Missing,
    /// The file exists but could not be read; the reason.
    Unreadable(String),
    /// The file's text.
    Read(String),
}

/// Why no API key could be had.
#[derive(Debug)]
pub enum ConfigError {
    /// Syncthing's `config.xml` exists but could not be read; the reason.
    ReadFailed(String),
    /// The text holds no complete `<apikey>` element.
    NoApiKeyElement,
    /// No key is configured and there is no `config.xml`; the path looked at.
    NoApiKeyFound(String),
}

/// The message of a configuration error.
pub open spec fn config_error_message(e: ConfigError) -> Seq<char> {
    match e {
        ConfigError::ReadFailed(_) => "Failed to read syncthing config.xml"@,
        ConfigError::NoApiKeyElement => "No apikey element found in config"@,
        ConfigError::NoApiKeyFound(path) =>
            "No API key found. Either configure with 'syncthing config --api-key <KEY>' or ensure syncthing is running with config at "@
                + path@,
    }
}

impl ConfigError {
    /// The message shown to the user.
    pub fn to_string(&self) -> (r: String)
        ensures
            r@ == config_error_message(*self),
    {
        match self {
            ConfigError::ReadFailed(_) => owned("Failed to read syncthing config.xml"),
            ConfigError::NoApiKeyElement => owned("No apikey element found in config"),
            ConfigError::NoApiKeyFound(path) => concat2(
                "No API key found. Either configure with 'syncthing config --api-key <KEY>' or ensure syncthing is running with config at ",
                path.as_str(),
            ),
        }
    }
}

/// The API key that Syncthing's `config.xml` yields, given what reading it
/// gave.
pub open spec fn file_key(file: ConfigFileRead) -> Option<Seq<char>> {
    match file {
        ConfigFileRead::Read(content) => api_key_in(content@),
        _ => None,
    }
}

/// The configured API key, else the one in Syncthing's `config.xml`.
pub open spec fn configured_key(config: Config, file: ConfigFileRead) -> Option<Seq<char>> {
    match config.api_key {
        Some(k) => Some(k@),
        None => file_key(file),
    }
}

/// `r` is what looking up the API key in Syncthing's `config.xml` at `path`
/// gives, when reading the file gave `file`: an error naming the path when
/// there is no file, the read error when it could not be read, else the key
/// in its text or the error that there is none.
pub open spec fn file_key_result(r: Result<String, ConfigError>, path: Seq<char>, file: ConfigFileRead) -> bool {
    match file {
        ConfigFileRead::Missing => r matches Err(ConfigError::NoApiKeyFound(p)) && p@ == path,
        ConfigFileRead::Unreadable(why) => r matches Err(ConfigError::ReadFailed(w)) && w@ == why@,
        ConfigFileRead::Read(content) => match api_key_in(content@) {
            Some(k) => r matches Ok(key) && key@ == k,
            None => r matches Err(ConfigError::NoApiKeyElement),
        },
    }
}

/// `r` is the configured API key when there is one, else what looking it up
/// in Syncthing's `config.xml` gives.
pub open spec fn configured_key_result(
    r: Result<String, ConfigError>,
    config: Config,
    path: Seq<char>,
    file: ConfigFileRead,
) -> bool {
    match config.api_key {
        Some(k) => r matches Ok(key) && key@ == k@,
        None => file_key_result(r, path, file),
    }
}

/// The API key in the text of a Syncthing `config.xml`.
pub fn extract_api_key_from_xml(content: &str) -> (r: Result<String, ConfigError>)
    ensures
        match api_key_in(content@) {
            Some(k) => r matches Ok(key) && key@ == k,
            None => r matches Err(ConfigError::NoApiKeyElement),
        },
{
    let h = chars_of(content);
    let open = chars_of("<apikey>");
    let close = chars_of("</apikey>");
    proof {
        reveal_strlit("<apikey>");
        reveal_strlit("</apikey>");
        assert(open@ =~= apikey_open());
        assert(close@ =~= apikey_close());
    }
    let len = h.len();
    match find_from_exec(&h, &open, 0) {
        Some(i) => {
            proof {
                lemma_find_from_found(content@, apikey_open(), 0);
            }
            let start = i + 8;
            match find_from_exec(&h, &close, start) {
                Some(j) => {
                    proof {
                        lemma_find_from_found(content@, apikey_close(), start as int);
                    }
                    Ok(owned(content.substring_char(start, j)))
                },
                None => Err(ConfigError::NoApiKeyElement),
            }
        },
        None => Err(ConfigError::NoApiKeyElement),
    }
}

/// The API key in Syncthing's `config.xml`, given what reading it at `path` gave.
pub fn extract_api_key_from_path(path: &str, file: &ConfigFileRead) -> (r: Result<String, ConfigError>)
    ensures
        file_key_result(r, path@, *file),
{
    match file {
        ConfigFileRead::Missing => Err(ConfigError::NoApiKeyFound(owned(path))),
        ConfigFileRead::Unreadable(why) => Err(ConfigError::ReadFailed(owned(why.as_str()))),
        ConfigFileRead::Read(content) => extract_api_key_from_xml(content.as_str()),
    }
}

/// The API key to use: the configured one, else the one in Syncthing's
/// `config.xml` at `syncthing_path`, given what reading that file gave.
pub fn get_api_key(config: &Config, syncthing_path: &str, syncthing_file: &ConfigFileRead) -> (r: Result<String, ConfigError>)
    ensures
        configured_key_result(r, *config, syncthing_path@, *syncthing_file),
{
    match &config.api_key {
        Some(key) => Ok(owned(key.as_str())),
        None => extract_api_key_from_path(syncthing_path, syncthing_file),
    }
}

/// The API key of the Syncthing instance on this machine: the one in its own
/// `config.xml`, whatever key the client has stored.
pub fn get_local_api_key(syncthing_path: &str, syncthing_file: &ConfigFileRead) -> (r: Result<String, ConfigError>)
    ensures
        file_key_result(r, syncthing_path@, *syncthing_file),
{
    extract_api_key_from_path(syncthing_path, syncthing_file)
}

/// An occurrence that ends within `x` is one in `x + y` too, and back.
proof fn lemma_occurs_in_prefix(x: Seq<char>, y: Seq<char>, n: Seq<char>, j: int)
    requires
        0 <= j,
        j + n.len() <= x.len(),
    ensures
        occurs_at(x + y, n, j) == occurs_at(x, n, j),
{
    assert((x + y).subrange(j, j + n.len()) =~= x.subrange(j, j + n.len()));
}

/// An occurrence in `y` is one in `x + y`, shifted by the length of `x`.
proof fn lemma_occurs_in_suffix(x: Seq<char>, y: Seq<char>, n: Seq<char>, j: int)
    requires
        0 <= j,
    ensures
        occurs_at(x + y, n, x.len() + j) == occurs_at(y, n, j),
{
    if j + n.len() <= y.len() {
        assert((x + y).subrange(x.len() + j, x.len() + j + n.len()) =~= y.subrange(j, j + n.len()));
    }
}

/// A key written between `<apikey>` and `</apikey>` is the key read back,
/// whatever follows it, provided that no `<apikey>` starts inside the text
/// before it and no `</apikey>` starts inside the key.
pub proof fn lemma_api_key_round_trip(before: Seq<char>, key: Seq<char>, after: Seq<char>)
    requires
        forall|j: int| 0 <= j < before.len() ==> !occurs_at(before + apikey_open(), apikey_open(), j),
        forall|j: int| 0 <= j < key.len() ==> !occurs_at(key + apikey_close(), apikey_close(), j),
    ensures
        api_key_in(before + apikey_open() + key + apikey_close() + after) == Some(key),
{
    let o = apikey_open();
    let c = apikey_close();
    let head = before + o;
    let kc = key + c;
    let rest = kc + after;
    let h = head + rest;
    assert(h =~= before + o + key + c + after);
    let b = before.len() as int;
    let s = b + 8;
    let e = s + key.len();
    assert(head.subrange(b, b + 8) =~= o);
    lemma_occurs_in_prefix(head, rest, o, b);
    assert forall|j: int| 0 <= j < b implies !occurs_at(h, o, j) by {
        lemma_occurs_in_prefix(head, rest, o, j);
    }
    lemma_find_from_first(h, o, 0, b);
    let k = key.len() as int;
    assert(kc.subrange(k, k + 9) =~= c);
    lemma_occurs_in_prefix(kc, after, c, key.len() as int);
    lemma_occurs_in_suffix(head, rest, c, key.len() as int);
    assert forall|j: int| s <= j < e implies !occurs_at(h, c, j) by {
        lemma_occurs_in_prefix(kc, after, c, j - s);
        lemma_occurs_in_suffix(head, rest, c, j - s);
    }
    lemma_find_from_first(h, c, s, e);
    assert(h.subrange(s, e) =~= key);
}

} // verus!
