//! The Syncthing REST API client: its construction over a `reqwest` HTTP
//! client, the URLs it sends to, and which HTTP method and endpoint each
//! request uses.

use vstd::prelude::*;
use crate::text::{concat2, decimal, decimal_string, join, join_seq, owned, trim_end_char, trim_end_matches, views};

verus! {

#[verifier::external_type_specification]
#[verifier::external_body]
pub struct ExHttpClient(reqwest::Client);

#[verifier::external_type_specification]
#[verifier::external_body]
pub struct ExHttpClientBuilder(reqwest::ClientBuilder);

#[verifier::external_type_specification]
#[verifier::external_body]
pub struct ExHttpError(reqwest::Error);

/// The TLS settings of an HTTP client that the client relies on.
#[derive(Debug, Clone, Copy, PartialEq, Eq, Structural)]
pub struct HttpSettings {
    /// Whether TLS certificates that do not verify (self-signed ones) are accepted.
    pub accept_invalid_certs: bool,
}

/// A `reqwest` client builder with the settings it has been given.
struct HttpClientBuilder {
    builder: reqwest::ClientBuilder,
    settings: HttpSettings,
}

/// A `reqwest` client with the settings it was built with.
struct HttpClient {
    client: reqwest::Client,
    settings: HttpSettings,
}

/// `reqwest::Client::builder`: a builder with reqwest's default settings,
/// among them that certificates are verified (`ClientBuilder::new` sets
/// `certs_verification: true`), so invalid ones are not accepted.
#[verifier::external_body]
fn http_client_builder() -> (r: HttpClientBuilder)
    ensures
        r.settings == (HttpSettings { accept_invalid_certs: false }),
{
    HttpClientBuilder {
        builder: reqwest::Client::builder(),
        settings: HttpSettings { accept_invalid_certs: false },
    }
}

/// `reqwest::ClientBuilder::danger_accept_invalid_certs`: sets whether the
/// client accepts TLS certificates that do not verify; the builder comes
/// back with that setting and its others unchanged.
#[verifier::external_body]
fn accept_invalid_certs(b: HttpClientBuilder, accept: bool) -> (r: HttpClientBuilder)
    ensures
        r.settings == (HttpSettings { accept_invalid_certs: accept }),
{
    HttpClientBuilder {
        builder: b.builder.danger_accept_invalid_certs(accept),
        settings: HttpSettings { accept_invalid_certs: accept },
    }
}

/// `reqwest::ClientBuilder::build`: the HTTP client, built with the
/// builder's settings, or the error when a TLS backend or the resolver
/// cannot be set up. Which of the two comes back depends on the machine;
/// it is claimed only that a client that comes back has the builder's
/// settings.
#[verifier::external_body]
fn build_http_client(b: HttpClientBuilder) -> (r: Result<HttpClient, reqwest::Error>)
    ensures
        r matches Ok(c) ==> c.settings == b.settings,
{
    match b.builder.build() {
        Ok(client) => Ok(HttpClient { client, settings: b.settings }),
        Err(e) => Err(e),
    }
}

/// Why a client could not be made.
#[derive(Debug)]
pub enum ApiError {
    /// The HTTP client could not be built.
    ClientBuild(reqwest::Error),
}

/// A client for one Syncthing instance: the HTTP client, the API key sent
/// with each request and the base URL without trailing slashes.
pub struct ApiClient {
    http: HttpClient,
    api_key: String,
    base_url: String,
}

impl ApiClient {
    /// The API key that requests carry.
    pub closed spec fn api_key_view(&self) -> Seq<char> {
        self.api_key@
    }

    /// The HTTP client that requests are sent with.
    pub closed spec fn http_client_view(&self) -> reqwest::Client {
        self.http.client
    }

    /// The settings that the HTTP client was built with.
    pub closed spec fn http_settings(&self) -> HttpSettings {
        self.http.settings
    }

    /// The base URL that endpoints are appended to.
    pub closed spec fn base_url_view(&self) -> Seq<char> {
        self.base_url@
    }

    /// A client for the instance at `base_url` (trailing slashes dropped)
    /// with the given API key. The HTTP client accepts self-signed
    /// certificates, as Syncthing uses them.
    pub fn new(api_key: &str, base_url: &str) -> (r: Result<ApiClient, ApiError>)
        ensures
            r matches Ok(c) ==> c.api_key_view() == api_key@ && c.base_url_view() == trim_end_char(base_url@, '/')
                && c.http_settings().accept_invalid_certs,
    {
        let builder = accept_invalid_certs(http_client_builder(), true);
        match build_http_client(builder) {
            Ok(http) => Ok(ApiClient {
                http,
                api_key: owned(api_key),
                base_url: owned(trim_end_matches(base_url, '/')),
            }),
            Err(e) => Err(ApiError::ClientBuild(e)),
        }
    }

    /// The HTTP client that this client holds.
    pub fn http(&self) -> (r: &reqwest::Client)
        ensures
            *r == self.http_client_view(),
    {
        &self.http.client
    }

    /// The API key, sent in the `X-API-Key` header.
    pub fn api_key(&self) -> (r: &str)
        ensures
            r@ == self.api_key_view(),
    {
        self.api_key.as_str()
    }

    /// The base URL.
    pub fn base_url(&self) -> (r: &str)
        ensures
            r@ == self.base_url_view(),
    {
        self.base_url.as_str()
    }

    /// The full URL of an endpoint: the base URL followed by the endpoint.
    pub fn url(&self, endpoint: &str) -> (r: String)
        ensures
            r@ == self.base_url_view() + endpoint@,
    {
        concat2(self.base_url.as_str(), endpoint)
    }
}

/// The HTTP method of a request.
#[derive(Debug, Clone, Copy, PartialEq, Eq, Structural)]
pub enum HttpMethod {
    Get,
    Post,
    Put,
    Patch,
    Delete,
}

/// The requests that the client makes.
#[derive(Debug)]
pub enum ApiRequest {
    Status,
    Version,
    Connections,
    Errors,
    ClearErrors,
    Restart,
    Shutdown,
    Config,
    ConfigFolders,
    ConfigDevices,
    DbStatus(String),
    DbCompletion,
    DbNeed(String),
    DbScan(String),
    DbScanAll,
    StatsDevice,
    StatsFolder,
    PendingDevices,
    PendingFolders,
    FolderErrors(String),
    Events { since: Option<u64>, limit: Option<u32> },
    /// One folder's configuration.
    ConfigFolder(String),
    /// Replaces one folder's configuration.
    PutConfigFolder(String),
    /// Removes one folder from the configuration.
    DeleteConfigFolder(String),
    /// Changes one device's configuration (its paused flag).
    SetDevicePaused(String),
}

/// The query parameters of an events request, in order.
pub open spec fn event_params(since: Option<u64>, limit: Option<u32>) -> Seq<Seq<char>> {
    let s: Seq<Seq<char>> = match since {
        Some(v) => seq!["since="@ + decimal(v as nat)],
        None => Seq::empty(),
    };
    let l: Seq<Seq<char>> = match limit {
        Some(v) => seq!["limit="@ + decimal(v as nat)],
        None => Seq::empty(),
    };
    s + l
}

/// The endpoint of an events request: `/rest/events`, and the parameters
/// after `?`, joined by `&`, when there are any.
pub open spec fn events_endpoint_spec(since: Option<u64>, limit: Option<u32>) -> Seq<char> {
    let params = event_params(since, limit);
    if params.len() == 0 {
        "/rest/events"@
    } else {
        "/rest/events"@ + "?"@ + join_seq(params, "&"@)
    }
}

/// The HTTP method of each request.
pub open spec fn request_method(r: ApiRequest) -> HttpMethod {
    match r {
        ApiRequest::ClearErrors | ApiRequest::Restart | ApiRequest::Shutdown | ApiRequest::DbScan(_)
        | ApiRequest::DbScanAll => HttpMethod::Post,
        ApiRequest::PutConfigFolder(_) => HttpMethod::Put,
        ApiRequest::DeleteConfigFolder(_) => HttpMethod::Delete,
        ApiRequest::SetDevicePaused(_) => HttpMethod::Patch,
        _ => HttpMethod::Get,
    }
}

/// The endpoint of each request.
pub open spec fn request_endpoint(r: ApiRequest) -> Seq<char> {
    match r {
        ApiRequest::Status => "/rest/system/status"@,
        ApiRequest::Version => "/rest/system/version"@,
        ApiRequest::Connections => "/rest/system/connections"@,
        ApiRequest::Errors => "/rest/system/error"@,
        ApiRequest::ClearErrors => "/rest/system/error/clear"@,
        ApiRequest::Restart => "/rest/system/restart"@,
        ApiRequest::Shutdown => "/rest/system/shutdown"@,
        ApiRequest::Config => "/rest/config"@,
        ApiRequest::ConfigFolders => "/rest/config/folders"@,
        ApiRequest::ConfigDevices => "/rest/config/devices"@,
        ApiRequest::DbStatus(folder) => "/rest/db/status?folder="@ + folder@,
        ApiRequest::DbCompletion => "/rest/db/completion"@,
        ApiRequest::DbNeed(folder) => "/rest/db/need?folder="@ + folder@,
        ApiRequest::DbScan(folder) => "/rest/db/scan?folder="@ + folder@,
        ApiRequest::DbScanAll => "/rest/db/scan"@,
        ApiRequest::StatsDevice => "/rest/stats/device"@,
        ApiRequest::StatsFolder => "/rest/stats/folder"@,
        ApiRequest::PendingDevices => "/rest/cluster/pending/devices"@,
        ApiRequest::PendingFolders => "/rest/cluster/pending/folders"@,
        ApiRequest::FolderErrors(folder) => "/rest/folder/errors?folder="@ + folder@,
        ApiRequest::Events { since, limit } => events_endpoint_spec(since, limit),
        ApiRequest::ConfigFolder(id) => "/rest/config/folders/"@ + id@,
        ApiRequest::PutConfigFolder(id) => "/rest/config/folders/"@ + id@,
        ApiRequest::DeleteConfigFolder(id) => "/rest/config/folders/"@ + id@,
        ApiRequest::SetDevicePaused(id) => "/rest/config/devices/"@ + id@,
    }
}

/// The endpoint of an events request, with the optional `since` and `limit`
/// parameters.
pub fn events_endpoint(since: Option<u64>, limit: Option<u32>) -> (r: String)
    ensures
        r@ == events_endpoint_spec(since, limit),
{
    let mut params: Vec<String> = Vec::new();
    if let Some(s) = since {
        params.push(concat2("since=", decimal_string(s).as_str()));
    }
    if let Some(l) = limit {
        params.push(concat2("limit=", decimal_string(l as u64).as_str()));
    }
    assert(views(params@) =~= event_params(since, limit));
    let mut url = owned("/rest/events");
    if params.len() != 0 {
        url.append("?");
        url.append(join(&params, "&").as_str());
    }
    url
}

impl ApiRequest {
    /// The HTTP method that the request uses.
    pub fn method(&self) -> (m: HttpMethod)
        ensures
            m == request_method(*self),
    {
        match self {
            ApiRequest::ClearErrors | ApiRequest::Restart | ApiRequest::Shutdown
            | ApiRequest::DbScan(_) | ApiRequest::DbScanAll => HttpMethod::Post,
            ApiRequest::PutConfigFolder(_) => HttpMethod::Put,
            ApiRequest::DeleteConfigFolder(_) => HttpMethod::Delete,
            ApiRequest::SetDevicePaused(_) => HttpMethod::Patch,
            _ => HttpMethod::Get,
        }
    }

    /// The endpoint that the request goes to.
    pub fn endpoint(&self) -> (r: String)
        ensures
            r@ == request_endpoint(*self),
    {
        match self {
            ApiRequest::Status => owned("/rest/system/status"),
            ApiRequest::Version => owned("/rest/system/version"),
            ApiRequest::Connections => owned("/rest/system/connections"),
            ApiRequest::Errors => owned("/rest/system/error"),
            ApiRequest::ClearErrors => owned("/rest/system/error/clear"),
            ApiRequest::Restart => owned("/rest/system/restart"),
            ApiRequest::Shutdown => owned("/rest/system/shutdown"),
            ApiRequest::Config => owned("/rest/config"),
            ApiRequest::ConfigFolders => owned("/rest/config/folders"),
            ApiRequest::ConfigDevices => owned("/rest/config/devices"),
            ApiRequest::DbStatus(folder) => concat2("/rest/db/status?folder=", folder.as_str()),
            ApiRequest::DbCompletion => owned("/rest/db/completion"),
            ApiRequest::DbNeed(folder) => concat2("/rest/db/need?folder=", folder.as_str()),
            ApiRequest::DbScan(folder) => concat2("/rest/db/scan?folder=", folder.as_str()),
            ApiRequest::DbScanAll => owned("/rest/db/scan"),
            ApiRequest::StatsDevice => owned("/rest/stats/device"),
            ApiRequest::StatsFolder => owned("/rest/stats/folder"),
            ApiRequest::PendingDevices => owned("/rest/cluster/pending/devices"),
            ApiRequest::PendingFolders => owned("/rest/cluster/pending/folders"),
            ApiRequest::FolderErrors(folder) => concat2("/rest/folder/errors?folder=", folder.as_str()),
            ApiRequest::Events { since, limit } => events_endpoint(*since, *limit),
            ApiRequest::ConfigFolder(id) => concat2("/rest/config/folders/", id.as_str()),
            ApiRequest::PutConfigFolder(id) => concat2("/rest/config/folders/", id.as_str()),
            ApiRequest::DeleteConfigFolder(id) => concat2("/rest/config/folders/", id.as_str()),
            ApiRequest::SetDevicePaused(id) => concat2("/rest/config/devices/", id.as_str()),
        }
    }
}

/// A base URL never ends with `/`, and trimming it again changes nothing.
pub proof fn lemma_base_url_trimmed(url: Seq<char>)
    ensures
        trim_end_char(url, '/').len() == 0 || trim_end_char(url, '/').last() != '/',
        trim_end_char(trim_end_char(url, '/'), '/') == trim_end_char(url, '/'),
        trim_end_char(url, '/').is_prefix_of(url),
    decreases url.len(),
{
    if url.len() > 0 && url.last() == '/' {
        lemma_base_url_trimmed(url.drop_last());
        let t = trim_end_char(url.drop_last(), '/');
        assert(url.subrange(0, t.len() as int) =~= url.drop_last().subrange(0, t.len() as int));
    } else {
        assert(url.subrange(0, url.len() as int) =~= url);
    }
}

/// What is done with a reply before its body is read as JSON.
#[derive(Debug, Clone, Copy, PartialEq, Eq, Structural)]
pub enum ReplyHandling {
    /// The status is not a success: the request fails with `API error`
    /// and the status.
    StatusError,
    /// The body is empty and stands for JSON `null`.
    Null,
    /// The body is read as JSON.
    Parse,
}

/// A success status: 200 to 299.
pub open spec fn is_success_status(status: u16) -> bool {
    200 <= status <= 299
}

/// How a reply with `status` and `body` is handled. A reply that is not a
/// success fails; otherwise an empty body reads as `null` where
/// `empty_is_null` (POST requests) and the body is read as JSON in every
/// other case (GET requests always read it).
pub fn reply_handling(status: u16, body: &str, empty_is_null: bool) -> (r: ReplyHandling)
    ensures
        r == if !is_success_status(status) {
            ReplyHandling::StatusError
        } else if empty_is_null && body@.len() == 0 {
            ReplyHandling::Null
        } else {
            ReplyHandling::Parse
        },
{
    if !(200 <= status && status <= 299) {
        ReplyHandling::StatusError
    } else if empty_is_null && body.unicode_len() == 0 {
        ReplyHandling::Null
    } else {
        ReplyHandling::Parse
    }
}

} // verus!
