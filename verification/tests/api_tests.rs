use syncthing_cli::api::{events_endpoint, reply_handling, ApiClient, ApiRequest, HttpMethod, ReplyHandling};

#[test]
fn client_trims_trailing_slashes() {
    let client = ApiClient::new("test-key", "http://127.0.0.1:8384///").ok().unwrap();
    assert_eq!(client.base_url(), "http://127.0.0.1:8384");
    assert_eq!(client.api_key(), "test-key");
    assert_eq!(client.url("/rest/system/status"), "http://127.0.0.1:8384/rest/system/status");
}

#[test]
fn events_endpoint_parameters() {
    assert_eq!(events_endpoint(None, None), "/rest/events");
    assert_eq!(events_endpoint(Some(5), None), "/rest/events?since=5");
    assert_eq!(events_endpoint(None, Some(20)), "/rest/events?limit=20");
    assert_eq!(events_endpoint(Some(1234), Some(0)), "/rest/events?since=1234&limit=0");
    assert_eq!(
        events_endpoint(Some(u64::MAX), Some(u32::MAX)),
        format!("/rest/events?since={}&limit={}", u64::MAX, u32::MAX)
    );
}

#[test]
fn request_endpoints_and_methods() {
    let cases = vec![
        (ApiRequest::Status, "/rest/system/status", HttpMethod::Get),
        (ApiRequest::Version, "/rest/system/version", HttpMethod::Get),
        (ApiRequest::Connections, "/rest/system/connections", HttpMethod::Get),
        (ApiRequest::Errors, "/rest/system/error", HttpMethod::Get),
        (ApiRequest::ClearErrors, "/rest/system/error/clear", HttpMethod::Post),
        (ApiRequest::Restart, "/rest/system/restart", HttpMethod::Post),
        (ApiRequest::Shutdown, "/rest/system/shutdown", HttpMethod::Post),
        (ApiRequest::Config, "/rest/config", HttpMethod::Get),
        (ApiRequest::ConfigFolders, "/rest/config/folders", HttpMethod::Get),
        (ApiRequest::ConfigDevices, "/rest/config/devices", HttpMethod::Get),
        (ApiRequest::DbStatus("f1".to_string()), "/rest/db/status?folder=f1", HttpMethod::Get),
        (ApiRequest::DbCompletion, "/rest/db/completion", HttpMethod::Get),
        (ApiRequest::DbNeed("f1".to_string()), "/rest/db/need?folder=f1", HttpMethod::Get),
        (ApiRequest::DbScan("f1".to_string()), "/rest/db/scan?folder=f1", HttpMethod::Post),
        (ApiRequest::DbScanAll, "/rest/db/scan", HttpMethod::Post),
        (ApiRequest::StatsDevice, "/rest/stats/device", HttpMethod::Get),
        (ApiRequest::StatsFolder, "/rest/stats/folder", HttpMethod::Get),
        (ApiRequest::PendingDevices, "/rest/cluster/pending/devices", HttpMethod::Get),
        (ApiRequest::PendingFolders, "/rest/cluster/pending/folders", HttpMethod::Get),
        (ApiRequest::FolderErrors("f1".to_string()), "/rest/folder/errors?folder=f1", HttpMethod::Get),
        (ApiRequest::Events { since: None, limit: Some(20) }, "/rest/events?limit=20", HttpMethod::Get),
        (ApiRequest::ConfigFolder("f1".to_string()), "/rest/config/folders/f1", HttpMethod::Get),
        (ApiRequest::PutConfigFolder("f1".to_string()), "/rest/config/folders/f1", HttpMethod::Put),
        (ApiRequest::DeleteConfigFolder("f1".to_string()), "/rest/config/folders/f1", HttpMethod::Delete),
        (ApiRequest::SetDevicePaused("AAAA-BBBB".to_string()), "/rest/config/devices/AAAA-BBBB", HttpMethod::Patch),
    ];
    for (req, endpoint, method) in cases {
        assert_eq!(req.endpoint(), endpoint);
        assert_eq!(req.method(), method);
    }
}

#[test]
fn replies_are_handled_by_status_then_body() {
    assert_eq!(reply_handling(404, "", true), ReplyHandling::StatusError);
    assert_eq!(reply_handling(500, "{}", false), ReplyHandling::StatusError);
    assert_eq!(reply_handling(199, "{}", false), ReplyHandling::StatusError);
    assert_eq!(reply_handling(300, "", false), ReplyHandling::StatusError);
    assert_eq!(reply_handling(200, "", true), ReplyHandling::Null);
    assert_eq!(reply_handling(204, "", true), ReplyHandling::Null);
    assert_eq!(reply_handling(200, "", false), ReplyHandling::Parse);
    assert_eq!(reply_handling(299, "{\"a\":1}", true), ReplyHandling::Parse);
}
