use identity_sync::errors::{DiscoveryError, HashingError, SyncError};
use identity_sync::identity::Identity;
use identity_sync::registry::{build_upload, finish_upload, prepare_upload, HttpResponse, SyncReport};

fn ident(id: &str, label: Option<&str>, ts: Option<u64>) -> Identity {
    Identity {
        id: id.to_string(),
        label: label.map(|s| s.to_string()),
        last_seen: ts,
        source: "local".to_string(),
    }
}

#[test]
fn prepared_upload_has_the_exact_url_and_body() {
    let base = Some("http://registry.test".to_string());
    let ids = vec![ident("A", Some("anna"), Some(100)), ident("B", None, None)];
    let prep = prepare_upload(&base, &"abc".to_string(), &ids).unwrap();
    assert_eq!(prep.url, "http://registry.test/steam/bulk-import");
    let expected_head = "{\"device_fingerprint\":\"abc\",\"steam_users\":[";
    let expected_a = "{\"id\":\"A\",\"label\":\"anna\",\"last_seen\":100,\"source\":\"local\"}";
    let expected_b = "{\"id\":\"B\",\"label\":null,\"last_seen\":null,\"source\":\"local\"}";
    assert_eq!(
        prep.body,
        format!("{}{},{}]}}", expected_head, expected_a, expected_b)
    );
}

#[test]
fn payload_escapes_quotes_backslashes_and_controls() {
    let base = Some("http://registry.test".to_string());
    let ids = vec![ident("A\"B", Some("a\\b\nc"), Some(7))];
    let prep = prepare_upload(&base, &"fp".to_string(), &ids).unwrap();
    let expected_head = "{\"device_fingerprint\":\"fp\",\"steam_users\":[";
    let expected_entry =
        "{\"id\":\"A\\\"B\",\"label\":\"a\\\\b\\u000ac\",\"last_seen\":7,\"source\":\"local\"}";
    assert_eq!(
        prep.body,
        format!("{}{}]}}", expected_head, expected_entry)
    );
}

#[test]
fn large_timestamps_print_all_their_digits() {
    let base = Some("b".to_string());
    let ids = vec![ident("A", None, Some(u64::MAX))];
    let prep = prepare_upload(&base, &"f".to_string(), &ids).unwrap();
    assert!(prep.body.contains("\"last_seen\":18446744073709551615,"));
    let zero = vec![ident("A", None, Some(0))];
    let prep0 = prepare_upload(&base, &"f".to_string(), &zero).unwrap();
    assert!(prep0.body.contains("\"last_seen\":0,"));
}

#[test]
fn missing_base_url_fails_before_any_network_call() {
    let mut transport_calls = 0;
    let r = build_upload(
        &None,
        Ok("abc".to_string()),
        Ok(vec![ident("A", None, Some(1))]),
    );
    let prepared = match r {
        Ok(p) => Some(p),
        Err(e) => {
            assert_eq!(
                e,
                SyncError::Config("registry base URL is not configured".to_string())
            );
            None
        }
    };
    if prepared.is_some() {
        transport_calls += 1;
    }
    assert_eq!(transport_calls, 0);
}

#[test]
fn fingerprint_and_discovery_failures_short_circuit() {
    let base = Some("http://registry.test".to_string());
    let hash_err = HashingError {
        message: "attributes unavailable".to_string(),
    };
    let r = build_upload(&base, Err(hash_err), Ok(vec![]));
    assert_eq!(
        r.unwrap_err(),
        SyncError::Fingerprint(HashingError {
            message: "attributes unavailable".to_string()
        })
    );
    let disc_err = DiscoveryError {
        message: "no registry hive".to_string(),
    };
    let r2 = build_upload(&base, Ok("fp".to_string()), Err(disc_err));
    assert_eq!(
        r2.unwrap_err(),
        SyncError::Discovery(DiscoveryError {
            message: "no registry hive".to_string()
        })
    );
}

#[test]
fn a_server_failure_status_is_a_reported_success() {
    let r = finish_upload(Ok(HttpResponse {
        status: 500,
        body: "error".to_string(),
    }));
    let report = r.unwrap();
    assert_eq!(
        report,
        SyncReport {
            status: 500,
            body: "error".to_string()
        }
    );
    assert!(!report.is_success_status());
}

#[test]
fn a_success_status_is_reported_with_its_body() {
    let report = finish_upload(Ok(HttpResponse {
        status: 201,
        body: "imported 2".to_string(),
    }))
    .unwrap();
    assert_eq!(report.status, 201);
    assert_eq!(report.body, "imported 2");
    assert!(report.is_success_status());
}

#[test]
fn a_transport_failure_is_an_error() {
    let r = finish_upload(Err("connection refused".to_string()));
    assert_eq!(
        r.unwrap_err(),
        SyncError::Transport("connection refused".to_string())
    );
}

#[test]
fn errors_describe_themselves() {
    let config = SyncError::Config("registry base URL is not configured".to_string());
    assert_eq!(
        config.describe(),
        "configuration error: registry base URL is not configured"
    );
    let transport = SyncError::Transport("connection refused".to_string());
    assert_eq!(transport.describe(), "transport error: connection refused");
    let discovery = SyncError::Discovery(DiscoveryError {
        message: "no registry hive".to_string(),
    });
    assert_eq!(discovery.describe(), "discovery error: no registry hive");
}

#[test]
fn empty_identity_list_still_uploads_a_complete_payload() {
    let base = Some("http://registry.test".to_string());
    let prep = prepare_upload(&base, &"fp".to_string(), &vec![]).unwrap();
    assert_eq!(prep.body, "{\"device_fingerprint\":\"fp\",\"steam_users\":[]}");
}
