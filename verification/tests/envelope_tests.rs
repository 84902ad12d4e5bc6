use rudder::envelope::CloudflareResponse;
use rudder::json::DecodeError;
use rudder::json::decode_record_response;
use rudder::json::decode_records_response;
use rudder::json::decode_token_response;
use rudder::json::decode_zones_response;
use rudder::json::json_escape;
use rudder::json::record_kind_of_text;
use rudder::json::record_kind_text;
use rudder::json::record_payload_json;
use rudder::json::token_status_of;
use rudder::models::CloudflareDnsRecord;
use rudder::models::CloudflareDnsRecordKind;
use rudder::models::CloudflareUserTokenStatus;

#[test]
fn success_envelope_decodes_payload() {
    let body = r#"{"success":true,"errors":[],"result":[
        {"id":"z1","name":"example.com","account":{"id":"a1","name":"acct"}}
    ]}"#;
    let zones = match decode_zones_response(body).unwrap() {
        CloudflareResponse::Success { result } => result,
        CloudflareResponse::Error { .. } => panic!("expected success"),
    };
    assert_eq!(zones.len(), 1);
    assert_eq!(zones[0].id, "z1");
    assert_eq!(zones[0].name, "example.com");
    assert_eq!(zones[0].account.id, "a1");
    assert_eq!(zones[0].account.name, "acct");
}

#[test]
fn failure_envelope_folds_nested_chain() {
    let body = r#"{"success":false,"errors":[
        {"code":1003,"message":"top","error_chain":[
            {"code":7003,"message":"mid","error_chain":[
                {"code":9109,"message":"deep"}
            ]}
        ]}
    ]}"#;
    let resp = decode_zones_response(body).unwrap();
    let diagnostic = resp.into_result().unwrap_err();
    assert_eq!(
        diagnostic,
        vec![
            "cloudflare API error".to_string(),
            "code: 1003, message: top".to_string(),
            "code: 7003, message: mid".to_string(),
            "code: 9109, message: deep".to_string(),
            "cloudflare API error".to_string(),
        ]
    );
}

#[test]
fn success_without_result_is_a_decode_error() {
    let body = r#"{"success":true,"errors":[]}"#;
    let err = decode_zones_response(body).unwrap_err();
    assert_eq!(err, DecodeError::SuccessMissingResult);
    assert_eq!(err.message(), "response was successful, but result is missing");
}

#[test]
fn failure_without_errors_is_a_decode_error() {
    let body = r#"{"success":false,"errors":[]}"#;
    let err = decode_zones_response(body).unwrap_err();
    assert_eq!(err, DecodeError::FailureMissingErrors);
    assert_eq!(err.message(), "response was failure, but errors are missing");
}

#[test]
fn null_result_counts_as_missing() {
    let body = r#"{"success":true,"result":null,"errors":[]}"#;
    assert_eq!(
        decode_zones_response(body).unwrap_err(),
        DecodeError::SuccessMissingResult
    );
}

#[test]
fn invalid_json_is_reported() {
    let err = decode_zones_response("{not json").unwrap_err();
    assert!(matches!(err, DecodeError::InvalidJson(_)));
    assert!(err.message().starts_with("response contained invalid json: "));
}

#[test]
fn missing_success_flag_is_malformed() {
    assert_eq!(
        decode_zones_response(r#"{"result":[]}"#).unwrap_err(),
        DecodeError::MalformedEnvelope
    );
}

#[test]
fn token_envelope_reads_status() {
    let body = r#"{"success":true,"result":{"status":"active"}}"#;
    let token = match decode_token_response(body).unwrap() {
        CloudflareResponse::Success { result } => result,
        CloudflareResponse::Error { .. } => panic!("expected success"),
    };
    assert!(matches!(token.status, CloudflareUserTokenStatus::Active));
}

#[test]
fn token_status_words() {
    assert_eq!(token_status_of("active"), Some(CloudflareUserTokenStatus::Active));
    assert_eq!(token_status_of("disabled"), Some(CloudflareUserTokenStatus::Disabled));
    assert_eq!(token_status_of("expired"), Some(CloudflareUserTokenStatus::Expired));
    assert_eq!(token_status_of("Active"), None);
    assert_eq!(token_status_of(""), None);
}

#[test]
fn record_envelope_applies_defaults() {
    let body = r#"{"success":true,"result":{"name":"example.com","content":"203.0.113.5","type":"A"}}"#;
    let rec = match decode_record_response(body).unwrap() {
        CloudflareResponse::Success { result } => result,
        CloudflareResponse::Error { .. } => panic!("expected success"),
    };
    assert_eq!(rec.id, "");
    assert_eq!(rec.kind, CloudflareDnsRecordKind::A);
    assert_eq!(rec.name, "example.com");
    assert_eq!(rec.content, "203.0.113.5");
    assert_eq!(rec.comment, None);
    assert!(!rec.proxied);
    assert_eq!(rec.ttl, 3600);
}

#[test]
fn record_listing_decodes_every_field() {
    let body = r#"{"success":true,"result":[
        {"id":"r1","type":"AAAA","name":"example.com","content":"0:0:0:0:0:0:0:1",
         "comment":"managed","proxied":true,"ttl":120}
    ]}"#;
    let recs = match decode_records_response(body).unwrap() {
        CloudflareResponse::Success { result } => result,
        CloudflareResponse::Error { .. } => panic!("expected success"),
    };
    assert_eq!(recs.len(), 1);
    assert_eq!(recs[0].id, "r1");
    assert_eq!(recs[0].kind, CloudflareDnsRecordKind::AAAA);
    assert_eq!(recs[0].comment.as_deref(), Some("managed"));
    assert!(recs[0].proxied);
    assert_eq!(recs[0].ttl, 120);
}

#[test]
fn record_with_unknown_kind_is_bad_payload() {
    let body = r#"{"success":true,"result":{"type":"BOGUS"}}"#;
    let err = decode_record_response(body).unwrap_err();
    assert_eq!(
        err,
        DecodeError::BadPayload {
            path: "result.type".to_string(),
            cause: "unrecognized record kind".to_string(),
        }
    );
    assert_eq!(
        err.message(),
        "failed to deserialize at 'result.type': unrecognized record kind"
    );
}

#[test]
fn payload_mismatch_names_the_failing_member() {
    // The second zone's account lacks its name.
    let body = r#"{"success":true,"result":[
        {"id":"z1","name":"one.example","account":{"id":"a1","name":"acct"}},
        {"id":"z2","name":"two.example","account":{"id":"a2"}}
    ]}"#;
    let err = decode_zones_response(body).unwrap_err();
    assert_eq!(
        err,
        DecodeError::BadPayload {
            path: "result[1].account.name".to_string(),
            cause: "missing member".to_string(),
        }
    );
    assert_eq!(
        err.message(),
        "failed to deserialize at 'result[1].account.name': missing member"
    );

    // A record member of the wrong kind of value.
    let body = r#"{"success":true,"result":{"ttl":"soon"}}"#;
    assert_eq!(
        decode_record_response(body).unwrap_err(),
        DecodeError::BadPayload { path: "result.ttl".to_string(), cause: "wrong type".to_string() }
    );

    // A payload that is not the expected container at all.
    let body = r#"{"success":true,"result":7}"#;
    assert_eq!(
        decode_zones_response(body).unwrap_err(),
        DecodeError::BadPayload { path: "result".to_string(), cause: "wrong type".to_string() }
    );

    // A token payload without its status word.
    let body = r#"{"success":true,"result":{}}"#;
    assert_eq!(
        decode_token_response(body).unwrap_err(),
        DecodeError::BadPayload {
            path: "result.status".to_string(),
            cause: "missing member".to_string(),
        }
    );
}

#[test]
fn record_kind_names_round_trip() {
    let kinds = [
        CloudflareDnsRecordKind::A,
        CloudflareDnsRecordKind::AAAA,
        CloudflareDnsRecordKind::CNAME,
        CloudflareDnsRecordKind::MX,
        CloudflareDnsRecordKind::TXT,
        CloudflareDnsRecordKind::URI,
    ];
    for k in kinds {
        assert_eq!(record_kind_of_text(record_kind_text(k)), Some(k));
    }
    assert_eq!(record_kind_text(CloudflareDnsRecordKind::AAAA), "AAAA");
    assert_eq!(record_kind_of_text("aaaa"), None);
}

#[test]
fn json_escape_handles_specials() {
    assert_eq!(json_escape("plain"), "plain");
    assert_eq!(json_escape("a\"b"), "a\\\"b");
    assert_eq!(json_escape("a\\b"), "a\\\\b");
    assert_eq!(json_escape("a\nb"), "a\\u000ab");
}

#[test]
fn record_payload_frames_exactly() {
    let rec = CloudflareDnsRecord {
        id: "ignored".to_string(),
        kind: CloudflareDnsRecordKind::A,
        name: "example.com".to_string(),
        content: "203.0.113.5".to_string(),
        comment: None,
        proxied: false,
        ttl: 3600,
    };
    assert_eq!(
        record_payload_json(&rec),
        "{\"type\":\"A\",\"name\":\"example.com\",\"content\":\"203.0.113.5\",\"comment\":null,\"proxied\":false,\"ttl\":3600}"
    );
    let rec2 = CloudflareDnsRecord {
        id: String::new(),
        kind: CloudflareDnsRecordKind::AAAA,
        name: "example.com".to_string(),
        content: "0:0:0:0:0:0:0:1".to_string(),
        comment: Some("managed \"a\"".to_string()),
        proxied: true,
        ttl: 120,
    };
    assert_eq!(
        record_payload_json(&rec2),
        "{\"type\":\"AAAA\",\"name\":\"example.com\",\"content\":\"0:0:0:0:0:0:0:1\",\"comment\":\"managed \\\"a\\\"\",\"proxied\":true,\"ttl\":120}"
    );
}

#[test]
fn payload_parses_back_with_serde() {
    let rec = CloudflareDnsRecord {
        id: String::new(),
        kind: CloudflareDnsRecordKind::A,
        name: "example.com".to_string(),
        content: "203.0.113.5".to_string(),
        comment: Some("line\nbreak".to_string()),
        proxied: false,
        ttl: 3600,
    };
    let text = record_payload_json(&rec);
    let v: serde_json::Value = serde_json::from_str(&text).unwrap();
    assert_eq!(v["type"], "A");
    assert_eq!(v["name"], "example.com");
    assert_eq!(v["comment"], "line\nbreak");
    assert_eq!(v["ttl"], 3600);
}
