use rudder::addr::IpAddress;
use rudder::basic_auth::BasicAuthError;
use rudder::basic_auth::decode_basic_auth;
use rudder::client::Credential;
use rudder::client::check_token_active;
use rudder::client::dns_record_url;
use rudder::client::dns_records_url;
use rudder::client::token_status_text;
use rudder::client::verify_token_url;
use rudder::client::zones_url;
use rudder::models::CloudflareUserToken;
use rudder::models::CloudflareUserTokenStatus;
use rudder::poll::GatewayAddress;
use rudder::poll::PollState;
use rudder::poll::evaluate_cycle;
use rudder::worker::handle_request;

fn pairs(entries: &[(&str, &str)]) -> Vec<(String, String)> {
    entries
        .iter()
        .map(|(k, v)| (k.to_string(), v.to_string()))
        .collect()
}

// "user:pass" in base64, standard alphabet.
const USER_PASS: &[u8] = b"Basic dXNlcjpwYXNz";

#[test]
fn basic_auth_decodes_credentials() {
    let header = USER_PASS.to_vec();
    let (user, pass) = decode_basic_auth(Some(&header)).unwrap();
    assert_eq!(user, "user");
    assert_eq!(pass, "pass");
}

#[test]
fn basic_auth_splits_at_first_colon() {
    // "user:pa:ss"
    let header = b"Basic dXNlcjpwYTpzcw==".to_vec();
    let (user, pass) = decode_basic_auth(Some(&header)).unwrap();
    assert_eq!(user, "user");
    assert_eq!(pass, "pa:ss");
}

#[test]
fn basic_auth_failures_name_their_step() {
    let err = decode_basic_auth(None).unwrap_err();
    assert_eq!(err, BasicAuthError::MissingHeader);
    assert_eq!(err.message(), "missing Authorization header");
    assert_eq!(err.status_code(), 401);

    let bearer = b"Bearer abc".to_vec();
    assert_eq!(
        decode_basic_auth(Some(&bearer)).unwrap_err(),
        BasicAuthError::NotBasic
    );

    let bad64 = b"Basic !!!".to_vec();
    assert!(matches!(
        decode_basic_auth(Some(&bad64)).unwrap_err(),
        BasicAuthError::BadBase64 { .. }
    ));

    // base64 of the single byte 0xff, which is not UTF-8.
    let badutf8 = b"Basic /w==".to_vec();
    assert!(matches!(
        decode_basic_auth(Some(&badutf8)).unwrap_err(),
        BasicAuthError::BadUtf8 { .. }
    ));

    // base64 of "nocolon".
    let nosep = b"Basic bm9jb2xvbg==".to_vec();
    assert_eq!(
        decode_basic_auth(Some(&nosep)).unwrap_err(),
        BasicAuthError::MissingSeparator
    );
}

#[test]
fn handler_answers_with_parsed_fields() {
    let params = pairs(&[("hostname", "example.com"), ("ip", "203.0.113.5")]);
    let header = USER_PASS.to_vec();
    let reply = handle_request(&params, &pairs(&[]), Some(&header)).unwrap();
    assert_eq!(
        reply,
        "Parsed dynamic DNS request successfully!\n- Hostname: example.com\n- IP: 203.0.113.5"
    );
}

#[test]
fn handler_resolves_auto_from_headers() {
    let headers = pairs(&[("X-Ip", "auto"), ("CF-Connecting-Ip", "198.51.100.9")]);
    let params = pairs(&[("hostname", "example.com")]);
    let header = USER_PASS.to_vec();
    let reply = handle_request(&params, &headers, Some(&header)).unwrap();
    assert_eq!(
        reply,
        "Parsed dynamic DNS request successfully!\n- Hostname: example.com\n- IP: 198.51.100.9"
    );
}

#[test]
fn handler_rejects_fetch_intent() {
    let params = pairs(&[("hostname", "example.com"), ("ip", "fetch")]);
    let header = USER_PASS.to_vec();
    let (status, message) = handle_request(&params, &pairs(&[]), Some(&header)).unwrap_err();
    assert_eq!(status, 400);
    assert_eq!(message, "ip 'fetch' option can not be used in a Cloudflare Worker");
}

#[test]
fn handler_requires_credentials() {
    let params = pairs(&[("hostname", "example.com"), ("ip", "203.0.113.5")]);
    let (status, message) = handle_request(&params, &pairs(&[]), None).unwrap_err();
    assert_eq!(status, 401);
    assert_eq!(message, "missing Authorization header");
}

#[test]
fn handler_reports_missing_hostname() {
    let header = USER_PASS.to_vec();
    let (status, message) = handle_request(&pairs(&[]), &pairs(&[]), Some(&header)).unwrap_err();
    assert_eq!(status, 400);
    assert_eq!(message, "no hostname found in query parameters or headers");
}

#[test]
fn credential_rejects_empty_secrets() {
    assert!(Credential::new("").is_err());
    assert!(Credential::new("   ").is_err());
    let c = Credential::new("  SECRET-REDACTED  ").unwrap();
    assert_eq!(c.authorization_value(), "Bearer SECRET-REDACTED");
}

#[test]
fn endpoint_addresses() {
    assert_eq!(
        verify_token_url(),
        "https://api.cloudflare.com/client/v4/user/tokens/verify"
    );
    assert_eq!(zones_url(), "https://api.cloudflare.com/client/v4/zones");
    assert_eq!(
        dns_records_url("z1"),
        "https://api.cloudflare.com/client/v4/zones/z1/dns_records"
    );
    assert_eq!(
        dns_record_url("z1", "r9"),
        "https://api.cloudflare.com/client/v4/zones/z1/dns_records/r9"
    );
}

#[test]
fn only_active_tokens_pass() {
    let active = CloudflareUserToken { status: CloudflareUserTokenStatus::Active };
    assert!(check_token_active(&active).is_ok());
    let disabled = CloudflareUserToken { status: CloudflareUserTokenStatus::Disabled };
    let status = check_token_active(&disabled).unwrap_err();
    assert_eq!(token_status_text(status), "Disabled");
    let expired = CloudflareUserToken { status: CloudflareUserTokenStatus::Expired };
    assert_eq!(token_status_text(check_token_active(&expired).unwrap_err()), "Expired");
}

#[test]
fn first_cycle_reports_and_reconciles() {
    let state = PollState::new();
    let gateway = GatewayAddress { ip: IpAddress::V4(192, 168, 1, 1), port: 1900 };
    let address = IpAddress::V4(203, 0, 113, 5);
    let (report, next) = evaluate_cycle(&state, gateway, address);
    assert!(report.gateway_found);
    assert!(!report.gateway_changed);
    assert!(report.address_found);
    assert!(!report.address_changed);
    assert!(report.reconcile_needed);
    assert_eq!(next.last_gateway, Some(gateway));
    assert_eq!(next.last_address, Some(address));
}

#[test]
fn unchanged_address_suppresses_reconciliation() {
    let gateway = GatewayAddress { ip: IpAddress::V4(192, 168, 1, 1), port: 1900 };
    let address = IpAddress::V4(203, 0, 113, 5);
    let state = PollState { last_gateway: Some(gateway), last_address: Some(address) };
    let (report, next) = evaluate_cycle(&state, gateway, address);
    assert!(!report.gateway_found);
    assert!(!report.gateway_changed);
    assert!(!report.address_found);
    assert!(!report.address_changed);
    assert!(!report.reconcile_needed);
    assert_eq!(next, state);
}

#[test]
fn changed_address_demands_reconciliation() {
    let gateway = GatewayAddress { ip: IpAddress::V4(192, 168, 1, 1), port: 1900 };
    let state = PollState {
        last_gateway: Some(gateway),
        last_address: Some(IpAddress::V4(203, 0, 113, 5)),
    };
    let new_gateway = GatewayAddress { ip: IpAddress::V4(192, 168, 1, 2), port: 1900 };
    let new_address = IpAddress::V4(198, 51, 100, 9);
    let (report, next) = evaluate_cycle(&state, new_gateway, new_address);
    assert!(report.gateway_changed);
    assert!(report.address_changed);
    assert!(report.reconcile_needed);
    assert_eq!(next.last_address, Some(new_address));
}
