use rudder::addr::IpAddress;
use rudder::extract::HostnameError;
use rudder::extract::IpError;
use rudder::extract::IpVariant;
use rudder::extract::SourceKind;
use rudder::extract::extract_hostname;
use rudder::extract::extract_ip_variant;
use rudder::hostname::Hostname;

fn pairs(entries: &[(&str, &str)]) -> Vec<(String, String)> {
    entries
        .iter()
        .map(|(k, v)| (k.to_string(), v.to_string()))
        .collect()
}

#[test]
fn scenario_query_hostname_and_ip() {
    let params = pairs(&[("hostname", "example.com"), ("ip", "203.0.113.5")]);
    let headers = pairs(&[]);
    let host = extract_hostname(&params, &headers).unwrap();
    assert_eq!(host.as_str(), "example.com");
    let ip = extract_ip_variant(&params, &headers).unwrap();
    assert_eq!(ip, IpVariant::Ip(IpAddress::V4(203, 0, 113, 5)));
}

#[test]
fn scenario_auto_from_trusted_proxy_header() {
    let params = pairs(&[("hostname", "example.com")]);
    let headers = pairs(&[("X-Ip", "auto"), ("CF-Connecting-Ip", "198.51.100.9")]);
    let ip = extract_ip_variant(&params, &headers).unwrap();
    assert_eq!(ip, IpVariant::Auto(IpAddress::V4(198, 51, 100, 9)));
}

#[test]
fn hostname_casing_variants_agree() {
    let variants = [
        "hostname",
        "Hostname",
        "targethostname",
        "target-hostname",
        "target_hostname",
        "targetHostname",
        "TargetHostname",
    ];
    for name in variants {
        let params = pairs(&[(name, "example.com")]);
        let host = extract_hostname(&params, &pairs(&[])).unwrap();
        assert_eq!(host.as_str(), "example.com");
    }
}

#[test]
fn ip_casing_variants_agree() {
    let variants = [
        "ip", "Ip", "myip", "my_ip", "myIp", "MyIp", "targetip", "target-ip", "target_ip",
        "targetIp", "TargetIp",
    ];
    for name in variants {
        let params = pairs(&[(name, "203.0.113.5")]);
        let ip = extract_ip_variant(&params, &pairs(&[])).unwrap();
        assert_eq!(ip, IpVariant::Ip(IpAddress::V4(203, 0, 113, 5)));
    }
}

#[test]
fn header_variants_agree_case_insensitively() {
    for name in ["x-hostname", "X-Hostname", "X-TARGETHOSTNAME", "x-target-hostname"] {
        let headers = pairs(&[(name, "example.com")]);
        let host = extract_hostname(&pairs(&[]), &headers).unwrap();
        assert_eq!(host.as_str(), "example.com");
    }
    for name in ["x-ip", "X-Ip", "X-MYIP", "x-my-ip", "x-target-ip"] {
        let headers = pairs(&[(name, "203.0.113.5")]);
        let ip = extract_ip_variant(&pairs(&[]), &headers).unwrap();
        assert_eq!(ip, IpVariant::Ip(IpAddress::V4(203, 0, 113, 5)));
    }
}

#[test]
fn query_beats_header_for_both_fields() {
    let params = pairs(&[("hostname", "fromquery.example"), ("ip", "203.0.113.5")]);
    let headers = pairs(&[("x-hostname", "fromheader.example"), ("x-ip", "192.0.2.77")]);
    let host = extract_hostname(&params, &headers).unwrap();
    assert_eq!(host.as_str(), "fromquery.example");
    let ip = extract_ip_variant(&params, &headers).unwrap();
    assert_eq!(ip, IpVariant::Ip(IpAddress::V4(203, 0, 113, 5)));
}

#[test]
fn auto_prefers_trusted_proxy_then_real_client_then_forwarded() {
    let params = pairs(&[("ip", "auto")]);
    let all = pairs(&[
        ("CF-Connecting-Ip", "198.51.100.1"),
        ("X-Real-Ip", "198.51.100.2"),
        ("X-Forwarded-For", "198.51.100.3, 203.0.113.9"),
    ]);
    assert_eq!(
        extract_ip_variant(&params, &all).unwrap(),
        IpVariant::Auto(IpAddress::V4(198, 51, 100, 1))
    );
    let no_proxy = pairs(&[
        ("X-Real-Ip", "198.51.100.2"),
        ("X-Forwarded-For", "198.51.100.3, 203.0.113.9"),
    ]);
    assert_eq!(
        extract_ip_variant(&params, &no_proxy).unwrap(),
        IpVariant::Auto(IpAddress::V4(198, 51, 100, 2))
    );
    let only_forwarded = pairs(&[("X-Forwarded-For", "198.51.100.3, 203.0.113.9")]);
    assert_eq!(
        extract_ip_variant(&params, &only_forwarded).unwrap(),
        IpVariant::Auto(IpAddress::V4(198, 51, 100, 3))
    );
    let padded = pairs(&[("X-Forwarded-For", "  198.51.100.3 , 203.0.113.9")]);
    assert_eq!(
        extract_ip_variant(&params, &padded).unwrap(),
        IpVariant::Auto(IpAddress::V4(198, 51, 100, 3))
    );
}

#[test]
fn auto_without_client_headers_fails() {
    let params = pairs(&[("ip", "auto")]);
    let err = extract_ip_variant(&params, &pairs(&[])).unwrap_err();
    assert_eq!(
        err,
        IpError::AutoHeadersMissing {
            kind: SourceKind::QueryParam,
            name: "ip".to_string()
        }
    );
    assert_eq!(
        err.message(),
        "'auto' specified in query parameter 'ip', but no relevant IP headers were found"
    );
    assert_eq!(err.status_code(), 400);
}

#[test]
fn auto_in_header_resolves_like_query() {
    let headers = pairs(&[("X-Ip", "auto")]);
    let err = extract_ip_variant(&pairs(&[]), &headers).unwrap_err();
    assert_eq!(
        err,
        IpError::AutoHeadersMissing { kind: SourceKind::Header, name: "x-ip".to_string() }
    );
}

#[test]
fn fetch_is_recognized_case_insensitively() {
    for v in ["fetch", "Fetch", "FETCH", "  fetch  "] {
        let params = pairs(&[("ip", v)]);
        assert_eq!(extract_ip_variant(&params, &pairs(&[])).unwrap(), IpVariant::Fetch);
    }
}

#[test]
fn missing_hostname_reports_not_found() {
    let err = extract_hostname(&pairs(&[]), &pairs(&[])).unwrap_err();
    assert_eq!(err, HostnameError::NotFound);
    assert_eq!(err.message(), "no hostname found in query parameters or headers");
    assert_eq!(err.status_code(), 400);
}

#[test]
fn missing_ip_reports_not_found() {
    let err = extract_ip_variant(&pairs(&[]), &pairs(&[])).unwrap_err();
    assert_eq!(err, IpError::NotFound);
    assert_eq!(err.message(), "no IP address found in query parameters or headers");
}

#[test]
fn empty_and_invalid_ip_values_report_their_source() {
    let err = extract_ip_variant(&pairs(&[("ip", "   ")]), &pairs(&[])).unwrap_err();
    assert_eq!(
        err,
        IpError::Empty { kind: SourceKind::QueryParam, name: "ip".to_string() }
    );
    assert_eq!(err.message(), "empty IP address in query parameter 'ip'");
    let err = extract_ip_variant(&pairs(&[("ip", "not-an-ip")]), &pairs(&[])).unwrap_err();
    assert_eq!(
        err,
        IpError::Invalid { kind: SourceKind::QueryParam, name: "ip".to_string() }
    );
    assert_eq!(err.message(), "invalid IP address in query parameter 'ip'");
}

#[test]
fn empty_hostname_reports_its_source() {
    let err = extract_hostname(&pairs(&[("hostname", "http:// ")]), &pairs(&[])).unwrap_err();
    assert_eq!(
        err,
        HostnameError::Empty { kind: SourceKind::QueryParam, name: "hostname".to_string() }
    );
    assert_eq!(
        err.message(),
        "invalid hostname provided in query parameter 'hostname': hostname is empty"
    );
}

#[test]
fn hostname_strips_schemes_repeatedly() {
    let h = Hostname::parse("  https://http://example.com  ").unwrap();
    assert_eq!(h.as_str(), "example.com");
}

#[test]
fn hostname_normalizes_case() {
    let h = Hostname::parse("EXAMPLE.Com").unwrap();
    assert_eq!(h.as_str(), "example.com");
}

#[test]
fn hostname_revalidation_is_idempotent() {
    let h = Hostname::parse("https://Example.COM").unwrap();
    let again = Hostname::parse(h.as_str()).unwrap();
    assert_eq!(h, again);
}

#[test]
fn hostname_rejects_invalid_names() {
    assert!(Hostname::parse("exa mple.com").is_err());
    assert!(Hostname::parse("").is_err());
}
