use rudder::models::CloudflareDnsRecord;
use rudder::models::CloudflareDnsRecordKind;
use rudder::models::CloudflareZone;
use rudder::models::CloudflareZoneAccount;
use rudder::reconcile::RecordPlan;
use rudder::reconcile::ZoneSelectError;
use rudder::reconcile::plan_reconciliation;
use rudder::reconcile::select_single_zone;

fn record(id: &str, kind: CloudflareDnsRecordKind, name: &str, content: &str) -> CloudflareDnsRecord {
    CloudflareDnsRecord {
        id: id.to_string(),
        kind,
        name: name.to_string(),
        content: content.to_string(),
        comment: None,
        proxied: false,
        ttl: 3600,
    }
}

fn zone(id: &str, name: &str) -> CloudflareZone {
    CloudflareZone {
        id: id.to_string(),
        name: name.to_string(),
        account: CloudflareZoneAccount { id: "a1".to_string(), name: "acct".to_string() },
    }
}

#[test]
fn matching_content_is_a_noop() {
    let records = vec![record("r1", CloudflareDnsRecordKind::A, "example.com", "203.0.113.5")];
    let plan = plan_reconciliation(
        &records,
        "example.com",
        CloudflareDnsRecordKind::A,
        "203.0.113.5",
    );
    assert!(matches!(plan, RecordPlan::NoOp));
}

#[test]
fn differing_content_updates_in_place() {
    let mut existing = record("r1", CloudflareDnsRecordKind::A, "example.com", "203.0.113.5");
    existing.comment = Some("keep me".to_string());
    existing.proxied = true;
    existing.ttl = 120;
    let records = vec![
        record("other", CloudflareDnsRecordKind::A, "other.example.com", "203.0.113.5"),
        existing,
    ];
    let plan = plan_reconciliation(
        &records,
        "example.com",
        CloudflareDnsRecordKind::A,
        "198.51.100.9",
    );
    match plan {
        RecordPlan::Update { record_id, record } => {
            assert_eq!(record_id, "r1");
            assert_eq!(record.id, "r1");
            assert_eq!(record.kind, CloudflareDnsRecordKind::A);
            assert_eq!(record.name, "example.com");
            assert_eq!(record.content, "198.51.100.9");
            assert_eq!(record.comment.as_deref(), Some("keep me"));
            assert!(record.proxied);
            assert_eq!(record.ttl, 120);
        }
        _ => panic!("expected an update"),
    }
}

#[test]
fn absent_record_is_created_with_defaults() {
    let records = vec![record("r1", CloudflareDnsRecordKind::A, "example.com", "203.0.113.5")];
    let plan = plan_reconciliation(
        &records,
        "example.com",
        CloudflareDnsRecordKind::AAAA,
        "0:0:0:0:0:0:0:1",
    );
    match plan {
        RecordPlan::Create { record } => {
            assert_eq!(record.id, "");
            assert_eq!(record.kind, CloudflareDnsRecordKind::AAAA);
            assert_eq!(record.name, "example.com");
            assert_eq!(record.content, "0:0:0:0:0:0:0:1");
            assert_eq!(record.comment, None);
            assert!(!record.proxied);
            assert_eq!(record.ttl, 3600);
        }
        _ => panic!("expected a creation"),
    }
}

#[test]
fn reconciliation_keys_on_name_and_kind() {
    let records = vec![record("r1", CloudflareDnsRecordKind::AAAA, "example.com", "x")];
    let plan = plan_reconciliation(
        &records,
        "example.com",
        CloudflareDnsRecordKind::A,
        "203.0.113.5",
    );
    assert!(matches!(plan, RecordPlan::Create { .. }));
}

#[test]
fn single_zone_is_selected() {
    let z = select_single_zone(vec![zone("z1", "example.com")]).unwrap();
    assert_eq!(z.id, "z1");
    assert_eq!(z.name, "example.com");
}

#[test]
fn zero_zones_is_a_configuration_error() {
    assert_eq!(select_single_zone(vec![]).unwrap_err(), ZoneSelectError::NoZones);
}

#[test]
fn two_zones_is_a_configuration_error() {
    let zones = vec![zone("z1", "one.example"), zone("z2", "two.example")];
    assert_eq!(
        select_single_zone(zones).unwrap_err(),
        ZoneSelectError::MultipleZones
    );
}
