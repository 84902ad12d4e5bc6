//! The provider's data model: credential status, zones, and address
//! records.
use vstd::prelude::*;

use crate::addr::IpAddress;

verus! {

/// The lifecycle status of an API credential.
#[derive(Debug, Clone, Copy, PartialEq, Eq, Structural)]
pub enum CloudflareUserTokenStatus {
    Active,
    Disabled,
    Expired,
}

/// The result of verifying an API credential.
#[derive(Debug, Clone, Copy, PartialEq, Eq, Structural)]
pub struct CloudflareUserToken {
    pub status: CloudflareUserTokenStatus,
}

/// The account a zone belongs to.
#[derive(Debug, Clone)]
pub struct CloudflareZoneAccount {
    pub id: String,
    pub name: String,
}

/// A provider-side container of DNS records, scoped to an account.
#[derive(Debug, Clone)]
pub struct CloudflareZone {
    pub id: String,
    pub name: String,
    pub account: CloudflareZoneAccount,
}

/// The kind of a DNS record. Address reconciliation only ever writes
/// `A` and `AAAA`; the remaining kinds are read back from record listings.
#[derive(Debug, Clone, Copy, PartialEq, Eq, Structural)]
pub enum CloudflareDnsRecordKind {
    A,
    AAAA,
    CAA,
    CERT,
    CNAME,
    DNSKEY,
    DS,
    HTTPS,
    LOC,
    MX,
    NAPTR,
    NS,
    OPENPGPKEY,
    PTR,
    SMIMEA,
    SRV,
    SSHFP,
    SVCB,
    TLSA,
    TXT,
    URI,
}

/// The record kind an address family maps to.
pub open spec fn spec_kind_of_ip(ip: IpAddress) -> CloudflareDnsRecordKind {
    if ip is V4 {
        CloudflareDnsRecordKind::A
    } else {
        CloudflareDnsRecordKind::AAAA
    }
}

impl From<IpAddress> for CloudflareDnsRecordKind {
    /// IPv4 becomes an `A` record, IPv6 an `AAAA` record.
    fn from(ip: IpAddress) -> (r: Self) {
        match ip {
            IpAddress::V4(_, _, _, _) => CloudflareDnsRecordKind::A,
            IpAddress::V6(_, _, _, _, _, _, _, _) => CloudflareDnsRecordKind::AAAA,
        }
    }
}

impl vstd::std_specs::convert::FromSpecImpl<IpAddress> for CloudflareDnsRecordKind {
    open spec fn obeys_from_spec() -> bool {
        true
    }

    open spec fn from_spec(ip: IpAddress) -> Self {
        spec_kind_of_ip(ip)
    }
}

impl Default for CloudflareDnsRecordKind {
    fn default() -> (r: Self)
        ensures
            r == CloudflareDnsRecordKind::A,
    {
        CloudflareDnsRecordKind::A
    }
}

/// The time-to-live a new record is created with, in seconds.
pub const DEFAULT_RECORD_TTL: u32 = 3600;

/// An address record: provider-assigned `id` (empty until created), a
/// kind derived from the address family, the record name, and the
/// textual address as `content`.
#[derive(Debug, Clone)]
pub struct CloudflareDnsRecord {
    pub id: String,
    pub kind: CloudflareDnsRecordKind,
    pub name: String,
    pub content: String,
    pub comment: Option<String>,
    pub proxied: bool,
    pub ttl: u32,
}

impl Default for CloudflareDnsRecord {
    fn default() -> (r: Self)
        ensures
            r.id@ == Seq::<char>::empty(),
            r.kind == CloudflareDnsRecordKind::A,
            r.name@ == Seq::<char>::empty(),
            r.content@ == Seq::<char>::empty(),
            r.comment is None,
            r.proxied == false,
            r.ttl == DEFAULT_RECORD_TTL,
    {
        CloudflareDnsRecord {
            id: String::new(),
            kind: CloudflareDnsRecordKind::A,
            name: String::new(),
            content: String::new(),
            comment: None,
            proxied: false,
            ttl: DEFAULT_RECORD_TTL,
        }
    }
}

} // verus!
