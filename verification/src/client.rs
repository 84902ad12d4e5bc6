//! The compute side of the provider client: credential validation, the
//! endpoint addresses, the authorization header value, and the check on
//! a verified credential's status. The transport that carries these
//! requests lives outside the library.
use vstd::prelude::*;
use vstd::string::StrSliceExecFns;
use vstd::string::StringExecFns;

use crate::models::CloudflareUserToken;
use crate::models::CloudflareUserTokenStatus;
use crate::strutil::spec_trim;
use crate::strutil::trim_str;

verus! {

/// An opaque provider API secret. An empty (or all-whitespace) value is
/// invalid at construction time; the secret is carried, never logged.
pub struct Credential {
    token: String,
}

impl View for Credential {
    type V = Seq<char>;

    closed spec fn view(&self) -> Seq<char> {
        self.token@
    }
}

/// The one way credential construction fails: the secret is empty once
/// trimmed.
#[derive(Debug, Clone, Copy, PartialEq, Eq, Structural)]
pub struct EmptyCredential;

impl Credential {
    /// Validates a raw secret: trims it and rejects an empty remainder.
    pub fn new(token: &str) -> (r: Result<Credential, EmptyCredential>)
        ensures
            r is Ok <==> spec_trim(token@).len() > 0,
            r matches Ok(c) ==> c@ == spec_trim(token@),
    {
        let t = trim_str(token);
        if t.unicode_len() == 0 {
            Err(EmptyCredential)
        } else {
            Ok(Credential { token: t.to_owned() })
        }
    }

    /// The `Authorization` header value for this credential.
    pub fn authorization_value(&self) -> (r: String)
        ensures
            r@ == "Bearer "@ + self@,
    {
        let mut s: String = "Bearer ".to_owned();
        s.append(self.token.as_str());
        assert(s@ =~= "Bearer "@ + self@);
        s
    }
}

/// The endpoint that verifies a credential.
pub fn verify_token_url() -> (r: String)
    ensures
        r@ == "https://api.cloudflare.com/client/v4/user/tokens/verify"@,
{
    "https://api.cloudflare.com/client/v4/user/tokens/verify".to_owned()
}

/// The endpoint that lists the zones a credential is scoped to.
pub fn zones_url() -> (r: String)
    ensures
        r@ == "https://api.cloudflare.com/client/v4/zones"@,
{
    "https://api.cloudflare.com/client/v4/zones".to_owned()
}

/// The endpoint that lists or creates the records of a zone.
pub fn dns_records_url(zone_id: &str) -> (r: String)
    ensures
        r@ == "https://api.cloudflare.com/client/v4/zones/"@ + zone_id@ + "/dns_records"@,
{
    let mut s: String = "https://api.cloudflare.com/client/v4/zones/".to_owned();
    s.append(zone_id);
    s.append("/dns_records");
    assert(s@ =~= "https://api.cloudflare.com/client/v4/zones/"@ + zone_id@ + "/dns_records"@);
    s
}

/// The endpoint that updates one record of a zone.
pub fn dns_record_url(zone_id: &str, record_id: &str) -> (r: String)
    ensures
        r@ == "https://api.cloudflare.com/client/v4/zones/"@ + zone_id@ + "/dns_records/"@
            + record_id@,
{
    let mut s: String = "https://api.cloudflare.com/client/v4/zones/".to_owned();
    s.append(zone_id);
    s.append("/dns_records/");
    s.append(record_id);
    assert(s@ =~= "https://api.cloudflare.com/client/v4/zones/"@ + zone_id@ + "/dns_records/"@
        + record_id@);
    s
}

/// The word a credential status prints as.
pub open spec fn spec_token_status_text(s: CloudflareUserTokenStatus) -> Seq<char> {
    match s {
        CloudflareUserTokenStatus::Active => "Active"@,
        CloudflareUserTokenStatus::Disabled => "Disabled"@,
        CloudflareUserTokenStatus::Expired => "Expired"@,
    }
}

/// Writes a credential status out.
pub fn token_status_text(s: CloudflareUserTokenStatus) -> (r: &'static str)
    ensures
        r@ == spec_token_status_text(s),
{
    match s {
        CloudflareUserTokenStatus::Active => "Active",
        CloudflareUserTokenStatus::Disabled => "Disabled",
        CloudflareUserTokenStatus::Expired => "Expired",
    }
}

/// A verified credential must be active; any other status is a hard
/// failure carrying that status.
pub fn check_token_active(token: &CloudflareUserToken) -> (r: Result<
    (),
    CloudflareUserTokenStatus,
>)
    ensures
        r is Ok <==> token.status == CloudflareUserTokenStatus::Active,
        r matches Err(s) ==> s == token.status,
{
    match token.status {
        CloudflareUserTokenStatus::Active => Ok(()),
        CloudflareUserTokenStatus::Disabled => Err(CloudflareUserTokenStatus::Disabled),
        CloudflareUserTokenStatus::Expired => Err(CloudflareUserTokenStatus::Expired),
    }
}

} // verus!
