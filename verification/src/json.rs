//! Decoding provider JSON payloads into the data model, and framing the
//! JSON bodies this library sends.
//!
//! Parsing goes through one trusted call that hands back a tree of plain
//! values; its result is a named function of the body text alone
//! (`json_parsing`). Everything after that call — the envelope decision
//! table, the error-chain reading, the payload decodings — is verified
//! against specification-level decode functions over that tree, so each
//! public decoder's result is pinned to its input text.
use vstd::prelude::*;
use vstd::string::StrSliceExecFns;
use vstd::string::StringExecFns;

use crate::envelope::CloudflareResponse;
use crate::envelope::CloudflareResponseError;
use crate::models::CloudflareDnsRecord;
use crate::models::CloudflareDnsRecordKind;
use crate::models::CloudflareUserToken;
use crate::models::CloudflareUserTokenStatus;
use crate::models::CloudflareZone;
use crate::models::CloudflareZoneAccount;
use crate::models::DEFAULT_RECORD_TTL;
use crate::strutil::spec_u32_string;
use crate::strutil::str_eq;
use crate::strutil::u32_to_string;

verus! {

/// A parsed JSON document as plain values. Numbers that the provider
/// protocol never uses (negative, fractional, or beyond 64 bits) are
/// kept only as a marker, which every decoder treats as a shape
/// mismatch.
#[derive(Debug)]
pub enum JsonTree {
    Null,
    Bool(bool),
    UInt(u64),
    OtherNumber,
    Str(String),
    Arr(Vec<JsonTree>),
    Obj(Vec<(String, JsonTree)>),
}

#[verifier::external_type_specification]
#[verifier::external_body]
pub struct ExJsonValue(serde_json::Value);

/// What parsing a JSON text yields: the tree of plain values, or `None`
/// when the text is not JSON. The result depends on the text alone.
pub uninterp spec fn json_parsing(s: Seq<char>) -> Option<JsonTree>;

/// Part of the `parse_json_tree` trusted item: rebuilds the parser's
/// value as a tree of plain values, variant for variant. Object members
/// keep the parser's order (one entry per key, last wins, sorted by the
/// underlying map).
#[verifier::external_body]
fn json_tree_of(v: &serde_json::Value) -> JsonTree {
    match v {
        serde_json::Value::Null => JsonTree::Null,
        serde_json::Value::Bool(b) => JsonTree::Bool(*b),
        serde_json::Value::Number(n) => match n.as_u64() {
            Some(u) => JsonTree::UInt(u),
            None => JsonTree::OtherNumber,
        },
        serde_json::Value::String(s) => JsonTree::Str(s.clone()),
        serde_json::Value::Array(items) => JsonTree::Arr(items.iter().map(json_tree_of).collect()),
        serde_json::Value::Object(map) => JsonTree::Obj(
            map.iter().map(|(k, x)| (k.clone(), json_tree_of(x))).collect(),
        ),
    }
}

/// Relies on serde_json's `from_str::<Value>`: parses a JSON text, or
/// reports the parser's message (about which nothing is claimed). The
/// parse result is a function of the text alone.
#[verifier::external_body]
fn parse_json_tree(s: &str) -> (r: Result<JsonTree, String>)
    ensures
        r is Ok <==> json_parsing(s@) is Some,
        r matches Ok(t) ==> json_parsing(s@) == Some(t),
{
    serde_json::from_str::<serde_json::Value>(s).map(|v| json_tree_of(&v)).map_err(|e| {
        e.to_string()
    })
}

/// The member of an object under `key`: first match by name (the parser
/// yields one entry per key).
pub open spec fn spec_obj_get(fields: Seq<(String, JsonTree)>, key: Seq<char>) -> Option<JsonTree>
    decreases fields.len(),
{
    if fields.len() == 0 {
        None
    } else if fields[0].0@ == key {
        Some(fields[0].1)
    } else {
        spec_obj_get(fields.drop_first(), key)
    }
}

proof fn lemma_obj_get_found(fields: Seq<(String, JsonTree)>, key: Seq<char>, i: int)
    requires
        0 <= i < fields.len(),
        fields[i].0@ == key,
        forall|k: int| 0 <= k < i ==> #[trigger] fields[k].0@ != key,
    ensures
        spec_obj_get(fields, key) == Some(fields[i].1),
    decreases i,
{
    if i > 0 {
        let t = fields.drop_first();
        assert(forall|k: int| 0 <= k < t.len() ==> t[k] == fields[k + 1]);
        lemma_obj_get_found(t, key, i - 1);
    }
}

proof fn lemma_obj_get_none(fields: Seq<(String, JsonTree)>, key: Seq<char>)
    requires
        forall|k: int| 0 <= k < fields.len() ==> #[trigger] fields[k].0@ != key,
    ensures
        spec_obj_get(fields, key) is None,
    decreases fields.len(),
{
    if fields.len() > 0 {
        let t = fields.drop_first();
        assert(forall|k: int| 0 <= k < t.len() ==> t[k] == fields[k + 1]);
        lemma_obj_get_none(t, key);
    }
}

/// Looks a member up by name.
fn obj_get<'a>(fields: &'a Vec<(String, JsonTree)>, key: &str) -> (r: Option<&'a JsonTree>)
    ensures
        match r {
            Some(t) => spec_obj_get(fields@, key@) == Some(*t),
            None => spec_obj_get(fields@, key@) is None,
        },
{
    let mut i: usize = 0;
    while i < fields.len()
        invariant
            i <= fields@.len(),
            forall|k: int| 0 <= k < i ==> #[trigger] fields@[k].0@ != key@,
        decreases fields@.len() - i,
    {
        if str_eq(fields[i].0.as_str(), key) {
            proof {
                lemma_obj_get_found(fields@, key@, i as int);
            }
            return Some(&fields[i].1);
        }
        i = i + 1;
    }
    proof {
        lemma_obj_get_none(fields@, key@);
    }
    None
}

/// The credential status a status word denotes.
pub open spec fn spec_token_status_of(s: Seq<char>) -> Option<CloudflareUserTokenStatus> {
    if s == "active"@ {
        Some(CloudflareUserTokenStatus::Active)
    } else if s == "disabled"@ {
        Some(CloudflareUserTokenStatus::Disabled)
    } else if s == "expired"@ {
        Some(CloudflareUserTokenStatus::Expired)
    } else {
        None
    }
}

/// Reads a credential status word.
pub fn token_status_of(s: &str) -> (r: Option<CloudflareUserTokenStatus>)
    ensures
        r == spec_token_status_of(s@),
{
    if str_eq(s, "active") {
        Some(CloudflareUserTokenStatus::Active)
    } else if str_eq(s, "disabled") {
        Some(CloudflareUserTokenStatus::Disabled)
    } else if str_eq(s, "expired") {
        Some(CloudflareUserTokenStatus::Expired)
    } else {
        None
    }
}

/// The wire name of a record kind.
pub open spec fn spec_record_kind_text(k: CloudflareDnsRecordKind) -> Seq<char> {
    match k {
        CloudflareDnsRecordKind::A => "A"@,
        CloudflareDnsRecordKind::AAAA => "AAAA"@,
        CloudflareDnsRecordKind::CAA => "CAA"@,
        CloudflareDnsRecordKind::CERT => "CERT"@,
        CloudflareDnsRecordKind::CNAME => "CNAME"@,
        CloudflareDnsRecordKind::DNSKEY => "DNSKEY"@,
        CloudflareDnsRecordKind::DS => "DS"@,
        CloudflareDnsRecordKind::HTTPS => "HTTPS"@,
        CloudflareDnsRecordKind::LOC => "LOC"@,
        CloudflareDnsRecordKind::MX => "MX"@,
        CloudflareDnsRecordKind::NAPTR => "NAPTR"@,
        CloudflareDnsRecordKind::NS => "NS"@,
        CloudflareDnsRecordKind::OPENPGPKEY => "OPENPGPKEY"@,
        CloudflareDnsRecordKind::PTR => "PTR"@,
        CloudflareDnsRecordKind::SMIMEA => "SMIMEA"@,
        CloudflareDnsRecordKind::SRV => "SRV"@,
        CloudflareDnsRecordKind::SSHFP => "SSHFP"@,
        CloudflareDnsRecordKind::SVCB => "SVCB"@,
        CloudflareDnsRecordKind::TLSA => "TLSA"@,
        CloudflareDnsRecordKind::TXT => "TXT"@,
        CloudflareDnsRecordKind::URI => "URI"@,
    }
}

/// Writes a record kind's wire name.
pub fn record_kind_text(k: CloudflareDnsRecordKind) -> (r: &'static str)
    ensures
        r@ == spec_record_kind_text(k),
{
    match k {
        CloudflareDnsRecordKind::A => "A",
        CloudflareDnsRecordKind::AAAA => "AAAA",
        CloudflareDnsRecordKind::CAA => "CAA",
        CloudflareDnsRecordKind::CERT => "CERT",
        CloudflareDnsRecordKind::CNAME => "CNAME",
        CloudflareDnsRecordKind::DNSKEY => "DNSKEY",
        CloudflareDnsRecordKind::DS => "DS",
        CloudflareDnsRecordKind::HTTPS => "HTTPS",
        CloudflareDnsRecordKind::LOC => "LOC",
        CloudflareDnsRecordKind::MX => "MX",
        CloudflareDnsRecordKind::NAPTR => "NAPTR",
        CloudflareDnsRecordKind::NS => "NS",
        CloudflareDnsRecordKind::OPENPGPKEY => "OPENPGPKEY",
        CloudflareDnsRecordKind::PTR => "PTR",
        CloudflareDnsRecordKind::SMIMEA => "SMIMEA",
        CloudflareDnsRecordKind::SRV => "SRV",
        CloudflareDnsRecordKind::SSHFP => "SSHFP",
        CloudflareDnsRecordKind::SVCB => "SVCB",
        CloudflareDnsRecordKind::TLSA => "TLSA",
        CloudflareDnsRecordKind::TXT => "TXT",
        CloudflareDnsRecordKind::URI => "URI",
    }
}

/// The record kind a wire name denotes.
pub open spec fn spec_record_kind_of_text(s: Seq<char>) -> Option<CloudflareDnsRecordKind> {
    if s == "A"@ {
        Some(CloudflareDnsRecordKind::A)
    } else if s == "AAAA"@ {
        Some(CloudflareDnsRecordKind::AAAA)
    } else if s == "CAA"@ {
        Some(CloudflareDnsRecordKind::CAA)
    } else if s == "CERT"@ {
        Some(CloudflareDnsRecordKind::CERT)
    } else if s == "CNAME"@ {
        Some(CloudflareDnsRecordKind::CNAME)
    } else if s == "DNSKEY"@ {
        Some(CloudflareDnsRecordKind::DNSKEY)
    } else if s == "DS"@ {
        Some(CloudflareDnsRecordKind::DS)
    } else if s == "HTTPS"@ {
        Some(CloudflareDnsRecordKind::HTTPS)
    } else if s == "LOC"@ {
        Some(CloudflareDnsRecordKind::LOC)
    } else if s == "MX"@ {
        Some(CloudflareDnsRecordKind::MX)
    } else if s == "NAPTR"@ {
        Some(CloudflareDnsRecordKind::NAPTR)
    } else if s == "NS"@ {
        Some(CloudflareDnsRecordKind::NS)
    } else if s == "OPENPGPKEY"@ {
        Some(CloudflareDnsRecordKind::OPENPGPKEY)
    } else if s == "PTR"@ {
        Some(CloudflareDnsRecordKind::PTR)
    } else if s == "SMIMEA"@ {
        Some(CloudflareDnsRecordKind::SMIMEA)
    } else if s == "SRV"@ {
        Some(CloudflareDnsRecordKind::SRV)
    } else if s == "SSHFP"@ {
        Some(CloudflareDnsRecordKind::SSHFP)
    } else if s == "SVCB"@ {
        Some(CloudflareDnsRecordKind::SVCB)
    } else if s == "TLSA"@ {
        Some(CloudflareDnsRecordKind::TLSA)
    } else if s == "TXT"@ {
        Some(CloudflareDnsRecordKind::TXT)
    } else if s == "URI"@ {
        Some(CloudflareDnsRecordKind::URI)
    } else {
        None
    }
}

/// Reads a record kind's wire name.
pub fn record_kind_of_text(s: &str) -> (r: Option<CloudflareDnsRecordKind>)
    ensures
        r == spec_record_kind_of_text(s@),
{
    if str_eq(s, "A") {
        Some(CloudflareDnsRecordKind::A)
    } else if str_eq(s, "AAAA") {
        Some(CloudflareDnsRecordKind::AAAA)
    } else if str_eq(s, "CAA") {
        Some(CloudflareDnsRecordKind::CAA)
    } else if str_eq(s, "CERT") {
        Some(CloudflareDnsRecordKind::CERT)
    } else if str_eq(s, "CNAME") {
        Some(CloudflareDnsRecordKind::CNAME)
    } else if str_eq(s, "DNSKEY") {
        Some(CloudflareDnsRecordKind::DNSKEY)
    } else if str_eq(s, "DS") {
        Some(CloudflareDnsRecordKind::DS)
    } else if str_eq(s, "HTTPS") {
        Some(CloudflareDnsRecordKind::HTTPS)
    } else if str_eq(s, "LOC") {
        Some(CloudflareDnsRecordKind::LOC)
    } else if str_eq(s, "MX") {
        Some(CloudflareDnsRecordKind::MX)
    } else if str_eq(s, "NAPTR") {
        Some(CloudflareDnsRecordKind::NAPTR)
    } else if str_eq(s, "NS") {
        Some(CloudflareDnsRecordKind::NS)
    } else if str_eq(s, "OPENPGPKEY") {
        Some(CloudflareDnsRecordKind::OPENPGPKEY)
    } else if str_eq(s, "PTR") {
        Some(CloudflareDnsRecordKind::PTR)
    } else if str_eq(s, "SMIMEA") {
        Some(CloudflareDnsRecordKind::SMIMEA)
    } else if str_eq(s, "SRV") {
        Some(CloudflareDnsRecordKind::SRV)
    } else if str_eq(s, "SSHFP") {
        Some(CloudflareDnsRecordKind::SSHFP)
    } else if str_eq(s, "SVCB") {
        Some(CloudflareDnsRecordKind::SVCB)
    } else if str_eq(s, "TLSA") {
        Some(CloudflareDnsRecordKind::TLSA)
    } else if str_eq(s, "TXT") {
        Some(CloudflareDnsRecordKind::TXT)
    } else if str_eq(s, "URI") {
        Some(CloudflareDnsRecordKind::URI)
    } else {
        None
    }
}

/// How deep a provider error chain may nest before decoding gives up;
/// matches the parser's own recursion limit.
pub const MAX_ERROR_CHAIN_DEPTH: u32 = 128;

/// One provider error as the specification reads it off the tree.
pub struct SpecApiError {
    pub code: u32,
    pub message: Seq<char>,
    pub chain: Seq<SpecApiError>,
}

/// Reads one provider error off the tree: `code` (a 32-bit number),
/// `message`, and an optional `error_chain` nested at most `depth`
/// levels further.
pub open spec fn spec_decode_api_error(t: JsonTree, depth: int) -> Option<SpecApiError>
    decreases depth, 0int, 0int,
{
    match t {
        JsonTree::Obj(fields) => match spec_obj_get(fields@, "code"@) {
            Some(JsonTree::UInt(code)) => {
                if code > 0xffff_ffff {
                    None
                } else {
                    match spec_obj_get(fields@, "message"@) {
                        Some(JsonTree::Str(message)) => {
                            match spec_obj_get(fields@, "error_chain"@) {
                                None => Some(
                                    SpecApiError {
                                        code: code as u32,
                                        message: message@,
                                        chain: Seq::empty(),
                                    },
                                ),
                                Some(JsonTree::Arr(items)) => {
                                    if depth <= 0 {
                                        None
                                    } else {
                                        match spec_decode_error_list(
                                            items@,
                                            items@.len() as int,
                                            depth - 1,
                                        ) {
                                            Some(chain) => Some(
                                                SpecApiError {
                                                    code: code as u32,
                                                    message: message@,
                                                    chain,
                                                },
                                            ),
                                            None => None,
                                        }
                                    }
                                },
                                Some(_) => None,
                            }
                        },
                        _ => None,
                    }
                }
            },
            _ => None,
        },
        _ => None,
    }
}

/// Reads the first `n` entries of an error list off the tree, in order.
pub open spec fn spec_decode_error_list(items: Seq<JsonTree>, n: int, depth: int) -> Option<
    Seq<SpecApiError>,
>
    decreases depth, 1int, n,
{
    if n <= 0 || n > items.len() {
        Some(Seq::empty())
    } else {
        match (spec_decode_error_list(items, n - 1, depth), spec_decode_api_error(
            items[n - 1],
            depth,
        )) {
            (Some(es), Some(e)) => Some(es.push(e)),
            _ => None,
        }
    }
}

/// Whether an error value reports exactly what the specification read:
/// code, message, and the whole chain, in order.
pub open spec fn spec_api_error_matches(s: SpecApiError, e: CloudflareResponseError) -> bool
    decreases e, 0int,
{
    e.code == s.code && e.message@ == s.message && spec_api_errors_match(s.chain, e.error_chain@)
}

/// Whether an error list reports exactly what the specification read.
pub open spec fn spec_api_errors_match(
    ss: Seq<SpecApiError>,
    es: Seq<CloudflareResponseError>,
) -> bool
    decreases es, 1int,
{
    ss.len() == es.len() && forall|k: int|
        0 <= k < es.len() ==> spec_api_error_matches(ss[k], #[trigger] es[k])
}

proof fn lemma_error_list_none(items: Seq<JsonTree>, n: int, depth: int, i: int)
    requires
        0 <= i < n <= items.len(),
        spec_decode_api_error(items[i], depth) is None,
    ensures
        spec_decode_error_list(items, n, depth) is None,
    decreases n,
{
    if i < n - 1 {
        lemma_error_list_none(items, n - 1, depth, i);
    }
}

/// Reads one provider error.
fn decode_api_error(t: &JsonTree, depth: u32) -> (r: Option<CloudflareResponseError>)
    ensures
        ({
            match spec_decode_api_error(*t, depth as int) {
                Some(se) => r matches Some(e) && spec_api_error_matches(se, e),
                None => r is None,
            }
        }),
    decreases depth, 0int,
{
    let fields = match t {
        JsonTree::Obj(fields) => fields,
        _ => {
            return None;
        },
    };
    let code = match obj_get(fields, "code") {
        Some(JsonTree::UInt(code)) => {
            if *code > 0xffff_ffff {
                return None;
            }
            *code as u32
        },
        _ => {
            return None;
        },
    };
    let message = match obj_get(fields, "message") {
        Some(JsonTree::Str(message)) => message.clone(),
        _ => {
            return None;
        },
    };
    let error_chain = match obj_get(fields, "error_chain") {
        None => Vec::new(),
        Some(JsonTree::Arr(items)) => {
            if depth == 0 {
                return None;
            }
            match decode_api_error_list(items, depth - 1) {
                Some(chain) => chain,
                None => {
                    return None;
                },
            }
        },
        Some(_) => {
            return None;
        },
    };
    Some(CloudflareResponseError { code, message, error_chain })
}

/// Reads an error list, in order.
fn decode_api_error_list(items: &Vec<JsonTree>, depth: u32) -> (r: Option<
    Vec<CloudflareResponseError>,
>)
    ensures
        ({
            match spec_decode_error_list(items@, items@.len() as int, depth as int) {
                Some(ses) => r matches Some(es) && spec_api_errors_match(ses, es@),
                None => r is None,
            }
        }),
    decreases depth, 1int,
{
    let mut out: Vec<CloudflareResponseError> = Vec::new();
    let mut i: usize = 0;
    while i < items.len()
        invariant
            i <= items@.len(),
            spec_decode_error_list(items@, i as int, depth as int) matches Some(ses)
                && spec_api_errors_match(ses, out@),
        decreases items@.len() - i,
    {
        match decode_api_error(&items[i], depth) {
            Some(e) => {
                proof {
                    let ses = spec_decode_error_list(items@, i as int, depth as int)->Some_0;
                    let se = spec_decode_api_error(items@[i as int], depth as int)->Some_0;
                    assert(spec_decode_error_list(items@, i + 1, depth as int) == Some(
                        ses.push(se),
                    ));
                    assert forall|k: int| 0 <= k < out@.push(e).len() implies
                        spec_api_error_matches(ses.push(se)[k], #[trigger] out@.push(e)[k]) by {
                        if k < out@.len() {
                            assert(out@.push(e)[k] == out@[k]);
                            assert(ses.push(se)[k] == ses[k]);
                        }
                    }
                }
                out.push(e);
            },
            None => {
                proof {
                    lemma_error_list_none(
                        items@,
                        items@.len() as int,
                        depth as int,
                        i as int,
                    );
                }
                return None;
            },
        }
        i = i + 1;
    }
    Some(out)
}

/// The cause written when a member holds the wrong kind of value.
pub open spec fn spec_wrong_type() -> Seq<char> {
    "wrong type"@
}

/// The cause written when a required member is absent.
pub open spec fn spec_missing_member() -> Seq<char> {
    "missing member"@
}

/// A payload decode failure: the failing member's path (relative to the
/// value decoded) and the underlying cause.
pub struct SpecPathError {
    pub path: Seq<char>,
    pub cause: Seq<char>,
}

/// A credential-verification payload as the specification reads it: an
/// object with a `status` word. A failure names the first member (in
/// the order `status`) that does not decode.
pub open spec fn spec_decode_token(t: JsonTree) -> Result<
    CloudflareUserTokenStatus,
    SpecPathError,
> {
    match t {
        JsonTree::Obj(fields) => match spec_obj_get(fields@, "status"@) {
            Some(JsonTree::Str(s)) => match spec_token_status_of(s@) {
                Some(st) => Ok(st),
                None => Err(
                    SpecPathError {
                        path: ".status"@,
                        cause: "unrecognized status word"@,
                    },
                ),
            },
            Some(_) => Err(SpecPathError { path: ".status"@, cause: spec_wrong_type() }),
            None => Err(SpecPathError { path: ".status"@, cause: spec_missing_member() }),
        },
        _ => Err(SpecPathError { path: Seq::empty(), cause: spec_wrong_type() }),
    }
}

/// Whether an exec path/cause pair reports exactly a spec failure.
pub open spec fn spec_path_error_matches(s: SpecPathError, e: (String, String)) -> bool {
    e.0@ == s.path && e.1@ == s.cause
}

/// Reads a credential-verification payload; a failure carries the
/// failing member's relative path and cause.
fn decode_user_token(t: &JsonTree) -> (r: Result<CloudflareUserToken, (String, String)>)
    ensures
        ({
            match spec_decode_token(*t) {
                Ok(st) => r matches Ok(tok) && tok.status == st,
                Err(se) => r matches Err(e) && spec_path_error_matches(se, e),
            }
        }),
{
    let fields = match t {
        JsonTree::Obj(fields) => fields,
        _ => {
            return Err((String::new(), "wrong type".to_owned()));
        },
    };
    match obj_get(fields, "status") {
        Some(JsonTree::Str(s)) => match token_status_of(s.as_str()) {
            Some(status) => Ok(CloudflareUserToken { status }),
            None => Err((".status".to_owned(), "unrecognized status word".to_owned())),
        },
        Some(_) => Err((".status".to_owned(), "wrong type".to_owned())),
        None => Err((".status".to_owned(), "missing member".to_owned())),
    }
}

/// A zone as the specification reads it.
pub struct SpecZone {
    pub id: Seq<char>,
    pub name: Seq<char>,
    pub account_id: Seq<char>,
    pub account_name: Seq<char>,
}

/// Reads one zone off the tree: `id`, `name`, and an `account` with its
/// own `id` and `name`. A failure names the first member (in that
/// order) that does not decode.
pub open spec fn spec_decode_zone(t: JsonTree) -> Result<SpecZone, SpecPathError> {
    match t {
        JsonTree::Obj(fields) => match spec_obj_get(fields@, "id"@) {
            Some(JsonTree::Str(id)) => match spec_obj_get(fields@, "name"@) {
                Some(JsonTree::Str(name)) => match spec_obj_get(fields@, "account"@) {
                    Some(JsonTree::Obj(af)) => match spec_obj_get(af@, "id"@) {
                        Some(JsonTree::Str(aid)) => match spec_obj_get(af@, "name"@) {
                            Some(JsonTree::Str(aname)) => Ok(
                                SpecZone {
                                    id: id@,
                                    name: name@,
                                    account_id: aid@,
                                    account_name: aname@,
                                },
                            ),
                            Some(_) => Err(
                                SpecPathError {
                                    path: ".account.name"@,
                                    cause: spec_wrong_type(),
                                },
                            ),
                            None => Err(
                                SpecPathError {
                                    path: ".account.name"@,
                                    cause: spec_missing_member(),
                                },
                            ),
                        },
                        Some(_) => Err(
                            SpecPathError { path: ".account.id"@, cause: spec_wrong_type() },
                        ),
                        None => Err(
                            SpecPathError {
                                path: ".account.id"@,
                                cause: spec_missing_member(),
                            },
                        ),
                    },
                    Some(_) => Err(
                        SpecPathError { path: ".account"@, cause: spec_wrong_type() },
                    ),
                    None => Err(
                        SpecPathError { path: ".account"@, cause: spec_missing_member() },
                    ),
                },
                Some(_) => Err(SpecPathError { path: ".name"@, cause: spec_wrong_type() }),
                None => Err(SpecPathError { path: ".name"@, cause: spec_missing_member() }),
            },
            Some(_) => Err(SpecPathError { path: ".id"@, cause: spec_wrong_type() }),
            None => Err(SpecPathError { path: ".id"@, cause: spec_missing_member() }),
        },
        _ => Err(SpecPathError { path: Seq::empty(), cause: spec_wrong_type() }),
    }
}

/// Whether a zone value reports exactly what the specification read.
pub open spec fn spec_zone_matches(s: SpecZone, z: CloudflareZone) -> bool {
    z.id@ == s.id && z.name@ == s.name && z.account.id@ == s.account_id && z.account.name@
        == s.account_name
}

/// The path of a list element's failure: the element's index, then the
/// failing member's path inside it.
pub open spec fn spec_item_path(i: int, rel: Seq<char>) -> Seq<char> {
    "["@ + spec_u32_string(i as u32) + "]"@ + rel
}

/// Reads the first `n` zones of a listing, in order; a failure names
/// the first element (and the member inside it) that does not decode.
pub open spec fn spec_decode_zone_list(items: Seq<JsonTree>, n: int) -> Result<
    Seq<SpecZone>,
    SpecPathError,
>
    decreases n,
{
    if n <= 0 || n > items.len() {
        Ok(Seq::empty())
    } else {
        match spec_decode_zone_list(items, n - 1) {
            Err(e) => Err(e),
            Ok(zs) => match spec_decode_zone(items[n - 1]) {
                Ok(z) => Ok(zs.push(z)),
                Err(se) => Err(
                    SpecPathError {
                        path: spec_item_path(n - 1, se.path),
                        cause: se.cause,
                    },
                ),
            },
        }
    }
}

/// Whether a zone list reports exactly what the specification read.
pub open spec fn spec_zones_match(ss: Seq<SpecZone>, zs: Seq<CloudflareZone>) -> bool {
    ss.len() == zs.len() && forall|k: int|
        0 <= k < zs.len() ==> spec_zone_matches(ss[k], #[trigger] zs[k])
}

proof fn lemma_zone_list_first_err(items: Seq<JsonTree>, n: int, i: int)
    requires
        0 <= i < n <= items.len(),
        spec_decode_zone_list(items, i) is Ok,
        spec_decode_zone(items[i]) is Err,
    ensures
        spec_decode_zone_list(items, n) matches Err(e) && e == (SpecPathError {
            path: spec_item_path(i, spec_decode_zone(items[i])->Err_0.path),
            cause: spec_decode_zone(items[i])->Err_0.cause,
        }),
    decreases n,
{
    if i < n - 1 {
        lemma_zone_list_first_err(items, n - 1, i);
    }
}

/// Reads one zone; a failure carries the failing member's relative path
/// and cause.
fn decode_zone(t: &JsonTree) -> (r: Result<CloudflareZone, (String, String)>)
    ensures
        ({
            match spec_decode_zone(*t) {
                Ok(sz) => r matches Ok(z) && spec_zone_matches(sz, z),
                Err(se) => r matches Err(e) && spec_path_error_matches(se, e),
            }
        }),
{
    let fields = match t {
        JsonTree::Obj(fields) => fields,
        _ => {
            return Err((String::new(), "wrong type".to_owned()));
        },
    };
    let id = match obj_get(fields, "id") {
        Some(JsonTree::Str(s)) => s.clone(),
        Some(_) => {
            return Err((".id".to_owned(), "wrong type".to_owned()));
        },
        None => {
            return Err((".id".to_owned(), "missing member".to_owned()));
        },
    };
    let name = match obj_get(fields, "name") {
        Some(JsonTree::Str(s)) => s.clone(),
        Some(_) => {
            return Err((".name".to_owned(), "wrong type".to_owned()));
        },
        None => {
            return Err((".name".to_owned(), "missing member".to_owned()));
        },
    };
    let af = match obj_get(fields, "account") {
        Some(JsonTree::Obj(af)) => af,
        Some(_) => {
            return Err((".account".to_owned(), "wrong type".to_owned()));
        },
        None => {
            return Err((".account".to_owned(), "missing member".to_owned()));
        },
    };
    let aid = match obj_get(af, "id") {
        Some(JsonTree::Str(s)) => s.clone(),
        Some(_) => {
            return Err((".account.id".to_owned(), "wrong type".to_owned()));
        },
        None => {
            return Err((".account.id".to_owned(), "missing member".to_owned()));
        },
    };
    let aname = match obj_get(af, "name") {
        Some(JsonTree::Str(s)) => s.clone(),
        Some(_) => {
            return Err((".account.name".to_owned(), "wrong type".to_owned()));
        },
        None => {
            return Err((".account.name".to_owned(), "missing member".to_owned()));
        },
    };
    Ok(CloudflareZone { id, name, account: CloudflareZoneAccount { id: aid, name: aname } })
}

/// A record as the specification reads it.
pub struct SpecRecord {
    pub id: Seq<char>,
    pub kind: CloudflareDnsRecordKind,
    pub name: Seq<char>,
    pub content: Seq<char>,
    pub comment: Option<Seq<char>>,
    pub proxied: bool,
    pub ttl: u32,
}

/// Reads one record off the tree. An absent member takes the record
/// default; a present member must have the right shape. A failure
/// names the first member (in the order `id`, `type`, `name`,
/// `content`, `comment`, `proxied`, `ttl`) that does not decode.
pub open spec fn spec_decode_record(t: JsonTree) -> Result<SpecRecord, SpecPathError> {
    match t {
        JsonTree::Obj(fields) => {
            let id = match spec_obj_get(fields@, "id"@) {
                None => Ok(Seq::<char>::empty()),
                Some(JsonTree::Str(s)) => Ok(s@),
                Some(_) => Err(SpecPathError { path: ".id"@, cause: spec_wrong_type() }),
            };
            let kind = match spec_obj_get(fields@, "type"@) {
                None => Ok(CloudflareDnsRecordKind::A),
                Some(JsonTree::Str(s)) => match spec_record_kind_of_text(s@) {
                    Some(k) => Ok(k),
                    None => Err(
                        SpecPathError {
                            path: ".type"@,
                            cause: "unrecognized record kind"@,
                        },
                    ),
                },
                Some(_) => Err(SpecPathError { path: ".type"@, cause: spec_wrong_type() }),
            };
            let name = match spec_obj_get(fields@, "name"@) {
                None => Ok(Seq::<char>::empty()),
                Some(JsonTree::Str(s)) => Ok(s@),
                Some(_) => Err(SpecPathError { path: ".name"@, cause: spec_wrong_type() }),
            };
            let content = match spec_obj_get(fields@, "content"@) {
                None => Ok(Seq::<char>::empty()),
                Some(JsonTree::Str(s)) => Ok(s@),
                Some(_) => Err(
                    SpecPathError { path: ".content"@, cause: spec_wrong_type() },
                ),
            };
            let comment = match spec_obj_get(fields@, "comment"@) {
                None => Ok(None),
                Some(JsonTree::Null) => Ok(None),
                Some(JsonTree::Str(s)) => Ok(Some(s@)),
                Some(_) => Err(
                    SpecPathError { path: ".comment"@, cause: spec_wrong_type() },
                ),
            };
            let proxied = match spec_obj_get(fields@, "proxied"@) {
                None => Ok(false),
                Some(JsonTree::Bool(b)) => Ok(b),
                Some(_) => Err(
                    SpecPathError { path: ".proxied"@, cause: spec_wrong_type() },
                ),
            };
            let ttl = match spec_obj_get(fields@, "ttl"@) {
                None => Ok(DEFAULT_RECORD_TTL),
                Some(JsonTree::UInt(n)) => if n <= 0xffff_ffff {
                    Ok(n as u32)
                } else {
                    Err(SpecPathError { path: ".ttl"@, cause: "number out of range"@ })
                },
                Some(_) => Err(SpecPathError { path: ".ttl"@, cause: spec_wrong_type() }),
            };
            match (id, kind, name, content, comment, proxied, ttl) {
                (Ok(id), Ok(kind), Ok(name), Ok(content), Ok(comment), Ok(proxied), Ok(ttl)) =>
                    Ok(SpecRecord { id, kind, name, content, comment, proxied, ttl }),
                (Err(e), _, _, _, _, _, _) => Err(e),
                (_, Err(e), _, _, _, _, _) => Err(e),
                (_, _, Err(e), _, _, _, _) => Err(e),
                (_, _, _, Err(e), _, _, _) => Err(e),
                (_, _, _, _, Err(e), _, _) => Err(e),
                (_, _, _, _, _, Err(e), _) => Err(e),
                (_, _, _, _, _, _, Err(e)) => Err(e),
            }
        },
        _ => Err(SpecPathError { path: Seq::empty(), cause: spec_wrong_type() }),
    }
}

/// Whether a record value reports exactly what the specification read.
pub open spec fn spec_record_matches_decoded(s: SpecRecord, r: CloudflareDnsRecord) -> bool {
    r.id@ == s.id && r.kind == s.kind && r.name@ == s.name && r.content@ == s.content && (match (
        s.comment,
        r.comment,
    ) {
        (Some(sc), Some(rc)) => rc@ == sc,
        (None, None) => true,
        _ => false,
    }) && r.proxied == s.proxied && r.ttl == s.ttl
}

/// Reads the first `n` records of a listing, in order; a failure names
/// the first element (and the member inside it) that does not decode.
pub open spec fn spec_decode_record_list(items: Seq<JsonTree>, n: int) -> Result<
    Seq<SpecRecord>,
    SpecPathError,
>
    decreases n,
{
    if n <= 0 || n > items.len() {
        Ok(Seq::empty())
    } else {
        match spec_decode_record_list(items, n - 1) {
            Err(e) => Err(e),
            Ok(rs) => match spec_decode_record(items[n - 1]) {
                Ok(r) => Ok(rs.push(r)),
                Err(se) => Err(
                    SpecPathError {
                        path: spec_item_path(n - 1, se.path),
                        cause: se.cause,
                    },
                ),
            },
        }
    }
}

/// Whether a record list reports exactly what the specification read.
pub open spec fn spec_records_match(ss: Seq<SpecRecord>, rs: Seq<CloudflareDnsRecord>) -> bool {
    ss.len() == rs.len() && forall|k: int|
        0 <= k < rs.len() ==> spec_record_matches_decoded(ss[k], #[trigger] rs[k])
}

proof fn lemma_record_list_first_err(items: Seq<JsonTree>, n: int, i: int)
    requires
        0 <= i < n <= items.len(),
        spec_decode_record_list(items, i) is Ok,
        spec_decode_record(items[i]) is Err,
    ensures
        spec_decode_record_list(items, n) matches Err(e) && e == (SpecPathError {
            path: spec_item_path(i, spec_decode_record(items[i])->Err_0.path),
            cause: spec_decode_record(items[i])->Err_0.cause,
        }),
    decreases n,
{
    if i < n - 1 {
        lemma_record_list_first_err(items, n - 1, i);
    }
}

/// Reads one record; a failure carries the failing member's relative
/// path and cause.
fn decode_record(t: &JsonTree) -> (r: Result<CloudflareDnsRecord, (String, String)>)
    ensures
        ({
            match spec_decode_record(*t) {
                Ok(sr) => r matches Ok(rec) && spec_record_matches_decoded(sr, rec),
                Err(se) => r matches Err(e) && spec_path_error_matches(se, e),
            }
        }),
{
    let fields = match t {
        JsonTree::Obj(fields) => fields,
        _ => {
            return Err((String::new(), "wrong type".to_owned()));
        },
    };
    let id = match obj_get(fields, "id") {
        None => String::new(),
        Some(JsonTree::Str(s)) => s.clone(),
        Some(_) => {
            return Err((".id".to_owned(), "wrong type".to_owned()));
        },
    };
    let kind = match obj_get(fields, "type") {
        None => CloudflareDnsRecordKind::A,
        Some(JsonTree::Str(s)) => match record_kind_of_text(s.as_str()) {
            Some(k) => k,
            None => {
                return Err((".type".to_owned(), "unrecognized record kind".to_owned()));
            },
        },
        Some(_) => {
            return Err((".type".to_owned(), "wrong type".to_owned()));
        },
    };
    let name = match obj_get(fields, "name") {
        None => String::new(),
        Some(JsonTree::Str(s)) => s.clone(),
        Some(_) => {
            return Err((".name".to_owned(), "wrong type".to_owned()));
        },
    };
    let content = match obj_get(fields, "content") {
        None => String::new(),
        Some(JsonTree::Str(s)) => s.clone(),
        Some(_) => {
            return Err((".content".to_owned(), "wrong type".to_owned()));
        },
    };
    let comment = match obj_get(fields, "comment") {
        None => None,
        Some(JsonTree::Null) => None,
        Some(JsonTree::Str(s)) => Some(s.clone()),
        Some(_) => {
            return Err((".comment".to_owned(), "wrong type".to_owned()));
        },
    };
    let proxied = match obj_get(fields, "proxied") {
        None => false,
        Some(JsonTree::Bool(b)) => *b,
        Some(_) => {
            return Err((".proxied".to_owned(), "wrong type".to_owned()));
        },
    };
    let ttl = match obj_get(fields, "ttl") {
        None => DEFAULT_RECORD_TTL,
        Some(JsonTree::UInt(n)) => {
            if *n > 0xffff_ffff {
                return Err((".ttl".to_owned(), "number out of range".to_owned()));
            }
            *n as u32
        },
        Some(_) => {
            return Err((".ttl".to_owned(), "wrong type".to_owned()));
        },
    };
    Ok(CloudflareDnsRecord { id, kind, name, content, comment, proxied, ttl })
}

/// Why a provider response failed to decode.
#[derive(Debug, Clone, PartialEq, Eq)]
pub enum DecodeError {
    /// The body is not JSON; carries the parser's message.
    InvalidJson(String),
    /// The envelope shape (`success`, `result`, `errors`) does not hold.
    MalformedEnvelope,
    /// The response claims success but carries no result.
    SuccessMissingResult,
    /// The response claims failure but carries no errors.
    FailureMissingErrors,
    /// The result payload does not match the expected shape; carries
    /// the first failing member's path (rooted at `result`) and the
    /// underlying cause.
    BadPayload { path: String, cause: String },
}

impl DecodeError {
    /// The user-facing reason.
    pub open spec fn spec_message(&self) -> Seq<char> {
        match self {
            DecodeError::InvalidJson(reason) => "response contained invalid json: "@ + reason@,
            DecodeError::MalformedEnvelope =>
                "response envelope does not match the expected shape"@,
            DecodeError::SuccessMissingResult =>
                "response was successful, but result is missing"@,
            DecodeError::FailureMissingErrors =>
                "response was failure, but errors are missing"@,
            DecodeError::BadPayload { path, cause } => "failed to deserialize at '"@ + path@
                + "': "@ + cause@,
        }
    }

    /// Writes the user-facing reason out.
    pub fn message(&self) -> (r: String)
        ensures
            r@ == self.spec_message(),
    {
        match self {
            DecodeError::InvalidJson(reason) => {
                let mut s: String = "response contained invalid json: ".to_owned();
                s.append(reason.as_str());
                assert(s@ =~= self.spec_message());
                s
            },
            DecodeError::MalformedEnvelope => {
                "response envelope does not match the expected shape".to_owned()
            },
            DecodeError::SuccessMissingResult => {
                "response was successful, but result is missing".to_owned()
            },
            DecodeError::FailureMissingErrors => {
                "response was failure, but errors are missing".to_owned()
            },
            DecodeError::BadPayload { path, cause } => {
                let mut s: String = "failed to deserialize at '".to_owned();
                s.append(path.as_str());
                s.append("': ");
                s.append(cause.as_str());
                assert(s@ =~= self.spec_message());
                s
            },
        }
    }
}

/// What an envelope's own fields call for.
#[derive(Debug, Clone, Copy, PartialEq, Eq, Structural)]
pub enum EnvelopeShape {
    /// Decode the result payload.
    SuccessWithResult,
    /// A decode error: success without a result.
    SuccessMissingResult,
    /// Surface the reported errors.
    FailureWithErrors,
    /// A decode error: failure without errors.
    FailureMissingErrors,
}

/// The envelope decision table: a success must carry a result, a
/// failure must carry errors.
pub open spec fn spec_classify_envelope(
    success: bool,
    has_result: bool,
    has_errors: bool,
) -> EnvelopeShape {
    if success {
        if has_result {
            EnvelopeShape::SuccessWithResult
        } else {
            EnvelopeShape::SuccessMissingResult
        }
    } else {
        if has_errors {
            EnvelopeShape::FailureWithErrors
        } else {
            EnvelopeShape::FailureMissingErrors
        }
    }
}

/// Decides what an envelope's own fields call for.
pub fn classify_envelope(success: bool, has_result: bool, has_errors: bool) -> (r: EnvelopeShape)
    ensures
        r == spec_classify_envelope(success, has_result, has_errors),
{
    if success {
        if has_result {
            EnvelopeShape::SuccessWithResult
        } else {
            EnvelopeShape::SuccessMissingResult
        }
    } else {
        if has_errors {
            EnvelopeShape::FailureWithErrors
        } else {
            EnvelopeShape::FailureMissingErrors
        }
    }
}

/// The envelope fields as the specification reads them off the tree:
/// the `success` flag, the `result` value (a JSON `null` counts as
/// absent), and the error list (absent means empty); `None` when the
/// shape does not hold.
pub open spec fn spec_envelope_fields(t: JsonTree) -> Option<
    (bool, Option<JsonTree>, Seq<SpecApiError>),
> {
    match t {
        JsonTree::Obj(fields) => match spec_obj_get(fields@, "success"@) {
            Some(JsonTree::Bool(success)) => {
                let result = match spec_obj_get(fields@, "result"@) {
                    Some(JsonTree::Null) => None,
                    Some(rv) => Some(rv),
                    None => None,
                };
                match spec_obj_get(fields@, "errors"@) {
                    None => Some((success, result, Seq::empty())),
                    Some(JsonTree::Arr(items)) => match spec_decode_error_list(
                        items@,
                        items@.len() as int,
                        MAX_ERROR_CHAIN_DEPTH as int,
                    ) {
                        Some(es) => Some((success, result, es)),
                        None => None,
                    },
                    Some(_) => None,
                }
            },
            _ => None,
        },
        _ => None,
    }
}

/// What decoding a response yields, at the specification level: one of
/// the decode errors, a success payload, or the provider's errors.
pub enum SpecDecodeOutcome<S> {
    InvalidJson,
    Malformed,
    SuccessMissingResult,
    FailureMissingErrors,
    /// The payload failed to decode at this path (rooted at `result`),
    /// for this cause.
    BadPayload(SpecPathError),
    Success(S),
    Failure(Seq<SpecApiError>),
}

/// The envelope decision over a parse result, leaving the success
/// payload for the endpoint to decode.
pub open spec fn spec_envelope_outcome(parsed: Option<JsonTree>) -> SpecDecodeOutcome<JsonTree> {
    match parsed {
        None => SpecDecodeOutcome::InvalidJson,
        Some(t) => match spec_envelope_fields(t) {
            None => SpecDecodeOutcome::Malformed,
            Some(f) => {
                if f.0 {
                    match f.1 {
                        Some(rv) => SpecDecodeOutcome::Success(rv),
                        None => SpecDecodeOutcome::SuccessMissingResult,
                    }
                } else {
                    if f.2.len() > 0 {
                        SpecDecodeOutcome::Failure(f.2)
                    } else {
                        SpecDecodeOutcome::FailureMissingErrors
                    }
                }
            },
        },
    }
}

/// Reads the envelope fields of a parsed response.
fn read_envelope<'a>(t: &'a JsonTree) -> (r: Result<
    (bool, Option<&'a JsonTree>, Vec<CloudflareResponseError>),
    DecodeError,
>)
    ensures
        ({
            match spec_envelope_fields(*t) {
                None => r matches Err(e) && e == DecodeError::MalformedEnvelope,
                Some(f) => r matches Ok(g) && g.0 == f.0 && (match f.1 {
                    Some(rv) => g.1 matches Some(x) && *x == rv,
                    None => g.1 is None,
                }) && spec_api_errors_match(f.2, g.2@),
            }
        }),
{
    let fields = match t {
        JsonTree::Obj(fields) => fields,
        _ => {
            return Err(DecodeError::MalformedEnvelope);
        },
    };
    let success = match obj_get(fields, "success") {
        Some(JsonTree::Bool(b)) => *b,
        _ => {
            return Err(DecodeError::MalformedEnvelope);
        },
    };
    let result = match obj_get(fields, "result") {
        Some(JsonTree::Null) => None,
        Some(rv) => Some(rv),
        None => None,
    };
    let errors = match obj_get(fields, "errors") {
        None => Vec::new(),
        Some(JsonTree::Arr(items)) => match decode_api_error_list(items, MAX_ERROR_CHAIN_DEPTH) {
            Some(es) => es,
            None => {
                return Err(DecodeError::MalformedEnvelope);
            },
        },
        Some(_) => {
            return Err(DecodeError::MalformedEnvelope);
        },
    };
    Ok((success, result, errors))
}

/// Roots a payload failure's relative path at `result`.
fn result_path(rel: &str) -> (r: String)
    ensures
        r@ == "result"@ + rel@,
{
    let mut s: String = "result".to_owned();
    s.append(rel);
    assert(s@ =~= "result"@ + rel@);
    s
}

/// Roots a list element's failure at `result[i]`.
fn result_item_path(i: usize, rel: &str) -> (r: String)
    ensures
        r@ == "result"@ + spec_item_path(i as int, rel@),
{
    proof {
        reveal_strlit("result[");
        reveal_strlit("result");
        reveal_strlit("[");
        reveal_strlit("]");
    }
    let mut s: String = "result[".to_owned();
    let idx = u32_to_string(i as u32);
    s.append(idx.as_str());
    s.append("]");
    s.append(rel);
    assert(s@ =~= "result"@ + spec_item_path(i as int, rel@));
    s
}

/// What decoding a credential-verification response yields.
pub open spec fn spec_token_outcome(parsed: Option<JsonTree>) -> SpecDecodeOutcome<
    CloudflareUserTokenStatus,
> {
    match spec_envelope_outcome(parsed) {
        SpecDecodeOutcome::InvalidJson => SpecDecodeOutcome::InvalidJson,
        SpecDecodeOutcome::Malformed => SpecDecodeOutcome::Malformed,
        SpecDecodeOutcome::SuccessMissingResult => SpecDecodeOutcome::SuccessMissingResult,
        SpecDecodeOutcome::FailureMissingErrors => SpecDecodeOutcome::FailureMissingErrors,
        SpecDecodeOutcome::BadPayload(pe) => SpecDecodeOutcome::BadPayload(pe),
        SpecDecodeOutcome::Failure(es) => SpecDecodeOutcome::Failure(es),
        SpecDecodeOutcome::Success(rv) => match spec_decode_token(rv) {
            Ok(st) => SpecDecodeOutcome::Success(st),
            Err(se) => SpecDecodeOutcome::BadPayload(
                SpecPathError { path: "result"@ + se.path, cause: se.cause },
            ),
        },
    }
}

/// Whether a decode result reports exactly the outcome the
/// specification assigns.
pub open spec fn spec_token_result_matches(
    o: SpecDecodeOutcome<CloudflareUserTokenStatus>,
    r: Result<CloudflareResponse<CloudflareUserToken>, DecodeError>,
) -> bool {
    match o {
        SpecDecodeOutcome::InvalidJson => r matches Err(DecodeError::InvalidJson(_)),
        SpecDecodeOutcome::Malformed => r matches Err(e) && e == DecodeError::MalformedEnvelope,
        SpecDecodeOutcome::SuccessMissingResult => r matches Err(e) && e
            == DecodeError::SuccessMissingResult,
        SpecDecodeOutcome::FailureMissingErrors => r matches Err(e) && e
            == DecodeError::FailureMissingErrors,
        SpecDecodeOutcome::BadPayload(pe) => r matches Err(
            DecodeError::BadPayload { path, cause },
        ) && path@ == pe.path && cause@ == pe.cause,
        SpecDecodeOutcome::Success(st) => r matches Ok(CloudflareResponse::Success { result })
            && result.status == st,
        SpecDecodeOutcome::Failure(es) => r matches Ok(CloudflareResponse::Error { errors })
            && spec_api_errors_match(es, errors@),
    }
}

/// Decodes a credential-verification response.
pub fn decode_token_response(body: &str) -> (r: Result<
    CloudflareResponse<CloudflareUserToken>,
    DecodeError,
>)
    ensures
        spec_token_result_matches(spec_token_outcome(json_parsing(body@)), r),
{
    let tree = match parse_json_tree(body) {
        Ok(t) => t,
        Err(reason) => {
            return Err(DecodeError::InvalidJson(reason));
        },
    };
    let (success, result, errors) = match read_envelope(&tree) {
        Ok(f) => f,
        Err(e) => {
            return Err(e);
        },
    };
    match classify_envelope(success, result.is_some(), errors.len() > 0) {
        EnvelopeShape::SuccessWithResult => match result {
            Some(rv) => match decode_user_token(rv) {
                Ok(tok) => Ok(CloudflareResponse::Success { result: tok }),
                Err((rel, cause)) => Err(
                    DecodeError::BadPayload { path: result_path(rel.as_str()), cause },
                ),
            },
            None => {
                proof {
                    assert(false);
                }
                Err(DecodeError::SuccessMissingResult)
            },
        },
        EnvelopeShape::SuccessMissingResult => Err(DecodeError::SuccessMissingResult),
        EnvelopeShape::FailureWithErrors => Ok(CloudflareResponse::Error { errors }),
        EnvelopeShape::FailureMissingErrors => Err(DecodeError::FailureMissingErrors),
    }
}

/// What decoding a zone-listing response yields.
pub open spec fn spec_zones_outcome(parsed: Option<JsonTree>) -> SpecDecodeOutcome<
    Seq<SpecZone>,
> {
    match spec_envelope_outcome(parsed) {
        SpecDecodeOutcome::InvalidJson => SpecDecodeOutcome::InvalidJson,
        SpecDecodeOutcome::Malformed => SpecDecodeOutcome::Malformed,
        SpecDecodeOutcome::SuccessMissingResult => SpecDecodeOutcome::SuccessMissingResult,
        SpecDecodeOutcome::FailureMissingErrors => SpecDecodeOutcome::FailureMissingErrors,
        SpecDecodeOutcome::BadPayload(pe) => SpecDecodeOutcome::BadPayload(pe),
        SpecDecodeOutcome::Failure(es) => SpecDecodeOutcome::Failure(es),
        SpecDecodeOutcome::Success(rv) => match rv {
            JsonTree::Arr(items) => match spec_decode_zone_list(items@, items@.len() as int) {
                Ok(zs) => SpecDecodeOutcome::Success(zs),
                Err(se) => SpecDecodeOutcome::BadPayload(
                    SpecPathError { path: "result"@ + se.path, cause: se.cause },
                ),
            },
            _ => SpecDecodeOutcome::BadPayload(
                SpecPathError { path: "result"@, cause: spec_wrong_type() },
            ),
        },
    }
}

/// Whether a decode result reports exactly the outcome the
/// specification assigns.
pub open spec fn spec_zones_result_matches(
    o: SpecDecodeOutcome<Seq<SpecZone>>,
    r: Result<CloudflareResponse<Vec<CloudflareZone>>, DecodeError>,
) -> bool {
    match o {
        SpecDecodeOutcome::InvalidJson => r matches Err(DecodeError::InvalidJson(_)),
        SpecDecodeOutcome::Malformed => r matches Err(e) && e == DecodeError::MalformedEnvelope,
        SpecDecodeOutcome::SuccessMissingResult => r matches Err(e) && e
            == DecodeError::SuccessMissingResult,
        SpecDecodeOutcome::FailureMissingErrors => r matches Err(e) && e
            == DecodeError::FailureMissingErrors,
        SpecDecodeOutcome::BadPayload(pe) => r matches Err(
            DecodeError::BadPayload { path, cause },
        ) && path@ == pe.path && cause@ == pe.cause,
        SpecDecodeOutcome::Success(zs) => r matches Ok(CloudflareResponse::Success { result })
            && spec_zones_match(zs, result@),
        SpecDecodeOutcome::Failure(es) => r matches Ok(CloudflareResponse::Error { errors })
            && spec_api_errors_match(es, errors@),
    }
}

/// Decodes a zone-listing response.
pub fn decode_zones_response(body: &str) -> (r: Result<
    CloudflareResponse<Vec<CloudflareZone>>,
    DecodeError,
>)
    ensures
        spec_zones_result_matches(spec_zones_outcome(json_parsing(body@)), r),
{
    let tree = match parse_json_tree(body) {
        Ok(t) => t,
        Err(reason) => {
            return Err(DecodeError::InvalidJson(reason));
        },
    };
    let (success, result, errors) = match read_envelope(&tree) {
        Ok(f) => f,
        Err(e) => {
            return Err(e);
        },
    };
    match classify_envelope(success, result.is_some(), errors.len() > 0) {
        EnvelopeShape::SuccessWithResult => match result {
            Some(rv) => match rv {
                JsonTree::Arr(items) => {
                    let mut zones: Vec<CloudflareZone> = Vec::new();
                    let ghost parsed = json_parsing(body@);
                    let mut i: usize = 0;
                    while i < items.len()
                        invariant
                            i <= items@.len(),
                            parsed == json_parsing(body@),
                            spec_decode_zone_list(items@, i as int) matches Ok(zs)
                                && spec_zones_match(zs, zones@),
                            ({
                                match spec_decode_zone_list(items@, items@.len() as int) {
                                    Ok(all) => spec_zones_outcome(parsed)
                                        == SpecDecodeOutcome::Success(all),
                                    Err(se) => spec_zones_outcome(parsed)
                                        == SpecDecodeOutcome::<Seq<SpecZone>>::BadPayload(
                                        SpecPathError {
                                            path: "result"@ + se.path,
                                            cause: se.cause,
                                        },
                                    ),
                                }
                            }),
                        decreases items@.len() - i,
                    {
                        match decode_zone(&items[i]) {
                            Ok(z) => {
                                proof {
                                    let zs = spec_decode_zone_list(items@, i as int)->Ok_0;
                                    let sz = spec_decode_zone(items@[i as int])->Ok_0;
                                    assert(spec_decode_zone_list(items@, i + 1) == Ok::<
                                        Seq<SpecZone>,
                                        SpecPathError,
                                    >(zs.push(sz)));
                                    assert forall|k: int| 0 <= k < zones@.push(z).len() implies
                                        spec_zone_matches(
                                            zs.push(sz)[k],
                                            #[trigger] zones@.push(z)[k],
                                        ) by {
                                        if k < zones@.len() {
                                            assert(zones@.push(z)[k] == zones@[k]);
                                            assert(zs.push(sz)[k] == zs[k]);
                                        }
                                    }
                                }
                                zones.push(z);
                            },
                            Err((rel, cause)) => {
                                proof {
                                    lemma_zone_list_first_err(
                                        items@,
                                        items@.len() as int,
                                        i as int,
                                    );
                                }
                                let path = result_item_path(i, rel.as_str());
                                return Err(DecodeError::BadPayload { path, cause });
                            },
                        }
                        i = i + 1;
                    }
                    Ok(CloudflareResponse::Success { result: zones })
                },
                _ => Err(
                    DecodeError::BadPayload {
                        path: "result".to_owned(),
                        cause: "wrong type".to_owned(),
                    },
                ),
            },
            None => {
                proof {
                    assert(false);
                }
                Err(DecodeError::SuccessMissingResult)
            },
        },
        EnvelopeShape::SuccessMissingResult => Err(DecodeError::SuccessMissingResult),
        EnvelopeShape::FailureWithErrors => Ok(CloudflareResponse::Error { errors }),
        EnvelopeShape::FailureMissingErrors => Err(DecodeError::FailureMissingErrors),
    }
}

/// What decoding a record-listing response yields.
pub open spec fn spec_records_outcome(parsed: Option<JsonTree>) -> SpecDecodeOutcome<
    Seq<SpecRecord>,
> {
    match spec_envelope_outcome(parsed) {
        SpecDecodeOutcome::InvalidJson => SpecDecodeOutcome::InvalidJson,
        SpecDecodeOutcome::Malformed => SpecDecodeOutcome::Malformed,
        SpecDecodeOutcome::SuccessMissingResult => SpecDecodeOutcome::SuccessMissingResult,
        SpecDecodeOutcome::FailureMissingErrors => SpecDecodeOutcome::FailureMissingErrors,
        SpecDecodeOutcome::BadPayload(pe) => SpecDecodeOutcome::BadPayload(pe),
        SpecDecodeOutcome::Failure(es) => SpecDecodeOutcome::Failure(es),
        SpecDecodeOutcome::Success(rv) => match rv {
            JsonTree::Arr(items) => match spec_decode_record_list(
                items@,
                items@.len() as int,
            ) {
                Ok(rs) => SpecDecodeOutcome::Success(rs),
                Err(se) => SpecDecodeOutcome::BadPayload(
                    SpecPathError { path: "result"@ + se.path, cause: se.cause },
                ),
            },
            _ => SpecDecodeOutcome::BadPayload(
                SpecPathError { path: "result"@, cause: spec_wrong_type() },
            ),
        },
    }
}

/// Whether a decode result reports exactly the outcome the
/// specification assigns.
pub open spec fn spec_records_result_matches(
    o: SpecDecodeOutcome<Seq<SpecRecord>>,
    r: Result<CloudflareResponse<Vec<CloudflareDnsRecord>>, DecodeError>,
) -> bool {
    match o {
        SpecDecodeOutcome::InvalidJson => r matches Err(DecodeError::InvalidJson(_)),
        SpecDecodeOutcome::Malformed => r matches Err(e) && e == DecodeError::MalformedEnvelope,
        SpecDecodeOutcome::SuccessMissingResult => r matches Err(e) && e
            == DecodeError::SuccessMissingResult,
        SpecDecodeOutcome::FailureMissingErrors => r matches Err(e) && e
            == DecodeError::FailureMissingErrors,
        SpecDecodeOutcome::BadPayload(pe) => r matches Err(
            DecodeError::BadPayload { path, cause },
        ) && path@ == pe.path && cause@ == pe.cause,
        SpecDecodeOutcome::Success(rs) => r matches Ok(CloudflareResponse::Success { result })
            && spec_records_match(rs, result@),
        SpecDecodeOutcome::Failure(es) => r matches Ok(CloudflareResponse::Error { errors })
            && spec_api_errors_match(es, errors@),
    }
}

/// Decodes a record-listing response.
pub fn decode_records_response(body: &str) -> (r: Result<
    CloudflareResponse<Vec<CloudflareDnsRecord>>,
    DecodeError,
>)
    ensures
        spec_records_result_matches(spec_records_outcome(json_parsing(body@)), r),
{
    let tree = match parse_json_tree(body) {
        Ok(t) => t,
        Err(reason) => {
            return Err(DecodeError::InvalidJson(reason));
        },
    };
    let (success, result, errors) = match read_envelope(&tree) {
        Ok(f) => f,
        Err(e) => {
            return Err(e);
        },
    };
    match classify_envelope(success, result.is_some(), errors.len() > 0) {
        EnvelopeShape::SuccessWithResult => match result {
            Some(rv) => match rv {
                JsonTree::Arr(items) => {
                    let mut records: Vec<CloudflareDnsRecord> = Vec::new();
                    let ghost parsed = json_parsing(body@);
                    let mut i: usize = 0;
                    while i < items.len()
                        invariant
                            i <= items@.len(),
                            parsed == json_parsing(body@),
                            spec_decode_record_list(items@, i as int) matches Ok(rs)
                                && spec_records_match(rs, records@),
                            ({
                                match spec_decode_record_list(items@, items@.len() as int) {
                                    Ok(all) => spec_records_outcome(parsed)
                                        == SpecDecodeOutcome::Success(all),
                                    Err(se) => spec_records_outcome(parsed)
                                        == SpecDecodeOutcome::<Seq<SpecRecord>>::BadPayload(
                                        SpecPathError {
                                            path: "result"@ + se.path,
                                            cause: se.cause,
                                        },
                                    ),
                                }
                            }),
                        decreases items@.len() - i,
                    {
                        match decode_record(&items[i]) {
                            Ok(rec) => {
                                proof {
                                    let rs = spec_decode_record_list(items@, i as int)->Ok_0;
                                    let sr = spec_decode_record(items@[i as int])->Ok_0;
                                    assert(spec_decode_record_list(items@, i + 1) == Ok::<
                                        Seq<SpecRecord>,
                                        SpecPathError,
                                    >(rs.push(sr)));
                                    assert forall|k: int|
                                        0 <= k < records@.push(rec).len() implies
                                        spec_record_matches_decoded(
                                            rs.push(sr)[k],
                                            #[trigger] records@.push(rec)[k],
                                        ) by {
                                        if k < records@.len() {
                                            assert(records@.push(rec)[k] == records@[k]);
                                            assert(rs.push(sr)[k] == rs[k]);
                                        }
                                    }
                                }
                                records.push(rec);
                            },
                            Err((rel, cause)) => {
                                proof {
                                    lemma_record_list_first_err(
                                        items@,
                                        items@.len() as int,
                                        i as int,
                                    );
                                }
                                let path = result_item_path(i, rel.as_str());
                                return Err(DecodeError::BadPayload { path, cause });
                            },
                        }
                        i = i + 1;
                    }
                    Ok(CloudflareResponse::Success { result: records })
                },
                _ => Err(
                    DecodeError::BadPayload {
                        path: "result".to_owned(),
                        cause: "wrong type".to_owned(),
                    },
                ),
            },
            None => {
                proof {
                    assert(false);
                }
                Err(DecodeError::SuccessMissingResult)
            },
        },
        EnvelopeShape::SuccessMissingResult => Err(DecodeError::SuccessMissingResult),
        EnvelopeShape::FailureWithErrors => Ok(CloudflareResponse::Error { errors }),
        EnvelopeShape::FailureMissingErrors => Err(DecodeError::FailureMissingErrors),
    }
}

/// What decoding a single-record response yields.
pub open spec fn spec_record_outcome(parsed: Option<JsonTree>) -> SpecDecodeOutcome<SpecRecord> {
    match spec_envelope_outcome(parsed) {
        SpecDecodeOutcome::InvalidJson => SpecDecodeOutcome::InvalidJson,
        SpecDecodeOutcome::Malformed => SpecDecodeOutcome::Malformed,
        SpecDecodeOutcome::SuccessMissingResult => SpecDecodeOutcome::SuccessMissingResult,
        SpecDecodeOutcome::FailureMissingErrors => SpecDecodeOutcome::FailureMissingErrors,
        SpecDecodeOutcome::BadPayload(pe) => SpecDecodeOutcome::BadPayload(pe),
        SpecDecodeOutcome::Failure(es) => SpecDecodeOutcome::Failure(es),
        SpecDecodeOutcome::Success(rv) => match spec_decode_record(rv) {
            Ok(sr) => SpecDecodeOutcome::Success(sr),
            Err(se) => SpecDecodeOutcome::BadPayload(
                SpecPathError { path: "result"@ + se.path, cause: se.cause },
            ),
        },
    }
}

/// Whether a decode result reports exactly the outcome the
/// specification assigns.
pub open spec fn spec_record_result_matches(
    o: SpecDecodeOutcome<SpecRecord>,
    r: Result<CloudflareResponse<CloudflareDnsRecord>, DecodeError>,
) -> bool {
    match o {
        SpecDecodeOutcome::InvalidJson => r matches Err(DecodeError::InvalidJson(_)),
        SpecDecodeOutcome::Malformed => r matches Err(e) && e == DecodeError::MalformedEnvelope,
        SpecDecodeOutcome::SuccessMissingResult => r matches Err(e) && e
            == DecodeError::SuccessMissingResult,
        SpecDecodeOutcome::FailureMissingErrors => r matches Err(e) && e
            == DecodeError::FailureMissingErrors,
        SpecDecodeOutcome::BadPayload(pe) => r matches Err(
            DecodeError::BadPayload { path, cause },
        ) && path@ == pe.path && cause@ == pe.cause,
        SpecDecodeOutcome::Success(sr) => r matches Ok(CloudflareResponse::Success { result })
            && spec_record_matches_decoded(sr, result),
        SpecDecodeOutcome::Failure(es) => r matches Ok(CloudflareResponse::Error { errors })
            && spec_api_errors_match(es, errors@),
    }
}

/// Decodes a single-record response, as returned by record creation
/// and record update.
pub fn decode_record_response(body: &str) -> (r: Result<
    CloudflareResponse<CloudflareDnsRecord>,
    DecodeError,
>)
    ensures
        spec_record_result_matches(spec_record_outcome(json_parsing(body@)), r),
{
    let tree = match parse_json_tree(body) {
        Ok(t) => t,
        Err(reason) => {
            return Err(DecodeError::InvalidJson(reason));
        },
    };
    let (success, result, errors) = match read_envelope(&tree) {
        Ok(f) => f,
        Err(e) => {
            return Err(e);
        },
    };
    match classify_envelope(success, result.is_some(), errors.len() > 0) {
        EnvelopeShape::SuccessWithResult => match result {
            Some(rv) => match decode_record(rv) {
                Ok(rec) => Ok(CloudflareResponse::Success { result: rec }),
                Err((rel, cause)) => Err(
                    DecodeError::BadPayload { path: result_path(rel.as_str()), cause },
                ),
            },
            None => {
                proof {
                    assert(false);
                }
                Err(DecodeError::SuccessMissingResult)
            },
        },
        EnvelopeShape::SuccessMissingResult => Err(DecodeError::SuccessMissingResult),
        EnvelopeShape::FailureWithErrors => Ok(CloudflareResponse::Error { errors }),
        EnvelopeShape::FailureMissingErrors => Err(DecodeError::FailureMissingErrors),
    }
}

/// How one character is written inside a JSON string: quote and
/// backslash get a backslash escape, control characters a `\u00XX`
/// escape, anything else stands as itself.
pub open spec fn spec_json_escape_char(c: char) -> Seq<char> {
    if c == '"' {
        seq!['\\', '"']
    } else if c == '\\' {
        seq!['\\', '\\']
    } else if (c as u32) < 32 {
        seq!['\\', 'u', '0', '0'] + seq![
            crate::addr::spec_hex_char((c as u8) / 16),
            crate::addr::spec_hex_char((c as u8) % 16),
        ]
    } else {
        seq![c]
    }
}

/// A string's characters as written inside a JSON string literal.
pub open spec fn spec_json_escape(s: Seq<char>) -> Seq<char>
    decreases s.len(),
{
    if s.len() == 0 {
        Seq::empty()
    } else {
        spec_json_escape_char(s[0]) + spec_json_escape(s.drop_first())
    }
}

proof fn lemma_json_escape_snoc(s: Seq<char>, c: char)
    ensures
        spec_json_escape(s.push(c)) == spec_json_escape(s) + spec_json_escape_char(c),
    decreases s.len(),
{
    let t = s.push(c);
    if s.len() == 0 {
        assert(t[0] == c);
        assert(t.drop_first() =~= Seq::<char>::empty());
        assert(spec_json_escape(Seq::<char>::empty()) =~= Seq::<char>::empty());
        assert(spec_json_escape(t) =~= spec_json_escape_char(c));
        assert(spec_json_escape(s) + spec_json_escape_char(c) =~= spec_json_escape_char(c));
    } else {
        assert(t[0] == s[0]);
        assert(t.drop_first() =~= s.drop_first().push(c));
        lemma_json_escape_snoc(s.drop_first(), c);
    }
}

/// Escapes a string for inclusion in a JSON string literal.
pub fn json_escape(s: &str) -> (r: String)
    ensures
        r@ == spec_json_escape(s@),
{
    let n = s.unicode_len();
    let mut out = String::new();
    let mut i: usize = 0;
    while i < n
        invariant
            i <= n,
            n == s@.len(),
            out@ == spec_json_escape(s@.subrange(0, i as int)),
        decreases n - i,
    {
        let c = s.get_char(i);
        if c == '"' {
            out.append("\\\"");
            proof {
                reveal_strlit("\\\"");
            }
        } else if c == '\\' {
            out.append("\\\\");
            proof {
                reveal_strlit("\\\\");
            }
        } else if (c as u32) < 32 {
            out.append("\\u00");
            proof {
                reveal_strlit("\\u00");
            }
            out.append(crate::addr::hex_digit_str((c as u8) / 16));
            out.append(crate::addr::hex_digit_str((c as u8) % 16));
        } else {
            let piece = s.substring_char(i, i + 1);
            out.append(piece);
        }
        proof {
            let prefix = s@.subrange(0, i as int);
            assert(s@.subrange(0, i + 1) =~= prefix.push(s@[i as int]));
            lemma_json_escape_snoc(prefix, s@[i as int]);
            assert(out@ =~= spec_json_escape(s@.subrange(0, i + 1)));
        }
        i = i + 1;
    }
    assert(s@.subrange(0, n as int) =~= s@);
    out
}

/// The JSON body sent to create or update an address record: the
/// record's kind, name, content, comment, proxying flag and
/// time-to-live (the provider-assigned id is never sent).
pub open spec fn spec_record_payload(rec: CloudflareDnsRecord) -> Seq<char> {
    "{\"type\":\""@ + spec_record_kind_text(rec.kind) + "\",\"name\":\""@ + spec_json_escape(
        rec.name@,
    ) + "\",\"content\":\""@ + spec_json_escape(rec.content@) + "\",\"comment\":"@ + (match rec
        .comment {
        Some(c) => seq!['"'] + spec_json_escape(c@) + seq!['"'],
        None => "null"@,
    }) + ",\"proxied\":"@ + (if rec.proxied {
        "true"@
    } else {
        "false"@
    }) + ",\"ttl\":"@ + spec_u32_string(rec.ttl) + "}"@
}

/// Frames the JSON body for a record create or update call.
pub fn record_payload_json(rec: &CloudflareDnsRecord) -> (r: String)
    ensures
        r@ == spec_record_payload(*rec),
{
    let mut out: String = "{\"type\":\"".to_owned();
    out.append(record_kind_text(rec.kind));
    out.append("\",\"name\":\"");
    let name = json_escape(rec.name.as_str());
    out.append(name.as_str());
    out.append("\",\"content\":\"");
    let content = json_escape(rec.content.as_str());
    out.append(content.as_str());
    out.append("\",\"comment\":");
    match &rec.comment {
        Some(c) => {
            out.append("\"");
            let esc = json_escape(c.as_str());
            out.append(esc.as_str());
            out.append("\"");
            proof {
                reveal_strlit("\"");
            }
        },
        None => {
            out.append("null");
        },
    }
    out.append(",\"proxied\":");
    if rec.proxied {
        out.append("true");
    } else {
        out.append("false");
    }
    out.append(",\"ttl\":");
    let ttl = u32_to_string(rec.ttl);
    out.append(ttl.as_str());
    out.append("}");
    assert(out@ =~= spec_record_payload(*rec));
    out
}

} // verus!
