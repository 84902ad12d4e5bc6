//! The request-field extraction protocol: a layered, priority-ordered,
//! validating search for a hostname and an address intent over a request's
//! query parameters and headers.
//!
//! Query parameter names match exactly; header names match
//! ASCII-case-insensitively. For each logical field the recognized name
//! variants are tried in a fixed order, query parameters before headers,
//! and the first match decides.
use vstd::prelude::*;
use vstd::string::StrSliceExecFns;
use vstd::string::StringExecFns;

use crate::addr::IpAddress;
use crate::addr::parse_ip_literal;
use crate::addr::spec_parse_ip;
use crate::hostname::Hostname;
use crate::hostname::idna_to_ascii;
use crate::hostname::spec_trim_http_prefix;
use crate::hostname::trim_http_prefix;
use crate::strutil::find_char;
use crate::strutil::lemma_spec_find_none;
use crate::strutil::lemma_spec_find_some;
use crate::strutil::spec_find;
use crate::strutil::spec_lower;
use crate::strutil::spec_trim;
use crate::strutil::str_eq;
use crate::strutil::str_eq_ignore_case;
use crate::strutil::trim_str;

verus! {

/// Where an extracted value came from.
#[derive(Debug, Clone, Copy, PartialEq, Eq, Structural)]
pub enum SourceKind {
    QueryParam,
    Header,
}

/// Whether name `a` matches name `b`, case-insensitively when `ci` holds.
pub open spec fn spec_name_matches(a: Seq<char>, b: Seq<char>, ci: bool) -> bool {
    if ci {
        spec_lower(a) == spec_lower(b)
    } else {
        a == b
    }
}

/// The value of the first pair whose name matches, if any.
pub open spec fn spec_lookup(ps: Seq<(String, String)>, name: Seq<char>, ci: bool) -> Option<
    Seq<char>,
>
    decreases ps.len(),
{
    if ps.len() == 0 {
        None
    } else if spec_name_matches(ps[0].0@, name, ci) {
        Some(ps[0].1@)
    } else {
        spec_lookup(ps.drop_first(), name, ci)
    }
}

proof fn lemma_lookup_found(ps: Seq<(String, String)>, name: Seq<char>, ci: bool, i: int)
    requires
        0 <= i < ps.len(),
        spec_name_matches(ps[i].0@, name, ci),
        forall|k: int| 0 <= k < i ==> !spec_name_matches(ps[k].0@, name, ci),
    ensures
        spec_lookup(ps, name, ci) == Some(ps[i].1@),
    decreases i,
{
    if i > 0 {
        let t = ps.drop_first();
        assert(forall|k: int| 0 <= k < i - 1 ==> t[k] == ps[k + 1]);
        lemma_lookup_found(t, name, ci, i - 1);
    }
}

proof fn lemma_lookup_none(ps: Seq<(String, String)>, name: Seq<char>, ci: bool)
    requires
        forall|k: int| 0 <= k < ps.len() ==> !spec_name_matches(ps[k].0@, name, ci),
    ensures
        spec_lookup(ps, name, ci) is None,
    decreases ps.len(),
{
    if ps.len() > 0 {
        let t = ps.drop_first();
        assert(forall|k: int| 0 <= k < t.len() ==> t[k] == ps[k + 1]);
        lemma_lookup_none(t, name, ci);
    }
}

/// Finds the value of the first pair whose name matches `name`.
fn lookup_value<'a>(ps: &'a Vec<(String, String)>, name: &str, ci: bool) -> (r: Option<
    &'a String,
>)
    ensures
        match r {
            Some(v) => spec_lookup(ps@, name@, ci) == Some(v@),
            None => spec_lookup(ps@, name@, ci) is None,
        },
{
    let mut i: usize = 0;
    while i < ps.len()
        invariant
            i <= ps@.len(),
            forall|k: int| 0 <= k < i ==> !spec_name_matches(ps@[k].0@, name@, ci),
        decreases ps@.len() - i,
    {
        let found = if ci {
            str_eq_ignore_case(ps[i].0.as_str(), name)
        } else {
            str_eq(ps[i].0.as_str(), name)
        };
        if found {
            proof {
                lemma_lookup_found(ps@, name@, ci, i as int);
            }
            return Some(&ps[i].1);
        }
        i = i + 1;
    }
    proof {
        lemma_lookup_none(ps@, name@, ci);
    }
    None
}

/// The first of `names`, in order, that occurs in `ps`, with its value.
pub open spec fn spec_first_match(
    ps: Seq<(String, String)>,
    names: Seq<Seq<char>>,
    ci: bool,
) -> Option<(Seq<char>, Seq<char>)>
    decreases names.len(),
{
    if names.len() == 0 {
        None
    } else {
        match spec_lookup(ps, names[0], ci) {
            Some(v) => Some((names[0], v)),
            None => spec_first_match(ps, names.drop_first(), ci),
        }
    }
}

proof fn lemma_first_match_found(
    ps: Seq<(String, String)>,
    names: Seq<Seq<char>>,
    ci: bool,
    j: int,
)
    requires
        0 <= j < names.len(),
        spec_lookup(ps, names[j], ci) is Some,
        forall|k: int| 0 <= k < j ==> spec_lookup(ps, #[trigger] names[k], ci) is None,
    ensures
        spec_first_match(ps, names, ci) == Some(
            (names[j], spec_lookup(ps, names[j], ci)->Some_0),
        ),
    decreases j,
{
    if j > 0 {
        let t = names.drop_first();
        assert(forall|k: int| 0 <= k < t.len() ==> t[k] == names[k + 1]);
        lemma_first_match_found(ps, t, ci, j - 1);
    }
}

proof fn lemma_first_match_none(ps: Seq<(String, String)>, names: Seq<Seq<char>>, ci: bool)
    requires
        forall|k: int| 0 <= k < names.len() ==> spec_lookup(ps, #[trigger] names[k], ci) is None,
    ensures
        spec_first_match(ps, names, ci) is None,
    decreases names.len(),
{
    if names.len() > 0 {
        let t = names.drop_first();
        assert(forall|k: int| 0 <= k < t.len() ==> t[k] == names[k + 1]);
        lemma_first_match_none(ps, t, ci);
    }
}

/// Tries each of `names` in order and returns the first present value.
fn first_match<'a>(ps: &'a Vec<(String, String)>, names: &Vec<&'static str>, ci: bool) -> (r:
    Option<(&'static str, &'a String)>)
    ensures
        ({
            let nv = names@.map_values(|t: &str| t@);
            match r {
                Some((n, v)) => spec_first_match(ps@, nv, ci) == Some((n@, v@)),
                None => spec_first_match(ps@, nv, ci) is None,
            }
        }),
{
    let ghost nv = names@.map_values(|t: &str| t@);
    let mut j: usize = 0;
    while j < names.len()
        invariant
            j <= names@.len(),
            nv == names@.map_values(|t: &str| t@),
            forall|k: int| 0 <= k < j ==> spec_lookup(ps@, #[trigger] nv[k], ci) is None,
        decreases names@.len() - j,
    {
        match lookup_value(ps, names[j], ci) {
            Some(v) => {
                proof {
                    lemma_first_match_found(ps@, nv, ci, j as int);
                }
                return Some((names[j], v));
            },
            None => {},
        }
        j = j + 1;
    }
    proof {
        lemma_first_match_none(ps@, nv, ci);
    }
    None
}

/// The recognized query parameter names for the hostname, in priority order.
pub open spec fn spec_hostname_query_names() -> Seq<Seq<char>> {
    seq![
        "hostname"@,
        "Hostname"@,
        "targethostname"@,
        "target-hostname"@,
        "target_hostname"@,
        "targetHostname"@,
        "TargetHostname"@,
    ]
}

fn hostname_query_names() -> (r: Vec<&'static str>)
    ensures
        r@.map_values(|t: &str| t@) == spec_hostname_query_names(),
{
    let v: Vec<&'static str> = vec![
        "hostname",
        "Hostname",
        "targethostname",
        "target-hostname",
        "target_hostname",
        "targetHostname",
        "TargetHostname",
    ];
    proof {
        assert(v@.map_values(|t: &str| t@) =~= spec_hostname_query_names());
    }
    v
}

/// The recognized header names for the hostname, in priority order.
pub open spec fn spec_hostname_header_names() -> Seq<Seq<char>> {
    seq!["x-hostname"@, "x-targethostname"@, "x-target-hostname"@]
}

fn hostname_header_names() -> (r: Vec<&'static str>)
    ensures
        r@.map_values(|t: &str| t@) == spec_hostname_header_names(),
{
    let v: Vec<&'static str> = vec!["x-hostname", "x-targethostname", "x-target-hostname"];
    proof {
        assert(v@.map_values(|t: &str| t@) =~= spec_hostname_header_names());
    }
    v
}

/// The recognized query parameter names for the address intent, in
/// priority order.
pub open spec fn spec_ip_query_names() -> Seq<Seq<char>> {
    seq![
        "ip"@,
        "Ip"@,
        "myip"@,
        "my_ip"@,
        "myIp"@,
        "MyIp"@,
        "targetip"@,
        "target-ip"@,
        "target_ip"@,
        "targetIp"@,
        "TargetIp"@,
    ]
}

fn ip_query_names() -> (r: Vec<&'static str>)
    ensures
        r@.map_values(|t: &str| t@) == spec_ip_query_names(),
{
    let v: Vec<&'static str> = vec![
        "ip",
        "Ip",
        "myip",
        "my_ip",
        "myIp",
        "MyIp",
        "targetip",
        "target-ip",
        "target_ip",
        "targetIp",
        "TargetIp",
    ];
    proof {
        assert(v@.map_values(|t: &str| t@) =~= spec_ip_query_names());
    }
    v
}

/// The recognized header names for the address intent, in priority order.
pub open spec fn spec_ip_header_names() -> Seq<Seq<char>> {
    seq!["x-ip"@, "x-myip"@, "x-my-ip"@, "x-targetip"@, "x-target-ip"@]
}

fn ip_header_names() -> (r: Vec<&'static str>)
    ensures
        r@.map_values(|t: &str| t@) == spec_ip_header_names(),
{
    let v: Vec<&'static str> = vec!["x-ip", "x-myip", "x-my-ip", "x-targetip", "x-target-ip"];
    proof {
        assert(v@.map_values(|t: &str| t@) =~= spec_ip_header_names());
    }
    v
}

/// What extracting the hostname yields, at the specification level.
pub enum HostnameOutcome {
    /// A valid name: its source and the encoded hostname.
    Valid(SourceKind, Seq<char>, Seq<char>),
    /// The cleaned value was empty.
    Empty(SourceKind, Seq<char>),
    /// The value failed ASCII-compatible encoding.
    Invalid(SourceKind, Seq<char>),
    /// No recognized parameter or header was present.
    NotFound,
}

/// The outcome of interpreting one found hostname value.
pub open spec fn spec_hostname_value_outcome(
    kind: SourceKind,
    name: Seq<char>,
    v: Seq<char>,
) -> HostnameOutcome {
    let t = spec_trim_http_prefix(v);
    if t.len() == 0 {
        HostnameOutcome::Empty(kind, name)
    } else {
        match idna_to_ascii(t) {
            Some(h) => HostnameOutcome::Valid(kind, name, h),
            None => HostnameOutcome::Invalid(kind, name),
        }
    }
}

/// The outcome of the layered hostname search: query parameters first,
/// then headers, first recognized name wins.
pub open spec fn spec_extract_hostname(
    ps: Seq<(String, String)>,
    hs: Seq<(String, String)>,
) -> HostnameOutcome {
    match spec_first_match(ps, spec_hostname_query_names(), false) {
        Some((name, v)) => spec_hostname_value_outcome(SourceKind::QueryParam, name, v),
        None => match spec_first_match(hs, spec_hostname_header_names(), true) {
            Some((name, v)) => spec_hostname_value_outcome(SourceKind::Header, name, v),
            None => HostnameOutcome::NotFound,
        },
    }
}

/// A hostname extraction failure; every variant maps to a 400 status.
#[derive(Debug, Clone, PartialEq, Eq)]
pub enum HostnameError {
    NotFound,
    Empty { kind: SourceKind, name: String },
    Invalid { kind: SourceKind, name: String, reason: String },
}

/// Whether an extraction result reports exactly the outcome the
/// specification assigns.
pub open spec fn spec_hostname_result_matches(
    o: HostnameOutcome,
    r: Result<Hostname, HostnameError>,
) -> bool {
    match o {
        HostnameOutcome::Valid(k, n, h) => r matches Ok(hh) && hh@ == h,
        HostnameOutcome::Empty(k, n) => r matches Err(HostnameError::Empty { kind, name })
            && kind == k && name@ == n,
        HostnameOutcome::Invalid(k, n) => r matches Err(
            HostnameError::Invalid { kind, name, reason: _ },
        ) && kind == k && name@ == n,
        HostnameOutcome::NotFound => r matches Err(HostnameError::NotFound),
    }
}

/// Interprets one found hostname value from source `kind`/`name`.
fn parse_hostname_value(kind: SourceKind, name: &'static str, value: &str) -> (r: Result<
    Hostname,
    HostnameError,
>)
    ensures
        spec_hostname_result_matches(spec_hostname_value_outcome(kind, name@, value@), r),
{
    let stripped = trim_http_prefix(value);
    if stripped.unicode_len() == 0 {
        Err(HostnameError::Empty { kind, name: name.to_owned() })
    } else {
        match Hostname::from_stripped(stripped) {
            Ok(h) => Ok(h),
            Err(reason) => Err(HostnameError::Invalid { kind, name: name.to_owned(), reason }),
        }
    }
}

/// Extracts and validates the target hostname from a request's query
/// parameters and headers.
pub fn extract_hostname(params: &Vec<(String, String)>, headers: &Vec<(String, String)>) -> (r:
    Result<Hostname, HostnameError>)
    ensures
        spec_hostname_result_matches(spec_extract_hostname(params@, headers@), r),
{
    let qnames = hostname_query_names();
    match first_match(params, &qnames, false) {
        Some((name, value)) => parse_hostname_value(SourceKind::QueryParam, name, value.as_str()),
        None => {
            let hnames = hostname_header_names();
            match first_match(headers, &hnames, true) {
                Some((name, value)) => parse_hostname_value(
                    SourceKind::Header,
                    name,
                    value.as_str(),
                ),
                None => Err(HostnameError::NotFound),
            }
        },
    }
}

/// An address intent: an explicit address, one resolved from well-known
/// client-address headers, or a deferred external lookup.
#[derive(Debug, Clone, Copy, PartialEq, Eq, Structural)]
pub enum IpVariant {
    /// An address directly provided in a query parameter or header.
    Ip(IpAddress),
    /// An address taken from a client-address header (`auto` was passed).
    Auto(IpAddress),
    /// An address to be resolved through an external lookup service
    /// (`fetch` was passed).
    Fetch,
}

/// How one textual address literal reads, after trimming.
pub enum IpParse {
    Addr(IpAddress),
    Empty,
    Invalid,
}

/// The reading of one address literal: trimmed, then parsed.
pub open spec fn spec_ip_literal_outcome(raw: Seq<char>) -> IpParse {
    let t = spec_trim(raw);
    if t.len() == 0 {
        IpParse::Empty
    } else {
        match spec_parse_ip(t) {
            Some(ip) => IpParse::Addr(ip),
            None => IpParse::Invalid,
        }
    }
}

/// What extracting the address intent yields, at the specification level.
pub enum IpOutcome {
    /// An explicit literal: its source and the address.
    Direct(SourceKind, Seq<char>, IpAddress),
    /// `auto`: the client-address header used and the address found there.
    Auto(Seq<char>, IpAddress),
    /// `fetch`.
    Fetch,
    /// `auto` was passed but no client-address header was present; the
    /// source that said `auto` is reported.
    AutoMissing(SourceKind, Seq<char>),
    /// The literal (from the given source) was empty after trimming.
    Empty(SourceKind, Seq<char>),
    /// The literal (from the given source) did not parse as an address.
    Invalid(SourceKind, Seq<char>),
    /// No recognized parameter or header was present.
    NotFound,
}

/// The client-address header consulted first for `auto`.
pub open spec fn spec_trusted_proxy_header() -> Seq<char> {
    "cf-connecting-ip"@
}

/// The client-address header consulted second for `auto`.
pub open spec fn spec_real_client_header() -> Seq<char> {
    "x-real-ip"@
}

/// The forwarded-for header consulted last for `auto`; only its first
/// comma-separated token counts.
pub open spec fn spec_forwarded_header() -> Seq<char> {
    "x-forwarded-for"@
}

/// The first comma-separated token of a forwarded-for value.
pub open spec fn spec_first_forwarded_token(v: Seq<char>) -> Seq<char> {
    match spec_find(v, ',') {
        Some(i) => v.subrange(0, i),
        None => v,
    }
}

/// Lifts the reading of a client-address header value into the outcome.
pub open spec fn spec_auto_outcome(hname: Seq<char>, p: IpParse) -> IpOutcome {
    match p {
        IpParse::Addr(ip) => IpOutcome::Auto(hname, ip),
        IpParse::Empty => IpOutcome::Empty(SourceKind::Header, hname),
        IpParse::Invalid => IpOutcome::Invalid(SourceKind::Header, hname),
    }
}

/// Resolution of `auto`: the first present client-address header decides,
/// in the order trusted proxy, real client, forwarded-for.
pub open spec fn spec_resolve_auto(
    kind: SourceKind,
    name: Seq<char>,
    hs: Seq<(String, String)>,
) -> IpOutcome {
    match spec_lookup(hs, spec_trusted_proxy_header(), true) {
        Some(v) => spec_auto_outcome(spec_trusted_proxy_header(), spec_ip_literal_outcome(v)),
        None => match spec_lookup(hs, spec_real_client_header(), true) {
            Some(v) => spec_auto_outcome(spec_real_client_header(), spec_ip_literal_outcome(v)),
            None => match spec_lookup(hs, spec_forwarded_header(), true) {
                Some(v) => spec_auto_outcome(
                    spec_forwarded_header(),
                    spec_ip_literal_outcome(spec_first_forwarded_token(v)),
                ),
                None => IpOutcome::AutoMissing(kind, name),
            },
        },
    }
}

/// The outcome of interpreting one found address-intent value: the
/// literals `fetch` and `auto` (case-insensitively) are special, anything
/// else must be an address literal.
pub open spec fn spec_ip_value_outcome(
    kind: SourceKind,
    name: Seq<char>,
    v: Seq<char>,
    hs: Seq<(String, String)>,
) -> IpOutcome {
    let t = spec_trim(v);
    if spec_lower(t) == spec_lower("fetch"@) {
        IpOutcome::Fetch
    } else if spec_lower(t) == spec_lower("auto"@) {
        spec_resolve_auto(kind, name, hs)
    } else {
        match spec_ip_literal_outcome(t) {
            IpParse::Addr(ip) => IpOutcome::Direct(kind, name, ip),
            IpParse::Empty => IpOutcome::Empty(kind, name),
            IpParse::Invalid => IpOutcome::Invalid(kind, name),
        }
    }
}

/// The outcome of the layered address-intent search.
pub open spec fn spec_extract_ip(
    ps: Seq<(String, String)>,
    hs: Seq<(String, String)>,
) -> IpOutcome {
    match spec_first_match(ps, spec_ip_query_names(), false) {
        Some((name, v)) => spec_ip_value_outcome(SourceKind::QueryParam, name, v, hs),
        None => match spec_first_match(hs, spec_ip_header_names(), true) {
            Some((name, v)) => spec_ip_value_outcome(SourceKind::Header, name, v, hs),
            None => IpOutcome::NotFound,
        },
    }
}

/// An address-intent extraction failure; every variant maps to a 400
/// status.
#[derive(Debug, Clone, PartialEq, Eq)]
pub enum IpError {
    NotFound,
    AutoHeadersMissing { kind: SourceKind, name: String },
    Empty { kind: SourceKind, name: String },
    Invalid { kind: SourceKind, name: String },
}

/// Whether an extraction result reports exactly the outcome the
/// specification assigns.
pub open spec fn spec_ip_result_matches(o: IpOutcome, r: Result<IpVariant, IpError>) -> bool {
    match o {
        IpOutcome::Direct(k, n, ip) => r matches Ok(v) && v == IpVariant::Ip(ip),
        IpOutcome::Auto(n, ip) => r matches Ok(v) && v == IpVariant::Auto(ip),
        IpOutcome::Fetch => r matches Ok(v) && v == IpVariant::Fetch,
        IpOutcome::AutoMissing(k, n) => r matches Err(
            IpError::AutoHeadersMissing { kind, name },
        ) && kind == k && name@ == n,
        IpOutcome::Empty(k, n) => r matches Err(IpError::Empty { kind, name }) && kind == k
            && name@ == n,
        IpOutcome::Invalid(k, n) => r matches Err(IpError::Invalid { kind, name }) && kind == k
            && name@ == n,
        IpOutcome::NotFound => r matches Err(IpError::NotFound),
    }
}

/// Reads one address literal: trims it, then parses it.
fn parse_ip_trimmed(raw: &str) -> (r: IpParse)
    ensures
        r == spec_ip_literal_outcome(raw@),
{
    let t = trim_str(raw);
    if t.unicode_len() == 0 {
        IpParse::Empty
    } else {
        match parse_ip_literal(t) {
            Some(ip) => IpParse::Addr(ip),
            None => IpParse::Invalid,
        }
    }
}

/// Builds the error or variant for a client-address header reading.
fn auto_header_result(hname: &'static str, p: IpParse) -> (r: Result<IpVariant, IpError>)
    ensures
        spec_ip_result_matches(spec_auto_outcome(hname@, p), r),
{
    match p {
        IpParse::Addr(ip) => Ok(IpVariant::Auto(ip)),
        IpParse::Empty => Err(
            IpError::Empty { kind: SourceKind::Header, name: hname.to_owned() },
        ),
        IpParse::Invalid => Err(
            IpError::Invalid { kind: SourceKind::Header, name: hname.to_owned() },
        ),
    }
}

/// Resolves `auto` against the client-address headers.
fn resolve_auto(kind: SourceKind, name: &'static str, headers: &Vec<(String, String)>) -> (r:
    Result<IpVariant, IpError>)
    ensures
        spec_ip_result_matches(spec_resolve_auto(kind, name@, headers@), r),
{
    match lookup_value(headers, "cf-connecting-ip", true) {
        Some(v) => auto_header_result("cf-connecting-ip", parse_ip_trimmed(v.as_str())),
        None => match lookup_value(headers, "x-real-ip", true) {
            Some(v) => auto_header_result("x-real-ip", parse_ip_trimmed(v.as_str())),
            None => match lookup_value(headers, "x-forwarded-for", true) {
                Some(v) => {
                    let s = v.as_str();
                    let token = match find_char(s, ',') {
                        Some(i) => {
                            proof {
                                lemma_spec_find_some(s@, ',', i as int);
                            }
                            s.substring_char(0, i)
                        },
                        None => {
                            proof {
                                lemma_spec_find_none(s@, ',');
                            }
                            s
                        },
                    };
                    assert(token@ == spec_first_forwarded_token(v@));
                    auto_header_result("x-forwarded-for", parse_ip_trimmed(token))
                },
                None => Err(
                    IpError::AutoHeadersMissing { kind, name: name.to_owned() },
                ),
            },
        },
    }
}

/// Interprets one found address-intent value from source `kind`/`name`.
fn parse_ip_value(
    kind: SourceKind,
    name: &'static str,
    value: &str,
    headers: &Vec<(String, String)>,
) -> (r: Result<IpVariant, IpError>)
    ensures
        spec_ip_result_matches(spec_ip_value_outcome(kind, name@, value@, headers@), r),
{
    let t = trim_str(value);
    if str_eq_ignore_case(t, "fetch") {
        Ok(IpVariant::Fetch)
    } else if str_eq_ignore_case(t, "auto") {
        resolve_auto(kind, name, headers)
    } else {
        match parse_ip_trimmed(t) {
            IpParse::Addr(ip) => Ok(IpVariant::Ip(ip)),
            IpParse::Empty => Err(IpError::Empty { kind, name: name.to_owned() }),
            IpParse::Invalid => Err(IpError::Invalid { kind, name: name.to_owned() }),
        }
    }
}

/// Extracts and validates the address intent from a request's query
/// parameters and headers.
pub fn extract_ip_variant(params: &Vec<(String, String)>, headers: &Vec<(String, String)>) -> (r:
    Result<IpVariant, IpError>)
    ensures
        spec_ip_result_matches(spec_extract_ip(params@, headers@), r),
{
    let qnames = ip_query_names();
    match first_match(params, &qnames, false) {
        Some((name, value)) => parse_ip_value(SourceKind::QueryParam, name, value.as_str(), headers),
        None => {
            let hnames = ip_header_names();
            match first_match(headers, &hnames, true) {
                Some((name, value)) => parse_ip_value(
                    SourceKind::Header,
                    name,
                    value.as_str(),
                    headers,
                ),
                None => Err(IpError::NotFound),
            }
        },
    }
}

/// The word a source kind prints as in messages.
pub open spec fn spec_kind_text(k: SourceKind) -> Seq<char> {
    match k {
        SourceKind::QueryParam => "query parameter"@,
        SourceKind::Header => "header"@,
    }
}

/// Writes a source kind out.
pub fn kind_text(k: SourceKind) -> (r: &'static str)
    ensures
        r@ == spec_kind_text(k),
{
    match k {
        SourceKind::QueryParam => "query parameter",
        SourceKind::Header => "header",
    }
}

impl HostnameError {
    /// Every hostname extraction failure is a user error.
    pub fn status_code(&self) -> (r: u16)
        ensures
            r == 400,
    {
        400
    }

    /// The user-facing reason.
    pub open spec fn spec_message(&self) -> Seq<char> {
        match self {
            HostnameError::NotFound => "no hostname found in query parameters or headers"@,
            HostnameError::Empty { kind, name } => "invalid hostname provided in "@
                + spec_kind_text(*kind) + " '"@ + name@ + "': hostname is empty"@,
            HostnameError::Invalid { kind, name, reason } => "invalid hostname in "@
                + spec_kind_text(*kind) + " '"@ + name@ + "': "@ + reason@,
        }
    }

    /// Writes the user-facing reason out.
    pub fn message(&self) -> (r: String)
        ensures
            r@ == self.spec_message(),
    {
        match self {
            HostnameError::NotFound => {
                "no hostname found in query parameters or headers".to_owned()
            },
            HostnameError::Empty { kind, name } => {
                let mut s: String = "invalid hostname provided in ".to_owned();
                s.append(kind_text(*kind));
                s.append(" '");
                s.append(name.as_str());
                s.append("': hostname is empty");
                assert(s@ =~= self.spec_message());
                s
            },
            HostnameError::Invalid { kind, name, reason } => {
                let mut s: String = "invalid hostname in ".to_owned();
                s.append(kind_text(*kind));
                s.append(" '");
                s.append(name.as_str());
                s.append("': ");
                s.append(reason.as_str());
                assert(s@ =~= self.spec_message());
                s
            },
        }
    }
}

impl IpError {
    /// Every address-intent extraction failure is a user error.
    pub fn status_code(&self) -> (r: u16)
        ensures
            r == 400,
    {
        400
    }

    /// The user-facing reason.
    pub open spec fn spec_message(&self) -> Seq<char> {
        match self {
            IpError::NotFound => "no IP address found in query parameters or headers"@,
            IpError::AutoHeadersMissing { kind, name } => "'auto' specified in "@
                + spec_kind_text(*kind) + " '"@ + name@
                + "', but no relevant IP headers were found"@,
            IpError::Empty { kind, name } => "empty IP address in "@ + spec_kind_text(*kind)
                + " '"@ + name@ + "'"@,
            IpError::Invalid { kind, name } => "invalid IP address in "@ + spec_kind_text(*kind)
                + " '"@ + name@ + "'"@,
        }
    }

    /// Writes the user-facing reason out.
    pub fn message(&self) -> (r: String)
        ensures
            r@ == self.spec_message(),
    {
        match self {
            IpError::NotFound => "no IP address found in query parameters or headers".to_owned(),
            IpError::AutoHeadersMissing { kind, name } => {
                let mut s: String = "'auto' specified in ".to_owned();
                s.append(kind_text(*kind));
                s.append(" '");
                s.append(name.as_str());
                s.append("', but no relevant IP headers were found");
                assert(s@ =~= self.spec_message());
                s
            },
            IpError::Empty { kind, name } => {
                let mut s: String = "empty IP address in ".to_owned();
                s.append(kind_text(*kind));
                s.append(" '");
                s.append(name.as_str());
                s.append("'");
                assert(s@ =~= self.spec_message());
                s
            },
            IpError::Invalid { kind, name } => {
                let mut s: String = "invalid IP address in ".to_owned();
                s.append(kind_text(*kind));
                s.append(" '");
                s.append(name.as_str());
                s.append("'");
                assert(s@ =~= self.spec_message());
                s
            },
        }
    }
}

/// Law: when a recognized query parameter is present, the query value
/// alone decides the hostname outcome; the headers play no part.
pub proof fn lemma_hostname_query_priority(ps: Seq<(String, String)>, hs: Seq<(String, String)>)
    requires
        spec_first_match(ps, spec_hostname_query_names(), false) is Some,
    ensures
        spec_extract_hostname(ps, hs) == spec_hostname_value_outcome(
            SourceKind::QueryParam,
            spec_first_match(ps, spec_hostname_query_names(), false)->Some_0.0,
            spec_first_match(ps, spec_hostname_query_names(), false)->Some_0.1,
        ),
{
}

/// Law: when a recognized query parameter is present, the query value
/// alone decides the address intent; the intent headers play no part
/// (the client-address headers still serve `auto` resolution).
pub proof fn lemma_ip_query_priority(ps: Seq<(String, String)>, hs: Seq<(String, String)>)
    requires
        spec_first_match(ps, spec_ip_query_names(), false) is Some,
    ensures
        spec_extract_ip(ps, hs) == spec_ip_value_outcome(
            SourceKind::QueryParam,
            spec_first_match(ps, spec_ip_query_names(), false)->Some_0.0,
            spec_first_match(ps, spec_ip_query_names(), false)->Some_0.1,
            hs,
        ),
{
}

/// Law: `auto` resolution picks the trusted-proxy header over the
/// real-client header over the forwarded-for header, and of the
/// forwarded-for value it reads only the first comma-separated token;
/// with none of the three present it fails.
pub proof fn lemma_auto_resolution_order(
    kind: SourceKind,
    name: Seq<char>,
    hs: Seq<(String, String)>,
)
    ensures
        spec_lookup(hs, spec_trusted_proxy_header(), true) matches Some(v)
            ==> spec_resolve_auto(kind, name, hs) == spec_auto_outcome(
            spec_trusted_proxy_header(),
            spec_ip_literal_outcome(v),
        ),
        spec_lookup(hs, spec_trusted_proxy_header(), true) is None ==> (spec_lookup(
            hs,
            spec_real_client_header(),
            true,
        ) matches Some(v) ==> spec_resolve_auto(kind, name, hs) == spec_auto_outcome(
            spec_real_client_header(),
            spec_ip_literal_outcome(v),
        )),
        spec_lookup(hs, spec_trusted_proxy_header(), true) is None && spec_lookup(
            hs,
            spec_real_client_header(),
            true,
        ) is None ==> (spec_lookup(hs, spec_forwarded_header(), true) matches Some(v)
            ==> spec_resolve_auto(kind, name, hs) == spec_auto_outcome(
            spec_forwarded_header(),
            spec_ip_literal_outcome(spec_first_forwarded_token(v)),
        )),
        spec_lookup(hs, spec_trusted_proxy_header(), true) is None && spec_lookup(
            hs,
            spec_real_client_header(),
            true,
        ) is None && spec_lookup(hs, spec_forwarded_header(), true) is None
            ==> spec_resolve_auto(kind, name, hs) == IpOutcome::AutoMissing(kind, name),
{
}

proof fn lemma_lookup_singleton(n: String, v: String, name: Seq<char>, ci: bool)
    ensures
        spec_name_matches(n@, name, ci) ==> spec_lookup(seq![(n, v)], name, ci) == Some(v@),
        !spec_name_matches(n@, name, ci) ==> spec_lookup(seq![(n, v)], name, ci) is None,
{
    let ps = seq![(n, v)];
    assert(ps[0] == (n, v));
    if !spec_name_matches(n@, name, ci) {
        lemma_lookup_none(ps, name, ci);
    }
}

proof fn lemma_first_match_singleton(n: String, v: String, names: Seq<Seq<char>>, ci: bool)
    requires
        exists|j: int| 0 <= j < names.len() && spec_name_matches(n@, #[trigger] names[j], ci),
    ensures
        spec_first_match(seq![(n, v)], names, ci) matches Some(p) && p.1 == v@,
    decreases names.len(),
{
    let j = choose|j: int| 0 <= j < names.len() && spec_name_matches(n@, #[trigger] names[j], ci);
    lemma_lookup_singleton(n, v, names[0], ci);
    if !spec_name_matches(n@, names[0], ci) {
        let t = names.drop_first();
        assert(t[j - 1] == names[j]);
        lemma_first_match_singleton(n, v, t, ci);
    }
}

/// Whether two hostname outcomes agree apart from the reported source.
pub open spec fn spec_hostname_outcomes_agree(a: HostnameOutcome, b: HostnameOutcome) -> bool {
    match (a, b) {
        (HostnameOutcome::Valid(_, _, h1), HostnameOutcome::Valid(_, _, h2)) => h1 == h2,
        (HostnameOutcome::Empty(_, _), HostnameOutcome::Empty(_, _)) => true,
        (HostnameOutcome::Invalid(_, _), HostnameOutcome::Invalid(_, _)) => true,
        (HostnameOutcome::NotFound, HostnameOutcome::NotFound) => true,
        _ => false,
    }
}

/// Law: whichever recognized query-parameter name variant carries the
/// hostname value, extraction reads the same value and yields the same
/// encoded hostname, or the same kind of failure.
pub proof fn lemma_hostname_variant_equivalence(
    n1: String,
    n2: String,
    v: String,
    j1: int,
    j2: int,
)
    requires
        0 <= j1 < spec_hostname_query_names().len(),
        0 <= j2 < spec_hostname_query_names().len(),
        n1@ == spec_hostname_query_names()[j1],
        n2@ == spec_hostname_query_names()[j2],
    ensures
        spec_hostname_outcomes_agree(
            spec_extract_hostname(seq![(n1, v)], Seq::empty()),
            spec_extract_hostname(seq![(n2, v)], Seq::empty()),
        ),
{
    lemma_first_match_singleton(n1, v, spec_hostname_query_names(), false);
    lemma_first_match_singleton(n2, v, spec_hostname_query_names(), false);
}

/// Law: the same, for the recognized hostname header name variants.
pub proof fn lemma_hostname_header_variant_equivalence(
    n1: String,
    n2: String,
    v: String,
    j1: int,
    j2: int,
)
    requires
        0 <= j1 < spec_hostname_header_names().len(),
        0 <= j2 < spec_hostname_header_names().len(),
        spec_name_matches(n1@, spec_hostname_header_names()[j1], true),
        spec_name_matches(n2@, spec_hostname_header_names()[j2], true),
    ensures
        spec_hostname_outcomes_agree(
            spec_extract_hostname(Seq::empty(), seq![(n1, v)]),
            spec_extract_hostname(Seq::empty(), seq![(n2, v)]),
        ),
{
    lemma_first_match_none(Seq::empty(), spec_hostname_query_names(), false);
    lemma_first_match_singleton(n1, v, spec_hostname_header_names(), true);
    lemma_first_match_singleton(n2, v, spec_hostname_header_names(), true);
}

/// Whether two address-intent outcomes agree apart from the reported
/// source.
pub open spec fn spec_ip_outcomes_agree(a: IpOutcome, b: IpOutcome) -> bool {
    match (a, b) {
        (IpOutcome::Direct(_, _, i1), IpOutcome::Direct(_, _, i2)) => i1 == i2,
        (IpOutcome::Auto(h1, i1), IpOutcome::Auto(h2, i2)) => h1 == h2 && i1 == i2,
        (IpOutcome::Fetch, IpOutcome::Fetch) => true,
        (IpOutcome::AutoMissing(_, _), IpOutcome::AutoMissing(_, _)) => true,
        (IpOutcome::Empty(_, _), IpOutcome::Empty(_, _)) => true,
        (IpOutcome::Invalid(_, _), IpOutcome::Invalid(_, _)) => true,
        (IpOutcome::NotFound, IpOutcome::NotFound) => true,
        _ => false,
    }
}

proof fn lemma_variant_not_client_header(n: String, v: String, j: int)
    requires
        0 <= j < spec_ip_header_names().len(),
        spec_name_matches(n@, spec_ip_header_names()[j], true),
    ensures
        spec_lookup(seq![(n, v)], spec_trusted_proxy_header(), true) is None,
        spec_lookup(seq![(n, v)], spec_real_client_header(), true) is None,
        spec_lookup(seq![(n, v)], spec_forwarded_header(), true) is None,
{
    reveal_strlit("x-ip");
    reveal_strlit("x-myip");
    reveal_strlit("x-my-ip");
    reveal_strlit("x-targetip");
    reveal_strlit("x-target-ip");
    reveal_strlit("cf-connecting-ip");
    reveal_strlit("x-real-ip");
    reveal_strlit("x-forwarded-for");
    let names = spec_ip_header_names();
    // Every recognized variant name has a length no client-address
    // header name shares, so a case-insensitive match is impossible.
    assert(names[j].len() == 4 || names[j].len() == 6 || names[j].len() == 7 || names[j].len()
        == 10 || names[j].len() == 11) by {
        if j == 0 {
        } else if j == 1 {
        } else if j == 2 {
        } else if j == 3 {
        } else {
            assert(j == 4);
        }
    };
    assert(spec_lower(n@).len() == n@.len());
    assert(n@.len() == names[j].len());
    if spec_name_matches(n@, spec_trusted_proxy_header(), true) {
        assert(n@.len() == 16);
        assert(false);
    }
    if spec_name_matches(n@, spec_real_client_header(), true) {
        assert(n@.len() == 9);
        assert(false);
    }
    if spec_name_matches(n@, spec_forwarded_header(), true) {
        assert(n@.len() == 15);
        assert(false);
    }
    lemma_lookup_singleton(n, v, spec_trusted_proxy_header(), true);
    lemma_lookup_singleton(n, v, spec_real_client_header(), true);
    lemma_lookup_singleton(n, v, spec_forwarded_header(), true);
}

/// Law: whichever recognized header name variant carries the
/// address-intent value, extraction reads the same value and yields the
/// same intent, or the same kind of failure. In particular no variant
/// name is itself a client-address header, so an `auto` carried by any
/// of them resolves identically.
pub proof fn lemma_ip_header_variant_equivalence(
    n1: String,
    n2: String,
    v: String,
    j1: int,
    j2: int,
)
    requires
        0 <= j1 < spec_ip_header_names().len(),
        0 <= j2 < spec_ip_header_names().len(),
        spec_name_matches(n1@, spec_ip_header_names()[j1], true),
        spec_name_matches(n2@, spec_ip_header_names()[j2], true),
    ensures
        spec_ip_outcomes_agree(
            spec_extract_ip(Seq::empty(), seq![(n1, v)]),
            spec_extract_ip(Seq::empty(), seq![(n2, v)]),
        ),
{
    lemma_first_match_none(Seq::empty(), spec_ip_query_names(), false);
    lemma_first_match_singleton(n1, v, spec_ip_header_names(), true);
    lemma_first_match_singleton(n2, v, spec_ip_header_names(), true);
    lemma_variant_not_client_header(n1, v, j1);
    lemma_variant_not_client_header(n2, v, j2);
}

/// Law: whichever recognized query-parameter name variant carries the
/// address-intent value, extraction reads the same value and yields the
/// same intent, or the same kind of failure.
pub proof fn lemma_ip_variant_equivalence(
    n1: String,
    n2: String,
    v: String,
    hs: Seq<(String, String)>,
    j1: int,
    j2: int,
)
    requires
        0 <= j1 < spec_ip_query_names().len(),
        0 <= j2 < spec_ip_query_names().len(),
        n1@ == spec_ip_query_names()[j1],
        n2@ == spec_ip_query_names()[j2],
    ensures
        spec_ip_outcomes_agree(
            spec_extract_ip(seq![(n1, v)], hs),
            spec_extract_ip(seq![(n2, v)], hs),
        ),
{
    lemma_first_match_singleton(n1, v, spec_ip_query_names(), false);
    lemma_first_match_singleton(n2, v, spec_ip_query_names(), false);
}

} // verus!
