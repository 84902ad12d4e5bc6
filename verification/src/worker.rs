//! The stateless request handler: reads credentials, hostname and
//! address intent out of one inbound request and answers with what it
//! parsed. It keeps no state, performs no outbound calls, and therefore
//! cannot serve a `fetch` intent: that is a user error here.
use vstd::prelude::*;
use vstd::string::StringExecFns;

use crate::addr::IpAddress;
use crate::addr::ip_to_string;
use crate::addr::spec_ip_string;
use crate::basic_auth::BasicAuth;
use crate::basic_auth::BasicAuthOutcome;
use crate::basic_auth::EmailAndToken;
use crate::basic_auth::decode_basic_auth;
use crate::basic_auth::spec_basic_auth_outcome;
use crate::basic_auth::spec_header_view;
use crate::extract::HostnameOutcome;
use crate::extract::IpOutcome;
use crate::extract::IpVariant;
use crate::extract::extract_hostname;
use crate::extract::extract_ip_variant;
use crate::extract::spec_extract_hostname;
use crate::extract::spec_extract_ip;

verus! {

/// The reply when a request parses: the hostname and address read back.
pub open spec fn spec_success_message(h: Seq<char>, ip: IpAddress) -> Seq<char> {
    "Parsed dynamic DNS request successfully!\n- Hostname: "@ + h + "\n- IP: "@ + spec_ip_string(
        ip,
    )
}

/// The answer when a request asks for a deferred external lookup, which
/// this handler cannot perform.
pub open spec fn spec_fetch_unsupported_message() -> Seq<char> {
    "ip 'fetch' option can not be used in a Cloudflare Worker"@
}

/// Handles one inbound dynamic DNS request.
///
/// Credentials are read first: any failure there is a 401. Then the
/// hostname, then the address intent: any failure there is a 400, with
/// the extraction error's own message. A `fetch` intent is a 400 here.
/// What remains is answered with the parsed hostname and address.
pub fn handle_request(
    params: &Vec<(String, String)>,
    headers: &Vec<(String, String)>,
    auth_header: Option<&Vec<u8>>,
) -> (r: Result<String, (u16, String)>)
    ensures
        ({
            let auth = spec_basic_auth_outcome(spec_header_view(auth_header));
            if !(auth is Credentials) {
                r matches Err(e) && e.0 == 401
            } else {
                match spec_extract_hostname(params@, headers@) {
                    HostnameOutcome::Valid(hk, hn, h) => match spec_extract_ip(
                        params@,
                        headers@,
                    ) {
                        IpOutcome::Direct(k, n, ip) => r matches Ok(m) && m@
                            == spec_success_message(h, ip),
                        IpOutcome::Auto(n, ip) => r matches Ok(m) && m@ == spec_success_message(
                            h,
                            ip,
                        ),
                        IpOutcome::Fetch => r matches Err(e) && e.0 == 400 && e.1@
                            == spec_fetch_unsupported_message(),
                        _ => r matches Err(e) && e.0 == 400,
                    },
                    HostnameOutcome::NotFound => r matches Err(e) && e.0 == 400 && e.1@
                        == "no hostname found in query parameters or headers"@,
                    _ => r matches Err(e) && e.0 == 400,
                }
            }
        }),
{
    let auth: BasicAuth<EmailAndToken> = match decode_basic_auth(auth_header) {
        Ok(pair) => BasicAuth::new(EmailAndToken::from(pair)),
        Err(e) => {
            let code = e.status_code();
            let msg = e.message();
            return Err((code, msg));
        },
    };
    let _credentials = auth.into_inner();
    let name = match extract_hostname(params, headers) {
        Ok(h) => h,
        Err(e) => {
            let code = e.status_code();
            let msg = e.message();
            return Err((code, msg));
        },
    };
    let variant = match extract_ip_variant(params, headers) {
        Ok(v) => v,
        Err(e) => {
            let code = e.status_code();
            let msg = e.message();
            return Err((code, msg));
        },
    };
    let ip = match variant {
        IpVariant::Ip(ip) => ip,
        IpVariant::Auto(ip) => ip,
        IpVariant::Fetch => {
            return Err(
                (400, "ip 'fetch' option can not be used in a Cloudflare Worker".to_owned()),
            );
        },
    };
    let mut msg: String = "Parsed dynamic DNS request successfully!\n- Hostname: ".to_owned();
    msg.append(name.as_str());
    msg.append("\n- IP: ");
    let ip_text = ip_to_string(&ip);
    msg.append(ip_text.as_str());
    assert(msg@ =~= spec_success_message(name@, ip));
    Ok(msg)
}

} // verus!
