//! Credentials from an `Authorization` header of scheme `Basic`: the
//! header is required, must carry the `Basic ` prefix, decode from
//! base64 to UTF-8 text, and split at the first `:` into a name and a
//! secret. Every failure names its step and maps to a 401 status.
use vstd::prelude::*;
use vstd::string::StrSliceExecFns;
use vstd::string::StringExecFns;

use crate::strutil::find_char;
use crate::strutil::lemma_spec_find_none;
use crate::strutil::lemma_spec_find_some;
use crate::strutil::spec_find;

verus! {

/// What the base64 standard alphabet (with padding) decodes a byte
/// string to, or `None` when the input is not valid base64. The result
/// depends on the input bytes alone.
pub uninterp spec fn base64_standard_decoding(s: Seq<u8>) -> Option<Seq<u8>>;

/// Relies on base64's `BASE64_STANDARD` engine `decode`: the standard
/// alphabet with padding. The decoder's message is passed through for
/// diagnostics, with nothing claimed about it.
#[verifier::external_body]
fn base64_decode_standard(input: &Vec<u8>) -> (r: Result<Vec<u8>, String>)
    ensures
        r is Ok <==> base64_standard_decoding(input@) is Some,
        r matches Ok(b) ==> base64_standard_decoding(input@) == Some(b@),
{
    base64::Engine::decode(&base64::prelude::BASE64_STANDARD, input.as_slice()).map_err(|e| {
        e.to_string()
    })
}

/// The characters a byte string holds when it is valid UTF-8, or `None`.
/// The result depends on the bytes alone.
pub uninterp spec fn utf8_decoding(bytes: Seq<u8>) -> Option<Seq<char>>;

/// Relies on std's `String::from_utf8`: returns the decoded text exactly
/// when the bytes are valid UTF-8. The error's message is passed through
/// for diagnostics, with nothing claimed about it.
#[verifier::external_body]
fn string_from_utf8(bytes: Vec<u8>) -> (r: Result<String, String>)
    ensures
        r is Ok <==> utf8_decoding(bytes@) is Some,
        r matches Ok(s) ==> utf8_decoding(bytes@) == Some(s@),
{
    String::from_utf8(bytes).map_err(|e| e.to_string())
}

/// The bytes of the scheme prefix `Basic ` (a trailing space included).
pub open spec fn spec_basic_prefix() -> Seq<u8> {
    seq![66u8, 97u8, 115u8, 105u8, 99u8, 32u8]
}

/// A failure while reading `Basic` credentials; every variant maps to a
/// 401 status.
#[derive(Debug, Clone, PartialEq, Eq)]
pub enum BasicAuthError {
    /// No `Authorization` header was presented.
    MissingHeader,
    /// The header does not carry the `Basic ` scheme prefix.
    NotBasic,
    /// The base64 payload does not decode; carries the decoder's reason.
    BadBase64 { reason: String },
    /// The decoded bytes are not UTF-8; carries the decoder's reason.
    BadUtf8 { reason: String },
    /// The decoded text holds no `:` separator.
    MissingSeparator,
}

/// What reading `Basic` credentials yields, at the specification level.
pub enum BasicAuthOutcome {
    Missing,
    NotBasic,
    BadBase64,
    BadUtf8,
    NoSeparator,
    /// The name and the secret, split at the first `:`.
    Credentials(Seq<char>, Seq<char>),
}

/// The reading of an `Authorization` header value: the header must be
/// present, start with `Basic `, its remainder must decode from base64
/// to UTF-8 text, and that text must split at a `:`.
pub open spec fn spec_basic_auth_outcome(header: Option<Seq<u8>>) -> BasicAuthOutcome {
    match header {
        None => BasicAuthOutcome::Missing,
        Some(h) => {
            if !(h.len() >= 6 && h.subrange(0, 6) == spec_basic_prefix()) {
                BasicAuthOutcome::NotBasic
            } else {
                match base64_standard_decoding(h.skip(6)) {
                    None => BasicAuthOutcome::BadBase64,
                    Some(decoded) => match utf8_decoding(decoded) {
                        None => BasicAuthOutcome::BadUtf8,
                        Some(text) => match spec_find(text, ':') {
                            None => BasicAuthOutcome::NoSeparator,
                            Some(i) => BasicAuthOutcome::Credentials(
                                text.subrange(0, i),
                                text.subrange(i + 1, text.len() as int),
                            ),
                        },
                    },
                }
            }
        },
    }
}

/// The header value as the specification sees it.
pub open spec fn spec_header_view(header: Option<&Vec<u8>>) -> Option<Seq<u8>> {
    match header {
        Some(h) => Some(h@),
        None => None,
    }
}

/// Whether a result reports exactly the outcome the specification
/// assigns.
pub open spec fn spec_basic_auth_result_matches(
    o: BasicAuthOutcome,
    r: Result<(String, String), BasicAuthError>,
) -> bool {
    match o {
        BasicAuthOutcome::Missing => r matches Err(BasicAuthError::MissingHeader),
        BasicAuthOutcome::NotBasic => r matches Err(BasicAuthError::NotBasic),
        BasicAuthOutcome::BadBase64 => r matches Err(BasicAuthError::BadBase64 { reason: _ }),
        BasicAuthOutcome::BadUtf8 => r matches Err(BasicAuthError::BadUtf8 { reason: _ }),
        BasicAuthOutcome::NoSeparator => r matches Err(BasicAuthError::MissingSeparator),
        BasicAuthOutcome::Credentials(user, pass) => r matches Ok(p) && p.0@ == user && p.1@
            == pass,
    }
}

/// Reads a name and a secret out of an `Authorization` header value.
pub fn decode_basic_auth(header: Option<&Vec<u8>>) -> (r: Result<(String, String), BasicAuthError>)
    ensures
        spec_basic_auth_result_matches(spec_basic_auth_outcome(spec_header_view(header)), r),
{
    let h = match header {
        Some(h) => h,
        None => {
            return Err(BasicAuthError::MissingHeader);
        },
    };
    if h.len() < 6 {
        return Err(BasicAuthError::NotBasic);
    }
    if !(h[0] == 66 && h[1] == 97 && h[2] == 115 && h[3] == 105 && h[4] == 99 && h[5] == 32) {
        proof {
            let p = h@.subrange(0, 6);
            assert(p[0] == h@[0] && p[1] == h@[1] && p[2] == h@[2] && p[3] == h@[3] && p[4]
                == h@[4] && p[5] == h@[5]);
        }
        return Err(BasicAuthError::NotBasic);
    }
    assert(h@.subrange(0, 6) =~= spec_basic_prefix());
    let mut rest: Vec<u8> = Vec::new();
    let mut i: usize = 6;
    while i < h.len()
        invariant
            6 <= i <= h@.len(),
            rest@ == h@.subrange(6, i as int),
        decreases h@.len() - i,
    {
        rest.push(h[i]);
        assert(rest@ =~= h@.subrange(6, i + 1));
        i = i + 1;
    }
    assert(rest@ =~= h@.skip(6));
    let decoded = match base64_decode_standard(&rest) {
        Ok(b) => b,
        Err(reason) => {
            return Err(BasicAuthError::BadBase64 { reason });
        },
    };
    let text = match string_from_utf8(decoded) {
        Ok(t) => t,
        Err(reason) => {
            return Err(BasicAuthError::BadUtf8 { reason });
        },
    };
    match find_char(text.as_str(), ':') {
        Some(sep) => {
            proof {
                lemma_spec_find_some(text@, ':', sep as int);
            }
            let n = text.as_str().unicode_len();
            let user = text.as_str().substring_char(0, sep).to_owned();
            let pass = text.as_str().substring_char(sep + 1, n).to_owned();
            Ok((user, pass))
        },
        None => {
            proof {
                lemma_spec_find_none(text@, ':');
            }
            Err(BasicAuthError::MissingSeparator)
        },
    }
}

impl BasicAuthError {
    /// Every credential-reading failure is an authentication error.
    pub fn status_code(&self) -> (r: u16)
        ensures
            r == 401,
    {
        401
    }

    /// The user-facing reason.
    pub open spec fn spec_message(&self) -> Seq<char> {
        match self {
            BasicAuthError::MissingHeader => "missing Authorization header"@,
            BasicAuthError::NotBasic =>
                "invalid Authorization header: must start with 'Basic '"@,
            BasicAuthError::BadBase64 { reason } =>
                "invalid Authorization header: encountered invalid base64: "@ + reason@,
            BasicAuthError::BadUtf8 { reason } =>
                "invalid Authorization header: invalid UTF-8 after decoding base64: "@ + reason@,
            BasicAuthError::MissingSeparator =>
                "invalid Authorization header: missing ':' separator after decoding base64"@,
        }
    }

    /// Writes the user-facing reason out.
    pub fn message(&self) -> (r: String)
        ensures
            r@ == self.spec_message(),
    {
        match self {
            BasicAuthError::MissingHeader => "missing Authorization header".to_owned(),
            BasicAuthError::NotBasic => {
                "invalid Authorization header: must start with 'Basic '".to_owned()
            },
            BasicAuthError::BadBase64 { reason } => {
                let mut s: String =
                    "invalid Authorization header: encountered invalid base64: ".to_owned();
                s.append(reason.as_str());
                assert(s@ =~= self.spec_message());
                s
            },
            BasicAuthError::BadUtf8 { reason } => {
                let mut s: String =
                    "invalid Authorization header: invalid UTF-8 after decoding base64: ".to_owned();
                s.append(reason.as_str());
                assert(s@ =~= self.spec_message());
                s
            },
            BasicAuthError::MissingSeparator => {
                "invalid Authorization header: missing ':' separator after decoding base64".to_owned()
            },
        }
    }
}

/// A value carried out of valid `Basic` credentials; generic over what
/// the pair converts into downstream.
#[derive(Debug, Clone, PartialEq, Eq)]
pub struct BasicAuth<T> {
    inner: T,
}

impl<T> BasicAuth<T> {
    /// The carried value, for specifications.
    pub closed spec fn spec_inner(&self) -> T {
        self.inner
    }

    /// Wraps a converted credential pair.
    pub fn new(inner: T) -> (r: BasicAuth<T>)
        ensures
            r.spec_inner() == inner,
    {
        BasicAuth { inner }
    }

    /// Hands the carried value out.
    pub fn into_inner(self) -> (r: T)
        ensures
            r == self.spec_inner(),
    {
        self.inner
    }
}

/// The credential pair as the edge handler reads it: an account email
/// and an API token.
#[derive(Debug, Clone)]
pub struct EmailAndToken {
    pub email: String,
    pub token: String,
}

impl From<(String, String)> for EmailAndToken {
    /// The first element is the email, the second the token.
    fn from(pair: (String, String)) -> (r: Self) {
        EmailAndToken { email: pair.0, token: pair.1 }
    }
}

impl vstd::std_specs::convert::FromSpecImpl<(String, String)> for EmailAndToken {
    open spec fn obeys_from_spec() -> bool {
        true
    }

    open spec fn from_spec(pair: (String, String)) -> Self {
        EmailAndToken { email: pair.0, token: pair.1 }
    }
}

} // verus!
