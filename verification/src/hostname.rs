//! Validated host names: scheme stripping and ASCII-compatible (IDNA)
//! encoding. A `Hostname` can only be built through validation.
use vstd::prelude::*;
use vstd::string::StrSliceExecFns;

use crate::strutil::lemma_trim_start_len;
use crate::strutil::spec_starts_with;
use crate::strutil::spec_trim;
use crate::strutil::spec_trim_start;
use crate::strutil::str_starts_with;
use crate::strutil::trim_start_str;
use crate::strutil::trim_str;

verus! {

pub open spec fn spec_http_prefix() -> Seq<char> {
    seq!['h', 't', 't', 'p', ':', '/', '/']
}

pub open spec fn spec_https_prefix() -> Seq<char> {
    seq!['h', 't', 't', 'p', 's', ':', '/', '/']
}

/// `s` with every leading `http://` or `https://` scheme removed,
/// dropping whitespace between removals.
pub open spec fn spec_strip_schemes(s: Seq<char>) -> Seq<char>
    decreases s.len(),
    via spec_strip_schemes_decreases
{
    if spec_starts_with(s, spec_http_prefix()) {
        spec_strip_schemes(spec_trim_start(s.skip(7)))
    } else if spec_starts_with(s, spec_https_prefix()) {
        spec_strip_schemes(spec_trim_start(s.skip(8)))
    } else {
        s
    }
}

#[via_fn]
proof fn spec_strip_schemes_decreases(s: Seq<char>) {
    if spec_starts_with(s, spec_http_prefix()) {
        lemma_trim_start_len(s.skip(7));
    } else if spec_starts_with(s, spec_https_prefix()) {
        lemma_trim_start_len(s.skip(8));
    }
}

/// The cleaned form of a host name input: surrounding whitespace trimmed,
/// then leading schemes stripped.
pub open spec fn spec_trim_http_prefix(s: Seq<char>) -> Seq<char> {
    spec_strip_schemes(spec_trim(s))
}

/// Removes surrounding whitespace and any leading `http://` / `https://`
/// schemes (repeatedly, tolerating whitespace between them).
pub fn trim_http_prefix<'a>(value: &'a str) -> (r: &'a str)
    ensures
        r@ == spec_trim_http_prefix(value@),
{
    let mut current = trim_str(value);
    loop
        invariant
            spec_strip_schemes(current@) == spec_trim_http_prefix(value@),
        decreases current@.len(),
    {
        proof {
            reveal_strlit("http://");
            reveal_strlit("https://");
            assert("http://"@ =~= spec_http_prefix());
            assert("https://"@ =~= spec_https_prefix());
        }
        let n = current.unicode_len();
        if str_starts_with(current, "http://") {
            let rest = current.substring_char(7, n);
            assert(rest@ =~= current@.skip(7));
            proof {
                lemma_trim_start_len(rest@);
            }
            current = trim_start_str(rest);
        } else if str_starts_with(current, "https://") {
            let rest = current.substring_char(8, n);
            assert(rest@ =~= current@.skip(8));
            proof {
                lemma_trim_start_len(rest@);
            }
            current = trim_start_str(rest);
        } else {
            return current;
        }
    }
}

/// The ASCII-compatible (IDNA UTS #46 ToASCII) encoding of a domain name,
/// with the URL ASCII deny list, hyphens allowed, and DNS length rules
/// verified allowing a root dot; `None` when the name is not a valid
/// domain under those rules. The encoding depends on the characters alone.
pub uninterp spec fn idna_to_ascii(s: Seq<char>) -> Option<Seq<char>>;

/// Relies on idna's `Uts46::to_ascii`: performs the UTS #46 ToASCII
/// operation (deny list `URL`, `Hyphens::Allow`,
/// `DnsLength::VerifyAllowRootDot`); the result is a function of the input
/// characters alone, and a returned name is ASCII. The error text is
/// passed through for diagnostics, with nothing claimed about it.
#[verifier::external_body]
fn uts46_to_ascii(s: &str) -> (r: Result<String, String>)
    ensures
        r is Ok <==> idna_to_ascii(s@) is Some,
        r matches Ok(h) ==> idna_to_ascii(s@) == Some(h@) && vstd::utf8::is_ascii_chars(h@),
{
    idna::uts46::Uts46::new()
        .to_ascii(
            s.as_bytes(),
            idna::uts46::AsciiDenyList::URL,
            idna::uts46::Hyphens::Allow,
            idna::uts46::DnsLength::VerifyAllowRootDot,
        )
        .map(|d| d.into_owned())
        .map_err(|e| e.to_string())
}

/// A validated, normalized domain name: always the ASCII-compatible
/// encoding of the (scheme-stripped) input it was built from.
#[derive(Debug, Clone, PartialEq, Eq, Hash)]
pub struct Hostname {
    inner: String,
}

impl View for Hostname {
    type V = Seq<char>;

    closed spec fn view(&self) -> Seq<char> {
        self.inner@
    }
}

impl Hostname {
    /// Validates a raw input: trims it, strips leading schemes, then
    /// encodes it to its ASCII-compatible form. The returned name is
    /// exactly that encoding; the error carries the encoder's reason.
    pub fn parse(s: &str) -> (r: Result<Hostname, String>)
        ensures
            r matches Ok(h) ==> idna_to_ascii(spec_trim_http_prefix(s@)) == Some(h@),
            r is Ok <==> idna_to_ascii(spec_trim_http_prefix(s@)) is Some,
    {
        let stripped = trim_http_prefix(s);
        Hostname::from_stripped(stripped)
    }

    /// Encodes an already scheme-stripped input.
    pub fn from_stripped(s: &str) -> (r: Result<Hostname, String>)
        ensures
            r matches Ok(h) ==> idna_to_ascii(s@) == Some(h@),
            r is Ok <==> idna_to_ascii(s@) is Some,
    {
        match uts46_to_ascii(s) {
            Ok(encoded) => Ok(Hostname { inner: encoded }),
            Err(e) => Err(e),
        }
    }

    /// The encoded name.
    pub fn as_str(&self) -> (r: &str)
        ensures
            r@ == self@,
    {
        self.inner.as_str()
    }

    /// The encoded name as an owned string.
    pub fn to_text(&self) -> (r: String)
        ensures
            r@ == self@,
    {
        self.inner.clone()
    }
}

} // verus!
