//! The provider response envelope: every wire response decodes to either
//! a success payload or an ordered list of errors, each possibly carrying
//! a nested chain of causes; a failure folds into one composed diagnostic.
use vstd::prelude::*;
use vstd::string::StringExecFns;

use crate::strutil::spec_u32_string;
use crate::strutil::u32_to_string;

verus! {

/// One provider-reported error: a numeric code, a message, and a nested
/// chain of causes.
#[derive(Debug)]
pub struct CloudflareResponseError {
    pub code: u32,
    pub message: String,
    pub error_chain: Vec<CloudflareResponseError>,
}

/// The diagnostic line one error contributes.
pub open spec fn spec_error_line(code: u32, message: Seq<char>) -> Seq<char> {
    "code: "@ + spec_u32_string(code) + ", message: "@ + message
}

/// The diagnostic lines one error contributes when folded: its chain,
/// deepest first, then its own line.
pub open spec fn spec_chain_lines(e: CloudflareResponseError) -> Seq<Seq<char>>
    decreases e, 1int,
{
    spec_chain_lines_rev(e.error_chain@, e.error_chain@.len() as int) + seq![
        spec_error_line(e.code, e.message@),
    ]
}

/// The lines of the first `n` chain entries, walked in reverse order.
pub open spec fn spec_chain_lines_rev(es: Seq<CloudflareResponseError>, n: int) -> Seq<
    Seq<char>,
>
    decreases es, 0int, n,
{
    if n <= 0 || n > es.len() {
        Seq::empty()
    } else {
        spec_chain_lines(es[n - 1]) + spec_chain_lines_rev(es, n - 1)
    }
}

/// The lines added by folding the first `n` errors of a failure, in the
/// order they are added (innermost first).
pub open spec fn spec_errors_lines(es: Seq<CloudflareResponseError>, n: int) -> Seq<Seq<char>>
    decreases n,
{
    if n <= 0 || n > es.len() {
        Seq::empty()
    } else {
        spec_errors_lines(es, n - 1) + spec_chain_lines(es[n - 1])
    }
}

/// The marker that wraps a composed failure diagnostic at both ends.
pub open spec fn spec_api_error_marker() -> Seq<char> {
    "cloudflare API error"@
}

/// The composed diagnostic of a failure, outermost line first: a marker,
/// then every folded line in outermost-to-innermost order, then the
/// marker again (the wrap appears at both ends).
pub open spec fn spec_failure_diagnostic(es: Seq<CloudflareResponseError>) -> Seq<Seq<char>> {
    seq![spec_api_error_marker()] + spec_errors_lines(es, es.len() as int).reverse() + seq![
        spec_api_error_marker(),
    ]
}

/// Renders one error's diagnostic line.
fn error_line(code: u32, message: &String) -> (r: String)
    ensures
        r@ == spec_error_line(code, message@),
{
    let mut s: String = "code: ".to_owned();
    let num = u32_to_string(code);
    s.append(num.as_str());
    s.append(", message: ");
    s.append(message.as_str());
    assert(s@ =~= spec_error_line(code, message@));
    s
}

/// Appends the lines one error contributes: its chain, deepest first,
/// then its own line.
fn push_chain_lines(e: &CloudflareResponseError, out: &mut Vec<String>)
    ensures
        final(out)@.map_values(|s: String| s@) == old(out)@.map_values(|s: String| s@)
            + spec_chain_lines(*e),
    decreases *e, 1int, 0int,
{
    let ghost base = out@.map_values(|s: String| s@);
    let n = e.error_chain.len();
    push_chain_rev(&e.error_chain, n, out);
    let ghost mid = out@;
    let line = error_line(e.code, &e.message);
    out.push(line);
    proof {
        assert(out@.map_values(|s: String| s@) =~~= mid.map_values(|s: String| s@) + seq![
            spec_error_line(e.code, e.message@),
        ]);
        assert(out@.map_values(|s: String| s@) =~~= base + spec_chain_lines(*e));
    }
}

/// Appends the lines of the first `n` chain entries, walked in reverse.
fn push_chain_rev(es: &Vec<CloudflareResponseError>, n: usize, out: &mut Vec<String>)
    requires
        n <= es@.len(),
    ensures
        final(out)@.map_values(|s: String| s@) == old(out)@.map_values(|s: String| s@)
            + spec_chain_lines_rev(es@, n as int),
    decreases es@, 0int, n as int,
{
    let ghost base = out@.map_values(|s: String| s@);
    if n == 0 {
        assert(out@.map_values(|s: String| s@) =~~= base + spec_chain_lines_rev(es@, 0));
        return ;
    }
    push_chain_lines(&es[n - 1], out);
    push_chain_rev(es, n - 1, out);
    assert(out@.map_values(|s: String| s@) =~~= base + spec_chain_lines_rev(es@, n as int));
}

/// Folds a failure's errors into the composed diagnostic, outermost
/// line first.
pub fn compose_failure_diagnostic(errors: &Vec<CloudflareResponseError>) -> (r: Vec<String>)
    ensures
        r@.map_values(|s: String| s@) == spec_failure_diagnostic(errors@),
{
    let mut added: Vec<String> = Vec::new();
    let mut i: usize = 0;
    while i < errors.len()
        invariant
            i <= errors@.len(),
            added@.map_values(|s: String| s@) == spec_errors_lines(errors@, i as int),
        decreases errors@.len() - i,
    {
        push_chain_lines(&errors[i], &mut added);
        i = i + 1;
    }
    let ghost av = added@.map_values(|s: String| s@);
    let mut out: Vec<String> = Vec::new();
    out.push("cloudflare API error".to_owned());
    let mut j: usize = added.len();
    while j > 0
        invariant
            j <= added@.len(),
            added@.map_values(|s: String| s@) == av,
            out@.map_values(|s: String| s@) =~= seq![spec_api_error_marker()] + av.subrange(
                j as int,
                av.len() as int,
            ).reverse(),
        decreases j,
    {
        j = j - 1;
        let ghost prev_out = out@;
        out.push(added[j].clone());
        proof {
            let tail = av.subrange(j as int, av.len() as int);
            let prev = av.subrange(j + 1, av.len() as int);
            assert(tail.reverse() =~~= prev.reverse() + seq![av[j as int]]);
            assert(added@[j as int]@ == av[j as int]);
            assert(out@.map_values(|s: String| s@) =~~= prev_out.map_values(|s: String| s@)
                + seq![av[j as int]]);
            assert(out@.map_values(|s: String| s@) =~~= seq![spec_api_error_marker()]
                + tail.reverse());
        }
    }
    out.push("cloudflare API error".to_owned());
    proof {
        assert(av.subrange(0, av.len() as int) =~= av);
        assert(out@.map_values(|s: String| s@) =~~= spec_failure_diagnostic(errors@));
    }
    out
}

/// A decoded provider response: a success payload or the provider's
/// reported errors.
#[derive(Debug)]
pub enum CloudflareResponse<T> {
    Success { result: T },
    Error { errors: Vec<CloudflareResponseError> },
}

impl<T> CloudflareResponse<T> {
    /// A success yields its payload; a failure folds its errors into the
    /// composed diagnostic, outermost line first.
    pub fn into_result(self) -> (r: Result<T, Vec<String>>)
        ensures
            self matches CloudflareResponse::Success { result } ==> r matches Ok(t) && t
                == result,
            self matches CloudflareResponse::Error { errors } ==> r matches Err(d)
                && d@.map_values(|s: String| s@) == spec_failure_diagnostic(errors@),
    {
        match self {
            CloudflareResponse::Success { result } => Ok(result),
            CloudflareResponse::Error { errors } => Err(compose_failure_diagnostic(&errors)),
        }
    }
}

} // verus!
