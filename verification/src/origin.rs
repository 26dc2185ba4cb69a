//! The cross-origin access-control decision: a pure function from a request's
//! declared origin to which callers may receive the response.

use vstd::prelude::*;
use crate::text::{is_suffix_of, str_ends_with, str_eq};
use vstd::string::StringExecFns;

verus! {

/// What the response may declare about cross-origin access: this exact origin,
/// any origin (the non-production convenience mode), or none at all.
#[derive(Debug)]
pub enum AccessDecision {
    AllowAny,
    AllowOrigin(String),
    AllowNone,
}

/// An allow-listed hostname: the site's own domain or its preview-deployment
/// domain, each together with its subdomains.
pub open spec fn allowed_host(h: Seq<char>) -> bool {
    ||| h == "threedots.ca"@
    ||| is_suffix_of(".threedots.ca"@, h)
    ||| h == "reverent-euclid-2bfb78.netlify.app"@
    ||| is_suffix_of("--reverent-euclid-2bfb78.netlify.app"@, h)
}

/// Decides which cross-origin caller may receive the response: outside
/// production every origin is allowed; in production exactly the allow-listed
/// hostnames get their own origin echoed back, and every other origin gets
/// none. An unrecognized origin is never an error.
pub fn access_control_decision(production: bool, scheme: &str, hostname: &str) -> (r:
    AccessDecision)
    ensures
        !production ==> r is AllowAny,
        production && allowed_host(hostname@) ==> (r matches AccessDecision::AllowOrigin(o) && o@
            == scheme@ + "://"@ + hostname@),
        production && !allowed_host(hostname@) ==> r is AllowNone,
{
    if !production {
        AccessDecision::AllowAny
    } else if str_eq(hostname, "threedots.ca") || str_ends_with(hostname, ".threedots.ca") || str_eq(
        hostname,
        "reverent-euclid-2bfb78.netlify.app",
    ) || str_ends_with(hostname, "--reverent-euclid-2bfb78.netlify.app") {
        let mut origin = scheme.to_owned();
        origin.append("://");
        origin.append(hostname);
        AccessDecision::AllowOrigin(origin)
    } else {
        AccessDecision::AllowNone
    }
}

} // verus!
