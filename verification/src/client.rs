//! The fixed behaviour the HTTP client attaches to every outgoing call —
//! endpoint address, headers, timeout — and the decision half of sending:
//! turning the status and body of an answer into a typed result. The
//! network call itself lives outside the library.

use vstd::prelude::*;

use crate::access_token::{parse_response, AccessTokenResponse};
use crate::error::{classify, Error, ErrorModel};
use crate::MiniGameResult;

verus! {

/// How many seconds a call may take before it is abandoned.
pub const REQUEST_TIMEOUT_SECS: u64 = 10;

/// Base address of the platform's API.
pub fn base_url() -> (r: &'static str)
    ensures
        r@ == "https://api.weixin.qq.com/cgi-bin"@,
{
    "https://api.weixin.qq.com/cgi-bin"
}

/// The address a stable access-token request is posted to.
pub fn stable_token_url() -> (r: &'static str)
    ensures
        r@ == "https://api.weixin.qq.com/cgi-bin/stable_token"@,
{
    "https://api.weixin.qq.com/cgi-bin/stable_token"
}

/// The Accept header attached to every call. The value names an unrelated
/// API and is almost certainly residue of the line it was copied from; it
/// is kept as the client has always sent it.
pub fn accept_header_value() -> (r: &'static str)
    ensures
        r@ == "application/vnd.github.v3+json"@,
{
    "application/vnd.github.v3+json"
}

/// The User-Agent header attached to every call; kept as the client has
/// always sent it.
pub fn user_agent_value() -> (r: &'static str)
    ensures
        r@ == "crates.io (https://crates.io)"@,
{
    "crates.io (https://crates.io)"
}

/// A status code that counts as success: the 2xx range. Anything else is
/// classified as a failure.
pub open spec fn is_success_status(code: u16) -> bool {
    200 <= code < 300
}

/// The decision half of sending a request, free of any transport: given
/// the HTTP status of the answer and its body text, either decode the
/// body into a response or classify the failure. On a successful status
/// the call returns `Ok` exactly when the body has the expected shape;
/// on any other status it returns the classified error carrying the body
/// as context.
pub fn handle_response(status: u16, body: &str) -> (r: MiniGameResult<AccessTokenResponse>)
    ensures
        is_success_status(status) ==> match r {
            Ok(resp) => parse_response(body@) == Some(resp@),
            Err(e) => parse_response(body@) is None && e@ == ErrorModel::Other(
                "malformed access token response body"@,
            ),
        },
        !is_success_status(status) ==> match r {
            Ok(_) => false,
            Err(e) => e@ == classify(Some(status), body@),
        },
{
    if 200 <= status && status < 300 {
        match AccessTokenResponse::from_json(body) {
            Some(resp) => Ok(resp),
            None => Err(Error::Other(String::from_str("malformed access token response body"))),
        }
    } else {
        Err(Error::classify(Some(status), String::from_str(body)))
    }
}

} // verus!
