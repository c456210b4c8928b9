//! A minimal client library for the WeChat Mini Game platform's stable
//! access-token endpoint: it frames the JSON request body, decodes the JSON
//! response body, and classifies failed HTTP statuses into a small error
//! taxonomy. The network call itself is left to the surrounding application.

pub mod access_token;
pub mod client;
pub mod error;
pub mod json;

use vstd::prelude::*;

verus! {

pub type MiniGameResult<T> = Result<T, crate::error::Error>;

} // verus!
