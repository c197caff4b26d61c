//! Outside types that the library carries or converts: the error types
//! its error enums hold and the JSON value that `serde_json` parses into.

use vstd::prelude::*;

verus! {

#[verifier::external_type_specification]
#[verifier::external_body]
pub struct ExReqwestError(reqwest::Error);

#[verifier::external_type_specification]
#[verifier::external_body]
pub struct ExJsonError(serde_json::Error);

#[verifier::external_type_specification]
#[verifier::external_body]
pub struct ExDecodeError(base64::DecodeError);

#[verifier::external_type_specification]
#[verifier::external_body]
pub struct ExJsonValue(serde_json::Value);

#[verifier::external_type_specification]
#[verifier::external_body]
pub struct ExHttpClient(reqwest::Client);

/// `reqwest::Client::clone`: another handle to the same client (its
/// connection pool is shared); nothing about it is stated.
pub assume_specification[ <reqwest::Client as std::clone::Clone>::clone ](c: &reqwest::Client) -> reqwest::Client;

/// `reqwest::Client::builder().user_agent(agent).build()`: an HTTP client
/// that identifies itself as `agent`, or the builder's error (for example
/// when the TLS backend cannot be initialised). Which of the two comes back
/// depends on the machine and is not stated.
#[verifier::external_body]
pub(crate) fn build_http_client(agent: &str) -> Result<reqwest::Client, reqwest::Error> {
    reqwest::Client::builder().user_agent(agent).build()
}

} // verus!
