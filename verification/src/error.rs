//! The ways in which an operation fails.

use crate::model::NicoError;
use reqwest::Error as TransportError;
use serde_json::Error as JsonError;
use vstd::prelude::*;

verus! {

/// `reqwest::Error`, the transport's error. It is carried, never inspected.
#[verifier::external_type_specification]
#[verifier::external_body]
pub struct ExTransportError(TransportError);

/// `serde_json::Error`, the JSON decoder's error. It is carried, never
/// inspected.
#[verifier::external_type_specification]
#[verifier::external_body]
pub struct ExJsonError(JsonError);

/// Why an operation failed. No failure is retried or repaired: each is
/// handed to the caller as it arose.
#[derive(Debug)]
pub enum Error {
    /// The server answered with a status above 299; its error envelope.
    Status(NicoError),
    /// The request could not be built or sent, or no response came.
    Http(TransportError),
    /// The body was not of the expected shape. The body is kept beside the
    /// decoder's error, so that a drift of the API can be diagnosed.
    Json(JsonError, String),
}

} // verus!
