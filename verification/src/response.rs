//! How a response is read. The body is taken whole, as text, before the
//! HTTP status is looked at, so that the body of a failure can be decoded
//! too. A status above 299 is a failure and its body an error envelope; any
//! other body is the envelope of a result.
//!
//! Turning text into values is the caller's part: it is handed in as a
//! decoder, or as what a decoder returned.

use crate::error::Error;
use crate::model::{NicoError, NicoResult};
use reqwest::Error as TransportError;
use serde_json::Error as JsonError;
use vstd::prelude::*;

verus! {

/// Whether a response with this HTTP status is a failure.
pub open spec fn is_failure(status: u16) -> bool {
    status > 299
}

/// Whether a response with this HTTP status is a failure, so that its body
/// is an error envelope.
pub fn status_is_failure(status: u16) -> (failure: bool)
    ensures
        failure == is_failure(status),
{
    status > 299
}

/// What a failed response comes to: the decoded error envelope as a status
/// error, or, when the body was no error envelope, the decoder's error with
/// the body. Never a result.
pub open spec fn failure_outcome<T>(decoded: Result<NicoError, JsonError>, body: String) -> Result<
    NicoResult<T>,
    Error,
> {
    match decoded {
        Ok(envelope) => Err(Error::Status(envelope)),
        Err(error) => Err(Error::Json(error, body)),
    }
}

/// What a successful response comes to: the decoded envelope, or, when the
/// body was none, the decoder's error with the body.
pub open spec fn success_outcome<T>(
    decoded: Result<NicoResult<T>, JsonError>,
    body: String,
) -> Result<NicoResult<T>, Error> {
    match decoded {
        Ok(envelope) => Ok(envelope),
        Err(error) => Err(Error::Json(error, body)),
    }
}

/// Concludes a failed response from what decoding its body as an error
/// envelope gave.
pub fn failure<T>(decoded: Result<NicoError, JsonError>, body: String) -> (outcome: Result<
    NicoResult<T>,
    Error,
>)
    ensures
        outcome == failure_outcome::<T>(decoded, body),
        outcome is Err,
{
    match decoded {
        Ok(envelope) => Err(Error::Status(envelope)),
        Err(error) => Err(Error::Json(error, body)),
    }
}

/// Concludes a successful response from what decoding its body as a result
/// envelope gave.
pub fn success<T>(decoded: Result<NicoResult<T>, JsonError>, body: String) -> (outcome: Result<
    NicoResult<T>,
    Error,
>)
    ensures
        outcome == success_outcome(decoded, body),
        outcome is Ok <==> decoded is Ok,
{
    match decoded {
        Ok(envelope) => Ok(envelope),
        Err(error) => Err(Error::Json(error, body)),
    }
}

/// Whether `outcome` is a reading of the response: what the decoder that
/// the status calls for may return for the body, concluded as a failure
/// when the status is above 299 and as a result otherwise.
pub open spec fn reads_as<T, E, S>(
    status: u16,
    body: String,
    as_error: E,
    as_result: S,
    outcome: Result<NicoResult<T>, Error>,
) -> bool where
    E: FnOnce(&String) -> Result<NicoError, JsonError>,
    S: FnOnce(&String) -> Result<NicoResult<T>, JsonError>,
 {
    if is_failure(status) {
        exists|decoded: Result<NicoError, JsonError>|
            call_ensures(as_error, (&body,), decoded) && outcome == failure_outcome::<T>(
                decoded,
                body,
            )
    } else {
        exists|decoded: Result<NicoResult<T>, JsonError>|
            call_ensures(as_result, (&body,), decoded) && outcome == success_outcome(
                decoded,
                body,
            )
    }
}

/// Reads a response: decodes the body with the decoder that the status
/// calls for, and with no other, and concludes from what it returned.
///
/// A result comes only of a status of at most 299; a status above that
/// always fails, with the server's error envelope when the body holds one.
pub fn decode_response<T, E, S>(status: u16, body: String, as_error: E, as_result: S) -> (outcome:
    Result<NicoResult<T>, Error>) where
    E: FnOnce(&String) -> Result<NicoError, JsonError>,
    S: FnOnce(&String) -> Result<NicoResult<T>, JsonError>,

    requires
        is_failure(status) ==> call_requires(as_error, (&body,)),
        !is_failure(status) ==> call_requires(as_result, (&body,)),
    ensures
        reads_as(status, body, as_error, as_result, outcome),
        outcome is Ok ==> !is_failure(status),
        is_failure(status) ==> outcome is Err,
{
    if status_is_failure(status) {
        let decoded = as_error(&body);
        failure(decoded, body)
    } else {
        let decoded = as_result(&body);
        success(decoded, body)
    }
}

/// Concludes one exchange with the server from what the transport
/// returned: its failure as it is, with no decoder run, or the reading of
/// the status and the body that it brought.
pub fn receive<T, E, S>(
    exchange: Result<(u16, String), TransportError>,
    as_error: E,
    as_result: S,
) -> (outcome: Result<NicoResult<T>, Error>) where
    E: FnOnce(&String) -> Result<NicoError, JsonError>,
    S: FnOnce(&String) -> Result<NicoResult<T>, JsonError>,

    requires
        exchange matches Ok(response) ==> {
            &&& is_failure(response.0) ==> call_requires(as_error, (&response.1,))
            &&& !is_failure(response.0) ==> call_requires(as_result, (&response.1,))
        },
    ensures
        match exchange {
            Ok(response) => reads_as(response.0, response.1, as_error, as_result, outcome),
            Err(error) => outcome == Err::<NicoResult<T>, Error>(Error::Http(error)),
        },
        outcome is Ok ==> (exchange matches Ok(response) && !is_failure(response.0)),
{
    match exchange {
        Ok(response) => {
            let (status, body) = response;
            decode_response(status, body, as_error, as_result)
        },
        Err(error) => Err(Error::Http(error)),
    }
}

/// Reading is repeatable: where the decoders return one value for one body,
/// two readings of a response with the same status and the same body are
/// equal.
pub proof fn lemma_reading_is_repeatable<T, E, S>(
    status: u16,
    body: String,
    as_error: E,
    as_result: S,
    first: Result<NicoResult<T>, Error>,
    second: Result<NicoResult<T>, Error>,
) where
    E: FnOnce(&String) -> Result<NicoError, JsonError>,
    S: FnOnce(&String) -> Result<NicoResult<T>, JsonError>,

    requires
        forall|a: Result<NicoError, JsonError>, b: Result<NicoError, JsonError>|
            call_ensures(as_error, (&body,), a) && call_ensures(as_error, (&body,), b) ==> a == b,
        forall|a: Result<NicoResult<T>, JsonError>, b: Result<NicoResult<T>, JsonError>|
            call_ensures(as_result, (&body,), a) && call_ensures(as_result, (&body,), b) ==> a
                == b,
        reads_as(status, body, as_error, as_result, first),
        reads_as(status, body, as_error, as_result, second),
    ensures
        first == second,
{
}

} // verus!
