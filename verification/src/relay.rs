//! The worker-side step of the resize relay.
//!
//! The relay decouples "a resize was requested" from "the pool call may
//! block": requests travel over a channel to a dedicated background context,
//! which runs each one on a worker and forwards what came of it to the main
//! thread's inbox.  The channels and threads are the caller's; the work a
//! worker performs on one request — resize, encode, package the outcome —
//! is `relay_step`.

use vstd::prelude::*;

use crate::ErrorKind;
use ratatui_image::errors::Errors;
use ratatui_image::thread::ResizeRequest;
use ratatui_image::thread::ResizeResponse;

verus! {

#[verifier::external_type_specification]
#[verifier::external_body]
pub struct ExResizeRequest(ResizeRequest);

#[verifier::external_type_specification]
#[verifier::external_body]
pub struct ExResizeResponse(ResizeResponse);

#[verifier::external_type_specification]
#[verifier::external_body]
pub struct ExErrors(Errors);

pub uninterp spec fn resize_outcome_of(req: ResizeRequest) -> Option<ResizeResponse>;

/// A request whose target size is not zero in either dimension.  The crate
/// gives a request no accessor for its size, so the predicate cannot be
/// computed here; a caller has it only of requests minted for a non-empty
/// draw area.
pub uninterp spec fn encodable_request(req: ResizeRequest) -> bool;

/// Relies on ratatui_image::thread::ResizeRequest::resize_encode: performs
/// this request's resize and encode, yielding the completed response, or
/// `None` of the named outcome where the encoder reported a failure.  The
/// outcome is a function of the request alone: the encoders consult nothing
/// but the request's image, mode and target size.
///
/// The `requires` leaves out the one input class on which `resize_encode`
/// does not return: on a request whose target size is zero in a dimension,
/// the underlying protocol declines the resize and records no result, and
/// `resize_encode` panics reading the absent result.
#[verifier::external_body]
fn resize_encode_request(req: ResizeRequest) -> (r: Result<ResizeResponse, Errors>)
    requires
        encodable_request(req),
    ensures
        (match r {
            Ok(resp) => encodable_request(req) && resize_outcome_of(req) == Some(resp),
            Err(_) => encodable_request(req) && resize_outcome_of(req) is None,
        }),
{
    req.resize_encode()
}

/// One step of the relay: run one request's resize on this worker and
/// package the outcome for the response channel.  A completed resize is
/// returned exactly as the encoder produced it; a failed one is reported as
/// `ResizeError`, routed back like a success.  The caller owes the
/// `encodable_request` assumption: the widget that mints requests makes one
/// only for a non-empty draw area.
pub fn relay_step(req: ResizeRequest) -> (r: Result<ResizeResponse, ErrorKind>)
    requires
        encodable_request(req),
    ensures
        (match r {
            Ok(resp) => resize_outcome_of(req) == Some(resp),
            Err(e) => e == ErrorKind::ResizeError && resize_outcome_of(req) is None,
        }),
{
    match resize_encode_request(req) {
        Ok(resp) => Ok(resp),
        Err(_) => Err(ErrorKind::ResizeError),
    }
}

} // verus!
