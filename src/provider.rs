//! The uniform reading of the provider's responses.
use vstd::prelude::*;

verus! {

/// How a response of the provider is read.
#[derive(Clone, Copy, Debug, PartialEq, Eq, Structural)]
pub enum ResponseKind {
    /// Status 200 or 201 with a body: the body is the answer.
    Success,
    /// Another status with a body: the body holds the error message.
    BusinessError,
    /// No body came back.
    TransportError,
}

/// The reading of a response with HTTP status `status`, with or without a
/// body.
pub fn classify_response(status: u16, has_body: bool) -> (r: ResponseKind)
    ensures
        r == (if !has_body {
            ResponseKind::TransportError
        } else if status == 200 || status == 201 {
            ResponseKind::Success
        } else {
            ResponseKind::BusinessError
        }),
{
    if !has_body {
        ResponseKind::TransportError
    } else if status == 200 || status == 201 {
        ResponseKind::Success
    } else {
        ResponseKind::BusinessError
    }
}

} // verus!
