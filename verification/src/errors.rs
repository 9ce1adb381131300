//! The JSON surface's error bodies and the public message for each status.

use vstd::prelude::*;

verus! {

/// The internal half of an error body, shown only by endpoints that opt in.
#[derive(Clone, Debug)]
pub struct RouteInternalErrorOutput {
    pub name: String,
    pub debug: String,
}

/// The error body of the JSON surface: a public message, and optionally the
/// internal error behind it.
#[derive(Clone, Debug)]
pub struct RouteErrorOutput {
    pub error: String,
    pub internal_error: Option<RouteInternalErrorOutput>,
}

/// The fixed public message for an HTTP status code.
pub open spec fn public_message_of(status: u16) -> Seq<char> {
    if status == 409 {
        "The request is not allowed"@
    } else if status == 401 {
        "You are not authorised to access this endpoint"@
    } else if status == 404 {
        "The resource was not found"@
    } else if status == 400 {
        "Bad request made"@
    } else if status == 403 {
        "Request is forbidden"@
    } else if status == 418 {
        "I'm a teapot"@
    } else if status == 429 {
        "Too many requests"@
    } else if status == 502 {
        "Bad gateway"@
    } else if status == 503 {
        "Service unavailable"@
    } else if status == 504 {
        "Gateway timeout"@
    } else if status == 500 {
        "An unexpected error occurred"@
    } else {
        "An unknown error occurred"@
    }
}

/// The public message shown for a status code.
pub fn status_code_to_public_message(status: u16) -> (r: &'static str)
    ensures
        r@ == public_message_of(status),
{
    if status == 409 {
        "The request is not allowed"
    } else if status == 401 {
        "You are not authorised to access this endpoint"
    } else if status == 404 {
        "The resource was not found"
    } else if status == 400 {
        "Bad request made"
    } else if status == 403 {
        "Request is forbidden"
    } else if status == 418 {
        "I'm a teapot"
    } else if status == 429 {
        "Too many requests"
    } else if status == 502 {
        "Bad gateway"
    } else if status == 503 {
        "Service unavailable"
    } else if status == 504 {
        "Gateway timeout"
    } else if status == 500 {
        "An unexpected error occurred"
    } else {
        "An unknown error occurred"
    }
}

impl RouteErrorOutput {
    /// An error body carrying the status's public message and nothing else.
    pub fn from_status(status: u16) -> (r: RouteErrorOutput)
        ensures
            r.error@ == public_message_of(status),
            r.internal_error is None,
    {
        RouteErrorOutput {
            error: <String as vstd::string::StringExecFns>::from_str(
                status_code_to_public_message(status),
            ),
            internal_error: None,
        }
    }
}

} // verus!
