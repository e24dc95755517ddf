use vstd::prelude::*;

verus! {

/// Why a response body could not be decoded.
#[derive(Debug, Clone, Copy, PartialEq, Eq, Structural)]
pub enum DecodeFault {
    /// The body is not well-formed JSON.
    NotJson,
    /// The expected member is absent or does not hold a string.
    MissingField,
    /// The member's string is not an unsigned 32-bit decimal number.
    NotNumber,
    /// The body holds a fraction whose digits would overflow the JSON
    /// reader's exponent (see `scan::has_overlong_fraction`).
    FractionTooLong,
}

/// Failure of one API operation.
#[derive(Debug, Clone, Copy, PartialEq, Eq, Structural)]
pub enum ApiError {
    /// The transport failed (unreachable host, timeout, unreadable body).
    Request,
    /// The response body did not decode as expected.
    Decode(DecodeFault),
    /// Creating or writing the output file failed.
    Io,
}

impl ApiError {
    /// A short human-readable description of the failure.
    pub fn describe(&self) -> (r: &'static str) {
        match self {
            ApiError::Request => "request to the service failed",
            ApiError::Decode(DecodeFault::NotJson) => "response is not valid JSON",
            ApiError::Decode(DecodeFault::MissingField) => "expected field is missing or not a string",
            ApiError::Decode(DecodeFault::NotNumber) => "field does not hold an unsigned integer",
            ApiError::Decode(DecodeFault::FractionTooLong) => "response holds a fraction too long for the JSON reader",
            ApiError::Io => "writing the output file failed",
        }
    }
}

} // verus!
