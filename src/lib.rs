//! Client logic for the malshare sample repository API: request URLs,
//! download-path resolution and decoding of the service's JSON answers.
//! The network and filesystem side lives with the caller.

pub mod decimal;
pub mod error;
pub mod output;
pub mod request;
pub mod response;
pub mod scan;
