//! The SDK that hook packages are written against: requests, responses,
//! payloads, logging and the glue that runs a handler.
pub mod error;
pub mod http_response;
pub mod log;
pub mod payload;
pub mod private;
pub mod request;
pub mod response;
