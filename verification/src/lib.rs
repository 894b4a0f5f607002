//! Requests and outcomes of the organizational-unit resource of a directory
//! administration service.
//!
//! The crate performs no input or output. Each operation of
//! [`orgunits::Orgunits`] describes the one request that has to be sent, and
//! [`response`] settles what a reply to it means. Carrying a request over the
//! network, and turning values into bytes and bytes into values, is left to
//! the caller.

pub mod address;
pub mod encoding;
pub mod orgunits;
pub mod request;
pub mod response;
pub mod types;
