//! The core of a forwarding proxy that speaks the HTTP `CONNECT` method only:
//! the parser of the client's request, the policy that says which
//! destinations are let through, the responses that the proxy sends, and the
//! steps that a connection takes from its first byte to its end. The library
//! reads no socket and writes to none: its caller does what `connection` asks
//! for, and reports what came of it.

pub mod connection;
pub mod policy;
pub mod request;
pub mod response;
pub mod text;
pub mod tunnel;
