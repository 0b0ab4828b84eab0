//! Building blocks for services that hand byte streams to independent handlers.
//!
//! - [`codec`]: the contract by which a typed value is written to and read back
//!   from a byte stream, and the reader that turns incoming bytes into one value.
//! - [`server`]: the decisions of a dispatcher that polls one stream source and
//!   hands every stream it yields to a handler of its own.
//! - [`client`]: the decisions of a dispatcher that polls a local and a remote
//!   source in turn and hands every pair it obtains to a handler.
//!
//! The dispatchers are written as state machines: the caller performs each
//! fetch and each hand-off, and reports what a fetch produced.
pub mod codec;
pub mod server;
pub mod client;
