//! A JSON-RPC 2.0 protocol engine for stream transports, with its rules
//! stated as contracts and proved.
//!
//! - `json`: JSON values and their mathematical model.
//! - `error`: the error of a response, with the standard codes.
//! - `message`: requests, notifications, responses and batches, and their
//!   form on the wire.
//! - `codec`: frames of one line each, cut from a stream of bytes.
//! - `params`: the parameters of a call, read by position or by name.
//! - `server`: what an application implements, and how servers are put
//!   together.
//! - `endpoint`: the state of one connection and what is due for each event.
//! - `wire`: what `serde_json` does for the library.
//! - `text`: numbers written in base ten.
//! - `laws`: what holds of messages and of connections as a whole.

pub mod json;
pub mod error;
pub mod text;
pub mod wire;
pub mod params;
pub mod message;
pub mod codec;
pub mod server;
pub mod endpoint;
pub mod laws;
