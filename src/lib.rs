//! One node of an echo protocol: messages in and out are JSON values, one per line.
//!
//! `json` holds the JSON tree the codec works on, `message` the message model and
//! its codec, and `node` the state machine that answers messages.

pub mod json;
pub mod message;
pub mod node;
