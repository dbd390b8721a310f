//! A per-connection request/response engine for the text-framed HTTP/1.1
//! protocol: request assembly from buffered socket bytes, response
//! serialization, and the decisions of the connection loop.
pub mod wire;
pub mod message;
pub mod grammar;
pub mod serialize;
pub mod head;
pub mod assemble;
pub mod engine;
pub mod framing;
