//! Messages, framing, shared memory and request handling of the LightLoft raw decoding helper.
//!
//! The helper decodes untrusted photo files in a process of its own. The application opens each
//! file and passes its descriptor; the helper answers with metadata, and with pixels in shared
//! memory whose descriptor travels with the reply. This crate holds the decisions that both sides
//! take: how a message is framed, how large a shared object is, which decoder answers a request
//! and what is replied when one fails. Sockets, mappings and the decoders themselves stay
//! outside: the crate says what to do next and is told what came of it.

pub mod allocation;
pub mod channel;
pub mod conduct;
pub mod decode;
pub mod descriptor;
pub mod laws;
pub mod message;
pub mod session;
pub mod shm;
pub mod system;
pub mod text;
