//! Core of a minimal HTTP/1.1 server: framing of incoming bytes, request
//! parsing, routing, and response serialization. All I/O (sockets, files,
//! signals) lives outside this crate; the functions here are pure and carry
//! contracts that pin down exactly what each route returns.

pub mod config;
pub mod digits;
pub mod frame;
pub mod laws;
pub mod method;
pub mod request;
pub mod response;
pub mod router;
pub mod status;
pub mod text;
