//! The decisions of a proxy that speaks the OpenAI protocol to its clients and that of the
//! model's backend to the backend.
//!
//! Everything here is a function of plain values: what is read from sockets, clocks, locks and
//! the environment comes in as arguments, and what is to be done about it goes out as results.

pub mod adapter;
pub mod client;
pub mod json;
pub mod middleware;
pub mod server;
pub mod text;
pub mod types;
