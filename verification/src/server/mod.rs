//! The proxy's HTTP interface.

pub mod backends;
pub mod chat;
pub mod chat_laws;
pub mod documents;
pub mod requests;
pub mod routes;
pub mod stream;
pub mod turn_laws;
