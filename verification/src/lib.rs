//! The decisions of a multiplexer that stands between an Ethereum consensus client and several
//! execution nodes: which nodes a request goes to, and how their answers become one answer.

pub mod auth;
pub mod block;
pub mod config;
pub mod forkchoice;
pub mod json;
pub mod laws;
pub mod node;
pub mod reply;
pub mod request;
pub mod rounds;
pub mod router;
pub mod standing;
pub mod text;
