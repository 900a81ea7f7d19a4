//! A configuration-driven HTTP server's core: the validator that turns a
//! configuration document into a routing table, and the rules that pick and
//! build the answer to each request.
pub mod json;
pub mod token;
pub mod response;
pub mod text;
pub mod config;
pub mod routes;
pub mod reply;
pub mod script;
pub mod dispatch;
