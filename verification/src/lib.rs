//! The protocol core of a small HTTP service that keeps one table of users:
//! reading a request from raw bytes, choosing the storage operation it asks
//! for, turning the store's answer into a response and writing that response
//! out as bytes.
//!
//! Nothing here touches a socket or a database. A caller reads bytes and
//! hands them to [`service::serve_with`] together with the way into its
//! store; what comes back is written to the connection. The steps in between
//! are [`request::parse_request`], [`request::Request::operation`],
//! [`response::respond`] and [`response::encode`]. [`store::Table`] is a
//! store in memory, and [`service`] states what holds of requests that
//! follow one another on it.

pub mod bytes;
pub mod config;
pub mod decimal;
pub mod error;
pub mod json;
pub mod request;
pub mod response;
pub mod route;
pub mod service;
pub mod store;
pub mod user;
