//! The decisions of a headless browser's HTTP client: which URLs and addresses
//! a request may reach, what a request looks like, and how a fetch goes on
//! from one answer to the next.
pub mod ca;
pub mod callbacks;
pub mod client;
pub mod connection;
pub mod error;
pub mod fetch;
pub mod guard;
pub mod header_map;
pub mod headers;
pub mod ip;
pub mod laws;
pub mod outgoing;
pub mod response;
pub mod run;
pub mod text;
pub mod urls;
