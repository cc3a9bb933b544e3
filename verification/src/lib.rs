//! A self-hosted build trigger for repositories on a git forge.
//!
//! The crate holds the protocol and scheduling rules of the service: how a
//! request is read from a byte stream and answered, how a webhook delivery is
//! authenticated and classified, how deliveries for one repository collapse
//! into builds, and how a failing build is retried. Sockets, threads and
//! processes are left to the program that drives these rules.

pub mod app;
pub mod auth;
pub mod buffer;
pub mod config;
pub mod event;
pub mod executor;
pub mod hex;
pub mod http;
pub mod nixhub;
pub mod nixlify;
pub mod server;
pub mod text;
pub mod trigger;
