//! Core of a dynamic-DNS service: authenticated users register subdomain
//! bindings under one authoritative zone, and an authoritative responder
//! answers address queries for that zone from the current bindings, falling
//! back to operator-configured default addresses.
//!
//! The library holds the query-resolution logic and the ownership-gated
//! account/session/domain operations, verified over an in-memory model of
//! the backing store. Transport (HTTP, DNS wire), configuration files and
//! the relational store itself live outside, in the surrounding application.

pub mod account;
pub mod addr;
pub mod auth;
pub mod bytes;
pub mod dns;
pub mod domain;
pub mod err;
pub mod store;
