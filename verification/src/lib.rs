//! A minimal HTTP edge service core: a policy-restricted static asset
//! resolver, a fixed short-link redirect table, and the small pure pieces
//! behind the version, health and home endpoints.
//!
//! The resolvers are pure: the surrounding program performs the file reads
//! and the HTTP transport and feeds their outcomes back in.

pub mod asset;
pub mod redirect;
pub mod site;
mod text;
