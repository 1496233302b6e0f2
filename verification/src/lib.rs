//! A verified core for a weekly comics catalog client.
//!
//! The crate models the outbound request pipeline of a catalog front end:
//! computing the release-week date window, normalizing request targets,
//! signing requests with a time-based credential scheme, and maintaining a
//! conditional-request (ETag) cache.  The pieces compose into a single
//! client through small middleware stages, each with an exact contract.

pub mod comicshelf;
pub mod date;
pub mod errors;
pub mod marvel;
pub mod middleware;
pub mod service;
pub mod text;
