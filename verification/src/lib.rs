//! A small, fully specified HTTP request pipeline: an auth resolver, an
//! error-to-response mapper, typed extraction of query strings, form bodies
//! and JSON bodies, per-shape JSON rendering, and a static route table with
//! exact dispatch.  Every function carries a contract over sequence views,
//! so the behaviour of each endpoint is pinned down input by input.

pub mod strutil;
pub mod json;
pub mod response;
pub mod urlenc;
pub mod extractor;
pub mod simple_handler;
pub mod jsonbody;
pub mod router;
pub mod pipeline;
pub mod laws;
pub mod error;
pub mod middleware;
