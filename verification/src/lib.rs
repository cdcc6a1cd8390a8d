//! A small web service split into its verified core: loading the database
//! connection settings, rendering the two JSON response payloads, and
//! mapping what a `/db` request observed to an HTTP reply.

pub mod config;
pub mod json;
pub mod reply;
