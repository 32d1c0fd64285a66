//! Core of a policy-enforcing reverse proxy for a SQL query service.
//!
//! Inbound query submissions are classified, their SQL is inspected against a
//! configured rule set, and a violated rule either blocks the request or tags
//! it for low scheduling priority before it is forwarded upstream.

pub mod explain;
pub mod headers;
pub mod net;
pub mod pipeline;
pub mod protocol;
pub mod rules;
pub mod sqlinfo;
