//! Response-header decoration for a static-file server: cross-origin
//! isolation headers, a cache policy chosen from the shape of the request
//! path, and the layered configuration that feeds them.

pub mod config;
pub mod headers;
pub mod pipeline;
pub mod policy;
