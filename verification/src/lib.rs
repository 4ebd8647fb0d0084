//! A verified core for a URL-shortening service: the link-creation
//! authorization and abuse-mitigation pipeline, the capability-token
//! permission model it depends on, and the retention job that prunes
//! stored origin data.

pub mod addressing;
pub mod base58;
pub mod config;
pub mod errors;
pub mod links;
pub mod period;
pub mod perms;
pub mod retention;
pub mod store;
pub mod strutil;
pub mod tokens;
