//! Resolution core for an AT-URI redirect service.
//!
//! An AT-URI (`at://AUTHORITY[/COLLECTION[/RKEY]]`) names a record in a
//! decentralized data network. This library validates such locators,
//! matches them against host metadata documents that publish URL
//! templates, and drives the ordered multi-host fallback that turns a
//! locator into a concrete destination URL. Network access and the
//! shared TTL caches live outside the library; the decisions they act
//! on are made, and verified, here.

pub mod strutil;
pub mod model;
pub mod webhostmeta;
pub mod ordered;
pub mod servers;
pub mod errors;
pub mod cache;
pub mod resolve;
