//! Verified core of the RustConvert backend: the whitelist of conversion
//! pairs, request validation, command lines, file naming, archive layout
//! and the error answers that the HTTP layer sends back.

pub mod text;
pub mod kinds;
pub mod error;
pub mod paths;
pub mod pages;
pub mod archive;
pub mod request;
pub mod plan;
pub mod icons;
pub mod config;
