//! Verified core of an update server for applications and their versions.
//! The HTTP server, the database and the file store live outside this crate;
//! what a request is answered, and every check and order behind it, lives
//! here.

pub mod api;
pub mod auth;
pub mod config;
pub mod files;
pub mod json;
pub mod release_order;
pub mod response;
pub mod text;
