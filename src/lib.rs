//! HTTP client and server types for WASI components, with a verified
//! multipart/form-data codec.
pub mod search;
pub mod text;
pub mod body;
pub mod client;
pub mod header;
pub mod media_type;
pub mod multipart;
pub mod request;
pub mod response;
