//! Storage targets, S3 request signing and run planning for a Bandcamp
//! collection downloader.

pub mod clock;
pub mod config;
pub mod digest;
pub mod error;
pub mod headers;
pub mod home;
pub mod job;
pub mod laws;
pub mod percent;
pub mod plan;
pub mod requests;
pub mod run;
pub mod signing;
pub mod staging;
pub mod storage;
pub mod text;
pub mod upload;
pub mod url_parts;
