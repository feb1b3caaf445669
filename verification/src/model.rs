//! The fetching side: configuration, payload cache, feed parsing, archiving
//! and the dispatcher that ties them together.

pub mod archive;
pub mod cache;
pub mod fetch;
pub mod init;
pub mod parse;
