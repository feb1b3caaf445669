//! Feed aggregation core: configuration, feed cache, dual-format parsing,
//! change-diffed archiving and the fetch dispatcher, with machine-checked
//! contracts.

pub mod digest;
pub mod dirs;
pub mod instance;
pub mod model;
pub mod number;
pub mod table;
pub mod text;
pub mod verbosity;
pub mod view;
