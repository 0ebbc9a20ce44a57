//! A hot-reloading text resource cache.
//!
//! Resources are named by keys ([`key::ResourceKey`]), loaded once, cached by
//! key and reloaded in place when the file behind a path key changes. The
//! cache's decisions are made here; reading files and watching them is left
//! to the caller, who hands the outcomes back as plain values.
pub mod error;
pub mod key;
pub mod laws;
pub mod store;
pub mod text;
