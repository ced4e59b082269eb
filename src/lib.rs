//! A content-addressed loader for code blobs in a fixed-capacity arena, with
//! symbol lookup in the loaded image's export table.

pub mod error;
pub mod library;
pub mod loader;
pub mod laws;
