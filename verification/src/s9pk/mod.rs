//! The packaged archive: its manifest and its binary layout.

pub mod builder;
pub mod header;
pub mod manifest;
pub mod reader;
