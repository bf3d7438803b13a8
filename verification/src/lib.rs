//! Directory-scoped image tags: validation, the line format of the tag file,
//! the in-memory tag store and the resolution of dropped paths to image files.

pub mod codec;
pub mod drop_state;
pub mod error;
pub mod file_info;
pub mod image;
pub mod path;
pub mod service;
pub mod store;
pub mod string_map;
pub mod tag_map;
pub mod text;
pub mod validate;
