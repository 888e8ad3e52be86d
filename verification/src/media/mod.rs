//! Media naming, folder layout and stripped thumbnails.

pub mod jpeg_header;
pub mod names;
pub mod stripped;
pub mod topics;
