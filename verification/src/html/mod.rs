//! Desktop's HTML pages: escaping, the tag tree, page chrome and sizing.

pub mod escape;
pub mod index;
pub mod inline;
pub mod join;
pub mod media;
pub mod page;
pub mod poll;
pub mod preview;
pub mod reactions;
pub mod service;
pub mod tree;
pub mod userpic;
pub mod writer;
