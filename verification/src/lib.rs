//! Verified core of a Telegram chat exporter that reproduces Telegram
//! Desktop's export format.

pub mod format;
pub mod gui;
pub mod html;
pub mod media;
pub mod strings;
