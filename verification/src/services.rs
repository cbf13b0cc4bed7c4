//! The operations of the catalog and of its store of files.

pub mod catalog;
pub mod clipboard_service;
pub mod codecs;
pub mod file_service;
pub mod image_processor;
pub mod image_service;
pub mod invariants;
pub mod natural_order;
pub mod tag_service;
pub mod thumbnail_service;
pub mod toast_service;
