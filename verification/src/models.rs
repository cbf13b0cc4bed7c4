//! The rows of the catalog and the small value types around them.

pub mod enums;
pub mod filter;
pub mod image_entry;
pub mod image_tag;
pub mod page;
pub mod tag;
pub mod tag_color;
pub mod toast;
