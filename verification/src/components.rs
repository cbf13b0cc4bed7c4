//! The state of the parts of the screen, without their looks.

pub mod navbar;
pub mod pagination;
pub mod tag_selector;
pub mod toast_view;
