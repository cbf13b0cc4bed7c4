//! Enumerations shared by the services.

pub mod image_format;
pub mod image_type;
