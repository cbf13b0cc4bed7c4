//! Flat views of catalog entities, as handed to a presentation layer.

pub mod image_dto;
pub mod tag_dto;
