//! A local-first image catalog: intake of images and folders, thumbnails, tags,
//! filtered and paged search, and deletion of stored artifacts, stated over
//! plain values and proved.

pub mod components;
pub mod config;
pub mod dtos;
pub mod models;
pub mod screen;
pub mod seqs;
pub mod services;
pub mod text;
pub mod utils;
