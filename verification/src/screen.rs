//! What the screens do when the user acts: the steps of registering,
//! updating, searching and deleting, without the drawing.

pub mod preferences;
pub mod register;
pub mod search;
pub mod update;
