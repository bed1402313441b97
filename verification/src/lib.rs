//! Turns the comments of a discussion thread into the Markdown announcement
//! of a recurring meetup.

pub mod config;
pub mod entry;
pub mod error;
pub mod github;
pub mod link;
pub mod post;
pub mod render;
pub mod text;
