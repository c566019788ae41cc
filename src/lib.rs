//! Maintenance of a personal knowledge base of Markdown notes: the metadata block
//! of a note, the renaming of attachments, and the outcome of batch operations.
pub mod apod;
pub mod application;
pub mod calendar;
pub mod config;
pub mod error;
pub mod front_matter;
pub mod metadata;
pub mod operations;
pub mod path;
pub mod pipeline;
pub mod rename;
pub mod template;
pub mod text;
pub mod twir;
pub mod yaml;
