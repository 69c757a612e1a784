//! Core of a parallel recursive crawler for the virtual folders of media plugins.

pub mod text;
pub mod user_config;
pub mod encoding;
pub mod access;
pub mod data;
pub mod argument;
pub mod report;
pub mod scheduler;
pub mod resolver;
pub mod getlink;
pub mod setting;
pub mod visitors;
pub mod format;
