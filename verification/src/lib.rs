//! A library for loading and validating declarative project description
//! files: JSON documents that map a top-level name and a hierarchy of
//! named nodes onto a future instance tree. The loader locates such a
//! file from a filesystem path, parses it against a closed schema, and
//! surfaces reserved-name diagnostics beside the parsed project.

pub mod json;
pub mod paths;
pub mod project;
pub mod text;
pub mod web_ui;
