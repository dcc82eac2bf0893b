//! Git repository manager: listfile parsing, configuration and repository planning.
pub mod text;
pub mod listfile;
pub mod listfile_laws;
pub mod config;
pub mod trusted;
pub mod invoke;
pub mod repository;
pub mod plan;
