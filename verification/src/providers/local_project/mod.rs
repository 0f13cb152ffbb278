//! Providers that read the files of the project around the current directory.
pub mod cargo_workspace;
pub mod cargo_workspace_laws;
pub mod fifo;
pub mod makefile;
pub mod makefile_laws;
pub mod mtime_cache;
pub mod npm_scripts;
