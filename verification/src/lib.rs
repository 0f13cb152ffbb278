//! Command-line completion: spec loading and resolution, and the pure half of
//! the native suggestion providers.
use vstd::prelude::*;

pub mod encoding;
pub mod operation_laws;
pub mod providers;
pub mod script;
pub mod script_laws;
pub mod shell_runner;
pub mod sorting;
pub mod spec_dir_laws;
pub mod spec_dirs;
pub mod specs;
pub mod text;
pub mod text_laws;
pub mod text_map;
pub mod text_parts;
pub mod text_parts_laws;
pub mod types;

verus! {

} // verus!
