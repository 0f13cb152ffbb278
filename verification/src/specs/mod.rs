//! Completion specs: the declared tree, its checks, and how a command line is
//! resolved against it.
pub mod alias_index;
pub mod diagnostic_laws;
pub mod guard;
pub mod guard_laws;
pub mod heap;
pub mod heap_field_laws;
pub mod heap_laws;
pub mod loading;
pub mod loading_laws;
pub mod lookup_laws;
pub mod model;
pub mod nesting_laws;
pub mod parsing;
pub mod report_laws;
pub mod resolve;
pub mod resolve_laws;
pub mod store;
pub mod store_laws;
pub mod suggestion_laws;
pub mod tree;
pub mod validate;
pub mod validate_laws;
pub mod walk_laws;
