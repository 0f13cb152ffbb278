//! Native providers: the parts that read command output and decide what to
//! suggest.
pub mod ansible_doc;
pub mod arduino_cli;
pub mod aws_laws;
pub mod aws_profile_names;
pub mod aws_sdk;
pub mod brew;
pub mod brew_laws;
pub mod cache_laws;
pub mod cargo_metadata;
pub mod context;
pub mod dispatch;
pub mod docker;
pub mod docker_laws;
pub mod dscl_principals;
pub mod keyed_cache;
pub mod kind;
pub mod kubectl;
pub mod kubectl_laws;
pub mod listing;
pub mod listing_operation_laws;
pub mod local_project;
pub mod macos_apps;
pub mod macos_defaults;
pub mod macos_laws;
pub mod mamba;
pub mod multipass;
pub mod npm_local;
pub mod package_laws;
pub mod pandoc;
pub mod path_laws;
pub mod paths;
pub mod systemd_laws;
pub mod systemd_units;
pub mod tmux_state;
pub mod tool_laws;
pub mod util;
pub mod version_laws;
pub mod version_probe;
