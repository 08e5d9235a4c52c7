//! Decision core of a process-freezing daemon.

pub mod analyze;
pub mod analyze_laws;
pub mod bytes;
pub mod capability;
pub mod command_laws;
pub mod config;
pub mod daemon_laws;
pub mod device_laws;
pub mod dex;
pub mod dex_laws;
pub mod engine;
pub mod engine_admin;
pub mod engine_course;
pub mod engine_discards;
pub mod engine_effects;
pub mod engine_guards;
pub mod engine_laws;
pub mod engine_ops;
pub mod engine_rules;
pub mod engine_settings;
pub mod engine_state;
pub mod engine_tick;
pub mod events;
pub mod freezer;
pub mod json;
pub mod lists;
pub mod log_laws;
pub mod logging;
pub mod names;
pub mod network;
pub mod network_laws;
pub mod order;
pub mod paths;
pub mod pids;
pub mod policy;
pub mod policy_file;
pub mod policy_laws;
pub mod preset;
pub mod profile;
pub mod profile_laws;
pub mod protocol;
pub mod report_laws;
pub mod rule_laws;
pub mod rules;
pub mod session;
pub mod sock;
pub mod sock_admin;
pub mod sock_event;
pub mod sock_reports;
pub mod state;
pub mod text;
pub mod toml;
pub mod toml_laws;
pub mod value_laws;
pub mod word_laws;
