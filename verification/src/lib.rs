//! Trace and log configuration for the dbt command line, and the pieces of its test harness.

pub mod command;
pub mod config;
pub mod config_laws;
pub mod error;
pub mod feature;
pub mod feature_handles;
pub mod file_walk;
pub mod harness_laws;
pub mod init;
pub mod init_laws;
pub mod layer_laws;
pub mod layers;
pub mod level;
pub mod name_laws;
pub mod normalize;
pub mod normalize_laws;
pub mod outcome_laws;
pub mod outside;
pub mod path;
pub mod path_laws;
pub mod patterns;
pub mod platform;
pub mod platform_laws;
pub mod record;
pub mod task_laws;
pub mod task_run;
pub mod task_seq;
pub mod text;
pub mod text_laws;
pub mod utils;
pub mod volume_laws;
pub mod warn_error_options;
