//! Session, power, GPU and monitor-profile logic of a Hyprland state daemon.
pub mod text;
pub mod number;
pub mod fsm;
pub mod profiles;
pub mod toml_profile;
pub mod power;
pub mod gpu;
pub mod hypridle_log;
pub mod json;
pub mod hyprctl;
pub mod order;
pub mod sysfs;
pub mod hypr_instance;
pub mod ctx;
pub mod event;
pub mod power_policy;
pub mod gpu_drift;
pub mod effectors;
pub mod tasks;
pub mod main_flow;
pub mod profile_flow;
pub mod power_flow;
pub mod gpu_flow;
pub mod reconcile;
pub mod dispatcher;
pub mod progress;
pub mod safety;
pub mod policy_run;
pub mod laws;
pub mod telemetry;
pub mod sources;
pub mod startup;
pub mod gpu_state;
pub mod handoffs;
pub mod knobs;
pub mod powerd;
pub mod sleep_hook;
pub mod power_cli;
pub mod gpu_cli;
pub mod suspend;
pub mod paths;
pub mod profile_store;
pub mod profile_cli;
pub mod profile_command;
pub mod profile_toml;
pub mod profile_verify;
