//! The logic of the commands: reading their arguments and computing their output.
pub mod kv_args;
pub mod monitor_args;
pub mod run_args;
pub mod kv_report;
pub mod vm_stat;
pub mod config;
pub mod run_plan;
pub mod monitor_plan;
pub mod dispatch;
