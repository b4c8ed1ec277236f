//! The command line: configuration, commands, plans, approvals and what is shown.
pub mod app;
pub mod approval;
pub mod approval_laws;
pub mod cards;
pub mod command_laws;
pub mod commands;
pub mod config;
pub mod intent;
pub mod main_loop;
pub mod outline;
pub mod plan;
pub mod plan_laws;
pub mod prompt_laws;
pub mod screen_laws;
pub mod sessions;
pub mod settings_laws;
pub mod startup;
pub mod startup_laws;
pub mod style;
pub mod suggestions;
pub mod turn;
pub mod turn_ui;
pub mod width;
