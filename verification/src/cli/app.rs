//! The program: its arguments, its configuration, and its loop.
use vstd::prelude::*;
use crate::cli::config::{AppConfig, AppConfigView};
use crate::cli::intent::{event_action, next_action, LoopAction, LoopEvent};

verus! {

/// What the program is asked to do.
#[derive(Debug, Clone, Copy, PartialEq, Eq, Structural)]
pub enum Commands {
    /// Start the main loop.
    Run,
    /// Show the configuration that is in effect.
    Config,
}

/// The arguments of the program.
#[derive(Debug, PartialEq, Eq)]
pub struct Cli {
    /// The configuration file, if one is named.
    pub config: Option<String>,
    /// What to do, if it is said.
    pub command: Option<Commands>,
}

impl Cli {
    /// What to do: without a command, the main loop is started.
    pub fn command_or_run(&self) -> (r: Commands)
        ensures
            r == match self.command {
                Some(command) => command,
                None => Commands::Run,
            },
    {
        match self.command {
            Some(command) => command,
            None => Commands::Run,
        }
    }
}

/// The program with its configuration.
#[derive(Debug)]
pub struct App {
    config: AppConfig,
}

impl View for App {
    type V = AppConfigView;

    closed spec fn view(&self) -> AppConfigView {
        self.config@
    }
}

impl App {
    /// The program with a configuration.
    pub fn new(config: AppConfig) -> (r: Self)
        ensures
            r@ == config@,
    {
        App { config }
    }

    /// The configuration.
    pub fn config(&self) -> (r: &AppConfig)
        ensures
            r@ == self@,
    {
        &self.config
    }

    /// One round of the main loop: what is done with what came in at the prompt.
    pub fn run(&self, event: LoopEvent) -> (r: LoopAction)
        ensures
            r@ == event_action(event@),
    {
        next_action(event)
    }
}

} // verus!
