//! The command line as plain values: the options and the command, and what
//! an invocation amounts to once the options are validated.

use crate::actions::{
    add_outcome, delete_outcome, display_outcome, list_outcome, ActionEnvironment, RealEnvironment,
};
use crate::error::CalError;
use crate::listing::OutputFormat;
use crate::provider::{canonical, option_text, resolve, Provider, ProviderView};
use vstd::prelude::*;

verus! {

/// Which months `display` shows.
#[derive(Copy, Clone, PartialEq, Eq, Debug, Structural)]
pub enum Mode {
    /// The month before, the current month and the month after.
    Q,
    /// The current month.
    Month,
    /// The twelve months of the current year.
    Year,
}

/// A command of the tool.
#[derive(Copy, Clone, PartialEq, Eq, Debug, Structural)]
pub enum Commands {
    /// Adds a custom holiday on a day of the current year.
    Add { day: u32, month: u32 },
    /// Deletes the holiday on a day of the current year.
    Delete { day: u32, month: u32 },
    /// Lists the holidays of the current year.
    List { format: Option<OutputFormat> },
    /// Shows the calendar.
    Display { mode: Option<Mode> },
}

/// The arguments of one invocation.
#[derive(Debug)]
pub struct Args {
    /// The country whose holidays are wanted, if one was given.
    pub country: Option<String>,
    /// The command, if one was given.
    pub action: Option<Commands>,
}

/// A command with nothing left open.
#[derive(Copy, Clone, PartialEq, Eq, Debug, Structural)]
pub enum Action {
    /// Add a custom holiday on a day of the current year.
    Add { day: u32, month: u32 },
    /// Delete the holiday on a day of the current year.
    Delete { day: u32, month: u32 },
    /// List the holidays of the current year in a format.
    List { format: OutputFormat },
    /// Show the calendar in a mode.
    Display { mode: Mode },
}

/// What an invocation asks for: the command given, with the quarter as
/// the mode and plain lines as the format where none is given; and the
/// calendar of the quarter where no command is given.
pub open spec fn action_of(action: Option<Commands>) -> Action {
    match action {
        Some(Commands::Add { day, month }) => Action::Add { day, month },
        Some(Commands::Delete { day, month }) => Action::Delete { day, month },
        Some(Commands::List { format: Some(format) }) => Action::List { format },
        Some(Commands::List { format: None }) => Action::List { format: OutputFormat::Table },
        Some(Commands::Display { mode: Some(mode) }) => Action::Display { mode },
        Some(Commands::Display { mode: None }) => Action::Display { mode: Mode::Q },
        None => Action::Display { mode: Mode::Q },
    }
}

/// `done` is what comes of running an action in `env`: what comes of the
/// command that the action names, with the action's day and month, format
/// or mode.
pub open spec fn dispatch_outcome<E: ActionEnvironment>(
    action: Action,
    env: &E,
    done: Result<(), CalError>,
) -> bool {
    match action {
        Action::Add { day, month } => add_outcome(env, (day, month), done),
        Action::Delete { day, month } => delete_outcome(env, (day, month), done),
        Action::List { format } => list_outcome(env, format, done),
        Action::Display { mode } => display_outcome(env, mode, done),
    }
}

impl Args {
    /// What this invocation asks for.
    pub fn requested(&self) -> (action: Action)
        ensures
            action == action_of(self.action),
    {
        match self.action {
            Some(Commands::Add { day, month }) => Action::Add { day, month },
            Some(Commands::Delete { day, month }) => Action::Delete { day, month },
            Some(Commands::List { format: Some(format) }) => Action::List { format },
            Some(Commands::List { format: None }) => Action::List { format: OutputFormat::Table },
            Some(Commands::Display { mode: Some(mode) }) => Action::Display { mode },
            Some(Commands::Display { mode: None }) => Action::Display { mode: Mode::Q },
            None => Action::Display { mode: Mode::Q },
        }
    }

    /// Validates the options, before anything is read or fetched: the
    /// settings of the environment in which the command is to run.
    ///
    /// Fails with `Config` where the country is not a valid code.
    pub fn invoke(&self) -> (out: Result<RealEnvironment, CalError>)
        ensures
            match out {
                Ok(env) => resolve(option_text(self.country)) == Ok::<ProviderView, Seq<char>>(
                    env.provider_view(),
                ) && canonical(env.provider_view()),
                Err(e) => e is Config && resolve(option_text(self.country)) == Err::<
                    ProviderView,
                    Seq<char>,
                >(e->Config_0@),
            },
    {
        let country = match &self.country {
            Some(text) => Some(text.clone()),
            None => None,
        };
        match Provider::from_country(country) {
            Ok(provider) => Ok(RealEnvironment::new(provider)),
            Err(e) => Err(e),
        }
    }

    /// Runs what this invocation asks for in an environment.
    pub fn dispatch<E: ActionEnvironment>(&self, env: &E) -> (done: Result<(), CalError>)
        ensures
            dispatch_outcome(action_of(self.action), env, done),
    {
        match self.requested() {
            Action::Delete { day, month } => crate::actions::delete(env, day, month),
            Action::Add { day, month } => crate::actions::add(env, day, month),
            Action::Display { mode } => crate::actions::display(env, mode),
            Action::List { format } => crate::actions::list(env, format),
        }
    }
}

} // verus!
