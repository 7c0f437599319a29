//! The commands of the application, recognised by their verb.

use super::{first_verb, RawCommand, RawCommandView};
use crate::app::parser::syntax::Verb;
use vstd::prelude::*;

verus! {

/// A command of the application, with the raw command it was recognised from.
#[derive(Debug)]
pub enum AppCommand {
    Debug(RawCommand),
    Help(RawCommand),
    Quit(RawCommand),
}

/// Which command of the application a command is.
#[derive(Clone, Copy, Debug, Eq, PartialEq, Structural)]
pub enum AppCommandKind {
    Debug,
    Help,
    Quit,
}

/// The command of the application that a verb names, if any.
pub open spec fn app_command_kind(v: Option<Verb>) -> Option<AppCommandKind> {
    match v {
        Some(Verb::Debug) => Some(AppCommandKind::Debug),
        Some(Verb::Help) => Some(AppCommandKind::Help),
        Some(Verb::Quit) => Some(AppCommandKind::Quit),
        _ => None,
    }
}

impl AppCommand {
    /// Which command this is.
    pub open spec fn kind_of(&self) -> AppCommandKind {
        match self {
            AppCommand::Debug(_) => AppCommandKind::Debug,
            AppCommand::Help(_) => AppCommandKind::Help,
            AppCommand::Quit(_) => AppCommandKind::Quit,
        }
    }

    /// The raw command that this was recognised from.
    pub open spec fn raw_view(&self) -> RawCommandView {
        match self {
            AppCommand::Debug(r) => r@,
            AppCommand::Help(r) => r@,
            AppCommand::Quit(r) => r@,
        }
    }

    /// The command of the application that the first verb of `raw` names, or `raw` given back
    /// where it names none.
    pub fn try_from_raw(raw: RawCommand) -> (r: Result<AppCommand, RawCommand>)
        ensures
            match r {
                Ok(c) => app_command_kind(first_verb(raw@.words)) == Some(c.kind_of())
                    && c.raw_view() == raw@,
                Err(u) => app_command_kind(first_verb(raw@.words)) is None && u@ == raw@,
            },
    {
        let verb = match raw.get_verb() {
            Some(v) => Some(*v),
            None => None,
        };
        match verb {
            Some(Verb::Debug) => Ok(AppCommand::Debug(raw)),
            Some(Verb::Help) => Ok(AppCommand::Help(raw)),
            Some(Verb::Quit) => Ok(AppCommand::Quit(raw)),
            _ => Err(raw),
        }
    }
}

} // verus!
