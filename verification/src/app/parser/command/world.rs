//! The commands that make things of the world, recognised by a noun.

use super::{first_noun, RawCommand, RawCommandView};
use crate::app::parser::syntax::noun::noun_species;
use crate::app::parser::syntax::Noun;
use crate::world::Species;
use vstd::prelude::*;

verus! {

/// A command that makes a location (with the raw command it was recognised from) or a
/// character.
#[derive(Debug)]
pub enum WorldCommand {
    Location(RawCommand),
    Npc { species: Option<Species> },
}

/// The value of a [`WorldCommand`].
pub enum WorldCommandView {
    Location(RawCommandView),
    Npc(Option<Species>),
}

/// Whether a noun names a location.
pub open spec fn names_location(n: Noun) -> bool {
    match n {
        Noun::Building | Noun::Inn | Noun::Residence | Noun::Shop | Noun::Temple
        | Noun::Warehouse => true,
        _ => false,
    }
}

/// The command of the world that the first noun of `raw` names: a location for a building or a
/// type of building, a character for `npc` or a species.
pub open spec fn world_command_of(raw: RawCommandView) -> Option<WorldCommandView> {
    match first_noun(raw.words) {
        Some(n) => if names_location(n) {
            Some(WorldCommandView::Location(raw))
        } else if n == Noun::Npc {
            Some(WorldCommandView::Npc(None))
        } else if let Some(s) = noun_species(n) {
            Some(WorldCommandView::Npc(Some(s)))
        } else {
            None
        },
        None => None,
    }
}

impl WorldCommand {
    /// The value of this command.
    pub open spec fn view_of(&self) -> WorldCommandView {
        match self {
            WorldCommand::Location(r) => WorldCommandView::Location(r@),
            WorldCommand::Npc { species } => WorldCommandView::Npc(*species),
        }
    }

    /// The command that the first noun of `raw` names, or `raw` given back where it names none.
    pub fn try_from_raw(raw: RawCommand) -> (r: Result<WorldCommand, RawCommand>)
        ensures
            match r {
                Ok(c) => world_command_of(raw@) == Some(c.view_of()),
                Err(u) => world_command_of(raw@) is None && u@ == raw@,
            },
    {
        let noun = match raw.get_noun() {
            Some(n) => Some(*n),
            None => None,
        };
        if let Some(noun) = noun {
            match noun {
                Noun::Building | Noun::Inn | Noun::Residence | Noun::Shop | Noun::Temple
                | Noun::Warehouse => {
                    return Ok(WorldCommand::Location(raw));
                },
                Noun::Npc => {
                    return Ok(WorldCommand::Npc { species: None });
                },
                _ => {},
            }
            if let Some(species) = noun.species() {
                return Ok(WorldCommand::Npc { species: Some(species) });
            }
        }
        Err(raw)
    }
}

} // verus!
