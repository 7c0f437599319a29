//! The commands that make things of the world.

use super::autocomplete::{autocomplete_phrase, autocomplete_phrase_spec, strings_view};
use crate::world::{
    all_building_types, all_species, building_word, parse_location_spec, parse_species_spec,
    species_word, BuildingType, LocationType, Species,
};
use crate::text::{chars_of, eq_lit, strs_view};
use vstd::prelude::*;

verus! {

/// A command that makes a location or a character.
#[derive(Clone, Copy, Debug, Eq, PartialEq, Structural)]
pub enum WorldCommand {
    Location { location_type: LocationType },
    Npc { species: Option<Species> },
}

/// What `raw` parses to: a species makes a character of that species, a location type a
/// location, and `npc` a character of any species.
pub open spec fn world_parse_spec(raw: Seq<char>) -> Option<WorldCommand> {
    if let Some(species) = parse_species_spec(raw) {
        Some(WorldCommand::Npc { species: Some(species) })
    } else if let Some(location_type) = parse_location_spec(raw) {
        Some(WorldCommand::Location { location_type })
    } else if raw == "npc"@ {
        Some(WorldCommand::Npc { species: None })
    } else {
        None
    }
}

/// The words that world commands are completed from: `npc`, `building`, the species and the
/// types of building, in that order.
pub open spec fn world_vocabulary() -> Seq<Seq<char>> {
    seq!["npc"@, "building"@] + all_species().map_values(|s: Species| species_word(s))
        + all_building_types().map_values(|b: BuildingType| building_word(b))
}

impl WorldCommand {
    /// The command that `raw` names, if any.
    pub fn parse(raw: &str) -> (r: Option<WorldCommand>)
        ensures
            r == world_parse_spec(raw@),
    {
        if let Some(species) = Species::parse(raw) {
            Some(WorldCommand::Npc { species: Some(species) })
        } else if let Some(location_type) = LocationType::parse(raw) {
            Some(WorldCommand::Location { location_type })
        } else if eq_lit(&chars_of(raw), "npc") {
            Some(WorldCommand::Npc { species: None })
        } else {
            None
        }
    }

    /// The words of the vocabulary that complete `input`.
    pub fn autocomplete(input: &str) -> (r: Vec<String>)
        ensures
            strings_view(r@) == autocomplete_phrase_spec(input@, world_vocabulary()),
    {
        let mut vocabulary: Vec<&'static str> = Vec::new();
        vocabulary.push("npc");
        vocabulary.push("building");
        let species = Species::get_words();
        let buildings = BuildingType::get_words();
        let mut i: usize = 0;
        while i < species.len()
            invariant
                i <= species@.len(),
                species@.len() == all_species().len(),
                forall|k: int|
                    0 <= k < species@.len() ==> #[trigger] species@[k]@ == species_word(
                        all_species()[k],
                    ),
                vocabulary@.len() == 2 + i,
                strs_view(vocabulary@) == seq!["npc"@, "building"@] + all_species().map_values(
                    |s: Species| species_word(s),
                ).take(i as int),
            decreases species.len() - i,
        {
            let ghost prev = strs_view(vocabulary@);
            let ghost m = all_species().map_values(|s: Species| species_word(s));
            vocabulary.push(species[i]);
            assert(strs_view(vocabulary@) =~= prev.push(species@[i as int]@));
            assert(m.take(i + 1) =~= m.take(i as int).push(m[i as int]));
            i = i + 1;
            assert(strs_view(vocabulary@) =~= seq!["npc"@, "building"@]
                + all_species().map_values(|s: Species| species_word(s)).take(i as int));
        }
        assert(all_species().map_values(|s: Species| species_word(s)).take(
            all_species().len() as int,
        ) =~= all_species().map_values(|s: Species| species_word(s)));
        let mut j: usize = 0;
        while j < buildings.len()
            invariant
                j <= buildings@.len(),
                buildings@.len() == all_building_types().len(),
                forall|k: int|
                    0 <= k < buildings@.len() ==> #[trigger] buildings@[k]@ == building_word(
                        all_building_types()[k],
                    ),
                strs_view(vocabulary@) == seq!["npc"@, "building"@] + all_species().map_values(
                    |s: Species| species_word(s),
                ) + all_building_types().map_values(|b: BuildingType| building_word(b)).take(
                    j as int,
                ),
            decreases buildings.len() - j,
        {
            let ghost prev = strs_view(vocabulary@);
            let ghost m = all_building_types().map_values(|b: BuildingType| building_word(b));
            vocabulary.push(buildings[j]);
            assert(strs_view(vocabulary@) =~= prev.push(buildings@[j as int]@));
            assert(m.take(j + 1) =~= m.take(j as int).push(m[j as int]));
            j = j + 1;
            assert(strs_view(vocabulary@) =~= seq!["npc"@, "building"@]
                + all_species().map_values(|s: Species| species_word(s))
                + all_building_types().map_values(|b: BuildingType| building_word(b)).take(
                j as int,
            ));
        }
        assert(all_building_types().map_values(|b: BuildingType| building_word(b)).take(
            all_building_types().len() as int,
        ) =~= all_building_types().map_values(|b: BuildingType| building_word(b)));
        assert(strs_view(vocabulary@) =~= world_vocabulary());
        autocomplete_phrase(input, vocabulary.as_slice())
    }
}

impl std::str::FromStr for WorldCommand {
    type Err = ();

    fn from_str(raw: &str) -> (r: Result<Self, ()>)
        ensures
            r == match world_parse_spec(raw@) {
                Some(c) => Ok::<WorldCommand, ()>(c),
                None => Err(()),
            },
    {
        match WorldCommand::parse(raw) {
            Some(c) => Ok(c),
            None => Err(()),
        }
    }
}

} // verus!
