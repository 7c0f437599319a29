//! The kinds of things that the world is made of, as far as commands name them: the species of
//! characters and the types of places.

use crate::text::{chars_of, eq_lit};
use vstd::prelude::*;

verus! {

/// The species of a non-player character.
#[derive(Clone, Copy, Debug, Eq, PartialEq, Structural)]
pub enum Species {
    Dragonborn,
    Dwarf,
    Elf,
    Gnome,
    HalfElf,
    HalfOrc,
    Halfling,
    Human,
    Tiefling,
    Warforged,
}

/// The word that names a species.
pub open spec fn species_word(s: Species) -> Seq<char> {
    match s {
        Species::Dragonborn => "dragonborn"@,
        Species::Dwarf => "dwarf"@,
        Species::Elf => "elf"@,
        Species::Gnome => "gnome"@,
        Species::HalfElf => "half-elf"@,
        Species::HalfOrc => "half-orc"@,
        Species::Halfling => "halfling"@,
        Species::Human => "human"@,
        Species::Tiefling => "tiefling"@,
        Species::Warforged => "warforged"@,
    }
}

/// All species, in the order of their words.
pub open spec fn all_species() -> Seq<Species> {
    seq![
        Species::Dragonborn,
        Species::Dwarf,
        Species::Elf,
        Species::Gnome,
        Species::HalfElf,
        Species::HalfOrc,
        Species::Halfling,
        Species::Human,
        Species::Tiefling,
        Species::Warforged,
    ]
}

/// The species named by `s`, if any: the one whose word is exactly `s`.
pub open spec fn parse_species_spec(s: Seq<char>) -> Option<Species> {
    if exists|x: Species| species_word(x) == s {
        Some(choose|x: Species| species_word(x) == s)
    } else {
        None
    }
}

/// The words of species are pairwise different.
pub proof fn lemma_species_words_distinct(a: Species, b: Species)
    ensures
        species_word(a) == species_word(b) ==> a == b,
{
    if species_word(a) == species_word(b) {
        assert(word_key(species_word(a)) == word_key(species_word(b)));
        lemma_species_key(a);
        lemma_species_key(b);
    }
}

proof fn lemma_species_key(x: Species)
    ensures
        word_key(species_word(x)) == species_key(x),
{
    match x {
        Species::Dragonborn => reveal_strlit("dragonborn"),
        Species::Dwarf => reveal_strlit("dwarf"),
        Species::Elf => reveal_strlit("elf"),
        Species::Gnome => reveal_strlit("gnome"),
        Species::HalfElf => reveal_strlit("half-elf"),
        Species::HalfOrc => reveal_strlit("half-orc"),
        Species::Halfling => reveal_strlit("halfling"),
        Species::Human => reveal_strlit("human"),
        Species::Tiefling => reveal_strlit("tiefling"),
        Species::Warforged => reveal_strlit("warforged"),
    }
}

/// The length, the first character and the sixth character (or a space) of a word: enough to
/// tell the words of this module apart.
spec fn word_key(s: Seq<char>) -> (nat, char, char) {
    (s.len(), s[0], if s.len() > 5 { s[5] } else { ' ' })
}

/// The key of each species' word, written out.
spec fn species_key(s: Species) -> (nat, char, char) {
    match s {
        Species::Dragonborn => (10, 'd', 'n'),
        Species::Dwarf => (5, 'd', ' '),
        Species::Elf => (3, 'e', ' '),
        Species::Gnome => (5, 'g', ' '),
        Species::HalfElf => (8, 'h', 'e'),
        Species::HalfOrc => (8, 'h', 'o'),
        Species::Halfling => (8, 'h', 'i'),
        Species::Human => (5, 'h', ' '),
        Species::Tiefling => (8, 't', 'i'),
        Species::Warforged => (9, 'w', 'r'),
    }
}

/// The word of a species parses back to that species.
pub proof fn lemma_species_word_parses(x: Species)
    ensures
        parse_species_spec(species_word(x)) == Some(x),
{
    let y = choose|y: Species| species_word(y) == species_word(x);
    lemma_species_words_distinct(x, y);
}

impl Species {
    /// The word that names this species.
    pub fn word(&self) -> (r: &'static str)
        ensures
            r@ == species_word(*self),
    {
        match self {
            Species::Dragonborn => "dragonborn",
            Species::Dwarf => "dwarf",
            Species::Elf => "elf",
            Species::Gnome => "gnome",
            Species::HalfElf => "half-elf",
            Species::HalfOrc => "half-orc",
            Species::Halfling => "halfling",
            Species::Human => "human",
            Species::Tiefling => "tiefling",
            Species::Warforged => "warforged",
        }
    }

    /// The words of all species, in order.
    pub fn get_words() -> (r: Vec<&'static str>)
        ensures
            r@.len() == all_species().len(),
            forall|i: int| 0 <= i < r@.len() ==> #[trigger] r@[i]@ == species_word(all_species()[i]),
    {
        let all = [
            Species::Dragonborn,
            Species::Dwarf,
            Species::Elf,
            Species::Gnome,
            Species::HalfElf,
            Species::HalfOrc,
            Species::Halfling,
            Species::Human,
            Species::Tiefling,
            Species::Warforged,
        ];
        assert(all@ == all_species());
        let mut r: Vec<&'static str> = Vec::new();
        let mut i: usize = 0;
        while i < all.len()
            invariant
                all@ == all_species(),
                i <= all@.len(),
                r@.len() == i,
                forall|j: int| 0 <= j < i ==> #[trigger] r@[j]@ == species_word(all_species()[j]),
            decreases all.len() - i,
        {
            r.push(all[i].word());
            i = i + 1;
        }
        r
    }

    /// The species whose word is `raw`, if any.
    pub fn parse(raw: &str) -> (r: Option<Species>)
        ensures
            r == parse_species_spec(raw@),
    {
        let s = chars_of(raw);
        let all = [
            Species::Dragonborn,
            Species::Dwarf,
            Species::Elf,
            Species::Gnome,
            Species::HalfElf,
            Species::HalfOrc,
            Species::Halfling,
            Species::Human,
            Species::Tiefling,
            Species::Warforged,
        ];
        let mut i: usize = 0;
        while i < all.len()
            invariant
                s@ == raw@,
                i <= all@.len(),
                all@ == all_species(),
                forall|j: int| 0 <= j < i ==> species_word(#[trigger] all_species()[j]) != raw@,
            decreases all.len() - i,
        {
            let x = all[i];
            if eq_lit(&s, x.word()) {
                proof {
                    lemma_species_word_parses(x);
                }
                return Some(x);
            }
            i = i + 1;
        }
        proof {
            assert forall|x: Species| species_word(x) != raw@ by {
                match x {
                    Species::Dragonborn => assert(all_species()[0] == x),
                    Species::Dwarf => assert(all_species()[1] == x),
                    Species::Elf => assert(all_species()[2] == x),
                    Species::Gnome => assert(all_species()[3] == x),
                    Species::HalfElf => assert(all_species()[4] == x),
                    Species::HalfOrc => assert(all_species()[5] == x),
                    Species::Halfling => assert(all_species()[6] == x),
                    Species::Human => assert(all_species()[7] == x),
                    Species::Tiefling => assert(all_species()[8] == x),
                    Species::Warforged => assert(all_species()[9] == x),
                }
            }
        }
        None
    }
}

impl std::str::FromStr for Species {
    type Err = ();

    fn from_str(raw: &str) -> (r: Result<Self, ()>)
        ensures
            r == match parse_species_spec(raw@) {
                Some(s) => Ok::<Species, ()>(s),
                None => Err(()),
            },
    {
        match Species::parse(raw) {
            Some(s) => Ok(s),
            None => Err(()),
        }
    }
}

/// The type of a building.
#[derive(Clone, Copy, Debug, Eq, PartialEq, Structural)]
pub enum BuildingType {
    Inn,
    Residence,
    Shop,
    Temple,
    Warehouse,
}

/// The word that names a type of building.
pub open spec fn building_word(b: BuildingType) -> Seq<char> {
    match b {
        BuildingType::Inn => "inn"@,
        BuildingType::Residence => "residence"@,
        BuildingType::Shop => "shop"@,
        BuildingType::Temple => "temple"@,
        BuildingType::Warehouse => "warehouse"@,
    }
}

/// All types of building, in the order of their words.
pub open spec fn all_building_types() -> Seq<BuildingType> {
    seq![
        BuildingType::Inn,
        BuildingType::Residence,
        BuildingType::Shop,
        BuildingType::Temple,
        BuildingType::Warehouse,
    ]
}

/// The type of building named by `s`, if any.
pub open spec fn parse_building_spec(s: Seq<char>) -> Option<BuildingType> {
    if exists|x: BuildingType| building_word(x) == s {
        Some(choose|x: BuildingType| building_word(x) == s)
    } else {
        None
    }
}

/// The words of building types are pairwise different.
pub proof fn lemma_building_words_distinct(a: BuildingType, b: BuildingType)
    ensures
        building_word(a) == building_word(b) ==> a == b,
{
    reveal_strlit("inn");
    reveal_strlit("residence");
    reveal_strlit("shop");
    reveal_strlit("temple");
    reveal_strlit("warehouse");
    if building_word(a) == building_word(b) {
        assert(building_word(a).len() == building_word(b).len());
        assert(building_word(a)[0] == building_word(b)[0]);
    }
}

/// The word of a building type parses back to that type.
pub proof fn lemma_building_word_parses(x: BuildingType)
    ensures
        parse_building_spec(building_word(x)) == Some(x),
{
    let y = choose|y: BuildingType| building_word(y) == building_word(x);
    lemma_building_words_distinct(x, y);
}

impl BuildingType {
    /// The word that names this type of building.
    pub fn word(&self) -> (r: &'static str)
        ensures
            r@ == building_word(*self),
    {
        match self {
            BuildingType::Inn => "inn",
            BuildingType::Residence => "residence",
            BuildingType::Shop => "shop",
            BuildingType::Temple => "temple",
            BuildingType::Warehouse => "warehouse",
        }
    }

    /// The words of all building types, in order.
    pub fn get_words() -> (r: Vec<&'static str>)
        ensures
            r@.len() == all_building_types().len(),
            forall|i: int|
                0 <= i < r@.len() ==> #[trigger] r@[i]@ == building_word(all_building_types()[i]),
    {
        let all = [
            BuildingType::Inn,
            BuildingType::Residence,
            BuildingType::Shop,
            BuildingType::Temple,
            BuildingType::Warehouse,
        ];
        assert(all@ == all_building_types());
        let mut r: Vec<&'static str> = Vec::new();
        let mut i: usize = 0;
        while i < all.len()
            invariant
                all@ == all_building_types(),
                i <= all@.len(),
                r@.len() == i,
                forall|j: int|
                    0 <= j < i ==> #[trigger] r@[j]@ == building_word(all_building_types()[j]),
            decreases all.len() - i,
        {
            r.push(all[i].word());
            i = i + 1;
        }
        r
    }

    /// The type of building whose word is `raw`, if any.
    pub fn parse(raw: &str) -> (r: Option<BuildingType>)
        ensures
            r == parse_building_spec(raw@),
    {
        let s = chars_of(raw);
        let all = [
            BuildingType::Inn,
            BuildingType::Residence,
            BuildingType::Shop,
            BuildingType::Temple,
            BuildingType::Warehouse,
        ];
        let mut i: usize = 0;
        while i < all.len()
            invariant
                s@ == raw@,
                i <= all@.len(),
                all@ == all_building_types(),
                forall|j: int|
                    0 <= j < i ==> building_word(#[trigger] all_building_types()[j]) != raw@,
            decreases all.len() - i,
        {
            let x = all[i];
            if eq_lit(&s, x.word()) {
                proof {
                    lemma_building_word_parses(x);
                }
                return Some(x);
            }
            i = i + 1;
        }
        proof {
            assert forall|x: BuildingType| building_word(x) != raw@ by {
                match x {
                    BuildingType::Inn => assert(all_building_types()[0] == x),
                    BuildingType::Residence => assert(all_building_types()[1] == x),
                    BuildingType::Shop => assert(all_building_types()[2] == x),
                    BuildingType::Temple => assert(all_building_types()[3] == x),
                    BuildingType::Warehouse => assert(all_building_types()[4] == x),
                }
            }
        }
        None
    }
}

/// The type of a location: a building, of a given type or of any.
#[derive(Clone, Copy, Debug, Eq, PartialEq, Structural)]
pub enum LocationType {
    Building(Option<BuildingType>),
}

/// The location type named by `s`: `building`, or the word of a building type.
pub open spec fn parse_location_spec(s: Seq<char>) -> Option<LocationType> {
    if s == "building"@ {
        Some(LocationType::Building(None))
    } else if let Some(b) = parse_building_spec(s) {
        Some(LocationType::Building(Some(b)))
    } else {
        None
    }
}

impl LocationType {
    /// The location type named by `raw`, if any.
    pub fn parse(raw: &str) -> (r: Option<LocationType>)
        ensures
            r == parse_location_spec(raw@),
    {
        let s = chars_of(raw);
        if eq_lit(&s, "building") {
            Some(LocationType::Building(None))
        } else {
            match BuildingType::parse(raw) {
                Some(b) => Some(LocationType::Building(Some(b))),
                None => None,
            }
        }
    }
}

} // verus!
