//! The nouns of the command language.

use crate::text::{find_word, index_in, lemma_index_in, strs_view};
use crate::world::Species;
use vstd::prelude::*;

verus! {

/// A noun: a word that names a kind of thing.
#[derive(Clone, Copy, Debug, Eq, PartialEq, Structural)]
pub enum Noun {
    Building,
    Dragonborn,
    Dwarf,
    Elf,
    Gnome,
    HalfElf,
    HalfOrc,
    Halfling,
    Human,
    Inn,
    Npc,
    Residence,
    Shop,
    Temple,
    Tiefling,
    Warehouse,
    Warforged,
}

/// All nouns, in the order of their words.
pub open spec fn all_nouns() -> Seq<Noun> {
    seq![
        Noun::Building,
        Noun::Dragonborn,
        Noun::Dwarf,
        Noun::Elf,
        Noun::Gnome,
        Noun::HalfElf,
        Noun::HalfOrc,
        Noun::Halfling,
        Noun::Human,
        Noun::Inn,
        Noun::Npc,
        Noun::Residence,
        Noun::Shop,
        Noun::Temple,
        Noun::Tiefling,
        Noun::Warehouse,
        Noun::Warforged,
    ]
}

/// The word of a noun; a noun of two words is written with a space between them.
pub open spec fn noun_word(n: Noun) -> Seq<char> {
    match n {
        Noun::Building => "building"@,
        Noun::Dragonborn => "dragonborn"@,
        Noun::Dwarf => "dwarf"@,
        Noun::Elf => "elf"@,
        Noun::Gnome => "gnome"@,
        Noun::HalfElf => "half elf"@,
        Noun::HalfOrc => "half orc"@,
        Noun::Halfling => "halfling"@,
        Noun::Human => "human"@,
        Noun::Inn => "inn"@,
        Noun::Npc => "npc"@,
        Noun::Residence => "residence"@,
        Noun::Shop => "shop"@,
        Noun::Temple => "temple"@,
        Noun::Tiefling => "tiefling"@,
        Noun::Warehouse => "warehouse"@,
        Noun::Warforged => "warforged"@,
    }
}

/// The words of all nouns, in order.
pub open spec fn noun_words() -> Seq<Seq<char>> {
    all_nouns().map_values(|n: Noun| noun_word(n))
}

/// The noun whose word is exactly `s`, if any.
pub open spec fn noun_parse_spec(s: Seq<char>) -> Option<Noun> {
    match index_in(noun_words(), s) {
        Some(k) => Some(all_nouns()[k]),
        None => None,
    }
}

/// The length, the first character and the sixth character (or a space) of a word: enough to
/// tell the nouns apart.
spec fn word_key(s: Seq<char>) -> (nat, char, char) {
    (s.len(), s[0], if s.len() > 5 { s[5] } else { ' ' })
}

/// The key of each noun's word, written out.
spec fn noun_key(n: Noun) -> (nat, char, char) {
    match n {
        Noun::Building => (8, 'b', 'i'),
        Noun::Dragonborn => (10, 'd', 'n'),
        Noun::Dwarf => (5, 'd', ' '),
        Noun::Elf => (3, 'e', ' '),
        Noun::Gnome => (5, 'g', ' '),
        Noun::HalfElf => (8, 'h', 'e'),
        Noun::HalfOrc => (8, 'h', 'o'),
        Noun::Halfling => (8, 'h', 'i'),
        Noun::Human => (5, 'h', ' '),
        Noun::Inn => (3, 'i', ' '),
        Noun::Npc => (3, 'n', ' '),
        Noun::Residence => (9, 'r', 'e'),
        Noun::Shop => (4, 's', ' '),
        Noun::Temple => (6, 't', 'e'),
        Noun::Tiefling => (8, 't', 'i'),
        Noun::Warehouse => (9, 'w', 'o'),
        Noun::Warforged => (9, 'w', 'r'),
    }
}

proof fn lemma_noun_key(n: Noun)
    ensures
        word_key(noun_word(n)) == noun_key(n),
{
    match n {
        Noun::Building => reveal_strlit("building"),
        Noun::Dragonborn => reveal_strlit("dragonborn"),
        Noun::Dwarf => reveal_strlit("dwarf"),
        Noun::Elf => reveal_strlit("elf"),
        Noun::Gnome => reveal_strlit("gnome"),
        Noun::HalfElf => reveal_strlit("half elf"),
        Noun::HalfOrc => reveal_strlit("half orc"),
        Noun::Halfling => reveal_strlit("halfling"),
        Noun::Human => reveal_strlit("human"),
        Noun::Inn => reveal_strlit("inn"),
        Noun::Npc => reveal_strlit("npc"),
        Noun::Residence => reveal_strlit("residence"),
        Noun::Shop => reveal_strlit("shop"),
        Noun::Temple => reveal_strlit("temple"),
        Noun::Tiefling => reveal_strlit("tiefling"),
        Noun::Warehouse => reveal_strlit("warehouse"),
        Noun::Warforged => reveal_strlit("warforged"),
    }
}

/// Nouns with the same word are the same noun.
pub proof fn lemma_noun_words_distinct(a: Noun, b: Noun)
    ensures
        noun_word(a) == noun_word(b) ==> a == b,
{
    if noun_word(a) == noun_word(b) {
        assert(word_key(noun_word(a)) == word_key(noun_word(b)));
        lemma_noun_key(a);
        lemma_noun_key(b);
    }
}

/// Every noun is in the list of all nouns.
proof fn lemma_all_nouns(n: Noun)
    ensures
        exists|k: int| 0 <= k < all_nouns().len() && all_nouns()[k] == n,
{
    match n {
        Noun::Building => assert(all_nouns()[0] == n),
        Noun::Dragonborn => assert(all_nouns()[1] == n),
        Noun::Dwarf => assert(all_nouns()[2] == n),
        Noun::Elf => assert(all_nouns()[3] == n),
        Noun::Gnome => assert(all_nouns()[4] == n),
        Noun::HalfElf => assert(all_nouns()[5] == n),
        Noun::HalfOrc => assert(all_nouns()[6] == n),
        Noun::Halfling => assert(all_nouns()[7] == n),
        Noun::Human => assert(all_nouns()[8] == n),
        Noun::Inn => assert(all_nouns()[9] == n),
        Noun::Npc => assert(all_nouns()[10] == n),
        Noun::Residence => assert(all_nouns()[11] == n),
        Noun::Shop => assert(all_nouns()[12] == n),
        Noun::Temple => assert(all_nouns()[13] == n),
        Noun::Tiefling => assert(all_nouns()[14] == n),
        Noun::Warehouse => assert(all_nouns()[15] == n),
        Noun::Warforged => assert(all_nouns()[16] == n),
    }
}

/// The word of a noun parses back to it.
pub proof fn lemma_noun_word_parses(n: Noun)
    ensures
        noun_parse_spec(noun_word(n)) == Some(n),
{
    lemma_index_in(noun_words(), noun_word(n));
    lemma_all_nouns(n);
    let k = choose|k: int| 0 <= k < all_nouns().len() && all_nouns()[k] == n;
    assert(noun_words()[k] == noun_word(n));
    match index_in(noun_words(), noun_word(n)) {
        Some(j) => {
            lemma_noun_words_distinct(all_nouns()[j], n);
        },
        None => {},
    }
}

impl Noun {
    /// The words of all nouns, in order.
    pub fn get_words() -> (r: Vec<&'static str>)
        ensures
            strs_view(r@) == noun_words(),
    {
        let mut r: Vec<&'static str> = Vec::new();
        r.push("building");
        r.push("dragonborn");
        r.push("dwarf");
        r.push("elf");
        r.push("gnome");
        r.push("half elf");
        r.push("half orc");
        r.push("halfling");
        r.push("human");
        r.push("inn");
        r.push("npc");
        r.push("residence");
        r.push("shop");
        r.push("temple");
        r.push("tiefling");
        r.push("warehouse");
        r.push("warforged");
        assert(strs_view(r@) =~= noun_words());
        r
    }

    /// The word of this noun.
    pub fn word(&self) -> (r: &'static str)
        ensures
            r@ == noun_word(*self),
    {
        match self {
            Noun::Building => "building",
            Noun::Dragonborn => "dragonborn",
            Noun::Dwarf => "dwarf",
            Noun::Elf => "elf",
            Noun::Gnome => "gnome",
            Noun::HalfElf => "half elf",
            Noun::HalfOrc => "half orc",
            Noun::Halfling => "halfling",
            Noun::Human => "human",
            Noun::Inn => "inn",
            Noun::Npc => "npc",
            Noun::Residence => "residence",
            Noun::Shop => "shop",
            Noun::Temple => "temple",
            Noun::Tiefling => "tiefling",
            Noun::Warehouse => "warehouse",
            Noun::Warforged => "warforged",
        }
    }

    /// The noun whose word is `s`, if any.
    pub fn parse_chars(s: &Vec<char>) -> (r: Option<Noun>)
        ensures
            r == noun_parse_spec(s@),
    {
        let words = Self::get_words();
        match find_word(s, words.as_slice()) {
            Some(k) => {
                let all = [
                    Noun::Building,
                    Noun::Dragonborn,
                    Noun::Dwarf,
                    Noun::Elf,
                    Noun::Gnome,
                    Noun::HalfElf,
                    Noun::HalfOrc,
                    Noun::Halfling,
                    Noun::Human,
                    Noun::Inn,
                    Noun::Npc,
                    Noun::Residence,
                    Noun::Shop,
                    Noun::Temple,
                    Noun::Tiefling,
                    Noun::Warehouse,
                    Noun::Warforged,
                ];
                assert(all@ == all_nouns());
                proof {
                    lemma_index_in(noun_words(), s@);
                }
                Some(all[k])
            },
            None => None,
        }
    }

    /// The noun whose word is `raw`, if any.
    pub fn parse(raw: &str) -> (r: Option<Noun>)
        ensures
            r == noun_parse_spec(raw@),
    {
        Self::parse_chars(&crate::text::chars_of(raw))
    }

    /// The species that this noun names, if it names one.
    pub fn species(&self) -> (r: Option<Species>)
        ensures
            r == noun_species(*self),
    {
        match self {
            Noun::Dragonborn => Some(Species::Dragonborn),
            Noun::Dwarf => Some(Species::Dwarf),
            Noun::Elf => Some(Species::Elf),
            Noun::Gnome => Some(Species::Gnome),
            Noun::HalfElf => Some(Species::HalfElf),
            Noun::HalfOrc => Some(Species::HalfOrc),
            Noun::Halfling => Some(Species::Halfling),
            Noun::Human => Some(Species::Human),
            Noun::Tiefling => Some(Species::Tiefling),
            Noun::Warforged => Some(Species::Warforged),
            _ => None,
        }
    }
}

/// The species that a noun names, if it names one.
pub open spec fn noun_species(n: Noun) -> Option<Species> {
    match n {
        Noun::Dragonborn => Some(Species::Dragonborn),
        Noun::Dwarf => Some(Species::Dwarf),
        Noun::Elf => Some(Species::Elf),
        Noun::Gnome => Some(Species::Gnome),
        Noun::HalfElf => Some(Species::HalfElf),
        Noun::HalfOrc => Some(Species::HalfOrc),
        Noun::Halfling => Some(Species::Halfling),
        Noun::Human => Some(Species::Human),
        Noun::Tiefling => Some(Species::Tiefling),
        Noun::Warforged => Some(Species::Warforged),
        _ => None,
    }
}

impl std::str::FromStr for Noun {
    type Err = ();

    fn from_str(raw: &str) -> (r: Result<Self, ()>)
        ensures
            r == match noun_parse_spec(raw@) {
                Some(n) => Ok::<Noun, ()>(n),
                None => Err(()),
            },
    {
        match Noun::parse(raw) {
            Some(n) => Ok(n),
            None => Err(()),
        }
    }
}

impl From<Noun> for String {
    fn from(noun: Noun) -> (r: String)
        ensures
            r@ == noun_word(noun),
    {
        noun.word().to_owned()
    }
}

impl vstd::std_specs::convert::FromSpecImpl<Noun> for String {
    open spec fn obeys_from_spec() -> bool {
        false
    }

    open spec fn from_spec(v: Noun) -> String {
        vstd::pervasive::arbitrary()
    }
}

} // verus!
