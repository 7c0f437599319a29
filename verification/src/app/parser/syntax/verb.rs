//! The verbs of the command language.

use crate::text::{find_word, index_in, lemma_index_in, strs_view};
use vstd::prelude::*;

verus! {

/// A verb: a word that names an action.
#[derive(Clone, Copy, Debug, Eq, PartialEq, Structural)]
pub enum Verb {
    Debug,
    Help,
    Quit,
    Tutorial,
}

/// All verbs, in the order of their words.
pub open spec fn all_verbs() -> Seq<Verb> {
    seq![Verb::Debug, Verb::Help, Verb::Quit, Verb::Tutorial]
}

/// The word of a verb.
pub open spec fn verb_word(v: Verb) -> Seq<char> {
    match v {
        Verb::Debug => "debug"@,
        Verb::Help => "help"@,
        Verb::Quit => "quit"@,
        Verb::Tutorial => "tutorial"@,
    }
}

/// The words of all verbs, in order.
pub open spec fn verb_words() -> Seq<Seq<char>> {
    all_verbs().map_values(|v: Verb| verb_word(v))
}

/// The verb whose word is exactly `s`, if any.
pub open spec fn verb_parse_spec(s: Seq<char>) -> Option<Verb> {
    match index_in(verb_words(), s) {
        Some(k) => Some(all_verbs()[k]),
        None => None,
    }
}

/// Verbs with the same word are the same verb.
pub proof fn lemma_verb_words_distinct(a: Verb, b: Verb)
    ensures
        verb_word(a) == verb_word(b) ==> a == b,
{
    reveal_strlit("debug");
    reveal_strlit("help");
    reveal_strlit("quit");
    reveal_strlit("tutorial");
    if verb_word(a) == verb_word(b) {
        assert(verb_word(a)[0] == verb_word(b)[0]);
    }
}

/// The word of a verb parses back to it.
pub proof fn lemma_verb_word_parses(v: Verb)
    ensures
        verb_parse_spec(verb_word(v)) == Some(v),
{
    lemma_index_in(verb_words(), verb_word(v));
    let k: int = match v {
        Verb::Debug => 0,
        Verb::Help => 1,
        Verb::Quit => 2,
        Verb::Tutorial => 3,
    };
    assert(all_verbs()[k] == v);
    assert(verb_words()[k] == verb_word(v));
    if let Some(j) = index_in(verb_words(), verb_word(v)) {
        lemma_verb_words_distinct(all_verbs()[j], v);
    }
}

impl Verb {
    /// The words of all verbs, in order.
    pub fn get_words() -> (r: Vec<&'static str>)
        ensures
            strs_view(r@) == verb_words(),
    {
        let mut r: Vec<&'static str> = Vec::new();
        r.push("debug");
        r.push("help");
        r.push("quit");
        r.push("tutorial");
        assert(strs_view(r@) =~= verb_words());
        r
    }

    /// The word of this verb.
    pub fn word(&self) -> (r: &'static str)
        ensures
            r@ == verb_word(*self),
    {
        match self {
            Verb::Debug => "debug",
            Verb::Help => "help",
            Verb::Quit => "quit",
            Verb::Tutorial => "tutorial",
        }
    }

    /// The verb whose word is `s`, if any.
    pub fn parse_chars(s: &Vec<char>) -> (r: Option<Verb>)
        ensures
            r == verb_parse_spec(s@),
    {
        let words = Self::get_words();
        match find_word(s, words.as_slice()) {
            Some(k) => {
                let all = [Verb::Debug, Verb::Help, Verb::Quit, Verb::Tutorial];
                assert(all@ == all_verbs());
                proof {
                    crate::text::lemma_index_in(verb_words(), s@);
                }
                Some(all[k])
            },
            None => None,
        }
    }

    /// The verb whose word is `raw`, if any.
    pub fn parse(raw: &str) -> (r: Option<Verb>)
        ensures
            r == verb_parse_spec(raw@),
    {
        Self::parse_chars(&crate::text::chars_of(raw))
    }
}

impl std::str::FromStr for Verb {
    type Err = ();

    fn from_str(raw: &str) -> (r: Result<Self, ()>)
        ensures
            r == match verb_parse_spec(raw@) {
                Some(v) => Ok::<Verb, ()>(v),
                None => Err(()),
            },
    {
        match Verb::parse(raw) {
            Some(v) => Ok(v),
            None => Err(()),
        }
    }
}

impl From<Verb> for String {
    fn from(verb: Verb) -> (r: String)
        ensures
            r@ == verb_word(verb),
    {
        verb.word().to_owned()
    }
}

impl vstd::std_specs::convert::FromSpecImpl<Verb> for String {
    /// Nothing is claimed of the `String` beyond what [`Verb::word`] states.
    open spec fn obeys_from_spec() -> bool {
        false
    }

    open spec fn from_spec(v: Verb) -> String {
        vstd::pervasive::arbitrary()
    }
}

} // verus!
