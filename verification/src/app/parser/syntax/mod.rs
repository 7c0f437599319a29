//! The words of the command language.

pub mod noun;
pub mod verb;

pub use noun::Noun;
pub use verb::Verb;

use self::noun::{noun_parse_spec, noun_word};
use self::verb::{verb_parse_spec, verb_word};
use crate::text::{
    char_is_uppercase, chars_of, is_uppercase, is_whitespace, is_whitespace_spec, string_of,
};
use vstd::prelude::*;

verus! {

/// A word of a command, or a run of words that belong together.
#[derive(Clone, Debug, Eq, PartialEq)]
pub enum Word {
    Noun(Noun),
    ProperNoun(String),
    Unknown(String),
    Verb(Verb),
}

/// The value of a [`Word`], with its text as characters.
pub enum WordView {
    Noun(Noun),
    ProperNoun(Seq<char>),
    Unknown(Seq<char>),
    Verb(Verb),
}

impl View for Word {
    type V = WordView;

    open spec fn view(&self) -> WordView {
        match self {
            Word::Noun(n) => WordView::Noun(*n),
            Word::ProperNoun(s) => WordView::ProperNoun(s@),
            Word::Unknown(s) => WordView::Unknown(s@),
            Word::Verb(v) => WordView::Verb(*v),
        }
    }
}

/// The values of an optional word.
pub open spec fn option_word_view(o: Option<Word>) -> Option<WordView> {
    match o {
        Some(w) => Some(w@),
        None => None,
    }
}

/// Position `i` of `s` begins a run of non-whitespace characters.
pub open spec fn starts_word(s: Seq<char>, i: int) -> bool {
    &&& 0 <= i < s.len()
    &&& !is_whitespace_spec(s[i])
    &&& (i == 0 || is_whitespace_spec(s[i - 1]))
}

/// A proper noun: text that is not all whitespace, each of whose whitespace-separated words
/// begins with an upper-case letter.
pub open spec fn proper_noun_spec(s: Seq<char>) -> bool {
    &&& exists|i: int| 0 <= i < s.len() && !is_whitespace_spec(#[trigger] s[i])
    &&& forall|i: int| #[trigger] starts_word(s, i) ==> char_is_uppercase(s[i])
}

/// What `s` parses to as a single word: a verb, else a noun, else a proper noun.
pub open spec fn word_parse_spec(s: Seq<char>) -> Option<WordView> {
    if let Some(v) = verb_parse_spec(s) {
        Some(WordView::Verb(v))
    } else if let Some(n) = noun_parse_spec(s) {
        Some(WordView::Noun(n))
    } else if proper_noun_spec(s) {
        Some(WordView::ProperNoun(s))
    } else {
        None
    }
}

/// The text of a word: the word of a verb or noun, or the text it holds.
pub open spec fn word_text(w: WordView) -> Seq<char> {
    match w {
        WordView::Noun(n) => noun_word(n),
        WordView::ProperNoun(s) => s,
        WordView::Unknown(s) => s,
        WordView::Verb(v) => verb_word(v),
    }
}

/// Whether `s` is a proper noun.
pub fn is_proper_noun(s: &Vec<char>) -> (r: bool)
    ensures
        r == proper_noun_spec(s@),
{
    let mut any = false;
    let mut i: usize = 0;
    while i < s.len()
        invariant
            i <= s.len(),
            any == exists|k: int| 0 <= k < i && !is_whitespace_spec(#[trigger] s@[k]),
            forall|k: int| 0 <= k < i && #[trigger] starts_word(s@, k) ==> char_is_uppercase(s@[k]),
        decreases s.len() - i,
    {
        let c = s[i];
        if !is_whitespace(c) {
            any = true;
            if i == 0 || is_whitespace(s[i - 1]) {
                if !is_uppercase(c) {
                    assert(starts_word(s@, i as int));
                    return false;
                }
            }
        }
        i = i + 1;
    }
    any
}

impl Word {
    /// The word that `s` is, if it is one.
    pub fn parse_chars(s: &Vec<char>) -> (r: Option<Word>)
        ensures
            option_word_view(r) == word_parse_spec(s@),
    {
        if let Some(v) = Verb::parse_chars(s) {
            Some(Word::Verb(v))
        } else if let Some(n) = Noun::parse_chars(s) {
            Some(Word::Noun(n))
        } else if is_proper_noun(s) {
            Some(Word::ProperNoun(string_of(s)))
        } else {
            None
        }
    }

    /// The word that `raw` is, if it is one.
    pub fn parse(raw: &str) -> (r: Option<Word>)
        ensures
            option_word_view(r) == word_parse_spec(raw@),
    {
        Self::parse_chars(&chars_of(raw))
    }

    /// The text of the word.
    pub fn into_string(self) -> (r: String)
        ensures
            r@ == word_text(self@),
    {
        match self {
            Word::Noun(n) => n.word().to_owned(),
            Word::ProperNoun(s) => s,
            Word::Unknown(s) => s,
            Word::Verb(v) => v.word().to_owned(),
        }
    }
}

impl std::str::FromStr for Word {
    type Err = ();

    fn from_str(raw: &str) -> (r: Result<Self, ()>)
        ensures
            match word_parse_spec(raw@) {
                Some(w) => r matches Ok(x) && x@ == w,
                None => r is Err,
            },
    {
        match Word::parse(raw) {
            Some(w) => Ok(w),
            None => Err(()),
        }
    }
}

impl From<Word> for String {
    fn from(word: Word) -> (r: String)
        ensures
            r@ == word_text(word@),
    {
        word.into_string()
    }
}

impl vstd::std_specs::convert::FromSpecImpl<Word> for String {
    open spec fn obeys_from_spec() -> bool {
        false
    }

    open spec fn from_spec(v: Word) -> String {
        vstd::pervasive::arbitrary()
    }
}

} // verus!
