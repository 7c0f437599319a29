//! The raw command: its text and the words it is made of, and the commands recognised from it.

pub mod app;
pub mod storage;
pub mod world;

pub use app::AppCommand;
pub use storage::StorageCommand;
pub use world::WorldCommand;

use super::syntax::{option_word_view, word_parse_spec, Noun, Verb, Word, WordView};
use crate::text::{
    chars_of, lemma_trim_lengths, string_of, sub_chars, trim_end_len, trim_end_spec,
    trim_start_len, trim_start_spec,
};
use vstd::prelude::*;

verus! {

/// The position of the first space of `t`, if any.
pub open spec fn first_space(t: Seq<char>) -> Option<int>
    decreases t.len(),
{
    if t.len() == 0 {
        None
    } else if t[0] == ' ' {
        Some(0)
    } else {
        match first_space(t.drop_first()) {
            Some(k) => Some(k + 1),
            None => None,
        }
    }
}

/// The last position `i < n` of a space in `t` such that `t[..i]` is a word, if any.
pub open spec fn last_split(t: Seq<char>, n: int) -> Option<int>
    decreases n,
{
    if n <= 0 {
        None
    } else if t[n - 1] == ' ' && word_parse_spec(t.take(n - 1)) is Some {
        Some(n - 1)
    } else {
        last_split(t, n - 1)
    }
}

/// The first word of `s` and the rest of `s` after it. Trailing whitespace is dropped first.
/// All of what is left, if it is a word, is that word; else, without a space, it is an unknown
/// word; else the longest part before a space that is a word is taken; else the part before the
/// first space is an unknown word, and what follows it, without its leading whitespace, is left.
pub open spec fn chunk_spec(s: Seq<char>) -> (WordView, Seq<char>) {
    let t = trim_end_spec(s);
    if let Some(w) = word_parse_spec(t) {
        (w, Seq::empty())
    } else if first_space(t) is None {
        (WordView::Unknown(t), Seq::empty())
    } else if let Some(i) = last_split(t, t.len() as int) {
        (word_parse_spec(t.take(i))->0, t.skip(i + 1))
    } else {
        let f = first_space(t)->0;
        (WordView::Unknown(t.take(f)), trim_start_spec(t.skip(f)))
    }
}

/// Where `first_space` finds a space.
pub proof fn lemma_first_space(t: Seq<char>)
    ensures
        match first_space(t) {
            Some(k) => 0 <= k < t.len() && t[k] == ' ' && forall|j: int| 0 <= j < k ==> t[j] != ' ',
            None => forall|j: int| 0 <= j < t.len() ==> t[j] != ' ',
        },
    decreases t.len(),
{
    if t.len() > 0 && t[0] != ' ' {
        lemma_first_space(t.drop_first());
        assert forall|j: int| 1 <= j < t.len() implies t[j] == t.drop_first()[j - 1] by {}
    }
}

/// Where `last_split` finds a split.
pub proof fn lemma_last_split(t: Seq<char>, n: int)
    requires
        n <= t.len(),
    ensures
        match last_split(t, n) {
            Some(i) => 0 <= i < n && t[i] == ' ' && word_parse_spec(t.take(i)) is Some,
            None => true,
        },
    decreases n,
{
    if n > 0 {
        lemma_last_split(t, n - 1);
    }
}

/// What is left after the first word of a non-empty text is shorter than the text.
pub proof fn lemma_chunk_shorter(s: Seq<char>)
    requires
        s.len() > 0,
    ensures
        chunk_spec(s).1.len() < s.len(),
{
    let t = trim_end_spec(s);
    lemma_trim_lengths(s);
    lemma_first_space(t);
    lemma_last_split(t, t.len() as int);
    if word_parse_spec(t) is None && first_space(t) is Some && last_split(t, t.len() as int) is None {
        let f = first_space(t)->0;
        let u = t.skip(f);
        assert(u[0] == ' ');
        lemma_trim_lengths(u);
    }
}

/// The words of `s`, split off one after the other.
pub open spec fn words_spec(s: Seq<char>) -> Seq<WordView>
    decreases s.len(),
{
    if s.len() == 0 {
        Seq::empty()
    } else {
        proof {
            lemma_chunk_shorter(s);
        }
        seq![chunk_spec(s).0] + words_spec(chunk_spec(s).1)
    }
}

/// The values of some words.
pub open spec fn words_view(v: Seq<Word>) -> Seq<WordView> {
    v.map_values(|w: Word| w@)
}

/// The first verb among some words, if any.
pub open spec fn first_verb(ws: Seq<WordView>) -> Option<Verb>
    decreases ws.len(),
{
    if ws.len() == 0 {
        None
    } else if let WordView::Verb(v) = ws[0] {
        Some(v)
    } else {
        first_verb(ws.drop_first())
    }
}

/// The first noun among some words, if any.
pub open spec fn first_noun(ws: Seq<WordView>) -> Option<Noun>
    decreases ws.len(),
{
    if ws.len() == 0 {
        None
    } else if let WordView::Noun(n) = ws[0] {
        Some(n)
    } else {
        first_noun(ws.drop_first())
    }
}

/// The first proper noun among some words, if any.
pub open spec fn first_proper_noun(ws: Seq<WordView>) -> Option<Seq<char>>
    decreases ws.len(),
{
    if ws.len() == 0 {
        None
    } else if let WordView::ProperNoun(s) = ws[0] {
        Some(s)
    } else {
        first_proper_noun(ws.drop_first())
    }
}

/// Splits off the first word of `s`; what is left follows.
pub fn parse_chunk(s: &Vec<char>) -> (r: (Word, Vec<char>))
    ensures
        (r.0@, r.1@) == chunk_spec(s@),
{
    let hi = trim_end_len(s);
    let t = sub_chars(s, 0, hi);
    assert(t@ =~= trim_end_spec(s@));
    if let Some(w) = Word::parse_chars(&t) {
        return (w, Vec::new());
    }
    proof {
        lemma_first_space(t@);
    }
    let mut f: usize = 0;
    while f < t.len() && t[f] != ' '
        invariant
            f <= t.len(),
            forall|j: int| 0 <= j < f ==> t@[j] != ' ',
        decreases t.len() - f,
    {
        f = f + 1;
    }
    if f == t.len() {
        assert(first_space(t@) is None);
        return (Word::Unknown(string_of(&t)), Vec::new());
    }
    assert(first_space(t@) == Some(f as int));
    let mut i = t.len();
    while i > 0
        invariant
            i <= t.len(),
            t@ == trim_end_spec(s@),
            last_split(t@, t@.len() as int) == last_split(t@, i as int),
            word_parse_spec(t@) is None,
            first_space(t@) is Some,
        decreases i,
    {
        if t[i - 1] == ' ' {
            let head = sub_chars(&t, 0, i - 1);
            assert(head@ =~= t@.take(i - 1));
            if let Some(w) = Word::parse_chars(&head) {
                let rest = sub_chars(&t, i, t.len());
                assert(rest@ =~= t@.skip(i as int));
                return (w, rest);
            }
        }
        i = i - 1;
    }
    let head = sub_chars(&t, 0, f);
    assert(head@ =~= t@.take(f as int));
    let tail = sub_chars(&t, f, t.len());
    assert(tail@ =~= t@.skip(f as int));
    let lo = trim_start_len(&tail);
    let rest = sub_chars(&tail, lo, tail.len());
    assert(rest@ =~= tail@.skip(lo as int));
    (Word::Unknown(string_of(&head)), rest)
}

/// A typed command: its text and the words it is made of.
#[derive(Debug)]
pub struct RawCommand {
    text: String,
    words: Vec<Word>,
}

/// The value of a [`RawCommand`].
pub struct RawCommandView {
    pub text: Seq<char>,
    pub words: Seq<WordView>,
}

impl View for RawCommand {
    type V = RawCommandView;

    closed spec fn view(&self) -> RawCommandView {
        RawCommandView { text: self.text@, words: words_view(self.words@) }
    }
}

impl RawCommand {
    /// Splits `raw` into its words.
    pub fn from_string(raw: String) -> (r: RawCommand)
        ensures
            r@.text == raw@,
            r@.words == words_spec(raw@),
    {
        let chars = chars_of(raw.as_str());
        let mut rest = sub_chars(&chars, 0, chars.len());
        assert(rest@ =~= chars@);
        let mut words: Vec<Word> = Vec::new();
        while rest.len() > 0
            invariant
                words_view(words@) + words_spec(rest@) == words_spec(raw@),
            decreases rest.len(),
        {
            proof {
                lemma_chunk_shorter(rest@);
            }
            let ghost before = words_view(words@);
            let (w, r) = parse_chunk(&rest);
            assert(words_spec(rest@) == seq![w@] + words_spec(r@));
            words.push(w);
            assert(words_view(words@) =~= before.push(w@));
            assert(words_view(words@) + words_spec(r@) =~= before + words_spec(rest@));
            rest = r;
        }
        assert(words_view(words@) =~= words_view(words@) + words_spec(rest@));
        RawCommand { text: raw, words }
    }

    /// Splits `raw` into its words.
    pub fn parse(raw: &str) -> (r: RawCommand)
        ensures
            r@.text == raw@,
            r@.words == words_spec(raw@),
    {
        Self::from_string(raw.to_owned())
    }

    /// The text of the command.
    pub fn text(&self) -> (r: &str)
        ensures
            r@ == self@.text,
    {
        self.text.as_str()
    }

    /// The words of the command.
    pub fn words(&self) -> (r: &[Word])
        ensures
            words_view(r@) == self@.words,
    {
        self.words.as_slice()
    }

    /// The text of the command, given back.
    pub fn into_string(self) -> (r: String)
        ensures
            r@ == self@.text,
    {
        self.text
    }

    /// The first verb of the command, if any.
    pub fn get_verb(&self) -> (r: Option<&Verb>)
        ensures
            match r {
                Some(v) => first_verb(self@.words) == Some(*v),
                None => first_verb(self@.words) is None,
            },
    {
        let mut i: usize = 0;
        assert(self@.words.skip(0) =~= self@.words);
        while i < self.words.len()
            invariant
                i <= self.words@.len(),
                first_verb(self@.words) == first_verb(self@.words.skip(i as int)),
            decreases self.words.len() - i,
        {
            let ghost ws = self@.words;
            assert(ws.skip(i as int)[0] == self.words@[i as int]@);
            assert(ws.skip(i as int).drop_first() =~= ws.skip(i + 1));
            if let Word::Verb(v) = &self.words[i] {
                return Some(v);
            }
            i = i + 1;
        }
        None
    }

    /// The first noun of the command, if any.
    pub fn get_noun(&self) -> (r: Option<&Noun>)
        ensures
            match r {
                Some(n) => first_noun(self@.words) == Some(*n),
                None => first_noun(self@.words) is None,
            },
    {
        let mut i: usize = 0;
        assert(self@.words.skip(0) =~= self@.words);
        while i < self.words.len()
            invariant
                i <= self.words@.len(),
                first_noun(self@.words) == first_noun(self@.words.skip(i as int)),
            decreases self.words.len() - i,
        {
            let ghost ws = self@.words;
            assert(ws.skip(i as int)[0] == self.words@[i as int]@);
            assert(ws.skip(i as int).drop_first() =~= ws.skip(i + 1));
            if let Word::Noun(n) = &self.words[i] {
                return Some(n);
            }
            i = i + 1;
        }
        None
    }

    /// The first proper noun of the command, if any.
    pub fn get_proper_noun(&self) -> (r: Option<&String>)
        ensures
            match r {
                Some(s) => first_proper_noun(self@.words) == Some(s@),
                None => first_proper_noun(self@.words) is None,
            },
    {
        let mut i: usize = 0;
        assert(self@.words.skip(0) =~= self@.words);
        while i < self.words.len()
            invariant
                i <= self.words@.len(),
                first_proper_noun(self@.words) == first_proper_noun(self@.words.skip(i as int)),
            decreases self.words.len() - i,
        {
            let ghost ws = self@.words;
            assert(ws.skip(i as int)[0] == self.words@[i as int]@);
            assert(ws.skip(i as int).drop_first() =~= ws.skip(i + 1));
            if let Word::ProperNoun(s) = &self.words[i] {
                return Some(s);
            }
            i = i + 1;
        }
        None
    }
}

impl std::str::FromStr for RawCommand {
    type Err = std::convert::Infallible;

    fn from_str(raw: &str) -> (r: Result<Self, std::convert::Infallible>)
        ensures
            r matches Ok(c) && c@.text == raw@ && c@.words == words_spec(raw@),
    {
        Ok(RawCommand::parse(raw))
    }
}

/// A command recognised from its words.
#[derive(Debug)]
pub enum Command {
    App(AppCommand),
    World(WorldCommand),
    Storage(StorageCommand),
    Unknown(RawCommand),
}

/// `r` is what recognising `raw` gives: a command of the application if it has one of its verbs,
/// else loading a proper noun if it has one, else a command of the world if a noun names one;
/// otherwise it stays unknown.
pub open spec fn recognised(r: Command, raw: RawCommandView) -> bool {
    match r {
        Command::App(c) => app::app_command_kind(first_verb(raw.words)) == Some(c.kind_of())
            && c.raw_view() == raw,
        Command::Storage(c) => app::app_command_kind(first_verb(raw.words)) is None
            && first_proper_noun(raw.words) is Some && c.raw_view() == raw,
        Command::World(c) => app::app_command_kind(first_verb(raw.words)) is None
            && first_proper_noun(raw.words) is None && world::world_command_of(raw) == Some(
            c.view_of(),
        ),
        Command::Unknown(u) => app::app_command_kind(first_verb(raw.words)) is None
            && first_proper_noun(raw.words) is None && world::world_command_of(raw) is None && u@
            == raw,
    }
}

impl Command {
    /// Recognises a raw command.
    pub fn from_raw(raw: RawCommand) -> (r: Command)
        ensures
            recognised(r, raw@),
    {
        let raw = match AppCommand::try_from_raw(raw) {
            Ok(c) => {
                return Command::App(c);
            },
            Err(raw) => raw,
        };
        let raw = match StorageCommand::try_from_raw(raw) {
            Ok(c) => {
                return Command::Storage(c);
            },
            Err(raw) => raw,
        };
        match WorldCommand::try_from_raw(raw) {
            Ok(c) => Command::World(c),
            Err(raw) => Command::Unknown(raw),
        }
    }

    /// Splits `raw` into words and recognises the command.
    pub fn parse(raw: &str) -> (r: Command)
        ensures
            recognised(r, RawCommandView { text: raw@, words: words_spec(raw@) }),
    {
        Self::from_raw(RawCommand::parse(raw))
    }
}

} // verus!
