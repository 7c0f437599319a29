//! Completing a phrase from a fixed vocabulary.

use crate::text::{chars_of, starts_with, starts_with_spec, strs_view};
use vstd::prelude::*;

verus! {

/// The most suggestions that a phrase completion gives.
pub const MAX_SUGGESTIONS: usize = 10;

/// The words of `words` that begin with `input` (exactly, case included), in order.
pub open spec fn matching_words(words: Seq<Seq<char>>, input: Seq<char>) -> Seq<Seq<char>>
    decreases words.len(),
{
    if words.len() == 0 {
        Seq::empty()
    } else {
        let rest = matching_words(words.drop_last(), input);
        if starts_with_spec(words.last(), input) {
            rest.push(words.last())
        } else {
            rest
        }
    }
}

/// At most the first `MAX_SUGGESTIONS` elements of `s`.
pub open spec fn first_suggestions<A>(s: Seq<A>) -> Seq<A> {
    if s.len() > MAX_SUGGESTIONS {
        s.take(MAX_SUGGESTIONS as int)
    } else {
        s
    }
}

/// The completions of `input` from `words`: none for an empty input, else the first
/// `MAX_SUGGESTIONS` words that begin with it, in the vocabulary's order.
pub open spec fn autocomplete_phrase_spec(input: Seq<char>, words: Seq<Seq<char>>) -> Seq<
    Seq<char>,
> {
    if input.len() == 0 {
        Seq::empty()
    } else {
        first_suggestions(matching_words(words, input))
    }
}

/// The texts of some strings.
pub open spec fn strings_view(v: Seq<String>) -> Seq<Seq<char>> {
    v.map_values(|w: String| w@)
}

/// Every element of a sequence begins with `input`, and each one comes from `words`.
pub proof fn lemma_matching_words_match(words: Seq<Seq<char>>, input: Seq<char>)
    ensures
        forall|k: int|
            0 <= k < matching_words(words, input).len() ==> starts_with_spec(
                #[trigger] matching_words(words, input)[k],
                input,
            ) && words.contains(matching_words(words, input)[k]),
        matching_words(words, input).len() <= words.len(),
    decreases words.len(),
{
    if words.len() > 0 {
        lemma_matching_words_match(words.drop_last(), input);
        let rest = matching_words(words.drop_last(), input);
        assert forall|k: int| 0 <= k < rest.len() implies words.contains(#[trigger] rest[k]) by {
            let j = choose|j: int| 0 <= j < words.drop_last().len() && words.drop_last()[j]
                == rest[k];
            assert(words[j] == rest[k]);
        }
        assert(words[words.len() - 1] == words.last());
    }
}

/// Completes `input` from `vocabulary`: nothing for an empty input; otherwise the first
/// `MAX_SUGGESTIONS` words of the vocabulary that begin with `input`, in the vocabulary's order.
pub fn autocomplete_phrase(input: &str, vocabulary: &[&str]) -> (r: Vec<String>)
    ensures
        strings_view(r@) == autocomplete_phrase_spec(input@, strs_view(vocabulary@)),
{
    let mut r: Vec<String> = Vec::new();
    let prefix = chars_of(input);
    if prefix.len() == 0 {
        assert(strings_view(r@) =~= Seq::<Seq<char>>::empty());
        return r;
    }
    let ghost words = strs_view(vocabulary@);
    let mut i: usize = 0;
    while i < vocabulary.len()
        invariant
            prefix@ == input@,
            words == strs_view(vocabulary@),
            i <= vocabulary@.len(),
            strings_view(r@) == first_suggestions(matching_words(words.take(i as int), input@)),
        decreases vocabulary.len() - i,
    {
        let word = vocabulary[i];
        let ghost before = matching_words(words.take(i as int), input@);
        assert(words.take(i + 1).drop_last() =~= words.take(i as int));
        assert(words.take(i + 1).last() == word@);
        if starts_with(&chars_of(word), &prefix) {
            if r.len() < MAX_SUGGESTIONS {
                let ghost rv = strings_view(r@);
                assert(rv == before);
                let owned = word.to_owned();
                r.push(owned);
                assert(strings_view(r@) =~= rv.push(word@));
                assert(strings_view(r@) =~= first_suggestions(before.push(word@)));
            } else {
                assert(first_suggestions(before.push(word@)) =~= first_suggestions(before));
            }
        }
        i = i + 1;
    }
    assert(words.take(vocabulary@.len() as int) =~= words);
    r
}

} // verus!
