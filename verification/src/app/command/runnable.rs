//! What parsing an input gives (canonical and fuzzy matches) and autocomplete suggestions.

use vstd::prelude::*;

verus! {

/// A suggestion shown while the user types: the text to type and a brief summary of what it does.
#[derive(Clone, Debug, Eq, Hash, PartialEq)]
pub struct AutocompleteSuggestion {
    pub term: String,
    pub summary: String,
}

/// The text of a suggestion: its term and its summary.
pub open spec fn suggestion_text(s: AutocompleteSuggestion) -> (Seq<char>, Seq<char>) {
    (s.term@, s.summary@)
}

/// The texts of a list of suggestions, in order.
pub open spec fn suggestions_text(v: Seq<AutocompleteSuggestion>) -> Seq<(Seq<char>, Seq<char>)> {
    v.map_values(|s: AutocompleteSuggestion| suggestion_text(s))
}

/// Adding a suggestion adds its text.
pub proof fn lemma_suggestions_text_push(v: Seq<AutocompleteSuggestion>, x: AutocompleteSuggestion)
    ensures
        suggestions_text(v.push(x)) == suggestions_text(v).push(suggestion_text(x)),
{
    assert(suggestions_text(v.push(x)) =~= suggestions_text(v).push(suggestion_text(x)));
}

impl AutocompleteSuggestion {
    /// A suggestion made of the converted term and summary.
    pub fn new<A: Into<String>, B: Into<String>>(term: A, summary: B) -> (r:
        Self)
        ensures
            call_ensures(A::into, (term,), r.term),
            call_ensures(B::into, (summary,), r.summary),
    {
        Self { term: term.into(), summary: summary.into() }
    }

    /// A suggestion made of a term and a summary.
    pub fn from_strings(term: String, summary: String) -> (r: Self)
        ensures
            r.term@ == term@,
            r.summary@ == summary@,
    {
        Self { term, summary }
    }

    /// A suggestion made of a fixed term and summary.
    pub fn from_static(term: &'static str, summary: &'static str) -> (r: Self)
        ensures
            r.term@ == term@,
            r.summary@ == summary@,
    {
        Self { term: term.to_owned(), summary: summary.to_owned() }
    }
}

/// Represents all possible parse results for a given input.
///
/// **Canonical matches** are inputs that cannot conflict with one another, distinguished by a
/// unique prefix (such as `srd item shield`). **Fuzzy matches** are the commands that the user
/// could possibly have meant with a given input. There is at most one canonical match; the fuzzy
/// matches keep the order in which they were found.
#[derive(Clone, Debug, Eq, PartialEq)]
pub struct CommandMatches<T> {
    pub canonical_match: Option<T>,
    pub fuzzy_matches: Vec<T>,
}

/// The value `y` is what `T::from` gives for `x`.
pub open spec fn converts<O, T: From<O>>(x: O, y: T) -> bool {
    call_ensures(T::from, (x,), y)
}

/// Every element of `ys` is what `T::from` gives for the element of `xs` at the same position.
pub open spec fn converts_all<O, T: From<O>>(xs: Seq<O>, ys: Seq<T>) -> bool {
    &&& xs.len() == ys.len()
    &&& forall|k: int| 0 <= k < xs.len() ==> converts(xs[k], #[trigger] ys[k])
}

impl<T> CommandMatches<T> {
    /// A match list with a single canonical match.
    pub fn new_canonical(canonical_match: T) -> (r: Self)
        ensures
            r.canonical_match == Some(canonical_match),
            r.fuzzy_matches@ == Seq::<T>::empty(),
    {
        CommandMatches { canonical_match: Some(canonical_match), fuzzy_matches: Vec::new() }
    }

    /// A match list with a single fuzzy match.
    pub fn new_fuzzy(fuzzy_match: T) -> (r: Self)
        ensures
            r.canonical_match is None,
            r.fuzzy_matches@ == seq![fuzzy_match],
    {
        let mut fuzzy_matches = Vec::new();
        fuzzy_matches.push(fuzzy_match);
        CommandMatches { canonical_match: None, fuzzy_matches }
    }

    /// Sets the canonical match. There must not be one already: two would conflict.
    pub fn push_canonical(&mut self, canonical_match: T)
        requires
            old(self).canonical_match is None,
        ensures
            final(self).canonical_match == Some(canonical_match),
            final(self).fuzzy_matches@ == old(self).fuzzy_matches@,
    {
        self.canonical_match = Some(canonical_match);
    }

    /// Adds a fuzzy match after the ones already found.
    pub fn push_fuzzy(&mut self, fuzzy_match: T)
        ensures
            final(self).canonical_match == old(self).canonical_match,
            final(self).fuzzy_matches@ == old(self).fuzzy_matches@.push(fuzzy_match),
    {
        self.fuzzy_matches.push(fuzzy_match);
    }

    /// Converts the matches into another type with its `From` conversion, keeping their order.
    pub fn into_subtype<O: From<T>>(self) -> (r: CommandMatches<O>)
        ensures
            match (self.canonical_match, r.canonical_match) {
                (Some(x), Some(y)) => converts(x, y),
                (None, None) => true,
                _ => false,
            },
            converts_all(self.fuzzy_matches@, r.fuzzy_matches@),
    {
        let canonical_match = match self.canonical_match {
            Some(c) => Some(O::from(c)),
            None => None,
        };
        let mut fuzzy_matches: Vec<O> = Vec::new();
        let ghost all = self.fuzzy_matches@;
        let mut src = self.fuzzy_matches;
        while src.len() > 0
            invariant
                fuzzy_matches@.len() + src@.len() == all.len(),
                src@ == all.skip(fuzzy_matches@.len() as int),
                forall|j: int|
                    0 <= j < fuzzy_matches@.len() ==> converts(all[j], #[trigger] fuzzy_matches@[j]),
            decreases src.len(),
        {
            let ghost k = fuzzy_matches@.len();
            let x = src.remove(0);
            assert(x == all[k as int]);
            let converted = O::from(x);
            fuzzy_matches.push(converted);
            assert(src@ =~= all.skip(fuzzy_matches@.len() as int));
        }
        CommandMatches { canonical_match, fuzzy_matches }
    }

    /// Combines this match list with another one, converted to this type: the fuzzy matches of
    /// `other` follow those of `self`. At most one of the two may have a canonical match: two
    /// would conflict.
    pub fn union<O>(self, other: CommandMatches<O>) -> (r: Self) where T: From<O>
        requires
            self.canonical_match is None || other.canonical_match is None,
        ensures
            match (other.canonical_match, r.canonical_match) {
                (Some(x), Some(y)) => converts(x, y),
                (None, c) => c == self.canonical_match,
                _ => false,
            },
            r.fuzzy_matches@.len() == self.fuzzy_matches@.len() + other.fuzzy_matches@.len(),
            r.fuzzy_matches@.take(self.fuzzy_matches@.len() as int) == self.fuzzy_matches@,
            converts_all(
                other.fuzzy_matches@,
                r.fuzzy_matches@.skip(self.fuzzy_matches@.len() as int),
            ),
    {
        let ghost old_fuzzy = self.fuzzy_matches@;
        let ghost given = other;
        let converted = other.into_subtype::<T>();
        let mut result = self;
        if let Some(c) = converted.canonical_match {
            result.push_canonical(c);
        }
        let ghost all = converted.fuzzy_matches@;
        let ghost canonical = result.canonical_match;
        let mut src = converted.fuzzy_matches;
        while src.len() > 0
            invariant
                result.canonical_match == canonical,
                result.fuzzy_matches@.len() + src@.len() == old_fuzzy.len() + all.len(),
                result.fuzzy_matches@.len() >= old_fuzzy.len(),
                src@ == all.skip(result.fuzzy_matches@.len() - old_fuzzy.len()),
                result.fuzzy_matches@.take(old_fuzzy.len() as int) == old_fuzzy,
                forall|j: int|
                    0 <= j < result.fuzzy_matches@.len() - old_fuzzy.len() ==> #[trigger]
                    result.fuzzy_matches@[old_fuzzy.len() + j] == all[j],
            decreases src.len(),
        {
            let ghost before = result.fuzzy_matches@;
            let x = src.remove(0);
            result.push_fuzzy(x);
            assert(result.fuzzy_matches@.take(old_fuzzy.len() as int) =~= before.take(
                old_fuzzy.len() as int,
            ));
            assert(src@ =~= all.skip(result.fuzzy_matches@.len() - old_fuzzy.len()));
        }
        proof {
            let r = result.fuzzy_matches@;
            assert forall|k: int| 0 <= k < all.len() implies converts(
                given.fuzzy_matches@[k],
                #[trigger] r.skip(old_fuzzy.len() as int)[k],
            ) by {
                assert(r.skip(old_fuzzy.len() as int)[k] == r[old_fuzzy.len() + k]);
                assert(converts(given.fuzzy_matches@[k], all[k]));
            }
        }
        result
    }

    /// Like [`CommandMatches::union`], except that a canonical match of `other` replaces that of
    /// `self` instead of conflicting with it.
    pub fn union_with_overwrite<O>(self, other: CommandMatches<O>) -> (r: Self) where T: From<O>
        ensures
            match (other.canonical_match, r.canonical_match) {
                (Some(x), Some(y)) => converts(x, y),
                (None, c) => c == self.canonical_match,
                _ => false,
            },
            r.fuzzy_matches@.len() == self.fuzzy_matches@.len() + other.fuzzy_matches@.len(),
            r.fuzzy_matches@.take(self.fuzzy_matches@.len() as int) == self.fuzzy_matches@,
            converts_all(
                other.fuzzy_matches@,
                r.fuzzy_matches@.skip(self.fuzzy_matches@.len() as int),
            ),
    {
        let mut this = self;
        let self_canonical_match = this.canonical_match.take();
        let mut result = this.union(other);
        if result.canonical_match.is_none() {
            result.canonical_match = self_canonical_match;
        }
        result
    }

    /// The canonical match if there is one, otherwise the first fuzzy match, if any.
    pub fn take_best_match(self) -> (r: Option<T>)
        ensures
            r == match self.canonical_match {
                Some(c) => Some(c),
                None => if self.fuzzy_matches@.len() > 0 {
                    Some(self.fuzzy_matches@[0])
                } else {
                    None
                },
            },
    {
        match self.canonical_match {
            Some(c) => Some(c),
            None => {
                let mut fuzzy = self.fuzzy_matches;
                if fuzzy.len() > 0 {
                    Some(fuzzy.remove(0))
                } else {
                    None
                }
            },
        }
    }
}

impl<T> Default for CommandMatches<T> {
    fn default() -> (r: Self)
        ensures
            r.canonical_match is None,
            r.fuzzy_matches@ == Seq::<T>::empty(),
    {
        CommandMatches { canonical_match: None, fuzzy_matches: Vec::new() }
    }
}

} // verus!
