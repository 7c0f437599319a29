//! The list of suggestions shown under the input line, with the one selected, and expanding the
//! typed text to what all suggestions share.
//!
//! Lengths of terms and of the query count characters.

use crate::app::command::runnable::AutocompleteSuggestion;
use crate::text::{chars_of, is_ascii_upper_spec, push_all, string_of};
use vstd::prelude::*;

verus! {

/// The lower-case form of `c`, as `char::to_lowercase` gives it (one or more characters).
pub uninterp spec fn char_lowercase(c: char) -> Seq<char>;

/// `char::to_lowercase`, collected: named, not stated (the Unicode tables take pages).
#[verifier::external_body]
fn lowercase(c: char) -> (r: Vec<char>)
    ensures
        r@ == char_lowercase(c),
{
    c.to_lowercase().collect()
}

/// The lower-case form of `c`: for an ASCII character, the character with `A` to `Z` mapped to
/// `a` to `z`; for others, what `char::to_lowercase` gives.
pub open spec fn lower_char(c: char) -> Seq<char> {
    if (c as u32) < 128 {
        seq![
            if is_ascii_upper_spec(c) {
                ((c as u32) + 32) as char
            } else {
                c
            },
        ]
    } else {
        char_lowercase(c)
    }
}

/// The lower-case form of `c`: see [`lower_char`].
pub fn lower(c: char) -> (r: Vec<char>)
    ensures
        r@ == lower_char(c),
{
    if (c as u32) < 128 {
        let b = c as u8;
        let l: char = if 'A' <= c && c <= 'Z' {
            (b + 32) as char
        } else {
            c
        };
        let mut r: Vec<char> = Vec::new();
        r.push(l);
        proof {
            assert(r@ =~= lower_char(c));
        }
        r
    } else {
        lowercase(c)
    }
}

/// The lower-case form of a text, character by character.
pub open spec fn lower_all(s: Seq<char>) -> Seq<char>
    decreases s.len(),
{
    if s.len() == 0 {
        Seq::empty()
    } else {
        lower_all(s.drop_last()) + lower_char(s.last())
    }
}

/// The first `n` characters of `s` (all of it where it is shorter), in lower case.
pub open spec fn prefix_lower(s: Seq<char>, n: int) -> Seq<char> {
    lower_all(
        if n < s.len() {
            s.take(n)
        } else {
            s
        },
    )
}

/// The terms of some suggestions.
pub open spec fn terms_of(v: Seq<AutocompleteSuggestion>) -> Seq<Seq<char>> {
    v.map_values(|s: AutocompleteSuggestion| s.term@)
}

/// All terms have the same first `n` characters, ignoring case, and there is at least one term.
pub open spec fn share_prefix_spec(terms: Seq<Seq<char>>, n: int) -> bool {
    &&& terms.len() > 0
    &&& forall|i: int| 0 <= i < terms.len() ==> #[trigger] prefix_lower(terms[i], n) == prefix_lower(terms[0], n)
}

/// The length of the shortest term.
pub open spec fn min_len(terms: Seq<Seq<char>>) -> int
    decreases terms.len(),
{
    if terms.len() == 0 {
        0
    } else if terms.len() == 1 {
        terms[0].len() as int
    } else {
        let m = min_len(terms.drop_last());
        if terms.last().len() < m {
            terms.last().len() as int
        } else {
            m
        }
    }
}

/// The first length from `e` up that is past the shortest term or that the terms do not share.
pub open spec fn expand_end(terms: Seq<Seq<char>>, e: int) -> int
    decreases min_len(terms) + 1 - e,
{
    if e <= min_len(terms) && share_prefix_spec(terms, e) {
        expand_end(terms, e + 1)
    } else {
        e
    }
}

/// The selection after moving up: the last suggestion from none or the first, else the one
/// before.
pub open spec fn up_spec(selected: Option<usize>, len: int) -> Option<int> {
    match selected {
        Some(0) => Some(len - 1),
        Some(x) => Some(x - 1),
        None => Some(len - 1),
    }
}

/// The selection after moving down: the first suggestion from none, else the next one,
/// wrapping around.
pub open spec fn down_spec(selected: Option<usize>, len: int) -> Option<int> {
    match selected {
        Some(x) => Some((x + 1) % len),
        None => Some(0),
    }
}

/// The value of an optional position.
pub open spec fn selected_view(s: Option<usize>) -> Option<int> {
    match s {
        Some(x) => Some(x as int),
        None => None,
    }
}

/// The suggestions for what is typed (`query`), and which of them is selected.
#[derive(Debug)]
pub struct Autocomplete {
    pub suggestions: Vec<AutocompleteSuggestion>,
    pub selected: Option<usize>,
    pub query: String,
}

/// The minimum of the term lengths, found one term after the other.
proof fn lemma_min_len(terms: Seq<Seq<char>>)
    ensures
        terms.len() > 0 ==> forall|i: int| 0 <= i < terms.len() ==> min_len(terms) <= #[trigger] terms[i].len(),
        terms.len() > 0 ==> exists|i: int| 0 <= i < terms.len() && min_len(terms) == terms[i].len(),
        min_len(terms) >= 0,
    decreases terms.len(),
{
    if terms.len() > 1 {
        lemma_min_len(terms.drop_last());
        assert forall|i: int| 0 <= i < terms.len() - 1 implies terms[i] == terms.drop_last()[i] by {}
        let j = choose|j: int| 0 <= j < terms.drop_last().len() && min_len(terms.drop_last()) == terms.drop_last()[j].len();
        assert(terms[j] == terms.drop_last()[j]);
        if terms.last().len() < min_len(terms.drop_last()) {
            assert(terms[terms.len() - 1].len() == min_len(terms));
        } else {
            assert(terms[j].len() == min_len(terms));
        }
    } else if terms.len() == 1 {
        assert(terms[0].len() == min_len(terms));
    }
}

impl Autocomplete {
    /// Moves the selection up, to the last suggestion where none is selected. There must be a
    /// suggestion.
    pub fn up(self) -> (r: Autocomplete)
        requires
            self.suggestions@.len() > 0,
        ensures
            r.suggestions@ == self.suggestions@,
            r.query@ == self.query@,
            selected_view(r.selected) == up_spec(self.selected, self.suggestions@.len() as int),
    {
        let suggestions = self.suggestions;
        let suggestions_length = suggestions.len();
        let selected = match self.selected {
            Some(0) => Some(suggestions_length - 1),
            Some(x) => Some(x - 1),
            None => Some(suggestions_length - 1),
        };
        Autocomplete { suggestions, selected, query: self.query }
    }

    /// Moves the selection down. A selection needs a suggestion, and a position below the
    /// largest representable one.
    pub fn down(self) -> (r: Autocomplete)
        requires
            self.suggestions@.len() > 0 || self.selected is None,
            self.selected matches Some(x) ==> x < usize::MAX,
        ensures
            r.suggestions@ == self.suggestions@,
            r.query@ == self.query@,
            selected_view(r.selected) == down_spec(self.selected, self.suggestions@.len() as int),
    {
        let suggestions = self.suggestions;
        let suggestions_length = suggestions.len();
        let selected = match self.selected {
            Some(selected) => Some((selected + 1) % suggestions_length),
            None => Some(0),
        };
        Autocomplete { suggestions, selected, query: self.query }
    }

    /// The number of suggestions.
    pub fn len(&self) -> (r: usize)
        ensures
            r == self.suggestions@.len(),
    {
        self.suggestions.len()
    }

    /// The selected suggestion, if any. The selection must be within the list.
    pub fn get_selected_suggestion(&self) -> (r: Option<&AutocompleteSuggestion>)
        requires
            self.selected matches Some(i) ==> i < self.suggestions@.len(),
        ensures
            match self.selected {
                Some(i) => r == Some(&self.suggestions@[i as int]),
                None => r is None,
            },
    {
        match self.selected {
            Some(selected) => Some(&self.suggestions[selected]),
            None => None,
        }
    }

    /// The suggestion, where there is exactly one.
    pub fn get_only_suggestion(&self) -> (r: Option<&AutocompleteSuggestion>)
        ensures
            self.suggestions@.len() == 1 ==> r == Some(&self.suggestions@[0]),
            self.suggestions@.len() != 1 ==> r is None,
    {
        if self.suggestions.len() == 1 {
            Some(&self.suggestions[0])
        } else {
            None
        }
    }

    /// The first `len` characters of `term` (all of it where it is shorter), in lower case.
    fn prefix_lowercase(term: &Vec<char>, len: usize) -> (r: Vec<char>)
        ensures
            r@ == prefix_lower(term@, len as int),
    {
        let n = if len < term.len() {
            len
        } else {
            term.len()
        };
        let ghost p = if (len as int) < term@.len() {
            term@.take(len as int)
        } else {
            term@
        };
        assert(p =~= term@.take(n as int));
        let mut r: Vec<char> = Vec::new();
        let mut i: usize = 0;
        while i < n
            invariant
                i <= n <= term@.len(),
                r@ == lower_all(term@.take(i as int)),
            decreases n - i,
        {
            assert(term@.take(i + 1).drop_last() =~= term@.take(i as int));
            let l = lower(term[i]);
            push_all(&mut r, &l);
            i = i + 1;
        }
        r
    }

    /// Whether all suggestions have the same first `len` characters, ignoring case (and there
    /// is at least one).
    pub fn suggestions_share_prefix(&self, len: usize) -> (r: bool)
        ensures
            r == share_prefix_spec(terms_of(self.suggestions@), len as int),
    {
        let ghost terms = terms_of(self.suggestions@);
        if self.suggestions.len() == 0 {
            return false;
        }
        let first = Self::prefix_lowercase(&chars_of(self.suggestions[0].term.as_str()), len);
        let mut i: usize = 1;
        while i < self.suggestions.len()
            invariant
                1 <= i <= self.suggestions@.len(),
                terms == terms_of(self.suggestions@),
                first@ == prefix_lower(terms[0], len as int),
                forall|j: int| 0 <= j < i ==> #[trigger] prefix_lower(terms[j], len as int) == prefix_lower(terms[0], len as int),
            decreases self.suggestions.len() - i,
        {
            let p = Self::prefix_lowercase(&chars_of(self.suggestions[i].term.as_str()), len);
            assert(terms[i as int] == self.suggestions@[i as int].term@);
            if !crate::text::eq_chars(&p, &first) {
                assert(prefix_lower(terms[i as int], len as int) != prefix_lower(terms[0], len as int));
                return false;
            }
            i = i + 1;
        }
        true
    }

    /// The shortest length of a term.
    fn min_term_len(&self) -> (r: usize)
        requires
            self.suggestions@.len() > 0,
        ensures
            r == min_len(terms_of(self.suggestions@)),
    {
        let ghost terms = terms_of(self.suggestions@);
        let mut m = chars_of(self.suggestions[0].term.as_str()).len();
        let mut i: usize = 1;
        while i < self.suggestions.len()
            invariant
                1 <= i <= self.suggestions@.len(),
                terms == terms_of(self.suggestions@),
                m == min_len(terms.take(i as int)),
            decreases self.suggestions.len() - i,
        {
            assert(terms.take(i + 1).drop_last() =~= terms.take(i as int));
            let l = chars_of(self.suggestions[i].term.as_str()).len();
            if l < m {
                m = l;
            }
            i = i + 1;
        }
        assert(terms.take(self.suggestions@.len() as int) =~= terms);
        m
    }

    /// Expands the query to the longest start that all suggestions share (ignoring case), as
    /// the first suggestion writes it. The query itself must be such a start of every term
    /// (its length is where the expansion starts); without suggestions nothing changes.
    pub fn expand_match(self) -> (r: Autocomplete)
        requires
            self.suggestions@.len() > 0 ==> self.query@.len() <= min_len(terms_of(self.suggestions@))
                && share_prefix_spec(terms_of(self.suggestions@), self.query@.len() as int),
            min_len(terms_of(self.suggestions@)) < usize::MAX,
        ensures
            r.suggestions@ == self.suggestions@,
            r.selected == self.selected,
            self.suggestions@.len() == 0 ==> r.query@ == self.query@,
            self.suggestions@.len() > 0 ==> r.query@ == self.query@ + terms_of(
                self.suggestions@,
            )[0].subrange(
                self.query@.len() as int,
                expand_end(terms_of(self.suggestions@), self.query@.len() as int) - 1,
            ),
    {
        if self.suggestions.len() == 0 {
            return self;
        }
        let ghost terms = terms_of(self.suggestions@);
        proof {
            lemma_min_len(terms);
        }
        let min_suggestion_len = self.min_term_len();
        let q = chars_of(self.query.as_str());
        let mut expanded_end = q.len();
        while expanded_end <= min_suggestion_len && self.suggestions_share_prefix(expanded_end)
            invariant
                q@.len() <= expanded_end <= min_suggestion_len + 1,
                min_suggestion_len == min_len(terms),
                min_suggestion_len < usize::MAX,
                terms == terms_of(self.suggestions@),
                expand_end(terms, q@.len() as int) == expand_end(terms, expanded_end as int),
                expanded_end > q@.len() || (q@.len() <= min_suggestion_len && share_prefix_spec(terms, q@.len() as int)),
            decreases min_suggestion_len + 1 - expanded_end,
        {
            expanded_end = expanded_end + 1;
        }
        let first = chars_of(self.suggestions[0].term.as_str());
        proof {
            assert(expanded_end > q@.len());
            assert(min_len(terms) <= terms[0].len());
        }
        let mut next: Vec<char> = Vec::new();
        push_all(&mut next, &q);
        let additions = crate::text::sub_chars(&first, q.len(), expanded_end - 1);
        push_all(&mut next, &additions);
        Autocomplete {
            suggestions: self.suggestions,
            selected: self.selected,
            query: string_of(&next),
        }
    }
}

} // verus!
