//! The lexicographic order of texts, and sorting lines of text by it.

use crate::app::command::runnable::{suggestions_text, AutocompleteSuggestion};
use crate::text::{chars_of, fold_case};
use vstd::prelude::*;

verus! {

/// `a` comes before `b` when compared from position `i` on: at the first position where they
/// differ the character of `a` is smaller, or `a` ends first.
pub open spec fn lex_lt_from(a: Seq<char>, b: Seq<char>, i: int) -> bool
    decreases a.len() - i,
{
    if i < 0 || i >= a.len() {
        0 <= i < b.len()
    } else if i >= b.len() {
        false
    } else if a[i] != b[i] {
        (a[i] as int) < (b[i] as int)
    } else {
        lex_lt_from(a, b, i + 1)
    }
}

/// `a` comes strictly before `b` in the lexicographic order of characters (that of `String`,
/// since UTF-8 keeps the order of code points).
pub open spec fn lex_lt(a: Seq<char>, b: Seq<char>) -> bool {
    lex_lt_from(a, b, 0)
}

/// Whether `a` comes strictly before `b`: see [`lex_lt`].
pub fn lex_less(a: &Vec<char>, b: &Vec<char>) -> (r: bool)
    ensures
        r == lex_lt(a@, b@),
{
    let mut i: usize = 0;
    while i < a.len() && i < b.len() && a[i] == b[i]
        invariant
            i <= a.len(),
            i <= b.len(),
            lex_lt(a@, b@) == lex_lt_from(a@, b@, i as int),
        decreases a.len() - i,
    {
        i = i + 1;
    }
    if i >= a.len() {
        i < b.len()
    } else if i >= b.len() {
        false
    } else {
        assert(a@[i as int] != b@[i as int]);
        a[i] < b[i]
    }
}

/// `x` inserted into `s` before the first line that it comes strictly before.
pub open spec fn insert_line(s: Seq<Seq<char>>, x: Seq<char>) -> Seq<Seq<char>>
    decreases s.len(),
{
    if s.len() == 0 {
        seq![x]
    } else if lex_lt(x, s[0]) {
        seq![x] + s
    } else {
        seq![s[0]] + insert_line(s.drop_first(), x)
    }
}

/// The lines of `s` in lexicographic order (equal lines keep their order).
pub open spec fn sort_lines(s: Seq<Seq<char>>) -> Seq<Seq<char>>
    decreases s.len(),
{
    if s.len() == 0 {
        s
    } else {
        insert_line(sort_lines(s.drop_last()), s.last())
    }
}

/// Inserting before the first line that `x` comes before is putting it at that index.
proof fn lemma_insert_line_at(s: Seq<Seq<char>>, x: Seq<char>, i: int)
    requires
        0 <= i <= s.len(),
        forall|j: int| 0 <= j < i ==> !lex_lt(x, #[trigger] s[j]),
        i < s.len() ==> lex_lt(x, s[i]),
    ensures
        insert_line(s, x) == s.take(i) + seq![x] + s.skip(i),
    decreases s.len(),
{
    if s.len() == 0 {
        assert(s.take(i) + seq![x] + s.skip(i) =~= seq![x]);
    } else if i == 0 {
        assert(s.take(i) + seq![x] + s.skip(i) =~= seq![x] + s);
    } else {
        let t = s.drop_first();
        assert forall|j: int| 0 <= j < i - 1 implies !lex_lt(x, #[trigger] t[j]) by {
            assert(t[j] == s[j + 1]);
        }
        lemma_insert_line_at(t, x, i - 1);
        assert(seq![s[0]] + (t.take(i - 1) + seq![x] + t.skip(i - 1)) =~= s.take(i) + seq![x]
            + s.skip(i));
    }
}

/// Inserts `x` into `v` before the first line that it comes strictly before.
fn insert_sorted(v: &mut Vec<Vec<char>>, x: Vec<char>)
    ensures
        lines_view(final(v)@) == insert_line(lines_view(old(v)@), x@),
{
    let ghost s = lines_view(v@);
    let mut i: usize = 0;
    while i < v.len() && !lex_less(&x, &v[i])
        invariant
            i <= v@.len(),
            s == lines_view(v@),
            forall|j: int| 0 <= j < i ==> !lex_lt(x@, #[trigger] s[j]),
        decreases v.len() - i,
    {
        i = i + 1;
    }
    proof {
        lemma_insert_line_at(s, x@, i as int);
    }
    let ghost before = v@;
    v.insert(i, x);
    assert(lines_view(v@) =~= s.take(i as int) + seq![x@] + s.skip(i as int));
}

/// The characters of each line.
pub open spec fn lines_view(v: Seq<Vec<char>>) -> Seq<Seq<char>> {
    v.map_values(|l: Vec<char>| l@)
}

/// The lines of `v` in lexicographic order: see [`sort_lines`].
pub fn sorted(v: Vec<Vec<char>>) -> (r: Vec<Vec<char>>)
    ensures
        lines_view(r@) == sort_lines(lines_view(v@)),
{
    let ghost s = lines_view(v@);
    let mut out: Vec<Vec<char>> = Vec::new();
    let mut rest = v;
    let mut done: usize = 0;
    let ghost all = rest@;
    let n = rest.len();
    while rest.len() > 0
        invariant
            done + rest@.len() == n,
            n == all.len(),
            s == lines_view(all),
            rest@ == all.skip(done as int),
            lines_view(out@) == sort_lines(s.take(done as int)),
        decreases rest.len(),
    {
        let x = rest.remove(0);
        assert(x == all[done as int]);
        assert(s.take(done + 1).drop_last() =~= s.take(done as int));
        insert_sorted(&mut out, x);
        done = done + 1;
        assert(rest@ =~= all.skip(done as int));
    }
    assert(s.take(n as int) =~= s);
    out
}

/// The lines of `s`, one after the other.
pub open spec fn concat(s: Seq<Seq<char>>) -> Seq<char>
    decreases s.len(),
{
    if s.len() == 0 {
        Seq::empty()
    } else {
        concat(s.drop_last()) + s.last()
    }
}

/// Appends the lines of `v`, one after the other, to `dst`.
pub fn push_lines(dst: &mut Vec<char>, v: &Vec<Vec<char>>)
    ensures
        final(dst)@ == old(dst)@ + concat(lines_view(v@)),
{
    let ghost start = dst@;
    let mut i: usize = 0;
    while i < v.len()
        invariant
            i <= v@.len(),
            dst@ == start + concat(lines_view(v@).take(i as int)),
        decreases v.len() - i,
    {
        let ghost before = dst@;
        crate::text::push_all(dst, &v[i]);
        assert(lines_view(v@).take(i + 1).drop_last() =~= lines_view(v@).take(i as int));
        assert(dst@ =~= start + concat(lines_view(v@).take(i + 1)));
        i = i + 1;
    }
    assert(lines_view(v@).take(v@.len() as int) =~= lines_view(v@));
}

/// No line of `s` comes strictly before the one after it, nor before any later one.
pub open spec fn lines_sorted(s: Seq<Seq<char>>) -> bool {
    forall|i: int, j: int| 0 <= i < j < s.len() ==> !lex_lt(#[trigger] s[j], #[trigger] s[i])
}

/// `a` and `b` have the same length and agree from position `i` on.
spec fn same_from(a: Seq<char>, b: Seq<char>, i: int) -> bool {
    a.len() == b.len() && forall|k: int| i <= k < a.len() ==> a[k] == b[k]
}

/// Two texts that differ from position `i` on are ordered one way or the other, and not both.
proof fn lemma_lex_total_from(a: Seq<char>, b: Seq<char>, i: int)
    requires
        0 <= i <= a.len(),
        i <= b.len(),
        !same_from(a, b, i),
    ensures
        lex_lt_from(a, b, i) || lex_lt_from(b, a, i),
        !(lex_lt_from(a, b, i) && lex_lt_from(b, a, i)),
    decreases a.len() - i,
{
    if i < a.len() && i < b.len() {
        if a[i] == b[i] {
            assert(!same_from(a, b, i + 1));
            lemma_lex_total_from(a, b, i + 1);
        } else {
            assert(a[i] as int != b[i] as int);
        }
    } else if i == a.len() && i == b.len() {
        assert(same_from(a, b, i));
    }
}

/// A text never comes strictly before itself.
proof fn lemma_lex_irreflexive_from(a: Seq<char>, i: int)
    requires
        0 <= i,
    ensures
        !lex_lt_from(a, a, i),
    decreases a.len() - i,
{
    if i < a.len() {
        lemma_lex_irreflexive_from(a, i + 1);
    }
}

/// The lexicographic order is transitive.
proof fn lemma_lex_transitive_from(a: Seq<char>, b: Seq<char>, c: Seq<char>, i: int)
    requires
        0 <= i,
        lex_lt_from(a, b, i),
        lex_lt_from(b, c, i),
    ensures
        lex_lt_from(a, c, i),
    decreases a.len() - i,
{
    if i < a.len() && i < b.len() && i < c.len() && a[i] == b[i] && b[i] == c[i] {
        lemma_lex_transitive_from(a, b, c, i + 1);
    }
}

/// Of two different texts, one comes strictly before the other.
pub proof fn lemma_lex_total(a: Seq<char>, b: Seq<char>)
    requires
        a != b,
    ensures
        lex_lt(a, b) || lex_lt(b, a),
        !(lex_lt(a, b) && lex_lt(b, a)),
{
    if same_from(a, b, 0) {
        assert(a =~= b);
    }
    lemma_lex_total_from(a, b, 0);
}

/// Inserting `x` where each line is at least `m`, with `x` at least `m` too, keeps every line at
/// least `m`.
proof fn lemma_insert_line_bound(s: Seq<Seq<char>>, x: Seq<char>, m: Seq<char>)
    requires
        forall|k: int| 0 <= k < s.len() ==> !lex_lt(#[trigger] s[k], m),
        !lex_lt(x, m),
    ensures
        forall|k: int| 0 <= k < insert_line(s, x).len() ==> !lex_lt(#[trigger] insert_line(s, x)[k], m),
        insert_line(s, x).len() == s.len() + 1,
    decreases s.len(),
{
    if s.len() > 0 && !lex_lt(x, s[0]) {
        let t = s.drop_first();
        assert forall|k: int| 0 <= k < t.len() implies !lex_lt(#[trigger] t[k], m) by {
            assert(t[k] == s[k + 1]);
        }
        lemma_insert_line_bound(t, x, m);
        let r = insert_line(s, x);
        assert forall|k: int| 0 <= k < r.len() implies !lex_lt(#[trigger] r[k], m) by {
            if k > 0 {
                assert(r[k] == insert_line(t, x)[k - 1]);
            }
        }
    }
}

/// A line that comes strictly before the first of sorted lines comes strictly before all of them.
proof fn lemma_before_first(s: Seq<Seq<char>>, x: Seq<char>)
    requires
        lines_sorted(s),
        s.len() > 0,
        lex_lt(x, s[0]),
    ensures
        forall|k: int| 0 <= k < s.len() ==> lex_lt(x, #[trigger] s[k]),
{
    assert forall|k: int| 0 <= k < s.len() implies lex_lt(x, #[trigger] s[k]) by {
        if k > 0 && s[k] != s[0] {
            lemma_lex_total(s[k], s[0]);
            lemma_lex_transitive_from(x, s[0], s[k], 0);
        }
    }
}

/// Inserting a line into sorted lines keeps them sorted.
pub proof fn lemma_insert_line_sorted(s: Seq<Seq<char>>, x: Seq<char>)
    requires
        lines_sorted(s),
    ensures
        lines_sorted(insert_line(s, x)),
    decreases s.len(),
{
    let r = insert_line(s, x);
    if s.len() == 0 {
    } else if lex_lt(x, s[0]) {
        lemma_before_first(s, x);
        assert forall|i: int, j: int| 0 <= i < j < r.len() implies !lex_lt(
            #[trigger] r[j],
            #[trigger] r[i],
        ) by {
            if i == 0 {
                assert(r[j] == s[j - 1]);
                assert(lex_lt(x, s[j - 1]));
                if lex_lt(s[j - 1], x) {
                    lemma_lex_transitive_from(x, s[j - 1], x, 0);
                    lemma_lex_irreflexive_from(x, 0);
                }
            } else {
                assert(r[i] == s[i - 1] && r[j] == s[j - 1]);
            }
        }
    } else {
        let t = s.drop_first();
        assert forall|i: int, j: int| 0 <= i < j < t.len() implies !lex_lt(
            #[trigger] t[j],
            #[trigger] t[i],
        ) by {
            assert(t[i] == s[i + 1] && t[j] == s[j + 1]);
        }
        lemma_insert_line_sorted(t, x);
        assert forall|k: int| 0 <= k < t.len() implies !lex_lt(#[trigger] t[k], s[0]) by {
            assert(t[k] == s[k + 1]);
        }
        lemma_insert_line_bound(t, x, s[0]);
        let rt = insert_line(t, x);
        assert forall|i: int, j: int| 0 <= i < j < r.len() implies !lex_lt(
            #[trigger] r[j],
            #[trigger] r[i],
        ) by {
            assert(r[j] == rt[j - 1]);
            if i > 0 {
                assert(r[i] == rt[i - 1]);
            }
        }
    }
}

/// Inserting a line adds it to the lines, which otherwise stay as they were.
pub proof fn lemma_insert_line_multiset(s: Seq<Seq<char>>, x: Seq<char>)
    ensures
        insert_line(s, x).to_multiset() =~= s.to_multiset().insert(x),
    decreases s.len(),
{
    broadcast use vstd::seq_lib::group_to_multiset_ensures;

    if s.len() == 0 {
        assert(seq![x] =~= s.push(x));
    } else if lex_lt(x, s[0]) {
        assert(seq![x] + s =~= s.insert(0, x));
    } else {
        let t = s.drop_first();
        lemma_insert_line_multiset(t, x);
        let rt = insert_line(t, x);
        assert(seq![s[0]] + rt =~= rt.insert(0, s[0]));
        assert(s =~= t.insert(0, s[0]));
    }
}

/// The sorted lines are sorted, and are the same lines.
pub proof fn lemma_sort_lines(s: Seq<Seq<char>>)
    ensures
        lines_sorted(sort_lines(s)),
        sort_lines(s).to_multiset() =~= s.to_multiset(),
    decreases s.len(),
{
    broadcast use vstd::seq_lib::group_to_multiset_ensures;

    if s.len() > 0 {
        lemma_sort_lines(s.drop_last());
        lemma_insert_line_sorted(sort_lines(s.drop_last()), s.last());
        lemma_insert_line_multiset(sort_lines(s.drop_last()), s.last());
        assert(s =~= s.drop_last().push(s.last()));
    }
}

/// `a` comes before `b` when compared from position `i` on, ignoring ASCII case: at the first
/// position where they differ so, the character of `a` folds to a smaller one, or `a` ends first.
pub open spec fn ci_lt_from(a: Seq<char>, b: Seq<char>, i: int) -> bool
    decreases a.len() - i,
{
    if i < 0 || i >= a.len() {
        0 <= i < b.len()
    } else if i >= b.len() {
        false
    } else if fold_case(a[i]) != fold_case(b[i]) {
        fold_case(a[i]) < fold_case(b[i])
    } else {
        ci_lt_from(a, b, i + 1)
    }
}

/// `a` comes strictly before `b` in the lexicographic order of characters, ignoring ASCII case.
pub open spec fn ci_lt(a: Seq<char>, b: Seq<char>) -> bool {
    ci_lt_from(a, b, 0)
}

/// The number of a character folded to lower case (ASCII letters only).
fn folded(c: char) -> (r: u32)
    ensures
        r == fold_case(c),
{
    if 'A' <= c && c <= 'Z' {
        c as u32 + 32
    } else {
        c as u32
    }
}

/// Whether `a` comes strictly before `b`, ignoring ASCII case: see [`ci_lt`].
pub fn ci_less(a: &Vec<char>, b: &Vec<char>) -> (r: bool)
    ensures
        r == ci_lt(a@, b@),
{
    let mut i: usize = 0;
    while i < a.len() && i < b.len() && folded(a[i]) == folded(b[i])
        invariant
            i <= a.len(),
            i <= b.len(),
            ci_lt(a@, b@) == ci_lt_from(a@, b@, i as int),
        decreases a.len() - i,
    {
        i = i + 1;
    }
    if i >= a.len() {
        i < b.len()
    } else if i >= b.len() {
        false
    } else {
        folded(a[i]) < folded(b[i])
    }
}

/// `x` inserted into `s` before the first suggestion whose term it comes strictly before,
/// ignoring ASCII case.
pub open spec fn insert_suggestion(s: Seq<(Seq<char>, Seq<char>)>, x: (Seq<char>, Seq<char>)) -> Seq<
    (Seq<char>, Seq<char>),
>
    decreases s.len(),
{
    if s.len() == 0 {
        seq![x]
    } else if ci_lt(x.0, s[0].0) {
        seq![x] + s
    } else {
        seq![s[0]] + insert_suggestion(s.drop_first(), x)
    }
}

/// The suggestions of `s` ordered by term, ignoring ASCII case; those with terms that are equal
/// so keep their order.
pub open spec fn sort_suggestions(s: Seq<(Seq<char>, Seq<char>)>) -> Seq<(Seq<char>, Seq<char>)>
    decreases s.len(),
{
    if s.len() == 0 {
        s
    } else {
        insert_suggestion(sort_suggestions(s.drop_last()), s.last())
    }
}

/// Inserting before the first suggestion that `x` comes before is putting it at that index.
proof fn lemma_insert_suggestion_at(
    s: Seq<(Seq<char>, Seq<char>)>,
    x: (Seq<char>, Seq<char>),
    i: int,
)
    requires
        0 <= i <= s.len(),
        forall|j: int| 0 <= j < i ==> !ci_lt(x.0, #[trigger] s[j].0),
        i < s.len() ==> ci_lt(x.0, s[i].0),
    ensures
        insert_suggestion(s, x) == s.take(i) + seq![x] + s.skip(i),
    decreases s.len(),
{
    if s.len() == 0 {
        assert(s.take(i) + seq![x] + s.skip(i) =~= seq![x]);
    } else if i == 0 {
        assert(s.take(i) + seq![x] + s.skip(i) =~= seq![x] + s);
    } else {
        let t = s.drop_first();
        assert forall|j: int| 0 <= j < i - 1 implies !ci_lt(x.0, #[trigger] t[j].0) by {
            assert(t[j] == s[j + 1]);
        }
        lemma_insert_suggestion_at(t, x, i - 1);
        assert(seq![s[0]] + (t.take(i - 1) + seq![x] + t.skip(i - 1)) =~= s.take(i) + seq![x]
            + s.skip(i));
    }
}

/// Inserts `x` into `v` before the first suggestion whose term it comes strictly before.
fn insert_sorted_suggestion(v: &mut Vec<AutocompleteSuggestion>, x: AutocompleteSuggestion)
    ensures
        suggestions_text(final(v)@) == insert_suggestion(
            suggestions_text(old(v)@),
            (x.term@, x.summary@),
        ),
{
    let ghost s = suggestions_text(v@);
    let key = chars_of(x.term.as_str());
    let mut i: usize = 0;
    while i < v.len() && !ci_less(&key, &chars_of(v[i].term.as_str()))
        invariant
            i <= v@.len(),
            s == suggestions_text(v@),
            key@ == x.term@,
            forall|j: int| 0 <= j < i ==> !ci_lt(x.term@, #[trigger] s[j].0),
        decreases v.len() - i,
    {
        i = i + 1;
    }
    proof {
        lemma_insert_suggestion_at(s, (x.term@, x.summary@), i as int);
    }
    v.insert(i, x);
    assert(suggestions_text(v@) =~= s.take(i as int) + seq![(x.term@, x.summary@)] + s.skip(
        i as int,
    ));
}

/// The suggestions of `v` ordered by term, ignoring ASCII case: see [`sort_suggestions`].
pub fn sorted_suggestions(v: Vec<AutocompleteSuggestion>) -> (r: Vec<AutocompleteSuggestion>)
    ensures
        suggestions_text(r@) == sort_suggestions(suggestions_text(v@)),
{
    let ghost s = suggestions_text(v@);
    let mut out: Vec<AutocompleteSuggestion> = Vec::new();
    let mut rest = v;
    let mut done: usize = 0;
    let ghost all = rest@;
    let n = rest.len();
    while rest.len() > 0
        invariant
            done + rest@.len() == n,
            n == all.len(),
            s == suggestions_text(all),
            rest@ == all.skip(done as int),
            suggestions_text(out@) == sort_suggestions(s.take(done as int)),
        decreases rest.len(),
    {
        let x = rest.remove(0);
        assert(x == all[done as int]);
        assert(s.take(done + 1).drop_last() =~= s.take(done as int));
        insert_sorted_suggestion(&mut out, x);
        done = done + 1;
        assert(rest@ =~= all.skip(done as int));
    }
    assert(s.take(n as int) =~= s);
    out
}

} // verus!

verus! {

/// `c` with an ASCII upper-case letter made lower case.
pub open spec fn ascii_lower(c: char) -> char {
    if 'A' <= c && c <= 'Z' {
        ((c as int) + 32) as char
    } else {
        c
    }
}

/// `s` with its ASCII upper-case letters made lower case.
pub open spec fn lower_text(s: Seq<char>) -> Seq<char> {
    Seq::new(s.len(), |i: int| ascii_lower(s[i]))
}

/// The order that ignores ASCII case, from position `i` on, is the lexicographic order of the
/// texts made lower case.
proof fn lemma_ci_lt_from_lower(a: Seq<char>, b: Seq<char>, i: int)
    requires
        0 <= i,
    ensures
        ci_lt_from(a, b, i) == lex_lt_from(lower_text(a), lower_text(b), i),
    decreases a.len() - i,
{
    let la = lower_text(a);
    let lb = lower_text(b);
    if i < a.len() && i < b.len() {
        let x = a[i];
        let y = b[i];
        assert(la[i] == ascii_lower(x));
        assert(lb[i] == ascii_lower(y));
        if 'A' <= x && x <= 'Z' {
            assert(((x as int) + 32) as char as int == x as int + 32);
        }
        if 'A' <= y && y <= 'Z' {
            assert(((y as int) + 32) as char as int == y as int + 32);
        }
        assert(fold_case(x) == la[i] as int);
        assert(fold_case(y) == lb[i] as int);
        if fold_case(x) == fold_case(y) {
            lemma_ci_lt_from_lower(a, b, i + 1);
        }
    }
}

/// The order in which names are listed (see [`ci_less`]) does not depend on ASCII case: `a`
/// comes before `b` exactly when `a` made lower case comes before `b` made lower case in the
/// lexicographic order of characters.
pub proof fn lemma_ci_lt_is_lower_order(a: Seq<char>, b: Seq<char>)
    ensures
        ci_lt(a, b) == lex_lt(lower_text(a), lower_text(b)),
{
    lemma_ci_lt_from_lower(a, b, 0);
}

} // verus!
