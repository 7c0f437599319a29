//! Wrapping text to the width of the terminal.

use crate::text::{
    char_utf8_len, chars_of, is_whitespace, is_whitespace_spec, lemma_utf8_len_add, string_of, sub_chars,
    trim_end_len, trim_end_spec, utf8_len, utf8_len_of,
};
use vstd::prelude::*;

verus! {

/// The length of the first piece of `s`: up to and including its first whitespace character, or
/// all of `s` where it has none.
pub open spec fn piece_len(s: Seq<char>) -> int
    decreases s.len(),
{
    if s.len() == 0 {
        0
    } else if is_whitespace_spec(s[0]) {
        1
    } else {
        1 + piece_len(s.drop_first())
    }
}

/// The first piece of a non-empty text is not empty and ends at its first whitespace character.
pub proof fn lemma_piece_len(s: Seq<char>)
    ensures
        s.len() > 0 ==> 1 <= piece_len(s) <= s.len(),
        s.len() == 0 ==> piece_len(s) == 0,
        forall|k: int| 0 <= k < piece_len(s) - 1 ==> !is_whitespace_spec(#[trigger] s[k]),
        piece_len(s) < s.len() ==> is_whitespace_spec(s[piece_len(s) - 1]),
    decreases s.len(),
{
    if s.len() > 0 && !is_whitespace_spec(s[0]) {
        lemma_piece_len(s.drop_first());
        assert forall|k: int| 0 <= k < piece_len(s) - 1 implies !is_whitespace_spec(
            #[trigger] s[k],
        ) by {
            if k > 0 {
                assert(s[k] == s.drop_first()[k - 1]);
            }
        }
        if piece_len(s) < s.len() {
            assert(s[piece_len(s) - 1] == s.drop_first()[piece_len(s.drop_first()) - 1]);
        }
    }
}

/// Text that is all whitespace trims to nothing.
pub proof fn lemma_trim_end_all_whitespace(s: Seq<char>)
    requires
        forall|i: int| 0 <= i < s.len() ==> is_whitespace_spec(#[trigger] s[i]),
    ensures
        trim_end_spec(s).len() == 0,
    decreases s.len(),
{
    if s.len() > 0 {
        assert(is_whitespace_spec(s[s.len() - 1]));
        lemma_trim_end_all_whitespace(s.drop_last());
    }
}

/// `s` split after each whitespace character, as `str::split_inclusive(char::is_whitespace)`
/// splits it: every piece but the last ends with whitespace, and no piece is empty.
pub open spec fn pieces(s: Seq<char>) -> Seq<Seq<char>>
    decreases s.len(),
{
    if s.len() == 0 {
        Seq::empty()
    } else {
        proof {
            lemma_piece_len(s);
        }
        seq![s.take(piece_len(s))] + pieces(s.skip(piece_len(s)))
    }
}

/// A word too long for a line, with a line break after every `n`-th character that is not
/// whitespace.
pub open spec fn break_word(w: Seq<char>, n: int) -> Seq<char>
    decreases w.len(),
{
    if w.len() == 0 {
        Seq::empty()
    } else {
        let i = w.len() - 1;
        let rest = break_word(w.drop_last(), n);
        if i % n == n - 1 && !is_whitespace_spec(w.last()) {
            rest.push(w.last()).push('\n')
        } else {
            rest.push(w.last())
        }
    }
}

/// The text so far and the length in bytes of its last line after one more piece: the piece is
/// appended where it fits (without its trailing whitespace) on the line; else the line ends
/// there, without trailing whitespace, and the piece starts the next one, broken into lines of
/// `n` where it is longer than a line.
pub open spec fn wrap_step(st: (Seq<char>, int), w: Seq<char>, n: int) -> (Seq<char>, int) {
    let text = st.0;
    let line = st.1;
    let wl = utf8_len(trim_end_spec(w)) as int;
    if wl + line <= n {
        (text + w, if w.len() > 0 && w.last() == '\n' {
            0
        } else {
            line + utf8_len(w)
        })
    } else {
        let base = trim_end_spec(text).push('\n');
        if wl > n {
            (base + break_word(w, n), utf8_len(w) as int % n)
        } else {
            (base + w, utf8_len(w) as int)
        }
    }
}

/// The state after a run of pieces.
pub open spec fn wrap_pieces(st: (Seq<char>, int), ws: Seq<Seq<char>>, n: int) -> (
    Seq<char>,
    int,
)
    decreases ws.len(),
{
    if ws.len() == 0 {
        st
    } else {
        wrap_pieces(wrap_step(st, ws[0], n), ws.drop_first(), n)
    }
}

/// `s` wrapped to lines of `n` bytes.
pub open spec fn wrap_spec(s: Seq<char>, n: int) -> Seq<char> {
    wrap_pieces((Seq::empty(), 0), pieces(s), n).0
}

/// The end of the piece of `s` that starts at `pos`.
fn piece_end(s: &Vec<char>, pos: usize) -> (k: usize)
    requires
        pos < s@.len(),
    ensures
        pos < k <= s@.len(),
        k - pos == piece_len(s@.skip(pos as int)),
        s@.skip(pos as int).skip(k - pos) == s@.skip(k as int),
{
    let ghost rest = s@.skip(pos as int);
    proof {
        lemma_piece_len(rest);
    }
    let mut k = pos;
    while k < s.len() && !is_whitespace(s[k])
        invariant
            pos <= k <= s.len(),
            s@.skip(pos as int) == rest,
            forall|j: int| pos <= j < k ==> !is_whitespace_spec(#[trigger] s@[j]),
        decreases s.len() - k,
    {
        k = k + 1;
    }
    if k < s.len() {
        k = k + 1;
    }
    proof {
        let m = k - pos;
        if m < rest.len() {
            assert(is_whitespace_spec(rest[m - 1]));
        }
        if piece_len(rest) < m {
            assert(rest[piece_len(rest) - 1] == s@[pos + piece_len(rest) - 1]);
        }
        if m < piece_len(rest) {
            assert(rest[m - 1] == s@[k - 1]);
        }
        assert(rest.skip(m) =~= s@.skip(k as int));
    }
    k
}

/// Appends one piece to the wrapped text whose last line is `cur` bytes long, giving the new
/// length of the last line: see [`wrap_step`].
fn wrap_word(result: &mut Vec<char>, cur: usize, word: &Vec<char>, line_len: usize) -> (r: usize)
    requires
        word@.len() > 0,
        cur + utf8_len(word@) <= usize::MAX,
        line_len > 0 || forall|j: int| 0 <= j < word@.len() ==> is_whitespace_spec(#[trigger] word@[j]),
    ensures
        (final(result)@, r as int) == wrap_step((old(result)@, cur as int), word@, line_len as int),
        r <= cur + utf8_len(word@),
{
    let trimmed = trim_end_len(word);
    proof {
        assert(word@.subrange(0, word@.len() as int) =~= word@);
        assert(word@.subrange(0, trimmed as int) =~= word@.take(trimmed as int));
        assert(word@.take(trimmed as int) + word@.skip(trimmed as int) =~= word@);
        lemma_utf8_len_add(word@.take(trimmed as int), word@.skip(trimmed as int));
    }
    let all_len = utf8_len_of(word, 0, word.len());
    let word_len = utf8_len_of(word, 0, trimmed);
    if word_len + cur <= line_len {
        crate::text::push_all(result, word);
        if word[word.len() - 1] == '\n' {
            0
        } else {
            cur + all_len
        }
    } else {
        let h = trim_end_len(result);
        result.truncate(h);
        result.push('\n');
        if word_len > line_len {
            proof {
                if line_len == 0 {
                    lemma_trim_end_all_whitespace(word@);
                    assert(word@.take(trimmed as int).len() == 0);
                    assert(word@.subrange(0, trimmed as int) =~= Seq::<char>::empty());
                }
            }
            let ghost base = result@;
            let mut i: usize = 0;
            while i < word.len()
                invariant
                    i <= word@.len(),
                    line_len > 0,
                    result@ == base + break_word(word@.take(i as int), line_len as int),
                decreases word.len() - i,
            {
                let c = word[i];
                assert(word@.take(i + 1).drop_last() =~= word@.take(i as int));
                result.push(c);
                if i % line_len == line_len - 1 && !is_whitespace(c) {
                    result.push('\n');
                }
                i = i + 1;
                assert(result@ =~= base + break_word(word@.take(i as int), line_len as int));
            }
            assert(word@.take(word@.len() as int) =~= word@);
            all_len % line_len
        } else {
            crate::text::push_all(result, word);
            all_len
        }
    }
}

/// Wraps `input` to lines of at most `line_len` bytes where its words allow: words are kept
/// whole where they fit, and a word longer than a line is broken. `line_len` may be 0 only for
/// text that is all whitespace, as a word longer than a line is broken every `line_len`
/// characters.
pub fn wrap(input: &str, line_len: usize) -> (r: String)
    requires
        line_len > 0 || forall|i: int| 0 <= i < input@.len() ==> is_whitespace_spec(#[trigger] input@[i]),
        utf8_len(input@) <= usize::MAX,
    ensures
        r@ == wrap_spec(input@, line_len as int),
{
    let s = chars_of(input);
    let ghost n = line_len as int;
    let mut result: Vec<char> = Vec::new();
    let mut cur: usize = 0;
    let mut pos: usize = 0;
    assert(s@.skip(0) =~= s@);
    while pos < s.len()
        invariant
            s@ == input@,
            n == line_len,
            line_len > 0 || forall|i: int| 0 <= i < s@.len() ==> is_whitespace_spec(#[trigger] s@[i]),
            utf8_len(s@) <= usize::MAX,
            pos <= s.len(),
            cur <= utf8_len(s@.take(pos as int)),
            wrap_pieces((result@, cur as int), pieces(s@.skip(pos as int)), n) == wrap_pieces(
                (Seq::empty(), 0),
                pieces(s@),
                n,
            ),
        decreases s.len() - pos,
    {
        let ghost rest = s@.skip(pos as int);
        let k = piece_end(&s, pos);
        let word = sub_chars(&s, pos, k);
        proof {
            assert(word@ =~= rest.take(k - pos));
            assert(pieces(rest) == seq![word@] + pieces(s@.skip(k as int)));
            assert(pieces(rest).drop_first() =~= pieces(s@.skip(k as int)));
            lemma_utf8_len_add(s@.take(pos as int), word@);
            assert(s@.take(pos as int) + word@ =~= s@.take(k as int));
            lemma_utf8_len_add(s@.take(k as int), s@.skip(k as int));
            assert(s@.take(k as int) + s@.skip(k as int) =~= s@);
        }
        let ghost before = (result@, cur as int);
        proof {
            if line_len == 0 {
                assert forall|j: int| 0 <= j < word@.len() implies is_whitespace_spec(
                    #[trigger] word@[j],
                ) by {
                    assert(word@[j] == s@[pos + j]);
                }
            }
        }
        cur = wrap_word(&mut result, cur, &word, line_len);
        assert((result@, cur as int) == wrap_step(before, word@, n));
        pos = k;
    }
    string_of(&result)
}

} // verus!

verus! {

/// The length in bytes of the last line of `s`: of what follows its last line break.
pub open spec fn last_line_len(s: Seq<char>) -> nat
    decreases s.len(),
{
    if s.len() == 0 {
        0
    } else if s.last() == '\n' {
        0
    } else {
        last_line_len(s.drop_last()) + char_utf8_len(s.last())
    }
}

/// Every character of `s` is ASCII, and none is a line break.
pub open spec fn ascii_no_break(s: Seq<char>) -> bool {
    forall|k: int| 0 <= k < s.len() ==> (s[k] as u32) < 0x80 && #[trigger] s[k] != '\n'
}

/// Appending text never makes the last line shorter than the last line of what was appended.
proof fn lemma_last_line_concat(a: Seq<char>, b: Seq<char>)
    ensures
        last_line_len(a + b) >= last_line_len(b),
    decreases b.len(),
{
    if b.len() > 0 {
        lemma_last_line_concat(a, b.drop_last());
        assert((a + b).drop_last() =~= a + b.drop_last());
        assert((a + b).last() == b.last());
    }
}

/// An ASCII word without line breaks, broken every `n` characters, ends with a line of at least
/// its length modulo `n`.
proof fn lemma_break_word_last_line(w: Seq<char>, n: int)
    requires
        n > 0,
        ascii_no_break(w),
    ensures
        last_line_len(break_word(w, n)) >= (w.len() as int) % n,
    decreases w.len(),
{
    if w.len() > 0 {
        let d = w.drop_last();
        assert(ascii_no_break(d)) by {
            assert forall|k: int| 0 <= k < d.len() implies (d[k] as u32) < 0x80 && #[trigger] d[k]
                != '\n' by {
                assert(d[k] == w[k]);
            }
        }
        lemma_break_word_last_line(d, n);
        let c = w.last();
        assert(w[w.len() - 1] == c);
        assert(char_utf8_len(c) == 1);
        let rest = break_word(d, n);
        let i = w.len() - 1;
        if i % n == n - 1 && !is_whitespace_spec(c) {
            assert(break_word(w, n) == rest.push(c).push('\n'));
            assert(rest.push(c).push('\n').last() == '\n');
            assert(last_line_len(rest.push(c).push('\n')) == 0);
            assert((w.len() as int) % n == 0) by (nonlinear_arith)
                requires
                    i % n == n - 1,
                    w.len() == i + 1,
                    n > 0,
            ;
        } else {
            assert(break_word(w, n) == rest.push(c));
            assert(rest.push(c).drop_last() =~= rest);
            assert(rest.push(c).last() == c);
            assert(c != '\n');
            assert(last_line_len(rest.push(c)) == last_line_len(rest) + 1);
            assert(last_line_len(rest) >= (d.len() as int) % n);
            assert((w.len() as int) % n <= (d.len() as int) % n + 1) by (nonlinear_arith)
                requires
                    w.len() == d.len() + 1,
                    n > 0,
            ;
        }
    } else {
        assert((w.len() as int) % n == 0) by (nonlinear_arith)
            requires
                w.len() == 0,
                n > 0,
        ;
    }
}

/// A piece is moved to a new line only where it does not fit: where the length that wrapping
/// keeps for the last line is at most that line's real length in the text, a piece that ends up
/// anywhere but appended to the text is one whose length, without its trailing whitespace,
/// added to that real length exceeds `n` bytes.
pub proof fn lemma_wrap_moves_only_when_full(text: Seq<char>, line: int, w: Seq<char>, n: int)
    requires
        0 <= line <= last_line_len(text),
    ensures
        wrap_step((text, line), w, n).0 != text + w ==> utf8_len(trim_end_spec(w)) + last_line_len(
            text,
        ) > n,
{
}

/// After a word longer than a line is broken, the length that wrapping keeps for the last line
/// is at most the real length of the last line of the text (for an ASCII piece without line
/// breaks): wrapping never counts a broken word's line as fuller than it is.
pub proof fn lemma_broken_word_keeps_room(text: Seq<char>, line: int, w: Seq<char>, n: int)
    requires
        n > 0,
        0 <= line,
        ascii_no_break(w),
        utf8_len(trim_end_spec(w)) > n,
    ensures
        wrap_step((text, line), w, n).1 <= last_line_len(wrap_step((text, line), w, n).0),
{
    let base = trim_end_spec(text).push('\n');
    lemma_ascii_utf8_len(w);
    lemma_break_word_last_line(w, n);
    lemma_last_line_concat(base, break_word(w, n));
}

/// An ASCII text takes one byte a character.
proof fn lemma_ascii_utf8_len(w: Seq<char>)
    requires
        ascii_no_break(w),
    ensures
        utf8_len(w) == w.len(),
    decreases w.len(),
{
    if w.len() > 0 {
        let d = w.drop_last();
        assert(ascii_no_break(d)) by {
            assert forall|k: int| 0 <= k < d.len() implies (d[k] as u32) < 0x80 && #[trigger] d[k]
                != '\n' by {
                assert(d[k] == w[k]);
            }
        }
        lemma_ascii_utf8_len(d);
        assert(w[w.len() - 1] == w.last());
    }
}

/// After a word longer than a line is broken, the next piece goes to a new line only where it
/// does not fit on the last line of the output as it stands: appended to that line, without
/// its trailing whitespace, it would exceed `n` bytes.
pub proof fn lemma_no_early_break_after_long_word(
    text: Seq<char>,
    line: int,
    w: Seq<char>,
    w2: Seq<char>,
    n: int,
)
    requires
        n > 0,
        0 <= line,
        ascii_no_break(w),
        utf8_len(trim_end_spec(w)) > n,
    ensures
        ({
            let s1 = wrap_step((text, line), w, n);
            wrap_step(s1, w2, n).0 != s1.0 + w2 ==> utf8_len(trim_end_spec(w2)) + last_line_len(
                s1.0,
            ) > n
        }),
{
    lemma_broken_word_keeps_room(text, line, w, n);
    let s1 = wrap_step((text, line), w, n);
    lemma_wrap_moves_only_when_full(s1.0, s1.1, w2, n);
}

} // verus!

verus! {

/// The last line of a text with more appended: where what is appended has no line break, the
/// two lengths add up; where the text ends with a line break, the last line is that of what is
/// appended.
proof fn lemma_last_line_append(a: Seq<char>, b: Seq<char>)
    ensures
        (forall|k: int| 0 <= k < b.len() ==> b[k] != '\n') ==> last_line_len(a + b)
            == last_line_len(a) + utf8_len(b),
        (a.len() > 0 && a.last() == '\n') ==> last_line_len(a + b) == last_line_len(b),
    decreases b.len(),
{
    if b.len() == 0 {
        assert(a + b =~= a);
        if a.len() > 0 && a.last() == '\n' {
            assert(last_line_len(a) == 0);
        }
    } else {
        let d = b.drop_last();
        lemma_last_line_append(a, d);
        assert((a + b).drop_last() =~= a + d);
        assert((a + b).last() == b.last());
        if forall|k: int| 0 <= k < b.len() ==> b[k] != '\n' {
            assert forall|k: int| 0 <= k < d.len() implies d[k] != '\n' by {
                assert(d[k] == b[k]);
            }
            assert(b[b.len() - 1] == b.last());
        }
    }
}

/// A word of ASCII characters that are neither whitespace nor line breaks, broken every `n`
/// characters, ends with a line of exactly its length modulo `n`.
proof fn lemma_break_word_solid(w: Seq<char>, n: int)
    requires
        n > 0,
        ascii_no_break(w),
        forall|k: int| 0 <= k < w.len() ==> !is_whitespace_spec(#[trigger] w[k]),
    ensures
        last_line_len(break_word(w, n)) == (w.len() as int) % n,
    decreases w.len(),
{
    if w.len() == 0 {
        assert((w.len() as int) % n == 0) by (nonlinear_arith)
            requires
                w.len() == 0,
                n > 0,
        ;
    } else {
        let d = w.drop_last();
        assert forall|k: int| 0 <= k < d.len() implies (d[k] as u32) < 0x80 && #[trigger] d[k]
            != '\n' && !is_whitespace_spec(d[k]) by {
            assert(d[k] == w[k]);
        }
        lemma_break_word_solid(d, n);
        let c = w.last();
        assert(w[w.len() - 1] == c);
        let rest = break_word(d, n);
        let i = w.len() - 1;
        if i % n == n - 1 {
            assert(break_word(w, n) == rest.push(c).push('\n'));
            assert(last_line_len(rest.push(c).push('\n')) == 0);
            assert((w.len() as int) % n == 0) by (nonlinear_arith)
                requires
                    i % n == n - 1,
                    w.len() == i + 1,
                    n > 0,
            ;
        } else {
            assert(break_word(w, n) == rest.push(c));
            assert(rest.push(c).drop_last() =~= rest);
            assert(rest.push(c).last() == c);
            assert(last_line_len(rest.push(c)) == last_line_len(rest) + 1);
            assert((w.len() as int) % n == (d.len() as int) % n + 1) by (nonlinear_arith)
                requires
                    w.len() == d.len() + 1,
                    i == d.len(),
                    i % n != n - 1,
                    n > 0,
            ;
        }
    }
}

/// A piece of ASCII text (a word and at most one whitespace character after it) broken every
/// `n` characters ends with a line of its length modulo `n`, or, where that is 0 and the last
/// character is whitespace, with a full line of `n`.
proof fn lemma_break_piece(w: Seq<char>, n: int)
    requires
        n > 0,
        w.len() > 0,
        ascii_no_break(w),
        forall|k: int| 0 <= k < w.len() - 1 ==> !is_whitespace_spec(#[trigger] w[k]),
    ensures
        last_line_len(break_word(w, n)) == (w.len() as int) % n || ((w.len() as int) % n == 0
            && last_line_len(break_word(w, n)) == n),
{
    let d = w.drop_last();
    assert forall|k: int| 0 <= k < d.len() implies (d[k] as u32) < 0x80 && #[trigger] d[k] != '\n'
        && !is_whitespace_spec(d[k]) by {
        assert(d[k] == w[k]);
    }
    lemma_break_word_solid(d, n);
    let c = w.last();
    assert(w[w.len() - 1] == c);
    let rest = break_word(d, n);
    let i = w.len() - 1;
    if i % n == n - 1 && !is_whitespace_spec(c) {
        assert(break_word(w, n) == rest.push(c).push('\n'));
        assert(last_line_len(rest.push(c).push('\n')) == 0);
        assert((w.len() as int) % n == 0) by (nonlinear_arith)
            requires
                i % n == n - 1,
                w.len() == i + 1,
                n > 0,
        ;
    } else {
        assert(break_word(w, n) == rest.push(c));
        assert(rest.push(c).drop_last() =~= rest);
        assert(rest.push(c).last() == c);
        assert(last_line_len(rest.push(c)) == last_line_len(rest) + 1);
        if i % n == n - 1 {
            assert((w.len() as int) % n == 0 && (d.len() as int) % n + 1 == n) by (nonlinear_arith)
                requires
                    i % n == n - 1,
                    w.len() == i + 1,
                    i == d.len(),
                    n > 0,
            ;
        } else {
            assert((w.len() as int) % n == (d.len() as int) % n + 1) by (nonlinear_arith)
                requires
                    w.len() == d.len() + 1,
                    i == d.len(),
                    i % n != n - 1,
                    n > 0,
            ;
        }
    }
}

/// The length that wrapping keeps for the last line is that line's real length in the text, for
/// a piece of ASCII text (a word and at most one whitespace character after it) appended to
/// text whose last line it was: but for a piece ending a line, after which the line is empty,
/// and a broken word whose last line is full and ends with whitespace, which counts as empty.
pub proof fn lemma_wrap_step_line(text: Seq<char>, line: int, w: Seq<char>, n: int)
    requires
        n > 0,
        line == last_line_len(text),
        w.len() > 0,
        forall|k: int| 0 <= k < w.len() ==> (w[k] as u32) < 0x80,
        forall|k: int| 0 <= k < w.len() - 1 ==> !is_whitespace_spec(#[trigger] w[k]),
    ensures
        ({
            let r = wrap_step((text, line), w, n);
            ||| r.1 == last_line_len(r.0)
            ||| r.1 == 0 && last_line_len(r.0) == n
            ||| w.last() == '\n' && last_line_len(r.0) == 0
        }),
{
    let wl = utf8_len(trim_end_spec(w)) as int;
    let base = trim_end_spec(text).push('\n');
    let last = w.last();
    assert(w[w.len() - 1] == last);
    assert forall|k: int| 0 <= k < w.len() - 1 implies w[k] != '\n' by {
        assert(!is_whitespace_spec(w[k]));
        assert(is_whitespace_spec('\n'));
    }
    lemma_ascii_all(w);
    assert(base.last() == '\n');
    assert(last_line_len(base) == 0);
    if last == '\n' {
        if wl + line <= n {
            assert((text + w).last() == '\n');
        } else if wl > n {
            let bw = break_word(w, n);
            assert(bw.last() == '\n') by {
                assert(is_whitespace_spec('\n'));
                assert(bw == break_word(w.drop_last(), n).push(last));
            }
            lemma_last_line_append(base, bw);
        } else {
            assert((base + w).last() == '\n');
        }
    } else {
        assert(ascii_no_break(w)) by {
            assert forall|k: int| 0 <= k < w.len() implies (w[k] as u32) < 0x80 && #[trigger] w[k]
                != '\n' by {
                if k == w.len() - 1 {
                    assert(w[k] == last);
                }
            }
        }
        lemma_ascii_utf8_len(w);
        if wl + line <= n {
            lemma_last_line_append(text, w);
        } else if wl > n {
            lemma_break_piece(w, n);
            lemma_last_line_append(base, break_word(w, n));
        } else {
            lemma_last_line_append(base, w);
        }
    }
}

/// Every character of `w` is ASCII.
proof fn lemma_ascii_all(w: Seq<char>)
    requires
        forall|k: int| 0 <= k < w.len() ==> (w[k] as u32) < 0x80,
    ensures
        w.len() > 0 ==> (w.last() as u32) < 0x80,
{
    if w.len() > 0 {
        assert(w[w.len() - 1] == w.last());
    }
}

} // verus!
