//! The input line of the terminal interface, with the history of entered commands.
//!
//! Positions in the text (the cursor, what a search finds) count characters.

use crate::text::{char_is_alphanumeric, chars_of, eq_chars, is_alphanumeric, string_of, sub_chars};
use vstd::prelude::*;

verus! {

/// A key that the input line reacts to.
#[derive(Clone, Copy, Debug, Eq, PartialEq, Structural)]
pub enum Key {
    Left,
    Right,
    Up,
    Down,
    Home,
    End,
    Backspace,
    Delete,
    Esc,
    Char(char),
    Other,
}

/// The input line: the history of commands (the last one being edited), which of them is shown,
/// the cursor in it, and the query of a history search, while one is under way.
#[derive(Debug)]
pub struct Input {
    history: Vec<Vec<char>>,
    index: usize,
    cursor: usize,
    search_query: Option<Vec<char>>,
}

/// The value of an [`Input`].
pub struct InputView {
    pub history: Seq<Seq<char>>,
    pub index: int,
    pub cursor: int,
    pub search_query: Option<Seq<char>>,
}

/// The text of each line of a history.
pub open spec fn lines_view(h: Seq<Vec<char>>) -> Seq<Seq<char>> {
    h.map_values(|l: Vec<char>| l@)
}

/// A well-formed state: a history of at least one line, the shown line in it, the cursor within
/// the shown line.
pub open spec fn input_wf(v: InputView) -> bool {
    &&& v.history.len() > 0
    &&& 0 <= v.index < v.history.len()
    &&& 0 <= v.cursor <= v.history[v.index].len()
}

/// Position `b` of `t` begins a word: the start, or an alphanumeric character after one that is
/// not.
pub open spec fn is_word_start(t: Seq<char>, b: int) -> bool {
    b == 0 || (!char_is_alphanumeric(t[b - 1]) && char_is_alphanumeric(t[b]))
}

/// The last word start at or before `b`.
pub open spec fn last_word_start(t: Seq<char>, b: int) -> int
    decreases b,
{
    if b <= 0 {
        0
    } else if is_word_start(t, b) {
        b
    } else {
        last_word_start(t, b - 1)
    }
}

/// Where a word-wise move to the left from `cursor` stops: the start of the word before the
/// cursor.
pub open spec fn boundary_left_spec(t: Seq<char>, cursor: int) -> int {
    if t.len() == 0 || cursor <= 0 {
        cursor
    } else {
        last_word_start(t, cursor - 1)
    }
}

/// Where a word-wise move to the right that has passed position `b - 1` stops; `seen` says
/// whether an alphanumeric character was passed. It stops before a word or a space that follows
/// an alphanumeric character, or at the end.
pub open spec fn next_stop(t: Seq<char>, b: int, seen: bool) -> int
    decreases t.len() - b,
{
    if b >= t.len() {
        t.len() as int
    } else {
        let seen2 = seen || char_is_alphanumeric(t[b - 1]);
        if seen2 && ((!char_is_alphanumeric(t[b - 1]) && char_is_alphanumeric(t[b])) || t[b]
            == ' ') {
            b
        } else {
            next_stop(t, b + 1, seen2)
        }
    }
}

/// Where a word-wise move to the right from `cursor` stops: past the next word.
pub open spec fn boundary_right_spec(t: Seq<char>, cursor: int) -> int {
    if 0 <= cursor < t.len() {
        next_stop(t, cursor + 1, false)
    } else {
        cursor
    }
}

/// The first position at or after `k` where `q` occurs in `s`, if any.
pub open spec fn find_from(s: Seq<char>, q: Seq<char>, k: int) -> Option<int>
    decreases s.len() + 1 - k,
{
    if k < 0 || k + q.len() > s.len() {
        None
    } else if s.subrange(k, k + q.len()) == q {
        Some(k)
    } else {
        find_from(s, q, k + 1)
    }
}

/// The position of the first occurrence of `q` in `s`, if any, as `str::find` gives it.
pub open spec fn find_spec(s: Seq<char>, q: Seq<char>) -> Option<int> {
    find_from(s, q, 0)
}

/// The latest line among the first `n` of `h` that holds `q`, and where in it `q` first occurs.
pub open spec fn search_upto(h: Seq<Seq<char>>, n: int, q: Seq<char>) -> Option<(int, int)>
    decreases n,
{
    if n <= 0 {
        None
    } else if let Some(k) = find_spec(h[n - 1], q) {
        Some((n - 1, k))
    } else {
        search_upto(h, n - 1, q)
    }
}

/// `h` without its trailing empty lines.
pub open spec fn drop_trailing_empty(h: Seq<Seq<char>>) -> Seq<Seq<char>>
    decreases h.len(),
{
    if h.len() > 0 && h.last().len() == 0 {
        drop_trailing_empty(h.drop_last())
    } else {
        h
    }
}

/// The state after a command is entered: trailing empty lines are dropped; a command recalled
/// from further back is copied to the end, but not twice in a row; a new empty line follows, and
/// is shown with the search ended.
pub open spec fn enter_spec(v: InputView) -> InputView {
    let h1 = drop_trailing_empty(v.history);
    let h2 = if v.index < h1.len() - 1 {
        h1.push(h1[v.index])
    } else {
        h1
    };
    let h3 = if h2.len() > 1 && h2.last() == h2[h2.len() - 2] {
        h2.drop_last()
    } else {
        h2
    };
    let h4 = h3.push(Seq::empty());
    InputView { history: h4, index: h4.len() - 1, cursor: 0, search_query: None }
}

/// The state with the shown line replaced by `t` and the cursor at `c`.
pub open spec fn with_text(v: InputView, t: Seq<char>, c: int) -> InputView {
    InputView { history: v.history.update(v.index, t), cursor: c, ..v }
}

/// The state after a key, pressed with Ctrl or without.
pub open spec fn key_spec(v: InputView, key: Key, ctrl: bool) -> InputView {
    let t = v.history[v.index];
    match (key, ctrl) {
        (Key::Left, false) => if v.cursor > 0 {
            InputView { cursor: v.cursor - 1, ..v }
        } else {
            v
        },
        (Key::Left, true) => InputView { cursor: boundary_left_spec(t, v.cursor), ..v },
        (Key::Right, false) => if v.cursor < t.len() {
            InputView { cursor: v.cursor + 1, ..v }
        } else {
            v
        },
        (Key::Right, true) => InputView { cursor: boundary_right_spec(t, v.cursor), ..v },
        (Key::Up, false) => if v.index > 0 {
            InputView { index: v.index - 1, cursor: v.history[v.index - 1].len() as int, ..v }
        } else {
            v
        },
        (Key::Down, false) => if v.index < v.history.len() - 1 {
            InputView { index: v.index + 1, cursor: v.history[v.index + 1].len() as int, ..v }
        } else {
            v
        },
        (Key::Char('r'), true) => match v.search_query {
            Some(q) => if v.index >= 1 {
                match search_upto(v.history, v.index, q) {
                    Some((i, c)) => InputView { index: i, cursor: c, ..v },
                    None => v,
                }
            } else {
                v
            },
            None => InputView { search_query: Some(Seq::empty()), ..v },
        },
        (Key::Esc, false) => InputView { search_query: None, ..v },
        (Key::Char('\n'), false) => enter_spec(v),
        (Key::Backspace, false) => if v.cursor > 0 {
            match v.search_query {
                Some(q) => InputView {
                    search_query: Some(
                        if q.len() > 0 {
                            q.drop_last()
                        } else {
                            q
                        },
                    ),
                    ..v
                },
                None => with_text(v, t.remove(v.cursor - 1), v.cursor - 1),
            }
        } else {
            v
        },
        (Key::Backspace, true) => if v.cursor > 0 {
            let b = boundary_left_spec(t, v.cursor);
            with_text(v, t.take(b) + t.skip(v.cursor), b)
        } else {
            v
        },
        (Key::Home, _) => InputView { cursor: 0, ..v },
        (Key::End, _) => InputView { cursor: t.len() as int, ..v },
        (Key::Delete, false) => if v.cursor < t.len() {
            with_text(v, t.remove(v.cursor), v.cursor)
        } else {
            v
        },
        (Key::Delete, true) => if v.cursor < t.len() {
            let b = boundary_right_spec(t, v.cursor);
            with_text(v, t.take(v.cursor) + t.skip(b), v.cursor)
        } else {
            v
        },
        (Key::Char(c), false) => match v.search_query {
            Some(q) => {
                let q2 = q.push(c);
                match search_upto(v.history, v.index + 1, q2) {
                    Some((i, k)) => InputView {
                        index: i,
                        cursor: k,
                        search_query: Some(q2),
                        ..v
                    },
                    None => InputView { search_query: Some(q2), ..v },
                }
            },
            None => with_text(v, t.insert(v.cursor, c), v.cursor + 1),
        },
        _ => v,
    }
}

/// Entering a command where every line of the history is empty: the index of the new line
/// would have to step below the first line, so this key is not defined there.
pub open spec fn key_panics(v: InputView, key: Key, ctrl: bool) -> bool {
    key == Key::Char('\n') && !ctrl && drop_trailing_empty(v.history).len() == 0
}


/// The last word start at or before `b` is between 0 and `b`.
pub proof fn lemma_last_word_start_bounds(t: Seq<char>, b: int)
    ensures
        b >= 0 ==> 0 <= last_word_start(t, b) <= b,
    decreases b,
{
    if b > 0 {
        lemma_last_word_start_bounds(t, b - 1);
    }
}

/// A word-wise move to the right stops between `b` and the end.
pub proof fn lemma_next_stop_bounds(t: Seq<char>, b: int, seen: bool)
    requires
        1 <= b <= t.len(),
    ensures
        b <= next_stop(t, b, seen) <= t.len(),
    decreases t.len() - b,
{
    if b < t.len() {
        let seen2 = seen || char_is_alphanumeric(t[b - 1]);
        lemma_next_stop_bounds(t, b + 1, seen2);
    }
}

/// Dropping trailing empty lines leaves a prefix, whose last line is not empty.
pub proof fn lemma_drop_trailing_empty(h: Seq<Seq<char>>)
    ensures
        drop_trailing_empty(h).len() <= h.len(),
        drop_trailing_empty(h) == h.take(drop_trailing_empty(h).len() as int),
        drop_trailing_empty(h).len() > 0 ==> drop_trailing_empty(h).last().len() > 0,
    decreases h.len(),
{
    if h.len() > 0 && h.last().len() == 0 {
        lemma_drop_trailing_empty(h.drop_last());
        let d = drop_trailing_empty(h.drop_last());
        assert(h.drop_last().take(d.len() as int) =~= h.take(d.len() as int));
    } else {
        assert(h.take(h.len() as int) =~= h);
    }
}

/// What a search finds is a line of the history, and a position within that line.
pub proof fn lemma_search_upto(h: Seq<Seq<char>>, n: int, q: Seq<char>)
    requires
        n <= h.len(),
    ensures
        match search_upto(h, n, q) {
            Some((i, k)) => 0 <= i < n && 0 <= k <= h[i].len(),
            None => true,
        },
    decreases n,
{
    if n > 0 {
        lemma_find_from(h[n - 1], q, 0);
        lemma_search_upto(h, n - 1, q);
    }
}

/// Where `find_from` finds `q`, it occurs within `s`.
pub proof fn lemma_find_from(s: Seq<char>, q: Seq<char>, k: int)
    ensures
        match find_from(s, q, k) {
            Some(j) => 0 <= j && j + q.len() <= s.len(),
            None => true,
        },
    decreases s.len() + 1 - k,
{
    if !(k < 0 || k + q.len() > s.len()) && s.subrange(k, k + q.len()) != q {
        lemma_find_from(s, q, k + 1);
    }
}

impl View for Input {
    type V = InputView;

    closed spec fn view(&self) -> InputView {
        InputView {
            history: lines_view(self.history@),
            index: self.index as int,
            cursor: self.cursor as int,
            search_query: match self.search_query {
                Some(q) => Some(q@),
                None => None,
            },
        }
    }
}

/// The position of the first occurrence of `q` in `s`, if any.
pub fn find_chars(s: &Vec<char>, q: &Vec<char>) -> (r: Option<usize>)
    ensures
        match r {
            Some(k) => find_spec(s@, q@) == Some(k as int),
            None => find_spec(s@, q@) is None,
        },
{
    if q.len() > s.len() {
        return None;
    }
    let limit = s.len() - q.len();
    let mut k: usize = 0;
    loop
        invariant
            q.len() <= s.len(),
            limit == s.len() - q.len(),
            k <= limit,
            find_spec(s@, q@) == find_from(s@, q@, k as int),
        decreases limit - k,
    {
        let part = sub_chars(s, k, k + q.len());
        if eq_chars(&part, q) {
            return Some(k);
        }
        if k == limit {
            assert(find_from(s@, q@, k + 1) is None);
            return None;
        }
        k = k + 1;
    }
}

/// The value of a search result.
pub open spec fn found_view(r: Option<(usize, usize)>) -> Option<(int, int)> {
    match r {
        Some((i, k)) => Some((i as int, k as int)),
        None => None,
    }
}

impl Input {
    /// The state is well formed: see [`input_wf`].
    pub closed spec fn wf(&self) -> bool {
        input_wf(self@)
    }

    /// An input line with an empty history line shown.
    pub fn new() -> (r: Input)
        ensures
            r.wf(),
            r@.history == seq![Seq::<char>::empty()],
            r@.index == 0,
            r@.cursor == 0,
            r@.search_query is None,
    {
        let mut history: Vec<Vec<char>> = Vec::new();
        history.push(Vec::new());
        let r = Input { history, index: 0, cursor: 0, search_query: None };
        assert(r@.history =~= seq![Seq::<char>::empty()]);
        r
    }

    /// An input line made of its parts: the history, the shown line, the cursor in it and the
    /// search query.
    pub fn from_parts(
        history: Vec<String>,
        index: usize,
        cursor: usize,
        search_query: Option<String>,
    ) -> (r: Input)
        requires
            index < history@.len(),
            cursor <= history@[index as int]@.len(),
        ensures
            r.wf(),
            r@.history == history@.map_values(|l: String| l@),
            r@.index == index,
            r@.cursor == cursor,
            r@.search_query == match search_query {
                Some(q) => Some(q@),
                None => None::<Seq<char>>,
            },
    {
        let mut lines: Vec<Vec<char>> = Vec::new();
        let mut i: usize = 0;
        while i < history.len()
            invariant
                i <= history@.len(),
                lines_view(lines@) == history@.take(i as int).map_values(|l: String| l@),
            decreases history.len() - i,
        {
            let l = chars_of(history[i].as_str());
            let ghost prev = lines@;
            lines.push(l);
            assert(lines_view(lines@) =~= lines_view(prev).push(history@[i as int]@));
            assert(history@.take(i + 1).map_values(|l: String| l@) =~= history@.take(
                i as int,
            ).map_values(|l: String| l@).push(history@[i as int]@));
            i = i + 1;
        }
        assert(history@.take(history@.len() as int) =~= history@);
        let q = match search_query {
            Some(q) => Some(chars_of(q.as_str())),
            None => None,
        };
        Input { history: lines, index, cursor, search_query: q }
    }

    /// The shown line.
    pub fn get_text(&self) -> (r: String)
        requires
            self.wf(),
        ensures
            r@ == self@.history[self@.index],
    {
        string_of(&self.history[self.index])
    }

    /// The history, oldest line first.
    pub fn history(&self) -> (r: Vec<String>)
        ensures
            r@.map_values(|l: String| l@) == self@.history,
    {
        let mut r: Vec<String> = Vec::new();
        let mut i: usize = 0;
        while i < self.history.len()
            invariant
                i <= self.history@.len(),
                r@.map_values(|l: String| l@) == self@.history.take(i as int),
            decreases self.history.len() - i,
        {
            let ghost prev = r@;
            r.push(string_of(&self.history[i]));
            assert(r@.map_values(|l: String| l@) =~= prev.map_values(|l: String| l@).push(
                self.history@[i as int]@,
            ));
            assert(self@.history.take(i + 1) =~= self@.history.take(i as int).push(
                self.history@[i as int]@,
            ));
            i = i + 1;
        }
        assert(self@.history.take(self.history@.len() as int) =~= self@.history);
        r
    }

    /// Which line of the history is shown.
    pub fn index(&self) -> (r: usize)
        ensures
            r == self@.index,
    {
        self.index
    }

    /// The cursor's position in the shown line.
    pub fn cursor(&self) -> (r: usize)
        ensures
            r == self@.cursor,
    {
        self.cursor
    }

    /// The query of the history search under way, if any.
    pub fn search_query(&self) -> (r: Option<String>)
        ensures
            match r {
                Some(q) => self@.search_query == Some(q@),
                None => self@.search_query is None,
            },
    {
        match &self.search_query {
            Some(q) => Some(string_of(q)),
            None => None,
        }
    }

    /// Moves the cursor to `cursor`.
    pub fn set_cursor(&mut self, cursor: usize)
        requires
            old(self).wf(),
            cursor <= old(self)@.history[old(self)@.index].len(),
        ensures
            final(self).wf(),
            final(self)@ == (InputView { cursor: cursor as int, ..old(self)@ }),
    {
        self.cursor = cursor;
    }

    /// Appends `s` to the shown line, leaving the cursor where it is.
    pub fn push_str(&mut self, s: &str)
        requires
            old(self).wf(),
        ensures
            final(self).wf(),
            final(self)@ == with_text(
                old(self)@,
                old(self)@.history[old(self)@.index] + s@,
                old(self)@.cursor,
            ),
    {
        let mut t = sub_chars(&self.history[self.index], 0, self.history[self.index].len());
        assert(t@ =~= self@.history[self@.index]);
        crate::text::push_all(&mut t, &chars_of(s));
        let ghost old_v = self@;
        let ghost tv = t@;
        self.history.set(self.index, t);
        assert(lines_view(self.history@) =~= old_v.history.update(old_v.index, tv));
    }

    /// Replaces the shown line by `text`, with the cursor at its end.
    pub fn set_text(&mut self, text: &str)
        requires
            old(self).wf(),
        ensures
            final(self).wf(),
            final(self)@ == with_text(old(self)@, text@, text@.len() as int),
    {
        let t = chars_of(text);
        let n = t.len();
        let ghost old_v = self@;
        let ghost tv = t@;
        self.history.set(self.index, t);
        self.cursor = n;
        assert(lines_view(self.history@) =~= old_v.history.update(old_v.index, tv));
    }

    /// Whether the cursor is at the start of the line.
    pub fn is_at_start(&self) -> (r: bool)
        ensures
            r == (self@.cursor == 0),
    {
        self.cursor == 0
    }

    /// Whether the cursor is at the end of the line.
    pub fn is_at_end(&self) -> (r: bool)
        requires
            self.wf(),
        ensures
            r == (self@.cursor == self@.history[self@.index].len()),
    {
        self.cursor == self.history[self.index].len()
    }

    /// Where a word-wise move to the left from the cursor stops.
    pub fn find_boundary_left(&self) -> (r: usize)
        requires
            self.wf(),
        ensures
            r == boundary_left_spec(self@.history[self@.index], self@.cursor),
    {
        let t = &self.history[self.index];
        let mut b = self.cursor;
        if t.len() > 0 && b > 0 {
            b = b - 1;
            while b > 0
                invariant
                    b < t@.len(),
                    b <= self@.cursor - 1,
                    self@.cursor <= t@.len(),
                    last_word_start(t@, b as int) == last_word_start(t@, self@.cursor - 1),
                ensures
                    last_word_start(t@, b as int) == b,
                    last_word_start(t@, b as int) == last_word_start(t@, self@.cursor - 1),
                decreases b,
            {
                if !is_alphanumeric(t[b - 1]) && is_alphanumeric(t[b]) {
                    break;
                }
                b = b - 1;
            }
        }
        b
    }

    /// Where a word-wise move to the right from the cursor stops.
    pub fn find_boundary_right(&self) -> (r: usize)
        requires
            self.wf(),
        ensures
            r == boundary_right_spec(self@.history[self@.index], self@.cursor),
    {
        let t = &self.history[self.index];
        let mut b = self.cursor;
        if b < t.len() {
            b = b + 1;
            let mut seen = false;
            while b < t.len()
                invariant
                    1 <= b <= t@.len(),
                    next_stop(t@, b as int, seen) == next_stop(t@, self@.cursor + 1, false),
                ensures
                    next_stop(t@, b as int, seen) == b,
                    next_stop(t@, b as int, seen) == next_stop(t@, self@.cursor + 1, false),
                decreases t.len() - b,
            {
                let prev = t[b - 1];
                let cur = t[b];
                if is_alphanumeric(prev) {
                    seen = true;
                }
                if seen && ((!is_alphanumeric(prev) && is_alphanumeric(cur)) || cur == ' ') {
                    break;
                }
                b = b + 1;
            }
        }
        b
    }

    /// Enters the shown command: see [`enter_spec`].
    fn enter(&mut self)
        requires
            old(self).wf(),
            drop_trailing_empty(old(self)@.history).len() > 0,
        ensures
            final(self).wf(),
            final(self)@ == enter_spec(old(self)@),
    {
        let ghost v = self@;
        let ghost h1 = drop_trailing_empty(v.history);
        proof {
            lemma_drop_trailing_empty(v.history);
        }
        while self.history.len() > 0 && self.history[self.history.len() - 1].len() == 0
            invariant
                drop_trailing_empty(lines_view(self.history@)) == h1,
                h1.len() > 0,
                h1 == v.history.take(h1.len() as int),
                lines_view(self.history@) == v.history.take(self.history@.len() as int),
                h1.len() <= self.history@.len(),
                h1.last().len() > 0,
                self.index == v.index,
                input_wf(v),
                self.history@.len() <= v.history.len(),
            decreases self.history.len(),
        {
            let ghost before = lines_view(self.history@);
            let ghost m = self.history@.len() as int;
            assert(before.last().len() == 0);
            self.history.pop();
            assert(lines_view(self.history@) =~= before.drop_last());
            assert(v.history.take(m).drop_last() =~= v.history.take(m - 1));
        }
        proof {
            let cur = lines_view(self.history@);
            if cur.len() > h1.len() {
                assert(cur.last() == v.history[cur.len() - 1]);
                assert(drop_trailing_empty(cur) == cur);
            }
            assert(cur =~= h1);
        }
        let n1 = self.history.len();
        if self.index < n1 - 1 {
            let copy = sub_chars(&self.history[self.index], 0, self.history[self.index].len());
            assert(copy@ =~= lines_view(self.history@)[v.index]);
            self.history.push(copy);
        }
        let ghost h2 = lines_view(self.history@);
        assert(h2 =~= if v.index < h1.len() - 1 {
            h1.push(h1[v.index])
        } else {
            h1
        });
        let n2 = self.history.len();
        if n2 > 1 && eq_chars(&self.history[n2 - 1], &self.history[n2 - 2]) {
            self.history.pop();
            assert(lines_view(self.history@) =~= h2.drop_last());
        }
        let ghost h3 = lines_view(self.history@);
        self.history.push(Vec::new());
        assert(lines_view(self.history@) =~= h3.push(Seq::empty()));
        self.index = self.history.len() - 1;
        self.cursor = 0;
        self.search_query = None;
    }

    /// Replaces the shown line by `t`, with the cursor at `c`.
    fn replace_text(&mut self, t: Vec<char>, c: usize)
        requires
            old(self).wf(),
            c <= t@.len(),
        ensures
            final(self).wf(),
            final(self)@ == with_text(old(self)@, t@, c as int),
    {
        let ghost old_v = self@;
        let ghost tv = t@;
        self.history.set(self.index, t);
        self.cursor = c;
        assert(lines_view(self.history@) =~= old_v.history.update(old_v.index, tv));
    }

    /// Reacts to a key, pressed with Ctrl or without: see [`key_spec`]. Entering a command while
    /// every line of the history is empty is left out (see [`key_panics`]).
    pub fn key(&mut self, key: Key, ctrl: bool)
        requires
            old(self).wf(),
            !key_panics(old(self)@, key, ctrl),
        ensures
            final(self).wf(),
            final(self)@ == key_spec(old(self)@, key, ctrl),
    {
        let ghost v = self@;
        let len = self.history[self.index].len();
        assert(len == v.history[v.index].len());
        match (key, ctrl) {
            (Key::Left, false) => {
                if self.cursor > 0 {
                    self.cursor = self.cursor - 1;
                }
            },
            (Key::Left, true) => {
                let b = self.find_boundary_left();
                proof {
                    lemma_last_word_start_bounds(v.history[v.index], v.cursor - 1);
                }
                self.cursor = b;
            },
            (Key::Right, false) => {
                if self.cursor < len {
                    self.cursor = self.cursor + 1;
                }
            },
            (Key::Right, true) => {
                let b = self.find_boundary_right();
                proof {
                    if v.cursor < len {
                        lemma_next_stop_bounds(v.history[v.index], v.cursor + 1, false);
                    }
                }
                self.cursor = b;
            },
            (Key::Up, false) => {
                if self.index > 0 {
                    self.index = self.index - 1;
                    self.cursor = self.history[self.index].len();
                }
            },
            (Key::Down, false) => {
                if self.index < self.history.len() - 1 {
                    self.index = self.index + 1;
                    self.cursor = self.history[self.index].len();
                }
            },
            (Key::Char('r'), true) => {
                if self.search_query.is_some() {
                    if self.index >= 1 {
                        if let Some((i, k)) = self.search_history(self.index - 1) {
                            proof {
                                lemma_search_upto(v.history, v.index, v.search_query->0);
                            }
                            self.index = i;
                            self.cursor = k;
                        }
                    }
                } else {
                    self.search_query = Some(Vec::new());
                }
            },
            (Key::Esc, false) => {
                self.search_query = None;
            },
            (Key::Char('\n'), false) => {
                self.enter();
            },
            (Key::Backspace, false) => {
                if self.cursor > 0 {
                    match &self.search_query {
                        Some(q) => {
                            let mut q2 = sub_chars(q, 0, q.len());
                            assert(q2@ =~= q@);
                            if q2.len() > 0 {
                                q2.pop();
                                assert(q2@ =~= q@.drop_last());
                            }
                            self.search_query = Some(q2);
                        },
                        None => {
                            let mut t = sub_chars(&self.history[self.index], 0, len);
                            assert(t@ =~= v.history[v.index]);
                            t.remove(self.cursor - 1);
                            let c = self.cursor - 1;
                            self.replace_text(t, c);
                        },
                    }
                }
            },
            (Key::Backspace, true) => {
                if self.cursor > 0 {
                    let b = self.find_boundary_left();
                    proof {
                        lemma_last_word_start_bounds(v.history[v.index], v.cursor - 1);
                    }
                    let mut t = sub_chars(&self.history[self.index], 0, b);
                    let tail = sub_chars(&self.history[self.index], self.cursor, len);
                    crate::text::push_all(&mut t, &tail);
                    assert(t@ =~= v.history[v.index].take(b as int) + v.history[v.index].skip(
                        v.cursor,
                    ));
                    self.replace_text(t, b);
                }
            },
            (Key::Home, _) => {
                self.cursor = 0;
            },
            (Key::End, _) => {
                self.cursor = len;
            },
            (Key::Delete, false) => {
                if self.cursor < len {
                    let mut t = sub_chars(&self.history[self.index], 0, len);
                    assert(t@ =~= v.history[v.index]);
                    t.remove(self.cursor);
                    let c = self.cursor;
                    self.replace_text(t, c);
                }
            },
            (Key::Delete, true) => {
                if self.cursor < len {
                    let b = self.find_boundary_right();
                    proof {
                        lemma_next_stop_bounds(v.history[v.index], v.cursor + 1, false);
                    }
                    let mut t = sub_chars(&self.history[self.index], 0, self.cursor);
                    let tail = sub_chars(&self.history[self.index], b, len);
                    crate::text::push_all(&mut t, &tail);
                    assert(t@ =~= v.history[v.index].take(v.cursor) + v.history[v.index].skip(
                        b as int,
                    ));
                    let c = self.cursor;
                    self.replace_text(t, c);
                }
            },
            (Key::Char(c), false) => {
                match &self.search_query {
                    Some(q) => {
                        let mut q2 = sub_chars(q, 0, q.len());
                        q2.push(c);
                        assert(q2@ =~= q@.push(c));
                        self.search_query = Some(q2);
                        let found = self.search_history(self.index);
                        if let Some((i, k)) = found {
                            proof {
                                lemma_search_upto(v.history, v.index + 1, v.search_query->0.push(c));
                            }
                            self.index = i;
                            self.cursor = k;
                        }
                    },
                    None => {
                        let mut t = sub_chars(&self.history[self.index], 0, len);
                        assert(t@ =~= v.history[v.index]);
                        t.insert(self.cursor, c);
                        let tl = t.len();
                        assert(tl == len + 1);
                        let n = self.cursor + 1;
                        self.replace_text(t, n);
                    },
                }
            },
            _ => {},
        }
    }

    /// The latest line up to `end_index` that holds the search query, and where in it the query
    /// first occurs; nothing where no search is under way.
    pub fn search_history(&self, end_index: usize) -> (r: Option<(usize, usize)>)
        requires
            self.wf(),
            end_index < self@.history.len(),
        ensures
            found_view(r) == match self@.search_query {
                Some(q) => search_upto(self@.history, end_index + 1, q),
                None => None,
            },
    {
        let len = self.history.len();
        assert(len == self@.history.len());
        match &self.search_query {
            Some(q) => {
                let mut n = end_index + 1;
                while n > 0
                    invariant
                        n <= end_index + 1,
                        end_index < self.history@.len(),
                        self@.search_query == Some(q@),
                        search_upto(self@.history, end_index + 1, q@) == search_upto(
                            self@.history,
                            n as int,
                            q@,
                        ),
                    decreases n,
                {
                    assert(self@.history[n - 1] == self.history@[n - 1]@);
                    match find_chars(&self.history[n - 1], q) {
                        Some(k) => {
                            assert(search_upto(self@.history, n as int, q@) == Some(
                                ((n - 1) as int, k as int),
                            ));
                            return Some((n - 1, k));
                        },
                        None => {},
                    }
                    n = n - 1;
                }
                None
            },
            None => None,
        }
    }
}

impl Default for Input {
    fn default() -> (r: Input)
        ensures
            r.wf(),
            r@.history == seq![Seq::<char>::empty()],
            r@.index == 0,
            r@.cursor == 0,
            r@.search_query is None,
    {
        Input::new()
    }
}

} // verus!

verus! {

/// Backspace during a history search, with the cursor past the start of the line, shortens a
/// non-empty query by exactly its last character: the new query is one character shorter and
/// begins the old one; the lines, the line shown and the cursor stay as they were.
pub proof fn lemma_backspace_shortens_query(v: InputView, q: Seq<char>)
    requires
        v.search_query == Some(q),
        q.len() > 0,
        v.cursor > 0,
    ensures
        ({
            let w = key_spec(v, Key::Backspace, false);
            &&& w.search_query matches Some(q2)
            &&& q2.len() == q.len() - 1
            &&& forall|i: int| 0 <= i < q2.len() ==> q2[i] == q[i]
            &&& w.history == v.history
            &&& w.index == v.index
            &&& w.cursor == v.cursor
        }),
{
}

/// Backspace during a history search leaves an empty query empty.
pub proof fn lemma_backspace_empty_query(v: InputView)
    requires
        v.search_query == Some(Seq::<char>::empty()),
    ensures
        key_spec(v, Key::Backspace, false).search_query == Some(Seq::<char>::empty()),
{
}

} // verus!
