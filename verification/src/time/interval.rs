//! A span of in-game time: days, hours, minutes, seconds and combat rounds of six seconds.

use crate::text::{
    chars_of, fmt_i64, fold_case, int_digits, is_digit, is_digit_spec, is_whitespace_spec,
    lemma_int_digits_parse, lemma_nat_digits, nat_digits, parse_i32, parse_i32_spec, push_all,
    string_of, trim_bounds, trim_end_spec, trim_spec, trim_start_spec,
};
use vstd::prelude::*;

verus! {

/// A span of in-game time. The fields are independent; a round lasts six seconds.
#[derive(Clone, Copy, Debug, Eq, PartialEq, Structural)]
pub struct Interval {
    pub days: i32,
    pub hours: i32,
    pub minutes: i32,
    pub seconds: i32,
    pub rounds: i32,
}

/// A short rendering of an [`Interval`], such as `2d 3h`.
pub struct IntervalShortView<'a>(&'a Interval);

/// A long rendering of an [`Interval`], such as `2 days, 3 hours`.
pub struct IntervalLongView<'a>(&'a Interval);

/// The interval with all fields zero.
pub open spec fn zero_interval() -> Interval {
    Interval { days: 0, hours: 0, minutes: 0, seconds: 0, rounds: 0 }
}

impl Interval {
    /// The length of the interval in seconds.
    pub open spec fn total_seconds(self) -> int {
        self.days * 86400 + self.hours * 3600 + self.minutes * 60 + self.seconds + self.rounds * 6
    }

    pub fn new(days: i32, hours: i32, minutes: i32, seconds: i32, rounds: i32) -> (r: Self)
        ensures
            r == (Interval { days, hours, minutes, seconds, rounds }),
    {
        Self { days, hours, minutes, seconds, rounds }
    }

    pub fn new_days(days: i32) -> (r: Self)
        ensures
            r == (Interval { days, hours: 0, minutes: 0, seconds: 0, rounds: 0 }),
    {
        Self::new(days, 0, 0, 0, 0)
    }

    pub fn new_hours(hours: i32) -> (r: Self)
        ensures
            r == (Interval { days: 0, hours, minutes: 0, seconds: 0, rounds: 0 }),
    {
        Self::new(0, hours, 0, 0, 0)
    }

    pub fn new_minutes(minutes: i32) -> (r: Self)
        ensures
            r == (Interval { days: 0, hours: 0, minutes, seconds: 0, rounds: 0 }),
    {
        Self::new(0, 0, minutes, 0, 0)
    }

    pub fn new_seconds(seconds: i32) -> (r: Self)
        ensures
            r == (Interval { days: 0, hours: 0, minutes: 0, seconds, rounds: 0 }),
    {
        Self::new(0, 0, 0, seconds, 0)
    }

    pub fn new_rounds(rounds: i32) -> (r: Self)
        ensures
            r == (Interval { days: 0, hours: 0, minutes: 0, seconds: 0, rounds }),
    {
        Self::new(0, 0, 0, 0, rounds)
    }

    pub fn display_short(&self) -> (r: IntervalShortView<'_>)
        ensures
            r.interval() == *self,
    {
        IntervalShortView(self)
    }

    pub fn display_long(&self) -> (r: IntervalLongView<'_>)
        ensures
            r.interval() == *self,
    {
        IntervalLongView(self)
    }
}

impl Default for Interval {
    fn default() -> (r: Self)
        ensures
            r == zero_interval(),
    {
        Self::new(0, 0, 0, 0, 0)
    }
}

// ---------------------------------------------------------------------------------------------
// Rendering
// ---------------------------------------------------------------------------------------------

/// Appends `piece` to the rendering `acc`, separated by `sep` unless `acc` is still empty.
pub open spec fn add_piece(acc: Seq<char>, piece: Option<Seq<char>>, sep: Seq<char>) -> Seq<
    char,
> {
    match piece {
        None => acc,
        Some(p) => if acc.len() == 0 {
            p
        } else {
            acc + sep + p
        },
    }
}

/// The short piece for one field: its value and unit letter, or nothing unless positive.
pub open spec fn short_piece(value: i32, unit: char) -> Option<Seq<char>> {
    if value > 0 {
        Some(int_digits(value as int).push(unit))
    } else {
        None
    }
}

/// The fields of `i` that are positive, each as value and unit letter, separated by spaces.
pub open spec fn short_body(i: Interval) -> Seq<char> {
    let sep = seq![' '];
    add_piece(
        add_piece(
            add_piece(
                add_piece(add_piece(Seq::empty(), short_piece(i.days, 'd'), sep), short_piece(
                    i.hours,
                    'h',
                ), sep),
                short_piece(i.minutes, 'm'),
                sep,
            ),
            short_piece(i.seconds, 's'),
            sep,
        ),
        short_piece(i.rounds, 'r'),
        sep,
    )
}

/// The short rendering: the positive fields as in `2d 3h 4m 5s 6r`, or `0` when none is positive.
pub open spec fn short_text(i: Interval) -> Seq<char> {
    if short_body(i).len() == 0 {
        seq!['0']
    } else {
        short_body(i)
    }
}

/// The long piece for one field: `1 day`, `2 days`, or nothing unless positive.
pub open spec fn long_piece(value: i32, name: Seq<char>) -> Option<Seq<char>> {
    if value > 0 {
        Some(
            int_digits(value as int) + seq![' '] + name + if value == 1 {
                Seq::<char>::empty()
            } else {
                seq!['s']
            },
        )
    } else {
        None
    }
}

/// The fields of `i` that are positive, spelled out and separated by commas.
pub open spec fn long_body(i: Interval) -> Seq<char> {
    let sep = seq![',', ' '];
    add_piece(
        add_piece(
            add_piece(
                add_piece(
                    add_piece(Seq::empty(), long_piece(i.days, seq!['d', 'a', 'y']), sep),
                    long_piece(i.hours, seq!['h', 'o', 'u', 'r']),
                    sep,
                ),
                long_piece(i.minutes, seq!['m', 'i', 'n', 'u', 't', 'e']),
                sep,
            ),
            long_piece(i.seconds, seq!['s', 'e', 'c', 'o', 'n', 'd']),
            sep,
        ),
        long_piece(i.rounds, seq!['r', 'o', 'u', 'n', 'd']),
        sep,
    )
}

/// The long rendering: as in `2 days, 3 hours`, or `nuthin'` when no field is positive.
pub open spec fn long_text(i: Interval) -> Seq<char> {
    if long_body(i).len() == 0 {
        seq!['n', 'u', 't', 'h', 'i', 'n', '\'']
    } else {
        long_body(i)
    }
}

/// Adds one rendered piece to `out`, as `add_piece` describes.
fn push_piece(out: &mut Vec<char>, piece: &Vec<char>, sep: &Vec<char>)
    requires
        piece@.len() > 0,
    ensures
        final(out)@ == add_piece(old(out)@, Some(piece@), sep@),
        final(out)@.len() > 0,
{
    if out.len() > 0 {
        push_all(out, sep);
    }
    push_all(out, piece);
}

/// Renders one short piece, or returns `None` when the field is not positive.
fn short_piece_exec(value: i32, unit: char) -> (r: Option<Vec<char>>)
    ensures
        match r {
            Some(v) => short_piece(value, unit) == Some(v@) && v@.len() > 0,
            None => short_piece(value, unit) is None,
        },
{
    if value > 0 {
        let mut v = fmt_i64(value as i64);
        v.push(unit);
        Some(v)
    } else {
        None
    }
}

/// Adds an optional piece to `out`.
fn push_opt_piece(out: &mut Vec<char>, piece: Option<Vec<char>>, sep: &Vec<char>)
    requires
        piece matches Some(p) ==> p@.len() > 0,
    ensures
        final(out)@ == add_piece(
            old(out)@,
            match piece {
                Some(p) => Some(p@),
                None => None,
            },
            sep@,
        ),
{
    match piece {
        Some(p) => push_piece(out, &p, sep),
        None => {},
    }
}

/// Renders one long piece, or returns `None` when the field is not positive.
fn long_piece_exec(value: i32, name: &Vec<char>) -> (r: Option<Vec<char>>)
    ensures
        match r {
            Some(v) => long_piece(value, name@) == Some(v@) && v@.len() > 0,
            None => long_piece(value, name@) is None,
        },
{
    if value > 0 {
        let mut v = fmt_i64(value as i64);
        v.push(' ');
        push_all(&mut v, name);
        if value != 1 {
            v.push('s');
        }
        assert(v@ =~= int_digits(value as int) + seq![' '] + name@ + if value == 1 {
            Seq::<char>::empty()
        } else {
            seq!['s']
        });
        Some(v)
    } else {
        None
    }
}

impl<'a> IntervalShortView<'a> {
    /// The interval this view renders.
    pub closed spec fn interval(&self) -> Interval {
        *self.0
    }

    /// The short rendering, such as `2d 3h 4m 5s 6r`.
    pub fn to_string(&self) -> (r: String)
        ensures
            r@ == short_text(self.interval()),
    {
        let i = self.0;
        let mut sep: Vec<char> = Vec::new();
        sep.push(' ');
        let mut out: Vec<char> = Vec::new();
        push_opt_piece(&mut out, short_piece_exec(i.days, 'd'), &sep);
        push_opt_piece(&mut out, short_piece_exec(i.hours, 'h'), &sep);
        push_opt_piece(&mut out, short_piece_exec(i.minutes, 'm'), &sep);
        push_opt_piece(&mut out, short_piece_exec(i.seconds, 's'), &sep);
        push_opt_piece(&mut out, short_piece_exec(i.rounds, 'r'), &sep);
        assert(sep@ =~= seq![' ']);
        if out.len() == 0 {
            out.push('0');
            assert(out@ =~= seq!['0']);
        }
        string_of(&out)
    }
}

impl<'a> IntervalLongView<'a> {
    /// The interval this view renders.
    pub closed spec fn interval(&self) -> Interval {
        *self.0
    }

    /// The long rendering, such as `2 days, 3 hours, 1 minute`.
    pub fn to_string(&self) -> (r: String)
        ensures
            r@ == long_text(self.interval()),
    {
        let i = self.0;
        let mut sep: Vec<char> = Vec::new();
        sep.push(',');
        sep.push(' ');
        assert(sep@ =~= seq![',', ' ']);
        let mut out: Vec<char> = Vec::new();
        let day = chars_of("day");
        let hour = chars_of("hour");
        let minute = chars_of("minute");
        let second = chars_of("second");
        let round = chars_of("round");
        proof {
            reveal_strlit("day");
            reveal_strlit("hour");
            reveal_strlit("minute");
            reveal_strlit("second");
            reveal_strlit("round");
            assert(day@ =~= seq!['d', 'a', 'y']);
            assert(hour@ =~= seq!['h', 'o', 'u', 'r']);
            assert(minute@ =~= seq!['m', 'i', 'n', 'u', 't', 'e']);
            assert(second@ =~= seq!['s', 'e', 'c', 'o', 'n', 'd']);
            assert(round@ =~= seq!['r', 'o', 'u', 'n', 'd']);
        }
        push_opt_piece(&mut out, long_piece_exec(i.days, &day), &sep);
        push_opt_piece(&mut out, long_piece_exec(i.hours, &hour), &sep);
        push_opt_piece(&mut out, long_piece_exec(i.minutes, &minute), &sep);
        push_opt_piece(&mut out, long_piece_exec(i.seconds, &second), &sep);
        push_opt_piece(&mut out, long_piece_exec(i.rounds, &round), &sep);
        if out.len() == 0 {
            let nothing = chars_of("nuthin'");
            proof {
                reveal_strlit("nuthin'");
            }
            return string_of(&nothing);
        }
        string_of(&out)
    }
}

// ---------------------------------------------------------------------------------------------
// Parsing
// ---------------------------------------------------------------------------------------------

/// `str::split_inclusive` on characters that are not ASCII digits: pieces each made of digits
/// followed by one character that is not a digit, except that the last piece may end in digits.
pub open spec fn split_units(s: Seq<char>) -> Seq<Seq<char>>
    decreases s.len(),
{
    if s.len() == 0 {
        Seq::empty()
    } else {
        let r = split_units(s.drop_last());
        if r.len() == 0 || !is_digit_spec(r.last().last()) {
            r.push(seq![s.last()])
        } else {
            r.update(r.len() - 1, r.last().push(s.last()))
        }
    }
}

/// The field a unit letter names, in either case: 0 days, 1 hours, 2 minutes, 3 seconds,
/// 4 rounds.
pub open spec fn unit_of(c: char) -> Option<int> {
    let f = fold_case(c);
    if f == 'd' as int {
        Some(0)
    } else if f == 'h' as int {
        Some(1)
    } else if f == 'm' as int {
        Some(2)
    } else if f == 's' as int {
        Some(3)
    } else if f == 'r' as int {
        Some(4)
    } else {
        None
    }
}

/// The number before the unit letter of a trimmed piece: the digits read as an `i32`, or 1 when
/// the very first piece is a bare unit letter (so that `d` means `1d`).
pub open spec fn part_value(part: Seq<char>, first: bool) -> Option<i32> {
    let digits = part.drop_last();
    if digits.len() == 0 {
        if first {
            Some(1)
        } else {
            None
        }
    } else if is_digit_spec(part[0]) {
        parse_i32_spec(digits)
    } else {
        None
    }
}

/// `i` with the field named by `unit` set to `value`.
pub open spec fn with_unit(i: Interval, unit: int, value: i32) -> Interval {
    if unit == 0 {
        Interval { days: value, ..i }
    } else if unit == 1 {
        Interval { hours: value, ..i }
    } else if unit == 2 {
        Interval { minutes: value, ..i }
    } else if unit == 3 {
        Interval { seconds: value, ..i }
    } else {
        Interval { rounds: value, ..i }
    }
}

/// Reads one piece into the interval built so far: whitespace pieces are skipped; any other piece
/// must be a number and a unit letter whose field has not been given yet.
pub open spec fn parse_step(
    acc: Option<(Set<int>, Interval)>,
    piece: Seq<char>,
    first: bool,
) -> Option<(Set<int>, Interval)> {
    match acc {
        None => None,
        Some((used, i)) => {
            let part = trim_spec(piece);
            if part.len() == 0 {
                Some((used, i))
            } else {
                match (unit_of(part.last()), part_value(part, first)) {
                    (Some(u), Some(v)) => if used.contains(u) {
                        None
                    } else {
                        Some((used.insert(u), with_unit(i, u, v)))
                    },
                    _ => None,
                }
            }
        },
    }
}

/// Reads all pieces in order, starting from the zero interval.
pub open spec fn parse_pieces(pieces: Seq<Seq<char>>) -> Option<(Set<int>, Interval)>
    decreases pieces.len(),
{
    if pieces.len() == 0 {
        Some((Set::empty(), zero_interval()))
    } else {
        parse_step(parse_pieces(pieces.drop_last()), pieces.last(), pieces.len() == 1)
    }
}

/// `Interval::from_str`: after trimming, `0` is the zero interval; otherwise the text is a run of
/// numbers with unit letters (`d`, `h`, `m`, `s`, `r`, either case), each unit at most once,
/// optionally separated by whitespace, such as `2d 3h` or `10M`; a leading bare unit counts one.
pub open spec fn parse_interval_spec(raw: Seq<char>) -> Option<Interval> {
    let s = trim_spec(raw);
    if s.len() == 0 {
        None
    } else if s == seq!['0'] {
        Some(zero_interval())
    } else {
        match parse_pieces(split_units(s)) {
            Some((_, i)) => Some(i),
            None => None,
        }
    }
}

/// Once reading fails, reading more pieces fails too.
proof fn lemma_parse_pieces_none(ps: Seq<Seq<char>>, k: int)
    requires
        0 <= k <= ps.len(),
        parse_pieces(ps.take(k)) is None,
    ensures
        parse_pieces(ps) is None,
    decreases ps.len() - k,
{
    if k < ps.len() {
        assert(ps.take(k + 1).drop_last() =~= ps.take(k));
        lemma_parse_pieces_none(ps, k + 1);
    } else {
        assert(ps.take(k) =~= ps);
    }
}

/// Splits `v[lo..hi]` into pieces as `split_units` does.
fn split_units_exec(v: &Vec<char>, lo: usize, hi: usize) -> (r: Vec<Vec<char>>)
    requires
        lo <= hi <= v.len(),
    ensures
        r.deep_view() == split_units(v@.subrange(lo as int, hi as int)),
{
    let ghost s = v@.subrange(lo as int, hi as int);
    let mut parts: Vec<Vec<char>> = Vec::new();
    let mut cur: Vec<char> = Vec::new();
    let mut i = lo;
    assert(s.take(0) =~= Seq::<char>::empty());
    while i < hi
        invariant
            lo <= i <= hi <= v.len(),
            s == v@.subrange(lo as int, hi as int),
            forall|k: int| 0 <= k < cur@.len() ==> is_digit_spec(#[trigger] cur@[k]),
            forall|k: int|
                0 <= k < parts.len() ==> #[trigger] parts@[k]@.len() > 0 && !is_digit_spec(
                    parts@[k]@.last(),
                ),
            split_units(s.take(i - lo)) == if cur@.len() == 0 {
                parts.deep_view()
            } else {
                parts.deep_view().push(cur@)
            },
        decreases hi - i,
    {
        let c = v[i];
        let ghost t = s.take(i - lo + 1);
        assert(t.drop_last() =~= s.take(i - lo));
        assert(t.last() == c);
        let ghost r = split_units(s.take(i - lo));
        let ghost old_parts = parts@;
        let ghost old_dv = parts.deep_view();
        let ghost old_cur = cur@;
        proof {
            if cur@.len() == 0 {
                if r.len() > 0 {
                    assert(r.last() == parts@[parts.len() - 1]@);
                }
            } else {
                assert(r.last() == cur@);
            }
        }
        cur.push(c);
        if !is_digit(c) {
            let done = cur;
            cur = Vec::new();
            parts.push(done);
            proof {
                assert(parts.deep_view() =~= old_dv.push(old_cur.push(c))) by {
                    assert forall|k: int| 0 <= k < parts.len() implies #[trigger] parts.deep_view()[
                        k] == old_dv.push(old_cur.push(c))[k] by {
                        if k < old_parts.len() {
                            assert(parts@[k] == old_parts[k]);
                        }
                    }
                }
                if old_cur.len() == 0 {
                    assert(old_cur.push(c) =~= seq![c]);
                }
                assert(parts@[parts.len() - 1]@ == old_cur.push(c));
            }
        } else {
            proof {
                if old_cur.len() == 0 {
                    assert(old_cur.push(c) =~= seq![c]);
                }
                assert(cur@ == old_cur.push(c));
            }
        }
        i = i + 1;
        proof {
            assert(split_units(s.take(i - lo)) == (if cur@.len() == 0 {
                parts.deep_view()
            } else {
                parts.deep_view().push(cur@)
            })) by {
                if cur@.len() == 0 {
                    assert(parts.deep_view() =~= split_units(t));
                } else {
                    assert(parts.deep_view().push(cur@) =~= split_units(t));
                }
            }
        }
    }
    assert(s.take(hi - lo) =~= s);
    if cur.len() > 0 {
        let ghost old_parts = parts@;
        let ghost old_dv = parts.deep_view();
        let ghost cv = cur@;
        parts.push(cur);
        assert(parts.deep_view() =~= old_dv.push(cv)) by {
            assert forall|k: int| 0 <= k < parts.len() implies #[trigger] parts.deep_view()[k]
                == old_dv.push(cv)[k] by {
                if k < old_parts.len() {
                    assert(parts@[k] == old_parts[k]);
                }
            }
        }
    }
    parts
}

/// The field named by a unit letter, as `unit_of` gives it, with `5` for any other character.
fn unit_index(c: char) -> (r: u32)
    ensures
        r < 5 ==> unit_of(c) == Some(r as int),
        r >= 5 ==> unit_of(c) is None,
{
    if c == 'd' || c == 'D' {
        0
    } else if c == 'h' || c == 'H' {
        1
    } else if c == 'm' || c == 'M' {
        2
    } else if c == 's' || c == 'S' {
        3
    } else if c == 'r' || c == 'R' {
        4
    } else {
        assert(unit_of(c) is None) by {
            if 'A' <= c && c <= 'Z' {
                assert(fold_case(c) == c as int + 32);
            }
        }
        5
    }
}

/// Reads one piece as `parse_step` describes. `used[u]` records whether unit `u` has been given.
fn parse_piece(piece: &Vec<char>, first: bool, used: &mut Vec<bool>, i: &mut Interval) -> (ok:
    bool)
    requires
        old(used)@.len() == 5,
    ensures
        final(used)@.len() == 5,
        ({
            let before = Some((Set::new(|u: int| 0 <= u < 5 && old(used)@[u]), *old(i)));
            let after = parse_step(before, piece@, first);
            if ok {
                after == Some((Set::new(|u: int| 0 <= u < 5 && final(used)@[u]), *final(i)))
            } else {
                after is None
            }
        }),
{
    let ghost used_before = Set::new(|u: int| 0 <= u < 5 && used@[u]);
    let (lo, hi) = trim_bounds(piece, 0, piece.len());
    let ghost part = piece@.subrange(lo as int, hi as int);
    assert(piece@.subrange(0, piece.len() as int) =~= piece@);
    if lo == hi {
        return true;
    }
    let c = piece[hi - 1];
    assert(part.last() == c);
    let u = unit_index(c);
    if u >= 5 {
        return false;
    }
    let value: i32 = if hi - 1 == lo {
        if first {
            1
        } else {
            return false;
        }
    } else if is_digit(piece[lo]) {
        assert(part[0] == piece@[lo as int]);
        assert(part.drop_last() =~= piece@.subrange(lo as int, hi - 1));
        match parse_i32(piece, lo, hi - 1) {
            Some(v) => v,
            None => return false,
        }
    } else {
        assert(part[0] == piece@[lo as int]);
        return false;
    };
    proof {
        if hi - 1 == lo {
            assert(part.drop_last().len() == 0);
        }
        assert(part_value(part, first) == Some(value));
    }
    if used[u as usize] {
        assert(used_before.contains(u as int));
        return false;
    }
    used.set(u as usize, true);
    if u == 0 {
        i.days = value;
    } else if u == 1 {
        i.hours = value;
    } else if u == 2 {
        i.minutes = value;
    } else if u == 3 {
        i.seconds = value;
    } else {
        i.rounds = value;
    }
    assert(Set::new(|x: int| 0 <= x < 5 && used@[x]) =~= used_before.insert(u as int));
    true
}

impl Interval {
    /// Reads an interval as `Interval::from_str` does; see [`parse_interval_spec`].
    pub fn parse(raw: &str) -> (r: Result<Interval, ()>)
        ensures
            match parse_interval_spec(raw@) {
                Some(i) => r == Ok::<Interval, ()>(i),
                None => r is Err,
            },
    {
        Self::parse_chars(&chars_of(raw))
    }

    /// Reads an interval from characters; see [`parse_interval_spec`].
    pub fn parse_chars(v: &Vec<char>) -> (r: Result<Interval, ()>)
        ensures
            match parse_interval_spec(v@) {
                Some(i) => r == Ok::<Interval, ()>(i),
                None => r is Err,
            },
    {
        let ghost raw = v@;
        let (lo, hi) = trim_bounds(v, 0, v.len());
        assert(v@.subrange(0, v.len() as int) =~= v@);
        let ghost s = v@.subrange(lo as int, hi as int);
        if lo == hi {
            return Err(());
        }
        if hi - lo == 1 && v[lo] == '0' {
            assert(s =~= seq!['0']);
            return Ok(Interval::default());
        }
        proof {
            if s == seq!['0'] {
                assert(s[0] == v@[lo as int]);
            }
        }
        let pieces = split_units_exec(v, lo, hi);
        let mut used: Vec<bool> = Vec::new();
        used.push(false);
        used.push(false);
        used.push(false);
        used.push(false);
        used.push(false);
        let mut acc = Interval::default();
        let mut k: usize = 0;
        assert(Set::new(|u: int| 0 <= u < 5 && used@[u]) =~= Set::<int>::empty());
        assert(pieces.deep_view().take(0) =~= Seq::<Seq<char>>::empty());
        while k < pieces.len()
            invariant
                k <= pieces.len(),
                used@.len() == 5,
                pieces.deep_view() == split_units(s),
                s == trim_spec(raw),
                raw == v@,
                s.len() > 0,
                s != seq!['0'],
                parse_pieces(pieces.deep_view().take(k as int)) == Some(
                    (Set::new(|u: int| 0 <= u < 5 && used@[u]), acc),
                ),
            decreases pieces.len() - k,
        {
            let ghost dv = pieces.deep_view();
            assert(dv.take(k + 1).drop_last() =~= dv.take(k as int));
            assert(dv.take(k + 1).last() == pieces@[k as int]@);
            if !parse_piece(&pieces[k], k == 0, &mut used, &mut acc) {
                proof {
                    lemma_parse_pieces_none(dv, k + 1);
                    assert(dv.take(pieces.len() as int) =~= dv);
                }
                return Err(());
            }
            k = k + 1;
        }
        assert(pieces.deep_view().take(pieces.len() as int) =~= pieces.deep_view());
        Ok(acc)
    }
}

// ---------------------------------------------------------------------------------------------
// The short rendering reads back
// ---------------------------------------------------------------------------------------------

/// Splitting text that follows a finished piece starts afresh.
proof fn lemma_split_units_concat(a: Seq<char>, b: Seq<char>)
    requires
        a.len() == 0 || !is_digit_spec(a.last()),
    ensures
        split_units(a + b) == split_units(a) + split_units(b),
    decreases b.len(),
{
    if b.len() == 0 {
        assert(a + b =~= a);
        assert(split_units(a) + split_units(b) =~= split_units(a));
    } else {
        let b1 = b.drop_last();
        let c = b.last();
        lemma_split_units_concat(a, b1);
        assert((a + b).drop_last() =~= a + b1);
        assert((a + b).last() == c);
        let ra = split_units(a);
        let rb1 = split_units(b1);
        let r = split_units(a + b1);
        assert(r == ra + rb1);
        if rb1.len() == 0 {
            if a.len() > 0 {
                lemma_split_units_last(a);
            }
            assert(r.len() == 0 || !is_digit_spec(r.last().last()));
            assert(split_units(a + b) =~= ra + rb1.push(seq![c]));
        } else {
            assert(r.last() == rb1.last());
            if !is_digit_spec(rb1.last().last()) {
                assert(split_units(a + b) =~= ra + rb1.push(seq![c]));
            } else {
                assert(split_units(a + b) =~= ra + rb1.update(
                    rb1.len() - 1,
                    rb1.last().push(c),
                ));
            }
        }
    }
}

/// The last piece of nonempty text ends with its last character.
proof fn lemma_split_units_last(a: Seq<char>)
    requires
        a.len() > 0,
    ensures
        split_units(a).len() > 0,
        split_units(a).last().len() > 0,
        split_units(a).last().last() == a.last(),
    decreases a.len(),
{
    let r = split_units(a.drop_last());
    if a.len() > 1 {
        lemma_split_units_last(a.drop_last());
    }
}

/// Digits followed by one non-digit make a single piece.
proof fn lemma_split_units_one(d: Seq<char>, u: char)
    requires
        d.len() > 0,
        forall|k: int| 0 <= k < d.len() ==> is_digit_spec(#[trigger] d[k]),
        !is_digit_spec(u),
    ensures
        split_units(d.push(u)) == seq![d.push(u)],
{
    lemma_split_units_digits(d);
    assert(d.push(u).drop_last() =~= d);
    assert(seq![d].update(0, d.push(u)) =~= seq![d.push(u)]);
}

/// Nonempty digits make a single piece.
proof fn lemma_split_units_digits(d: Seq<char>)
    requires
        d.len() > 0,
        forall|k: int| 0 <= k < d.len() ==> is_digit_spec(#[trigger] d[k]),
    ensures
        split_units(d) == seq![d],
    decreases d.len(),
{
    if d.len() == 1 {
        assert(d.drop_last() =~= Seq::<char>::empty());
        assert(split_units(d.drop_last()) =~= Seq::<Seq<char>>::empty());
        assert(seq![d.last()] =~= d);
    } else {
        let d1 = d.drop_last();
        lemma_split_units_digits(d1);
        assert(d1.last() == d[d.len() - 2]);
        assert(d1.push(d.last()) =~= d);
        assert(seq![d1].update(0, d1.push(d.last())) =~= seq![d]);
    }
}

/// Reading one more piece is one more step.
proof fn lemma_parse_pieces_push(ps: Seq<Seq<char>>, q: Seq<char>)
    ensures
        parse_pieces(ps.push(q)) == parse_step(parse_pieces(ps), q, ps.len() == 0),
{
    assert(ps.push(q).drop_last() =~= ps);
}

/// Text that neither begins nor ends with whitespace is its own trimmed form.
proof fn lemma_trim_unchanged(s: Seq<char>)
    requires
        s.len() > 0,
        !is_whitespace_spec(s[0]),
        !is_whitespace_spec(s.last()),
    ensures
        trim_spec(s) == s,
{
}

/// A lone space trims to nothing.
proof fn lemma_trim_space()
    ensures
        trim_spec(seq![' ']) == Seq::<char>::empty(),
{
    assert(seq![' '].drop_first() =~= Seq::<char>::empty());
    assert(trim_start_spec(seq![' ']) == trim_start_spec(Seq::<char>::empty()));
}

/// Adding the short piece of one field to a rendering that reads back keeps it reading back,
/// with the field given when it is positive.
proof fn lemma_add_short_piece(
    acc: Seq<char>,
    used: Set<int>,
    iv: Interval,
    value: i32,
    unit: char,
    u: int,
)
    requires
        acc.len() == 0 || !is_digit_spec(acc.last()),
        parse_pieces(split_units(acc)) == Some((used, iv)),
        forall|x: int| used.contains(x) ==> x < u,
        unit_of(unit) == Some(u),
        !is_digit_spec(unit),
        !is_whitespace_spec(unit),
        value >= 0,
    ensures
        ({
            let acc2 = add_piece(acc, short_piece(value, unit), seq![' ']);
            &&& acc2.len() == 0 || !is_digit_spec(acc2.last())
            &&& acc2.len() == 0 ==> acc.len() == 0
            &&& parse_pieces(split_units(acc2)) == if value > 0 {
                Some((used.insert(u), with_unit(iv, u, value)))
            } else {
                Some((used, iv))
            }
        }),
{
    if value > 0 {
        let d = nat_digits(value as nat);
        let p = d.push(unit);
        lemma_step_piece(used, iv, value, unit, u);
        if acc.len() == 0 {
            assert(acc + p =~= p);
            assert(split_units(acc) =~= Seq::<Seq<char>>::empty());
            lemma_split_units_concat(acc, p);
            assert(split_units(p) =~= Seq::<Seq<char>>::empty().push(p));
            lemma_parse_pieces_push(Seq::<Seq<char>>::empty(), p);
        } else {
            lemma_add_after_space(acc, used, iv, p, d, value, unit, u);
        }
    }
}

/// The short piece of a positive field, read as a step.
proof fn lemma_step_piece(used: Set<int>, iv: Interval, value: i32, unit: char, u: int)
    requires
        forall|x: int| used.contains(x) ==> x < u,
        unit_of(unit) == Some(u),
        !is_digit_spec(unit),
        !is_whitespace_spec(unit),
        value > 0,
    ensures
        ({
            let p = nat_digits(value as nat).push(unit);
            &&& short_piece(value, unit) == Some(p)
            &&& split_units(p) == seq![p]
            &&& p.len() > 0 && is_digit_spec(p[0]) && p.last() == unit
            &&& forall|first: bool| #[trigger]
                parse_step(Some((used, iv)), p, first) == Some(
                    (used.insert(u), with_unit(iv, u, value)),
                )
        }),
{
    let d = nat_digits(value as nat);
    lemma_nat_digits(value as nat);
    lemma_int_digits_parse(value as int, unit);
    assert(int_digits(value as int) == d);
    let p = d.push(unit);
    assert forall|k: int| 0 <= k < d.len() implies is_digit_spec(#[trigger] d[k]) by {}
    lemma_split_units_one(d, unit);
    assert(p[0] == d[0]);
    lemma_trim_unchanged(p);
    assert(p.drop_last() =~= d);
    assert forall|first: bool| #[trigger]
        parse_step(Some((used, iv)), p, first) == Some(
            (used.insert(u), with_unit(iv, u, value)),
        ) by {
        assert(part_value(p, first) == Some(value));
        assert(!used.contains(u));
    }
}

/// Adding a piece after a separating space to a nonempty rendering.
proof fn lemma_add_after_space(
    acc: Seq<char>,
    used: Set<int>,
    iv: Interval,
    p: Seq<char>,
    d: Seq<char>,
    value: i32,
    unit: char,
    u: int,
)
    requires
        acc.len() > 0,
        !is_digit_spec(acc.last()),
        parse_pieces(split_units(acc)) == Some((used, iv)),
        split_units(p) == seq![p],
        forall|first: bool| #[trigger]
            parse_step(Some((used, iv)), p, first) == Some(
                (used.insert(u), with_unit(iv, u, value)),
            ),
    ensures
        parse_pieces(split_units(acc + seq![' '] + p)) == Some(
            (used.insert(u), with_unit(iv, u, value)),
        ),
{
    let sp = seq![' '];
    lemma_split_units_concat(acc, sp);
    assert(sp.drop_last() =~= Seq::<char>::empty());
    assert(split_units(sp.drop_last()) =~= Seq::<Seq<char>>::empty());
    assert(split_units(sp) =~= seq![sp]);
    lemma_trim_space();
    lemma_parse_pieces_push(split_units(acc), sp);
    let a2 = acc + sp;
    assert(a2.last() == ' ');
    lemma_split_units_concat(a2, p);
    let ps = split_units(acc).push(sp);
    assert(split_units(a2) =~= ps);
    assert(split_units(a2 + p) =~= ps.push(p));
    lemma_parse_pieces_push(ps, p);
    assert(parse_step(Some((used, iv)), p, ps.len() == 0) == Some(
        (used.insert(u), with_unit(iv, u, value)),
    ));
}

/// Reading back the short rendering of an interval whose fields are all non-negative gives that
/// interval: what `+`/`-` time commands display parses back to the same command.
pub proof fn lemma_short_text_parses(i: Interval)
    requires
        i.days >= 0,
        i.hours >= 0,
        i.minutes >= 0,
        i.seconds >= 0,
        i.rounds >= 0,
    ensures
        parse_interval_spec(short_text(i)) == Some(i),
{
    let sep = seq![' '];
    let a0 = Seq::<char>::empty();
    assert(split_units(a0) =~= Seq::<Seq<char>>::empty());
    let z = zero_interval();
    lemma_add_short_piece(a0, Set::empty(), z, i.days, 'd', 0);
    let a1 = add_piece(a0, short_piece(i.days, 'd'), sep);
    let s1 = if i.days > 0 { Set::<int>::empty().insert(0) } else { Set::<int>::empty() };
    let v1 = if i.days > 0 { with_unit(z, 0, i.days) } else { z };
    lemma_add_short_piece(a1, s1, v1, i.hours, 'h', 1);
    let a2 = add_piece(a1, short_piece(i.hours, 'h'), sep);
    let s2 = if i.hours > 0 { s1.insert(1) } else { s1 };
    let v2 = if i.hours > 0 { with_unit(v1, 1, i.hours) } else { v1 };
    lemma_add_short_piece(a2, s2, v2, i.minutes, 'm', 2);
    let a3 = add_piece(a2, short_piece(i.minutes, 'm'), sep);
    let s3 = if i.minutes > 0 { s2.insert(2) } else { s2 };
    let v3 = if i.minutes > 0 { with_unit(v2, 2, i.minutes) } else { v2 };
    lemma_add_short_piece(a3, s3, v3, i.seconds, 's', 3);
    let a4 = add_piece(a3, short_piece(i.seconds, 's'), sep);
    let s4 = if i.seconds > 0 { s3.insert(3) } else { s3 };
    let v4 = if i.seconds > 0 { with_unit(v3, 3, i.seconds) } else { v3 };
    lemma_add_short_piece(a4, s4, v4, i.rounds, 'r', 4);
    let a5 = add_piece(a4, short_piece(i.rounds, 'r'), sep);
    let v5 = if i.rounds > 0 { with_unit(v4, 4, i.rounds) } else { v4 };
    assert(a5 == short_body(i));
    assert(v5 == i);
    if a5.len() == 0 {
        assert(short_text(i) =~= seq!['0']);
        assert(trim_start_spec(seq!['0']) == seq!['0']);
        assert(trim_spec(seq!['0']) == seq!['0']);
        assert(i == z);
    } else {
        let s = short_text(i);
        assert(s == a5);
        assert(!is_whitespace_spec(s.last()));
        lemma_short_body_starts_with_digit(i);
        lemma_trim_unchanged(s);
        if s == seq!['0'] {
            assert(is_digit_spec(s.last()));
        }
    }
}

/// A nonempty short rendering begins with a digit.
proof fn lemma_short_body_starts_with_digit(i: Interval)
    requires
        short_body(i).len() > 0,
    ensures
        is_digit_spec(short_body(i)[0]),
{
    let sep = seq![' '];
    let pieces = seq![
        short_piece(i.days, 'd'),
        short_piece(i.hours, 'h'),
        short_piece(i.minutes, 'm'),
        short_piece(i.seconds, 's'),
        short_piece(i.rounds, 'r'),
    ];
    lemma_piece_starts_with_digit(i.days, 'd');
    lemma_piece_starts_with_digit(i.hours, 'h');
    lemma_piece_starts_with_digit(i.minutes, 'm');
    lemma_piece_starts_with_digit(i.seconds, 's');
    lemma_piece_starts_with_digit(i.rounds, 'r');
    let a1 = add_piece(Seq::empty(), short_piece(i.days, 'd'), sep);
    let a2 = add_piece(a1, short_piece(i.hours, 'h'), sep);
    let a3 = add_piece(a2, short_piece(i.minutes, 'm'), sep);
    let a4 = add_piece(a3, short_piece(i.seconds, 's'), sep);
    assert(a1.len() > 0 ==> is_digit_spec(a1[0]));
    assert(a2.len() > 0 ==> is_digit_spec(a2[0]));
    assert(a3.len() > 0 ==> is_digit_spec(a3[0]));
    assert(a4.len() > 0 ==> is_digit_spec(a4[0]));
}

/// A short piece begins with a digit.
proof fn lemma_piece_starts_with_digit(value: i32, unit: char)
    ensures
        short_piece(value, unit) matches Some(p) ==> p.len() > 0 && is_digit_spec(p[0]),
{
    if value > 0 {
        lemma_nat_digits(value as nat);
    }
}

} // verus!
