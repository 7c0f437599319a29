//! In-game time: a day count and a time of day, advanced and rewound by intervals.


pub mod command;
pub mod interval;


pub use command::TimeCommand;
pub use interval::Interval;

use crate::text::{
    chars_of, fmt_i64, fmt_u64, int_digits, lemma_int_digits_parse, lacks, lemma_nat_digits, lemma_split_join, lemma_split_plain,
    nat_digits, parse_i32, parse_i32_spec, parse_u8, parse_u8_spec, push_all, split_on, split_spec,
    string_of, all_digits, digits_value, digit_char, lemma_digit_char, lemma_digits_value_push,
};
use vstd::arithmetic::div_mod::lemma_fundamental_div_mod_converse;
use vstd::prelude::*;

verus! {

/// A moment in game time: a (possibly negative) day number and a time of day.
#[derive(Debug, Eq, PartialEq, Structural)]
pub struct Time {
    days: i32,
    hours: u8,
    minutes: u8,
    seconds: u8,
}

/// A short rendering of a [`Time`], such as `1:02:03:04`.
pub struct TimeShortView<'a>(&'a Time);

/// A long rendering of a [`Time`], such as `day 1 at 2:03:04 am`.
pub struct TimeLongView<'a>(&'a Time);

/// The four components of a time: day, hour, minute and second.
pub type TimeParts = (int, int, int, int);

/// A valid time of day: hours below 24, minutes and seconds below 60, and a day that fits `i32`.
pub open spec fn valid_parts(t: TimeParts) -> bool {
    &&& i32::MIN <= t.0 <= i32::MAX
    &&& 0 <= t.1 < 24
    &&& 0 <= t.2 < 60
    &&& 0 <= t.3 < 60
}

/// The number of seconds from the start of day 0 to the time `t`.
pub open spec fn seconds_of(t: TimeParts) -> int {
    t.0 * 86400 + t.1 * 3600 + t.2 * 60 + t.3
}

/// The time of day that lies `total` seconds after the start of day 0 (negative: before it).
pub open spec fn parts_of_seconds(total: int) -> TimeParts {
    (total / 86400, (total % 86400) / 3600, (total % 3600) / 60, total % 60)
}

/// What `Time::checked_add` gives: the time that lies the interval's length after `t`, unless its
/// day does not fit in `i32`.
pub open spec fn add_spec(t: TimeParts, i: Interval) -> Option<TimeParts> {
    let r = parts_of_seconds(seconds_of(t) + i.total_seconds());
    if i32::MIN <= r.0 <= i32::MAX {
        Some(r)
    } else {
        None
    }
}

/// The interval with every field negated.
pub open spec fn negate(i: Interval) -> Interval {
    Interval {
        days: -i.days as i32,
        hours: -i.hours as i32,
        minutes: -i.minutes as i32,
        seconds: -i.seconds as i32,
        rounds: -i.rounds as i32,
    }
}

/// No field of the interval is `i32::MIN`, so that each can be negated.
pub open spec fn negatable(i: Interval) -> bool {
    &&& i.days != i32::MIN
    &&& i.hours != i32::MIN
    &&& i.minutes != i32::MIN
    &&& i.seconds != i32::MIN
    &&& i.rounds != i32::MIN
}

/// What `Time::checked_sub` gives: adding the negated interval, when every field can be negated.
pub open spec fn sub_spec(t: TimeParts, i: Interval) -> Option<TimeParts> {
    if negatable(i) {
        add_spec(t, negate(i))
    } else {
        None
    }
}

/// The hour on a twelve-hour clock.
pub open spec fn twelve_hour(h: int) -> int {
    if h == 0 {
        12
    } else if h <= 12 {
        h
    } else {
        h % 12
    }
}

/// A number below 100 with at least two digits, as `{:02}` writes it.
pub open spec fn pad2(n: int) -> Seq<char> {
    if n < 10 {
        seq!['0', digit_char(n)]
    } else {
        nat_digits(n as nat)
    }
}

/// The short rendering `d:hh:mm:ss`.
pub open spec fn short_text(t: TimeParts) -> Seq<char> {
    int_digits(t.0) + seq![':'] + pad2(t.1) + seq![':'] + pad2(t.2) + seq![':'] + pad2(t.3)
}

/// The long rendering `day d at h:mm:ss am` on a twelve-hour clock.
pub open spec fn long_text(t: TimeParts) -> Seq<char> {
    seq!['d', 'a', 'y', ' '] + int_digits(t.0) + seq![' ', 'a', 't', ' '] + nat_digits(
        twelve_hour(t.1) as nat,
    ) + seq![':'] + pad2(t.2) + seq![':'] + pad2(t.3) + if t.1 < 12 {
        seq![' ', 'a', 'm']
    } else {
        seq![' ', 'p', 'm']
    }
}

/// What `Time::from_str` gives: four `:`-separated fields, read as `i32`, `u8`, `u8`, `u8`, that
/// make a valid time.
pub open spec fn parse_spec(s: Seq<char>) -> Option<TimeParts> {
    let f = split_spec(s, ':');
    if f.len() == 4 {
        match (
            parse_i32_spec(f[0]),
            parse_u8_spec(f[1]),
            parse_u8_spec(f[2]),
            parse_u8_spec(f[3]),
        ) {
            (Some(d), Some(h), Some(m), Some(sec)) => if h < 24 && m < 60 && sec < 60 {
                Some((d as int, h as int, m as int, sec as int))
            } else {
                None
            },
            _ => None,
        }
    } else {
        None
    }
}

impl Time {
    #[verifier::type_invariant]
    spec fn inv(self) -> bool {
        self.hours < 24 && self.minutes < 60 && self.seconds < 60
    }

    /// The day, hour, minute and second of this time.
    pub closed spec fn parts(self) -> TimeParts {
        (self.days as int, self.hours as int, self.minutes as int, self.seconds as int)
    }

    /// A copy of this time.
    pub fn duplicate(&self) -> (r: Time)
        ensures
            r == *self,
    {
        proof {
            use_type_invariant(self);
        }
        Time { days: self.days, hours: self.hours, minutes: self.minutes, seconds: self.seconds }
    }

    pub fn try_new(days: i32, hours: u8, minutes: u8, seconds: u8) -> (r: Result<Self, ()>)
        ensures
            match r {
                Ok(t) => hours < 24 && minutes < 60 && seconds < 60 && t.parts() == (
                    days as int,
                    hours as int,
                    minutes as int,
                    seconds as int,
                ),
                Err(_) => !(hours < 24 && minutes < 60 && seconds < 60),
            },
    {
        if hours < 24 && minutes < 60 && seconds < 60 {
            Ok(Self { days, hours, minutes, seconds })
        } else {
            Err(())
        }
    }

    /// The time that lies `interval` after this one, or `None` when its day does not fit `i32`.
    pub fn checked_add(&self, interval: &Interval) -> (r: Option<Self>)
        ensures
            match r {
                Some(t) => add_spec(self.parts(), *interval) == Some(t.parts()),
                None => add_spec(self.parts(), *interval) is None,
            },
    {
        proof {
            use_type_invariant(self);
        }
        let mut days: i64 = self.days as i64 + interval.days as i64;
        let mut hours: i64 = self.hours as i64 + interval.hours as i64;
        let mut minutes: i64 = self.minutes as i64 + interval.minutes as i64;
        let mut seconds: i64 = self.seconds as i64 + interval.seconds as i64;
        let ghost total = seconds_of(self.parts()) + interval.total_seconds();

        if interval.rounds != 0 {
            seconds = seconds + interval.rounds as i64 * 6;
        }
        assert(days * 86400 + hours * 3600 + minutes * 60 + seconds == total);

        if !(0 <= seconds && seconds < 60) {
            let (q, rem) = div_mod_euclid(seconds, 60);
            minutes = minutes + q;
            seconds = rem;
        }
        assert(days * 86400 + hours * 3600 + minutes * 60 + seconds == total);

        if !(0 <= minutes && minutes < 60) {
            let (q, rem) = div_mod_euclid(minutes, 60);
            hours = hours + q;
            minutes = rem;
        }
        assert(days * 86400 + hours * 3600 + minutes * 60 + seconds == total);

        if !(0 <= hours && hours < 24) {
            let (q, rem) = div_mod_euclid(hours, 24);
            days = days + q;
            hours = rem;
        }
        assert(days * 86400 + hours * 3600 + minutes * 60 + seconds == total);

        proof {
            lemma_normal_form(total, days as int, hours as int, minutes as int, seconds as int);
        }
        if i32::MIN as i64 <= days && days <= i32::MAX as i64 {
            Some(
                Self {
                    days: days as i32,
                    hours: hours as u8,
                    minutes: minutes as u8,
                    seconds: seconds as u8,
                },
            )
        } else {
            None
        }
    }

    /// The time that lies `interval` before this one; `None` when a field of the interval is
    /// `i32::MIN` or the day does not fit `i32`.
    pub fn checked_sub(&self, interval: &Interval) -> (r: Option<Self>)
        ensures
            match r {
                Some(t) => sub_spec(self.parts(), *interval) == Some(t.parts()),
                None => sub_spec(self.parts(), *interval) is None,
            },
    {
        if let (Some(days), Some(hours), Some(minutes), Some(seconds), Some(rounds)) = (
            0i32.checked_sub(interval.days),
            0i32.checked_sub(interval.hours),
            0i32.checked_sub(interval.minutes),
            0i32.checked_sub(interval.seconds),
            0i32.checked_sub(interval.rounds),
        ) {
            let negated = Interval { days, hours, minutes, seconds, rounds };
            assert(negated == negate(*interval));
            self.checked_add(&negated)
        } else {
            None
        }
    }

    pub fn display_short(&self) -> (r: TimeShortView<'_>)
        ensures
            r.time() == *self,
    {
        TimeShortView(self)
    }

    pub fn display_long(&self) -> (r: TimeLongView<'_>)
        ensures
            r.time() == *self,
    {
        TimeLongView(self)
    }

    /// Reads a time written as `d:hh:mm:ss`, as `Time::from_str` does; see [`parse_spec`].
    pub fn parse(raw: &str) -> (r: Result<Self, ()>)
        ensures
            match parse_spec(raw@) {
                Some(p) => r matches Ok(t) && t.parts() == p,
                None => r is Err,
            },
    {
        let v = chars_of(raw);
        let fields = split_on(&v, ':');
        if fields.len() != 4 {
            return Err(());
        }
        let ghost f = fields.deep_view();
        assert(f[0] == fields@[0]@ && f[1] == fields@[1]@);
        assert(f[2] == fields@[2]@ && f[3] == fields@[3]@);
        let (f0, f1, f2, f3) = (&fields[0], &fields[1], &fields[2], &fields[3]);
        assert(f0@.subrange(0, f0@.len() as int) =~= f0@);
        assert(f1@.subrange(0, f1@.len() as int) =~= f1@);
        assert(f2@.subrange(0, f2@.len() as int) =~= f2@);
        assert(f3@.subrange(0, f3@.len() as int) =~= f3@);
        match (
            parse_i32(f0, 0, f0.len()),
            parse_u8(f1, 0, f1.len()),
            parse_u8(f2, 0, f2.len()),
            parse_u8(f3, 0, f3.len()),
        ) {
            (Some(d), Some(h), Some(m), Some(s)) => Time::try_new(d, h, m, s),
            _ => Err(()),
        }
    }
}

impl Default for Time {
    fn default() -> (r: Self)
        ensures
            r.parts() == (0int, 0int, 0int, 0int),
    {
        Self { days: 0, hours: 0, minutes: 0, seconds: 0 }
    }
}

impl std::str::FromStr for Time {
    type Err = ();

    fn from_str(raw: &str) -> (r: Result<Self, ()>)
        ensures
            match parse_spec(raw@) {
                Some(p) => r matches Ok(t) && t.parts() == p,
                None => r is Err,
            },
    {
        Time::parse(raw)
    }
}

impl std::str::FromStr for Interval {
    type Err = ();

    fn from_str(raw: &str) -> (r: Result<Self, ()>)
        ensures
            match interval::parse_interval_spec(raw@) {
                Some(i) => r == Ok::<Interval, ()>(i),
                None => r is Err,
            },
    {
        Interval::parse(raw)
    }
}

/// Euclidean division by a positive divisor, as `i64::div_euclid` and `i64::rem_euclid` compute.
fn div_mod_euclid(x: i64, m: i64) -> (r: (i64, i64))
    requires
        0 < m <= 86400,
        -0x1_0000_0000_0000 <= x <= 0x1_0000_0000_0000,
    ensures
        r.0 == x / m,
        r.1 == x % m,
        0 <= r.1 < m,
{
    if x >= 0 {
        let q = ((x as u64) / (m as u64)) as i64;
        let r = ((x as u64) % (m as u64)) as i64;
        proof {
            assert(x == q * m + r) by (nonlinear_arith)
                requires
                    q == (x as u64) / (m as u64),
                    r == (x as u64) % (m as u64),
                    x >= 0,
                    m > 0,
            ;
            lemma_fundamental_div_mod_converse(x as int, m as int, q as int, r as int);
        }
        (q, r)
    } else {
        let a: u64 = (-(x + 1)) as u64;
        let qa = a / (m as u64);
        let ra = a % (m as u64);
        let q: i64 = -(qa as i64) - 1;
        let r: i64 = m - (ra as i64) - 1;
        proof {
            assert(a == qa * m + ra) by (nonlinear_arith)
                requires
                    qa == a / (m as u64),
                    ra == a % (m as u64),
                    m > 0,
            ;
            assert(x == q * m + r) by (nonlinear_arith)
                requires
                    a == qa * m + ra,
                    a == -(x + 1),
                    q == -qa - 1,
                    r == m - ra - 1,
            ;
            lemma_fundamental_div_mod_converse(x as int, m as int, q as int, r as int);
        }
        (q, r)
    }
}

/// A time of day within its ranges is the normal form of its number of seconds.
proof fn lemma_normal_form(total: int, d: int, h: int, m: int, s: int)
    requires
        total == d * 86400 + h * 3600 + m * 60 + s,
        0 <= h < 24,
        0 <= m < 60,
        0 <= s < 60,
    ensures
        parts_of_seconds(total) == (d, h, m, s),
{
    let r1 = h * 3600 + m * 60 + s;
    assert(0 <= r1 < 86400) by (nonlinear_arith)
        requires
            r1 == h * 3600 + m * 60 + s,
            0 <= h < 24,
            0 <= m < 60,
            0 <= s < 60,
    ;
    lemma_fundamental_div_mod_converse(total, 86400, d, r1);
    let r2 = m * 60 + s;
    lemma_fundamental_div_mod_converse(r1, 3600, h, r2);
    lemma_fundamental_div_mod_converse(total, 3600, d * 24 + h, r2);
    lemma_fundamental_div_mod_converse(r2, 60, m, s);
    lemma_fundamental_div_mod_converse(total, 60, d * 1440 + h * 60 + m, s);
}

/// Renders a number below 100 with at least two digits.
fn pad2_exec(n: u8) -> (r: Vec<char>)
    requires
        n < 100,
    ensures
        r@ == pad2(n as int),
{
    if n < 10 {
        let mut r: Vec<char> = Vec::new();
        r.push('0');
        let d = fmt_u64(n as u64);
        push_all(&mut r, &d);
        assert(r@ =~= pad2(n as int));
        r
    } else {
        fmt_u64(n as u64)
    }
}

impl<'a> TimeShortView<'a> {
    /// The time this view renders.
    pub closed spec fn time(&self) -> Time {
        *self.0
    }

    /// The short rendering, such as `1:02:03:04`.
    pub fn to_string(&self) -> (r: String)
        ensures
            r@ == short_text(self.time().parts()),
    {
        let t = self.0;
        proof {
            use_type_invariant(t);
        }
        let mut out = fmt_i64(t.days as i64);
        out.push(':');
        push_all(&mut out, &pad2_exec(t.hours));
        out.push(':');
        push_all(&mut out, &pad2_exec(t.minutes));
        out.push(':');
        push_all(&mut out, &pad2_exec(t.seconds));
        assert(out@ =~= short_text(t.parts()));
        string_of(&out)
    }
}

impl<'a> TimeLongView<'a> {
    /// The time this view renders.
    pub closed spec fn time(&self) -> Time {
        *self.0
    }

    /// The long rendering, such as `day 1 at 2:03:04 am`.
    pub fn to_string(&self) -> (r: String)
        ensures
            r@ == long_text(self.time().parts()),
    {
        let t = self.0;
        proof {
            use_type_invariant(t);
        }
        let hours: u8 = if t.hours == 0 {
            12
        } else if t.hours <= 12 {
            t.hours
        } else {
            t.hours % 12
        };
        let mut out = chars_of("day ");
        proof {
            reveal_strlit("day ");
            reveal_strlit(" at ");
        }
        push_all(&mut out, &fmt_i64(t.days as i64));
        push_all(&mut out, &chars_of(" at "));
        push_all(&mut out, &fmt_u64(hours as u64));
        out.push(':');
        push_all(&mut out, &pad2_exec(t.minutes));
        out.push(':');
        push_all(&mut out, &pad2_exec(t.seconds));
        let suffix = if t.hours < 12 {
            proof {
                reveal_strlit(" am");
            }
            chars_of(" am")
        } else {
            proof {
                reveal_strlit(" pm");
            }
            chars_of(" pm")
        };
        push_all(&mut out, &suffix);
        assert(out@ =~= long_text(t.parts()));
        string_of(&out)
    }
}

// ---------------------------------------------------------------------------------------------
// Laws
// ---------------------------------------------------------------------------------------------

/// A time in its ranges is the normal form of its own number of seconds.
pub proof fn lemma_parts_of_own_seconds(t: TimeParts)
    requires
        valid_parts(t),
    ensures
        parts_of_seconds(seconds_of(t)) == t,
{
    lemma_normal_form(seconds_of(t), t.0, t.1, t.2, t.3);
}

/// The normal form of a number of seconds lies in its ranges and counts the same seconds.
pub proof fn lemma_parts_of_seconds(total: int)
    ensures
        seconds_of(parts_of_seconds(total)) == total,
        0 <= parts_of_seconds(total).1 < 24,
        0 <= parts_of_seconds(total).2 < 60,
        0 <= parts_of_seconds(total).3 < 60,
{
    let p = parts_of_seconds(total);
    assert(total == 86400 * (total / 86400) + total % 86400) by (nonlinear_arith);
    assert(0 <= total % 86400 < 86400) by (nonlinear_arith);
    let r1 = total % 86400;
    assert(r1 == 3600 * (r1 / 3600) + r1 % 3600) by (nonlinear_arith);
    assert(0 <= r1 / 3600 < 24) by (nonlinear_arith)
        requires
            0 <= r1 < 86400,
    ;
    let r2 = r1 % 3600;
    assert(0 <= r2 < 3600) by (nonlinear_arith)
        requires
            r2 == r1 % 3600,
    ;
    assert(r2 == 60 * (r2 / 60) + r2 % 60) by (nonlinear_arith);
    assert(0 <= r2 / 60 < 60) by (nonlinear_arith)
        requires
            0 <= r2 < 3600,
    ;
    assert(0 <= r2 % 60 < 60) by (nonlinear_arith);
    assert(r2 == total % 3600) by {
        lemma_fundamental_div_mod_converse(
            total,
            3600,
            (total / 86400) * 24 + r1 / 3600,
            r2,
        );
    }
    assert(r2 % 60 == total % 60) by {
        lemma_fundamental_div_mod_converse(
            total,
            60,
            (total / 86400) * 1440 + (r1 / 3600) * 60 + r2 / 60,
            r2 % 60,
        );
    }
}

/// Advancing a time by an interval and then rewinding it by the same interval gives back the
/// time it started from (whenever the interval's fields can be negated and the advance
/// succeeded).
pub proof fn lemma_add_then_sub(t: TimeParts, i: Interval)
    requires
        valid_parts(t),
        negatable(i),
        add_spec(t, i) is Some,
    ensures
        sub_spec(add_spec(t, i)->0, i) == Some(t),
{
    let t2 = add_spec(t, i)->0;
    lemma_parts_of_seconds(seconds_of(t) + i.total_seconds());
    assert(negate(i).total_seconds() == -i.total_seconds());
    lemma_parts_of_own_seconds(t);
}

/// Rewinding a time by an interval and then advancing it by the same interval gives back the
/// time it started from (whenever the rewind succeeded).
pub proof fn lemma_sub_then_add(t: TimeParts, i: Interval)
    requires
        valid_parts(t),
        sub_spec(t, i) is Some,
    ensures
        add_spec(sub_spec(t, i)->0, i) == Some(t),
{
    lemma_parts_of_seconds(seconds_of(t) - i.total_seconds());
    assert(negate(i).total_seconds() == -i.total_seconds());
    lemma_parts_of_own_seconds(t);
}

/// Advancing by an interval moves a time forward by exactly the interval's length in seconds,
/// and the result is a valid time.
pub proof fn lemma_add_moves_by_length(t: TimeParts, i: Interval)
    requires
        add_spec(t, i) is Some,
    ensures
        seconds_of(add_spec(t, i)->0) == seconds_of(t) + i.total_seconds(),
        valid_parts(add_spec(t, i)->0),
{
    lemma_parts_of_seconds(seconds_of(t) + i.total_seconds());
}

/// A two-digit rendering is a valid `u8` literal for its number.
proof fn lemma_pad2_parse(n: int)
    requires
        0 <= n < 100,
    ensures
        parse_u8_spec(pad2(n)) == Some(n as u8),
        lacks(pad2(n), ':'),
{
    if n < 10 {
        lemma_digit_char(0);
        lemma_digit_char(n);
        let s = pad2(n);
        assert(s.drop_last() =~= seq!['0']);
        lemma_digits_value_push(Seq::<char>::empty(), '0');
        assert(Seq::<char>::empty().push('0') =~= seq!['0']);
        lemma_digits_value_push(seq!['0'], digit_char(n));
        assert(seq!['0'].push(digit_char(n)) =~= s);
        assert(all_digits(s));
    } else {
        lemma_nat_digits(n as nat);
    }
}

/// Reading back the short rendering of a valid time gives that time: the format in which the
/// current time is kept in the key-value store round-trips.
pub proof fn lemma_short_text_parses(t: TimeParts)
    requires
        valid_parts(t),
    ensures
        parse_spec(short_text(t)) == Some(t),
{
    let d = int_digits(t.0);
    let h = pad2(t.1);
    let m = pad2(t.2);
    let sec = pad2(t.3);
    lemma_int_digits_parse(t.0, ':');
    lemma_pad2_parse(t.1);
    lemma_pad2_parse(t.2);
    lemma_pad2_parse(t.3);
    lemma_split_plain(d, ':');
    lemma_split_join(d, h, ':');
    let p1 = d.push(':') + h;
    lemma_split_join(p1, m, ':');
    let p2 = p1.push(':') + m;
    lemma_split_join(p2, sec, ':');
    let p3 = p2.push(':') + sec;
    assert(p3 =~= short_text(t));
    let f = split_spec(short_text(t), ':');
    assert(f =~= seq![d, h, m, sec]);
}

} // verus!
