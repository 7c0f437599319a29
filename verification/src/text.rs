//! Character classes, case-insensitive comparison and decimal numbers over character sequences.
//!
//! Text is handled as a sequence of `char`s (the view of `str` and `String`). Byte lengths, where a
//! function measures text in UTF-8 bytes as `str::len` does, are computed by `utf8_len`.

use vstd::prelude::*;

verus! {

// ---------------------------------------------------------------------------------------------
// Character classes
// ---------------------------------------------------------------------------------------------

/// The Unicode `White_Space` property, which `char::is_whitespace` reports.
pub open spec fn is_whitespace_spec(c: char) -> bool {
    ||| ('\u{9}' <= c && c <= '\u{d}')
    ||| c == ' '
    ||| c == '\u{85}'
    ||| c == '\u{a0}'
    ||| c == '\u{1680}'
    ||| ('\u{2000}' <= c && c <= '\u{200a}')
    ||| c == '\u{2028}'
    ||| c == '\u{2029}'
    ||| c == '\u{202f}'
    ||| c == '\u{205f}'
    ||| c == '\u{3000}'
}

/// Whether `c` is whitespace in the sense of `char::is_whitespace`.
pub fn is_whitespace(c: char) -> (r: bool)
    ensures
        r == is_whitespace_spec(c),
{
    ('\u{9}' <= c && c <= '\u{d}') || c == ' ' || c == '\u{85}' || c == '\u{a0}' || c
        == '\u{1680}' || ('\u{2000}' <= c && c <= '\u{200a}') || c == '\u{2028}' || c
        == '\u{2029}' || c == '\u{202f}' || c == '\u{205f}' || c == '\u{3000}'
}

/// An ASCII decimal digit.
pub open spec fn is_digit_spec(c: char) -> bool {
    '0' <= c && c <= '9'
}

/// Whether `c` is an ASCII decimal digit.
pub fn is_digit(c: char) -> (r: bool)
    ensures
        r == is_digit_spec(c),
{
    '0' <= c && c <= '9'
}

/// An ASCII upper-case letter.
pub open spec fn is_ascii_upper_spec(c: char) -> bool {
    'A' <= c && c <= 'Z'
}

/// The code point of `c` with ASCII upper-case letters folded to lower case.
pub open spec fn fold_case(c: char) -> int {
    if is_ascii_upper_spec(c) {
        c as int + 32
    } else {
        c as int
    }
}

/// Two characters that are equal up to ASCII case.
pub open spec fn char_eq_ci_spec(a: char, b: char) -> bool {
    fold_case(a) == fold_case(b)
}

/// Compares two characters, ignoring ASCII case.
pub fn char_eq_ci(a: char, b: char) -> (r: bool)
    ensures
        r == char_eq_ci_spec(a, b),
{
    let ca = a as u32;
    let cb = b as u32;
    let fa: u32 = if 'A' <= a && a <= 'Z' {
        ca + 32
    } else {
        ca
    };
    let fb: u32 = if 'A' <= b && b <= 'Z' {
        cb + 32
    } else {
        cb
    };
    fa == fb
}

// ---------------------------------------------------------------------------------------------
// Case-insensitive comparison of character sequences
// ---------------------------------------------------------------------------------------------

/// `a` and `b` are equal up to ASCII case.
pub open spec fn eq_ci_spec(a: Seq<char>, b: Seq<char>) -> bool {
    &&& a.len() == b.len()
    &&& forall|i: int| 0 <= i < a.len() ==> char_eq_ci_spec(#[trigger] a[i], b[i])
}

/// `s` begins with `prefix`, up to ASCII case.
pub open spec fn starts_with_ci_spec(s: Seq<char>, prefix: Seq<char>) -> bool {
    &&& prefix.len() <= s.len()
    &&& eq_ci_spec(s.take(prefix.len() as int), prefix)
}

/// `s` begins with `prefix`, exactly.
pub open spec fn starts_with_spec(s: Seq<char>, prefix: Seq<char>) -> bool {
    &&& prefix.len() <= s.len()
    &&& s.take(prefix.len() as int) == prefix
}

/// Whether `a` and `b` are equal up to ASCII case.
pub fn eq_ci(a: &Vec<char>, b: &Vec<char>) -> (r: bool)
    ensures
        r == eq_ci_spec(a@, b@),
{
    if a.len() != b.len() {
        return false;
    }
    let mut i: usize = 0;
    while i < a.len()
        invariant
            a.len() == b.len(),
            i <= a.len(),
            forall|j: int| 0 <= j < i ==> char_eq_ci_spec(#[trigger] a@[j], b@[j]),
        decreases a.len() - i,
    {
        if !char_eq_ci(a[i], b[i]) {
            return false;
        }
        i = i + 1;
    }
    true
}

/// Whether `s` begins with `prefix`, ignoring ASCII case.
pub fn starts_with_ci(s: &Vec<char>, prefix: &Vec<char>) -> (r: bool)
    ensures
        r == starts_with_ci_spec(s@, prefix@),
{
    if prefix.len() > s.len() {
        return false;
    }
    let mut i: usize = 0;
    while i < prefix.len()
        invariant
            prefix.len() <= s.len(),
            i <= prefix.len(),
            forall|j: int| 0 <= j < i ==> char_eq_ci_spec(#[trigger] s@[j], prefix@[j]),
        decreases prefix.len() - i,
    {
        if !char_eq_ci(s[i], prefix[i]) {
            assert(!char_eq_ci_spec(s@.take(prefix.len() as int)[i as int], prefix@[i as int]));
            return false;
        }
        i = i + 1;
    }
    assert(eq_ci_spec(s@.take(prefix.len() as int), prefix@)) by {
        assert forall|j: int| 0 <= j < prefix.len() implies char_eq_ci_spec(
            #[trigger] s@.take(prefix.len() as int)[j],
            prefix@[j],
        ) by {
            assert(s@.take(prefix.len() as int)[j] == s@[j]);
        }
    }
    true
}

/// Whether `s` begins with `prefix`, exactly.
pub fn starts_with(s: &Vec<char>, prefix: &Vec<char>) -> (r: bool)
    ensures
        r == starts_with_spec(s@, prefix@),
{
    if prefix.len() > s.len() {
        return false;
    }
    let mut i: usize = 0;
    while i < prefix.len()
        invariant
            prefix.len() <= s.len(),
            i <= prefix.len(),
            forall|j: int| 0 <= j < i ==> s@[j] == prefix@[j],
        decreases prefix.len() - i,
    {
        if s[i] != prefix[i] {
            assert(s@.take(prefix.len() as int)[i as int] != prefix@[i as int]);
            return false;
        }
        i = i + 1;
    }
    assert(s@.take(prefix.len() as int) =~= prefix@);
    true
}

// ---------------------------------------------------------------------------------------------
// Conversions between `str`/`String` and character vectors
// ---------------------------------------------------------------------------------------------

/// The characters of `s` in order.
pub fn chars_of(s: &str) -> (r: Vec<char>)
    ensures
        r@ == s@,
{
    broadcast use vstd::string::axiom_spec_iter;
    let mut r: Vec<char> = Vec::new();
    for c in it: s.chars()
        invariant
            it.seq() == s@,
            r@ == s@.take(it.index() as int),
    {
        r.push(c);
        assert(r@ =~= s@.take(it.index() + 1));
    }
    assert(r@ =~= s@);
    r
}

/// `String::from_iter` over characters: the string made of the characters of `v` in order.
#[verifier::external_body]
pub(crate) fn string_of(v: &Vec<char>) -> (r: String)
    ensures
        r@ == v@,
{
    String::from_iter(v.iter())
}

/// Copies the characters `v[lo..hi]` into a new vector.
pub fn sub_chars(v: &Vec<char>, lo: usize, hi: usize) -> (r: Vec<char>)
    requires
        lo <= hi <= v.len(),
    ensures
        r@ == v@.subrange(lo as int, hi as int),
{
    let mut r: Vec<char> = Vec::new();
    let mut i = lo;
    while i < hi
        invariant
            lo <= i <= hi <= v.len(),
            r@ == v@.subrange(lo as int, i as int),
        decreases hi - i,
    {
        r.push(v[i]);
        i = i + 1;
        assert(r@ =~= v@.subrange(lo as int, i as int));
    }
    r
}

/// Appends the characters of `src` to `dst`.
pub fn push_all(dst: &mut Vec<char>, src: &Vec<char>)
    ensures
        final(dst)@ == old(dst)@ + src@,
{
    let mut i: usize = 0;
    while i < src.len()
        invariant
            i <= src.len(),
            dst@ == old(dst)@ + src@.take(i as int),
        decreases src.len() - i,
    {
        dst.push(src[i]);
        i = i + 1;
        assert(dst@ =~= old(dst)@ + src@.take(i as int));
    }
    assert(src@.take(src.len() as int) =~= src@);
}

// ---------------------------------------------------------------------------------------------
// Decimal numbers
// ---------------------------------------------------------------------------------------------

/// The value of an ASCII digit.
pub open spec fn digit_value(c: char) -> int {
    c as int - '0' as int
}

/// The ASCII digit for `d` in `0..10`.
pub open spec fn digit_char(d: int) -> char {
    if d == 0 {
        '0'
    } else if d == 1 {
        '1'
    } else if d == 2 {
        '2'
    } else if d == 3 {
        '3'
    } else if d == 4 {
        '4'
    } else if d == 5 {
        '5'
    } else if d == 6 {
        '6'
    } else if d == 7 {
        '7'
    } else if d == 8 {
        '8'
    } else {
        '9'
    }
}

/// All characters of `s` are ASCII digits.
pub open spec fn all_digits(s: Seq<char>) -> bool {
    forall|i: int| 0 <= i < s.len() ==> is_digit_spec(#[trigger] s[i])
}

/// The value of a sequence of ASCII digits, read in base ten (0 for the empty sequence).
pub open spec fn digits_value(s: Seq<char>) -> int
    decreases s.len(),
{
    if s.len() == 0 {
        0
    } else {
        digits_value(s.drop_last()) * 10 + digit_value(s.last())
    }
}

/// The value of an integer literal as the standard library's `FromStr` for integers reads it:
/// an optional `+` or `-` followed by one or more ASCII digits. `None` for any other text.
pub open spec fn int_literal(s: Seq<char>) -> Option<int> {
    if s.len() > 0 && (s[0] == '+' || s[0] == '-') {
        let d = s.drop_first();
        if d.len() > 0 && all_digits(d) {
            Some(
                if s[0] == '-' {
                    -digits_value(d)
                } else {
                    digits_value(d)
                },
            )
        } else {
            None
        }
    } else if s.len() > 0 && all_digits(s) {
        Some(digits_value(s))
    } else {
        None
    }
}

/// `str::parse::<i32>`: the literal's value when it is a literal and fits in `i32`.
pub open spec fn parse_i32_spec(s: Seq<char>) -> Option<i32> {
    match int_literal(s) {
        Some(v) => if i32::MIN <= v && v <= i32::MAX {
            Some(v as i32)
        } else {
            None
        },
        None => None,
    }
}

/// `str::parse::<u8>`: as for `i32`, except that a leading `-` is refused.
pub open spec fn parse_u8_spec(s: Seq<char>) -> Option<u8> {
    if s.len() > 0 && s[0] == '-' {
        None
    } else {
        match int_literal(s) {
            Some(v) => if 0 <= v && v <= u8::MAX {
                Some(v as u8)
            } else {
                None
            },
            None => None,
        }
    }
}

/// The decimal digits of `n`, without leading zeros ("0" for zero).
pub open spec fn nat_digits(n: nat) -> Seq<char>
    decreases n,
{
    if n < 10 {
        seq![digit_char(n as int)]
    } else {
        nat_digits(n / 10).push(digit_char((n % 10) as int))
    }
}

/// The decimal rendering of `n` as `Display` writes it: a `-` for negative numbers, then digits.
pub open spec fn int_digits(n: int) -> Seq<char> {
    if n < 0 {
        seq!['-'] + nat_digits((-n) as nat)
    } else {
        nat_digits(n as nat)
    }
}

/// Appending a digit multiplies the value by ten and adds the digit.
pub proof fn lemma_digits_value_push(s: Seq<char>, c: char)
    ensures
        digits_value(s.push(c)) == digits_value(s) * 10 + digit_value(c),
{
    assert(s.push(c).drop_last() =~= s);
}

/// The digit characters have the digit values.
pub proof fn lemma_digit_char(d: int)
    requires
        0 <= d < 10,
    ensures
        digit_value(digit_char(d)) == d,
        is_digit_spec(digit_char(d)),
{
    assert('0' as int == 48);
    assert('9' as int == 57);
}

/// The rendered digits of `n` are digits, and they read back as `n`.
pub proof fn lemma_nat_digits(n: nat)
    ensures
        nat_digits(n).len() >= 1,
        all_digits(nat_digits(n)),
        digits_value(nat_digits(n)) == n,
        n < 10 ==> nat_digits(n).len() == 1,
        n >= 10 ==> nat_digits(n).len() >= 2,
        nat_digits(n)[0] != '-' && nat_digits(n)[0] != '+',
    decreases n,
{
    if n < 10 {
        lemma_digit_char(n as int);
        lemma_digits_value_push(Seq::<char>::empty(), digit_char(n as int));
        assert(Seq::<char>::empty().push(digit_char(n as int)) =~= seq![digit_char(n as int)]);
    } else {
        lemma_digit_char((n % 10) as int);
        lemma_nat_digits(n / 10);
        lemma_digits_value_push(nat_digits(n / 10), digit_char((n % 10) as int));
    }
}

/// A longer run of digits never reads as a smaller value.
pub proof fn lemma_digits_value_prefix_le(s: Seq<char>, k: int)
    requires
        0 <= k <= s.len(),
        all_digits(s),
    ensures
        0 <= digits_value(s.take(k)) <= digits_value(s),
    decreases s.len(),
{
    if s.len() > 0 {
        if k == s.len() {
            assert(s.take(k) =~= s);
            lemma_digits_value_prefix_le(s.drop_last(), s.len() - 1);
            assert(s.drop_last().take(s.len() - 1) =~= s.drop_last());
        } else {
            lemma_digits_value_prefix_le(s.drop_last(), k);
            assert(s.drop_last().take(k) =~= s.take(k));
            lemma_digits_value_prefix_le(s.drop_last(), s.len() - 1);
            assert(s.drop_last().take(s.len() - 1) =~= s.drop_last());
        }
    } else {
        assert(s.take(k) =~= s);
    }
}

/// The digits of `n`, as characters.
pub fn fmt_u64(n: u64) -> (r: Vec<char>)
    ensures
        r@ == nat_digits(n as nat),
    decreases n,
{
    let d = (n % 10) as u32;
    let c = char_of_digit(d);
    if n < 10 {
        let mut r: Vec<char> = Vec::new();
        r.push(c);
        assert(r@ =~= nat_digits(n as nat));
        r
    } else {
        let mut r = fmt_u64(n / 10);
        r.push(c);
        r
    }
}

/// The decimal rendering of `n`, as `Display` for integers writes it.
pub fn fmt_i64(n: i64) -> (r: Vec<char>)
    ensures
        r@ == int_digits(n as int),
{
    if n < 0 {
        let m: u64 = if n == i64::MIN {
            9223372036854775808u64
        } else {
            (-n) as u64
        };
        let d = fmt_u64(m);
        let mut r: Vec<char> = Vec::new();
        r.push('-');
        push_all(&mut r, &d);
        assert(r@ =~= int_digits(n as int));
        r
    } else {
        fmt_u64(n as u64)
    }
}

/// The ASCII digit for `d`.
pub fn char_of_digit(d: u32) -> (c: char)
    requires
        d < 10,
    ensures
        c == digit_char(d as int),
        is_digit_spec(c),
        digit_value(c) == d,
{
    match d {
        0 => '0',
        1 => '1',
        2 => '2',
        3 => '3',
        4 => '4',
        5 => '5',
        6 => '6',
        7 => '7',
        8 => '8',
        _ => '9',
    }
}

/// Reads the digits `s[lo..hi]` as a number, giving up once the value passes `bound`.
/// Returns `Some(v)` exactly when the value `v` of the digits is at most `bound`.
pub fn parse_digits_bounded(s: &Vec<char>, lo: usize, hi: usize, bound: u64) -> (r: Option<u64>)
    requires
        lo <= hi <= s.len(),
        all_digits(s@.subrange(lo as int, hi as int)),
        bound <= u64::MAX / 10 - 10,
    ensures
        digits_value(s@.subrange(lo as int, hi as int)) >= 0,
        r is Some <==> digits_value(s@.subrange(lo as int, hi as int)) <= bound,
        r matches Some(v) ==> v == digits_value(s@.subrange(lo as int, hi as int)),
{
    let ghost full = s@.subrange(lo as int, hi as int);
    proof {
        lemma_digits_value_prefix_le(full, full.len() as int);
        assert(full.take(full.len() as int) =~= full);
    }
    let mut v: u64 = 0;
    let mut i = lo;
    proof {
        assert(s@.subrange(lo as int, lo as int) =~= Seq::<char>::empty());
    }
    while i < hi
        invariant
            lo <= i <= hi <= s.len(),
            digits_value(full) >= 0,
            full == s@.subrange(lo as int, hi as int),
            all_digits(full),
            bound <= u64::MAX / 10 - 10,
            v <= bound,
            v == digits_value(s@.subrange(lo as int, i as int)),
        decreases hi - i,
    {
        let c = s[i];
        assert(full[i - lo] == c);
        let d = (c as u32) - ('0' as u32);
        let ghost prev = s@.subrange(lo as int, i as int);
        proof {
            assert(s@.subrange(lo as int, i + 1) =~= prev.push(c));
            lemma_digits_value_push(prev, c);
        }
        v = v * 10 + d as u64;
        i = i + 1;
        if v > bound {
            proof {
                assert(full.take(i - lo) =~= s@.subrange(lo as int, i as int));
                lemma_digits_value_prefix_le(full, i - lo);
            }
            return None;
        }
    }
    Some(v)
}

/// `str::parse::<i32>` on the characters `s[lo..hi]`.
pub fn parse_i32(s: &Vec<char>, lo: usize, hi: usize) -> (r: Option<i32>)
    requires
        lo <= hi <= s.len(),
    ensures
        r == parse_i32_spec(s@.subrange(lo as int, hi as int)),
{
    let ghost t = s@.subrange(lo as int, hi as int);
    if lo == hi {
        return None;
    }
    let c0 = s[lo];
    let neg = c0 == '-';
    let start = if c0 == '+' || c0 == '-' {
        lo + 1
    } else {
        lo
    };
    if start == hi {
        return None;
    }
    let ghost d = s@.subrange(start as int, hi as int);
    proof {
        if c0 == '+' || c0 == '-' {
            assert(t.drop_first() =~= d);
        } else {
            assert(t =~= d);
        }
    }
    let mut j = start;
    while j < hi
        invariant
            lo <= start <= j <= hi <= s.len(),
            d == s@.subrange(start as int, hi as int),
            t == s@.subrange(lo as int, hi as int),
            t.len() > 0,
            (t[0] == '+' || t[0] == '-') ==> t.drop_first() == d,
            !(t[0] == '+' || t[0] == '-') ==> t == d,
            forall|k: int| start <= k < j ==> is_digit_spec(#[trigger] s@[k]),
        decreases hi - j,
    {
        if !is_digit(s[j]) {
            assert(!is_digit_spec(d[j - start]));
            return None;
        }
        j = j + 1;
    }
    assert(all_digits(d)) by {
        assert forall|k: int| 0 <= k < d.len() implies is_digit_spec(#[trigger] d[k]) by {
            assert(d[k] == s@[start + k]);
        }
    }
    match parse_digits_bounded(s, start, hi, 2147483648u64) {
        Some(v) => {
            assert(v <= 2147483648u64);
            if neg {
                let x: i64 = -(v as i64);
                Some(x as i32)
            } else if v <= 2147483647 {
                Some(v as i32)
            } else {
                None
            }
        },
        None => None,
    }
}

/// `str::parse::<u8>` on the characters `s[lo..hi]`.
pub fn parse_u8(s: &Vec<char>, lo: usize, hi: usize) -> (r: Option<u8>)
    requires
        lo <= hi <= s.len(),
    ensures
        r == parse_u8_spec(s@.subrange(lo as int, hi as int)),
{
    let ghost t = s@.subrange(lo as int, hi as int);
    if lo == hi {
        return None;
    }
    let c0 = s[lo];
    if c0 == '-' {
        return None;
    }
    let start = if c0 == '+' {
        lo + 1
    } else {
        lo
    };
    if start == hi {
        return None;
    }
    let ghost d = s@.subrange(start as int, hi as int);
    proof {
        if c0 == '+' {
            assert(t.drop_first() =~= d);
        } else {
            assert(t =~= d);
        }
    }
    let mut j = start;
    while j < hi
        invariant
            lo <= start <= j <= hi <= s.len(),
            d == s@.subrange(start as int, hi as int),
            t == s@.subrange(lo as int, hi as int),
            t.len() > 0,
            (t[0] == '+' || t[0] == '-') ==> t.drop_first() == d,
            !(t[0] == '+' || t[0] == '-') ==> t == d,
            forall|k: int| start <= k < j ==> is_digit_spec(#[trigger] s@[k]),
        decreases hi - j,
    {
        if !is_digit(s[j]) {
            assert(!is_digit_spec(d[j - start]));
            return None;
        }
        j = j + 1;
    }
    assert(all_digits(d)) by {
        assert forall|k: int| 0 <= k < d.len() implies is_digit_spec(#[trigger] d[k]) by {
            assert(d[k] == s@[start + k]);
        }
    }
    match parse_digits_bounded(s, start, hi, 255u64) {
        Some(v) => Some(v as u8),
        None => None,
    }
}

/// The rendering of a number is a valid `i32` literal for that number.
pub proof fn lemma_int_digits_parse(d: int, sep: char)
    requires
        i32::MIN <= d <= i32::MAX,
        !is_digit_spec(sep) && sep != '-',
    ensures
        parse_i32_spec(int_digits(d)) == Some(d as i32),
        lacks(int_digits(d), sep),
{
    if d < 0 {
        let n = (-d) as nat;
        lemma_nat_digits(n);
        let s = int_digits(d);
        assert(s.drop_first() =~= nat_digits(n));
        assert forall|k: int| 0 <= k < s.len() implies #[trigger] s[k] != sep by {
            if k > 0 {
                assert(s[k] == nat_digits(n)[k - 1]);
            }
        }
    } else {
        lemma_nat_digits(d as nat);
    }
}


// ---------------------------------------------------------------------------------------------
// Splitting on a separator
// ---------------------------------------------------------------------------------------------

/// The pieces of `s` between occurrences of `sep`, as `str::split` yields them: always at least
/// one piece, and one more piece than there are separators.
pub open spec fn split_spec(s: Seq<char>, sep: char) -> Seq<Seq<char>>
    decreases s.len(),
{
    if s.len() == 0 {
        seq![Seq::<char>::empty()]
    } else {
        let r = split_spec(s.drop_last(), sep);
        if s.last() == sep {
            r.push(Seq::<char>::empty())
        } else {
            r.update(r.len() - 1, r.last().push(s.last()))
        }
    }
}

/// `sep` does not occur in `s`.
pub open spec fn lacks(s: Seq<char>, sep: char) -> bool {
    forall|i: int| 0 <= i < s.len() ==> #[trigger] s[i] != sep
}

/// Splitting always yields at least one piece.
pub proof fn lemma_split_nonempty(s: Seq<char>, sep: char)
    ensures
        split_spec(s, sep).len() >= 1,
    decreases s.len(),
{
    if s.len() > 0 {
        lemma_split_nonempty(s.drop_last(), sep);
    }
}

/// Appending text without the separator extends the last piece.
pub proof fn lemma_split_append_plain(p: Seq<char>, x: Seq<char>, sep: char)
    requires
        lacks(x, sep),
    ensures
        split_spec(p + x, sep) == split_spec(p, sep).update(
            split_spec(p, sep).len() - 1,
            split_spec(p, sep).last() + x,
        ),
    decreases x.len(),
{
    lemma_split_nonempty(p, sep);
    if x.len() == 0 {
        assert(p + x =~= p);
        assert(split_spec(p, sep).last() + x =~= split_spec(p, sep).last());
        assert(split_spec(p, sep).update(split_spec(p, sep).len() - 1, split_spec(p, sep).last())
            =~= split_spec(p, sep));
    } else {
        let y = x.drop_last();
        let c = x.last();
        assert(lacks(y, sep));
        lemma_split_append_plain(p, y, sep);
        assert((p + x).drop_last() =~= p + y);
        assert((p + x).last() == c);
        lemma_split_nonempty(p + y, sep);
        assert((split_spec(p, sep).last() + y).push(c) =~= split_spec(p, sep).last() + x);
        assert(split_spec(p + x, sep) =~= split_spec(p, sep).update(
            split_spec(p, sep).len() - 1,
            split_spec(p, sep).last() + x,
        ));
    }
}

/// Appending the separator starts a new, empty piece.
pub proof fn lemma_split_append_sep(p: Seq<char>, sep: char)
    ensures
        split_spec(p.push(sep), sep) == split_spec(p, sep).push(Seq::<char>::empty()),
{
    assert(p.push(sep).drop_last() =~= p);
}

/// Text without the separator is a single piece.
pub proof fn lemma_split_plain(x: Seq<char>, sep: char)
    requires
        lacks(x, sep),
    ensures
        split_spec(x, sep) == seq![x],
{
    lemma_split_append_plain(Seq::<char>::empty(), x, sep);
    assert(Seq::<char>::empty() + x =~= x);
    assert(Seq::<char>::empty() + x =~= x);
    assert(seq![Seq::<char>::empty()].update(0, Seq::<char>::empty() + x) =~= seq![x]);
}

/// Joining pieces with the separator, where no piece holds it, splits back into the pieces.
pub proof fn lemma_split_join(p: Seq<char>, x: Seq<char>, sep: char)
    requires
        lacks(x, sep),
    ensures
        split_spec(p.push(sep) + x, sep) == split_spec(p, sep).push(x),
{
    lemma_split_append_plain(p.push(sep), x, sep);
    lemma_split_append_sep(p, sep);
    let r = split_spec(p, sep).push(Seq::<char>::empty());
    assert(Seq::<char>::empty() + x =~= x);
    assert(r.update(r.len() - 1, r.last() + x) =~= split_spec(p, sep).push(x));
}

/// Splits `v` at each occurrence of `sep`, as `str::split` does.
pub fn split_on(v: &Vec<char>, sep: char) -> (r: Vec<Vec<char>>)
    ensures
        r.deep_view() == split_spec(v@, sep),
{
    let mut parts: Vec<Vec<char>> = Vec::new();
    let mut cur: Vec<char> = Vec::new();
    let mut i: usize = 0;
    assert(v@.take(0) =~= Seq::<char>::empty());
    assert(parts.deep_view().push(cur@) =~= split_spec(v@.take(0), sep));
    while i < v.len()
        invariant
            i <= v.len(),
            parts.deep_view().push(cur@) == split_spec(v@.take(i as int), sep),
        decreases v.len() - i,
    {
        let c = v[i];
        let ghost prev = parts.deep_view();
        let ghost cur_prev = cur@;
        assert(v@.take(i + 1).drop_last() =~= v@.take(i as int));
        assert(v@.take(i + 1).last() == c);
        if c == sep {
            let ghost old_parts = parts@;
            parts.push(cur);
            cur = Vec::new();
            assert(parts.deep_view() =~= prev.push(cur_prev)) by {
                assert forall|k: int| 0 <= k < parts.len() implies #[trigger] parts.deep_view()[k]
                    == prev.push(cur_prev)[k] by {
                    if k < old_parts.len() {
                        assert(parts@[k] == old_parts[k]);
                    }
                }
            }
            assert(parts.deep_view().push(cur@) =~= prev.push(cur_prev).push(Seq::<char>::empty()));
        } else {
            cur.push(c);
            assert(parts.deep_view().push(cur@) =~= prev.push(cur_prev).update(
                prev.len() as int,
                cur_prev.push(c),
            ));
        }
        i = i + 1;
    }
    assert(v@.take(v.len() as int) =~= v@);
    let ghost prev = parts.deep_view();
    let ghost old_parts = parts@;
    let ghost cv = cur@;
    parts.push(cur);
    assert(parts.deep_view() =~= prev.push(cv)) by {
        assert forall|k: int| 0 <= k < parts.len() implies #[trigger] parts.deep_view()[k]
            == prev.push(cv)[k] by {
            if k < old_parts.len() {
                assert(parts@[k] == old_parts[k]);
            }
        }
    }
    parts
}

// ---------------------------------------------------------------------------------------------
// Trimming whitespace
// ---------------------------------------------------------------------------------------------

/// `s` without its leading whitespace, as `str::trim_start` gives it.
pub open spec fn trim_start_spec(s: Seq<char>) -> Seq<char>
    decreases s.len(),
{
    if s.len() > 0 && is_whitespace_spec(s[0]) {
        trim_start_spec(s.drop_first())
    } else {
        s
    }
}

/// `s` without its trailing whitespace, as `str::trim_end` gives it.
pub open spec fn trim_end_spec(s: Seq<char>) -> Seq<char>
    decreases s.len(),
{
    if s.len() > 0 && is_whitespace_spec(s.last()) {
        trim_end_spec(s.drop_last())
    } else {
        s
    }
}

/// `s` without leading or trailing whitespace, as `str::trim` gives it.
pub open spec fn trim_spec(s: Seq<char>) -> Seq<char> {
    trim_end_spec(trim_start_spec(s))
}

/// Leading whitespace that has been skipped does not change what `trim_start` gives.
proof fn lemma_trim_start_skip(s: Seq<char>, i: int)
    requires
        0 <= i <= s.len(),
        forall|k: int| 0 <= k < i ==> is_whitespace_spec(#[trigger] s[k]),
    ensures
        trim_start_spec(s) == trim_start_spec(s.subrange(i, s.len() as int)),
    decreases i,
{
    if i > 0 {
        assert(s.drop_first().subrange(i - 1, s.drop_first().len() as int) =~= s.subrange(
            i,
            s.len() as int,
        ));
        lemma_trim_start_skip(s.drop_first(), i - 1);
    } else {
        assert(s.subrange(0, s.len() as int) =~= s);
    }
}

/// Trailing whitespace that has been skipped does not change what `trim_end` gives.
proof fn lemma_trim_end_skip(s: Seq<char>, j: int)
    requires
        0 <= j <= s.len(),
        forall|k: int| j <= k < s.len() ==> is_whitespace_spec(#[trigger] s[k]),
    ensures
        trim_end_spec(s) == trim_end_spec(s.subrange(0, j)),
    decreases s.len() - j,
{
    if j < s.len() {
        assert(s.drop_last().subrange(0, j) =~= s.subrange(0, j));
        lemma_trim_end_skip(s.drop_last(), j);
    } else {
        assert(s.subrange(0, j) =~= s);
    }
}

/// The number of leading whitespace characters of `v`: `v[r..]` is `str::trim_start` of `v`.
pub fn trim_start_len(v: &Vec<char>) -> (r: usize)
    ensures
        r <= v.len(),
        v@.skip(r as int) == trim_start_spec(v@),
        forall|k: int| 0 <= k < r ==> is_whitespace_spec(#[trigger] v@[k]),
{
    let mut lo: usize = 0;
    while lo < v.len() && is_whitespace(v[lo])
        invariant
            lo <= v.len(),
            forall|k: int| 0 <= k < lo ==> is_whitespace_spec(#[trigger] v@[k]),
        decreases v.len() - lo,
    {
        lo = lo + 1;
    }
    proof {
        lemma_trim_start_skip(v@, lo as int);
        let u = v@.subrange(lo as int, v@.len() as int);
        if lo < v.len() {
            assert(u[0] == v@[lo as int]);
        }
        assert(trim_start_spec(u) == u);
        assert(u =~= v@.skip(lo as int));
    }
    lo
}

/// Trimming never lengthens a sequence.
pub proof fn lemma_trim_lengths(s: Seq<char>)
    ensures
        trim_start_spec(s).len() <= s.len(),
        trim_end_spec(s).len() <= s.len(),
        s.len() > 0 && is_whitespace_spec(s[0]) ==> trim_start_spec(s).len() < s.len(),
    decreases s.len(),
{
    if s.len() > 0 {
        lemma_trim_lengths(s.drop_first());
        lemma_trim_lengths(s.drop_last());
    }
}

/// The length of `v` without its trailing whitespace: `v[..r]` is `str::trim_end` of `v`.
pub fn trim_end_len(v: &Vec<char>) -> (r: usize)
    ensures
        r <= v.len(),
        v@.take(r as int) == trim_end_spec(v@),
{
    let mut hi = v.len();
    while hi > 0 && is_whitespace(v[hi - 1])
        invariant
            hi <= v.len(),
            forall|k: int| hi <= k < v.len() ==> is_whitespace_spec(#[trigger] v@[k]),
        decreases hi,
    {
        hi = hi - 1;
    }
    proof {
        lemma_trim_end_skip(v@, hi as int);
        let u = v@.subrange(0, hi as int);
        if hi > 0 {
            assert(u.last() == v@[hi - 1]);
        }
        assert(trim_end_spec(u) == u);
        assert(u =~= v@.take(hi as int));
    }
    hi
}

/// The bounds `(lo, hi)` of `v` with surrounding whitespace removed: `v[lo..hi]` is `str::trim`
/// of `v[from..to]`.
pub fn trim_bounds(v: &Vec<char>, from: usize, to: usize) -> (r: (usize, usize))
    requires
        from <= to <= v.len(),
    ensures
        from <= r.0 <= r.1 <= to,
        v@.subrange(r.0 as int, r.1 as int) == trim_spec(v@.subrange(from as int, to as int)),
{
    let ghost s = v@.subrange(from as int, to as int);
    let mut lo = from;
    while lo < to && is_whitespace(v[lo])
        invariant
            from <= lo <= to <= v.len(),
            forall|k: int| from <= k < lo ==> is_whitespace_spec(#[trigger] v@[k]),
        decreases to - lo,
    {
        lo = lo + 1;
    }
    proof {
        assert forall|k: int| 0 <= k < lo - from implies is_whitespace_spec(#[trigger] s[k]) by {
            assert(s[k] == v@[from + k]);
        }
        lemma_trim_start_skip(s, lo - from);
        assert(s.subrange(lo - from, s.len() as int) =~= v@.subrange(lo as int, to as int));
        let t = v@.subrange(lo as int, to as int);
        if lo < to {
            assert(t[0] == v@[lo as int]);
        }
        assert(trim_start_spec(t) == t);
    }
    let mut hi = to;
    while hi > lo && is_whitespace(v[hi - 1])
        invariant
            from <= lo <= hi <= to <= v.len(),
            forall|k: int| hi <= k < to ==> is_whitespace_spec(#[trigger] v@[k]),
        decreases hi - lo,
    {
        hi = hi - 1;
    }
    proof {
        let t = v@.subrange(lo as int, to as int);
        assert forall|k: int| hi - lo <= k < t.len() implies is_whitespace_spec(#[trigger] t[k]) by {
            assert(t[k] == v@[lo + k]);
        }
        lemma_trim_end_skip(t, hi - lo);
        let u = t.subrange(0, hi - lo);
        assert(u =~= v@.subrange(lo as int, hi as int));
        if hi > lo {
            assert(u.last() == v@[hi - 1]);
        }
        assert(trim_end_spec(u) == u);
    }
    (lo, hi)
}

// ---------------------------------------------------------------------------------------------
// Case-insensitive comparison of strings
// ---------------------------------------------------------------------------------------------

/// The rest of `s` after `prefix`, when `s` begins with `prefix` up to ASCII case.
pub fn strip_prefix_ci(s: &Vec<char>, prefix: &str) -> (r: Option<Vec<char>>)
    ensures
        match r {
            Some(rest) => starts_with_ci_spec(s@, prefix@) && rest@ == s@.skip(prefix@.len() as int),
            None => !starts_with_ci_spec(s@, prefix@),
        },
{
    let p = chars_of(prefix);
    if starts_with_ci(s, &p) {
        let rest = sub_chars(s, p.len(), s.len());
        assert(rest@ =~= s@.skip(p@.len() as int));
        Some(rest)
    } else {
        None
    }
}

// ---------------------------------------------------------------------------------------------
// Exact comparison and character classes of the standard library
// ---------------------------------------------------------------------------------------------

/// Whether `a` and `b` hold the same characters.
pub fn eq_chars(a: &Vec<char>, b: &Vec<char>) -> (r: bool)
    ensures
        r == (a@ == b@),
{
    if a.len() != b.len() {
        return false;
    }
    let mut i: usize = 0;
    while i < a.len()
        invariant
            a.len() == b.len(),
            i <= a.len(),
            forall|j: int| 0 <= j < i ==> a@[j] == b@[j],
        decreases a.len() - i,
    {
        if a[i] != b[i] {
            return false;
        }
        i = i + 1;
    }
    assert(a@ =~= b@);
    true
}

/// Whether the characters of `a` are those of the literal `b`.
pub fn eq_lit(a: &Vec<char>, b: &str) -> (r: bool)
    ensures
        r == (a@ == b@),
{
    eq_chars(a, &chars_of(b))
}

/// Whether `c` has the Unicode `Uppercase` property, as `char::is_uppercase` reports it.
pub uninterp spec fn char_is_uppercase(c: char) -> bool;

/// Whether `c` is alphabetic or numeric in Unicode, as `char::is_alphanumeric` reports it.
pub uninterp spec fn char_is_alphanumeric(c: char) -> bool;

/// `char::is_uppercase`. Among ASCII characters exactly `A` to `Z` are upper case; for other
/// characters the result is named, not stated.
#[verifier::external_body]
pub(crate) fn is_uppercase(c: char) -> (r: bool)
    ensures
        r == char_is_uppercase(c),
        (c as u32) < 128 ==> (r <==> is_ascii_upper_spec(c)),
{
    c.is_uppercase()
}

/// `char::is_alphanumeric`. Among ASCII characters exactly the letters and digits are
/// alphanumeric; for other characters the result is named, not stated.
#[verifier::external_body]
pub(crate) fn is_alphanumeric(c: char) -> (r: bool)
    ensures
        r == char_is_alphanumeric(c),
        (c as u32) < 128 ==> (r <==> (is_ascii_upper_spec(c) || ('a' <= c && c <= 'z')
            || is_digit_spec(c))),
{
    c.is_alphanumeric()
}


// ---------------------------------------------------------------------------------------------
// Word tables
// ---------------------------------------------------------------------------------------------

/// The position of the first word of `table` that is exactly `s`, if any.
pub open spec fn index_in(table: Seq<Seq<char>>, s: Seq<char>) -> Option<int>
    decreases table.len(),
{
    if table.len() == 0 {
        None
    } else if table[0] == s {
        Some(0)
    } else {
        match index_in(table.drop_first(), s) {
            Some(k) => Some(k + 1),
            None => None,
        }
    }
}

/// A position that `index_in` gives holds the word, and no word of the table is `s` where it
/// gives none.
pub proof fn lemma_index_in(table: Seq<Seq<char>>, s: Seq<char>)
    ensures
        match index_in(table, s) {
            Some(k) => 0 <= k < table.len() && table[k] == s && forall|j: int|
                0 <= j < k ==> table[j] != s,
            None => forall|j: int| 0 <= j < table.len() ==> table[j] != s,
        },
    decreases table.len(),
{
    if table.len() > 0 && table[0] != s {
        lemma_index_in(table.drop_first(), s);
        assert forall|j: int| 1 <= j < table.len() implies table[j] == table.drop_first()[j - 1] by {}
    }
}

/// The texts of some string slices.
pub open spec fn strs_view(v: Seq<&str>) -> Seq<Seq<char>> {
    v.map_values(|w: &str| w@)
}

/// The position of the first word of `table` whose characters are those of `s`, if any.
pub fn find_word(s: &Vec<char>, table: &[&str]) -> (r: Option<usize>)
    ensures
        match r {
            Some(k) => index_in(strs_view(table@), s@) == Some(k as int),
            None => index_in(strs_view(table@), s@) is None,
        },
{
    let ghost t = strs_view(table@);
    proof {
        lemma_index_in(t, s@);
    }
    let mut i: usize = 0;
    while i < table.len()
        invariant
            i <= table@.len(),
            t == strs_view(table@),
            forall|j: int| 0 <= j < i ==> t[j] != s@,
            match index_in(t, s@) {
                Some(k) => 0 <= k < t.len() && t[k] == s@ && forall|j: int|
                    0 <= j < k ==> t[j] != s@,
                None => forall|j: int| 0 <= j < t.len() ==> t[j] != s@,
            },
        decreases table.len() - i,
    {
        if eq_lit(s, table[i]) {
            assert(t[i as int] == s@);
            return Some(i);
        }
        i = i + 1;
    }
    None
}


// ---------------------------------------------------------------------------------------------
// Length in UTF-8 bytes
// ---------------------------------------------------------------------------------------------

/// The number of bytes that UTF-8 encodes `c` with.
pub open spec fn char_utf8_len(c: char) -> nat {
    if (c as u32) < 0x80 {
        1
    } else if (c as u32) < 0x800 {
        2
    } else if (c as u32) < 0x10000 {
        3
    } else {
        4
    }
}

/// The number of bytes that UTF-8 encodes `s` with, which `str::len` gives.
pub open spec fn utf8_len(s: Seq<char>) -> nat
    decreases s.len(),
{
    if s.len() == 0 {
        0
    } else {
        utf8_len(s.drop_last()) + char_utf8_len(s.last())
    }
}

/// The UTF-8 length of a concatenation is the sum of the lengths.
pub proof fn lemma_utf8_len_add(a: Seq<char>, b: Seq<char>)
    ensures
        utf8_len(a + b) == utf8_len(a) + utf8_len(b),
    decreases b.len(),
{
    if b.len() > 0 {
        lemma_utf8_len_add(a, b.drop_last());
        assert((a + b).drop_last() =~= a + b.drop_last());
    } else {
        assert(a + b =~= a);
    }
}

/// The number of bytes that UTF-8 encodes `c` with.
pub fn char_len_utf8(c: char) -> (r: usize)
    ensures
        r == char_utf8_len(c),
{
    let n = c as u32;
    if n < 0x80 {
        1
    } else if n < 0x800 {
        2
    } else if n < 0x10000 {
        3
    } else {
        4
    }
}

/// The number of bytes that UTF-8 encodes `v[lo..hi]` with.
pub fn utf8_len_of(v: &Vec<char>, lo: usize, hi: usize) -> (r: usize)
    requires
        lo <= hi <= v.len(),
        utf8_len(v@.subrange(lo as int, hi as int)) <= usize::MAX,
    ensures
        r == utf8_len(v@.subrange(lo as int, hi as int)),
{
    let mut n: usize = 0;
    let mut i = lo;
    while i < hi
        invariant
            lo <= i <= hi <= v.len(),
            n == utf8_len(v@.subrange(lo as int, i as int)),
            utf8_len(v@.subrange(lo as int, hi as int)) <= usize::MAX,
        decreases hi - i,
    {
        proof {
            let a = v@.subrange(lo as int, i + 1);
            assert(a.drop_last() =~= v@.subrange(lo as int, i as int));
            lemma_utf8_len_add(a, v@.subrange(i + 1, hi as int));
            assert(a + v@.subrange(i + 1, hi as int) =~= v@.subrange(lo as int, hi as int));
        }
        n = n + char_len_utf8(v[i]);
        i = i + 1;
    }
    n
}

} // verus!
