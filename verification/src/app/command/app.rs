//! The commands of the application itself: `changelog`, `debug`, `help` and dice rolls.

use super::runnable::{
    lemma_suggestions_text_push, suggestions_text, AutocompleteSuggestion, CommandMatches,
};
use crate::text::{
    all_digits, chars_of, eq_ci_spec, is_digit, starts_with_ci, starts_with_ci_spec, string_of,
    sub_chars, trim_end_len, trim_end_spec, eq_ci,
};
use caith::Roller;
use vstd::prelude::*;

verus! {

/// The value of the run of ASCII digits that ends just before position `j` of `s` (0 where the
/// character before `j` is not a digit).
pub open spec fn run_before(s: Seq<char>, j: int) -> int
    decreases j,
{
    if j <= 0 || j > s.len() {
        0
    } else if crate::text::is_digit_spec(s[j - 1]) {
        run_before(s, j - 1) * 10 + crate::text::digit_value(s[j - 1])
    } else {
        0
    }
}

/// Every run of ASCII digits in `s`, read up to any point, is at most `i64::MAX`: each number of
/// the formula fits the integer types that the dice roller reads numbers into.
pub open spec fn numbers_fit(s: Seq<char>) -> bool {
    forall|j: int| 0 <= j <= s.len() ==> #[trigger] run_before(s, j) <= i64::MAX
}

/// Whether every number of `s` fits: see [`numbers_fit`].
pub fn numbers_fit_check(s: &Vec<char>) -> (r: bool)
    ensures
        r == numbers_fit(s@),
{
    let mut run: u64 = 0;
    let mut j: usize = 0;
    while j < s.len()
        invariant
            j <= s@.len(),
            run == run_before(s@, j as int),
            forall|k: int| 0 <= k <= j ==> #[trigger] run_before(s@, k) <= i64::MAX,
        decreases s.len() - j,
    {
        let c = s[j];
        if is_digit(c) {
            let d: u64 = (c as u32 - '0' as u32) as u64;
            if run > 922337203685477580u64 || (run == 922337203685477580u64 && d > 7) {
                assert(run_before(s@, j + 1) > i64::MAX);
                return false;
            }
            run = run * 10 + d;
        } else {
            run = 0;
        }
        j = j + 1;
    }
    true
}

/// The number of ASCII digits in `s`.
pub open spec fn digit_count(s: Seq<char>) -> int
    decreases s.len(),
{
    if s.len() == 0 {
        0
    } else {
        digit_count(s.drop_last()) + if crate::text::is_digit_spec(s.last()) {
            1int
        } else {
            0int
        }
    }
}

/// No `:` comes before position `i` of `s`: it is in the formula, not in the reason after it.
pub open spec fn in_formula(s: Seq<char>, i: int) -> bool {
    forall|j: int| 0 <= j < i ==> s[j] != ':'
}

/// Where the run of ASCII digits that starts at `j` of `s` ends (`j` itself where none does).
pub open spec fn run_end(s: Seq<char>, j: int) -> int
    decreases s.len() - j,
{
    if 0 <= j < s.len() && crate::text::is_digit_spec(s[j]) {
        run_end(s, j + 1)
    } else {
        j
    }
}

/// A number of `lo` to `hi` starts at `j` of `s`: a run of ASCII digits, not preceded by one,
/// whose value is in that range.
pub open spec fn count_at(s: Seq<char>, j: int, lo: int, hi: int) -> bool {
    &&& 0 < j < s.len()
    &&& !crate::text::is_digit_spec(s[j - 1])
    &&& run_end(s, j) > j
    &&& lo <= run_before(s, run_end(s, j)) <= hi
}

/// The most repetitions (`^n`) and opening parentheses that a formula may hold.
pub const REPEAT_MAX: u64 = 100;

/// The character at `i` starts a construct that can make the roller work without bound: an
/// explosion (`!`, `ie`) without a threshold of at least 2 (with a threshold of 1 or with that
/// of the dice's sides, which may be 1, every die explodes again), an endless reroll (`ir`),
/// or a repetition (`^`, `^+`, `^#`) of more than [`REPEAT_MAX`] times.
pub open spec fn unbounded_at(s: Seq<char>, i: int) -> bool {
    ||| s[i] == '!' && !count_at(s, i + 1, 2, i64::MAX as int)
    ||| s[i] == 'i' && i + 1 < s.len() && s[i + 1] == 'e' && !count_at(s, i + 2, 2, i64::MAX as int)
    ||| s[i] == 'i' && i + 1 < s.len() && s[i + 1] == 'r'
    ||| s[i] == '^' && !(count_at(s, i + 1, 1, REPEAT_MAX as int) || (i + 1 < s.len() && (s[i + 1] == '+'
        || s[i + 1] == '#') && count_at(s, i + 2, 1, REPEAT_MAX as int)))
}

/// The number of opening parentheses of the formula part of `s` (before any `:`).
pub open spec fn open_count(s: Seq<char>, n: int) -> int
    decreases n,
{
    if n <= 0 || n > s.len() {
        0
    } else {
        open_count(s, n - 1) + if s[n - 1] == '(' && in_formula(s, n - 1) {
            1int
        } else {
            0int
        }
    }
}

/// The dice roller can roll `s` and return: every number fits the integer types it reads
/// numbers into (see [`numbers_fit`]); there are at most 17 digits in all, so that no total of
/// the roll overflows an `i64`; the formula has at most [`REPEAT_MAX`] opening parentheses, which
/// bounds how deep the roller recurses; and it has nothing that can make the roller work
/// without bound (see [`unbounded_at`]).
pub open spec fn roll_safe(s: Seq<char>) -> bool {
    &&& numbers_fit(s)
    &&& digit_count(s) <= 17
    &&& open_count(s, s.len() as int) <= REPEAT_MAX
    &&& forall|i: int| 0 <= i < s.len() && #[trigger] in_formula(s, i) ==> !unbounded_at(s, i)
}

/// Whether a number of `lo` to `hi` starts at `j`: see [`count_at`].
fn count_at_check(s: &Vec<char>, j: usize, lo: u64, hi: u64) -> (r: bool)
    requires
        numbers_fit(s@),
    ensures
        r == count_at(s@, j as int, lo as int, hi as int),
{
    if j == 0 || j >= s.len() || is_digit(s[j - 1]) {
        return false;
    }
    assert(run_before(s@, j as int) == 0);
    let mut k: usize = j;
    let mut val: u64 = 0;
    while k < s.len() && is_digit(s[k])
        invariant
            j <= k <= s@.len(),
            0 < j,
            run_end(s@, j as int) == run_end(s@, k as int),
            val == run_before(s@, k as int),
            numbers_fit(s@),
        decreases s.len() - k,
    {
        let d: u64 = (s[k] as u32 - '0' as u32) as u64;
        assert(run_before(s@, k + 1) <= i64::MAX);
        val = val * 10 + d;
        k = k + 1;
    }
    k > j && lo <= val && val <= hi
}

/// Whether the character at `i` starts a construct without bound: see [`unbounded_at`].
fn unbounded_at_check(s: &Vec<char>, i: usize) -> (r: bool)
    requires
        numbers_fit(s@),
        i < s@.len(),
    ensures
        r == unbounded_at(s@, i as int),
{
    let n = s.len();
    assert(i < n);
    let c = s[i];
    let next = if i + 1 < n {
        s[i + 1]
    } else {
        ' '
    };
    if c == '!' {
        !count_at_check(s, i + 1, 2, 0x7fff_ffff_ffff_ffff)
    } else if c == 'i' && i + 1 < s.len() && next == 'e' {
        !count_at_check(s, i + 2, 2, 0x7fff_ffff_ffff_ffff)
    } else if c == 'i' && i + 1 < s.len() && next == 'r' {
        true
    } else if c == '^' {
        !(count_at_check(s, i + 1, 1, REPEAT_MAX) || (i + 1 < s.len() && (next == '+' || next == '#')
            && count_at_check(s, i + 2, 1, REPEAT_MAX)))
    } else {
        false
    }
}

/// Whether the dice roller can roll `s` and return: see [`roll_safe`].
pub fn roll_safe_check(s: &Vec<char>) -> (r: bool)
    ensures
        r == roll_safe(s@),
{
    if !numbers_fit_check(s) {
        return false;
    }
    let mut digits: usize = 0;
    let mut opens: usize = 0;
    let mut formula = true;
    let mut i: usize = 0;
    while i < s.len()
        invariant
            i <= s@.len(),
            numbers_fit(s@),
            digits == digit_count(s@.take(i as int)),
            digits <= i,
            opens == open_count(s@, i as int),
            opens <= i,
            formula == in_formula(s@, i as int),
            forall|j: int| 0 <= j < i && #[trigger] in_formula(s@, j) ==> !unbounded_at(s@, j),
        decreases s.len() - i,
    {
        let c = s[i];
        assert(s@.take(i + 1).drop_last() =~= s@.take(i as int));
        if formula {
            if unbounded_at_check(s, i) {
                return false;
            }
            if c == '(' {
                opens = opens + 1;
            }
        }
        if is_digit(c) {
            digits = digits + 1;
        }
        if c == ':' {
            formula = false;
        }
        proof {
            if !in_formula(s@, i + 1) && formula {
                assert(s@[i as int] == ':');
            }
            assert forall|j: int| 0 <= j < i + 1 && #[trigger] in_formula(s@, j) implies !unbounded_at(s@, j) by {
                if j == i {
                    assert(formula || !in_formula(s@, i as int) || !unbounded_at(s@, j));
                }
            }
        }
        i = i + 1;
    }
    assert(s@.take(s@.len() as int) =~= s@);
    digits <= 17 && opens as u64 <= REPEAT_MAX
}

/// `caith`'s dice roll of `formula` (`Roller::new`, which only stores the text, then
/// `Roller::roll`), with the result rendered by its `Display`: the outcome of rolling the
/// formula with the thread's random number generator, or `None` where the formula is not valid.
/// The roller reads each number of the formula with an `unwrap`, computes totals in `i64`, and
/// explodes, rerolls, repeats and recurses into parentheses as often as the formula asks, so
/// the formula must be one that it can roll and return from (see [`roll_safe`]). An explosion
/// with a threshold of at least 2 ends with certainty but not within a bound: a run of
/// explosions long enough to overflow a total has no more than a vanishing chance, which this
/// contract leaves unsaid. The outcome rests on chance, so nothing is
/// stated of it.
#[verifier::external_body]
fn roll(formula: &str) -> (r: Option<String>)
    requires
        roll_safe(formula@),
{
    match Roller::new(formula) {
        Ok(roller) => match roller.roll() {
            Ok(result) => Some(result.to_string()),
            Err(_) => None,
        },
        Err(_) => None,
    }
}

/// A command of the application itself.
#[derive(Clone, Debug, Eq, PartialEq)]
pub enum AppCommand {
    Changelog,
    Debug,
    Help,
    Roll(String),
}

/// The value of an [`AppCommand`], with the dice formula as its characters.
pub enum AppCommandView {
    Changelog,
    Debug,
    Help,
    Roll(Seq<char>),
}

impl View for AppCommand {
    type V = AppCommandView;

    open spec fn view(&self) -> AppCommandView {
        match self {
            AppCommand::Changelog => AppCommandView::Changelog,
            AppCommand::Debug => AppCommandView::Debug,
            AppCommand::Help => AppCommandView::Help,
            AppCommand::Roll(s) => AppCommandView::Roll(s@),
        }
    }
}

/// The values of some optional command.
pub open spec fn option_view(o: Option<AppCommand>) -> Option<AppCommandView> {
    match o {
        Some(c) => Some(c@),
        None => None,
    }
}

/// The values of some commands.
pub open spec fn commands_view(v: Seq<AppCommand>) -> Seq<AppCommandView> {
    v.map_values(|c: AppCommand| c@)
}

/// What parsing `input` gives, as (canonical match, fuzzy matches), where `rolls` says whether
/// `input` rolls as a dice formula: the words `changelog`, `debug` and `help` and the prefix
/// `roll ` (ignoring ASCII case) are canonical; any other input that is not all digits and
/// rolls is a fuzzy match for rolling it.
pub open spec fn app_parse_spec(input: Seq<char>, rolls: bool) -> (
    Option<AppCommandView>,
    Seq<AppCommandView>,
) {
    if eq_ci_spec(input, "changelog"@) {
        (Some(AppCommandView::Changelog), Seq::empty())
    } else if eq_ci_spec(input, "debug"@) {
        (Some(AppCommandView::Debug), Seq::empty())
    } else if eq_ci_spec(input, "help"@) {
        (Some(AppCommandView::Help), Seq::empty())
    } else if starts_with_ci_spec(input, "roll "@) {
        (Some(AppCommandView::Roll(input.skip(5))), Seq::empty())
    } else if !all_digits(input) && rolls {
        (None, seq![AppCommandView::Roll(input)])
    } else {
        (None, Seq::empty())
    }
}

/// The suggestions for `input`: `changelog` and `help` where their term begins with it, then
/// dice rolling where `roll` does (ignoring ASCII case); nothing for an empty input.
pub open spec fn app_suggestions_spec(input: Seq<char>) -> Seq<(Seq<char>, Seq<char>)> {
    if input.len() == 0 {
        Seq::empty()
    } else {
        let a: Seq<(Seq<char>, Seq<char>)> = if starts_with_ci_spec("changelog"@, input) {
            seq![("changelog"@, "show latest updates"@)]
        } else {
            Seq::empty()
        };
        let b: Seq<(Seq<char>, Seq<char>)> = if starts_with_ci_spec("help"@, input) {
            seq![("help"@, "how to use initiative.sh"@)]
        } else {
            Seq::empty()
        };
        let c: Seq<(Seq<char>, Seq<char>)> = if starts_with_ci_spec("roll"@, input) {
            seq![("roll [dice]"@, "roll eg. 8d6 or d20+3"@)]
        } else {
            Seq::empty()
        };
        a + b + c
    }
}

/// The text of a command: its word, or `roll ` and the formula.
pub open spec fn app_display_spec(c: AppCommandView) -> Seq<char> {
    match c {
        AppCommandView::Changelog => "changelog"@,
        AppCommandView::Debug => "debug"@,
        AppCommandView::Help => "help"@,
        AppCommandView::Roll(s) => "roll "@ + s,
    }
}

/// A roll's rendered outcome made fit for the output: each line break escaped by a backslash,
/// and backquotes dropped.
pub open spec fn escape_roll(s: Seq<char>) -> Seq<char>
    decreases s.len(),
{
    if s.len() == 0 {
        Seq::empty()
    } else {
        let rest = escape_roll(s.drop_last());
        if s.last() == '\n' {
            rest + seq!['\\', '\n']
        } else if s.last() == '`' {
            rest
        } else {
            rest.push(s.last())
        }
    }
}

/// The reply to rolling `formula`, given the rendered outcome of the roll (`None` where the
/// formula did not roll): the outcome without trailing whitespace, escaped; or the message that
/// the formula is not valid.
pub open spec fn roll_reply_spec(formula: Seq<char>, outcome: Option<Seq<char>>) -> Result<
    Seq<char>,
    Seq<char>,
> {
    match outcome {
        Some(text) => Ok(escape_roll(trim_end_spec(text))),
        None => Err("\""@ + formula + "\" is not a valid dice formula. See `help` for some examples."@),
    }
}

impl AppCommand {
    /// What parsing `input` gives, where `rolls` says whether `input` rolls as a dice formula.
    pub fn parse_input_with(input: &str, rolls: bool) -> (r: CommandMatches<AppCommand>)
        ensures
            (option_view(r.canonical_match), commands_view(r.fuzzy_matches@)) == app_parse_spec(
                input@,
                rolls,
            ),
    {
        let s = chars_of(input);
        if eq_ci(&s, &chars_of("changelog")) {
            CommandMatches::new_canonical(AppCommand::Changelog)
        } else if eq_ci(&s, &chars_of("debug")) {
            CommandMatches::new_canonical(AppCommand::Debug)
        } else if eq_ci(&s, &chars_of("help")) {
            CommandMatches::new_canonical(AppCommand::Help)
        } else if starts_with_ci(&s, &chars_of("roll ")) {
            proof {
                reveal_strlit("roll ");
            }
            let formula = string_of(&sub_chars(&s, 5, s.len()));
            assert(formula@ =~= input@.skip(5));
            let r = CommandMatches::new_canonical(AppCommand::Roll(formula));
            assert(commands_view(r.fuzzy_matches@) =~= Seq::<AppCommandView>::empty());
            r
        } else if !Self::all_digits(&s) && rolls {
            let r = CommandMatches::new_fuzzy(AppCommand::Roll(string_of(&s)));
            assert(commands_view(r.fuzzy_matches@) =~= seq![AppCommandView::Roll(input@)]);
            r
        } else {
            let r = CommandMatches::default();
            assert(commands_view(r.fuzzy_matches@) =~= Seq::<AppCommandView>::empty());
            r
        }
    }

    /// Whether every character of `s` is an ASCII digit.
    fn all_digits(s: &Vec<char>) -> (r: bool)
        ensures
            r == all_digits(s@),
    {
        let mut i: usize = 0;
        while i < s.len()
            invariant
                i <= s.len(),
                forall|k: int| 0 <= k < i ==> crate::text::is_digit_spec(#[trigger] s@[k]),
            decreases s.len() - i,
        {
            if !is_digit(s[i]) {
                return false;
            }
            i = i + 1;
        }
        true
    }

    /// What parsing `input` gives. Where only a dice roll could match, the formula is rolled once
    /// to see whether it is valid; what is returned is then that of
    /// [`AppCommand::parse_input_with`] for the outcome.
    /// A formula that the roller cannot roll and return from (see [`roll_safe`]) does not
    /// roll.
    pub fn parse_input(input: &str) -> (r: CommandMatches<AppCommand>)
        ensures
            (option_view(r.canonical_match), commands_view(r.fuzzy_matches@)) == app_parse_spec(
                input@,
                false,
            ) || (option_view(r.canonical_match), commands_view(r.fuzzy_matches@))
                == app_parse_spec(input@, true),
    {
        let s = chars_of(input);
        let rolls = if Self::all_digits(&s) || !roll_safe_check(&s) {
            false
        } else {
            roll(input).is_some()
        };
        Self::parse_input_with(input, rolls)
    }

    /// The suggestions that complete `input`.
    pub fn autocomplete(input: &str) -> (r: Vec<AutocompleteSuggestion>)
        ensures
            suggestions_text(r@) == app_suggestions_spec(input@),
    {
        let mut r: Vec<AutocompleteSuggestion> = Vec::new();
        let s = chars_of(input);
        if s.len() == 0 {
            assert(suggestions_text(r@) =~= Seq::<(Seq<char>, Seq<char>)>::empty());
            return r;
        }
        if starts_with_ci(&chars_of("changelog"), &s) {
            let x = AutocompleteSuggestion::from_static("changelog", "show latest updates");
            proof {
                lemma_suggestions_text_push(r@, x);
            }
            r.push(x);
        }
        if starts_with_ci(&chars_of("help"), &s) {
            let x = AutocompleteSuggestion::from_static("help", "how to use initiative.sh");
            proof {
                lemma_suggestions_text_push(r@, x);
            }
            r.push(x);
        }
        if starts_with_ci(&chars_of("roll"), &s) {
            let x = AutocompleteSuggestion::from_static("roll [dice]", "roll eg. 8d6 or d20+3");
            proof {
                lemma_suggestions_text_push(r@, x);
            }
            r.push(x);
        }
        assert(suggestions_text(r@) =~= app_suggestions_spec(input@));
        r
    }

    /// The text of the command, which parses back to it.
    pub fn to_string(&self) -> (r: String)
        ensures
            r@ == app_display_spec(self@),
    {
        match self {
            AppCommand::Changelog => "changelog".to_owned(),
            AppCommand::Debug => "debug".to_owned(),
            AppCommand::Help => "help".to_owned(),
            AppCommand::Roll(s) => {
                let mut v = chars_of("roll ");
                let f = chars_of(s.as_str());
                crate::text::push_all(&mut v, &f);
                string_of(&v)
            },
        }
    }

    /// The reply to rolling `formula`, given the rendered outcome of the roll.
    pub fn roll_reply(formula: &str, outcome: Option<String>) -> (r: Result<String, String>)
        ensures
            match (r, outcome) {
                (Ok(t), Some(o)) => roll_reply_spec(formula@, Some(o@)) == Ok::<
                    Seq<char>,
                    Seq<char>,
                >(t@),
                (Err(t), None) => roll_reply_spec(formula@, None) == Err::<Seq<char>, Seq<char>>(
                    t@,
                ),
                _ => false,
            },
    {
        match outcome {
            Some(text) => {
                let v = chars_of(text.as_str());
                let hi = trim_end_len(&v);
                let mut out: Vec<char> = Vec::new();
                let mut i: usize = 0;
                while i < hi
                    invariant
                        i <= hi <= v@.len(),
                        v@.take(hi as int) == trim_end_spec(text@),
                        v@ == text@,
                        out@ == escape_roll(v@.take(i as int)),
                    decreases hi - i,
                {
                    let c = v[i];
                    assert(v@.take(i + 1).drop_last() =~= v@.take(i as int));
                    if c == '\n' {
                        out.push('\\');
                        out.push('\n');
                    } else if c != '`' {
                        out.push(c);
                    }
                    i = i + 1;
                    assert(out@ =~= escape_roll(v@.take(i as int)));
                }
                assert(v@.take(hi as int).take(hi as int) =~= v@.take(hi as int));
                Ok(string_of(&out))
            },
            None => {
                let mut v = chars_of("\"");
                crate::text::push_all(&mut v, &chars_of(formula));
                crate::text::push_all(
                    &mut v,
                    &chars_of("\" is not a valid dice formula. See `help` for some examples."),
                );
                Err(string_of(&v))
            },
        }
    }

    /// Rolls `formula` and gives the reply: the escaped outcome, or the message that the formula
    /// is not valid. The outcome rests on chance; whichever came, the reply is what
    /// [`AppCommand::roll_reply`] makes of it.
    /// A formula that the roller cannot roll and return from (see [`roll_safe`]) is not
    /// valid.
    pub fn run_roll(formula: &str) -> (r: Result<String, String>)
        ensures
            match r {
                Ok(t) => exists|o: Seq<char>| #[trigger] escape_roll(trim_end_spec(o)) == t@,
                Err(t) => roll_reply_spec(formula@, None) == Err::<Seq<char>, Seq<char>>(t@),
            },
    {
        let outcome = if roll_safe_check(&chars_of(formula)) {
            roll(formula)
        } else {
            None
        };
        let ghost o = outcome;
        let r = Self::roll_reply(formula, outcome);
        proof {
            if let Some(text) = o {
                assert(escape_roll(trim_end_spec(text@)) == r->Ok_0@);
            }
        }
        r
    }
}

/// The text of a command parses back to that command, as the canonical match, whether or not
/// it would roll.
pub proof fn lemma_app_display_parses(c: AppCommandView, rolls: bool)
    ensures
        app_parse_spec(app_display_spec(c), rolls) == (Some(c), Seq::<AppCommandView>::empty()),
{
    reveal_strlit("changelog");
    reveal_strlit("debug");
    reveal_strlit("help");
    reveal_strlit("roll ");
    let s = app_display_spec(c);
    if let AppCommandView::Roll(f) = c {
        assert(s.take(5) =~= "roll "@);
        assert(s.skip(5) =~= f);
        assert(s[0] == 'r');
    }
}

} // verus!
