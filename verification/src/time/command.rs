//! The `now`, `+interval` and `-interval` commands.

use super::interval::{
    lemma_short_text_parses, long_text, parse_interval_spec, short_text, Interval,
};
use super::{add_spec, sub_spec, Time, TimeParts};
use crate::app::command::runnable::{
    lemma_suggestions_text_push, suggestion_text, suggestions_text, AutocompleteSuggestion,
    CommandMatches,
};
use crate::text::{
    char_eq_ci_spec, chars_of, eq_ci, eq_ci_spec, fold_case, push_all, starts_with_ci,
    starts_with_ci_spec, string_of, sub_chars,
};
use crate::storage::data_store::DataStore;
use crate::storage::repository::{
    modify_effect, push_undo_spec, set_value_spec, stored_value_spec, Change, ChangeView,
    KeyValue, Repository, RepositoryView,
};
use vstd::prelude::*;

verus! {

/// A command that reads or changes the current in-game time.
#[derive(Clone, Copy, Debug, Eq, PartialEq, Structural)]
pub enum TimeCommand {
    Add { interval: Interval },
    Now,
    Sub { interval: Interval },
}

/// The characters of `now`.
pub open spec fn now_text() -> Seq<char> {
    seq!['n', 'o', 'w']
}

/// The characters of `time`.
pub open spec fn time_text() -> Seq<char> {
    seq!['t', 'i', 'm', 'e']
}

/// The characters of `date`.
pub open spec fn date_text() -> Seq<char> {
    seq!['d', 'a', 't', 'e']
}

/// What parsing an input gives, as (canonical match, fuzzy matches): `now` is canonical, `time`
/// and `date` are fuzzy matches for it (all ignoring ASCII case), and `+` or `-` followed by an
/// interval advance or rewind the time.
pub open spec fn parse_spec(s: Seq<char>) -> (Option<TimeCommand>, Seq<TimeCommand>) {
    if eq_ci_spec(s, now_text()) {
        (Some(TimeCommand::Now), Seq::empty())
    } else if eq_ci_spec(s, time_text()) || eq_ci_spec(s, date_text()) {
        (None, seq![TimeCommand::Now])
    } else if s.len() > 0 && s[0] == '+' && parse_interval_spec(s.drop_first()) is Some {
        (Some(TimeCommand::Add { interval: parse_interval_spec(s.drop_first())->0 }), Seq::empty())
    } else if s.len() > 0 && s[0] == '-' && parse_interval_spec(s.drop_first()) is Some {
        (Some(TimeCommand::Sub { interval: parse_interval_spec(s.drop_first())->0 }), Seq::empty())
    } else {
        (None, Seq::empty())
    }
}

/// The canonical text of a command: `now`, or `+`/`-` and the interval's short rendering.
pub open spec fn display_spec(c: TimeCommand) -> Seq<char> {
    match c {
        TimeCommand::Add { interval } => seq!['+'] + short_text(interval),
        TimeCommand::Now => now_text(),
        TimeCommand::Sub { interval } => seq!['-'] + short_text(interval),
    }
}

/// The summary for a `+` or `-` input: what the completed input would do.
pub open spec fn interval_summary(sign: char, i: Interval) -> Seq<char> {
    if sign == '+' {
        seq!['a', 'd', 'v', 'a', 'n', 'c', 'e', ' ', 't', 'i', 'm', 'e', ' ', 'b', 'y', ' ']
            + long_text(i)
    } else {
        seq!['r', 'e', 'w', 'i', 'n', 'd', ' ', 't', 'i', 'm', 'e', ' ', 'b', 'y', ' '] + long_text(
            i,
        )
    }
}

/// The suggestion of completing `input` with `suffix`, when the completed text (after its sign)
/// reads as an interval.
pub open spec fn suffix_suggestion(input: Seq<char>, suffix: Seq<char>) -> Seq<
    (Seq<char>, Seq<char>),
> {
    let term = input + suffix;
    match parse_interval_spec(term.drop_first()) {
        Some(i) => seq![(term, interval_summary(input[0], i))],
        None => Seq::empty(),
    }
}

/// The suggestions for an input beginning with `+` or `-`: the input followed by nothing or by
/// each unit letter, as far as each reads as an interval.
pub open spec fn unit_suggestions(input: Seq<char>) -> Seq<(Seq<char>, Seq<char>)> {
    suffix_suggestion(input, unit_seq(None)) + suffix_suggestion(input, unit_seq(Some('d')))
        + suffix_suggestion(input, unit_seq(Some('h'))) + suffix_suggestion(
        input,
        unit_seq(Some('m')),
    ) + suffix_suggestion(input, unit_seq(Some('s'))) + suffix_suggestion(
        input,
        unit_seq(Some('r')),
    )
}

/// An optional unit letter as text.
pub open spec fn unit_seq(unit: Option<char>) -> Seq<char> {
    match unit {
        Some(c) => seq![c],
        None => Seq::empty(),
    }
}

/// The suggestion of a word that begins with the input, ignoring ASCII case.
pub open spec fn word_suggestion(input: Seq<char>, word: Seq<char>) -> Seq<
    (Seq<char>, Seq<char>),
> {
    if starts_with_ci_spec(word, input) {
        seq![
            (
                word,
                seq![
                    'g',
                    'e',
                    't',
                    ' ',
                    't',
                    'h',
                    'e',
                    ' ',
                    'c',
                    'u',
                    'r',
                    'r',
                    'e',
                    'n',
                    't',
                    ' ',
                    't',
                    'i',
                    'm',
                    'e',
                ],
            ),
        ]
    } else {
        Seq::empty()
    }
}

/// What autocompletion suggests for an input, as (term, summary) pairs in order.
pub open spec fn autocomplete_spec(input: Seq<char>) -> Seq<(Seq<char>, Seq<char>)> {
    if input.len() > 0 && (input[0] == '+' || input[0] == '-') {
        if input.len() == 1 {
            seq![
                (
                    input + seq!['[', 'n', 'u', 'm', 'b', 'e', 'r', ']'],
                    if input[0] == '+' {
                        seq!['a', 'd', 'v', 'a', 'n', 'c', 'e', ' ', 't', 'i', 'm', 'e']
                    } else {
                        seq!['r', 'e', 'w', 'i', 'n', 'd', ' ', 't', 'i', 'm', 'e']
                    },
                ),
            ] + unit_suggestions(input)
        } else {
            unit_suggestions(input)
        }
    } else if input.len() > 0 {
        word_suggestion(input, now_text()) + word_suggestion(input, time_text()) + word_suggestion(
            input,
            date_text(),
        )
    } else {
        Seq::empty()
    }
}

/// The reply to `now` at the time `t`.
pub open spec fn now_reply(t: TimeParts) -> Seq<char> {
    "It is currently "@ + super::long_text(t) + "."@
}

/// The reply to moving the time to `t`.
pub open spec fn moved_reply(t: TimeParts) -> Seq<char> {
    "It is now "@ + super::long_text(t) + ". Use `undo` to reverse."@
}

/// The outcome of running a time command against the current time: either a reply, or a new
/// time to store together with the replies for a stored and for a failed write.
pub enum TimeStep {
    Reply(Result<String, String>),
    Store { time: Time, success: String, failure: String },
}

/// The characters of a `&str` literal.
fn lit(s: &'static str) -> (r: Vec<char>)
    ensures
        r@ == s@,
{
    chars_of(s)
}

impl TimeCommand {
    /// Parses an input as a time command; see [`parse_spec`].
    pub fn parse_input(input: &str) -> (r: CommandMatches<TimeCommand>)
        ensures
            (r.canonical_match, r.fuzzy_matches@) == parse_spec(input@),
    {
        let s = chars_of(input);
        let now = lit("now");
        let time = lit("time");
        let date = lit("date");
        proof {
            reveal_strlit("now");
            reveal_strlit("time");
            reveal_strlit("date");
            assert(now@ =~= now_text());
            assert(time@ =~= time_text());
            assert(date@ =~= date_text());
        }
        if eq_ci(&s, &now) {
            CommandMatches::new_canonical(TimeCommand::Now)
        } else if eq_ci(&s, &time) || eq_ci(&s, &date) {
            CommandMatches::new_fuzzy(TimeCommand::Now)
        } else if s.len() > 0 && s[0] == '+' {
            let rest = sub_chars(&s, 1, s.len());
            assert(rest@ =~= s@.drop_first());
            match Interval::parse_chars(&rest) {
                Ok(interval) => CommandMatches::new_canonical(TimeCommand::Add { interval }),
                Err(_) => CommandMatches::default(),
            }
        } else if s.len() > 0 && s[0] == '-' {
            let rest = sub_chars(&s, 1, s.len());
            assert(rest@ =~= s@.drop_first());
            match Interval::parse_chars(&rest) {
                Ok(interval) => CommandMatches::new_canonical(TimeCommand::Sub { interval }),
                Err(_) => CommandMatches::default(),
            }
        } else {
            CommandMatches::default()
        }
    }

    /// The suggestions for an input; see [`autocomplete_spec`].
    pub fn autocomplete(input: &str) -> (r: Vec<AutocompleteSuggestion>)
        ensures
            suggestions_text(r@) == autocomplete_spec(input@),
    {
        let s = chars_of(input);
        if s.len() > 0 && (s[0] == '+' || s[0] == '-') {
            sign_suggestions(&s)
        } else if s.len() > 0 {
            word_suggestions(&s)
        } else {
            assert(suggestions_text(Seq::<AutocompleteSuggestion>::empty()) =~= Seq::<
                (Seq<char>, Seq<char>),
            >::empty());
            Vec::new()
        }
    }

    /// The canonical text of the command, such as `now` or `+2d 3h`.
    pub fn to_string(&self) -> (r: String)
        ensures
            r@ == display_spec(*self),
    {
        match self {
            TimeCommand::Add { interval } => {
                let mut v: Vec<char> = Vec::new();
                v.push('+');
                push_all(&mut v, &chars_of(interval.display_short().to_string().as_str()));
                assert(v@ =~= display_spec(*self));
                string_of(&v)
            },
            TimeCommand::Now => {
                proof {
                    reveal_strlit("now");
                }
                string_of(&lit("now"))
            },
            TimeCommand::Sub { interval } => {
                let mut v: Vec<char> = Vec::new();
                v.push('-');
                push_all(&mut v, &chars_of(interval.display_short().to_string().as_str()));
                assert(v@ =~= display_spec(*self));
                string_of(&v)
            },
        }
    }

    /// What running the command does at the time `current`: `now` replies with the time;
    /// `+`/`-` either give the new time to store with its replies, or reply that the time could
    /// not be moved when the result would leave the range of days.
    pub fn step(&self, current: &Time) -> (r: TimeStep)
        ensures
            match (*self, r) {
                (TimeCommand::Now, TimeStep::Reply(Ok(_))) => true,
                (TimeCommand::Add { interval }, TimeStep::Store { time, .. }) => add_spec(
                    current.parts(),
                    interval,
                ) == Some(time.parts()),
                (TimeCommand::Add { interval }, TimeStep::Reply(Err(_))) => add_spec(
                    current.parts(),
                    interval,
                ) is None,
                (TimeCommand::Sub { interval }, TimeStep::Store { time, .. }) => sub_spec(
                    current.parts(),
                    interval,
                ) == Some(time.parts()),
                (TimeCommand::Sub { interval }, TimeStep::Reply(Err(_))) => sub_spec(
                    current.parts(),
                    interval,
                ) is None,
                _ => false,
            },
            r matches TimeStep::Reply(Ok(msg)) ==> msg@ == now_reply(current.parts()),
            r matches TimeStep::Store { time, success, .. } ==> success@ == moved_reply(time.parts()),
            match (*self, r) {
                (TimeCommand::Add { interval }, TimeStep::Reply(Err(msg))) => msg@
                    == unable_text(true, interval),
                (TimeCommand::Add { interval }, TimeStep::Store { failure, .. }) => failure@
                    == unable_text(true, interval),
                (TimeCommand::Sub { interval }, TimeStep::Reply(Err(msg))) => msg@
                    == unable_text(false, interval),
                (TimeCommand::Sub { interval }, TimeStep::Store { failure, .. }) => failure@
                    == unable_text(false, interval),
                _ => true,
            },
    {
        proof {
            reveal_strlit("It is currently ");
            reveal_strlit("It is now ");
            reveal_strlit(". Use `undo` to reverse.");
            reveal_strlit(".");
        }
        let (result, advance, interval) = match self {
            TimeCommand::Now => {
                let mut v = lit("It is currently ");
                push_all(&mut v, &chars_of(current.display_long().to_string().as_str()));
                v.push('.');
                assert(v@ =~= now_reply(current.parts()));
                return TimeStep::Reply(Ok(string_of(&v)));
            },
            TimeCommand::Add { interval } => (current.checked_add(interval), true, interval),
            TimeCommand::Sub { interval } => (current.checked_sub(interval), false, interval),
        };
        let failure = unable_message(advance, interval);
        match result {
            Some(time) => {
                let mut v = lit("It is now ");
                push_all(&mut v, &chars_of(time.display_long().to_string().as_str()));
                push_all(&mut v, &lit(". Use `undo` to reverse."));
                assert(v@ =~= moved_reply(time.parts()));
                TimeStep::Store { time, success: string_of(&v), failure }
            },
            None => TimeStep::Reply(Err(failure)),
        }
    }
}

/// The time that the key-value store `values` holds: the parsed value under `time`, or day 0 at
/// midnight where there is none; nothing where the value does not parse.
pub open spec fn current_parts(values: Map<Seq<char>, Seq<char>>) -> Option<TimeParts> {
    if values.contains_key("time"@) {
        crate::time::parse_spec(values["time"@])
    } else {
        Some((0int, 0int, 0int, 0int))
    }
}

/// The reply when the time cannot be read.
pub open spec fn storage_error_text() -> Seq<char> {
    "Storage error."@
}

/// Moving the time to `target` (none where it would leave the range of days): the time is
/// stored, with the old value in the undo history, and the reply says so; or, where the move is
/// impossible or the store fails, nothing changes and the reply is `unable`.
pub open spec fn move_effect(
    target: Option<TimeParts>,
    unable: Seq<char>,
    v: RepositoryView,
    r: Result<Seq<char>, Seq<char>>,
    w: RepositoryView,
) -> bool {
    match target {
        None => r == Err::<Seq<char>, Seq<char>>(unable) && w == v,
        Some(t) => (r == Err::<Seq<char>, Seq<char>>(unable) && w == v && !v.answers) || (r == Ok::<
            Seq<char>,
            Seq<char>,
        >(moved_reply(t)) && exists|old_kv: KeyValue|
            stored_value_spec(v.values, old_kv) && w == RepositoryView {
                values: v.values.insert("time"@, super::short_text(t)),
                undo: push_undo_spec(v.undo, ChangeView::SetKeyValue { key_value: old_kv }),
                ..v
            }),
    }
}

/// What running `c` against the repository `v` does, giving `r` and leaving `w`: reading the
/// time may fail, with `Storage error.` and nothing changed, but only where the data store does
/// not answer or the stored time cannot be read; otherwise `now` tells the current time and
/// `+`/`-` move it (see [`move_effect`]), which fails to store only where the store does not
/// answer.
pub open spec fn run_effect(
    c: TimeCommand,
    v: RepositoryView,
    r: Result<Seq<char>, Seq<char>>,
    w: RepositoryView,
) -> bool {
    ||| r == Err::<Seq<char>, Seq<char>>(storage_error_text()) && w == v && !(v.answers
        && current_parts(v.values) is Some)
    ||| match current_parts(v.values) {
        None => false,
        Some(cur) => match c {
            TimeCommand::Now => r == Ok::<Seq<char>, Seq<char>>(now_reply(cur)) && w == v,
            TimeCommand::Add { interval } => move_effect(
                add_spec(cur, interval),
                unable_text(true, interval),
                v,
                r,
                w,
            ),
            TimeCommand::Sub { interval } => move_effect(
                sub_spec(cur, interval),
                unable_text(false, interval),
                v,
                r,
                w,
            ),
        },
    }
}

/// The view of a reply.
pub open spec fn reply_view(r: Result<String, String>) -> Result<Seq<char>, Seq<char>> {
    match r {
        Ok(s) => Ok(s@),
        Err(s) => Err(s@),
    }
}

impl TimeCommand {
    /// Runs the command against the repository: see [`run_effect`].
    pub fn run<D: DataStore>(&self, repository: &mut Repository<D>) -> (r: Result<String, String>)
        requires
            old(repository).wf(),
        ensures
            final(repository).wf(),
            run_effect(*self, old(repository)@, reply_view(r), final(repository)@),
    {
        let ghost v = repository@;
        let current = match repository.get_key_value(&KeyValue::Time(None)) {
            Ok(kv) => match kv.time() {
                Some(t) => t,
                None => Time::default(),
            },
            Err(_) => {
                proof {
                    reveal_strlit("Storage error.");
                }
                return Err(string_of(&lit("Storage error.")));
            },
        };
        assert(current_parts(v.values) == Some(current.parts()));
        match self.step(&current) {
            TimeStep::Reply(reply) => reply,
            TimeStep::Store { time, success, failure } => {
                let ghost t = time.parts();
                let change = Change::SetKeyValue { key_value: KeyValue::Time(Some(time)) };
                match repository.modify(change) {
                    Ok(_) => {
                        proof {
                            let (c2, w1) = choose|c2: ChangeView, w1: RepositoryView|
                                modify_effect(
                                    v,
                                    ChangeView::SetKeyValue {
                                        key_value: KeyValue::Time(Some(time)),
                                    },
                                    Ok(c2),
                                    w1,
                                ) && w1.undo == v.undo && repository@ == (RepositoryView {
                                    undo: push_undo_spec(v.undo, c2),
                                    ..w1
                                });
                            if let ChangeView::SetKeyValue { key_value: old_kv } = c2 {
                                assert(stored_value_spec(v.values, old_kv));
                                assert(set_value_spec(v.values, KeyValue::Time(Some(time)))
                                    == v.values.insert("time"@, super::short_text(t)));
                            }
                        }
                        Ok(success)
                    },
                    Err(_) => Err(failure),
                }
            },
        }
    }
}

/// The suggestions for an input that begins with `+` or `-`.
fn sign_suggestions(s: &Vec<char>) -> (r: Vec<AutocompleteSuggestion>)
    requires
        s@.len() > 0,
        s@[0] == '+' || s@[0] == '-',
    ensures
        suggestions_text(r@) == autocomplete_spec(s@),
{
    let mut out: Vec<AutocompleteSuggestion> = Vec::new();
    assert(suggestions_text(out@) =~= Seq::<(Seq<char>, Seq<char>)>::empty());
    if s.len() == 1 {
        let first = number_suggestion(s);
        proof {
            lemma_suggestions_text_push(out@, first);
        }
        out.push(first);
    }
    let ghost t0 = suggestions_text(out@);
    push_suffix_suggestion(&mut out, s, None);
    push_suffix_suggestion(&mut out, s, Some('d'));
    push_suffix_suggestion(&mut out, s, Some('h'));
    push_suffix_suggestion(&mut out, s, Some('m'));
    push_suffix_suggestion(&mut out, s, Some('s'));
    push_suffix_suggestion(&mut out, s, Some('r'));
    proof {
        let u = unit_suggestions(s@);
        assert(suggestions_text(out@) =~= t0 + u);
    }
    out
}

/// The suggestions of `now`, `time` and `date` for an input that begins none of `+` and `-`.
fn word_suggestions(s: &Vec<char>) -> (r: Vec<AutocompleteSuggestion>)
    requires
        s@.len() > 0,
        !(s@[0] == '+' || s@[0] == '-'),
    ensures
        suggestions_text(r@) == autocomplete_spec(s@),
{
    let mut out: Vec<AutocompleteSuggestion> = Vec::new();
    assert(suggestions_text(out@) =~= Seq::<(Seq<char>, Seq<char>)>::empty());
    push_word_suggestion(&mut out, s, "now");
    push_word_suggestion(&mut out, s, "time");
    push_word_suggestion(&mut out, s, "date");
    proof {
        reveal_strlit("now");
        reveal_strlit("time");
        reveal_strlit("date");
        assert("now"@ =~= now_text());
        assert("time"@ =~= time_text());
        assert("date"@ =~= date_text());
        assert(suggestions_text(out@) =~= autocomplete_spec(s@));
    }
    out
}

/// The first suggestion for a lone `+` or `-`.
fn number_suggestion(s: &Vec<char>) -> (r: AutocompleteSuggestion)
    requires
        s@.len() == 1,
        s@[0] == '+' || s@[0] == '-',
    ensures
        suggestion_text(r) == (
            s@ + seq!['[', 'n', 'u', 'm', 'b', 'e', 'r', ']'],
            if s@[0] == '+' {
                seq!['a', 'd', 'v', 'a', 'n', 'c', 'e', ' ', 't', 'i', 'm', 'e']
            } else {
                seq!['r', 'e', 'w', 'i', 'n', 'd', ' ', 't', 'i', 'm', 'e']
            },
        ),
{
    let mut term = s.clone();
    proof {
        reveal_strlit("[number]");
        reveal_strlit("advance time");
        reveal_strlit("rewind time");
    }
    push_all(&mut term, &lit("[number]"));
    let summary = if s[0] == '+' {
        lit("advance time")
    } else {
        lit("rewind time")
    };
    AutocompleteSuggestion::from_strings(string_of(&term), string_of(&summary))
}

/// The reply when the time cannot be moved by an interval.
pub open spec fn unable_text(advance: bool, i: Interval) -> Seq<char> {
    if advance {
        seq![
            'U',
            'n',
            'a',
            'b',
            'l',
            'e',
            ' ',
            't',
            'o',
            ' ',
            'a',
            'd',
            'v',
            'a',
            'n',
            'c',
            'e',
            ' ',
            't',
            'i',
            'm',
            'e',
            ' ',
            'b',
            'y',
            ' ',
        ] + long_text(i) + seq!['.']
    } else {
        seq![
            'U',
            'n',
            'a',
            'b',
            'l',
            'e',
            ' ',
            't',
            'o',
            ' ',
            'r',
            'e',
            'w',
            'i',
            'n',
            'd',
            ' ',
            't',
            'i',
            'm',
            'e',
            ' ',
            'b',
            'y',
            ' ',
        ] + long_text(i) + seq!['.']
    }
}

/// The reply when the time cannot be moved by an interval.
fn unable_message(advance: bool, i: &Interval) -> (r: String)
    ensures
        r@ == unable_text(advance, *i),
{
    let mut v = if advance {
        proof {
            reveal_strlit("Unable to advance time by ");
        }
        lit("Unable to advance time by ")
    } else {
        proof {
            reveal_strlit("Unable to rewind time by ");
        }
        lit("Unable to rewind time by ")
    };
    push_all(&mut v, &chars_of(i.display_long().to_string().as_str()));
    v.push('.');
    assert(v@ =~= unable_text(advance, *i));
    string_of(&v)
}

/// Adds the suggestion of completing `input` with `suffix`, if the completed text reads as an
/// interval after its sign.
fn push_suffix_suggestion(
    out: &mut Vec<AutocompleteSuggestion>,
    input: &Vec<char>,
    unit: Option<char>,
)
    requires
        input@.len() > 0,
        input@[0] == '+' || input@[0] == '-',
    ensures
        suggestions_text(final(out)@) == suggestions_text(old(out)@) + suffix_suggestion(
            input@,
            unit_seq(unit),
        ),
{
    let ghost suffix = unit_seq(unit);
    let mut term = input.clone();
    match unit {
        Some(c) => term.push(c),
        None => {},
    }
    assert(term@ =~= input@ + suffix);
    let rest = sub_chars(&term, 1, term.len());
    assert(rest@ =~= (input@ + suffix).drop_first());
    match Interval::parse_chars(&rest) {
        Ok(interval) => {
            let mut summary = if input[0] == '+' {
                proof {
                    reveal_strlit("advance time by ");
                }
                lit("advance time by ")
            } else {
                proof {
                    reveal_strlit("rewind time by ");
                }
                lit("rewind time by ")
            };
            push_all(&mut summary, &chars_of(interval.display_long().to_string().as_str()));
            assert(summary@ =~= interval_summary(input@[0], interval));
            let ghost before = out@;
            let sug = AutocompleteSuggestion::from_strings(string_of(&term), string_of(&summary));
            proof {
                lemma_suggestions_text_push(before, sug);
            }
            out.push(sug);
            assert(suggestions_text(out@) =~= suggestions_text(before) + suffix_suggestion(
                input@,
                suffix,
            ));
        },
        Err(_) => {
            assert(suggestions_text(old(out)@) + suffix_suggestion(input@, suffix)
                =~= suggestions_text(out@));
        },
    }
}

/// Adds the suggestion of `word` when it begins with `input`, ignoring ASCII case.
fn push_word_suggestion(out: &mut Vec<AutocompleteSuggestion>, input: &Vec<char>, word: &str)
    ensures
        suggestions_text(final(out)@) == suggestions_text(old(out)@) + word_suggestion(
            input@,
            word@,
        ),
{
    let w = chars_of(word);
    if starts_with_ci(&w, input) {
        let summary = lit("get the current time");
        proof {
            reveal_strlit("get the current time");
            assert(summary@ =~= seq![
                'g',
                'e',
                't',
                ' ',
                't',
                'h',
                'e',
                ' ',
                'c',
                'u',
                'r',
                'r',
                'e',
                'n',
                't',
                ' ',
                't',
                'i',
                'm',
                'e',
            ]);
        }
        let ghost before = out@;
        let sug = AutocompleteSuggestion::from_strings(string_of(&w), string_of(&summary));
        proof {
            lemma_suggestions_text_push(before, sug);
        }
        out.push(sug);
        assert(suggestions_text(out@) =~= suggestions_text(before) + word_suggestion(
            input@,
            word@,
        ));
    } else {
        assert(suggestions_text(old(out)@) + word_suggestion(input@, word@) =~= suggestions_text(
            out@,
        ));
    }
}

/// The canonical text of a command parses back to that command, as the canonical match and with
/// no fuzzy matches, whenever an interval in it has no negative field.
pub proof fn lemma_display_parses(c: TimeCommand)
    requires
        c matches TimeCommand::Add { interval } ==> interval.days >= 0 && interval.hours >= 0
            && interval.minutes >= 0 && interval.seconds >= 0 && interval.rounds >= 0,
        c matches TimeCommand::Sub { interval } ==> interval.days >= 0 && interval.hours >= 0
            && interval.minutes >= 0 && interval.seconds >= 0 && interval.rounds >= 0,
    ensures
        parse_spec(display_spec(c)) == (Some(c), Seq::<TimeCommand>::empty()),
{
    let s = display_spec(c);
    match c {
        TimeCommand::Add { interval } => {
            lemma_short_text_parses(interval);
            assert(s.drop_first() =~= short_text(interval));
            assert(!char_eq_ci_spec(s[0], now_text()[0]));
            assert(!char_eq_ci_spec(s[0], time_text()[0]));
            assert(!char_eq_ci_spec(s[0], date_text()[0]));
        },
        TimeCommand::Sub { interval } => {
            lemma_short_text_parses(interval);
            assert(s.drop_first() =~= short_text(interval));
            assert(!char_eq_ci_spec(s[0], now_text()[0]));
            assert(!char_eq_ci_spec(s[0], time_text()[0]));
            assert(!char_eq_ci_spec(s[0], date_text()[0]));
        },
        TimeCommand::Now => {
            assert(eq_ci_spec(s, now_text()));
        },
    }
}

} // verus!
