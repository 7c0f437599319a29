//! Commands and what parsing and autocompletion give for them.

pub mod app;
pub mod autocomplete;
pub mod runnable;
pub mod world;

pub use app::AppCommand;
pub use autocomplete::autocomplete_phrase;
pub use runnable::{AutocompleteSuggestion, CommandMatches};
pub use world::WorldCommand;

use self::app::{app_display_spec, app_parse_spec, commands_view, option_view, AppCommandView};
use self::runnable::{converts, converts_all, suggestion_text, suggestions_text};
use crate::storage::command::{
    redo_summary_spec, storage_suggestions_spec, undo_summary_spec, storage_canonical_spec, storage_commands_view, storage_display_spec, StorageCommandView,
};
use crate::sorting::{concat, lines_view, push_lines, sort_lines, sorted};
use crate::storage::repository::lookup_name_spec;
use crate::storage::{DataStore, Repository, StorageCommand};
use crate::text::{chars_of, fold_case, push_all, string_of};
use crate::time::command::{display_spec, now_text, parse_spec};
use crate::time::TimeCommand;
use vstd::prelude::*;

verus! {

/// A command of any kind.
#[derive(Clone, Debug, Eq, PartialEq)]
pub enum CommandType {
    App(AppCommand),
    Storage(StorageCommand),
    Time(TimeCommand),
}

/// The value of a [`CommandType`].
pub enum CommandTypeView {
    App(AppCommandView),
    Storage(StorageCommandView),
    Time(TimeCommand),
}

impl View for CommandType {
    type V = CommandTypeView;

    open spec fn view(&self) -> CommandTypeView {
        match self {
            CommandType::App(c) => CommandTypeView::App(c@),
            CommandType::Storage(c) => CommandTypeView::Storage(c@),
            CommandType::Time(c) => CommandTypeView::Time(*c),
        }
    }
}

/// The values of some commands.
pub open spec fn types_view(v: Seq<CommandType>) -> Seq<CommandTypeView> {
    v.map_values(|c: CommandType| c@)
}

/// The value of an optional command.
pub open spec fn type_option_view(o: Option<CommandType>) -> Option<CommandTypeView> {
    match o {
        Some(c) => Some(c@),
        None => None,
    }
}

impl From<AppCommand> for CommandType {
    fn from(c: AppCommand) -> (r: CommandType)
        ensures
            r == CommandType::App(c),
    {
        CommandType::App(c)
    }
}

impl vstd::std_specs::convert::FromSpecImpl<AppCommand> for CommandType {
    open spec fn obeys_from_spec() -> bool {
        true
    }

    open spec fn from_spec(v: AppCommand) -> CommandType {
        CommandType::App(v)
    }
}

impl From<StorageCommand> for CommandType {
    fn from(c: StorageCommand) -> (r: CommandType)
        ensures
            r == CommandType::Storage(c),
    {
        CommandType::Storage(c)
    }
}

impl vstd::std_specs::convert::FromSpecImpl<StorageCommand> for CommandType {
    open spec fn obeys_from_spec() -> bool {
        true
    }

    open spec fn from_spec(v: StorageCommand) -> CommandType {
        CommandType::Storage(v)
    }
}

impl From<TimeCommand> for CommandType {
    fn from(c: TimeCommand) -> (r: CommandType)
        ensures
            r == CommandType::Time(c),
    {
        CommandType::Time(c)
    }
}

impl vstd::std_specs::convert::FromSpecImpl<TimeCommand> for CommandType {
    open spec fn obeys_from_spec() -> bool {
        true
    }

    open spec fn from_spec(v: TimeCommand) -> CommandType {
        CommandType::Time(v)
    }
}

/// The text of a command, as each kind writes it.
pub open spec fn command_text(c: CommandTypeView) -> Seq<char> {
    match c {
        CommandTypeView::App(a) => app_display_spec(a),
        CommandTypeView::Storage(s) => storage_display_spec(s),
        CommandTypeView::Time(t) => display_spec(t),
    }
}

impl CommandType {
    /// The text of the command.
    pub fn to_string(&self) -> (r: String)
        ensures
            r@ == command_text(self@),
    {
        match self {
            CommandType::App(c) => c.to_string(),
            CommandType::Storage(c) => c.to_string(),
            CommandType::Time(c) => c.to_string(),
        }
    }
}

/// What parsing `input` gives, as (canonical match, fuzzy matches), where `rolls` says whether
/// `input` rolls as a dice formula and `found` whether a thing of that name exists: the
/// canonical match of whichever kind of command has one (no two do), and the fuzzy matches of
/// the application's, the journal's and the time's commands, in that order.
pub open spec fn command_parse_spec(input: Seq<char>, rolls: bool, found: bool) -> (
    Option<CommandTypeView>,
    Seq<CommandTypeView>,
) {
    let app = app_parse_spec(input, rolls);
    let storage = storage_canonical_spec(input);
    let time = parse_spec(input);
    let canonical = if app.0 is Some {
        Some(CommandTypeView::App(app.0->0))
    } else if storage is Some {
        Some(CommandTypeView::Storage(storage->0))
    } else if time.0 is Some {
        Some(CommandTypeView::Time(time.0->0))
    } else {
        None
    };
    let storage_fuzzy: Seq<CommandTypeView> = if found {
        seq![CommandTypeView::Storage(StorageCommandView::Load(input))]
    } else {
        Seq::empty()
    };
    (
        canonical,
        app.1.map_values(|a: AppCommandView| CommandTypeView::App(a)) + storage_fuzzy
            + time.1.map_values(|t: TimeCommand| CommandTypeView::Time(t)),
    )
}

/// The first characters of an input with a canonical match, folded to lower case, tell which
/// kind of command it is: no input has a canonical match of two kinds.
pub proof fn lemma_canonical_kinds_disjoint(input: Seq<char>, rolls: bool)
    ensures
        app_parse_spec(input, rolls).0 is Some ==> storage_canonical_spec(input) is None,
        app_parse_spec(input, rolls).0 is Some ==> parse_spec(input).0 is None,
        storage_canonical_spec(input) is Some ==> parse_spec(input).0 is None,
{
    reveal_strlit("changelog");
    reveal_strlit("debug");
    reveal_strlit("help");
    reveal_strlit("roll ");
    reveal_strlit("delete ");
    reveal_strlit("load ");
    reveal_strlit("save ");
    reveal_strlit("journal");
    reveal_strlit("undo");
    reveal_strlit("redo");
    reveal_strlit("export");
    reveal_strlit("import");
    if input.len() >= 5 {
        assert(input.take(5)[0] == input[0]);
        assert(input.take(5)[1] == input[1]);
        assert(input.take(5)[2] == input[2]);
    }
    if input.len() >= 7 {
        assert(input.take(7)[0] == input[0]);
        assert(input.take(7)[1] == input[1]);
        assert(input.take(7)[2] == input[2]);
    }
    assert(fold_case('+') == '+' as int);
    assert(fold_case('-') == '-' as int);
    assert(now_text() == seq!['n', 'o', 'w']);
}

/// What parsing an input gave: the matches of every kind of command.
#[derive(Clone, Debug, Eq, PartialEq)]
pub struct Command {
    matches: CommandMatches<CommandType>,
}

impl View for Command {
    type V = (Option<CommandTypeView>, Seq<CommandTypeView>);

    closed spec fn view(&self) -> (Option<CommandTypeView>, Seq<CommandTypeView>) {
        (type_option_view(self.matches.canonical_match), types_view(self.matches.fuzzy_matches@))
    }
}

/// The command that a parse stands for: its canonical match, else its only fuzzy match.
pub open spec fn command_type_spec(m: (Option<CommandTypeView>, Seq<CommandTypeView>)) -> Option<
    CommandTypeView,
> {
    if m.0 is Some {
        m.0
    } else if m.1.len() == 1 {
        Some(m.1[0])
    } else {
        None
    }
}

impl From<CommandMatches<CommandType>> for Command {
    fn from(matches: CommandMatches<CommandType>) -> (r: Command)
        ensures
            r@ == (type_option_view(matches.canonical_match), types_view(matches.fuzzy_matches@)),
    {
        Command { matches }
    }
}

impl vstd::std_specs::convert::FromSpecImpl<CommandMatches<CommandType>> for Command {
    open spec fn obeys_from_spec() -> bool {
        false
    }

    open spec fn from_spec(v: CommandMatches<CommandType>) -> Command {
        vstd::pervasive::arbitrary()
    }
}

impl Command {
    /// The matches.
    pub fn matches(&self) -> (r: &CommandMatches<CommandType>)
        ensures
            type_option_view(r.canonical_match) == self@.0,
            types_view(r.fuzzy_matches@) == self@.1,
    {
        &self.matches
    }

    /// The command that the parse stands for, if any: see [`command_type_spec`].
    pub fn get_type(&self) -> (r: Option<&CommandType>)
        ensures
            match r {
                Some(c) => command_type_spec(self@) == Some(c@),
                None => command_type_spec(self@) is None,
            },
    {
        match &self.matches.canonical_match {
            Some(c) => Some(c),
            None => {
                if self.matches.fuzzy_matches.len() == 1 {
                    Some(&self.matches.fuzzy_matches[0])
                } else {
                    None
                }
            },
        }
    }

    /// Parses `input` as a command of every kind: see [`command_parse_spec`]. Whether the input
    /// rolls as a dice formula is found by rolling it once (so it rests on chance), and whether a
    /// thing of that name exists by looking it up in `repository`.
    pub fn parse_input_irrefutable<D: DataStore>(input: &str, repository: &Repository<D>) -> (r:
        Command)
        ensures
            exists|rolls: bool, found: bool|
                #![trigger command_parse_spec(input@, rolls, found)]
                r@ == command_parse_spec(input@, rolls, found) && (found ==> exists|rec|
                    lookup_name_spec(repository@, input@, Ok(rec))) && (!found ==> exists|e|
                    lookup_name_spec(repository@, input@, Err(e))),
    {
        let app = AppCommand::parse_input(input);
        let storage = StorageCommand::parse_input(input, repository);
        let time = TimeCommand::parse_input(input);
        let ghost rolls = (option_view(app.canonical_match), commands_view(app.fuzzy_matches@))
            == app_parse_spec(input@, true);
        let ghost found = storage.fuzzy_matches@.len() > 0;
        proof {
            lemma_canonical_kinds_disjoint(input@, rolls);
            if found {
                assert(storage_commands_view(storage.fuzzy_matches@).len() > 0);
            } else {
                assert(storage_commands_view(storage.fuzzy_matches@) =~= Seq::<
                    StorageCommandView,
                >::empty());
            }
        }
        let r0 = CommandMatches::<CommandType>::default();
        let r1 = r0.union(app);
        let ghost f1 = r1.fuzzy_matches@;
        let r2 = r1.union(storage);
        let ghost f2 = r2.fuzzy_matches@;
        let r3 = r2.union(time);
        let r = Command { matches: r3 };
        proof {
            let spec = command_parse_spec(input@, rolls, found);
            let f = r@.1;
            let f3 = r3.fuzzy_matches@;
            let a = app.fuzzy_matches@;
            let st = storage.fuzzy_matches@;
            let t = time.fuzzy_matches@;
            let app_spec = app_parse_spec(input@, rolls);
            let time_spec = parse_spec(input@);
            let storage_fuzzy: Seq<CommandTypeView> = if found {
                seq![CommandTypeView::Storage(StorageCommandView::Load(input@))]
            } else {
                Seq::empty()
            };
            assert(commands_view(a) == app_spec.1);
            assert(t == time_spec.1);
            assert(f.len() == spec.1.len());
            assert forall|k: int| 0 <= k < f.len() implies f[k] == spec.1[k] by {
                let part1 = app_spec.1.map_values(|x: AppCommandView| CommandTypeView::App(x));
                let part3 = time_spec.1.map_values(|x: TimeCommand| CommandTypeView::Time(x));
                assert(spec.1 == part1 + storage_fuzzy + part3);
                if k < a.len() {
                    assert(commands_view(a)[k] == a[k]@);
                    assert(spec.1[k] == part1[k]);
                    assert(f3[k] == f2.take(f1.len() as int)[k]);
                    assert(f1.skip(0)[k] == f1[k]);
                    assert(converts(a[k], f1.skip(0)[k]));
                    assert(f3[k] == CommandType::App(a[k]));
                } else if k < a.len() + st.len() {
                    assert(f3[k] == f2[k]);
                    assert(f2.skip(f1.len() as int)[k - a.len()] == f2[k]);
                    assert(converts(st[k - a.len()], f2.skip(f1.len() as int)[k - a.len()]));
                    assert(f3[k] == CommandType::Storage(st[k - a.len()]));
                    assert(storage_commands_view(st)[k - a.len()] == st[k - a.len()]@);
                    assert(spec.1[k] == storage_fuzzy[k - a.len()]);
                } else {
                    let j = k - a.len() - st.len();
                    assert(f3.skip(f2.len() as int)[j] == f3[k]);
                    assert(converts(t[j], f3.skip(f2.len() as int)[j]));
                    assert(f3[k] == CommandType::Time(t[j]));
                    assert(spec.1[k] == part3[j]);
                }
            }
            assert(f =~= spec.1);
        }
        r
    }
}

/// The line that offers a command among several: `* ` and the command's text in backquotes, on
/// a line of its own.
pub open spec fn offer_line(c: CommandTypeView) -> Seq<char> {
    "\n* `"@ + command_text(c) + "`"@
}

/// The lines that offer each of `cs`, sorted.
pub open spec fn offers(cs: Seq<CommandTypeView>) -> Seq<char> {
    concat(sort_lines(cs.map_values(|c: CommandTypeView| offer_line(c))))
}

/// The note added to the reply of a canonical match when other commands match too.
pub open spec fn other_note(cs: Seq<CommandTypeView>) -> Seq<char> {
    "\n\n! There are other possible interpretations of this command. Did you mean:\n"@ + offers(
        cs,
    )
}

/// The reply when several commands match and none canonically.
pub open spec fn several_text(cs: Seq<CommandTypeView>) -> Seq<char> {
    "There are several possible interpretations of this command. Did you mean:\n"@ + offers(cs)
}

/// The reply when no command matches `input`.
pub open spec fn unknown_text(input: Seq<char>) -> Seq<char> {
    "Unknown command: '"@ + input + "'"@
}

/// What to do with a parsed input: run a command, adding a note to its reply, or reply at once.
pub enum Plan {
    Run { command: CommandType, note: Option<String> },
    Reply(Result<String, String>),
}

/// The value of a [`Plan`].
pub enum PlanView {
    Run { command: CommandTypeView, note: Option<Seq<char>> },
    Reply(Result<Seq<char>, Seq<char>>),
}

impl View for Plan {
    type V = PlanView;

    open spec fn view(&self) -> PlanView {
        match self {
            Plan::Run { command, note } => PlanView::Run {
                command: command@,
                note: match note {
                    Some(n) => Some(n@),
                    None => None,
                },
            },
            Plan::Reply(Ok(s)) => PlanView::Reply(Ok(s@)),
            Plan::Reply(Err(s)) => PlanView::Reply(Err(s@)),
        }
    }
}

/// What to do with the parse `m` of `input`: a canonical match runs, noting the fuzzy matches
/// where there are any; otherwise an only fuzzy match runs, none is an unknown command, and
/// several are offered to choose from.
pub open spec fn plan_spec(m: (Option<CommandTypeView>, Seq<CommandTypeView>), input: Seq<char>) -> PlanView {
    match m.0 {
        Some(c) => PlanView::Run {
            command: c,
            note: if m.1.len() > 0 {
                Some(other_note(m.1))
            } else {
                None
            },
        },
        None => if m.1.len() == 0 {
            PlanView::Reply(Err(unknown_text(input)))
        } else if m.1.len() == 1 {
            PlanView::Run { command: m.1[0], note: None }
        } else {
            PlanView::Reply(Err(several_text(m.1)))
        },
    }
}

/// The reply of a command with `note` added, whether it succeeded or failed.
pub open spec fn noted_spec(result: Result<Seq<char>, Seq<char>>, note: Option<Seq<char>>) -> Result<
    Seq<char>,
    Seq<char>,
> {
    match note {
        None => result,
        Some(n) => match result {
            Ok(s) => Ok(s + n),
            Err(s) => Err(s + n),
        },
    }
}

/// The sorted lines that offer each of `v`, one after the other: see [`offers`].
fn offer_lines(v: &Vec<CommandType>) -> (r: Vec<char>)
    ensures
        r@ == offers(types_view(v@)),
{
    let ghost cs = types_view(v@);
    let mut lines: Vec<Vec<char>> = Vec::new();
    let mut i: usize = 0;
    while i < v.len()
        invariant
            i <= v@.len(),
            cs == types_view(v@),
            lines_view(lines@) == cs.take(i as int).map_values(|c: CommandTypeView| offer_line(c)),
        decreases v.len() - i,
    {
        let mut line = chars_of("\n* `");
        push_all(&mut line, &chars_of(v[i].to_string().as_str()));
        push_all(&mut line, &chars_of("`"));
        proof {
            assert(line@ == offer_line(cs[i as int]));
        }
        let ghost before = lines@;
        let ghost lv = line@;
        lines.push(line);
        assert(lines_view(lines@) =~= lines_view(before).push(lv));
        assert(cs.take(i + 1).map_values(|c: CommandTypeView| offer_line(c)) =~= cs.take(
            i as int,
        ).map_values(|c: CommandTypeView| offer_line(c)).push(offer_line(cs[i as int])));
        i = i + 1;
    }
    assert(cs.take(v@.len() as int) =~= cs);
    let lines = sorted(lines);
    let mut r: Vec<char> = Vec::new();
    push_lines(&mut r, &lines);
    assert(r@ =~= offers(cs));
    r
}

impl Command {
    /// The parse with `c` as its canonical match in place of any other, and the same fuzzy
    /// matches: what an alias of the input makes of it.
    pub fn with_canonical(self, c: CommandType) -> (r: Command)
        ensures
            r@ == (Some(c@), self@.1),
    {
        let mut matches = self.matches;
        matches.canonical_match = Some(c);
        Command { matches }
    }

    /// What to do with the parse of `input`: see [`plan_spec`].
    pub fn plan(self, input: &str) -> (r: Plan)
        ensures
            r@ == plan_spec(self@, input@),
    {
        let ghost m = self@;
        let fuzzy = self.matches.fuzzy_matches;
        match self.matches.canonical_match {
            Some(command) => {
                let note = if fuzzy.len() > 0 {
                    let mut v = chars_of(
                        "\n\n! There are other possible interpretations of this command. Did you mean:\n",
                    );
                    push_all(&mut v, &offer_lines(&fuzzy));
                    Some(string_of(&v))
                } else {
                    None
                };
                Plan::Run { command, note }
            },
            None => {
                if fuzzy.len() == 0 {
                    let mut v = chars_of("Unknown command: '");
                    push_all(&mut v, &chars_of(input));
                    push_all(&mut v, &chars_of("'"));
                    Plan::Reply(Err(string_of(&v)))
                } else if fuzzy.len() == 1 {
                    let mut fuzzy = fuzzy;
                    let command = fuzzy.remove(0);
                    Plan::Run { command, note: None }
                } else {
                    let mut v = chars_of(
                        "There are several possible interpretations of this command. Did you mean:\n",
                    );
                    push_all(&mut v, &offer_lines(&fuzzy));
                    Plan::Reply(Err(string_of(&v)))
                }
            },
        }
    }
}

/// The reply of a command with `note` added: see [`noted_spec`].
pub fn noted(result: Result<String, String>, note: Option<String>) -> (r: Result<String, String>)
    ensures
        crate::time::command::reply_view(r) == noted_spec(
            crate::time::command::reply_view(result),
            match note {
                Some(n) => Some(n@),
                None => None,
            },
        ),
{
    match note {
        None => result,
        Some(n) => match result {
            Ok(s) => {
                let mut v = chars_of(s.as_str());
                push_all(&mut v, &chars_of(n.as_str()));
                Ok(string_of(&v))
            },
            Err(s) => {
                let mut v = chars_of(s.as_str());
                push_all(&mut v, &chars_of(n.as_str()));
                Err(string_of(&v))
            },
        },
    }
}

impl Command {
    /// The suggestions of every kind of command for `input`: those of the application's, the
    /// journal's and the time's commands, in that order.
    pub fn autocomplete<D: DataStore>(input: &str, repository: &Repository<D>) -> (r: Vec<
        AutocompleteSuggestion,
    >)
        ensures
            exists|names: Seq<(Seq<char>, Seq<char>)>|
                #[trigger] crate::storage::command::names_suggested(repository@, input@, names)
                    && suggestions_text(r@) == self::app::app_suggestions_spec(input@)
                    + storage_suggestions_spec(
                    input@,
                    undo_summary_spec(repository@.undo),
                    redo_summary_spec(repository@.redo),
                ) + names + crate::time::command::autocomplete_spec(input@),
    {
        let mut r = AppCommand::autocomplete(input);
        let mut storage = StorageCommand::autocomplete(input, repository);
        let mut time = TimeCommand::autocomplete(input);
        let ghost (a, b, c) = (r@, storage@, time@);
        let ghost names = choose|names: Seq<(Seq<char>, Seq<char>)>|
            #[trigger] crate::storage::command::names_suggested(repository@, input@, names)
                && suggestions_text(b) == storage_suggestions_spec(
                input@,
                undo_summary_spec(repository@.undo),
                redo_summary_spec(repository@.redo),
            ) + names;
        r.append(&mut storage);
        r.append(&mut time);
        assert(r@ == a + b + c);
        assert(suggestions_text(a + b + c) =~= suggestions_text(a) + suggestions_text(b)
            + suggestions_text(c));
        assert(suggestions_text(r@) =~= self::app::app_suggestions_spec(input@)
            + storage_suggestions_spec(
            input@,
            undo_summary_spec(repository@.undo),
            redo_summary_spec(repository@.redo),
        ) + names + crate::time::command::autocomplete_spec(input@));
        r
    }
}

impl Command {
    /// The parse of `input` as the one canonical match of a command list: see
    /// [`Command::parse_input_irrefutable`].
    pub fn parse_input<D: DataStore>(input: &str, repository: &Repository<D>) -> (r: CommandMatches<
        Command,
    >)
        ensures
            r.fuzzy_matches@.len() == 0,
            r.canonical_match matches Some(c) && exists|rolls: bool, found: bool|
                #![trigger command_parse_spec(input@, rolls, found)]
                c@ == command_parse_spec(input@, rolls, found) && (found ==> exists|rec|
                    lookup_name_spec(repository@, input@, Ok(rec))) && (!found ==> exists|e|
                    lookup_name_spec(repository@, input@, Err(e))),
    {
        CommandMatches::new_canonical(Self::parse_input_irrefutable(input, repository))
    }
}

/// The text of a command parses back to that command, as the canonical match, whatever the
/// dice and the journal say, provided an interval in it has no negative field (see
/// [`crate::time::command::lemma_display_parses`]).
pub proof fn lemma_command_display_parses(c: CommandTypeView, rolls: bool, found: bool)
    requires
        c matches CommandTypeView::Time(TimeCommand::Add { interval }) ==> interval.days >= 0
            && interval.hours >= 0 && interval.minutes >= 0 && interval.seconds >= 0
            && interval.rounds >= 0,
        c matches CommandTypeView::Time(TimeCommand::Sub { interval }) ==> interval.days >= 0
            && interval.hours >= 0 && interval.minutes >= 0 && interval.seconds >= 0
            && interval.rounds >= 0,
    ensures
        command_parse_spec(command_text(c), rolls, found).0 == Some(c),
{
    let s = command_text(c);
    lemma_canonical_kinds_disjoint(s, rolls);
    match c {
        CommandTypeView::App(a) => self::app::lemma_app_display_parses(a, rolls),
        CommandTypeView::Storage(st) => crate::storage::command::lemma_storage_display_parses(st),
        CommandTypeView::Time(t) => crate::time::command::lemma_display_parses(t),
    }
}

} // verus!
