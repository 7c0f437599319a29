//! The commands that work on the journal: `delete`, `export`, `import`, `journal`, `load`,
//! `redo`, `save` and `undo`.

use super::data_store::DataStore;
use super::repository::{
    found_by_name_start, journal_listed, lookup_name_spec, redo_text, saved_then_starting, starting_with, undo_text,
    ErrorView, Record, RecordStatus, RecordView, Repository, RepositoryView,
};
use super::render::kind_word;
use super::thing::{name_text, ThingKind};
use crate::app::command::runnable::{
    lemma_suggestions_text_push, suggestions_text, AutocompleteSuggestion, CommandMatches,
};
use crate::text::{
    chars_of, eq_ci, eq_ci_spec, eq_lit, push_all, starts_with_ci, starts_with_ci_spec, string_of,
    strip_prefix_ci, sub_chars,
};
use vstd::prelude::*;

verus! {

/// A command that works on the journal.
#[derive(Clone, Debug, Eq, PartialEq)]
pub enum StorageCommand {
    Delete { name: String },
    Export,
    Import,
    Journal,
    Load { name: String },
    Redo,
    Save { name: String },
    Undo,
}

/// The value of a [`StorageCommand`].
pub enum StorageCommandView {
    Delete(Seq<char>),
    Export,
    Import,
    Journal,
    Load(Seq<char>),
    Redo,
    Save(Seq<char>),
    Undo,
}

impl View for StorageCommand {
    type V = StorageCommandView;

    open spec fn view(&self) -> StorageCommandView {
        match self {
            StorageCommand::Delete { name } => StorageCommandView::Delete(name@),
            StorageCommand::Export => StorageCommandView::Export,
            StorageCommand::Import => StorageCommandView::Import,
            StorageCommand::Journal => StorageCommandView::Journal,
            StorageCommand::Load { name } => StorageCommandView::Load(name@),
            StorageCommand::Redo => StorageCommandView::Redo,
            StorageCommand::Save { name } => StorageCommandView::Save(name@),
            StorageCommand::Undo => StorageCommandView::Undo,
        }
    }
}

/// The values of some commands.
pub open spec fn storage_commands_view(v: Seq<StorageCommand>) -> Seq<StorageCommandView> {
    v.map_values(|c: StorageCommand| c@)
}

/// The canonical match for `input`: `delete`, `load` or `save` and a name, or one of the words
/// `journal`, `undo`, `redo`, `export` and `import` (ignoring ASCII case).
pub open spec fn storage_canonical_spec(input: Seq<char>) -> Option<StorageCommandView> {
    if starts_with_ci_spec(input, "delete "@) {
        Some(StorageCommandView::Delete(input.skip(7)))
    } else if starts_with_ci_spec(input, "load "@) {
        Some(StorageCommandView::Load(input.skip(5)))
    } else if starts_with_ci_spec(input, "save "@) {
        Some(StorageCommandView::Save(input.skip(5)))
    } else if eq_ci_spec(input, "journal"@) {
        Some(StorageCommandView::Journal)
    } else if eq_ci_spec(input, "undo"@) {
        Some(StorageCommandView::Undo)
    } else if eq_ci_spec(input, "redo"@) {
        Some(StorageCommandView::Redo)
    } else if eq_ci_spec(input, "export"@) {
        Some(StorageCommandView::Export)
    } else if eq_ci_spec(input, "import"@) {
        Some(StorageCommandView::Import)
    } else {
        None
    }
}

/// The text of a command, which parses back to it.
pub open spec fn storage_display_spec(c: StorageCommandView) -> Seq<char> {
    match c {
        StorageCommandView::Delete(name) => "delete "@ + name,
        StorageCommandView::Export => "export"@,
        StorageCommandView::Import => "import"@,
        StorageCommandView::Journal => "journal"@,
        StorageCommandView::Load(name) => "load "@ + name,
        StorageCommandView::Redo => "redo"@,
        StorageCommandView::Save(name) => "save "@ + name,
        StorageCommandView::Undo => "undo"@,
    }
}

/// The suggestions of the commands themselves for `input`: those of `delete`, `export`,
/// `import`, `journal`, `load` and `save` whose word begins with it, then `undo` and `redo`
/// with what they would do (`undo_summary` and `redo_summary`).
pub open spec fn storage_suggestions_spec(
    input: Seq<char>,
    undo_summary: Seq<char>,
    redo_summary: Seq<char>,
) -> Seq<(Seq<char>, Seq<char>)> {
    let table: Seq<(Seq<char>, Seq<char>, Seq<char>)> = seq![
        ("delete"@, "delete [name]"@, "remove an entry from journal"@),
        ("export"@, "export"@, "export the journal contents"@),
        ("import"@, "import"@, "import a journal backup"@),
        ("journal"@, "journal"@, "list journal contents"@),
        ("load"@, "load [name]"@, "load an entry"@),
        ("save"@, "save [name]"@, "save an entry to journal"@),
        ("undo"@, "undo"@, undo_summary),
        ("redo"@, "redo"@, redo_summary),
    ];
    suggestions_matching(table, input)
}

/// The term and summary of each entry of `table` whose word begins with `input` (ignoring ASCII
/// case), in order.
pub open spec fn suggestions_matching(
    table: Seq<(Seq<char>, Seq<char>, Seq<char>)>,
    input: Seq<char>,
) -> Seq<(Seq<char>, Seq<char>)>
    decreases table.len(),
{
    if table.len() == 0 {
        Seq::empty()
    } else {
        let rest = suggestions_matching(table.drop_last(), input);
        if starts_with_ci_spec(table.last().0, input) {
            rest.push((table.last().1, table.last().2))
        } else {
            rest
        }
    }
}

/// The summary of the `undo` suggestion: what undoing the newest change would undo.
pub open spec fn undo_summary_spec(undo: Seq<super::repository::ChangeView>) -> Seq<char> {
    if undo.len() > 0 {
        "undo "@ + undo_text(undo.last())
    } else {
        "Nothing to undo."@
    }
}

/// The summary of the `redo` suggestion: what redoing would do.
pub open spec fn redo_summary_spec(redo: Option<super::repository::ChangeView>) -> Seq<char> {
    match redo {
        Some(c) => "redo "@ + redo_text(c),
        None => "Nothing to redo."@,
    }
}

impl StorageCommand {
    /// What parsing `input` gives, where `found` says whether a thing of that name exists: see
    /// [`storage_canonical_spec`]; loading the thing is a fuzzy match where it exists.
    pub fn parse_input_with(input: &str, found: bool) -> (r: CommandMatches<StorageCommand>)
        ensures
            match (r.canonical_match, storage_canonical_spec(input@)) {
                (Some(c), Some(cv)) => c@ == cv,
                (None, None) => true,
                _ => false,
            },
            storage_commands_view(r.fuzzy_matches@) == if found {
                seq![StorageCommandView::Load(input@)]
            } else {
                Seq::<StorageCommandView>::empty()
            },
    {
        let mut matches: CommandMatches<StorageCommand> = CommandMatches::default();
        if found {
            matches.push_fuzzy(StorageCommand::Load { name: input.to_owned() });
        }
        assert(storage_commands_view(matches.fuzzy_matches@) =~= if found {
            seq![StorageCommandView::Load(input@)]
        } else {
            Seq::<StorageCommandView>::empty()
        });
        let ghost fuzzy = matches.fuzzy_matches@;
        let s = chars_of(input);
        proof {
            reveal_strlit("delete ");
            reveal_strlit("load ");
            reveal_strlit("save ");
        }
        if let Some(name) = strip_prefix_ci(&s, "delete ") {
            matches.push_canonical(StorageCommand::Delete { name: string_of(&name) });
        } else if let Some(name) = strip_prefix_ci(&s, "load ") {
            matches.push_canonical(StorageCommand::Load { name: string_of(&name) });
        } else if let Some(name) = strip_prefix_ci(&s, "save ") {
            matches.push_canonical(StorageCommand::Save { name: string_of(&name) });
        } else if eq_ci(&s, &chars_of("journal")) {
            matches.push_canonical(StorageCommand::Journal);
        } else if eq_ci(&s, &chars_of("undo")) {
            matches.push_canonical(StorageCommand::Undo);
        } else if eq_ci(&s, &chars_of("redo")) {
            matches.push_canonical(StorageCommand::Redo);
        } else if eq_ci(&s, &chars_of("export")) {
            matches.push_canonical(StorageCommand::Export);
        } else if eq_ci(&s, &chars_of("import")) {
            matches.push_canonical(StorageCommand::Import);
        }
        assert(matches.fuzzy_matches@ == fuzzy);
        matches
    }

    /// What parsing `input` gives in `repository`: a thing of that name is looked up (see
    /// [`lookup_name_spec`]), and what [`StorageCommand::parse_input_with`] gives for whether it
    /// was found is returned.
    pub fn parse_input<D: DataStore>(input: &str, repository: &Repository<D>) -> (r: CommandMatches<
        StorageCommand,
    >)
        ensures
            match (r.canonical_match, storage_canonical_spec(input@)) {
                (Some(c), Some(cv)) => c@ == cv,
                (None, None) => true,
                _ => false,
            },
            storage_commands_view(r.fuzzy_matches@) == seq![StorageCommandView::Load(input@)]
                ==> exists|rec| lookup_name_spec(repository@, input@, Ok(rec)),
            storage_commands_view(r.fuzzy_matches@) == Seq::<StorageCommandView>::empty()
                ==> exists|e| lookup_name_spec(repository@, input@, Err(e)),
            storage_commands_view(r.fuzzy_matches@) == seq![StorageCommandView::Load(input@)]
                || storage_commands_view(r.fuzzy_matches@) == Seq::<StorageCommandView>::empty(),
    {
        let found = repository.get_by_name(input);
        let ghost fv = super::repository::record_result_view(found);
        let r = Self::parse_input_with(input, found.is_ok());
        proof {
            if found.is_ok() {
                assert(lookup_name_spec(repository@, input@, Ok(fv->Ok_0)));
                assert(seq![StorageCommandView::Load(input@)].len() != Seq::<StorageCommandView>::empty().len());
            } else {
                assert(lookup_name_spec(repository@, input@, Err(fv->Err_0)));
                assert(seq![StorageCommandView::Load(input@)].len() != Seq::<StorageCommandView>::empty().len());
            }
        }
        r
    }

    /// The text of the command.
    pub fn to_string(&self) -> (r: String)
        ensures
            r@ == storage_display_spec(self@),
    {
        let (word, name): (&str, Option<&String>) = match self {
            StorageCommand::Delete { name } => ("delete ", Some(name)),
            StorageCommand::Export => ("export", None),
            StorageCommand::Import => ("import", None),
            StorageCommand::Journal => ("journal", None),
            StorageCommand::Load { name } => ("load ", Some(name)),
            StorageCommand::Redo => ("redo", None),
            StorageCommand::Save { name } => ("save ", Some(name)),
            StorageCommand::Undo => ("undo", None),
        };
        let mut v = chars_of(word);
        if let Some(name) = name {
            push_all(&mut v, &chars_of(name.as_str()));
        }
        string_of(&v)
    }

    /// The suggestions for `input` in `repository`: those of the commands themselves, then the
    /// names of things to load, save or delete (see [`names_suggested`]).
    pub fn autocomplete<D: DataStore>(input: &str, repository: &Repository<D>) -> (r: Vec<
        AutocompleteSuggestion,
    >)
        ensures
            exists|names: Seq<(Seq<char>, Seq<char>)>|
                #[trigger] names_suggested(repository@, input@, names) && suggestions_text(r@)
                    == storage_suggestions_spec(
                    input@,
                    undo_summary_spec(repository@.undo),
                    redo_summary_spec(repository@.redo),
                ) + names,
    {
        let mut r = Self::command_suggestions(input, repository);
        let mut names = name_suggestions(input, repository);
        let ghost (a, b) = (r@, names@);
        r.append(&mut names);
        assert(r@ == a + b);
        assert(suggestions_text(a + b) =~= suggestions_text(a) + suggestions_text(b));
        r
    }

    /// The suggestions of the commands themselves for `input` in `repository`: see
    /// [`storage_suggestions_spec`], [`undo_summary_spec`] and [`redo_summary_spec`].
    pub fn command_suggestions<D: DataStore>(input: &str, repository: &Repository<D>) -> (r: Vec<
        AutocompleteSuggestion,
    >)
        ensures
            suggestions_text(r@) == storage_suggestions_spec(
                input@,
                undo_summary_spec(repository@.undo),
                redo_summary_spec(repository@.redo),
            ),
    {
        let undo_summary = {
            let history = repository.undo_history();
            if history.len() > 0 {
                let mut v = chars_of("undo ");
                push_all(&mut v, &chars_of(history[0].display_undo().to_string().as_str()));
                string_of(&v)
            } else {
                "Nothing to undo.".to_owned()
            }
        };
        let redo_summary = match repository.get_redo() {
            Some(change) => {
                let mut v = chars_of("redo ");
                push_all(&mut v, &chars_of(change.display_redo().to_string().as_str()));
                string_of(&v)
            },
            None => "Nothing to redo.".to_owned(),
        };
        let ghost us = undo_summary@;
        let ghost rs = redo_summary@;
        let ghost table: Seq<(Seq<char>, Seq<char>, Seq<char>)> = seq![
            ("delete"@, "delete [name]"@, "remove an entry from journal"@),
            ("export"@, "export"@, "export the journal contents"@),
            ("import"@, "import"@, "import a journal backup"@),
            ("journal"@, "journal"@, "list journal contents"@),
            ("load"@, "load [name]"@, "load an entry"@),
            ("save"@, "save [name]"@, "save an entry to journal"@),
            ("undo"@, "undo"@, us),
            ("redo"@, "redo"@, rs),
        ];
        let words: [&str; 8] = ["delete", "export", "import", "journal", "load", "save", "undo", "redo"];
        let terms: [&str; 6] = ["delete [name]", "export", "import", "journal", "load [name]", "save [name]"];
        let summaries: [&str; 6] = [
            "remove an entry from journal",
            "export the journal contents",
            "import a journal backup",
            "list journal contents",
            "load an entry",
            "save an entry to journal",
        ];
        let prefix = chars_of(input);
        let mut r: Vec<AutocompleteSuggestion> = Vec::new();
        let mut i: usize = 0;
        while i < 8
            invariant
                i <= 8,
                prefix@ == input@,
                words@.len() == 8,
                terms@.len() == 6,
                summaries@.len() == 6,
                forall|k: int| 0 <= k < 8 ==> #[trigger] words@[k]@ == table[k].0,
                forall|k: int| 0 <= k < 6 ==> #[trigger] terms@[k]@ == table[k].1,
                forall|k: int| 0 <= k < 6 ==> #[trigger] summaries@[k]@ == table[k].2,
                table[6].1 == "undo"@,
                table[6].2 == undo_summary@,
                table[7].1 == "redo"@,
                table[7].2 == redo_summary@,
                table.len() == 8,
                suggestions_text(r@) == suggestions_matching(table.take(i as int), input@),
            decreases 8 - i,
        {
            let ghost before = table.take(i as int);
            assert(table.take(i + 1).drop_last() =~= before);
            assert(table.take(i + 1).last() == table[i as int]);
            if starts_with_ci(&chars_of(words[i]), &prefix) {
                let x = if i < 6 {
                    AutocompleteSuggestion::from_static(terms[i], summaries[i])
                } else if i == 6 {
                    AutocompleteSuggestion::from_strings("undo".to_owned(), undo_summary.clone())
                } else {
                    AutocompleteSuggestion::from_strings("redo".to_owned(), redo_summary.clone())
                };
                proof {
                    lemma_suggestions_text_push(r@, x);
                }
                r.push(x);
            }
            i = i + 1;
        }
        assert(table.take(8) =~= table);
        r
    }
}

/// The text of a command parses back to that command, as the canonical match.
pub proof fn lemma_storage_display_parses(c: StorageCommandView)
    ensures
        storage_canonical_spec(storage_display_spec(c)) == Some(c),
{
    reveal_strlit("delete ");
    reveal_strlit("load ");
    reveal_strlit("save ");
    reveal_strlit("journal");
    reveal_strlit("undo");
    reveal_strlit("redo");
    reveal_strlit("export");
    reveal_strlit("import");
    let s = storage_display_spec(c);
    if s.len() >= 5 {
        assert(s.take(5)[0] == s[0]);
    }
    if s.len() >= 7 {
        assert(s.take(7)[0] == s[0]);
    }
    match c {
        StorageCommandView::Delete(name) => {
            assert(s.take(7) =~= "delete "@);
            assert(s.skip(7) =~= name);
        },
        StorageCommandView::Load(name) => {
            assert(s.take(5) =~= "load "@);
            assert(s.skip(5) =~= name);
        },
        StorageCommandView::Save(name) => {
            assert(s.take(5) =~= "save "@);
            assert(s.skip(5) =~= name);
        },
        _ => {
            assert(!crate::text::char_eq_ci_spec(s[0], 'd'));
            assert(!crate::text::char_eq_ci_spec(s[0], 'l'));
        },
    }
}

} // verus!

verus! {

/// The command word before a name that `input` begins with (ignoring ASCII case): `delete `,
/// `load ` or `save `, in that order; else nothing.
pub open spec fn name_prefix(input: Seq<char>) -> Seq<char> {
    if starts_with_ci_spec(input, "delete "@) {
        "delete "@
    } else if starts_with_ci_spec(input, "load "@) {
        "load "@
    } else if starts_with_ci_spec(input, "save "@) {
        "save "@
    } else {
        Seq::empty()
    }
}

/// `recs` is what looking up things whose name begins with `name`, at most ten, gave in `v`
/// (see [`Repository::get_by_name_start`]): nothing where the data store failed, which only a
/// store that does not answer does; else things of the journal and then the recent things of
/// that name start, all of those of the journal where the store answers, unless ten were found.
pub open spec fn started(v: RepositoryView, name: Seq<char>, recs: Seq<Record>) -> bool {
    ||| !v.answers && recs.len() == 0
    ||| (forall|i: int| 0 <= i < recs.len() ==> found_by_name_start(v, name, #[trigger] recs[i]@))
        && recs.len() <= 10 && saved_then_starting(recs, starting_with(v.recent, name), Some(10usize))
        && (v.answers ==> (recs.len() == 10 || journal_listed(v.things, recs, name)))
}

/// `found` says whether looking up `term` found a thing in `v`.
pub open spec fn lookup_agrees(v: RepositoryView, term: Seq<char>, found: bool) -> bool {
    &&& found ==> exists|rec: RecordView| lookup_name_spec(v, term, Ok(rec))
    &&& !found ==> exists|e: ErrorView| lookup_name_spec(v, term, Err(e))
}

/// The command that `term` stands for: the command it spells, else loading the thing of that
/// name where one was `found`.
pub open spec fn best_command(term: Seq<char>, found: bool) -> Option<StorageCommandView> {
    match storage_canonical_spec(term) {
        Some(c) => Some(c),
        None => if found {
            Some(StorageCommandView::Load(term))
        } else {
            None
        },
    }
}

/// The summary of suggesting `c` for the thing of `rec`: removing or saving that kind of thing,
/// or the thing's description (its kind, as things hold only a kind and a name), noting where
/// it is not saved; nothing for the other commands.
pub open spec fn record_summary(c: StorageCommandView, rec: RecordView) -> Option<Seq<char>> {
    match c {
        StorageCommandView::Delete(_) => Some(
            "remove "@ + kind_word(rec.thing.data.kind) + " from journal"@,
        ),
        StorageCommandView::Save(_) => Some("save "@ + kind_word(rec.thing.data.kind) + " to journal"@),
        StorageCommandView::Load(_) => Some(
            kind_word(rec.thing.data.kind) + if rec.status == RecordStatus::Unsaved {
                " (unsaved)"@
            } else {
                Seq::empty()
            },
        ),
        _ => None,
    }
}

/// The suggestion of the thing of `rec` after `prefix`, where looking up the term `found` a
/// thing: none for saving a saved thing or deleting an unsaved one; else the prefix and the
/// name, with the summary of the command that it stands for, where it stands for one that
/// has one.
pub open spec fn name_suggestion_spec(rec: RecordView, prefix: Seq<char>, found: bool) -> Option<
    (Seq<char>, Seq<char>),
> {
    if (prefix == "save "@ && rec.status == RecordStatus::Saved) || (prefix == "delete "@
        && rec.status == RecordStatus::Unsaved) {
        None
    } else {
        let term = prefix + name_text(rec.thing.data);
        match best_command(term, found) {
            Some(c) => match record_summary(c, rec) {
                Some(sm) => Some((term, sm)),
                None => None,
            },
            None => None,
        }
    }
}

/// The suggestions of the things of the first `n` of `recs` after `prefix`, in order.
pub open spec fn name_suggestions_spec(
    recs: Seq<Record>,
    prefix: Seq<char>,
    found: Seq<bool>,
    n: nat,
) -> Seq<(Seq<char>, Seq<char>)>
    decreases n,
{
    if n == 0 {
        Seq::empty()
    } else {
        let prev = name_suggestions_spec(recs, prefix, found, (n - 1) as nat);
        match name_suggestion_spec(recs[n - 1]@, prefix, found[n - 1]) {
            Some(x) => prev.push(x),
            None => prev,
        }
    }
}

/// `found` says, for each of `recs`, whether looking up its term after `prefix` found a thing.
pub open spec fn lookups_agree(v: RepositoryView, prefix: Seq<char>, recs: Seq<Record>, found: Seq<bool>) -> bool {
    &&& found.len() == recs.len()
    &&& forall|i: int|
        0 <= i < recs.len() ==> lookup_agrees(v, prefix + name_text(recs[i]@.thing.data), #[trigger] found[i])
}

/// Where the names suggested for `input` come from: `full`, the things whose name begins with
/// the whole input, and `partial`, those whose name begins with what follows a command word
/// (none where there is no command word), with what looking up each term found.
pub open spec fn name_sources(
    v: RepositoryView,
    input: Seq<char>,
    full: Seq<Record>,
    partial: Seq<Record>,
    ff: Seq<bool>,
    pf: Seq<bool>,
) -> bool {
    &&& started(v, input, full)
    &&& name_prefix(input).len() == 0 ==> partial.len() == 0
    &&& name_prefix(input).len() > 0 ==> started(v, input.skip(name_prefix(input).len() as int), partial)
    &&& lookups_agree(v, Seq::empty(), full, ff)
    &&& lookups_agree(v, name_prefix(input), partial, pf)
}

/// `names` are the names suggested for `input` in `v`: the things of `full` as they are, then
/// those of `partial` after the command word (see [`name_sources`], [`name_suggestion_spec`]).
pub open spec fn names_suggested(v: RepositoryView, input: Seq<char>, names: Seq<(Seq<char>, Seq<char>)>) -> bool {
    exists|full: Seq<Record>, partial: Seq<Record>, ff: Seq<bool>, pf: Seq<bool>|
        #[trigger] name_sources(v, input, full, partial, ff, pf) && names == name_suggestions_spec(
            full,
            Seq::empty(),
            ff,
            full.len(),
        ) + name_suggestions_spec(partial, name_prefix(input), pf, partial.len())
}

/// The suggestion of the thing of `rec` after `prefix`: see [`name_suggestion_spec`].
fn name_suggestion<D: DataStore>(rec: &Record, prefix: &str, repository: &Repository<D>) -> (r: (
    Option<AutocompleteSuggestion>,
    Ghost<bool>,
))
    ensures
        lookup_agrees(repository@, prefix@ + name_text(rec@.thing.data), r.1@),
        match (r.0, name_suggestion_spec(rec@, prefix@, r.1@)) {
            (Some(s), Some(x)) => (s.term@, s.summary@) == x,
            (None, None) => true,
            _ => false,
        },
{
    let mut t = chars_of(prefix);
    push_all(&mut t, &chars_of(rec.thing.data.name_text().as_str()));
    let term = string_of(&t);
    let matches = StorageCommand::parse_input(term.as_str(), repository);
    let ghost found = matches.fuzzy_matches@.len() > 0;
    proof {
        reveal_strlit("save ");
        reveal_strlit("delete ");
        assert(storage_commands_view(matches.fuzzy_matches@).len() == matches.fuzzy_matches@.len());
        if found {
            assert(storage_commands_view(matches.fuzzy_matches@) == seq![StorageCommandView::Load(term@)]);
            assert(matches.fuzzy_matches@[0]@ == storage_commands_view(matches.fuzzy_matches@)[0]);
        }
    }
    let p = chars_of(prefix);
    let skip = (eq_lit(&p, "save ") && rec.is_saved()) || (eq_lit(&p, "delete ") && rec.is_unsaved());
    if skip {
        return (None, Ghost(found));
    }
    let kind = match rec.thing.data.kind {
        ThingKind::Npc => "character",
        ThingKind::Place => "place",
    };
    proof {
        reveal_strlit("character");
        reveal_strlit("place");
    }
    let summary = match matches.take_best_match() {
        Some(StorageCommand::Delete { .. }) => Some(text3("remove ", kind, " from journal")),
        Some(StorageCommand::Save { .. }) => Some(text3("save ", kind, " to journal")),
        Some(StorageCommand::Load { .. }) => {
            if rec.is_unsaved() {
                Some(text3("", kind, " (unsaved)"))
            } else {
                Some(kind.to_owned())
            }
        },
        _ => None,
    };
    proof {
        reveal_strlit("remove ");
        reveal_strlit(" from journal");
        reveal_strlit(" to journal");
        reveal_strlit(" (unsaved)");
        reveal_strlit("");
    }
    match summary {
        Some(sm) => (Some(AutocompleteSuggestion { term, summary: sm }), Ghost(found)),
        None => (None, Ghost(found)),
    }
}

/// `a`, `b` and `c` joined.
fn text3(a: &str, b: &str, c: &str) -> (r: String)
    ensures
        r@ == a@ + b@ + c@,
{
    let mut v = chars_of(a);
    push_all(&mut v, &chars_of(b));
    push_all(&mut v, &chars_of(c));
    string_of(&v)
}

/// Adds the suggestions of the things of `recs` after `prefix`: see [`name_suggestions_spec`].
fn push_name_suggestions<D: DataStore>(
    out: &mut Vec<AutocompleteSuggestion>,
    recs: &Vec<Record>,
    prefix: &str,
    repository: &Repository<D>,
) -> (found: Ghost<Seq<bool>>)
    ensures
        lookups_agree(repository@, prefix@, recs@, found@),
        suggestions_text(final(out)@) == suggestions_text(old(out)@) + name_suggestions_spec(
            recs@,
            prefix@,
            found@,
            recs@.len(),
        ),
{
    let ghost start = suggestions_text(out@);
    let ghost mut found: Seq<bool> = Seq::empty();
    let mut i: usize = 0;
    while i < recs.len()
        invariant
            i <= recs@.len(),
            found.len() == i,
            forall|j: int|
                0 <= j < i ==> lookup_agrees(repository@, prefix@ + name_text(recs@[j]@.thing.data), #[trigger] found[j]),
            suggestions_text(out@) == start + name_suggestions_spec(recs@, prefix@, found, i as nat),
        decreases recs.len() - i,
    {
        let (s, Ghost(f)) = name_suggestion(&recs[i], prefix, repository);
        let ghost f0 = found;
        proof {
            found = found.push(f);
            assert(name_suggestions_spec(recs@, prefix@, found, i as nat) == name_suggestions_spec(
                recs@,
                prefix@,
                f0,
                i as nat,
            )) by {
                lemma_name_suggestions_prefix(recs@, prefix@, f0, found, i as nat);
            }
        }
        match s {
            Some(s) => {
                proof {
                    lemma_suggestions_text_push(out@, s);
                }
                out.push(s);
            },
            None => {},
        }
        i = i + 1;
    }
    Ghost(found)
}

/// The suggestions of the first `n` things read only the first `n` lookups.
proof fn lemma_name_suggestions_prefix(
    recs: Seq<Record>,
    prefix: Seq<char>,
    a: Seq<bool>,
    b: Seq<bool>,
    n: nat,
)
    requires
        n <= a.len(),
        n <= b.len(),
        forall|i: int| 0 <= i < n ==> a[i] == b[i],
    ensures
        name_suggestions_spec(recs, prefix, a, n) == name_suggestions_spec(recs, prefix, b, n),
    decreases n,
{
    if n > 0 {
        lemma_name_suggestions_prefix(recs, prefix, a, b, (n - 1) as nat);
    }
}

/// The records of things whose name begins with `name`, at most ten; none where the store fails.
fn started_records<D: DataStore>(name: &str, repository: &Repository<D>) -> (r: Vec<Record>)
    ensures
        started(repository@, name@, r@),
{
    match repository.get_by_name_start(name, Some(10)) {
        Ok(recs) => recs,
        Err(_) => Vec::new(),
    }
}

/// The names suggested for `input`: see [`names_suggested`].
pub fn name_suggestions<D: DataStore>(input: &str, repository: &Repository<D>) -> (r: Vec<
    AutocompleteSuggestion,
>)
    ensures
        names_suggested(repository@, input@, suggestions_text(r@)),
{
    let s = chars_of(input);
    let prefix: &str = if starts_with_ci(&s, &chars_of("delete ")) {
        "delete "
    } else if starts_with_ci(&s, &chars_of("load ")) {
        "load "
    } else if starts_with_ci(&s, &chars_of("save ")) {
        "save "
    } else {
        ""
    };
    proof {
        reveal_strlit("delete ");
        reveal_strlit("load ");
        reveal_strlit("save ");
        reveal_strlit("");
    }
    assert(prefix@ == name_prefix(input@));
    let full = started_records(input, repository);
    let pc = chars_of(prefix);
    let partial = if pc.len() > 0 {
        let rest = string_of(&sub_chars(&s, pc.len(), s.len()));
        assert(rest@ =~= input@.skip(name_prefix(input@).len() as int));
        started_records(rest.as_str(), repository)
    } else {
        Vec::new()
    };
    let mut out: Vec<AutocompleteSuggestion> = Vec::new();
    assert(suggestions_text(out@) =~= Seq::<(Seq<char>, Seq<char>)>::empty());
    assert(""@ =~= Seq::<char>::empty());
    let ff = push_name_suggestions(&mut out, &full, "", repository);
    let ghost mid = suggestions_text(out@);
    let pf = push_name_suggestions(&mut out, &partial, prefix, repository);
    proof {
        assert(mid =~= name_suggestions_spec(full@, Seq::empty(), ff@, full@.len()));
        assert(name_sources(repository@, input@, full@, partial@, ff@, pf@));
    }
    out
}

} // verus!
