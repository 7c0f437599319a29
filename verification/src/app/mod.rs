//! The application layer: command parsing results, autocomplete suggestions, the commands of
//! the app itself, and the application that runs them against a repository.

pub mod command;
pub mod context;
pub mod parser;

pub use command::{AppCommand, AutocompleteSuggestion, Command, CommandMatches, CommandType};

use self::command::runnable::suggestions_text;
use self::command::{command_parse_spec, plan_spec, CommandTypeView, Plan};
use crate::sorting::{sort_suggestions, sorted_suggestions};
use crate::storage::backup::{import, stat_total, stats_text, BackupData};
use crate::storage::data_store::DataStore;
use crate::storage::command::{StorageCommand, StorageCommandView};
use crate::text::{chars_of, eq_ci, eq_ci_spec, starts_with_ci, starts_with_ci_spec};
use crate::storage::repository::{lookup_name_spec, Repository, RepositoryView};
use crate::storage::run::{storage_run_effect, StorageReply, StorageReplyView};
use crate::storage::repository::RecordStatus;
use crate::time::command::{reply_view, run_effect};
use crate::time::TimeCommand;
use vstd::prelude::*;

verus! {

/// The most suggestions that [`App::autocomplete`] gives.
pub const SUGGESTIONS_MAX_LEN: usize = 10;

/// An event that the interface handles itself.
#[derive(Debug)]
pub enum Event {
    /// The backup of the journal is ready to download.
    Export(BackupData),
    /// The user is to choose a backup to import.
    Import,
}

/// The application: the repository that the commands work on, and the name that typing
/// `save` saves, where a thing not yet saved was just loaded.
pub struct App<D> {
    repository: Repository<D>,
    save_alias: Option<String>,
}

/// What typing `input` stands for while `alias` is the name that `save` saves: saving that
/// name, where `input` is `save` (ignoring ASCII case); else nothing.
pub open spec fn alias_command(alias: Option<Seq<char>>, input: Seq<char>) -> Option<
    StorageCommandView,
> {
    match alias {
        Some(n) => if eq_ci_spec(input, "save"@) {
            Some(StorageCommandView::Save(n))
        } else {
            None
        },
        None => None,
    }
}

/// The alias after running `c` with reply `r` while the alias was `alias`: the name loaded, where
/// a thing not yet saved was loaded and no alias was set; else as it was.
pub open spec fn alias_after(
    alias: Option<Seq<char>>,
    c: StorageCommandView,
    r: StorageReplyView,
) -> Option<Seq<char>> {
    if alias is None && c is Load && (r matches StorageReplyView::Loaded(rec) && rec.status
        == RecordStatus::Unsaved) {
        Some(c->Load_0)
    } else {
        alias
    }
}

/// The parse `m`, with the alias's command as its canonical match where there is one.
pub open spec fn with_alias(
    m: (Option<CommandTypeView>, Seq<CommandTypeView>),
    alias: Option<StorageCommandView>,
) -> (Option<CommandTypeView>, Seq<CommandTypeView>) {
    match alias {
        Some(c) => (Some(CommandTypeView::Storage(c)), m.1),
        None => m,
    }
}

/// Every suggestion for `input`, before ranking: the alias's, the application's, the journal
/// commands' and the names of things (`names`), and the time commands'.
pub open spec fn all_suggestions_spec(
    alias: Option<Seq<char>>,
    v: RepositoryView,
    input: Seq<char>,
    names: Seq<(Seq<char>, Seq<char>)>,
) -> Seq<(Seq<char>, Seq<char>)> {
    alias_suggestions_spec(alias, input) + self::command::app::app_suggestions_spec(input)
        + crate::storage::command::storage_suggestions_spec(
        input,
        crate::storage::command::undo_summary_spec(v.undo),
        crate::storage::command::redo_summary_spec(v.redo),
    ) + names + crate::time::command::autocomplete_spec(input)
}

/// The suggestion of the alias for `input`: `save`, where it begins with `input` (ignoring
/// ASCII case), with the command it stands for.
pub open spec fn alias_suggestions_spec(alias: Option<Seq<char>>, input: Seq<char>) -> Seq<
    (Seq<char>, Seq<char>),
> {
    match alias {
        Some(n) => if starts_with_ci_spec("save"@, input) {
            seq![("save"@, "save "@ + n)]
        } else {
            Seq::empty()
        },
        None => Seq::empty(),
    }
}

impl<D: DataStore> View for App<D> {
    type V = RepositoryView;

    closed spec fn view(&self) -> RepositoryView {
        self.repository@
    }
}

/// The suggestions that `App::autocomplete` gives from `all`: ordered by term ignoring ASCII
/// case, and no more than [`SUGGESTIONS_MAX_LEN`] of them.
pub open spec fn ranked_spec(all: Seq<(Seq<char>, Seq<char>)>) -> Seq<(Seq<char>, Seq<char>)> {
    let sorted = sort_suggestions(all);
    if sorted.len() > SUGGESTIONS_MAX_LEN {
        sorted.take(SUGGESTIONS_MAX_LEN as int)
    } else {
        sorted
    }
}

impl<D: DataStore> App<D> {
    /// The state is well formed: see [`crate::storage::repository::repository_wf`].
    pub closed spec fn wf(&self) -> bool {
        self.repository.wf()
    }

    /// An application over `data_store`, which is not used until [`App::init`] has checked it.
    pub fn new(data_store: D) -> (r: Self)
        ensures
            r.wf(),
            r@.enabled == false,
            r@.recent == Seq::<crate::storage::thing::ThingView>::empty(),
            r@.things == data_store.things(),
            r@.values == data_store.key_values(),
            r@.undo == Seq::<crate::storage::repository::ChangeView>::empty(),
            r@.redo is None,
    {
        App { repository: Repository::new(data_store), save_alias: None }
    }

    /// Checks the data store: see [`Repository::init`].
    pub fn init(&mut self)
        requires
            old(self).wf(),
        ensures
            final(self).wf(),
            final(self).save_alias() == old(self).save_alias(),
            final(self)@.recent == old(self)@.recent,
            final(self)@.undo == old(self)@.undo,
            final(self)@.redo == old(self)@.redo,
            (final(self)@.enabled && final(self)@.things == old(self)@.things
                && final(self)@.values == old(self)@.values) || (final(self)@.enabled == old(
                self,
            )@.enabled && final(self)@.things == Map::<u128, crate::storage::thing::ThingView>::empty()
                && final(self)@.values == Map::<Seq<char>, Seq<char>>::empty()),
    {
        self.repository.init();
    }

    /// The name that typing `save` saves, if any.
    pub closed spec fn save_alias(&self) -> Option<Seq<char>> {
        match self.save_alias {
            Some(n) => Some(n@),
            None => None,
        }
    }

    /// The name that typing `save` saves, if any.
    pub fn alias(&self) -> (r: Option<&String>)
        ensures
            match r {
                Some(n) => self.save_alias() == Some(n@),
                None => self.save_alias() is None,
            },
    {
        match &self.save_alias {
            Some(n) => Some(n),
            None => None,
        }
    }

    /// Readies the application to run what `input` was planned to: the alias is forgotten,
    /// unless `input` is the alias itself.
    pub fn start_run(&mut self, input: &str)
        ensures
            final(self)@ == old(self)@,
            final(self).wf() == old(self).wf(),
            final(self).save_alias() == if alias_command(old(self).save_alias(), input@) is Some {
                old(self).save_alias()
            } else {
                None
            },
    {
        let keep = match &self.save_alias {
            Some(_) => eq_ci(&chars_of(input), &chars_of("save")),
            None => false,
        };
        if !keep {
            self.save_alias = None;
        }
    }

    /// The repository.
    pub fn repository(&self) -> (r: &Repository<D>)
        ensures
            r@ == self@,
            self.wf() ==> r.wf(),
    {
        &self.repository
    }

    /// What to do with the input: it is parsed as every kind of command (see
    /// [`Command::parse_input_irrefutable`]) and planned (see [`Command::plan`]).
    pub fn plan(&self, input: &str) -> (r: Plan)
        ensures
            exists|rolls: bool, found: bool|
                #![trigger command_parse_spec(input@, rolls, found)]
                r@ == plan_spec(
                    with_alias(
                        command_parse_spec(input@, rolls, found),
                        alias_command(self.save_alias(), input@),
                    ),
                    input@,
                ) && (found
                    ==> exists|rec| lookup_name_spec(self@, input@, Ok(rec))) && (!found
                    ==> exists|e| lookup_name_spec(self@, input@, Err(e))),
    {
        let command = Command::parse_input_irrefutable(input, &self.repository);
        let ghost (rolls, found) = choose|rolls: bool, found: bool|
            #![trigger command_parse_spec(input@, rolls, found)]
            command@ == command_parse_spec(input@, rolls, found) && (found ==> exists|rec|
                lookup_name_spec(self@, input@, Ok(rec))) && (!found ==> exists|e|
                lookup_name_spec(self@, input@, Err(e)));
        let command = match &self.save_alias {
            Some(n) => if eq_ci(&chars_of(input), &chars_of("save")) {
                command.with_canonical(CommandType::Storage(StorageCommand::Save { name: n.clone() }))
            } else {
                command
            },
            None => command,
        };
        proof {
            reveal_strlit("save");
        }
        let r = command.plan(input);
        assert(r@ == plan_spec(
            with_alias(command_parse_spec(input@, rolls, found), alias_command(self.save_alias(), input@)),
            input@,
        ));
        r
    }

    /// Runs a time command: see [`TimeCommand::run`].
    pub fn run_time(&mut self, command: &TimeCommand) -> (r: Result<String, String>)
        requires
            old(self).wf(),
        ensures
            final(self).wf(),
            run_effect(*command, old(self)@, reply_view(r), final(self)@),
            final(self).save_alias() == old(self).save_alias(),
    {
        command.run(&mut self.repository)
    }

    /// Runs a journal command: see [`StorageCommand::run`]. Where it loads a thing that is not
    /// yet saved, and no alias is set, typing `save` is to save it (see [`alias_after`]).
    pub fn run_storage(&mut self, command: &StorageCommand) -> (r: StorageReply)
        requires
            old(self).wf(),
        ensures
            final(self).wf(),
            storage_run_effect(command@, old(self)@, r@, final(self)@),
            final(self).save_alias() == alias_after(old(self).save_alias(), command@, r@),
    {
        let r = command.run(&mut self.repository);
        if self.save_alias.is_none() {
            if let StorageCommand::Load { name } = command {
                if let StorageReply::Loaded(rec) = &r {
                    if rec.is_unsaved() {
                        self.save_alias = Some(name.clone());
                    }
                }
            }
        }
        r
    }

    /// The suggestion of the alias for `input`: see [`alias_suggestions_spec`].
    pub fn alias_suggestions(&self, input: &str) -> (r: Vec<AutocompleteSuggestion>)
        ensures
            suggestions_text(r@) == alias_suggestions_spec(self.save_alias(), input@),
    {
        let mut all: Vec<AutocompleteSuggestion> = Vec::new();
        if let Some(n) = &self.save_alias {
            if starts_with_ci(&chars_of("save"), &chars_of(input)) {
                let mut summary = chars_of("save ");
                crate::text::push_all(&mut summary, &chars_of(n.as_str()));
                all.push(AutocompleteSuggestion {
                    term: "save".to_owned(),
                    summary: crate::text::string_of(&summary),
                });
            }
        }
        proof {
            reveal_strlit("save");
            reveal_strlit("save ");
            assert(suggestions_text(all@) =~= alias_suggestions_spec(self.save_alias(), input@));
        }
        all
    }

    /// The suggestions for `input`: those of every kind of command (see
    /// [`Command::autocomplete`]) and of the alias, ordered by term ignoring ASCII case, at most
    /// [`SUGGESTIONS_MAX_LEN`] of them.
    #[verifier::rlimit(40)]
    pub fn autocomplete(&self, input: &str) -> (r: Vec<AutocompleteSuggestion>)
        ensures
            exists|names: Seq<(Seq<char>, Seq<char>)>|
                #[trigger] crate::storage::command::names_suggested(self@, input@, names)
                    && suggestions_text(r@) == ranked_spec(
                    all_suggestions_spec(self.save_alias(), self@, input@, names),
                ),
            r@.len() <= SUGGESTIONS_MAX_LEN,
    {
        let mut all = self.alias_suggestions(input);
        let mut rest = Command::autocomplete(input, &self.repository);
        let ghost a0 = all@;
        let ghost r0 = rest@;
        let ghost names = choose|names: Seq<(Seq<char>, Seq<char>)>|
            #[trigger] crate::storage::command::names_suggested(self@, input@, names)
                && suggestions_text(r0) == self::command::app::app_suggestions_spec(input@)
                + crate::storage::command::storage_suggestions_spec(
                input@,
                crate::storage::command::undo_summary_spec(self@.undo),
                crate::storage::command::redo_summary_spec(self@.redo),
            ) + names + crate::time::command::autocomplete_spec(input@);
        all.append(&mut rest);
        proof {
            assert(all@ == a0 + r0);
            assert(suggestions_text(a0 + r0) =~= suggestions_text(a0) + suggestions_text(r0));
            assert(suggestions_text(all@) =~= all_suggestions_spec(self.save_alias(), self@, input@, names));
        }
        let mut sorted = sorted_suggestions(all);
        if sorted.len() > SUGGESTIONS_MAX_LEN {
            sorted.truncate(SUGGESTIONS_MAX_LEN);
        }
        assert(suggestions_text(sorted@).len() == sorted@.len());
        sorted
    }

    /// Imports a backup (see [`import`]) and tells what was imported.
    pub fn bulk_import(&mut self, data: BackupData) -> (r: Result<String, String>)
        requires
            old(self).wf(),
        ensures
            final(self).wf(),
            final(self).save_alias() == old(self).save_alias(),
            final(self)@.undo == old(self)@.undo,
            final(self)@.redo == old(self)@.redo,
            r matches Ok(text) && exists|stats: crate::storage::backup::ImportStats|
                text@ == stats_text(stats) && stat_total(stats.npc_stats) + stat_total(
                    stats.place_stats,
                ) == data.things@.len() && #[trigger] crate::storage::backup::imported(
                    old(self)@,
                    crate::storage::repository::things_view(data.things@),
                    crate::storage::backup::option_text(data.key_value.time),
                    stats,
                    final(self)@,
                ),
    {
        let ghost n = data.things@.len();
        match import(&mut self.repository, data) {
            Ok(stats) => {
                assert(stat_total(stats.npc_stats) + stat_total(stats.place_stats) == n);
                Ok(stats.to_string())
            },
            Err(_) => Err("Failed to import.".to_owned()),
        }
    }
}

} // verus!
