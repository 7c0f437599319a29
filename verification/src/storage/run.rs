//! Running the commands that work on the journal.

use super::backup::{export, exported, option_text, BackupData};
use super::command::{StorageCommand, StorageCommandView};
use super::data_store::DataStore;
use super::repository::{
    lookup_change_spec, lookup_name_spec, modify_effect, push_undo_spec, redo_text, undo_text,
    Change, ChangeView, Error, ErrorView, Record, RecordStatus, RecordView, Repository,
    RepositoryView,
};
use super::thing::{name_text, Thing, ThingView};
use crate::text::{chars_of, push_all, string_of};
use vstd::prelude::*;

verus! {

/// What running a journal command gives. Where a thing is to be shown in full, or the journal
/// listed, the reply says which and the interface renders it.
pub enum StorageReply {
    /// A reply in text.
    Text(Result<String, String>),
    /// A thing to show in full, followed by a note.
    Thing { thing: Thing, note: String },
    /// The record found for a name, to show in full.
    Loaded(Record),
    /// The things of the journal, to list.
    Journal(Vec<Thing>),
    /// The backup to download, and the reply.
    Export { backup: BackupData, text: String },
    /// The reply; the user is to choose a backup to import.
    Import { text: String },
}

/// The value of a [`StorageReply`]; a backup is seen as its things and its time.
pub enum StorageReplyView {
    Text(Result<Seq<char>, Seq<char>>),
    Thing { thing: ThingView, note: Seq<char> },
    Loaded(RecordView),
    Journal(Seq<ThingView>),
    Export { things: Seq<ThingView>, time: Option<Seq<char>>, text: Seq<char> },
    Import(Seq<char>),
}

impl View for StorageReply {
    type V = StorageReplyView;

    open spec fn view(&self) -> StorageReplyView {
        match self {
            StorageReply::Text(Ok(s)) => StorageReplyView::Text(Ok(s@)),
            StorageReply::Text(Err(s)) => StorageReplyView::Text(Err(s@)),
            StorageReply::Thing { thing, note } => StorageReplyView::Thing {
                thing: thing@,
                note: note@,
            },
            StorageReply::Loaded(rec) => StorageReplyView::Loaded(rec@),
            StorageReply::Journal(things) => StorageReplyView::Journal(
                things@.map_values(|t: Thing| t@),
            ),
            StorageReply::Export { backup, text } => StorageReplyView::Export {
                things: backup.things@.map_values(|t: Thing| t@),
                time: option_text(backup.key_value.time),
                text: text@,
            },
            StorageReply::Import { text } => StorageReplyView::Import(text@),
        }
    }
}

/// The warning added to a successful reply where the data store is not in use.
pub open spec fn warning_text() -> Seq<char> {
    "\n\n! Your browser does not support local storage. Any changes will not persist beyond this session."@
}

/// `s`, with the warning where the data store is not in use.
pub open spec fn warned(s: Seq<char>, enabled: bool) -> Seq<char> {
    if enabled {
        s
    } else {
        s + warning_text()
    }
}

/// The reply when no thing has the name.
pub open spec fn no_entity_text(name: Seq<char>) -> Seq<char> {
    "There is no entity named \""@ + name + "\"."@
}

/// The reply when the data store fails at `verb` (such as `delete`) on `name`.
pub open spec fn failed_text(verb: Seq<char>, name: Seq<char>) -> Seq<char> {
    "Couldn't "@ + verb + " `"@ + name + "`."@
}

/// The reply to an error of a change to the thing named `name`.
pub open spec fn change_error_text(e: ErrorView, verb: Seq<char>, name: Seq<char>) -> Seq<char> {
    if e == ErrorView::NotFound {
        no_entity_text(name)
    } else {
        failed_text(verb, name)
    }
}

/// The reply to deleting the thing named `n`.
pub open spec fn deleted_text(n: Seq<char>) -> Seq<char> {
    n + " was successfully deleted. Use `undo` to reverse this."@
}

/// The reply to saving the thing named `n`.
pub open spec fn saved_text(n: Seq<char>) -> Seq<char> {
    n + " was successfully saved. Use `undo` to reverse this."@
}

/// The reply to undoing `action`.
pub open spec fn undid_text(action: Seq<char>) -> Seq<char> {
    "Successfully undid "@ + action + ". Use `redo` to reverse this."@
}

/// The reply to redoing `action`.
pub open spec fn redid_text(action: Seq<char>) -> Seq<char> {
    "Successfully redid "@ + action + ". Use `undo` to reverse this."@
}

/// The reply to `export`.
pub open spec fn exporting_text() -> Seq<char> {
    "The journal is exporting. Your download should begin shortly."@
}

/// The reply to `import`.
pub open spec fn importing_text() -> Seq<char> {
    "The file upload popup should appear momentarily. Please select a compatible JSON file, such as that produced by the `export` command."@
}

/// Applying `change` from `v` succeeded, leaving `w` with its opposite `c2` in the undo history.
pub open spec fn applied(v: RepositoryView, change: ChangeView, c2: ChangeView, w: RepositoryView) -> bool {
    exists|w1: RepositoryView|
        modify_effect(v, change, Ok(c2), w1) && w1.undo == v.undo && w == (RepositoryView {
            undo: push_undo_spec(v.undo, c2),
            ..w1
        })
}

/// `t` is the thing that applying `change` from `v` to `w` reports: the thing the change
/// concerned before, or the one that its opposite concerns after.
pub open spec fn reported(v: RepositoryView, change: ChangeView, w: RepositoryView, t: ThingView) -> bool {
    (exists|st: RecordStatus|
        lookup_change_spec(v, change, Ok(RecordView { status: st, thing: t })))
        || (exists|st: RecordStatus|
        lookup_change_spec(w, w.undo.last(), Ok(RecordView { status: st, thing: t })))
}

/// What deleting the thing named `name`, found as `t`, does from `v` to `w` with reply `r`.
pub open spec fn delete_effect(
    v: RepositoryView,
    name: Seq<char>,
    t: ThingView,
    r: StorageReplyView,
    w: RepositoryView,
) -> bool {
    let change = ChangeView::Delete { uuid: t.uuid, name: name_text(t.data) };
    ||| exists|e: ErrorView|
        modify_effect(v, change, Err((change, e)), w) && r == StorageReplyView::Text(
            Err(change_error_text(e, "delete"@, name)),
        )
    ||| exists|c2: ChangeView|
        applied(v, change, c2, w) && (r == StorageReplyView::Text(Err(no_entity_text(name)))
            || exists|t2: ThingView|
            reported(v, change, w, t2) && r == StorageReplyView::Text(
                Ok(warned(deleted_text(name_text(t2.data)), w.enabled)),
            ))
}

/// What undoing does from `v` to `w` with reply `r`: see [`Repository::undo`].
pub open spec fn undo_effect(v: RepositoryView, r: StorageReplyView, w: RepositoryView) -> bool {
    if v.undo.len() == 0 {
        r == StorageReplyView::Text(Err("Nothing to undo."@)) && w == v
    } else {
        let v1 = RepositoryView { undo: v.undo.drop_last(), ..v };
        let c = v.undo.last();
        ||| exists|c3: ChangeView, e: ErrorView, w1: RepositoryView|
            modify_effect(v1, c, Err((c3, e)), w1) && w1.undo == v1.undo && w == (RepositoryView {
                undo: w1.undo.push(c3),
                ..w1
            }) && r == StorageReplyView::Text(Err("Failed to undo."@))
        ||| exists|c2: ChangeView, w1: RepositoryView|
            modify_effect(v1, c, Ok(c2), w1) && w1.undo == v1.undo && w == (RepositoryView {
                redo: Some(c2),
                ..w1
            }) && (r == StorageReplyView::Text(Ok(warned(undid_text(redo_text(c2)), w.enabled)))
                || exists|t: ThingView, st: RecordStatus|
                lookup_change_spec(w, c2, Ok(RecordView { status: st, thing: t })) && r
                    == StorageReplyView::Thing {
                    thing: t,
                    note: seq!['_'] + undid_text(redo_text(c2)) + seq!['_'],
                })
    }
}

/// What redoing does from `v` to `w` with reply `r`: see [`Repository::redo`].
pub open spec fn redo_effect(v: RepositoryView, r: StorageReplyView, w: RepositoryView) -> bool {
    match v.redo {
        None => r == StorageReplyView::Text(Err("Nothing to redo."@)) && w == v,
        Some(c) => {
            let v1 = RepositoryView { redo: None, ..v };
            ||| exists|c3: ChangeView, e: ErrorView, w1: RepositoryView|
                modify_effect(v1, c, Err((c3, e)), w1) && w == (RepositoryView {
                    redo: Some(c3),
                    ..w1
                }) && r == StorageReplyView::Text(Err("Failed to redo."@))
            ||| exists|c2: ChangeView|
                applied(v1, c, c2, w) && (r == StorageReplyView::Text(
                    Ok(warned(redid_text(undo_text(c2)), w.enabled)),
                ) || exists|t: ThingView|
                    reported(v, c, w, t) && r == StorageReplyView::Thing {
                        thing: t,
                        note: seq!['_'] + redid_text(undo_text(c2)) + seq!['_'],
                    })
        },
    }
}

/// What running `c` does from `v` to `w` with reply `r`.
pub open spec fn storage_run_effect(
    c: StorageCommandView,
    v: RepositoryView,
    r: StorageReplyView,
    w: RepositoryView,
) -> bool {
    match c {
        StorageCommandView::Delete(name) => {
            ||| exists|e: ErrorView|
                lookup_name_spec(v, name, Err(e)) && w == v && r == StorageReplyView::Text(
                    Err(change_error_text(e, "delete"@, name)),
                )
            ||| exists|rec: RecordView|
                lookup_name_spec(v, name, Ok(rec)) && delete_effect(v, name, rec.thing, r, w)
        },
        StorageCommandView::Save(name) => {
            let change = ChangeView::Save { name, uuid: None };
            ||| exists|e: ErrorView|
                modify_effect(v, change, Err((change, e)), w) && r == StorageReplyView::Text(
                    Err(change_error_text(e, "save"@, name)),
                )
            ||| exists|c2: ChangeView|
                applied(v, change, c2, w) && r == StorageReplyView::Text(
                    Ok(warned(saved_text(name), w.enabled)),
                )
        },
        StorageCommandView::Undo => undo_effect(v, r, w),
        StorageCommandView::Redo => redo_effect(v, r, w),
        StorageCommandView::Journal => w == v && (v.answers ==> r is Journal) && (r == StorageReplyView::Text(
            Err("Couldn't access the journal."@),
        ) || exists|things: Seq<ThingView>|
            r == StorageReplyView::Journal(things) && (forall|i: int|
                0 <= i < things.len() ==> v.things.contains_key(#[trigger] things[i].uuid)
                    && v.things[things[i].uuid] == things[i]) && (forall|k: u128|
                #[trigger] v.things.contains_key(k) ==> exists|i: int|
                    0 <= i < things.len() && things[i].uuid == k)),
        StorageCommandView::Load(name) => w == v && ((exists|e: ErrorView|
            lookup_name_spec(v, name, Err(e)) && r == StorageReplyView::Text(
                Err("No matches for \""@ + name + "\""@),
            )) || (exists|rec: RecordView|
            lookup_name_spec(v, name, Ok(rec)) && r == StorageReplyView::Loaded(rec))),
        StorageCommandView::Export => w == v && exists|things: Seq<ThingView>, time: Option<Seq<char>>|
            r == (StorageReplyView::Export {
                things,
                time,
                text: warned(exporting_text(), v.enabled),
            }) && #[trigger] exported(v, things, time),
        StorageCommandView::Import => w == v && r == StorageReplyView::Import(
            warned(importing_text(), v.enabled),
        ),
    }
}

/// `s` with the warning where the data store is not in use: see [`warned`].
pub fn with_warning(s: String, enabled: bool) -> (r: String)
    ensures
        r@ == warned(s@, enabled),
{
    if enabled {
        s
    } else {
        let mut v = chars_of(s.as_str());
        push_all(
            &mut v,
            &chars_of(
                "\n\n! Your browser does not support local storage. Any changes will not persist beyond this session.",
            ),
        );
        string_of(&v)
    }
}


/// `a` followed by `b`.
fn text2(a: &str, b: &str) -> (r: String)
    ensures
        r@ == a@ + b@,
{
    let mut v = chars_of(a);
    push_all(&mut v, &chars_of(b));
    string_of(&v)
}

/// `a` followed by `b` and `c`.
fn text3(a: &str, b: &str, c: &str) -> (r: String)
    ensures
        r@ == a@ + b@ + c@,
{
    let mut v = chars_of(a);
    push_all(&mut v, &chars_of(b));
    push_all(&mut v, &chars_of(c));
    string_of(&v)
}

/// The reply to an error of a change to the thing named `name`: see [`change_error_text`].
fn change_error(e: &Error, verb: &str, name: &str) -> (r: String)
    ensures
        r@ == change_error_text(e@, verb@, name@),
{
    if matches!(e, Error::NotFound) {
        text3("There is no entity named \"", name, "\".")
    } else {
        let mut v = chars_of("Couldn't ");
        push_all(&mut v, &chars_of(verb));
        push_all(&mut v, &chars_of(" `"));
        push_all(&mut v, &chars_of(name));
        push_all(&mut v, &chars_of("`."));
        string_of(&v)
    }
}

/// Deletes the thing named `name`: see [`storage_run_effect`].
fn run_delete<D: DataStore>(repository: &mut Repository<D>, name: &String) -> (r: StorageReply)
    requires
        old(repository).wf(),
    ensures
        final(repository).wf(),
        storage_run_effect(StorageCommandView::Delete(name@), old(repository)@, r@, final(repository)@),
{
    let ghost v = repository@;
    let enabled = repository.data_store_enabled();
    match repository.get_by_name(name.as_str()) {
        Err(e) => {
            assert(lookup_name_spec(v, name@, Err(e@)));
            StorageReply::Text(Err(change_error(&e, "delete", name.as_str())))
        },
        Ok(rec) => {
            assert(lookup_name_spec(v, name@, Ok(rec@)));
            let change = Change::Delete { uuid: rec.thing.uuid, name: rec.thing.data.name_text() };
            let ghost cv = change@;
            let result = repository.modify(change);
            proof {
                if result is Ok {
                    let (c2, w1) = choose|c2: ChangeView, w1: RepositoryView|
                        modify_effect(v, cv, Ok(c2), w1) && w1.undo == v.undo && repository@ == (
                        RepositoryView { undo: push_undo_spec(v.undo, c2), ..w1 });
                    assert(applied(v, cv, c2, repository@));
                }
            }
            match result {
                Ok(Some(deleted)) => {
                    let n = deleted.thing.data.name_text();
                    let text = with_warning(
                        text2(n.as_str(), " was successfully deleted. Use `undo` to reverse this."),
                        enabled,
                    );
                    assert(reported(v, cv, repository@, deleted.thing@));
                    StorageReply::Text(Ok(text))
                },
                Ok(None) => StorageReply::Text(
                    Err(text3("There is no entity named \"", name.as_str(), "\".")),
                ),
                Err((_, e)) => StorageReply::Text(Err(change_error(&e, "delete", name.as_str()))),
            }
        },
    }
}

/// Saves the thing named `name`: see [`storage_run_effect`].
fn run_save<D: DataStore>(repository: &mut Repository<D>, name: &String) -> (r: StorageReply)
    requires
        old(repository).wf(),
    ensures
        final(repository).wf(),
        storage_run_effect(StorageCommandView::Save(name@), old(repository)@, r@, final(repository)@),
{
    let ghost v = repository@;
    let enabled = repository.data_store_enabled();
    let change = Change::Save { name: name.clone(), uuid: None };
    let ghost cv = change@;
    assert(cv == ChangeView::Save { name: name@, uuid: None });
    let result = repository.modify(change);
    match result {
        Ok(_) => {
            proof {
                let (c2, w1) = choose|c2: ChangeView, w1: RepositoryView|
                    modify_effect(v, cv, Ok(c2), w1) && w1.undo == v.undo && repository@ == (
                    RepositoryView { undo: push_undo_spec(v.undo, c2), ..w1 });
                assert(applied(v, cv, c2, repository@));
            }
            StorageReply::Text(
                Ok(
                    with_warning(
                        text2(name.as_str(), " was successfully saved. Use `undo` to reverse this."),
                        enabled,
                    ),
                ),
            )
        },
        Err((_, e)) => StorageReply::Text(Err(change_error(&e, "save", name.as_str()))),
    }
}

/// The reply to a successful undo or redo: the thing to show with the note in italics, or the
/// note alone with the warning.
fn undone_reply(record: Option<Record>, show: bool, note: String, enabled: bool) -> (r: StorageReply)
    ensures
        match record {
            Some(rec) => if show {
                r@ == StorageReplyView::Thing { thing: rec@.thing, note: seq!['_'] + note@ + seq!['_'] }
            } else {
                r@ == StorageReplyView::Text(Ok(warned(note@, enabled)))
            },
            None => r@ == StorageReplyView::Text(Ok(warned(note@, enabled))),
        },
{
    match record {
        Some(rec) => {
            if show {
                let mut v: Vec<char> = Vec::new();
                v.push('_');
                push_all(&mut v, &chars_of(note.as_str()));
                v.push('_');
                assert(v@ =~= seq!['_'] + note@ + seq!['_']);
                StorageReply::Thing { thing: rec.thing, note: string_of(&v) }
            } else {
                StorageReply::Text(Ok(with_warning(note, enabled)))
            }
        },
        None => StorageReply::Text(Ok(with_warning(note, enabled))),
    }
}

/// Undoes the newest change: see [`storage_run_effect`].
fn run_undo<D: DataStore>(repository: &mut Repository<D>) -> (r: StorageReply)
    requires
        old(repository).wf(),
    ensures
        final(repository).wf(),
        storage_run_effect(StorageCommandView::Undo, old(repository)@, r@, final(repository)@),
{
    let ghost v = repository@;
    let result = repository.undo();
    let ghost v1 = RepositoryView { undo: v.undo.drop_last(), ..v };
    let ghost c = v.undo.last();
    match result {
        Some(Ok(option_record)) => {
            let ghost (c2, w1) = choose|c2: ChangeView, w1: RepositoryView|
                modify_effect(v1, c, Ok(c2), w1) && w1.undo == v1.undo && repository@ == (
                RepositoryView { redo: Some(c2), ..w1 });
            let action = match repository.get_redo() {
                Some(change) => change.display_redo().to_string(),
                None => String::new(),
            };
            assert(action@ == redo_text(c2));
            let note = text3("Successfully undid ", action.as_str(), ". Use `redo` to reverse this.");
            assert(note@ == undid_text(redo_text(c2)));
            let enabled = repository.data_store_enabled();
            let ghost orv = match &option_record {
                Some(rec) => Some(rec@),
                None => None,
            };
            let r = undone_reply(option_record, true, note, enabled);
            proof {
                if orv is Some {
                    assert(lookup_change_spec(repository@, c2, Ok(orv->0)));
                    assert(lookup_change_spec(
                        repository@,
                        c2,
                        Ok(RecordView { status: orv->0.status, thing: orv->0.thing }),
                    ));
                }
            }
            assert(undo_effect(v, r@, repository@));
            r
        },
        Some(Err(e)) => {
            proof {
                let (c3, w1) = choose|c3: ChangeView, w1: RepositoryView|
                    modify_effect(v1, c, Err((c3, e@)), w1) && w1.undo == v1.undo && repository@
                        == (RepositoryView { undo: w1.undo.push(c3), ..w1 });
                assert(modify_effect(v1, c, Err((c3, e@)), w1));
            }
            StorageReply::Text(Err("Failed to undo.".to_owned()))
        },
        None => StorageReply::Text(Err("Nothing to undo.".to_owned())),
    }
}

/// Redoes the change in the redo slot: see [`storage_run_effect`].
fn run_redo<D: DataStore>(repository: &mut Repository<D>) -> (r: StorageReply)
    requires
        old(repository).wf(),
    ensures
        final(repository).wf(),
        storage_run_effect(StorageCommandView::Redo, old(repository)@, r@, final(repository)@),
{
    let ghost v = repository@;
    let result = repository.redo();
    let ghost v1 = RepositoryView { redo: None, ..v };
    let ghost c = v.redo->0;
    match result {
        Some(Ok(option_record)) => {
            let ghost (c2, w1) = choose|c2: ChangeView, w1: RepositoryView|
                modify_effect(v1, c, Ok(c2), w1) && w1.undo == v1.undo && repository@ == (
                RepositoryView { undo: push_undo_spec(v1.undo, c2), ..w1 });
            assert(applied(v1, c, c2, repository@));
            assert(repository@.undo.last() == c2);
            let history = repository.undo_history();
            let action = if history.len() > 0 {
                history[0].display_undo().to_string()
            } else {
                String::new()
            };
            assert(action@ == undo_text(c2));
            let note = text3("Successfully redid ", action.as_str(), ". Use `undo` to reverse this.");
            assert(note@ == redid_text(undo_text(c2)));
            let enabled = repository.data_store_enabled();
            let show = match &option_record {
                Some(rec) => rec.status != RecordStatus::Deleted,
                None => false,
            };
            let ghost orv = match &option_record {
                Some(rec) => Some(rec@),
                None => None,
            };
            let r = undone_reply(option_record, show, note, enabled);
            proof {
                if show {
                    let rv = orv->0;
                    assert(rv == RecordView { status: rv.status, thing: rv.thing });
                    assert(reported(v, c, repository@, rv.thing));
                }
            }
            assert(redo_effect(v, r@, repository@));
            r
        },
        Some(Err(e)) => {
            proof {
                let (c3, w1) = choose|c3: ChangeView, w1: RepositoryView|
                    modify_effect(v1, c, Err((c3, e@)), w1) && repository@ == (RepositoryView {
                        redo: Some(c3),
                        ..w1
                    });
                assert(modify_effect(v1, c, Err((c3, e@)), w1));
            }
            StorageReply::Text(Err("Failed to redo.".to_owned()))
        },
        None => StorageReply::Text(Err("Nothing to redo.".to_owned())),
    }
}

impl StorageCommand {
    /// Runs the command against the repository: see [`storage_run_effect`].
    pub fn run<D: DataStore>(&self, repository: &mut Repository<D>) -> (r: StorageReply)
        requires
            old(repository).wf(),
        ensures
            final(repository).wf(),
            storage_run_effect(self@, old(repository)@, r@, final(repository)@),
    {
        let enabled = repository.data_store_enabled();
        match self {
            StorageCommand::Delete { name } => run_delete(repository, name),
            StorageCommand::Save { name } => run_save(repository, name),
            StorageCommand::Undo => run_undo(repository),
            StorageCommand::Redo => run_redo(repository),
            StorageCommand::Journal => match repository.journal() {
                Ok(things) => {
                    let r = StorageReply::Journal(things);
                    proof {
                        let tv = things@.map_values(|t: Thing| t@);
                        assert(r@ == StorageReplyView::Journal(tv));
                        assert forall|k: u128| #[trigger] repository@.things.contains_key(k) implies exists|i: int|
                            0 <= i < tv.len() && tv[i].uuid == k by {
                            let i = choose|i: int| 0 <= i < things@.len() && things@[i].uuid == k;
                            assert(tv[i].uuid == k);
                        }
                    }
                        r
                },
                Err(_) => StorageReply::Text(Err("Couldn't access the journal.".to_owned())),
            },
            StorageCommand::Load { name } => {
                let ghost v = repository@;
                match repository.get_by_name(name.as_str()) {
                    Ok(record) => {
                        assert(lookup_name_spec(v, name@, Ok(record@)));
                        let r = StorageReply::Loaded(record);
                        r
                    },
                    Err(e) => {
                        assert(lookup_name_spec(v, name@, Err(e@)));
                        let r = StorageReply::Text(Err(text3("No matches for \"", name.as_str(), "\"")));
                        r
                    },
                }
            },
            StorageCommand::Export => {
                let r = StorageReply::Export {
                    backup: export(repository),
                    text: with_warning(
                        "The journal is exporting. Your download should begin shortly.".to_owned(),
                        enabled,
                    ),
                };
                r
            },
            StorageCommand::Import => {
                let r = StorageReply::Import {
                    text: with_warning(
                        "The file upload popup should appear momentarily. Please select a compatible JSON file, such as that produced by the `export` command.".to_owned(),
                        enabled,
                    ),
                };
                r
            },
        }
    }
}

} // verus!
