//! The repository: recent things, the journal in the data store, and the history of changes that
//! can be undone and redone.

use super::data_store::{lists_all_starting, uuids_distinct, DataStore, MemoryDataStore};
use super::thing::{
    apply_diff_spec, has_name, name_text, Thing, ThingData, ThingDataView, ThingKind, ThingView,
};
use crate::text::{chars_of, push_all, string_of};
use crate::time::interval::short_text;
use crate::time::{Time, TimeParts};
use vstd::prelude::*;

verus! {

/// The most recent things that are kept; the oldest go first.
pub const RECENT_MAX_LEN: usize = 100;

/// The most changes that can be undone.
pub const UNDO_HISTORY_LEN: usize = 10;

/// A value of the key-value store, with its key.
#[derive(Debug, Eq, PartialEq, Structural)]
pub enum KeyValue {
    Time(Option<Time>),
}

impl KeyValue {
    /// A copy of the key-value.
    pub fn duplicate(&self) -> (r: KeyValue)
        ensures
            r == *self,
    {
        match self {
            KeyValue::Time(Some(t)) => KeyValue::Time(Some(t.duplicate())),
            KeyValue::Time(None) => KeyValue::Time(None),
        }
    }

    /// The key under which the value is stored.
    pub fn key_raw(&self) -> (r: &'static str)
        ensures
            r@ == "time"@,
    {
        match self {
            KeyValue::Time(_) => "time",
        }
    }

    /// The key and the stored text of the value: the short rendering of the time, or nothing
    /// where it is not set.
    pub fn key_value_raw(&self) -> (r: (&'static str, Option<String>))
        ensures
            r.0@ == "time"@,
            match (self, r.1) {
                (KeyValue::Time(Some(t)), Some(s)) => s@ == crate::time::short_text(t.parts()),
                (KeyValue::Time(None), None) => true,
                _ => false,
            },
    {
        match self {
            KeyValue::Time(Some(t)) => (self.key_raw(), Some(t.display_short().to_string())),
            KeyValue::Time(None) => (self.key_raw(), None),
        }
    }

    /// The time, where this is the time and it is set.
    pub fn time(self) -> (r: Option<Time>)
        ensures
            r == match self {
                KeyValue::Time(t) => t,
            },
    {
        match self {
            KeyValue::Time(t) => t,
        }
    }
}

/// Where a record was found: only among the recent things, or in the journal; or that it was
/// deleted.
#[derive(Clone, Copy, Debug, Eq, PartialEq, Structural)]
pub enum RecordStatus {
    Unsaved,
    Saved,
    Deleted,
}

/// A thing, with where it was found.
#[derive(Clone, Debug, Eq, PartialEq)]
pub struct Record {
    pub status: RecordStatus,
    pub thing: Thing,
}

/// The value of a [`Record`].
pub struct RecordView {
    pub status: RecordStatus,
    pub thing: ThingView,
}

impl View for Record {
    type V = RecordView;

    open spec fn view(&self) -> RecordView {
        RecordView { status: self.status, thing: self.thing@ }
    }
}

impl Record {
    /// Whether the thing is in the journal.
    pub fn is_saved(&self) -> (r: bool)
        ensures
            r == (self.status == RecordStatus::Saved),
    {
        self.status == RecordStatus::Saved
    }

    /// Whether the thing is only among the recent things.
    pub fn is_unsaved(&self) -> (r: bool)
        ensures
            r == (self.status == RecordStatus::Unsaved),
    {
        self.status == RecordStatus::Unsaved
    }

    /// Whether the thing was deleted.
    pub fn is_deleted(&self) -> (r: bool)
        ensures
            r == (self.status == RecordStatus::Deleted),
    {
        self.status == RecordStatus::Deleted
    }
}

/// A modification of the repository. Every change has an opposite, which applying it gives and
/// which goes into the undo history: creating is undone by deleting, saving by unsaving, an
/// edit by the edit that restores the replaced fields, and setting a value by setting the old
/// one.
#[derive(Debug, Eq, PartialEq)]
pub enum Change {
    /// Creates a thing among the recent things.
    Create { thing_data: ThingData, uuid: Option<u128> },
    /// Creates a thing directly in the journal.
    CreateAndSave { thing_data: ThingData, uuid: Option<u128> },
    /// Deletes a thing from the recent things or the journal.
    Delete { uuid: u128, name: String },
    /// Edits a thing, found by name or UUID.
    Edit { name: String, uuid: Option<u128>, diff: ThingData },
    /// Edits a thing and moves it from the journal to the recent things.
    EditAndUnsave { uuid: u128, name: String, diff: ThingData },
    /// Moves a thing from the recent things to the journal.
    Save { name: String, uuid: Option<u128> },
    /// Moves a thing from the journal to the recent things.
    Unsave { uuid: u128, name: String },
    /// Sets a value of the key-value store.
    SetKeyValue { key_value: KeyValue },
}

/// The value of a [`Change`].
pub enum ChangeView {
    Create { thing_data: ThingDataView, uuid: Option<u128> },
    CreateAndSave { thing_data: ThingDataView, uuid: Option<u128> },
    Delete { uuid: u128, name: Seq<char> },
    Edit { name: Seq<char>, uuid: Option<u128>, diff: ThingDataView },
    EditAndUnsave { uuid: u128, name: Seq<char>, diff: ThingDataView },
    Save { name: Seq<char>, uuid: Option<u128> },
    Unsave { uuid: u128, name: Seq<char> },
    SetKeyValue { key_value: KeyValue },
}

impl View for Change {
    type V = ChangeView;

    open spec fn view(&self) -> ChangeView {
        match self {
            Change::Create { thing_data, uuid } => ChangeView::Create {
                thing_data: thing_data@,
                uuid: *uuid,
            },
            Change::CreateAndSave { thing_data, uuid } => ChangeView::CreateAndSave {
                thing_data: thing_data@,
                uuid: *uuid,
            },
            Change::Delete { uuid, name } => ChangeView::Delete { uuid: *uuid, name: name@ },
            Change::Edit { name, uuid, diff } => ChangeView::Edit {
                name: name@,
                uuid: *uuid,
                diff: diff@,
            },
            Change::EditAndUnsave { uuid, name, diff } => ChangeView::EditAndUnsave {
                uuid: *uuid,
                name: name@,
                diff: diff@,
            },
            Change::Save { name, uuid } => ChangeView::Save { name: name@, uuid: *uuid },
            Change::Unsave { uuid, name } => ChangeView::Unsave { uuid: *uuid, name: name@ },
            Change::SetKeyValue { key_value } => ChangeView::SetKeyValue { key_value: *key_value },
        }
    }
}

/// What redoing a change does, in words.
pub open spec fn redo_text(c: ChangeView) -> Seq<char> {
    match c {
        ChangeView::Create { thing_data, .. } => "creating "@ + name_text(thing_data),
        ChangeView::CreateAndSave { thing_data, .. } => "creating "@ + name_text(thing_data),
        ChangeView::Delete { name, .. } => "deleting "@ + name,
        ChangeView::Edit { name, .. } => "editing "@ + name,
        ChangeView::EditAndUnsave { name, .. } => "editing "@ + name,
        ChangeView::Save { name, .. } => "saving "@ + name + " to journal"@,
        ChangeView::Unsave { name, .. } => "removing "@ + name + " from journal"@,
        ChangeView::SetKeyValue { .. } => "changing the time"@,
    }
}

/// What a change undoes, in words: the reverse of what it does (applying a `Create` from the
/// undo history undoes deleting), except for the changes that are their own reverse.
pub open spec fn undo_text(c: ChangeView) -> Seq<char> {
    match c {
        ChangeView::Create { thing_data, .. } => "deleting "@ + name_text(thing_data),
        ChangeView::CreateAndSave { thing_data, .. } => "deleting "@ + name_text(thing_data),
        ChangeView::Delete { name, .. } => "creating "@ + name,
        ChangeView::Save { name, .. } => "removing "@ + name + " from journal"@,
        ChangeView::Unsave { name, .. } => "saving "@ + name + " to journal"@,
        _ => redo_text(c),
    }
}

/// Describes what applying a change from the undo history undoes.
pub struct DisplayUndo<'a>(&'a Change);

/// Describes what applying a change from the redo slot redoes.
pub struct DisplayRedo<'a>(&'a Change);

/// The text `a`, then `b`.
fn concat2(a: &str, b: &str) -> (r: String)
    ensures
        r@ == a@ + b@,
{
    let mut v = chars_of(a);
    push_all(&mut v, &chars_of(b));
    string_of(&v)
}

/// The text `a`, then `b`, then `c`.
fn concat3(a: &str, b: &str, c: &str) -> (r: String)
    ensures
        r@ == a@ + b@ + c@,
{
    let mut v = chars_of(a);
    push_all(&mut v, &chars_of(b));
    push_all(&mut v, &chars_of(c));
    string_of(&v)
}

impl<'a> DisplayUndo<'a> {
    /// The change described.
    pub closed spec fn change(&self) -> ChangeView {
        self.0@
    }

    /// What applying the change undoes, in words.
    pub fn to_string(&self) -> (r: String)
        ensures
            r@ == undo_text(self.change()),
    {
        match self.0 {
            Change::Create { thing_data, .. } | Change::CreateAndSave { thing_data, .. } => {
                concat2("deleting ", thing_data.name_text().as_str())
            },
            Change::Delete { name, .. } => concat2("creating ", name.as_str()),
            Change::Save { name, .. } => concat3("removing ", name.as_str(), " from journal"),
            Change::Unsave { name, .. } => concat3("saving ", name.as_str(), " to journal"),
            _ => DisplayRedo(self.0).to_string(),
        }
    }
}

impl<'a> DisplayRedo<'a> {
    /// The change described.
    pub closed spec fn change(&self) -> ChangeView {
        self.0@
    }

    /// What applying the change does, in words.
    pub fn to_string(&self) -> (r: String)
        ensures
            r@ == redo_text(self.change()),
    {
        match self.0 {
            Change::Create { thing_data, .. } | Change::CreateAndSave { thing_data, .. } => {
                concat2("creating ", thing_data.name_text().as_str())
            },
            Change::Delete { name, .. } => concat2("deleting ", name.as_str()),
            Change::Edit { name, .. } | Change::EditAndUnsave { name, .. } => {
                concat2("editing ", name.as_str())
            },
            Change::Save { name, .. } => concat3("saving ", name.as_str(), " to journal"),
            Change::Unsave { name, .. } => concat3("removing ", name.as_str(), " from journal"),
            Change::SetKeyValue { .. } => "changing the time".to_owned(),
        }
    }
}

impl Change {
    /// Describes what applying this change from the undo history undoes.
    pub fn display_undo(&self) -> (r: DisplayUndo<'_>)
        ensures
            r.change() == self@,
    {
        DisplayUndo(self)
    }

    /// Describes what applying this change from the redo slot redoes.
    pub fn display_redo(&self) -> (r: DisplayRedo<'_>)
        ensures
            r.change() == self@,
    {
        DisplayRedo(self)
    }
}

/// Why a change or a lookup failed.
#[derive(Debug, Eq, PartialEq)]
pub enum Error {
    DataStoreFailed,
    MissingName,
    UuidAlreadyExists(Thing),
    NameAlreadyExists(Thing),
    NotFound,
}


/// The value of an [`Error`].
pub enum ErrorView {
    DataStoreFailed,
    MissingName,
    UuidAlreadyExists(ThingView),
    NameAlreadyExists(ThingView),
    NotFound,
}

impl View for Error {
    type V = ErrorView;

    open spec fn view(&self) -> ErrorView {
        match self {
            Error::DataStoreFailed => ErrorView::DataStoreFailed,
            Error::MissingName => ErrorView::MissingName,
            Error::UuidAlreadyExists(t) => ErrorView::UuidAlreadyExists(t@),
            Error::NameAlreadyExists(t) => ErrorView::NameAlreadyExists(t@),
            Error::NotFound => ErrorView::NotFound,
        }
    }
}

/// `uuid::Uuid::new_v4`, as an integer: a random UUID. It rests on chance, so nothing is stated
/// of it.
#[verifier::external_body]
fn new_uuid() -> (r: u128) {
    uuid::Uuid::new_v4().as_u128()
}

/// The data store that a repository uses: the one it was given, or, where that one failed its
/// health check, one in memory.
pub enum FallbackStore<D> {
    Given(D),
    Memory(MemoryDataStore),
}

impl<D: DataStore> DataStore for FallbackStore<D> {
    open spec fn things(&self) -> Map<u128, ThingView> {
        match self {
            FallbackStore::Given(d) => d.things(),
            FallbackStore::Memory(m) => m.things(),
        }
    }

    open spec fn key_values(&self) -> Map<Seq<char>, Seq<char>> {
        match self {
            FallbackStore::Given(d) => d.key_values(),
            FallbackStore::Memory(m) => m.key_values(),
        }
    }

    open spec fn answers(&self) -> bool {
        match self {
            FallbackStore::Given(d) => d.answers(),
            FallbackStore::Memory(m) => m.answers(),
        }
    }

    fn health_check(&self) -> (r: Result<(), ()>)
        ensures
            self is Memory ==> r is Ok,
    {
        match self {
            FallbackStore::Given(d) => d.health_check(),
            FallbackStore::Memory(m) => m.health_check(),
        }
    }

    fn delete_thing_by_uuid(&mut self, uuid: &u128) -> (r: Result<(), ()>)
        ensures
            *old(self) is Memory ==> (r is Ok <==> old(self).things().contains_key(*uuid)),
    {
        match self {
            FallbackStore::Given(d) => d.delete_thing_by_uuid(uuid),
            FallbackStore::Memory(m) => m.delete_thing_by_uuid(uuid),
        }
    }

    fn edit_thing(&mut self, thing: &Thing) -> (r: Result<(), ()>)
        ensures
            *old(self) is Memory ==> r is Ok,
    {
        match self {
            FallbackStore::Given(d) => d.edit_thing(thing),
            FallbackStore::Memory(m) => m.edit_thing(thing),
        }
    }

    fn get_all_the_things(&self) -> (r: Result<Vec<Thing>, ()>)
        ensures
            self is Memory ==> r is Ok && uuids_distinct(r->Ok_0@),
    {
        match self {
            FallbackStore::Given(d) => d.get_all_the_things(),
            FallbackStore::Memory(m) => m.get_all_the_things(),
        }
    }

    fn get_thing_by_uuid(&self, uuid: &u128) -> (r: Result<Option<Thing>, ()>)
        ensures
            self is Memory ==> r is Ok,
    {
        match self {
            FallbackStore::Given(d) => d.get_thing_by_uuid(uuid),
            FallbackStore::Memory(m) => m.get_thing_by_uuid(uuid),
        }
    }

    fn get_thing_by_name(&self, name: &str) -> (r: Result<Option<Thing>, ()>)
        ensures
            self is Memory ==> r is Ok,
    {
        match self {
            FallbackStore::Given(d) => d.get_thing_by_name(name),
            FallbackStore::Memory(m) => m.get_thing_by_name(name),
        }
    }

    fn get_things_by_name_start(&self, name: &str, limit: Option<usize>) -> (r: Result<
        Vec<Thing>,
        (),
    >)
        ensures
            self is Memory ==> r is Ok && uuids_distinct(r->Ok_0@) && ((limit matches Some(n)
                && r->Ok_0@.len() == n) || lists_all_starting(self.things(), r->Ok_0@, name@)),
    {
        match self {
            FallbackStore::Given(d) => d.get_things_by_name_start(name, limit),
            FallbackStore::Memory(m) => m.get_things_by_name_start(name, limit),
        }
    }

    fn save_thing(&mut self, thing: &Thing) -> (r: Result<(), ()>)
        ensures
            *old(self) is Memory ==> (r is Ok <==> !old(self).things().contains_key(thing.uuid)),
    {
        match self {
            FallbackStore::Given(d) => d.save_thing(thing),
            FallbackStore::Memory(m) => m.save_thing(thing),
        }
    }

    fn set_value(&mut self, key: &str, value: &str) -> (r: Result<(), ()>)
        ensures
            *old(self) is Memory ==> r is Ok,
    {
        match self {
            FallbackStore::Given(d) => d.set_value(key, value),
            FallbackStore::Memory(m) => m.set_value(key, value),
        }
    }

    fn get_value(&self, key: &str) -> (r: Result<Option<String>, ()>)
        ensures
            self is Memory ==> r is Ok,
    {
        match self {
            FallbackStore::Given(d) => d.get_value(key),
            FallbackStore::Memory(m) => m.get_value(key),
        }
    }

    fn delete_value(&mut self, key: &str) -> (r: Result<(), ()>)
        ensures
            *old(self) is Memory ==> r is Ok,
    {
        match self {
            FallbackStore::Given(d) => d.delete_value(key),
            FallbackStore::Memory(m) => m.delete_value(key),
        }
    }
}


/// The views of some things.
pub open spec fn things_view(s: Seq<Thing>) -> Seq<ThingView> {
    s.map_values(|t: Thing| t@)
}

/// The views of some changes.
pub open spec fn changes_view(s: Seq<Change>) -> Seq<ChangeView> {
    s.map_values(|c: Change| c@)
}

/// The position of the first thing with `uuid`, if any.
pub open spec fn first_uuid(r: Seq<ThingView>, uuid: u128) -> Option<int>
    decreases r.len(),
{
    if r.len() == 0 {
        None
    } else if r[0].uuid == uuid {
        Some(0)
    } else {
        match first_uuid(r.drop_first(), uuid) {
            Some(k) => Some(k + 1),
            None => None,
        }
    }
}

/// The position of the first thing named `name` (ignoring ASCII case), if any.
pub open spec fn first_named(r: Seq<ThingView>, name: Seq<char>) -> Option<int>
    decreases r.len(),
{
    if r.len() == 0 {
        None
    } else if has_name(r[0], name) {
        Some(0)
    } else {
        match first_named(r.drop_first(), name) {
            Some(k) => Some(k + 1),
            None => None,
        }
    }
}

/// The position of the latest thing named `name` (ignoring ASCII case), if any.
pub open spec fn last_named(r: Seq<ThingView>, name: Seq<char>) -> Option<int>
    decreases r.len(),
{
    if r.len() == 0 {
        None
    } else if has_name(r.last(), name) {
        Some(r.len() - 1)
    } else {
        last_named(r.drop_last(), name)
    }
}

/// Where `last_named` finds a thing.
pub proof fn lemma_last_named(r: Seq<ThingView>, name: Seq<char>)
    ensures
        match last_named(r, name) {
            Some(k) => 0 <= k < r.len() && has_name(r[k], name) && forall|j: int|
                k < j < r.len() ==> !has_name(r[j], name),
            None => forall|j: int| 0 <= j < r.len() ==> !has_name(r[j], name),
        },
    decreases r.len(),
{
    if r.len() > 0 && !has_name(r.last(), name) {
        lemma_last_named(r.drop_last(), name);
        assert forall|j: int| 0 <= j < r.len() - 1 implies r[j] == r.drop_last()[j] by {}
    }
}

/// Where `first_uuid` finds a thing.
pub proof fn lemma_first_uuid(r: Seq<ThingView>, uuid: u128)
    ensures
        match first_uuid(r, uuid) {
            Some(k) => 0 <= k < r.len() && r[k].uuid == uuid && forall|j: int|
                0 <= j < k ==> r[j].uuid != uuid,
            None => forall|j: int| 0 <= j < r.len() ==> r[j].uuid != uuid,
        },
    decreases r.len(),
{
    if r.len() > 0 && r[0].uuid != uuid {
        lemma_first_uuid(r.drop_first(), uuid);
        assert forall|j: int| 1 <= j < r.len() implies r[j] == r.drop_first()[j - 1] by {}
    }
}

/// Where `first_named` finds a thing.
pub proof fn lemma_first_named(r: Seq<ThingView>, name: Seq<char>)
    ensures
        match first_named(r, name) {
            Some(k) => 0 <= k < r.len() && has_name(r[k], name) && forall|j: int|
                0 <= j < k ==> !has_name(r[j], name),
            None => forall|j: int| 0 <= j < r.len() ==> !has_name(r[j], name),
        },
    decreases r.len(),
{
    if r.len() > 0 && !has_name(r[0], name) {
        lemma_first_named(r.drop_first(), name);
        assert forall|j: int| 1 <= j < r.len() implies r[j] == r.drop_first()[j - 1] by {}
    }
}

/// The recent things after `t` is added: it goes last, and the oldest go where there would be
/// more than `RECENT_MAX_LEN`.
pub open spec fn push_recent_spec(r: Seq<ThingView>, t: ThingView) -> Seq<ThingView> {
    if r.len() >= RECENT_MAX_LEN {
        r.skip(r.len() - (RECENT_MAX_LEN - 1)).push(t)
    } else {
        r.push(t)
    }
}

/// The undo history after `c` is added: it goes last, and the oldest go where there would be
/// more than `UNDO_HISTORY_LEN`.
pub open spec fn push_undo_spec(u: Seq<ChangeView>, c: ChangeView) -> Seq<ChangeView> {
    if u.len() >= UNDO_HISTORY_LEN {
        u.skip(u.len() - (UNDO_HISTORY_LEN - 1)).push(c)
    } else {
        u.push(c)
    }
}

/// The state of a repository.
pub struct RepositoryView {
    pub enabled: bool,
    /// The data store answers every request (see [`DataStore::answers`]).
    pub answers: bool,
    pub recent: Seq<ThingView>,
    pub things: Map<u128, ThingView>,
    pub values: Map<Seq<char>, Seq<char>>,
    pub undo: Seq<ChangeView>,
    pub redo: Option<ChangeView>,
}

/// The repository: the recent things (not yet saved), the data store that holds the journal,
/// and the history of changes.
pub struct Repository<D> {
    data_store: FallbackStore<D>,
    data_store_enabled: bool,
    recent: Vec<Thing>,
    redo_change: Option<Change>,
    undo_history: Vec<Change>,
}

impl<D: DataStore> View for Repository<D> {
    type V = RepositoryView;

    closed spec fn view(&self) -> RepositoryView {
        RepositoryView {
            enabled: self.data_store_enabled,
            answers: self.data_store.answers(),
            recent: things_view(self.recent@),
            things: self.data_store.things(),
            values: self.data_store.key_values(),
            undo: changes_view(self.undo_history@),
            redo: match self.redo_change {
                Some(c) => Some(c@),
                None => None,
            },
        }
    }
}

/// A well-formed state: no more recent things and changes than are kept.
pub open spec fn repository_wf(v: RepositoryView) -> bool {
    v.recent.len() <= RECENT_MAX_LEN && v.undo.len() <= UNDO_HISTORY_LEN
}

/// What a lookup of `uuid` may give: the first recent thing with it (unsaved); else the journal's
/// thing (saved), `NotFound` where the journal has none, or a failure of the data store.
pub open spec fn lookup_uuid_spec(v: RepositoryView, uuid: u128, r: Result<RecordView, ErrorView>) -> bool {
    match first_uuid(v.recent, uuid) {
        Some(i) => r == Ok::<RecordView, ErrorView>(
            RecordView { status: RecordStatus::Unsaved, thing: v.recent[i] },
        ),
        None => match r {
            Ok(rec) => v.things.contains_key(uuid) && rec == RecordView {
                status: RecordStatus::Saved,
                thing: v.things[uuid],
            } && rec.thing.uuid == uuid,
            Err(ErrorView::NotFound) => !v.things.contains_key(uuid),
            Err(ErrorView::DataStoreFailed) => !v.answers,
            Err(_) => false,
        },
    }
}

/// What a lookup of `name` may give: the first recent thing with it (unsaved); else a thing of
/// the journal with it (saved), `NotFound` where the journal has none, or a failure of the data
/// store.
pub open spec fn lookup_name_spec(v: RepositoryView, name: Seq<char>, r: Result<RecordView, ErrorView>) -> bool {
    match first_named(v.recent, name) {
        Some(i) => r == Ok::<RecordView, ErrorView>(
            RecordView { status: RecordStatus::Unsaved, thing: v.recent[i] },
        ),
        None => match r {
            Ok(rec) => rec.status == RecordStatus::Saved && v.things.contains_key(rec.thing.uuid)
                && v.things[rec.thing.uuid] == rec.thing && has_name(rec.thing, name),
            Err(ErrorView::NotFound) => forall|k: u128| #[trigger]
                v.things.contains_key(k) ==> !has_name(v.things[k], name),
            Err(ErrorView::DataStoreFailed) => !v.answers,
            Err(_) => false,
        },
    }
}

/// Why creating a thing from `data` (with `uuid`, where given) may be refused in state `v`: a
/// thing with the UUID exists, a thing with the name exists, the data has no name, or (only
/// where the thing is saved to the journal) the data store failed.
pub open spec fn create_refused(
    v: RepositoryView,
    data: ThingDataView,
    uuid: Option<u128>,
    e: ErrorView,
    saving: bool,
) -> bool {
    match e {
        ErrorView::UuidAlreadyExists(th) => (uuid matches Some(k) ==> th.uuid == k) && exists|
            rec: RecordView,
        | #[trigger] lookup_uuid_spec(v, th.uuid, Ok(rec)) && rec.thing == th,
        ErrorView::NameAlreadyExists(th) => data.name matches Some(n) && has_name(th, n) && exists|
            rec: RecordView,
        | #[trigger] lookup_name_spec(v, n, Ok(rec)) && rec.thing == th,
        ErrorView::MissingName => data.name is None,
        ErrorView::DataStoreFailed => saving && data.name is Some,
        _ => false,
    }
}

/// Creating a thing from `data` with `uuid` is owed in state `v`: the UUID is given and no thing
/// has it, and the data has a name that no thing has.
pub open spec fn create_owed(v: RepositoryView, data: ThingDataView, uuid: Option<u128>) -> bool {
    &&& uuid matches Some(u) && first_uuid(v.recent, u) is None && !v.things.contains_key(u)
    &&& data.name matches Some(n) && first_named(v.recent, n) is None && forall|k: u128|
        #[trigger] v.things.contains_key(k) ==> !has_name(v.things[k], n)
}

/// The value of a lookup's result.
pub open spec fn record_result_view(r: Result<Record, Error>) -> Result<RecordView, ErrorView> {
    match r {
        Ok(rec) => Ok(rec@),
        Err(e) => Err(e@),
    }
}

impl<D: DataStore> Repository<D> {
    /// The state is well formed: see [`repository_wf`].
    pub open spec fn wf(&self) -> bool {
        repository_wf(self@)
    }

    /// A repository over `data_store`, with no recent things and no history; the data store is
    /// not used until [`Repository::init`] has checked it.
    pub fn new(data_store: D) -> (r: Self)
        ensures
            r.wf(),
            r@.enabled == false,
            r@.recent == Seq::<ThingView>::empty(),
            r@.things == data_store.things(),
            r@.values == data_store.key_values(),
            r@.undo == Seq::<ChangeView>::empty(),
            r@.redo is None,
    {
        let r = Repository {
            data_store: FallbackStore::Given(data_store),
            data_store_enabled: false,
            recent: Vec::new(),
            redo_change: None,
            undo_history: Vec::new(),
        };
        assert(things_view(r.recent@) =~= Seq::<ThingView>::empty());
        assert(changes_view(r.undo_history@) =~= Seq::<ChangeView>::empty());
        r
    }

    /// Checks the data store: where it is healthy it is used from now on; otherwise an empty
    /// store in memory takes its place.
    pub fn init(&mut self)
        requires
            old(self).wf(),
        ensures
            final(self).wf(),
            old(self)@.answers ==> final(self)@.enabled && final(self)@.things == old(self)@.things,
            final(self)@.answers || final(self)@.enabled,
            final(self)@.recent == old(self)@.recent,
            final(self)@.undo == old(self)@.undo,
            final(self)@.redo == old(self)@.redo,
            (final(self)@.enabled && final(self)@.things == old(self)@.things
                && final(self)@.values == old(self)@.values) || (final(self)@.enabled == old(
                self,
            )@.enabled && final(self)@.things == Map::<u128, ThingView>::empty()
                && final(self)@.values == Map::<Seq<char>, Seq<char>>::empty()),
    {
        let health = self.data_store.health_check();
        self.init_with(health);
    }

    /// What [`Repository::init`] does once the data store has answered its health check with
    /// `health`: where it passed, the data store is enabled; where it failed, it is replaced by
    /// an empty one in memory, and stays disabled.
    pub fn init_with(&mut self, health: Result<(), ()>)
        requires
            old(self).wf(),
        ensures
            final(self).wf(),
            final(self)@.recent == old(self)@.recent,
            final(self)@.undo == old(self)@.undo,
            final(self)@.redo == old(self)@.redo,
            health is Ok ==> final(self)@.enabled && final(self)@.things == old(self)@.things
                && final(self)@.values == old(self)@.values && final(self)@.answers == old(
                self,
            )@.answers,
            health is Err ==> final(self)@.answers,
            health is Err ==> final(self)@.enabled == old(self)@.enabled && final(self)@.things
                == Map::<u128, ThingView>::empty() && final(self)@.values == Map::<
                Seq<char>,
                Seq<char>,
            >::empty(),
    {
        if health.is_ok() {
            self.data_store_enabled = true;
        } else {
            self.data_store = FallbackStore::Memory(MemoryDataStore::new());
        }
    }

    /// The data store in use.
    pub fn data_store(&self) -> (r: &FallbackStore<D>)
        ensures
            r.things() == self@.things,
            r.key_values() == self@.values,
    {
        &self.data_store
    }

    /// Whether the data store passed its health check.
    pub fn data_store_enabled(&self) -> (r: bool)
        ensures
            r == self@.enabled,
    {
        self.data_store_enabled
    }

    /// The recent things, oldest first.
    pub fn recent(&self) -> (r: &[Thing])
        ensures
            things_view(r@) == self@.recent,
    {
        self.recent.as_slice()
    }

    /// The changes that can be undone, newest first.
    pub fn undo_history(&self) -> (r: Vec<&Change>)
        ensures
            r@.len() == self@.undo.len(),
            forall|i: int|
                0 <= i < r@.len() ==> (#[trigger] r@[i])@ == self@.undo[self@.undo.len() - 1 - i],
    {
        let mut r: Vec<&Change> = Vec::new();
        let mut i = self.undo_history.len();
        while i > 0
            invariant
                i <= self.undo_history@.len(),
                r@.len() == self.undo_history@.len() - i,
                forall|j: int|
                    0 <= j < r@.len() ==> (#[trigger] r@[j])@ == self.undo_history@[self.undo_history@.len()
                        - 1 - j]@,
            decreases i,
        {
            i = i - 1;
            r.push(&self.undo_history[i]);
        }
        r
    }

    /// The change that [`Repository::redo`] would apply, if any.
    pub fn get_redo(&self) -> (r: Option<&Change>)
        ensures
            match r {
                Some(c) => self@.redo == Some(c@),
                None => self@.redo is None,
            },
    {
        match &self.redo_change {
            Some(c) => Some(c),
            None => None,
        }
    }

    /// Adds `thing` to the recent things: see [`push_recent_spec`].
    pub fn push_recent(&mut self, thing: Thing)
        requires
            old(self).wf(),
        ensures
            final(self).wf(),
            final(self)@ == (RepositoryView {
                recent: push_recent_spec(old(self)@.recent, thing@),
                ..old(self)@
            }),
    {
        let ghost r0 = self.recent@;
        if self.recent.len() >= RECENT_MAX_LEN {
            self.recent.remove(0);
            assert(things_view(self.recent@) =~= things_view(r0).skip(1));
        }
        let ghost r1 = self.recent@;
        self.recent.push(thing);
        assert(things_view(self.recent@) =~= things_view(r1).push(thing@));
        assert(things_view(self.recent@) =~= push_recent_spec(things_view(r0), thing@));
    }

    /// Adds `change` to the undo history: see [`push_undo_spec`].
    fn push_undo(&mut self, change: Change)
        requires
            old(self).wf(),
        ensures
            final(self).wf(),
            final(self)@ == (RepositoryView {
                undo: push_undo_spec(old(self)@.undo, change@),
                ..old(self)@
            }),
    {
        let ghost u0 = self.undo_history@;
        if self.undo_history.len() >= UNDO_HISTORY_LEN {
            self.undo_history.remove(0);
            assert(changes_view(self.undo_history@) =~= changes_view(u0).skip(1));
        }
        let ghost u1 = self.undo_history@;
        self.undo_history.push(change);
        assert(changes_view(self.undo_history@) =~= changes_view(u1).push(change@));
        assert(changes_view(self.undo_history@) =~= push_undo_spec(changes_view(u0), change@));
    }

    /// Takes the first recent thing with `uuid` out, if any.
    fn take_recent_uuid(&mut self, uuid: u128) -> (r: Option<Thing>)
        requires
            old(self).wf(),
        ensures
            final(self).wf(),
            match first_uuid(old(self)@.recent, uuid) {
                Some(i) => r matches Some(t) && t@ == old(self)@.recent[i] && final(self)@ == (
                RepositoryView { recent: old(self)@.recent.remove(i), ..old(self)@ }),
                None => r is None && final(self)@ == old(self)@,
            },
    {
        proof {
            lemma_first_uuid(self@.recent, uuid);
        }
        let mut i: usize = 0;
        let n = self.recent.len();
        while i < n
            invariant
                n == self.recent@.len(),
                i <= n,
                forall|j: int| 0 <= j < i ==> self.recent@[j].uuid != uuid,
            ensures
                i <= n,
                forall|j: int| 0 <= j < i ==> self.recent@[j].uuid != uuid,
                i < n ==> self.recent@[i as int].uuid == uuid,
            decreases n - i,
        {
            if self.recent[i].uuid == uuid {
                break;
            }
            i = i + 1;
        }
        proof {
            lemma_first_uuid(self@.recent, uuid);
            assert forall|j: int| 0 <= j < n implies #[trigger] self@.recent[j] == self.recent@[j]@ by {}
            if i < n {
                assert(self@.recent[i as int].uuid == uuid);
                assert(first_uuid(self@.recent, uuid) == Some(i as int));
            } else {
                assert(first_uuid(self@.recent, uuid) is None);
            }
        }
        if i < n {
            let ghost r0 = self.recent@;
            let t = self.recent.remove(i);
            assert(things_view(self.recent@) =~= things_view(r0).remove(i as int));
            Some(t)
        } else {
            None
        }
    }

    /// Takes the latest recent thing named `name` out, if any.
    fn take_recent_named(&mut self, name: &str) -> (r: Option<Thing>)
        requires
            old(self).wf(),
        ensures
            final(self).wf(),
            match last_named(old(self)@.recent, name@) {
                Some(i) => r matches Some(t) && t@ == old(self)@.recent[i] && final(self)@ == (
                RepositoryView { recent: old(self)@.recent.remove(i), ..old(self)@ }),
                None => r is None && final(self)@ == old(self)@,
            },
    {
        proof {
            lemma_last_named(self@.recent, name@);
        }
        let n = self.recent.len();
        let mut i: usize = n;
        let mut found = false;
        while i > 0
            invariant_except_break
                !found,
            invariant
                n == self.recent@.len(),
                i <= n,
                forall|j: int| i <= j < n ==> !has_name(self.recent@[j]@, name@),
            ensures
                i <= n,
                found ==> 0 < i && has_name(self.recent@[i - 1]@, name@),
                forall|j: int| i <= j < n ==> !has_name(self.recent@[j]@, name@),
                !found ==> i == 0,
            decreases i,
        {
            if self.recent[i - 1].has_name(name) {
                found = true;
                break;
            }
            i = i - 1;
        }
        proof {
            lemma_last_named(self@.recent, name@);
            assert forall|j: int| 0 <= j < n implies #[trigger] self@.recent[j] == self.recent@[j]@ by {}
            if found {
                assert(has_name(self@.recent[i - 1], name@));
                if last_named(self@.recent, name@) != Some(i - 1) {
                    let k = last_named(self@.recent, name@)->0;
                    assert(k > i - 1 ==> !has_name(self@.recent[k], name@));
                    assert(k < i - 1 ==> !has_name(self@.recent[i - 1], name@));
                }
            } else {
                assert(last_named(self@.recent, name@) is None);
            }
        }
        if found {
            let ghost r0 = self.recent@;
            let t = self.recent.remove(i - 1);
            assert(things_view(self.recent@) =~= things_view(r0).remove(i - 1));
            Some(t)
        } else {
            None
        }
    }

    /// The thing with `uuid`: see [`lookup_uuid_spec`].
    pub fn get_by_uuid(&self, uuid: &u128) -> (r: Result<Record, Error>)
        ensures
            lookup_uuid_spec(self@, *uuid, record_result_view(r)),
    {
        proof {
            lemma_first_uuid(self@.recent, *uuid);
        }
        let mut i: usize = 0;
        while i < self.recent.len()
            invariant
                i <= self.recent@.len(),
                forall|j: int| 0 <= j < i ==> self.recent@[j].uuid != *uuid,
            decreases self.recent.len() - i,
        {
            if self.recent[i].uuid == *uuid {
                proof {
                    lemma_first_uuid(self@.recent, *uuid);
                    assert forall|j: int| 0 <= j <= i implies #[trigger] self@.recent[j]
                        == self.recent@[j]@ by {}
                    assert(self@.recent[i as int].uuid == *uuid);
                    match first_uuid(self@.recent, *uuid) {
                        Some(k) => {
                            if k < i {
                                assert(self@.recent[k].uuid == self.recent@[k].uuid);
                            }
                        },
                        None => {},
                    }
                }
                return Ok(Record { status: RecordStatus::Unsaved, thing: self.recent[i].duplicate() });
            }
            i = i + 1;
        }
        match self.data_store.get_thing_by_uuid(uuid) {
            Ok(Some(thing)) => Ok(Record { status: RecordStatus::Saved, thing }),
            Ok(None) => Err(Error::NotFound),
            Err(()) => Err(Error::DataStoreFailed),
        }
    }

    /// The thing named `name`: see [`lookup_name_spec`].
    pub fn get_by_name(&self, name: &str) -> (r: Result<Record, Error>)
        ensures
            lookup_name_spec(self@, name@, record_result_view(r)),
    {
        proof {
            lemma_first_named(self@.recent, name@);
        }
        let mut i: usize = 0;
        while i < self.recent.len()
            invariant
                i <= self.recent@.len(),
                forall|j: int| 0 <= j < i ==> !has_name(self.recent@[j]@, name@),
            decreases self.recent.len() - i,
        {
            if self.recent[i].has_name(name) {
                proof {
                    lemma_first_named(self@.recent, name@);
                    assert forall|j: int| 0 <= j <= i implies #[trigger] self@.recent[j]
                        == self.recent@[j]@ by {}
                    assert(has_name(self@.recent[i as int], name@));
                    match first_named(self@.recent, name@) {
                        Some(k) => {
                            if k < i {
                                assert(self@.recent[k] == self.recent@[k]@);
                            }
                        },
                        None => {},
                    }
                }
                return Ok(Record { status: RecordStatus::Unsaved, thing: self.recent[i].duplicate() });
            }
            i = i + 1;
        }
        match self.data_store.get_thing_by_name(name) {
            Ok(Some(thing)) => Ok(Record { status: RecordStatus::Saved, thing }),
            Ok(None) => Err(Error::NotFound),
            Err(()) => Err(Error::DataStoreFailed),
        }
    }
}


/// The key-value store after `kv` is set: the time's short rendering under `time`, or no value
/// there where the time is not set.
pub open spec fn set_value_spec(values: Map<Seq<char>, Seq<char>>, kv: KeyValue) -> Map<
    Seq<char>,
    Seq<char>,
> {
    match kv {
        KeyValue::Time(Some(t)) => values.insert("time"@, crate::time::short_text(t.parts())),
        KeyValue::Time(None) => values.remove("time"@),
    }
}

/// `kv` is what the key-value store holds: the time parsed from the value under `time`, or no
/// time where there is no value.
pub open spec fn stored_value_spec(values: Map<Seq<char>, Seq<char>>, kv: KeyValue) -> bool {
    match kv {
        KeyValue::Time(Some(t)) => values.contains_key("time"@) && crate::time::parse_spec(
            values["time"@],
        ) == Some(t.parts()),
        KeyValue::Time(None) => !values.contains_key("time"@),
    }
}

/// The stored time, if any, can be read: where the key `time` has a value, it parses as a time.
pub open spec fn time_readable(values: Map<Seq<char>, Seq<char>>) -> bool {
    values.contains_key("time"@) ==> crate::time::parse_spec(values["time"@]) is Some
}

/// A thing with `uuid` and `data`.
pub open spec fn thing_of(uuid: u128, data: ThingDataView) -> ThingView {
    ThingView { uuid, data }
}

impl<D: DataStore> Repository<D> {
    /// Writes `thing` to the journal.
    fn save_thing(&mut self, thing: &Thing) -> (r: Result<(), Error>)
        requires
            old(self).wf(),
        ensures
            final(self).wf(),
            match r {
                Ok(()) => !old(self)@.things.contains_key(thing.uuid) && final(self)@ == (
                RepositoryView { things: old(self)@.things.insert(thing.uuid, thing@), ..old(self)@ }),
                Err(e) => e == Error::DataStoreFailed && final(self)@ == old(self)@,
            },
    {
        match self.data_store.save_thing(thing) {
            Ok(()) => Ok(()),
            Err(()) => Err(Error::DataStoreFailed),
        }
    }

    /// Makes a thing of `thing_data`, with `uuid` or else a new random UUID, where neither the
    /// UUID nor the name is taken; the data is given back on failure.
    fn thing_data_into_thing(&self, thing_data: ThingData, uuid: Option<u128>) -> (r: Result<
        Thing,
        (ThingData, Error),
    >)
        ensures
            match r {
                Ok(t) => t.data@ == thing_data@ && (uuid matches Some(k) ==> t.uuid == k)
                    && thing_data@.name is Some && first_uuid(self@.recent, t.uuid) is None
                    && first_named(self@.recent, thing_data@.name->0) is None,
                Err((d, e)) => d@ == thing_data@ && create_refused(
                    self@,
                    thing_data@,
                    uuid,
                    e@,
                    false,
                ) && !create_owed(self@, thing_data@, uuid) && (thing_data@.name is None ==> (
                e is MissingName || e is UuidAlreadyExists)),
            },
    {
        let id = match uuid {
            Some(k) => k,
            None => new_uuid(),
        };
        proof {
            lemma_first_uuid(self@.recent, id);
        }
        match self.get_by_uuid(&id) {
            Ok(record) => {
                return Err((thing_data, Error::UuidAlreadyExists(record.thing)));
            },
            Err(_) => {},
        }
        match &thing_data.name {
            Some(name) => {
                proof {
                    lemma_first_named(self@.recent, name@);
                }
                match self.get_by_name(name.as_str()) {
                    Ok(record) => Err((thing_data, Error::NameAlreadyExists(record.thing))),
                    Err(_) => Ok(Thing { uuid: id, data: thing_data }),
                }
            },
            None => Err((thing_data, Error::MissingName)),
        }
    }

    /// Creates a thing among the recent things, giving its UUID.
    fn create_thing(&mut self, thing_data: ThingData, uuid: Option<u128>) -> (r: Result<
        u128,
        (ThingData, Error),
    >)
        requires
            old(self).wf(),
        ensures
            final(self).wf(),
            match r {
                Ok(k) => (uuid matches Some(u) ==> k == u) && thing_data@.name is Some
                    && first_uuid(old(self)@.recent, k) is None && final(self)@ == (
                RepositoryView {
                    recent: push_recent_spec(old(self)@.recent, thing_of(k, thing_data@)),
                    ..old(self)@
                }),
                Err((d, e)) => d@ == thing_data@ && final(self)@ == old(self)@ && create_refused(
                    old(self)@,
                    thing_data@,
                    uuid,
                    e@,
                    false,
                ) && !create_owed(old(self)@, thing_data@, uuid) && (thing_data@.name is None ==> (
                e is MissingName || e is UuidAlreadyExists)),
            },
    {
        let thing = self.thing_data_into_thing(thing_data, uuid)?;
        let k = thing.uuid;
        self.push_recent(thing);
        Ok(k)
    }

    /// Creates a thing directly in the journal, giving it.
    fn create_and_save_thing(&mut self, thing_data: ThingData, uuid: Option<u128>) -> (r: Result<
        Thing,
        (ThingData, Error),
    >)
        requires
            old(self).wf(),
        ensures
            final(self).wf(),
            match r {
                Ok(t) => t.data@ == thing_data@ && (uuid matches Some(u) ==> t.uuid == u)
                    && thing_data@.name is Some && first_uuid(old(self)@.recent, t.uuid) is None
                    && !old(self)@.things.contains_key(t.uuid) && final(self)@ == (RepositoryView {
                    things: old(self)@.things.insert(t.uuid, t@),
                    ..old(self)@
                }),
                Err((d, e)) => d@ == thing_data@ && final(self)@ == old(self)@ && create_refused(
                    old(self)@,
                    thing_data@,
                    uuid,
                    e@,
                    true,
                ) && (create_owed(old(self)@, thing_data@, uuid) ==> e is DataStoreFailed) && (
                thing_data@.name is None ==> (e is MissingName || e is UuidAlreadyExists)),
            },
    {
        let thing = self.thing_data_into_thing(thing_data, uuid)?;
        match self.save_thing(&thing) {
            Ok(()) => Ok(thing),
            Err(e) => Err((thing.data, e)),
        }
    }

    /// Deletes the thing with `uuid` from the recent things, or else from the journal, giving
    /// it with where it was.
    fn delete_thing_by_uuid(&mut self, uuid: &u128) -> (r: Result<Record, (Option<Record>, Error)>)
        requires
            old(self).wf(),
        ensures
            final(self).wf(),
            match first_uuid(old(self)@.recent, *uuid) {
                Some(i) => r matches Ok(rec) && rec@ == (RecordView {
                    status: RecordStatus::Unsaved,
                    thing: old(self)@.recent[i],
                }) && rec.thing.uuid == *uuid && final(self)@ == (RepositoryView {
                    recent: old(self)@.recent.remove(i),
                    ..old(self)@
                }),
                None => match r {
                    Ok(rec) => rec.status == RecordStatus::Saved && old(self)@.things.contains_key(
                        *uuid,
                    ) && rec.thing@ == old(self)@.things[*uuid] && rec.thing.uuid == *uuid
                        && final(self)@ == (
                    RepositoryView { things: old(self)@.things.remove(*uuid), ..old(self)@ }),
                    Err((_, e)) => final(self)@ == old(self)@ && (e == Error::NotFound
                        ==> !old(self)@.things.contains_key(*uuid)) && (e == Error::NotFound || e
                        == Error::DataStoreFailed),
                },
            },
    {
        proof {
            lemma_first_uuid(self@.recent, *uuid);
        }
        if let Some(thing) = self.take_recent_uuid(*uuid) {
            return Ok(Record { status: RecordStatus::Unsaved, thing });
        }
        let record = match self.get_by_uuid(uuid) {
            Ok(record) => record,
            Err(e) => {
                return Err((None, e));
            },
        };
        if self.data_store.delete_thing_by_uuid(uuid).is_ok() {
            Ok(record)
        } else {
            Err((Some(record), Error::DataStoreFailed))
        }
    }

    /// Moves the first recent thing with `uuid` to the journal, giving it; on failure it goes
    /// back among the recent things, as the newest.
    fn save_thing_by_uuid(&mut self, uuid: &u128) -> (r: Result<Thing, Error>)
        requires
            old(self).wf(),
        ensures
            final(self).wf(),
            match first_uuid(old(self)@.recent, *uuid) {
                None => r == Err::<Thing, Error>(Error::NotFound) && final(self)@ == old(self)@,
                Some(i) => match r {
                    Ok(t) => t@ == old(self)@.recent[i] && !old(self)@.things.contains_key(*uuid)
                        && final(self)@ == (RepositoryView {
                        recent: old(self)@.recent.remove(i),
                        things: old(self)@.things.insert(*uuid, t@),
                        ..old(self)@
                    }),
                    Err(e) => e == Error::DataStoreFailed && final(self)@ == (RepositoryView {
                        recent: push_recent_spec(
                            old(self)@.recent.remove(i),
                            old(self)@.recent[i],
                        ),
                        ..old(self)@
                    }),
                },
            },
    {
        proof {
            lemma_first_uuid(self@.recent, *uuid);
        }
        match self.take_recent_uuid(*uuid) {
            Some(thing) => match self.save_thing(&thing) {
                Ok(()) => Ok(thing),
                Err(e) => {
                    self.push_recent(thing);
                    Err(e)
                },
            },
            None => Err(Error::NotFound),
        }
    }

    /// Moves the latest recent thing named `name` to the journal, giving it; on failure it goes
    /// back among the recent things, as the newest.
    fn save_thing_by_name(&mut self, name: &str) -> (r: Result<Thing, Error>)
        requires
            old(self).wf(),
        ensures
            final(self).wf(),
            match last_named(old(self)@.recent, name@) {
                None => r == Err::<Thing, Error>(Error::NotFound) && final(self)@ == old(self)@,
                Some(i) => match r {
                    Ok(t) => t@ == old(self)@.recent[i] && !old(self)@.things.contains_key(t.uuid)
                        && final(self)@ == (RepositoryView {
                        recent: old(self)@.recent.remove(i),
                        things: old(self)@.things.insert(t.uuid, t@),
                        ..old(self)@
                    }),
                    Err(e) => e == Error::DataStoreFailed && final(self)@ == (RepositoryView {
                        recent: push_recent_spec(
                            old(self)@.recent.remove(i),
                            old(self)@.recent[i],
                        ),
                        ..old(self)@
                    }),
                },
            },
    {
        match self.take_recent_named(name) {
            Some(thing) => match self.save_thing(&thing) {
                Ok(()) => Ok(thing),
                Err(e) => {
                    self.push_recent(thing);
                    Err(e)
                },
            },
            None => Err(Error::NotFound),
        }
    }

    /// Moves the thing with `uuid` from the journal to the recent things, giving its name; on
    /// failure, the name where the thing was found.
    fn unsave_thing_by_uuid(&mut self, uuid: &u128) -> (r: Result<String, (Option<String>, Error)>)
        requires
            old(self).wf(),
        ensures
            final(self).wf(),
            match r {
                Ok(name) => old(self)@.things.contains_key(*uuid) && name@ == name_text(
                    old(self)@.things[*uuid].data,
                ) && final(self)@ == (RepositoryView {
                    recent: push_recent_spec(old(self)@.recent, old(self)@.things[*uuid]),
                    things: old(self)@.things.remove(*uuid),
                    ..old(self)@
                }),
                Err((_, e)) => final(self)@ == old(self)@ && (e == Error::NotFound
                    ==> !old(self)@.things.contains_key(*uuid)) && (e == Error::NotFound || e
                    == Error::DataStoreFailed),
            },
    {
        let thing = match self.data_store.get_thing_by_uuid(uuid) {
            Ok(Some(thing)) => thing,
            Ok(None) => {
                return Err((None, Error::NotFound));
            },
            Err(()) => {
                return Err((None, Error::DataStoreFailed));
            },
        };
        let name = thing.data.name_text();
        match self.data_store.delete_thing_by_uuid(uuid) {
            Ok(()) => {
                self.push_recent(thing);
                Ok(name)
            },
            Err(()) => Err((Some(name), Error::DataStoreFailed)),
        }
    }

    /// The value under the key of `key` in the key-value store.
    pub fn get_key_value(&self, key: &KeyValue) -> (r: Result<KeyValue, Error>)
        ensures
            match r {
                Ok(kv) => stored_value_spec(self@.values, kv),
                Err(e) => e == Error::DataStoreFailed,
            },
            self@.answers && time_readable(self@.values) ==> r is Ok,
    {
        match self.data_store.get_value(key.key_raw()) {
            Ok(Some(text)) => match Time::parse(text.as_str()) {
                Ok(t) => Ok(KeyValue::Time(Some(t))),
                Err(()) => Err(Error::DataStoreFailed),
            },
            Ok(None) => Ok(KeyValue::Time(None)),
            Err(()) => Err(Error::DataStoreFailed),
        }
    }

    /// Sets a value of the key-value store, giving the value it replaced.
    fn set_key_value(&mut self, key_value: &KeyValue) -> (r: Result<KeyValue, Error>)
        requires
            old(self).wf(),
        ensures
            final(self).wf(),
            match r {
                Ok(old_kv) => stored_value_spec(old(self)@.values, old_kv) && final(self)@ == (
                RepositoryView {
                    values: set_value_spec(old(self)@.values, *key_value),
                    ..old(self)@
                }),
                Err(e) => e == Error::DataStoreFailed && final(self)@ == old(self)@,
            },
            old(self)@.answers && time_readable(old(self)@.values) ==> r is Ok,
    {
        let old_key_value = self.get_key_value(key_value)?;
        let (key, value) = key_value.key_value_raw();
        let written = match value {
            Some(v) => self.data_store.set_value(key, v.as_str()),
            None => self.data_store.delete_value(key),
        };
        match written {
            Ok(()) => Ok(old_key_value),
            Err(()) => Err(Error::DataStoreFailed),
        }
    }
}


/// The result of an edit, as values: the record of the edited thing holding the replaced fields,
/// with the thing's name; or the record, the diff and the error.
pub open spec fn edit_result_view(r: Result<(Record, String), (Record, ThingData, Error)>) -> Result<
    (RecordView, Seq<char>),
    (RecordView, ThingDataView, ErrorView),
> {
    match r {
        Ok((rec, n)) => Ok((rec@, n@)),
        Err((rec, d, e)) => Err((rec@, d@, e@)),
    }
}

/// What editing the thing of `rec` with `diff` does, from `v` to `w`. Where the kinds differ,
/// nothing changes and the error is `NotFound`. The diff is applied (see [`apply_diff_spec`]);
/// a thing of the journal is written back to the data store; a recent thing is taken out of
/// the recent things and saved to the journal, or, where saving fails, put back as the newest
/// recent thing and reported as saved. On success the record holds the replaced fields.
pub open spec fn edit_effect(
    v: RepositoryView,
    rec: RecordView,
    diff: ThingDataView,
    r: Result<(RecordView, Seq<char>), (RecordView, ThingDataView, ErrorView)>,
    w: RepositoryView,
) -> bool {
    let uuid = rec.thing.uuid;
    let nd = apply_diff_spec(rec.thing.data, diff);
    let new_thing = thing_of(uuid, nd.0);
    let replaced = thing_of(uuid, nd.1);
    if rec.thing.data.kind != diff.kind {
        r == Err::<(RecordView, Seq<char>), (RecordView, ThingDataView, ErrorView)>(
            (rec, diff, ErrorView::NotFound),
        ) && w == v
    } else if rec.status == RecordStatus::Saved {
        match r {
            Ok((rec2, n)) => rec2 == RecordView { status: RecordStatus::Saved, thing: replaced }
                && n == name_text(nd.0) && w == RepositoryView {
                things: v.things.insert(uuid, new_thing),
                ..v
            },
            Err((rec2, d, e)) => rec2 == RecordView { status: RecordStatus::Saved, thing: new_thing }
                && d == nd.1 && e == ErrorView::DataStoreFailed && w == v,
        }
    } else {
        let recent1 = match first_uuid(v.recent, uuid) {
            Some(i) => v.recent.remove(i),
            None => v.recent,
        };
        match r {
            Ok((rec2, n)) => rec2.thing == replaced && n == name_text(nd.0) && ((rec2.status
                == RecordStatus::Unsaved && !v.things.contains_key(uuid) && w == RepositoryView {
                recent: recent1,
                things: v.things.insert(uuid, new_thing),
                ..v
            }) || (rec2.status == RecordStatus::Saved && w == RepositoryView {
                recent: push_recent_spec(recent1, new_thing),
                ..v
            })),
            Err(_) => false,
        }
    }
}

impl<D: DataStore> Repository<D> {
    /// Applies `diff` to the thing of `record`: see [`edit_effect`].
    fn edit_thing(&mut self, record: Record, diff: ThingData) -> (r: Result<
        (Record, String),
        (Record, ThingData, Error),
    >)
        requires
            old(self).wf(),
        ensures
            final(self).wf(),
            edit_effect(old(self)@, record@, diff@, edit_result_view(r), final(self)@),
    {
        let mut record = record;
        let mut diff = diff;
        if record.thing.try_apply_diff(&mut diff).is_err() {
            return Err((record, diff, Error::NotFound));
        }
        let name = record.thing.data.name_text();
        let uuid = record.thing.uuid;
        let diff_thing = Thing { uuid, data: diff };
        if record.is_saved() {
            match self.data_store.edit_thing(&record.thing) {
                Ok(()) => Ok((Record { status: RecordStatus::Saved, thing: diff_thing }, name)),
                Err(()) => Err((record, diff_thing.data, Error::DataStoreFailed)),
            }
        } else {
            let _ = self.take_recent_uuid(uuid);
            if self.save_thing(&record.thing).is_ok() {
                Ok((Record { status: RecordStatus::Unsaved, thing: diff_thing }, name))
            } else {
                self.push_recent(record.thing);
                Ok((Record { status: RecordStatus::Saved, thing: diff_thing }, name))
            }
        }
    }

    /// Edits the thing named `name`: it is looked up (see [`lookup_name_spec`]) and edited (see
    /// [`edit_effect`]); where the lookup fails, nothing changes.
    fn edit_thing_by_name(&mut self, name: &str, diff: ThingData) -> (r: Result<
        (Record, String),
        (Option<Record>, ThingData, Error),
    >)
        requires
            old(self).wf(),
        ensures
            final(self).wf(),
            r is Err ==> final(self)@ == old(self)@,
            match r {
                Ok((rec2, n)) => exists|rec: RecordView|
                    lookup_name_spec(old(self)@, name@, Ok(rec)) && edit_effect(
                        old(self)@,
                        rec,
                        diff@,
                        Ok((rec2@, n@)),
                        final(self)@,
                    ),
                Err((Some(rec2), d, e)) => exists|rec: RecordView|
                    lookup_name_spec(old(self)@, name@, Ok(rec)) && edit_effect(
                        old(self)@,
                        rec,
                        diff@,
                        Err((rec2@, d@, e@)),
                        final(self)@,
                    ),
                Err((None, d, e)) => lookup_name_spec(old(self)@, name@, Err(e@)) && d@ == diff@,
            },
    {
        match self.get_by_name(name) {
            Ok(record) => match self.edit_thing(record, diff) {
                Ok(result) => Ok(result),
                Err((record, data, e)) => Err((Some(record), data, e)),
            },
            Err(e) => Err((None, diff, e)),
        }
    }

    /// Edits the thing with `uuid`: it is looked up (see [`lookup_uuid_spec`]) and edited (see
    /// [`edit_effect`]); where the lookup fails, nothing changes.
    fn edit_thing_by_uuid(&mut self, uuid: &u128, diff: ThingData) -> (r: Result<
        (Record, String),
        (Option<Record>, ThingData, Error),
    >)
        requires
            old(self).wf(),
        ensures
            final(self).wf(),
            r is Err ==> final(self)@ == old(self)@,
            match r {
                Ok((rec2, n)) => exists|rec: RecordView|
                    lookup_uuid_spec(old(self)@, *uuid, Ok(rec)) && edit_effect(
                        old(self)@,
                        rec,
                        diff@,
                        Ok((rec2@, n@)),
                        final(self)@,
                    ),
                Err((Some(rec2), d, e)) => exists|rec: RecordView|
                    lookup_uuid_spec(old(self)@, *uuid, Ok(rec)) && edit_effect(
                        old(self)@,
                        rec,
                        diff@,
                        Err((rec2@, d@, e@)),
                        final(self)@,
                    ),
                Err((None, d, e)) => lookup_uuid_spec(old(self)@, *uuid, Err(e@)) && d@ == diff@,
            },
    {
        match self.get_by_uuid(uuid) {
            Ok(record) => match self.edit_thing(record, diff) {
                Ok(result) => Ok(result),
                Err((record, data, e)) => Err((Some(record), data, e)),
            },
            Err(e) => Err((None, diff, e)),
        }
    }
}


/// The result of applying a change, as values: the opposite change; or the change given back,
/// with the error.
pub open spec fn change_result_view(r: Result<Change, (Change, Error)>) -> Result<
    ChangeView,
    (ChangeView, ErrorView),
> {
    match r {
        Ok(c) => Ok(c@),
        Err((c, e)) => Err((c@, e@)),
    }
}

/// The name of a thing, or `name` where it has none.
pub open spec fn name_or(d: ThingDataView, name: Seq<char>) -> Seq<char> {
    match d.name {
        Some(n) => n,
        None => name,
    }
}

/// The opposite of an edit whose result is `er`: an edit that restores the replaced fields, and
/// that also moves the thing back out of the journal where the edit saved it. A recent thing
/// whose implicit save failed stays among the recent things, so its opposite is a plain edit:
/// unsaving it would fail, since it is not in the journal (the original's tests undo such an
/// edit where the data store fails).
pub open spec fn edit_undo(uuid: u128, er: (RecordView, Seq<char>)) -> ChangeView {
    if er.0.status == RecordStatus::Saved {
        ChangeView::Edit { uuid: Some(uuid), name: er.1, diff: er.0.thing.data }
    } else {
        ChangeView::EditAndUnsave { uuid, name: er.1, diff: er.0.thing.data }
    }
}

/// What applying change `c` in state `v` does: `r` is the opposite change (or the change given
/// back, with the error) and `w` the state after it. The undo history and the redo slot are not
/// touched.
pub open spec fn modify_effect(
    v: RepositoryView,
    c: ChangeView,
    r: Result<ChangeView, (ChangeView, ErrorView)>,
    w: RepositoryView,
) -> bool {
    match c {
        ChangeView::Create { thing_data, uuid } => match r {
            Ok(c2) => c2 matches ChangeView::Delete { uuid: k, name } && name == name_text(
                thing_data,
            ) && (uuid matches Some(u) ==> k == u) && thing_data.name is Some && first_uuid(
                v.recent,
                k,
            ) is None && w == RepositoryView {
                recent: push_recent_spec(v.recent, thing_of(k, thing_data)),
                ..v
            },
            Err((c2, e)) => c2 == c && w == v && create_refused(v, thing_data, uuid, e, false)
                && !create_owed(v, thing_data, uuid) && (thing_data.name is None ==> (
            e is MissingName || e is UuidAlreadyExists)),
        },
        ChangeView::CreateAndSave { thing_data, uuid } => match r {
            Ok(c2) => c2 matches ChangeView::Delete { uuid: k, name } && name == name_text(
                thing_data,
            ) && (uuid matches Some(u) ==> k == u) && thing_data.name is Some && first_uuid(
                v.recent,
                k,
            ) is None && !v.things.contains_key(k) && w == RepositoryView {
                things: v.things.insert(k, thing_of(k, thing_data)),
                ..v
            },
            Err((c2, e)) => c2 == c && w == v && create_refused(v, thing_data, uuid, e, true) && (
            create_owed(v, thing_data, uuid) ==> e is DataStoreFailed) && (thing_data.name is None
                ==> (e is MissingName || e is UuidAlreadyExists)),
        },
        ChangeView::Delete { uuid, name } => match first_uuid(v.recent, uuid) {
            Some(i) => r == Ok::<ChangeView, (ChangeView, ErrorView)>(
                ChangeView::Create { thing_data: v.recent[i].data, uuid: Some(uuid) },
            ) && w == RepositoryView { recent: v.recent.remove(i), ..v },
            None => match r {
                Ok(c2) => v.things.contains_key(uuid) && c2 == ChangeView::CreateAndSave {
                    thing_data: v.things[uuid].data,
                    uuid: Some(uuid),
                } && w == RepositoryView { things: v.things.remove(uuid), ..v },
                Err((c2, _)) => c2 == c && w == v,
            },
        },
        ChangeView::Edit { name, uuid: None, diff } => match r {
            Ok(c2) => exists|rec: RecordView, er: (RecordView, Seq<char>)|
                lookup_name_spec(v, name, Ok(rec)) && edit_effect(v, rec, diff, Ok(er), w) && c2
                    == edit_undo(rec.thing.uuid, er),
            Err((c2, _)) => c2 matches ChangeView::Edit { uuid: None, .. } && w == v,
        },
        ChangeView::Edit { name, uuid: Some(k), diff } => match r {
            Ok(c2) => exists|rec: RecordView, er: (RecordView, Seq<char>)|
                lookup_uuid_spec(v, k, Ok(rec)) && edit_effect(v, rec, diff, Ok(er), w) && c2
                    == edit_undo(k, er),
            Err((c2, _)) => c2 matches ChangeView::Edit { uuid: Some(k2), .. } && k2 == k && w
                == v,
        },
        ChangeView::EditAndUnsave { uuid, name, diff } => match r {
            Ok(c2) => exists|rec: RecordView, er: (RecordView, Seq<char>), m: RepositoryView|
                lookup_uuid_spec(v, uuid, Ok(rec)) && edit_effect(v, rec, diff, Ok(er), m)
                    && m.things.contains_key(uuid) && c2 == ChangeView::Edit {
                    name: name_text(m.things[uuid].data),
                    uuid: Some(uuid),
                    diff: er.0.thing.data,
                } && w == RepositoryView {
                    recent: push_recent_spec(m.recent, m.things[uuid]),
                    things: m.things.remove(uuid),
                    ..m
                },
            Err((c2, _)) => (c2 matches ChangeView::EditAndUnsave { uuid: k2, .. } && k2 == uuid
                && w == v) || (c2 matches ChangeView::Unsave { uuid: k2, .. } && k2 == uuid
                && exists|rec: RecordView, er: (RecordView, Seq<char>)|
                lookup_uuid_spec(v, uuid, Ok(rec)) && edit_effect(v, rec, diff, Ok(er), w)),
        },
        ChangeView::Save { name, uuid: Some(k) } => match first_uuid(v.recent, k) {
            None => r == Err::<ChangeView, (ChangeView, ErrorView)>((c, ErrorView::NotFound))
                && w == v,
            Some(i) => match r {
                Ok(c2) => c2 == ChangeView::Unsave {
                    uuid: k,
                    name: name_or(v.recent[i].data, name),
                } && !v.things.contains_key(k) && w == RepositoryView {
                    recent: v.recent.remove(i),
                    things: v.things.insert(k, v.recent[i]),
                    ..v
                },
                Err((c2, e)) => c2 == c && e == ErrorView::DataStoreFailed && w == RepositoryView {
                    recent: push_recent_spec(v.recent.remove(i), v.recent[i]),
                    ..v
                },
            },
        },
        ChangeView::Save { name, uuid: None } => match last_named(v.recent, name) {
            None => r == Err::<ChangeView, (ChangeView, ErrorView)>((c, ErrorView::NotFound))
                && w == v,
            Some(i) => match r {
                Ok(c2) => c2 == ChangeView::Unsave {
                    uuid: v.recent[i].uuid,
                    name: name_or(v.recent[i].data, name),
                } && !v.things.contains_key(v.recent[i].uuid) && w == RepositoryView {
                    recent: v.recent.remove(i),
                    things: v.things.insert(v.recent[i].uuid, v.recent[i]),
                    ..v
                },
                Err((c2, e)) => c2 == c && e == ErrorView::DataStoreFailed && w == RepositoryView {
                    recent: push_recent_spec(v.recent.remove(i), v.recent[i]),
                    ..v
                },
            },
        },
        ChangeView::Unsave { uuid, name } => match r {
            Ok(c2) => v.things.contains_key(uuid) && c2 == ChangeView::Save {
                name: name_text(v.things[uuid].data),
                uuid: Some(uuid),
            } && w == RepositoryView {
                recent: push_recent_spec(v.recent, v.things[uuid]),
                things: v.things.remove(uuid),
                ..v
            },
            Err((c2, _)) => c2 == c && w == v,
        },
        ChangeView::SetKeyValue { key_value } => match r {
            Ok(c2) => c2 matches ChangeView::SetKeyValue { key_value: old_kv } && stored_value_spec(
                v.values,
                old_kv,
            ) && w == RepositoryView { values: set_value_spec(v.values, key_value), ..v },
            Err((c2, e)) => c2 == c && e == ErrorView::DataStoreFailed && w == v && !(v.answers
                && time_readable(v.values)),
        },
    }
}

impl<D: DataStore> Repository<D> {
    /// Applies `change` without recording it in the undo history: see [`modify_effect`]. Gives
    /// the opposite change, or the change back with the error.
    pub fn modify_without_undo(&mut self, change: Change) -> (r: Result<Change, (Change, Error)>)
        requires
            old(self).wf(),
        ensures
            final(self).wf(),
            modify_effect(old(self)@, change@, change_result_view(r), final(self)@),
            final(self)@.undo == old(self)@.undo,
            final(self)@.redo == old(self)@.redo,
            final(self)@.enabled == old(self)@.enabled,
    {
        match change {
            Change::Create { thing_data, uuid } => {
                let name = thing_data.name_text();
                match self.create_thing(thing_data, uuid) {
                    Ok(k) => Ok(Change::Delete { uuid: k, name }),
                    Err((thing_data, e)) => Err((Change::Create { thing_data, uuid }, e)),
                }
            },
            Change::CreateAndSave { thing_data, uuid } => {
                let name = thing_data.name_text();
                match self.create_and_save_thing(thing_data, uuid) {
                    Ok(thing) => Ok(Change::Delete { uuid: thing.uuid, name }),
                    Err((thing_data, e)) => Err((Change::CreateAndSave { thing_data, uuid }, e)),
                }
            },
            Change::Delete { uuid, name } => match self.delete_thing_by_uuid(&uuid) {
                Ok(Record { thing, status }) => {
                    if status == RecordStatus::Saved {
                        Ok(Change::CreateAndSave { thing_data: thing.data, uuid: Some(thing.uuid) })
                    } else {
                        Ok(Change::Create { thing_data: thing.data, uuid: Some(thing.uuid) })
                    }
                },
                Err((_, e)) => Err((Change::Delete { uuid, name }, e)),
            },
            Change::Edit { name, uuid: None, diff } => match self.edit_thing_by_name(
                name.as_str(),
                diff,
            ) {
                Ok((Record { thing, status }, name)) => {
                    if status == RecordStatus::Saved {
                        Ok(Change::Edit { uuid: Some(thing.uuid), name, diff: thing.data })
                    } else {
                        Ok(Change::EditAndUnsave { uuid: thing.uuid, name, diff: thing.data })
                    }
                },
                Err((option_record, diff, e)) => {
                    let name = match option_record {
                        Some(record) => match record.thing.data.name {
                            Some(n) => n,
                            None => name,
                        },
                        None => name,
                    };
                    Err((Change::Edit { name, uuid: None, diff }, e))
                },
            },
            Change::Edit { name, uuid: Some(uuid), diff } => match self.edit_thing_by_uuid(
                &uuid,
                diff,
            ) {
                Ok((Record { thing, status }, name)) => {
                    let diff = thing.data;
                    if status == RecordStatus::Saved {
                        Ok(Change::Edit { uuid: Some(uuid), name, diff })
                    } else {
                        Ok(Change::EditAndUnsave { uuid, name, diff })
                    }
                },
                Err((option_record, diff, e)) => {
                    let name = match option_record {
                        Some(record) => match record.thing.data.name {
                            Some(n) => n,
                            None => name,
                        },
                        None => name,
                    };
                    Err((Change::Edit { name, uuid: Some(uuid), diff }, e))
                },
            },
            Change::EditAndUnsave { uuid, name, diff } => {
                match self.edit_thing_by_uuid(&uuid, diff) {
                    Ok((Record { thing, .. }, name)) => match self.unsave_thing_by_uuid(&uuid) {
                        Ok(name) => Ok(Change::Edit { name, uuid: Some(uuid), diff: thing.data }),
                        Err((s, e)) => {
                            let name = match s {
                                Some(s) => s,
                                None => name,
                            };
                            Err((Change::Unsave { uuid, name }, e))
                        },
                    },
                    Err((_, diff, e)) => Err((Change::EditAndUnsave { uuid, name, diff }, e)),
                }
            },
            Change::Save { name, uuid: Some(uuid) } => match self.save_thing_by_uuid(&uuid) {
                Ok(thing) => {
                    let name = match thing.data.name {
                        Some(n) => n,
                        None => name,
                    };
                    Ok(Change::Unsave { uuid, name })
                },
                Err(e) => Err((Change::Save { name, uuid: Some(uuid) }, e)),
            },
            Change::Save { name, uuid: None } => match self.save_thing_by_name(name.as_str()) {
                Ok(thing) => {
                    let name = match thing.data.name {
                        Some(n) => n,
                        None => name,
                    };
                    Ok(Change::Unsave { uuid: thing.uuid, name })
                },
                Err(e) => Err((Change::Save { name, uuid: None }, e)),
            },
            Change::Unsave { uuid, name } => match self.unsave_thing_by_uuid(&uuid) {
                Ok(name) => Ok(Change::Save { name, uuid: Some(uuid) }),
                Err((_, e)) => Err((Change::Unsave { uuid, name }, e)),
            },
            Change::SetKeyValue { key_value } => match self.set_key_value(&key_value) {
                Ok(old_kv) => Ok(Change::SetKeyValue { key_value: old_kv }),
                Err(e) => Err((Change::SetKeyValue { key_value }, e)),
            },
        }
    }
}


/// What a change is looked up by: the UUID it names, else the name it names.
pub open spec fn change_key(c: ChangeView) -> (Option<Seq<char>>, Option<u128>) {
    match c {
        ChangeView::Create { uuid: Some(u), .. } => (None, Some(u)),
        ChangeView::CreateAndSave { uuid: Some(u), .. } => (None, Some(u)),
        ChangeView::EditAndUnsave { uuid, .. } => (None, Some(uuid)),
        ChangeView::Save { uuid: Some(u), .. } => (None, Some(u)),
        ChangeView::Unsave { uuid, .. } => (None, Some(uuid)),
        ChangeView::Delete { uuid, .. } => (None, Some(uuid)),
        ChangeView::Edit { uuid: Some(u), .. } => (None, Some(u)),
        ChangeView::Create { thing_data, .. } => (thing_data.name, None),
        ChangeView::CreateAndSave { thing_data, .. } => (thing_data.name, None),
        ChangeView::Save { name, .. } => (Some(name), None),
        ChangeView::Edit { name, .. } => (Some(name), None),
        ChangeView::SetKeyValue { .. } => (None, None),
    }
}

/// What a lookup of the thing that change `c` concerns may give (see [`change_key`]).
pub open spec fn lookup_change_spec(v: RepositoryView, c: ChangeView, r: Result<RecordView, ErrorView>) -> bool {
    match change_key(c) {
        (_, Some(u)) => lookup_uuid_spec(v, u, r),
        (Some(n), None) => lookup_name_spec(v, n, r),
        (None, None) => r == Err::<RecordView, ErrorView>(ErrorView::NotFound),
    }
}

/// The text of a boolean.
pub open spec fn bool_text(b: bool) -> Seq<char> {
    if b {
        "true"@
    } else {
        "false"@
    }
}

/// The names of some things, each in double quotes, separated by commas.
pub open spec fn names_text(r: Seq<ThingView>) -> Seq<char>
    decreases r.len(),
{
    if r.len() == 0 {
        Seq::empty()
    } else if r.len() == 1 {
        seq!['"'] + name_text(r[0].data) + seq!['"']
    } else {
        names_text(r.drop_last()) + seq![',', ' ', '"'] + name_text(r.last().data) + seq!['"']
    }
}

/// `rec` may be given for a search by name start: its name begins with `name` (ignoring ASCII
/// case), and it is a thing of the journal (saved) or a recent thing (unsaved).
pub open spec fn found_by_name_start(v: RepositoryView, name: Seq<char>, rec: RecordView) -> bool {
    &&& super::thing::name_starts_with(rec.thing, name)
    &&& match rec.status {
        RecordStatus::Saved => v.things.contains_key(rec.thing.uuid) && v.things[rec.thing.uuid]
            == rec.thing,
        RecordStatus::Unsaved => v.recent.contains(rec.thing),
        RecordStatus::Deleted => false,
    }
}

/// The things of `s` whose name begins with `name` (ignoring ASCII case), in order.
pub open spec fn starting_with(s: Seq<ThingView>, name: Seq<char>) -> Seq<ThingView>
    decreases s.len(),
{
    if s.len() == 0 {
        s
    } else {
        let rest = starting_with(s.drop_last(), name);
        if super::thing::name_starts_with(s.last(), name) {
            rest.push(s.last())
        } else {
            rest
        }
    }
}

/// The first `m` of `records` are saved things, and the rest are, in order, the first of
/// `unsaved`, each as an unsaved record.
pub open spec fn saved_then_unsaved(records: Seq<Record>, m: int, unsaved: Seq<ThingView>) -> bool {
    &&& 0 <= m <= records.len()
    &&& records.len() - m <= unsaved.len()
    &&& forall|i: int| 0 <= i < m ==> (#[trigger] records[i]).status == RecordStatus::Saved
    &&& forall|i: int|
        m <= i < records.len() ==> (#[trigger] records[i])@ == RecordView {
            status: RecordStatus::Unsaved,
            thing: unsaved[i - m],
        }
}

/// `records` are some saved things and then the first of `unsaved` as unsaved records: all of
/// them, unless `limit` was reached.
pub open spec fn saved_then_starting(
    records: Seq<Record>,
    unsaved: Seq<ThingView>,
    limit: Option<usize>,
) -> bool {
    exists|m: int|
        #[trigger] saved_then_unsaved(records, m, unsaved) && ((limit matches Some(n)
            && records.len() == n) || records.len() - m == unsaved.len())
}

/// Every thing of the journal `things` whose name begins with `name` is among `records`, as a
/// saved record.
pub open spec fn journal_listed(things: Map<u128, ThingView>, records: Seq<Record>, name: Seq<char>) -> bool {
    forall|k: u128|
        #[trigger] things.contains_key(k) && super::thing::name_starts_with(things[k], name)
            ==> exists|i: int|
            0 <= i < records.len() && records[i].status == RecordStatus::Saved
                && records[i].thing.uuid == k
}

/// What [`starting_with`] gives of a first part of a list begins what it gives of the list.
pub proof fn lemma_starting_with_take(s: Seq<ThingView>, name: Seq<char>, k: int)
    requires
        0 <= k <= s.len(),
    ensures
        starting_with(s.take(k), name).len() <= starting_with(s, name).len(),
        forall|i: int|
            0 <= i < starting_with(s.take(k), name).len() ==> #[trigger] starting_with(
                s.take(k),
                name,
            )[i] == starting_with(s, name)[i],
    decreases s.len(),
{
    if k == s.len() {
        assert(s.take(k) =~= s);
    } else {
        assert(s.drop_last().take(k) =~= s.take(k));
        lemma_starting_with_take(s.drop_last(), name, k);
    }
}

impl<D: DataStore> Repository<D> {
    /// The thing that `change` concerns: see [`lookup_change_spec`].
    pub fn get_by_change(&self, change: &Change) -> (r: Result<Record, Error>)
        ensures
            lookup_change_spec(self@, change@, record_result_view(r)),
    {
        match change {
            Change::Create { uuid: Some(uuid), .. }
            | Change::CreateAndSave { uuid: Some(uuid), .. }
            | Change::EditAndUnsave { uuid, .. }
            | Change::Save { uuid: Some(uuid), .. }
            | Change::Unsave { uuid, .. }
            | Change::Delete { uuid, .. }
            | Change::Edit { uuid: Some(uuid), .. } => self.get_by_uuid(uuid),
            Change::Create { thing_data, .. } | Change::CreateAndSave { thing_data, .. } => {
                match &thing_data.name {
                    Some(name) => self.get_by_name(name.as_str()),
                    None => Err(Error::NotFound),
                }
            },
            Change::Save { name, .. } | Change::Edit { name, .. } => self.get_by_name(name.as_str()),
            Change::SetKeyValue { .. } => Err(Error::NotFound),
        }
    }

    /// Applies `change` and records its opposite in the undo history (the oldest entries go
    /// where there would be more than `UNDO_HISTORY_LEN`): see [`modify_effect`]. On failure the
    /// change is given back with the error, and the undo history is as it was. The record of
    /// the thing concerned is given where it can be found: for a deletion, the deleted thing.
    pub fn modify(&mut self, change: Change) -> (r: Result<Option<Record>, (Change, Error)>)
        requires
            old(self).wf(),
        ensures
            final(self).wf(),
            match r {
                Ok(_) => exists|c2: ChangeView, w: RepositoryView|
                    modify_effect(old(self)@, change@, Ok(c2), w) && w.undo == old(self)@.undo
                        && final(self)@ == (RepositoryView {
                        undo: push_undo_spec(old(self)@.undo, c2),
                        ..w
                    }),
                Err((c, e)) => modify_effect(old(self)@, change@, Err((c@, e@)), final(self)@),
            },
            r matches Ok(Some(rec)) ==> (rec@.status == RecordStatus::Deleted && exists|
                st: RecordStatus,
            |
                #[trigger] lookup_change_spec(
                    old(self)@,
                    change@,
                    Ok(RecordView { status: st, thing: rec@.thing }),
                )) || lookup_change_spec(final(self)@, final(self)@.undo.last(), Ok(rec@)),
    {
        let is_delete = match &change {
            Change::Delete { .. } => true,
            _ => false,
        };
        let ghost v = self@;
        let ghost cv = change@;
        let mut option_record = if is_delete {
            match self.get_by_change(&change) {
                Ok(record) => {
                    assert(lookup_change_spec(v, cv, Ok(RecordView { status: record@.status, thing: record@.thing })));
                    Some(Record { status: RecordStatus::Deleted, thing: record.thing })
                },
                Err(_) => None,
            }
        } else {
            None
        };
        let undo_change = self.modify_without_undo(change)?;
        let ghost w = self@;
        let ghost first = option_record.is_some();
        if option_record.is_none() {
            option_record = match self.get_by_change(&undo_change) {
                Ok(record) => Some(record),
                Err(_) => None,
            };
        }
        let ghost c2 = undo_change@;
        let ghost orv = match &option_record { Some(rec) => Some(rec@), None => None };
        self.push_undo(undo_change);
        assert(modify_effect(v, cv, Ok(c2), w));
        proof {
            if !first && orv is Some {
                assert(lookup_change_spec(w, c2, Ok(orv->0)));
                assert(self@.undo.last() == c2);
                assert(self@.recent == w.recent && self@.things == w.things);
                assert(lookup_change_spec(self@, c2, Ok(orv->0)));
            }
        }
        Ok(option_record)
    }

    /// Undoes the newest change of the undo history: it is taken out and applied (see
    /// [`modify_effect`]), and its opposite goes to the redo slot; on failure, the change given
    /// back returns to the undo history. Nothing where the history is empty.
    pub fn undo(&mut self) -> (r: Option<Result<Option<Record>, Error>>)
        requires
            old(self).wf(),
        ensures
            final(self).wf(),
            old(self)@.undo.len() == 0 ==> r is None && final(self)@ == old(self)@,
            old(self)@.undo.len() > 0 ==> {
                let v1 = RepositoryView { undo: old(self)@.undo.drop_last(), ..old(self)@ };
                let c = old(self)@.undo.last();
                match r {
                    Some(Ok(_)) => exists|c2: ChangeView, w: RepositoryView|
                        modify_effect(v1, c, Ok(c2), w) && w.undo == v1.undo && final(self)@ == (
                        RepositoryView { redo: Some(c2), ..w }),
                    Some(Err(e)) => exists|c3: ChangeView, w: RepositoryView|
                        modify_effect(v1, c, Err((c3, e@)), w) && w.undo == v1.undo
                            && final(self)@ == (RepositoryView { undo: w.undo.push(c3), ..w }),
                    None => false,
                }
            },
            r matches Some(Ok(Some(rec))) ==> final(self)@.redo is Some && lookup_change_spec(
                final(self)@,
                final(self)@.redo->0,
                Ok(rec@),
            ),
    {
        let ghost u0 = self.undo_history@;
        match self.undo_history.pop() {
            Some(change) => {
                assert(changes_view(self.undo_history@) =~= changes_view(u0).drop_last());
                let ghost v1 = self@;
                let ghost c = change@;
                match self.modify_without_undo(change) {
                    Ok(redo_change) => {
                        let ghost w = self@;
                        let ghost c2 = redo_change@;
                        let record = match self.get_by_change(&redo_change) {
                            Ok(record) => Some(record),
                            Err(_) => None,
                        };
                        self.redo_change = Some(redo_change);
                        assert(modify_effect(v1, c, Ok(c2), w));
                        Some(Ok(record))
                    },
                    Err((undo_change, e)) => {
                        let ghost w = self@;
                        let ghost c3 = undo_change@;
                        let ghost ev = e@;
                        let ghost u1 = self.undo_history@;
                        self.undo_history.push(undo_change);
                        assert(changes_view(self.undo_history@) =~= changes_view(u1).push(c3));
                        assert(modify_effect(v1, c, Err((c3, ev)), w));
                        Some(Err(e))
                    },
                }
            },
            None => None,
        }
    }

    /// Redoes the change in the redo slot: it is taken out and applied with [`Repository::modify`];
    /// on failure, the change given back returns to the slot. Nothing where the slot is empty.
    pub fn redo(&mut self) -> (r: Option<Result<Option<Record>, Error>>)
        requires
            old(self).wf(),
        ensures
            final(self).wf(),
            old(self)@.redo is None ==> r is None && final(self)@ == old(self)@,
            old(self)@.redo is Some ==> {
                let v1 = RepositoryView { redo: None, ..old(self)@ };
                let c = old(self)@.redo->0;
                match r {
                    Some(Ok(_)) => exists|c2: ChangeView, w: RepositoryView|
                        modify_effect(v1, c, Ok(c2), w) && w.undo == v1.undo && final(self)@ == (
                        RepositoryView { undo: push_undo_spec(v1.undo, c2), ..w }),
                    Some(Err(e)) => exists|c3: ChangeView, w: RepositoryView|
                        modify_effect(v1, c, Err((c3, e@)), w) && final(self)@ == (RepositoryView {
                            redo: Some(c3),
                            ..w
                        }),
                    None => false,
                }
            },
            r matches Some(Ok(Some(rec))) ==> (rec@.status == RecordStatus::Deleted && exists|
                st: RecordStatus,
            |
                #[trigger] lookup_change_spec(
                    old(self)@,
                    old(self)@.redo->0,
                    Ok(RecordView { status: st, thing: rec@.thing }),
                )) || lookup_change_spec(final(self)@, final(self)@.undo.last(), Ok(rec@)),
    {
        match self.redo_change.take() {
            Some(change) => {
                let ghost v1 = self@;
                let ghost c = change@;
                match self.modify(change) {
                    Ok(option_record) => {
                        proof {
                            let o = old(self)@;
                            assert(o.redo->0 == c);
                            if let Some(rec) = &option_record {
                                if rec@.status == RecordStatus::Deleted && exists|st: RecordStatus|
                                    #[trigger] lookup_change_spec(
                                        v1,
                                        c,
                                        Ok(RecordView { status: st, thing: rec@.thing }),
                                    ) {
                                    let st = choose|st: RecordStatus|
                                        #[trigger] lookup_change_spec(
                                            v1,
                                            c,
                                            Ok(RecordView { status: st, thing: rec@.thing }),
                                        );
                                    lemma_lookup_change_same(
                                        v1,
                                        o,
                                        c,
                                        Ok(RecordView { status: st, thing: rec@.thing }),
                                    );
                                }
                            }
                        }
                        Some(Ok(option_record))
                    },
                    Err((redo_change, e)) => {
                        let ghost w = self@;
                        let ghost c3 = redo_change@;
                        let ghost ev = e@;
                        self.redo_change = Some(redo_change);
                        assert(modify_effect(v1, c, Err((c3, ev)), w));
                        Some(Err(e))
                    },
                }
            },
            None => None,
        }
    }

    /// All the things of the journal.
    pub fn journal(&self) -> (r: Result<Vec<Thing>, Error>)
        ensures
            match r {
                Ok(things) => (forall|i: int|
                    0 <= i < things@.len() ==> self@.things.contains_key(#[trigger] things@[i].uuid)
                        && self@.things[things@[i].uuid] == things@[i]@) && (forall|k: u128|
                    #[trigger] self@.things.contains_key(k) ==> exists|i: int|
                        0 <= i < things@.len() && things@[i].uuid == k),
                Err(e) => e == Error::DataStoreFailed,
            },
            self@.answers ==> r is Ok,
    {
        match self.data_store.get_all_the_things() {
            Ok(things) => Ok(things),
            Err(()) => Err(Error::DataStoreFailed),
        }
    }

    /// The things of the journal and then the recent things whose name begins with `name`
    /// (ignoring ASCII case), at most `limit` of them: see [`found_by_name_start`].
    pub fn get_by_name_start(&self, name: &str, limit: Option<usize>) -> (r: Result<
        Vec<Record>,
        Error,
    >)
        ensures
            match r {
                Ok(records) => (forall|i: int|
                    0 <= i < records@.len() ==> found_by_name_start(
                        self@,
                        name@,
                        #[trigger] records@[i]@,
                    )) && (limit matches Some(n) ==> records@.len() <= n) && saved_then_starting(
                    records@,
                    starting_with(self@.recent, name@),
                    limit,
                ),
                Err(e) => e == Error::DataStoreFailed,
            },
            self@.answers ==> (r matches Ok(records) && ((limit matches Some(n) && records@.len()
                == n) || journal_listed(self@.things, records@, name@))),
    {
        let saved = match self.data_store.get_things_by_name_start(name, limit) {
            Ok(things) => things,
            Err(()) => {
                return Err(Error::DataStoreFailed);
            },
        };
        let ghost complete = super::data_store::lists_all_starting(self@.things, saved@, name@);
        let ghost full = limit matches Some(n) && saved@.len() == n;
        assert(self@.answers ==> complete || full);
        let mut records: Vec<Record> = Vec::new();
        let mut i: usize = 0;
        while i < saved.len()
            invariant
                i <= saved@.len(),
                records@.len() == i,
                limit matches Some(n) ==> saved@.len() <= n,
                forall|j: int|
                    0 <= j < saved@.len() ==> self@.things.contains_key(#[trigger] saved@[j].uuid)
                        && self@.things[saved@[j].uuid] == saved@[j]@
                        && super::thing::name_starts_with(saved@[j]@, name@),
                forall|j: int|
                    0 <= j < i ==> found_by_name_start(self@, name@, #[trigger] records@[j]@),
                forall|j: int| 0 <= j < i ==> (#[trigger] records@[j]).status == RecordStatus::Saved,
                forall|j: int| 0 <= j < i ==> (#[trigger] records@[j]).thing.uuid == saved@[j].uuid,
            decreases saved.len() - i,
        {
            let rec = Record { status: RecordStatus::Saved, thing: saved[i].duplicate() };
            assert(found_by_name_start(self@, name@, rec@));
            records.push(rec);
            i = i + 1;
        }
        let ghost m = records@.len() as int;
        let mut k: usize = 0;
        while k < self.recent.len()
            invariant
                k <= self.recent@.len(),
                limit matches Some(n) ==> records@.len() <= n,
                forall|j: int|
                    0 <= j < records@.len() ==> found_by_name_start(
                        self@,
                        name@,
                        #[trigger] records@[j]@,
                    ),
                m <= records@.len(),
                m == saved@.len(),
                forall|j: int| 0 <= j < m ==> (#[trigger] records@[j]).thing.uuid == saved@[j].uuid,
                records@.len() - m == starting_with(self@.recent.take(k as int), name@).len(),
                saved_then_unsaved(records@, m, starting_with(self@.recent.take(k as int), name@)),
            ensures
                limit matches Some(n) ==> records@.len() <= n,
                forall|j: int|
                    0 <= j < records@.len() ==> found_by_name_start(
                        self@,
                        name@,
                        #[trigger] records@[j]@,
                    ),
                m <= records@.len(),
                m == saved@.len(),
                forall|j: int| 0 <= j < m ==> (#[trigger] records@[j]).thing.uuid == saved@[j].uuid,
                k == self.recent@.len() || (limit matches Some(n) && records@.len() == n),
                records@.len() - m == starting_with(self@.recent.take(k as int), name@).len(),
                saved_then_unsaved(records@, m, starting_with(self@.recent.take(k as int), name@)),
            decreases self.recent.len() - k,
        {
            let ghost before = records@;
            let ghost r = self@.recent;
            assert(r.take(k + 1).drop_last() =~= r.take(k as int));
            assert(r.take(k + 1).last() == r[k as int]);
            let full = match limit {
                Some(n) => records.len() >= n,
                None => false,
            };
            if full {
                break;
            }
            if self.recent[k].name_starts_with(name) {
                let rec = Record { status: RecordStatus::Unsaved, thing: self.recent[k].duplicate() };
                assert(self@.recent[k as int] == rec.thing@);
                assert(self@.recent.contains(rec.thing@));
                assert(found_by_name_start(self@, name@, rec@));
                records.push(rec);
                proof {
                    assert forall|j: int| 0 <= j < m implies (#[trigger] records@[j]).thing.uuid
                        == saved@[j].uuid by {
                        assert(records@[j] == before[j]);
                    }
                    let u = starting_with(r.take(k + 1), name@);
                    assert forall|i: int| 0 <= i < m implies (#[trigger] records@[i]).status
                        == RecordStatus::Saved by {
                        assert(records@[i] == before[i]);
                    }
                    assert forall|i: int| m <= i < records@.len() implies (
                    #[trigger] records@[i])@ == RecordView {
                        status: RecordStatus::Unsaved,
                        thing: u[i - m],
                    } by {
                        if i < before.len() {
                            assert(records@[i] == before[i]);
                        }
                    }
                }
            }
            k = k + 1;
        }
        proof {
            lemma_starting_with_take(self@.recent, name@, k as int);
            let u = starting_with(self@.recent, name@);
            let uk = starting_with(self@.recent.take(k as int), name@);
            if k == self.recent@.len() {
                assert(self@.recent.take(k as int) =~= self@.recent);
                assert(uk == u);
            }
            assert forall|i: int| m <= i < records@.len() implies (#[trigger] records@[i])@
                == RecordView { status: RecordStatus::Unsaved, thing: u[i - m] } by {
                assert(uk[i - m] == u[i - m]);
            }
            assert(saved_then_unsaved(records@, m, u));
            assert((limit matches Some(n) && records@.len() == n) || records@.len() - m == u.len());
            assert(saved_then_starting(records@, u, limit));
            if complete {
                assert forall|key: u128|
                    #[trigger] self@.things.contains_key(key) && super::thing::name_starts_with(
                        self@.things[key],
                        name@,
                    ) implies exists|i: int|
                    0 <= i < records@.len() && records@[i].status == RecordStatus::Saved
                        && records@[i].thing.uuid == key by {
                    let i = choose|i: int| 0 <= i < saved@.len() && saved@[i].uuid == key;
                    assert(records@[i].thing.uuid == saved@[i].uuid);
                }
            }
        }
        Ok(records)
    }

    /// A description of the repository for debugging: whether the data store is enabled, and
    /// the names of the recent things.
    pub fn debug_text(&self) -> (r: String)
        ensures
            r@ == "Repository { data_store_enabled: "@ + bool_text(self@.enabled) + ", recent: ["@
                + names_text(self@.recent) + "] }"@,
    {
        let mut v = chars_of("Repository { data_store_enabled: ");
        if self.data_store_enabled {
            push_all(&mut v, &chars_of("true"));
        } else {
            push_all(&mut v, &chars_of("false"));
        }
        push_all(&mut v, &chars_of(", recent: ["));
        let ghost prefix = v@;
        let mut names: Vec<char> = Vec::new();
        let mut i: usize = 0;
        while i < self.recent.len()
            invariant
                i <= self.recent@.len(),
                names@ == names_text(self@.recent.take(i as int)),
            decreases self.recent.len() - i,
        {
            let ghost r = self@.recent;
            assert(r.take(i + 1).drop_last() =~= r.take(i as int));
            assert(r.take(i + 1).last() == self.recent@[i as int]@);
            if i > 0 {
                names.push(',');
                names.push(' ');
            }
            names.push('"');
            let n = self.recent[i].data.name_text();
            push_all(&mut names, &chars_of(n.as_str()));
            names.push('"');
            i = i + 1;
            assert(names@ =~= names_text(r.take(i as int)));
        }
        assert(self@.recent.take(self@.recent.len() as int) =~= self@.recent);
        push_all(&mut v, &names);
        push_all(&mut v, &chars_of("] }"));
        string_of(&v)
    }
}


/// A thing with `uuid` added after things that have none has its position as the first.
proof fn lemma_first_uuid_push(r: Seq<ThingView>, t: ThingView)
    requires
        first_uuid(r, t.uuid) is None,
    ensures
        first_uuid(r.push(t), t.uuid) == Some(r.len() as int),
{
    lemma_first_uuid(r, t.uuid);
    lemma_first_uuid(r.push(t), t.uuid);
    let s = r.push(t);
    assert(s[r.len() as int] == t);
    if let Some(j) = first_uuid(s, t.uuid) {
        if j < r.len() {
            assert(s[j] == r[j]);
        }
    }
}

/// Creating a thing and then applying the change that creating it gave (deleting it) brings
/// the repository back to where it was, and gives the creation back, where fewer than
/// `RECENT_MAX_LEN` things were recent.
pub proof fn lemma_undo_create(
    v: RepositoryView,
    thing_data: ThingDataView,
    uuid: Option<u128>,
    c2: ChangeView,
    w: RepositoryView,
    r2: Result<ChangeView, (ChangeView, ErrorView)>,
    w2: RepositoryView,
)
    requires
        v.recent.len() < RECENT_MAX_LEN,
        modify_effect(v, ChangeView::Create { thing_data, uuid }, Ok(c2), w),
        modify_effect(w, c2, r2, w2),
    ensures
        c2 matches ChangeView::Delete { uuid: k, .. } && r2 == Ok::<
            ChangeView,
            (ChangeView, ErrorView),
        >(ChangeView::Create { thing_data, uuid: Some(k) }),
        w2 == v,
{
    if let ChangeView::Delete { uuid: k, name } = c2 {
        let t = thing_of(k, thing_data);
        lemma_first_uuid_push(v.recent, t);
        assert(w.recent == v.recent.push(t));
        assert(w.recent.remove(v.recent.len() as int) =~= v.recent);
        assert(w.recent[v.recent.len() as int] == t);
    }
}

/// Creating a thing in the journal and then applying the change that creating it gave (deleting
/// it), where that succeeds, brings the repository back to where it was and gives the creation
/// back.
pub proof fn lemma_undo_create_and_save(
    v: RepositoryView,
    thing_data: ThingDataView,
    uuid: Option<u128>,
    c2: ChangeView,
    w: RepositoryView,
    r2: Result<ChangeView, (ChangeView, ErrorView)>,
    w2: RepositoryView,
)
    requires
        modify_effect(v, ChangeView::CreateAndSave { thing_data, uuid }, Ok(c2), w),
        modify_effect(w, c2, r2, w2),
        r2 is Ok,
    ensures
        c2 matches ChangeView::Delete { uuid: k, .. } && r2 == Ok::<
            ChangeView,
            (ChangeView, ErrorView),
        >(ChangeView::CreateAndSave { thing_data, uuid: Some(k) }),
        w2 == v,
{
    if let ChangeView::Delete { uuid: k, name } = c2 {
        assert(w.things.remove(k) =~= v.things);
    }
}

/// Deleting the newest recent thing and then applying the change that deleting it gave
/// (creating it again), where that succeeds, brings the repository back to where it was.
pub proof fn lemma_undo_delete_newest(
    v: RepositoryView,
    uuid: u128,
    name: Seq<char>,
    c2: ChangeView,
    w: RepositoryView,
    r2: Result<ChangeView, (ChangeView, ErrorView)>,
    w2: RepositoryView,
)
    requires
        0 < v.recent.len() <= RECENT_MAX_LEN,
        v.recent.last().uuid == uuid,
        first_uuid(v.recent, uuid) == Some(v.recent.len() - 1),
        modify_effect(v, ChangeView::Delete { uuid, name }, Ok(c2), w),
        modify_effect(w, c2, r2, w2),
        r2 is Ok,
    ensures
        w2 == v,
{
    let i = v.recent.len() - 1;
    assert(c2 == ChangeView::Create { thing_data: v.recent[i].data, uuid: Some(uuid) });
    assert(w.recent =~= v.recent.drop_last());
    assert(thing_of(uuid, v.recent[i].data) == v.recent[i]);
    assert(w.recent.push(v.recent[i]) =~= v.recent);
}

/// Saving a recent thing and then applying the change that saving it gave (unsaving it), where
/// that succeeds, brings the journal back to what it was; the recent things too, where the
/// thing was the newest of them and fewer than `RECENT_MAX_LEN` things were recent.
pub proof fn lemma_undo_save(
    v: RepositoryView,
    name: Seq<char>,
    uuid: u128,
    c2: ChangeView,
    w: RepositoryView,
    r2: Result<ChangeView, (ChangeView, ErrorView)>,
    w2: RepositoryView,
)
    requires
        modify_effect(v, ChangeView::Save { name, uuid: Some(uuid) }, Ok(c2), w),
        modify_effect(w, c2, r2, w2),
        r2 is Ok,
    ensures
        w2.things == v.things,
        (v.recent.len() <= RECENT_MAX_LEN && first_uuid(v.recent, uuid) == Some(
            v.recent.len() - 1,
        )) ==> w2 == v,
{
    let i = first_uuid(v.recent, uuid)->0;
    assert(w.things.remove(uuid) =~= v.things);
    if v.recent.len() <= RECENT_MAX_LEN && i == v.recent.len() - 1 {
        assert(v.recent.remove(i) =~= v.recent.drop_last());
        assert(v.recent.drop_last().push(v.recent[i]) =~= v.recent);
    }
}

/// Unsaving a thing of the journal and then applying the change that unsaving it gave (saving
/// it), where that succeeds, brings the repository back to where it was, provided that no
/// recent thing had its UUID, that it is stored under its own UUID, and that fewer than
/// `RECENT_MAX_LEN` things were recent.
pub proof fn lemma_undo_unsave(
    v: RepositoryView,
    uuid: u128,
    name: Seq<char>,
    c2: ChangeView,
    w: RepositoryView,
    r2: Result<ChangeView, (ChangeView, ErrorView)>,
    w2: RepositoryView,
)
    requires
        v.recent.len() < RECENT_MAX_LEN,
        first_uuid(v.recent, uuid) is None,
        v.things.contains_key(uuid) ==> v.things[uuid].uuid == uuid,
        modify_effect(v, ChangeView::Unsave { uuid, name }, Ok(c2), w),
        modify_effect(w, c2, r2, w2),
        r2 is Ok,
    ensures
        w2 == v,
{
    let t = v.things[uuid];
    lemma_first_uuid_push(v.recent, t);
    assert(w.recent.remove(v.recent.len() as int) =~= v.recent);
    assert(w.recent[v.recent.len() as int] == t);
    assert(w.things.insert(uuid, t) =~= v.things);
}

/// Setting a value and then applying the change that setting it gave (setting the old value),
/// where that succeeds, leaves the value reading as it did before.
pub proof fn lemma_undo_set_key_value(
    v: RepositoryView,
    key_value: KeyValue,
    c2: ChangeView,
    w: RepositoryView,
    r2: Result<ChangeView, (ChangeView, ErrorView)>,
    w2: RepositoryView,
)
    requires
        modify_effect(v, ChangeView::SetKeyValue { key_value }, Ok(c2), w),
        modify_effect(w, c2, r2, w2),
        r2 is Ok,
    ensures
        c2 matches ChangeView::SetKeyValue { key_value: old_kv } && stored_value_spec(
            v.values,
            old_kv,
        ) && stored_value_spec(w2.values, old_kv),
        w2.recent == v.recent,
        w2.things == v.things,
{
    if let ChangeView::SetKeyValue { key_value: old_kv } = c2 {
        if let KeyValue::Time(Some(t)) = old_kv {
            assert(crate::time::valid_parts(t.parts()));
            crate::time::lemma_short_text_parses(t.parts());
        }
    }
}

/// Deleting a thing of the journal and then applying the change that deleting it gave (creating
/// it again in the journal), where that succeeds, brings the repository back to where it was,
/// provided that no recent thing had its UUID and that it is stored under its own UUID.
pub proof fn lemma_undo_delete_saved(
    v: RepositoryView,
    uuid: u128,
    name: Seq<char>,
    c2: ChangeView,
    w: RepositoryView,
    r2: Result<ChangeView, (ChangeView, ErrorView)>,
    w2: RepositoryView,
)
    requires
        first_uuid(v.recent, uuid) is None,
        v.things.contains_key(uuid) ==> v.things[uuid].uuid == uuid,
        modify_effect(v, ChangeView::Delete { uuid, name }, Ok(c2), w),
        modify_effect(w, c2, r2, w2),
        r2 is Ok,
    ensures
        w2 == v,
{
    let t = v.things[uuid];
    assert(thing_of(uuid, t.data) == t);
    assert(w.things.insert(uuid, t) =~= v.things);
}

/// Editing a thing of the journal by its UUID and then applying the change
/// that editing gave (editing it back), where both succeed, brings the repository back to where
/// it was, provided that no recent thing had its UUID, that it is stored under its own UUID,
/// and that it had a name.
pub proof fn lemma_undo_edit_saved(
    v: RepositoryView,
    uuid: u128,
    name: Seq<char>,
    diff: ThingDataView,
    c2: ChangeView,
    w: RepositoryView,
    r2: Result<ChangeView, (ChangeView, ErrorView)>,
    w2: RepositoryView,
)
    requires
        first_uuid(v.recent, uuid) is None,
        v.things.contains_key(uuid),
        v.things[uuid].uuid == uuid,
        v.things[uuid].data.name is Some,
        modify_effect(v, ChangeView::Edit { name, uuid: Some(uuid), diff }, Ok(c2), w),
        modify_effect(w, c2, r2, w2),
        r2 is Ok,
    ensures
        w2 == v,
{
    let rec = choose|rec: RecordView, er: (RecordView, Seq<char>)|
        lookup_uuid_spec(v, uuid, Ok(rec)) && edit_effect(v, rec, diff, Ok(er), w) && c2
            == edit_undo(uuid, er);
    let (rec, er) = rec;
    let t = v.things[uuid];
    assert(rec == RecordView { status: RecordStatus::Saved, thing: t });
    let nd = apply_diff_spec(t.data, diff);
    assert(w.things == v.things.insert(uuid, thing_of(uuid, nd.0)));
    assert(w.recent == v.recent);
    assert(c2 == ChangeView::Edit { uuid: Some(uuid), name: er.1, diff: nd.1 });
    let (rec2, er2) = choose|rec2: RecordView, er2: (RecordView, Seq<char>)|
        lookup_uuid_spec(w, uuid, Ok(rec2)) && edit_effect(w, rec2, nd.1, Ok(er2), w2) && r2
            == Ok::<ChangeView, (ChangeView, ErrorView)>(edit_undo(uuid, er2));
    assert(rec2 == RecordView { status: RecordStatus::Saved, thing: thing_of(uuid, nd.0) });
    assert(apply_diff_spec(nd.0, nd.1).0 == t.data);
    assert(w2.things =~= v.things);
}

/// Creating a thing, undoing it, and applying again the change that undoing gave back (redoing),
/// where that succeeds, brings the repository to where the creation left it, where fewer than
/// `RECENT_MAX_LEN` things were recent.
pub proof fn lemma_redo_create(
    v: RepositoryView,
    thing_data: ThingDataView,
    uuid: Option<u128>,
    c2: ChangeView,
    w: RepositoryView,
    c3: ChangeView,
    w2: RepositoryView,
    r4: Result<ChangeView, (ChangeView, ErrorView)>,
    w3: RepositoryView,
)
    requires
        v.recent.len() < RECENT_MAX_LEN,
        modify_effect(v, ChangeView::Create { thing_data, uuid }, Ok(c2), w),
        modify_effect(w, c2, Ok(c3), w2),
        modify_effect(w2, c3, r4, w3),
        r4 is Ok,
    ensures
        w3 == w,
{
    lemma_undo_create(v, thing_data, uuid, c2, w, Ok(c3), w2);
}

/// Editing a thing of the journal and moving it to the recent things, and then applying the
/// change that this gave (editing it back, which saves it to the journal again), where that
/// saves it, brings the repository back to where it was, provided that no recent thing had its
/// UUID, that it is stored under its own UUID, that it had a name, and that fewer than
/// `RECENT_MAX_LEN` things were recent.
pub proof fn lemma_undo_edit_and_unsave(
    v: RepositoryView,
    uuid: u128,
    name: Seq<char>,
    diff: ThingDataView,
    c2: ChangeView,
    w: RepositoryView,
    r2: Result<ChangeView, (ChangeView, ErrorView)>,
    w2: RepositoryView,
)
    requires
        v.recent.len() < RECENT_MAX_LEN,
        first_uuid(v.recent, uuid) is None,
        v.things.contains_key(uuid),
        v.things[uuid].uuid == uuid,
        v.things[uuid].data.name is Some,
        modify_effect(v, ChangeView::EditAndUnsave { uuid, name, diff }, Ok(c2), w),
        modify_effect(w, c2, r2, w2),
        r2 is Ok,
        w2.things.contains_key(uuid),
    ensures
        w2 == v,
{
    let (rec, er, m) = choose|rec: RecordView, er: (RecordView, Seq<char>), m: RepositoryView|
        lookup_uuid_spec(v, uuid, Ok(rec)) && edit_effect(v, rec, diff, Ok(er), m)
            && m.things.contains_key(uuid) && c2 == ChangeView::Edit {
            name: name_text(m.things[uuid].data),
            uuid: Some(uuid),
            diff: er.0.thing.data,
        } && w == RepositoryView {
            recent: push_recent_spec(m.recent, m.things[uuid]),
            things: m.things.remove(uuid),
            ..m
        };
    let t = v.things[uuid];
    assert(rec == RecordView { status: RecordStatus::Saved, thing: t });
    let nd = apply_diff_spec(t.data, diff);
    let new_thing = thing_of(uuid, nd.0);
    assert(m.things == v.things.insert(uuid, new_thing));
    assert(m.recent == v.recent);
    assert(er.0.thing.data == nd.1);
    lemma_first_uuid_push(v.recent, new_thing);
    assert(w.recent == v.recent.push(new_thing));
    let (rec2, er2) = choose|rec2: RecordView, er2: (RecordView, Seq<char>)|
        lookup_uuid_spec(w, uuid, Ok(rec2)) && edit_effect(w, rec2, nd.1, Ok(er2), w2) && r2
            == Ok::<ChangeView, (ChangeView, ErrorView)>(edit_undo(uuid, er2));
    assert(rec2 == RecordView { status: RecordStatus::Unsaved, thing: new_thing });
    assert(apply_diff_spec(nd.0, nd.1).0 == t.data);
    assert(w.recent.remove(v.recent.len() as int) =~= v.recent);
    assert(w2.things =~= v.things);
}

/// A lookup reads the recent things, the journal and whether the store answers only.
proof fn lemma_lookup_change_same(
    v: RepositoryView,
    v2: RepositoryView,
    c: ChangeView,
    r: Result<RecordView, ErrorView>,
)
    requires
        v.recent == v2.recent,
        v.things == v2.things,
        v.answers == v2.answers,
    ensures
        lookup_change_spec(v, c, r) == lookup_change_spec(v2, c, r),
{
}

} // verus!

verus! {

/// The undo history `u` after the opposites `cs` of some changes were recorded, in order.
pub open spec fn push_all_undo(u: Seq<ChangeView>, cs: Seq<ChangeView>) -> Seq<ChangeView>
    decreases cs.len(),
{
    if cs.len() == 0 {
        u
    } else {
        push_undo_spec(push_all_undo(u, cs.drop_last()), cs.last())
    }
}

/// Recording opposites from an empty history keeps the newest `UNDO_HISTORY_LEN` of them, in
/// order (the newest last; the history lists them newest first).
pub proof fn lemma_undo_history_keeps_newest(cs: Seq<ChangeView>)
    ensures
        push_all_undo(Seq::empty(), cs) == (if cs.len() <= UNDO_HISTORY_LEN {
            cs
        } else {
            cs.skip(cs.len() - UNDO_HISTORY_LEN)
        }),
    decreases cs.len(),
{
    if cs.len() > 0 {
        let d = cs.drop_last();
        lemma_undo_history_keeps_newest(d);
        let p = push_all_undo(Seq::<ChangeView>::empty(), d);
        if d.len() < UNDO_HISTORY_LEN {
            assert(p == d);
            assert(d.push(cs.last()) =~= cs);
        } else {
            assert(p == d.skip(d.len() - UNDO_HISTORY_LEN));
            assert(p.len() == UNDO_HISTORY_LEN);
            assert(p.skip(p.len() - (UNDO_HISTORY_LEN - 1)).push(cs.last()) =~= cs.skip(
                cs.len() - UNDO_HISTORY_LEN,
            ));
        }
    }
}

} // verus!

verus! {

/// After a run of changes from an empty undo history, each recording its opposite as
/// [`Repository::modify`] does (see [`push_undo_spec`]), the history holds the opposites
/// recorded, the newest `UNDO_HISTORY_LEN` of them, in order (newest last;
/// [`Repository::undo_history`] lists them newest first).
pub proof fn lemma_undo_history_after_changes(states: Seq<RepositoryView>, cs: Seq<ChangeView>)
    requires
        states.len() == cs.len() + 1,
        states[0].undo == Seq::<ChangeView>::empty(),
        forall|i: int|
            0 <= i < cs.len() ==> #[trigger] states[i + 1].undo == push_undo_spec(states[i].undo, cs[i]),
    ensures
        states.last().undo == (if cs.len() <= UNDO_HISTORY_LEN {
            cs
        } else {
            cs.skip(cs.len() - UNDO_HISTORY_LEN)
        }),
{
    assert forall|k: int| 0 <= k <= cs.len() implies #[trigger] states[k].undo == push_all_undo(
        Seq::empty(),
        cs.take(k),
    ) by {
        lemma_undo_prefix(states, cs, k);
    }
    assert(cs.take(cs.len() as int) =~= cs);
    lemma_undo_history_keeps_newest(cs);
}

/// The history after the first `k` changes of a run: see [`lemma_undo_history_after_changes`].
proof fn lemma_undo_prefix(states: Seq<RepositoryView>, cs: Seq<ChangeView>, k: int)
    requires
        states.len() == cs.len() + 1,
        states[0].undo == Seq::<ChangeView>::empty(),
        forall|i: int|
            0 <= i < cs.len() ==> #[trigger] states[i + 1].undo == push_undo_spec(states[i].undo, cs[i]),
        0 <= k <= cs.len(),
    ensures
        states[k].undo == push_all_undo(Seq::empty(), cs.take(k)),
    decreases k,
{
    if k == 0 {
        assert(cs.take(0) =~= Seq::<ChangeView>::empty());
    } else {
        lemma_undo_prefix(states, cs, k - 1);
        assert(cs.take(k).drop_last() =~= cs.take(k - 1));
        let j = k - 1;
        assert(states[j + 1].undo == push_undo_spec(states[j].undo, cs[j]));
        assert(j + 1 == k);
    }
}

} // verus!

verus! {

/// The conditions under which undoing `c`, applied in state `v`, brings the repository back to
/// `v`: the recent things have room and the thing concerned is where the opposite change puts
/// it back (the newest recent thing, or stored under its own UUID in the journal).
pub open spec fn undo_restores(v: RepositoryView, c: ChangeView) -> bool {
    match c {
        ChangeView::Create { .. } => v.recent.len() < RECENT_MAX_LEN,
        ChangeView::CreateAndSave { .. } => true,
        ChangeView::Delete { uuid, .. } => (0 < v.recent.len() <= RECENT_MAX_LEN
            && v.recent.last().uuid == uuid && first_uuid(v.recent, uuid) == Some(v.recent.len() - 1))
            || (first_uuid(v.recent, uuid) is None && (v.things.contains_key(uuid)
            ==> v.things[uuid].uuid == uuid)),
        ChangeView::Save { uuid: Some(u), .. } => v.recent.len() <= RECENT_MAX_LEN && first_uuid(
            v.recent,
            u,
        ) == Some(v.recent.len() - 1),
        ChangeView::Unsave { uuid, .. } => v.recent.len() < RECENT_MAX_LEN && first_uuid(
            v.recent,
            uuid,
        ) is None && (v.things.contains_key(uuid) ==> v.things[uuid].uuid == uuid),
        ChangeView::Edit { uuid: Some(u), .. } => first_uuid(v.recent, u) is None
            && v.things.contains_key(u) && v.things[u].uuid == u && v.things[u].data.name is Some,
        ChangeView::SetKeyValue { .. } => true,
        _ => false,
    }
}

/// Undoing a change that succeeded, where the undo succeeds too, brings the recent things and
/// the journal back to what they were; for all but setting a value, the whole state (the
/// undo history aside, which [`Repository::modify`] and [`Repository::undo`] keep as they
/// state), provided [`undo_restores`] holds. The undo applies the opposite `c2` that the change
/// gave, which [`Repository::modify`] records last in the undo history.
pub proof fn lemma_modify_then_undo(
    v: RepositoryView,
    c: ChangeView,
    c2: ChangeView,
    w: RepositoryView,
    r2: Result<ChangeView, (ChangeView, ErrorView)>,
    w2: RepositoryView,
)
    requires
        undo_restores(v, c),
        modify_effect(v, c, Ok(c2), w),
        modify_effect(w, c2, r2, w2),
        r2 is Ok,
    ensures
        w2.recent == v.recent,
        w2.things == v.things,
        !(c is SetKeyValue) ==> w2 == v,
        push_undo_spec(v.undo, c2).last() == c2,
{
    match c {
        ChangeView::Create { thing_data, uuid } => {
            lemma_undo_create(v, thing_data, uuid, c2, w, r2, w2);
        },
        ChangeView::CreateAndSave { thing_data, uuid } => {
            lemma_undo_create_and_save(v, thing_data, uuid, c2, w, r2, w2);
        },
        ChangeView::Delete { uuid, name } => {
            if first_uuid(v.recent, uuid) is None {
                lemma_undo_delete_saved(v, uuid, name, c2, w, r2, w2);
            } else {
                lemma_undo_delete_newest(v, uuid, name, c2, w, r2, w2);
            }
        },
        ChangeView::Save { name, uuid } => {
            lemma_undo_save(v, name, uuid->0, c2, w, r2, w2);
        },
        ChangeView::Unsave { uuid, name } => {
            lemma_undo_unsave(v, uuid, name, c2, w, r2, w2);
        },
        ChangeView::Edit { name, uuid, diff } => {
            lemma_undo_edit_saved(v, uuid->0, name, diff, c2, w, r2, w2);
        },
        ChangeView::SetKeyValue { key_value } => {
            lemma_undo_set_key_value(v, key_value, c2, w, r2, w2);
        },
        _ => {},
    }
}

} // verus!
