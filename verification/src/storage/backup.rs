//! Exporting the journal as a backup, and importing one.

use super::data_store::DataStore;
use super::repository::{
    modify_effect, stored_value_spec, things_view, Change, ChangeView, Error, ErrorView,
    KeyValue, Repository, RepositoryView,
};
use super::thing::{name_text, Thing, ThingKind, ThingView};
use crate::text::{chars_of, fmt_u64, nat_digits, push_all, string_of};
use crate::time::Time;
use vstd::prelude::*;

verus! {

/// The note written at the head of a backup.
pub const BACKUP_COMMENT: &'static str = "This document is exported from initiative.sh. Please note that this format is currently undocumented and no guarantees of forward compatibility are provided, although a reasonable effort will be made to ensure that older backups can be safely imported.";

/// A backup of the journal: its things and the key-value store.
#[derive(Debug)]
pub struct BackupData {
    pub comment: &'static str,
    pub things: Vec<Thing>,
    pub key_value: KeyValueBackup,
}

/// The key-value store in a backup: the time, in its short rendering, if set.
#[derive(Debug)]
pub struct KeyValueBackup {
    pub time: Option<String>,
}

/// What importing one kind of data did: how many were created, updated, or failed.
#[derive(Clone, Copy, Debug, Eq, PartialEq, Structural)]
pub struct ImportStat {
    pub created: usize,
    pub updated: usize,
    pub failed: usize,
}

/// What importing a backup did, for places, characters and key-values.
#[derive(Clone, Copy, Debug, Eq, PartialEq, Structural)]
pub struct ImportStats {
    pub npc_stats: ImportStat,
    pub place_stats: ImportStat,
    pub key_value_stats: ImportStat,
}

impl Default for ImportStat {
    fn default() -> (r: ImportStat)
        ensures
            r == (ImportStat { created: 0, updated: 0, failed: 0 }),
    {
        ImportStat { created: 0, updated: 0, failed: 0 }
    }
}

impl Default for ImportStats {
    fn default() -> (r: ImportStats)
        ensures
            stat_is_empty(r.npc_stats),
            stat_is_empty(r.place_stats),
            stat_is_empty(r.key_value_stats),
    {
        ImportStats {
            npc_stats: ImportStat::default(),
            place_stats: ImportStat::default(),
            key_value_stats: ImportStat::default(),
        }
    }
}

/// Nothing was counted.
pub open spec fn stat_is_empty(s: ImportStat) -> bool {
    s.created == 0 && s.updated == 0 && s.failed == 0
}

/// The text of a count: `n created`, `n updated` and `n failed`, those that are not zero,
/// separated by commas.
pub open spec fn stat_text(s: ImportStat) -> Seq<char> {
    let a: Seq<char> = if s.created != 0 {
        nat_digits(s.created as nat) + " created"@
    } else {
        Seq::empty()
    };
    let b: Seq<char> = if s.updated != 0 {
        (if s.created != 0 {
            ", "@
        } else {
            Seq::empty()
        }) + nat_digits(s.updated as nat) + " updated"@
    } else {
        Seq::empty()
    };
    let c: Seq<char> = if s.failed != 0 {
        (if s.created != 0 || s.updated != 0 {
            ", "@
        } else {
            Seq::empty()
        }) + nat_digits(s.failed as nat) + " failed"@
    } else {
        Seq::empty()
    };
    a + b + c
}

/// The text of what importing did: a line for places, characters and key-values, those with
/// counts, joined by a backslash line break; or that there was nothing to import.
pub open spec fn stats_text(s: ImportStats) -> Seq<char> {
    let p: Seq<char> = if !stat_is_empty(s.place_stats) {
        "Places: "@ + stat_text(s.place_stats)
    } else {
        Seq::empty()
    };
    let n: Seq<char> = if !stat_is_empty(s.npc_stats) {
        (if !stat_is_empty(s.place_stats) {
            " \\\n"@
        } else {
            Seq::empty()
        }) + "Characters: "@ + stat_text(s.npc_stats)
    } else {
        Seq::empty()
    };
    let k: Seq<char> = if !stat_is_empty(s.key_value_stats) {
        (if !stat_is_empty(s.place_stats) || !stat_is_empty(s.npc_stats) {
            " \\\n"@
        } else {
            Seq::empty()
        }) + "Key/values: "@ + stat_text(s.key_value_stats)
    } else {
        Seq::empty()
    };
    if stat_is_empty(s.place_stats) && stat_is_empty(s.npc_stats) && stat_is_empty(
        s.key_value_stats,
    ) {
        "Nothing to import."@
    } else {
        p + n + k
    }
}

impl ImportStat {
    /// Whether nothing was counted.
    pub fn is_empty(&self) -> (r: bool)
        ensures
            r == stat_is_empty(*self),
    {
        self.created == 0 && self.updated == 0 && self.failed == 0
    }

    /// The text of the counts.
    pub fn to_string(&self) -> (r: String)
        ensures
            r@ == stat_text(*self),
    {
        let mut v: Vec<char> = Vec::new();
        if self.created != 0 {
            push_all(&mut v, &fmt_u64(self.created as u64));
            push_all(&mut v, &chars_of(" created"));
        }
        let ghost a = v@;
        if self.updated != 0 {
            if self.created != 0 {
                push_all(&mut v, &chars_of(", "));
            }
            push_all(&mut v, &fmt_u64(self.updated as u64));
            push_all(&mut v, &chars_of(" updated"));
        }
        let ghost ab = v@;
        if self.failed != 0 {
            if self.created != 0 || self.updated != 0 {
                push_all(&mut v, &chars_of(", "));
            }
            push_all(&mut v, &fmt_u64(self.failed as u64));
            push_all(&mut v, &chars_of(" failed"));
        }
        assert(v@ =~= stat_text(*self));
        string_of(&v)
    }
}

impl ImportStats {
    /// The text of what importing did.
    pub fn to_string(&self) -> (r: String)
        ensures
            r@ == stats_text(*self),
    {
        let mut v: Vec<char> = Vec::new();
        let places = !self.place_stats.is_empty();
        let npcs = !self.npc_stats.is_empty();
        let key_values = !self.key_value_stats.is_empty();
        if places {
            push_all(&mut v, &chars_of("Places: "));
            push_all(&mut v, &chars_of(self.place_stats.to_string().as_str()));
        }
        if npcs {
            if places {
                push_all(&mut v, &chars_of(" \\\n"));
            }
            push_all(&mut v, &chars_of("Characters: "));
            push_all(&mut v, &chars_of(self.npc_stats.to_string().as_str()));
        }
        if key_values {
            if places || npcs {
                push_all(&mut v, &chars_of(" \\\n"));
            }
            push_all(&mut v, &chars_of("Key/values: "));
            push_all(&mut v, &chars_of(self.key_value_stats.to_string().as_str()));
        }
        if !places && !npcs && !key_values {
            return "Nothing to import.".to_owned();
        }
        assert(v@ =~= stats_text(*self));
        string_of(&v)
    }
}

/// A backup of `v` may hold `things` and `time`: all the things of the journal (none where the
/// data store fails), and the time in its short rendering, where one is set and could be read.
pub open spec fn exported(v: RepositoryView, things: Seq<ThingView>, time: Option<Seq<char>>) -> bool {
    &&& forall|i: int|
        0 <= i < things.len() ==> v.things.contains_key(#[trigger] things[i].uuid)
            && v.things[things[i].uuid] == things[i]
    &&& things.len() == 0 || forall|k: u128|
        #[trigger] v.things.contains_key(k) ==> exists|i: int|
            0 <= i < things.len() && things[i].uuid == k
    &&& match time {
        Some(text) => exists|t: Time|
            stored_value_spec(v.values, KeyValue::Time(Some(t))) && text
                == crate::time::short_text(t.parts()),
        None => true,
    }
}

/// Makes a backup of `repo`: see [`exported`].
pub fn export<D: DataStore>(repo: &Repository<D>) -> (r: BackupData)
    ensures
        r.comment@ == BACKUP_COMMENT@,
        exported(repo@, things_view(r.things@), option_text(r.key_value.time)),
{
    let things = match repo.journal() {
        Ok(things) => things,
        Err(_) => Vec::new(),
    };
    let time = match repo.get_key_value(&KeyValue::Time(None)) {
        Ok(kv) => match kv.time() {
            Some(t) => Some(t.display_short().to_string()),
            None => None,
        },
        Err(_) => None,
    };
    proof {
        let tv = things_view(things@);
        assert forall|i: int| 0 <= i < tv.len() implies repo@.things.contains_key(
            #[trigger] tv[i].uuid,
        ) && repo@.things[tv[i].uuid] == tv[i] by {
            assert(tv[i] == things@[i]@);
        }
        if tv.len() != 0 {
            assert forall|k: u128| #[trigger] repo@.things.contains_key(k) implies exists|i: int|
                0 <= i < tv.len() && tv[i].uuid == k by {
                let i = choose|i: int| 0 <= i < things@.len() && things@[i].uuid == k;
                assert(tv[i] == things@[i]@);
            }
        }
    }
    BackupData { comment: BACKUP_COMMENT, things, key_value: KeyValueBackup { time } }
}

/// A thing's kind: the count that importing it goes to.
pub open spec fn kind_of(t: ThingView) -> ThingKind {
    t.data.kind
}

/// The sum of the counts.
pub open spec fn stat_total(s: ImportStat) -> int {
    s.created + s.updated + s.failed
}

/// What importing one thing did.
#[derive(Clone, Copy, Debug, Eq, PartialEq, Structural)]
pub enum ImportOutcome {
    Created,
    Updated,
    Failed,
}

/// `s` with the count of `o` one higher.
pub open spec fn tally_spec(s: ImportStat, o: ImportOutcome) -> ImportStat {
    match o {
        ImportOutcome::Created => ImportStat { created: (s.created + 1) as usize, ..s },
        ImportOutcome::Updated => ImportStat { updated: (s.updated + 1) as usize, ..s },
        ImportOutcome::Failed => ImportStat { failed: (s.failed + 1) as usize, ..s },
    }
}

/// Counts one outcome.
pub fn tally(s: ImportStat, o: ImportOutcome) -> (r: ImportStat)
    requires
        stat_total(s) < usize::MAX,
    ensures
        r == tally_spec(s, o),
{
    match o {
        ImportOutcome::Created => ImportStat { created: s.created + 1, ..s },
        ImportOutcome::Updated => ImportStat { updated: s.updated + 1, ..s },
        ImportOutcome::Failed => ImportStat { failed: s.failed + 1, ..s },
    }
}

/// The counts of the outcomes of the first `n` things, those of kind `kind`.
pub open spec fn import_counts(
    things: Seq<ThingView>,
    outs: Seq<ImportOutcome>,
    kind: ThingKind,
    n: nat,
) -> ImportStat
    decreases n,
{
    if n == 0 {
        ImportStat { created: 0, updated: 0, failed: 0 }
    } else {
        let prev = import_counts(things, outs, kind, (n - 1) as nat);
        if kind_of(things[n - 1]) == kind {
            tally_spec(prev, outs[n - 1])
        } else {
            prev
        }
    }
}

/// The change that imports `t` into the journal.
pub open spec fn create_change(t: ThingView) -> ChangeView {
    ChangeView::CreateAndSave { thing_data: t.data, uuid: Some(t.uuid) }
}

/// The change that edits the thing named like `t` to match it.
pub open spec fn edit_change(t: ThingView) -> ChangeView {
    ChangeView::Edit { name: name_text(t.data), uuid: None, diff: t.data }
}

/// Importing `t` in state `v` had outcome `o` and led to `w`: created in the journal; or, its
/// name being taken, the thing of that name edited to match it; or neither, nothing changed.
pub open spec fn import_thing_step(
    v: RepositoryView,
    t: ThingView,
    o: ImportOutcome,
    w: RepositoryView,
) -> bool {
    match o {
        ImportOutcome::Created => exists|c2: ChangeView|
            #[trigger] modify_effect(v, create_change(t), Ok(c2), w),
        ImportOutcome::Updated => (exists|c2: ChangeView, th: ThingView|
            #[trigger] modify_effect(
                v,
                create_change(t),
                Err((c2, ErrorView::NameAlreadyExists(th))),
                v,
            )) && exists|c3: ChangeView| #[trigger] modify_effect(v, edit_change(t), Ok(c3), w),
        ImportOutcome::Failed => w == v && ((exists|c2: ChangeView, e: ErrorView|
            #[trigger] modify_effect(v, create_change(t), Err((c2, e)), v)
                && !(e is NameAlreadyExists)) || ((exists|c2: ChangeView, th: ThingView|
            #[trigger] modify_effect(
                v,
                create_change(t),
                Err((c2, ErrorView::NameAlreadyExists(th))),
                v,
            )) && exists|c3: ChangeView, e3: ErrorView|
            #[trigger] modify_effect(v, edit_change(t), Err((c3, e3)), v))),
    }
}

/// `states` and `outs` are the states and outcomes of importing `things` one by one from `v`.
pub open spec fn import_run(
    v: RepositoryView,
    things: Seq<ThingView>,
    states: Seq<RepositoryView>,
    outs: Seq<ImportOutcome>,
) -> bool {
    &&& states.len() == things.len() + 1
    &&& outs.len() == things.len()
    &&& states[0] == v
    &&& forall|i: int|
        0 <= i < things.len() ==> #[trigger] import_thing_step(states[i], things[i], outs[i], states[i + 1])
}

/// Setting the time `t` in state `v` was counted as `stat` and led to `w`: created where no time
/// was set before, updated where one was, failed where the data store failed.
pub open spec fn time_set_effect(v: RepositoryView, t: Time, stat: ImportStat, w: RepositoryView) -> bool {
    let c = ChangeView::SetKeyValue { key_value: KeyValue::Time(Some(t)) };
    ||| stat == ImportStat { created: 1, updated: 0, failed: 0 } && modify_effect(
        v,
        c,
        Ok(ChangeView::SetKeyValue { key_value: KeyValue::Time(None) }),
        w,
    )
    ||| stat == ImportStat { created: 0, updated: 1, failed: 0 } && exists|c2: ChangeView|
        c2 != ChangeView::SetKeyValue { key_value: KeyValue::Time(None) } && #[trigger] modify_effect(
            v,
            c,
            Ok(c2),
            w,
        )
    ||| stat == ImportStat { created: 0, updated: 0, failed: 1 } && exists|
        c2: ChangeView,
        e: ErrorView,
    | #[trigger] modify_effect(v, c, Err((c2, e)), w)
}

/// Importing the time `time` of a backup in state `v` was counted as `stat` and led to `w`: the
/// time is set where the text parses, and nothing happens where there is none or it does not.
pub open spec fn import_time_effect(
    v: RepositoryView,
    time: Option<Seq<char>>,
    stat: ImportStat,
    w: RepositoryView,
) -> bool {
    match time {
        Some(text) => match crate::time::parse_spec(text) {
            Some(p) => exists|t: Time| t.parts() == p && #[trigger] time_set_effect(v, t, stat, w),
            None => w == v && stat_is_empty(stat),
        },
        None => w == v && stat_is_empty(stat),
    }
}

/// Importing `things` and `time` from `v` gave `stats` and led to `w`: the things one by one
/// (see [`import_thing_step`]), each counted by its kind, and then the time.
pub open spec fn imported(
    v: RepositoryView,
    things: Seq<ThingView>,
    time: Option<Seq<char>>,
    stats: ImportStats,
    w: RepositoryView,
) -> bool {
    exists|states: Seq<RepositoryView>, outs: Seq<ImportOutcome>|
        #[trigger] import_run(v, things, states, outs) && stats.npc_stats == import_counts(
            things,
            outs,
            ThingKind::Npc,
            things.len(),
        ) && stats.place_stats == import_counts(things, outs, ThingKind::Place, things.len())
            && import_time_effect(states.last(), time, stats.key_value_stats, w)
}

/// The text of an optional string.
pub open spec fn option_text(o: Option<String>) -> Option<Seq<char>> {
    match o {
        Some(s) => Some(s@),
        None => None,
    }
}

/// Imports a backup into `repo`, without recording the changes in the undo history: each thing
/// is created in the journal, or, where a thing of its name exists, that thing is edited to
/// match it; then the time is set, where the backup holds a valid one. Each thing and the time
/// counts as created, updated or failed, by kind: see [`imported`].
pub fn import<D: DataStore>(repo: &mut Repository<D>, data: BackupData) -> (r: Result<
    ImportStats,
    Error,
>)
    requires
        old(repo).wf(),
    ensures
        final(repo).wf(),
        final(repo)@.undo == old(repo)@.undo,
        final(repo)@.redo == old(repo)@.redo,
        r matches Ok(stats) && stat_total(stats.npc_stats) + stat_total(stats.place_stats)
            == data.things@.len() && stat_total(stats.key_value_stats) <= 1 && imported(
            old(repo)@,
            things_view(data.things@),
            option_text(data.key_value.time),
            stats,
            final(repo)@,
        ),
{
    let mut stats = ImportStats::default();
    let ghost orig = things_view(data.things@);
    let ghost time_text = option_text(data.key_value.time);
    let mut things = data.things;
    let n0 = things.len();
    let ghost total = things@.len();
    let ghost mut states: Seq<RepositoryView> = seq![repo@];
    let ghost mut outs: Seq<ImportOutcome> = Seq::empty();
    let mut processed: usize = 0;
    while things.len() > 0
        invariant
            repo.wf(),
            repo@.undo == old(repo)@.undo,
            repo@.redo == old(repo)@.redo,
            processed + things@.len() == total,
            total == orig.len(),
            things_view(things@) == orig.skip(processed as int),
            import_run(old(repo)@, orig.take(processed as int), states, outs),
            states.last() == repo@,
            stats.npc_stats == import_counts(orig, outs, ThingKind::Npc, processed as nat),
            stats.place_stats == import_counts(orig, outs, ThingKind::Place, processed as nat),
            stat_total(stats.npc_stats) + stat_total(stats.place_stats) == processed,
            stat_is_empty(stats.key_value_stats),
            total <= usize::MAX,
        decreases things.len(),
    {
        let ghost before = things@;
        let thing = things.remove(0);
        let ghost t = thing@;
        assert(t == orig[processed as int]) by {
            assert(things_view(before)[0] == orig.skip(processed as int)[0]);
        }
        assert(things_view(things@) =~= orig.skip(processed + 1)) by {
            assert forall|i: int| 0 <= i < things@.len() implies things_view(things@)[i]
                == orig.skip(processed + 1)[i] by {
                assert(things@[i] == before[i + 1]);
                assert(things_view(before)[i + 1] == orig.skip(processed as int)[i + 1]);
            }
        }
        let kind = thing.data.kind;
        let name = thing.data.name_text();
        let uuid = thing.uuid;
        let ghost v = repo@;
        let create = Change::CreateAndSave { thing_data: thing.data, uuid: Some(uuid) };
        assert(create@ == create_change(t));
        let outcome = match repo.modify_without_undo(create) {
            Ok(c2) => {
                assert(modify_effect(v, create_change(t), Ok(c2@), repo@));
                ImportOutcome::Created
            },
            Err((Change::CreateAndSave { thing_data, uuid: u2 }, Error::NameAlreadyExists(th))) => {
                let ghost c2 = ChangeView::CreateAndSave { thing_data: thing_data@, uuid: u2 };
                assert(modify_effect(
                    v,
                    create_change(t),
                    Err((c2, ErrorView::NameAlreadyExists(th@))),
                    v,
                ));
                assert(thing_data@ == t.data);
                let edit = Change::Edit { name, uuid: None, diff: thing_data };
                assert(edit@ == edit_change(t));
                match repo.modify_without_undo(edit) {
                    Ok(c3) => {
                        assert(modify_effect(v, edit_change(t), Ok(c3@), repo@));
                        ImportOutcome::Updated
                    },
                    Err((c3, e3)) => {
                        assert(modify_effect(v, edit_change(t), Err((c3@, e3@)), repo@));
                        ImportOutcome::Failed
                    },
                }
            },
            Err((c2, e)) => {
                assert(modify_effect(v, create_change(t), Err((c2@, e@)), repo@));
                assert(!(e@ is NameAlreadyExists));
                ImportOutcome::Failed
            },
        };
        proof {
            assert(import_thing_step(v, t, outcome, repo@));
            let s0 = states;
            let o0 = outs;
            states = states.push(repo@);
            outs = outs.push(outcome);
            let tk = orig.take(processed + 1);
            assert forall|i: int| 0 <= i < tk.len() implies #[trigger] import_thing_step(
                states[i],
                tk[i],
                outs[i],
                states[i + 1],
            ) by {
                if i < processed {
                    assert(tk[i] == orig.take(processed as int)[i]);
                    assert(import_thing_step(s0[i], orig.take(processed as int)[i], o0[i], s0[i + 1]));
                }
            }
            assert(import_run(old(repo)@, tk, states, outs));
            assert(import_counts(orig, outs, ThingKind::Npc, processed as nat) == import_counts(
                orig,
                o0,
                ThingKind::Npc,
                processed as nat,
            )) by {
                lemma_import_counts_prefix(orig, o0, outs, ThingKind::Npc, processed as nat);
            }
            assert(import_counts(orig, outs, ThingKind::Place, processed as nat) == import_counts(
                orig,
                o0,
                ThingKind::Place,
                processed as nat,
            )) by {
                lemma_import_counts_prefix(orig, o0, outs, ThingKind::Place, processed as nat);
            }
        }
        match kind {
            ThingKind::Npc => {
                stats.npc_stats = tally(stats.npc_stats, outcome);
            },
            ThingKind::Place => {
                stats.place_stats = tally(stats.place_stats, outcome);
            },
        }
        processed = processed + 1;
    }
    proof {
        assert(orig.take(processed as int) =~= orig);
    }
    let ghost vt = repo@;
    let time = match data.key_value.time {
        Some(text) => match Time::parse(text.as_str()) {
            Ok(t) => Some(t),
            Err(()) => None,
        },
        None => None,
    };
    match time {
        Some(time) => {
            let c = Change::SetKeyValue { key_value: KeyValue::Time(Some(time)) };
            match repo.modify_without_undo(c) {
                Ok(Change::SetKeyValue { key_value: KeyValue::Time(None) }) => {
                    stats.key_value_stats.created = 1;
                },
                Ok(c2) => {
                    assert(modify_effect(
                        vt,
                        ChangeView::SetKeyValue { key_value: KeyValue::Time(Some(time)) },
                        Ok(c2@),
                        repo@,
                    ));
                    stats.key_value_stats.updated = 1;
                },
                Err((c2, e)) => {
                    assert(modify_effect(
                        vt,
                        ChangeView::SetKeyValue { key_value: KeyValue::Time(Some(time)) },
                        Err((c2@, e@)),
                        repo@,
                    ));
                    stats.key_value_stats.failed = 1;
                },
            }
            assert(time_set_effect(vt, time, stats.key_value_stats, repo@));
        },
        None => {},
    }
    assert(import_time_effect(vt, time_text, stats.key_value_stats, repo@));
    assert(import_run(old(repo)@, orig, states, outs));
    assert(imported(old(repo)@, orig, time_text, stats, repo@));
    Ok(stats)
}

/// Counting the first `n` outcomes reads only the first `n`.
proof fn lemma_import_counts_prefix(
    things: Seq<ThingView>,
    a: Seq<ImportOutcome>,
    b: Seq<ImportOutcome>,
    kind: ThingKind,
    n: nat,
)
    requires
        n <= a.len(),
        n <= b.len(),
        forall|i: int| 0 <= i < n ==> a[i] == b[i],
    ensures
        import_counts(things, a, kind, n) == import_counts(things, b, kind, n),
    decreases n,
{
    if n > 0 {
        lemma_import_counts_prefix(things, a, b, kind, (n - 1) as nat);
    }
}

} // verus!
