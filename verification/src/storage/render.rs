//! The texts that show the journal: a thing in full, a record found by name, and the list of
//! the journal by kind and name.

use super::repository::{Record, RecordStatus, RecordView};
use super::thing::{name_text, Thing, ThingKind, ThingView};
use super::run::{warned, with_warning, StorageReply, StorageReplyView};
use crate::sorting::{ci_less, ci_lt, lines_view};
use crate::time::command::reply_view;
use crate::text::{chars_of, push_all, string_of};
use vstd::prelude::*;

verus! {

/// The word for a kind of thing.
pub open spec fn kind_word(k: ThingKind) -> Seq<char> {
    match k {
        ThingKind::Npc => "character"@,
        ThingKind::Place => "place"@,
    }
}

/// A thing in full: its name as a heading, then its kind.
pub open spec fn details_text(t: ThingView) -> Seq<char> {
    "# "@ + name_text(t.data) + "\n*"@ + kind_word(t.data.kind) + "*"@
}

/// The text of a thing in full: see [`details_text`].
pub fn details(thing: &Thing) -> (r: String)
    ensures
        r@ == details_text(thing@),
{
    let mut v = chars_of("# ");
    push_all(&mut v, &chars_of(thing.data.name_text().as_str()));
    push_all(&mut v, &chars_of("\n*"));
    match thing.data.kind {
        ThingKind::Npc => push_all(&mut v, &chars_of("character")),
        ThingKind::Place => push_all(&mut v, &chars_of("place")),
    }
    push_all(&mut v, &chars_of("*"));
    assert(v@ =~= details_text(thing@));
    string_of(&v)
}

/// A thing in full, followed by a note.
pub open spec fn shown_text(t: ThingView, note: Seq<char>) -> Seq<char> {
    details_text(t) + "\n\n"@ + note
}

/// The text of a thing in full followed by `note`: see [`shown_text`].
pub fn shown(thing: &Thing, note: &str) -> (r: String)
    ensures
        r@ == shown_text(thing@, note@),
{
    let mut v = chars_of(details(thing).as_str());
    push_all(&mut v, &chars_of("\n\n"));
    push_all(&mut v, &chars_of(note));
    assert(v@ =~= shown_text(thing@, note@));
    string_of(&v)
}

/// A record found by name: the thing in full, and, where it is not saved, how to save it.
pub open spec fn loaded_text(rec: RecordView) -> Seq<char> {
    if rec.status == RecordStatus::Unsaved {
        details_text(rec.thing) + "\n\n_"@ + name_text(rec.thing.data)
            + " has not yet been saved. Use ~save~ to save it to your `journal`._"@
    } else {
        details_text(rec.thing)
    }
}

/// The text of a record found by name: see [`loaded_text`].
pub fn loaded(rec: &Record) -> (r: String)
    ensures
        r@ == loaded_text(rec@),
{
    let d = details(&rec.thing);
    match rec.status {
        RecordStatus::Unsaved => {
            let mut v = chars_of(d.as_str());
            push_all(&mut v, &chars_of("\n\n_"));
            push_all(&mut v, &chars_of(rec.thing.data.name_text().as_str()));
            push_all(
                &mut v,
                &chars_of(" has not yet been saved. Use ~save~ to save it to your `journal`._"),
            );
            assert(v@ =~= loaded_text(rec@));
            string_of(&v)
        },
        _ => d,
    }
}

/// `x` inserted into `s` before the first name that it comes strictly before, ignoring ASCII
/// case.
pub open spec fn insert_name(s: Seq<Seq<char>>, x: Seq<char>) -> Seq<Seq<char>>
    decreases s.len(),
{
    if s.len() == 0 {
        seq![x]
    } else if ci_lt(x, s[0]) {
        seq![x] + s
    } else {
        seq![s[0]] + insert_name(s.drop_first(), x)
    }
}

/// The names of `s` ordered ignoring ASCII case; names equal so keep their order.
pub open spec fn sort_names(s: Seq<Seq<char>>) -> Seq<Seq<char>>
    decreases s.len(),
{
    if s.len() == 0 {
        s
    } else {
        insert_name(sort_names(s.drop_last()), s.last())
    }
}

/// Inserting before the first name that `x` comes before is putting it at that index.
proof fn lemma_insert_name_at(s: Seq<Seq<char>>, x: Seq<char>, i: int)
    requires
        0 <= i <= s.len(),
        forall|j: int| 0 <= j < i ==> !ci_lt(x, #[trigger] s[j]),
        i < s.len() ==> ci_lt(x, s[i]),
    ensures
        insert_name(s, x) == s.take(i) + seq![x] + s.skip(i),
    decreases s.len(),
{
    if s.len() == 0 {
        assert(s.take(i) + seq![x] + s.skip(i) =~= seq![x]);
    } else if i == 0 {
        assert(s.take(i) + seq![x] + s.skip(i) =~= seq![x] + s);
    } else {
        let t = s.drop_first();
        assert forall|j: int| 0 <= j < i - 1 implies !ci_lt(x, #[trigger] t[j]) by {
            assert(t[j] == s[j + 1]);
        }
        lemma_insert_name_at(t, x, i - 1);
        assert(seq![s[0]] + (t.take(i - 1) + seq![x] + t.skip(i - 1)) =~= s.take(i) + seq![x]
            + s.skip(i));
    }
}

/// Inserts `x` into `v` before the first name that it comes strictly before.
fn insert_sorted_name(v: &mut Vec<Vec<char>>, x: Vec<char>)
    ensures
        lines_view(final(v)@) == insert_name(lines_view(old(v)@), x@),
{
    let ghost s = lines_view(v@);
    let mut i: usize = 0;
    while i < v.len() && !ci_less(&x, &v[i])
        invariant
            i <= v@.len(),
            s == lines_view(v@),
            forall|j: int| 0 <= j < i ==> !ci_lt(x@, #[trigger] s[j]),
        decreases v.len() - i,
    {
        i = i + 1;
    }
    proof {
        lemma_insert_name_at(s, x@, i as int);
    }
    let ghost xv = x@;
    v.insert(i, x);
    assert(lines_view(v@) =~= s.take(i as int) + seq![xv] + s.skip(i as int));
}

/// The names of `v` ordered ignoring ASCII case: see [`sort_names`].
fn sorted_names(v: Vec<Vec<char>>) -> (r: Vec<Vec<char>>)
    ensures
        lines_view(r@) == sort_names(lines_view(v@)),
{
    let ghost s = lines_view(v@);
    let mut out: Vec<Vec<char>> = Vec::new();
    let mut rest = v;
    let mut done: usize = 0;
    let ghost all = rest@;
    let n = rest.len();
    while rest.len() > 0
        invariant
            done + rest@.len() == n,
            n == all.len(),
            s == lines_view(all),
            rest@ == all.skip(done as int),
            lines_view(out@) == sort_names(s.take(done as int)),
        decreases rest.len(),
    {
        let x = rest.remove(0);
        assert(x == all[done as int]);
        assert(s.take(done + 1).drop_last() =~= s.take(done as int));
        insert_sorted_name(&mut out, x);
        done = done + 1;
        assert(rest@ =~= all.skip(done as int));
    }
    assert(s.take(n as int) =~= s);
    out
}

/// The names of the things of `s` of kind `k`, in order.
pub open spec fn names_of_kind(s: Seq<ThingView>, k: ThingKind) -> Seq<Seq<char>>
    decreases s.len(),
{
    if s.len() == 0 {
        Seq::empty()
    } else if s.last().data.kind == k {
        names_of_kind(s.drop_last(), k).push(name_text(s.last().data))
    } else {
        names_of_kind(s.drop_last(), k)
    }
}

/// The lines of a section: each name on a line of its own, the lines after the first preceded
/// by a backslash.
pub open spec fn lines_text(names: Seq<Seq<char>>) -> Seq<char>
    decreases names.len(),
{
    if names.len() == 0 {
        Seq::empty()
    } else {
        lines_text(names.drop_last()) + (if names.len() > 1 {
            "\\"@
        } else {
            Seq::empty()
        }) + "\n"@ + names.last()
    }
}

/// A section of the journal: its title and its lines, or nothing where it has no names.
pub open spec fn section_text(title: Seq<char>, names: Seq<Seq<char>>) -> Seq<char> {
    if names.len() == 0 {
        Seq::empty()
    } else {
        "\n\n## "@ + title + lines_text(names)
    }
}

/// The journal listed: the characters and then the places, each by name ignoring ASCII case,
/// and a note that the journal is empty or that it can be exported.
pub open spec fn journal_text(things: Seq<ThingView>) -> Seq<char> {
    "# Journal"@ + section_text("NPCs"@, sort_names(names_of_kind(things, ThingKind::Npc)))
        + section_text("Places"@, sort_names(names_of_kind(things, ThingKind::Place))) + (if things.len()
        == 0 {
        "\n\n*Your journal is currently empty.*"@
    } else {
        "\n\n*To export the contents of your journal, use `export`.*"@
    })
}

/// Adds the section `title` of `names` to `out`: see [`section_text`].
fn push_section(out: &mut Vec<char>, title: &str, names: &Vec<Vec<char>>)
    ensures
        final(out)@ == old(out)@ + section_text(title@, lines_view(names@)),
{
    if names.len() == 0 {
        assert(old(out)@ + section_text(title@, lines_view(names@)) =~= old(out)@);
        return;
    }
    push_all(out, &chars_of("\n\n## "));
    push_all(out, &chars_of(title));
    let ghost head = out@;
    let ghost ns = lines_view(names@);
    let mut i: usize = 0;
    while i < names.len()
        invariant
            i <= names@.len(),
            ns == lines_view(names@),
            out@ == head + lines_text(ns.take(i as int)),
        decreases names.len() - i,
    {
        assert(ns.take(i + 1).drop_last() =~= ns.take(i as int));
        assert(ns.take(i + 1).last() == names@[i as int]@);
        if i > 0 {
            push_all(out, &chars_of("\\"));
        }
        push_all(out, &chars_of("\n"));
        push_all(out, &names[i]);
        assert(out@ =~= head + lines_text(ns.take(i + 1)));
        i = i + 1;
    }
    assert(ns.take(names@.len() as int) =~= ns);
    assert(out@ =~= old(out)@ + section_text(title@, ns));
}

/// The views of some things.
pub open spec fn views_of(s: Seq<Thing>) -> Seq<ThingView> {
    s.map_values(|t: Thing| t@)
}

/// The text of the journal holding `things`: see [`journal_text`].
pub fn journal(things: &Vec<Thing>) -> (r: String)
    ensures
        r@ == journal_text(views_of(things@)),
{
    let ghost tv = views_of(things@);
    let mut npcs: Vec<Vec<char>> = Vec::new();
    let mut places: Vec<Vec<char>> = Vec::new();
    let mut i: usize = 0;
    while i < things.len()
        invariant
            i <= things@.len(),
            tv == views_of(things@),
            lines_view(npcs@) == names_of_kind(tv.take(i as int), ThingKind::Npc),
            lines_view(places@) == names_of_kind(tv.take(i as int), ThingKind::Place),
        decreases things.len() - i,
    {
        assert(tv.take(i + 1).drop_last() =~= tv.take(i as int));
        assert(tv.take(i + 1).last() == things@[i as int]@);
        let name = chars_of(things[i].data.name_text().as_str());
        match things[i].data.kind {
            ThingKind::Npc => {
                npcs.push(name);
                assert(lines_view(npcs@) =~= names_of_kind(tv.take(i + 1), ThingKind::Npc));
                assert(lines_view(places@) =~= names_of_kind(tv.take(i + 1), ThingKind::Place));
            },
            ThingKind::Place => {
                places.push(name);
                assert(lines_view(npcs@) =~= names_of_kind(tv.take(i + 1), ThingKind::Npc));
                assert(lines_view(places@) =~= names_of_kind(tv.take(i + 1), ThingKind::Place));
            },
        }
        i = i + 1;
    }
    assert(tv.take(things@.len() as int) =~= tv);
    let npcs = sorted_names(npcs);
    let places = sorted_names(places);
    let mut out = chars_of("# Journal");
    push_section(&mut out, "NPCs", &npcs);
    push_section(&mut out, "Places", &places);
    if things.len() == 0 {
        push_all(&mut out, &chars_of("\n\n*Your journal is currently empty.*"));
    } else {
        push_all(&mut out, &chars_of("\n\n*To export the contents of your journal, use `export`.*"));
    }
    assert(out@ =~= journal_text(tv));
    string_of(&out)
}

} // verus!

verus! {

/// The text of a reply to a journal command, where `enabled` says whether the data store is in
/// use: a text reply as it is; a thing, a loaded record or the journal shown, with the warning
/// where the data store is not in use; for an export or an import, the reply's text.
pub open spec fn reply_text_spec(r: StorageReplyView, enabled: bool) -> Result<Seq<char>, Seq<char>> {
    match r {
        StorageReplyView::Text(t) => t,
        StorageReplyView::Thing { thing, note } => Ok(warned(shown_text(thing, note), enabled)),
        StorageReplyView::Loaded(rec) => Ok(warned(loaded_text(rec), enabled)),
        StorageReplyView::Journal(things) => Ok(warned(journal_text(things), enabled)),
        StorageReplyView::Export { text, .. } => Ok(text),
        StorageReplyView::Import(text) => Ok(text),
    }
}

/// The text of a reply to a journal command: see [`reply_text_spec`].
pub fn reply_text(reply: &StorageReply, enabled: bool) -> (r: Result<String, String>)
    ensures
        reply_view(r) == reply_text_spec(reply@, enabled),
{
    match reply {
        StorageReply::Text(Ok(t)) => Ok(t.clone()),
        StorageReply::Text(Err(t)) => Err(t.clone()),
        StorageReply::Thing { thing, note } => Ok(with_warning(shown(thing, note.as_str()), enabled)),
        StorageReply::Loaded(rec) => Ok(with_warning(loaded(rec), enabled)),
        StorageReply::Journal(things) => {
            assert(views_of(things@) == things@.map_values(|t: Thing| t@));
            Ok(with_warning(journal(things), enabled))
        },
        StorageReply::Export { text, .. } => Ok(text.clone()),
        StorageReply::Import { text } => Ok(text.clone()),
    }
}

} // verus!
