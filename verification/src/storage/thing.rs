//! The things that the journal holds: characters and places, each with a UUID and a name.

use crate::text::{chars_of, eq_ci, eq_ci_spec, starts_with_ci, starts_with_ci_spec};
use vstd::prelude::*;

verus! {

/// What kind of thing a thing is.
#[derive(Clone, Copy, Debug, Eq, PartialEq, Structural)]
pub enum ThingKind {
    Npc,
    Place,
}

/// The data of a thing: its kind and its name, if it has one. As a diff, a name that is set
/// replaces the thing's name.
#[derive(Clone, Debug, Eq, PartialEq)]
pub struct ThingData {
    pub kind: ThingKind,
    pub name: Option<String>,
}

/// A thing of the world, identified by its UUID.
#[derive(Clone, Debug, Eq, PartialEq)]
pub struct Thing {
    pub uuid: u128,
    pub data: ThingData,
}

/// The value of [`ThingData`].
pub struct ThingDataView {
    pub kind: ThingKind,
    pub name: Option<Seq<char>>,
}

/// The value of a [`Thing`].
pub struct ThingView {
    pub uuid: u128,
    pub data: ThingDataView,
}

impl View for ThingData {
    type V = ThingDataView;

    open spec fn view(&self) -> ThingDataView {
        ThingDataView {
            kind: self.kind,
            name: match self.name {
                Some(n) => Some(n@),
                None => None,
            },
        }
    }
}

impl View for Thing {
    type V = ThingView;

    open spec fn view(&self) -> ThingView {
        ThingView { uuid: self.uuid, data: self.data@ }
    }
}

/// The text of a thing's name: the name, or nothing where it has none.
pub open spec fn name_text(d: ThingDataView) -> Seq<char> {
    match d.name {
        Some(n) => n,
        None => Seq::empty(),
    }
}

/// The thing has a name equal to `name` up to ASCII case.
pub open spec fn has_name(t: ThingView, name: Seq<char>) -> bool {
    match t.data.name {
        Some(n) => eq_ci_spec(n, name),
        None => false,
    }
}

/// The thing has a name that begins with `prefix` up to ASCII case.
pub open spec fn name_starts_with(t: ThingView, prefix: Seq<char>) -> bool {
    match t.data.name {
        Some(n) => starts_with_ci_spec(n, prefix),
        None => false,
    }
}

/// The result of applying `diff` to `d` (of the same kind): the name set in the diff replaces
/// the name, and the diff then holds the name it replaced.
pub open spec fn apply_diff_spec(d: ThingDataView, diff: ThingDataView) -> (
    ThingDataView,
    ThingDataView,
) {
    match diff.name {
        Some(n) => (ThingDataView { name: Some(n), ..d }, ThingDataView { name: d.name, ..diff }),
        None => (d, diff),
    }
}

impl ThingData {
    /// A copy of the data.
    pub fn duplicate(&self) -> (r: ThingData)
        ensures
            r@ == self@,
    {
        ThingData {
            kind: self.kind,
            name: match &self.name {
                Some(n) => Some(n.clone()),
                None => None,
            },
        }
    }

    /// The text of the name: the name, or nothing where there is none.
    pub fn name_text(&self) -> (r: String)
        ensures
            r@ == name_text(self@),
    {
        match &self.name {
            Some(n) => n.clone(),
            None => String::new(),
        }
    }
}

impl Thing {
    /// A copy of the thing.
    pub fn duplicate(&self) -> (r: Thing)
        ensures
            r@ == self@,
    {
        Thing { uuid: self.uuid, data: self.data.duplicate() }
    }

    /// Whether the thing's name is `name`, ignoring ASCII case.
    pub fn has_name(&self, name: &str) -> (r: bool)
        ensures
            r == has_name(self@, name@),
    {
        match &self.data.name {
            Some(n) => eq_ci(&chars_of(n.as_str()), &chars_of(name)),
            None => false,
        }
    }

    /// Whether the thing's name begins with `prefix`, ignoring ASCII case.
    pub fn name_starts_with(&self, prefix: &str) -> (r: bool)
        ensures
            r == name_starts_with(self@, prefix@),
    {
        match &self.data.name {
            Some(n) => starts_with_ci(&chars_of(n.as_str()), &chars_of(prefix)),
            None => false,
        }
    }

    /// Applies `diff` to the thing, where both are of the same kind: see [`apply_diff_spec`].
    /// Where the kinds differ, nothing changes and the result is an error.
    pub fn try_apply_diff(&mut self, diff: &mut ThingData) -> (r: Result<(), ()>)
        ensures
            r is Ok <==> old(self).data.kind == old(diff).kind,
            r is Ok ==> (final(self).data@, final(diff)@) == apply_diff_spec(
                old(self).data@,
                old(diff)@,
            ),
            r is Ok ==> final(self).uuid == old(self).uuid,
            r is Err ==> final(self)@ == old(self)@ && final(diff)@ == old(diff)@,
    {
        if self.data.kind != diff.kind {
            return Err(());
        }
        if diff.name.is_some() {
            let old_name = self.data.name.take();
            self.data.name = diff.name.take();
            diff.name = old_name;
        }
        Ok(())
    }
}

} // verus!
