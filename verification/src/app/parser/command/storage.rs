//! Loading a thing by its proper name.

use super::{first_proper_noun, RawCommand, RawCommandView};
use vstd::prelude::*;

verus! {

/// A command that loads something from the journal, with the raw command it was recognised
/// from.
#[derive(Debug)]
pub enum StorageCommand {
    Load(RawCommand),
}

impl StorageCommand {
    /// The raw command that this was recognised from.
    pub open spec fn raw_view(&self) -> RawCommandView {
        match self {
            StorageCommand::Load(c) => c@,
        }
    }

    /// The raw command that this was recognised from.
    pub fn raw(&self) -> (r: &RawCommand)
        ensures
            r@ == self.raw_view(),
    {
        match self {
            StorageCommand::Load(c) => c,
        }
    }

    /// Loading, where `raw` holds a proper noun; else `raw` given back.
    pub fn try_from_raw(raw: RawCommand) -> (r: Result<StorageCommand, RawCommand>)
        ensures
            match r {
                Ok(c) => first_proper_noun(raw@.words) is Some && c.raw_view() == raw@,
                Err(u) => first_proper_noun(raw@.words) is None && u@ == raw@,
            },
    {
        if raw.get_proper_noun().is_some() {
            Ok(StorageCommand::Load(raw))
        } else {
            Err(raw)
        }
    }
}

} // verus!
