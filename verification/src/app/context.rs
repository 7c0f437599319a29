//! The things the user has seen lately, newest last.

use crate::storage::repository::{things_view, RECENT_MAX_LEN};
use crate::storage::thing::{Thing, ThingView};
use vstd::prelude::*;

verus! {

/// The last `RECENT_MAX_LEN` things of `s` (all of them where there are fewer).
pub open spec fn newest(s: Seq<ThingView>) -> Seq<ThingView> {
    if s.len() > RECENT_MAX_LEN {
        s.skip(s.len() - RECENT_MAX_LEN)
    } else {
        s
    }
}

/// The things the user has seen lately, at most `RECENT_MAX_LEN` of them, oldest first.
#[derive(Debug)]
pub struct Context {
    recent: Vec<Thing>,
}

impl View for Context {
    type V = Seq<ThingView>;

    closed spec fn view(&self) -> Seq<ThingView> {
        things_view(self.recent@)
    }
}

impl Context {
    #[verifier::type_invariant]
    spec fn bounded(self) -> bool {
        self.recent@.len() <= RECENT_MAX_LEN
    }

    /// A context with nothing seen yet.
    pub fn new() -> (r: Context)
        ensures
            r@ == Seq::<ThingView>::empty(),
    {
        let r = Context { recent: Vec::new() };
        assert(r@ =~= Seq::<ThingView>::empty());
        r
    }

    /// Adds things, in order: the newest `RECENT_MAX_LEN` of all are kept.
    pub fn batch_push_recent(&mut self, things: Vec<Thing>)
        ensures
            final(self)@ == newest(old(self)@ + things_view(things@)),
            final(self)@.len() <= RECENT_MAX_LEN,
    {
        proof {
            use_type_invariant(&*self);
        }
        let ghost all = self@ + things_view(things@);
        let mut recent: Vec<Thing> = Vec::new();
        std::mem::swap(&mut recent, &mut self.recent);
        let mut things = things;
        if things.len() > RECENT_MAX_LEN {
            let extra = things.len() - RECENT_MAX_LEN;
            let ghost t0 = things@;
            let kept = things.split_off(extra);
            things = kept;
            assert(things_view(things@) =~= things_view(t0).skip(extra as int));
        }
        if recent.len() + things.len() > RECENT_MAX_LEN {
            let extra = recent.len() + things.len() - RECENT_MAX_LEN;
            let ghost r0 = recent@;
            let kept = recent.split_off(extra);
            recent = kept;
            assert(things_view(recent@) =~= things_view(r0).skip(extra as int));
        }
        let ghost before = things_view(recent@);
        let mut i: usize = 0;
        let ghost tv = things_view(things@);
        while i < things.len()
            invariant
                i <= things@.len(),
                tv == things_view(things@),
                things_view(recent@) == before + tv.take(i as int),
            decreases things.len() - i,
        {
            let t = things[i].duplicate();
            let ghost prev = recent@;
            recent.push(t);
            assert(things_view(recent@) =~= things_view(prev).push(tv[i as int]));
            assert(tv.take(i + 1) =~= tv.take(i as int).push(tv[i as int]));
            i = i + 1;
        }
        assert(tv.take(tv.len() as int) =~= tv);
        assert(things_view(recent@) =~= newest(all));
        self.recent = recent;
    }

    /// Adds a thing: it goes last, and the oldest goes where there would be more than
    /// `RECENT_MAX_LEN`.
    pub fn push_recent(&mut self, thing: Thing)
        ensures
            final(self)@ == newest(old(self)@.push(thing@)),
            final(self)@.len() <= RECENT_MAX_LEN,
    {
        proof {
            use_type_invariant(&*self);
        }
        let mut recent: Vec<Thing> = Vec::new();
        std::mem::swap(&mut recent, &mut self.recent);
        let ghost r0 = recent@;
        if recent.len() >= RECENT_MAX_LEN {
            recent.remove(0);
            assert(things_view(recent@) =~= things_view(r0).skip(1));
        }
        let ghost r1 = recent@;
        recent.push(thing);
        assert(things_view(recent@) =~= things_view(r1).push(thing@));
        assert(things_view(recent@) =~= newest(things_view(r0).push(thing@)));
        self.recent = recent;
    }

    /// The things, oldest first.
    pub fn recent(&self) -> (r: &[Thing])
        ensures
            things_view(r@) == self@,
            r@.len() <= RECENT_MAX_LEN,
    {
        proof {
            use_type_invariant(self);
        }
        self.recent.as_slice()
    }
}

impl Default for Context {
    fn default() -> (r: Context)
        ensures
            r@ == Seq::<ThingView>::empty(),
    {
        Context::new()
    }
}

} // verus!
