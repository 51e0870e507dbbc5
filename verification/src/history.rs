//! Usage history: how often each command was confirmed from the palette.
//!
//! Only confirmations made through the palette count. A user who triggers a
//! command by keystroke already knows it, and is unlikely to search for it.

use vstd::hash_map::StringHashMap;
use vstd::prelude::*;

verus! {

/// The mathematical model of a usage history: the number of confirmations
/// under each display name that has any.
pub type HitMap = Map<Seq<char>, usize>;

/// How often the command shown as `name` has been confirmed, according to
/// `history`: its entry, or zero where it has none.
pub open spec fn hits(history: HitMap, name: Seq<char>) -> nat {
    if history.contains_key(name) {
        history[name] as nat
    } else {
        0
    }
}

/// The number of confirmations per display name.
pub struct HitCounts {
    counts: StringHashMap<usize>,
}

impl View for HitCounts {
    type V = HitMap;

    closed spec fn view(&self) -> HitMap {
        self.counts@
    }
}

impl HitCounts {
    /// A history in which nothing has been confirmed yet.
    pub fn new() -> (history: Self)
        ensures
            history@ == Map::<Seq<char>, usize>::empty(),
    {
        HitCounts { counts: StringHashMap::new() }
    }

    /// How often the command shown as `name` has been confirmed.
    pub fn count(&self, name: &str) -> (n: usize)
        ensures
            n == hits(self@, name@),
    {
        match self.counts.get(name) {
            Some(n) => *n,
            None => 0,
        }
    }

    /// Whether one more confirmation of `name` can still be counted.
    pub fn can_record(&self, name: &str) -> (ok: bool)
        ensures
            ok == (hits(self@, name@) < usize::MAX),
    {
        self.count(name) < usize::MAX
    }

    /// Counts one more confirmation of the command shown as `name`. No other
    /// entry changes.
    pub fn record(&mut self, name: String)
        requires
            hits(old(self)@, name@) < usize::MAX,
        ensures
            final(self)@ == old(self)@.insert(name@, (hits(old(self)@, name@) + 1) as usize),
            hits(final(self)@, name@) == hits(old(self)@, name@) + 1,
            forall|other: Seq<char>|
                other != name@ ==> hits(final(self)@, other) == hits(old(self)@, other),
    {
        let n = self.count(name.as_str());
        self.counts.insert(name, n + 1);
    }
}

impl Default for HitCounts {
    fn default() -> (history: Self)
        ensures
            history@ == Map::<Seq<char>, usize>::empty(),
    {
        HitCounts::new()
    }
}

} // verus!
