//! Tables from triggers to actions: each trigger at most once.

use vstd::prelude::*;
use crate::action::{MapAction, MapActionView, resolved};
use crate::keys::HeadphoneButton;

verus! {

/// A trigger and its action.
#[derive(Debug)]
pub struct Entry {
    pub trigger: Vec<HeadphoneButton>,
    pub action: MapAction,
}

/// A table from triggers to actions. A trigger stands in it at most once; the
/// order of the entries carries no meaning.
pub struct MapCollection {
    entries: Vec<Entry>,
    contents: Ghost<Map<Seq<HeadphoneButton>, MapActionView>>,
}

/// Whether two triggers are the same sequence of buttons.
pub fn same_trigger(a: &[HeadphoneButton], b: &[HeadphoneButton]) -> (r: bool)
    ensures
        r == (a@ == b@),
{
    if a.len() != b.len() {
        return false;
    }
    let mut i: usize = 0;
    while i < a.len()
        invariant
            i <= a@.len(),
            a@.len() == b@.len(),
            forall|k: int| 0 <= k < i ==> a@[k] == b@[k],
        decreases a@.len() - i,
    {
        if a[i] != b[i] {
            return false;
        }
        i = i + 1;
    }
    assert(a@ =~= b@);
    true
}

impl View for MapCollection {
    type V = Map<Seq<HeadphoneButton>, MapActionView>;

    closed spec fn view(&self) -> Map<Seq<HeadphoneButton>, MapActionView> {
        self.contents@
    }
}

impl MapCollection {
    /// The entries agree with the table, and no trigger stands twice.
    pub closed spec fn wf(&self) -> bool {
        &&& forall|i: int, j: int|
            0 <= i < self.entries@.len() && 0 <= j < self.entries@.len() && i != j
                ==> (#[trigger] self.entries@[i]).trigger@ != (#[trigger] self.entries@[j]).trigger@
        &&& forall|i: int|
            0 <= i < self.entries@.len() ==> self.contents@.contains_key(
                (#[trigger] self.entries@[i]).trigger@,
            ) && self.contents@[self.entries@[i].trigger@] == self.entries@[i].action@
        &&& forall|t: Seq<HeadphoneButton>|
            #[trigger] self.contents@.contains_key(t) ==> exists|i: int|
                0 <= i < self.entries@.len() && (#[trigger] self.entries@[i]).trigger@ == t
    }

    /// The empty table.
    pub fn new() -> (r: MapCollection)
        ensures
            r.wf(),
            r@ == Map::<Seq<HeadphoneButton>, MapActionView>::empty(),
    {
        MapCollection { entries: Vec::new(), contents: Ghost(Map::empty()) }
    }

    /// The number of triggers in the table.
    pub fn len(&self) -> (r: usize)
        requires
            self.wf(),
        ensures
            r == self@.len(),
    {
        proof {
            let keys = Set::new(|i: int| 0 <= i < self.entries@.len()).map(
                |i: int| self.entries@[i].trigger@,
            );
            assert(self@.dom() =~= keys) by {
                assert forall|t| #[trigger] self@.dom().contains(t) implies keys.contains(t) by {
                    let i = choose|i: int|
                        0 <= i < self.entries@.len() && (#[trigger] self.entries@[i]).trigger@ == t;
                    assert(Set::new(|i: int| 0 <= i < self.entries@.len()).contains(i));
                }
            }
            lemma_injective_count(self.entries@);
        }
        self.entries.len()
    }

    /// The entries of the table, in no particular order; no trigger stands
    /// twice.
    pub fn entries(&self) -> (r: &[Entry])
        requires
            self.wf(),
        ensures
            forall|i: int|
                0 <= i < r@.len() ==> self@.contains_key((#[trigger] r@[i]).trigger@) && self@[r@[i].trigger@]
                    == r@[i].action@,
            forall|t: Seq<HeadphoneButton>|
                #[trigger] self@.contains_key(t) ==> exists|i: int| 0 <= i < r@.len() && (#[trigger] r@[i]).trigger@ == t,
            forall|i: int, j: int|
                0 <= i < r@.len() && 0 <= j < r@.len() && i != j ==> (#[trigger] r@[i]).trigger@ != (#[trigger] r@[j]).trigger@,
    {
        self.entries.as_slice()
    }

    /// Maps `trigger` to `action`, in place of what it was mapped to before.
    pub fn insert(&mut self, trigger: Vec<HeadphoneButton>, action: MapAction)
        requires
            old(self).wf(),
        ensures
            final(self).wf(),
            final(self)@ == old(self)@.insert(trigger@, action@),
    {
        let ghost key = trigger@;
        let ghost val = action@;
        let mut i: usize = 0;
        while i < self.entries.len()
            invariant
                self.wf(),
                self@ == old(self)@,
                i <= self.entries@.len(),
                key == trigger@,
                val == action@,
                forall|k: int| 0 <= k < i ==> (#[trigger] self.entries@[k]).trigger@ != key,
            decreases self.entries@.len() - i,
        {
            if same_trigger(self.entries[i].trigger.as_slice(), trigger.as_slice()) {
                let ghost before = self.entries@;
                self.entries.set(i, Entry { trigger, action });
                self.contents = Ghost(self.contents@.insert(key, val));
                proof {
                    assert forall|k: int| 0 <= k < self.entries@.len() && k != i implies
                        (#[trigger] self.entries@[k]) == before[k] by {}
                    assert forall|t| #[trigger] self.contents@.contains_key(t) implies exists|j: int|
                        0 <= j < self.entries@.len() && (#[trigger] self.entries@[j]).trigger@ == t by {
                        if t != key {
                            let j = choose|j: int|
                                0 <= j < before.len() && (#[trigger] before[j]).trigger@ == t;
                            assert(self.entries@[j].trigger@ == t);
                        } else {
                            assert(self.entries@[i as int].trigger@ == t);
                        }
                    }
                }
                return;
            }
            i = i + 1;
        }
        let ghost before = self.entries@;
        self.entries.push(Entry { trigger, action });
        self.contents = Ghost(self.contents@.insert(key, val));
        proof {
            let n = before.len() as int;
            assert(self.entries@[n].trigger@ == key);
            assert forall|k: int| 0 <= k < n implies (#[trigger] self.entries@[k]) == before[k] by {}
            assert forall|t| #[trigger] self.contents@.contains_key(t) implies exists|j: int|
                0 <= j < self.entries@.len() && (#[trigger] self.entries@[j]).trigger@ == t by {
                if t != key {
                    let j = choose|j: int| 0 <= j < before.len() && (#[trigger] before[j]).trigger@ == t;
                    assert(self.entries@[j].trigger@ == t);
                }
            }
        }
    }

    /// The action of `trigger`, if the table holds it.
    pub fn get(&self, trigger: &[HeadphoneButton]) -> (r: Option<&MapAction>)
        requires
            self.wf(),
        ensures
            match r {
                Some(a) => self@.contains_key(trigger@) && a@ == self@[trigger@],
                None => !self@.contains_key(trigger@),
            },
    {
        let mut i: usize = 0;
        while i < self.entries.len()
            invariant
                self.wf(),
                i <= self.entries@.len(),
                forall|k: int| 0 <= k < i ==> (#[trigger] self.entries@[k]).trigger@ != trigger@,
            decreases self.entries@.len() - i,
        {
            if same_trigger(self.entries[i].trigger.as_slice(), trigger) {
                return Some(&self.entries[i].action);
            }
            i = i + 1;
        }
        None
    }

    /// Resolves the text of every `map` action into keystrokes.
    pub fn parse_actions(&mut self)
        requires
            old(self).wf(),
        ensures
            final(self).wf(),
            final(self)@ == old(self)@.map_values(|a: MapActionView| resolved(a)),
    {
        let ghost before = self.entries@;
        let ghost n = before.len() as int;
        let mut out: Vec<Entry> = Vec::new();
        while self.entries.len() > 0
            invariant
                old(self).wf(),
                before == old(self).entries@,
                n == before.len(),
                self.contents == old(self).contents,
                self.entries@.len() + out@.len() == n,
                self.entries@ == before.subrange(0, self.entries@.len() as int),
                forall|k: int|
                    0 <= k < out@.len() ==> (#[trigger] out@[k]).trigger@ == before[n - 1 - k].trigger@
                        && out@[k].action@ == resolved(before[n - 1 - k].action@),
            decreases self.entries@.len(),
        {
            let ghost m = self.entries@.len() as int;
            assert(self.entries@[m - 1] == before[m - 1]);
            let mut e = self.entries.pop().unwrap();
            assert(self.entries@ =~= before.subrange(0, m - 1));
            e.action.parse();
            out.push(e);
        }
        let ghost old_map = self.contents@;
        self.entries = out;
        self.contents = Ghost(old_map.map_values(|a: MapActionView| resolved(a)));
        proof {
            assert forall|i: int, j: int|
                0 <= i < self.entries@.len() && 0 <= j < self.entries@.len() && i != j implies
                (#[trigger] self.entries@[i]).trigger@ != (#[trigger] self.entries@[j]).trigger@ by {
                assert(before[n - 1 - i].trigger@ != before[n - 1 - j].trigger@);
            }
            assert forall|i: int| 0 <= i < self.entries@.len() implies self.contents@.contains_key(
                (#[trigger] self.entries@[i]).trigger@,
            ) && self.contents@[self.entries@[i].trigger@] == self.entries@[i].action@ by {
                assert(old_map.contains_key(before[n - 1 - i].trigger@));
            }
            assert forall|t| #[trigger] self.contents@.contains_key(t) implies exists|j: int|
                0 <= j < self.entries@.len() && (#[trigger] self.entries@[j]).trigger@ == t by {
                let k = choose|k: int| 0 <= k < before.len() && (#[trigger] before[k]).trigger@ == t;
                assert(self.entries@[n - 1 - k].trigger@ == t);
            }
        }
    }
}

/// The triggers of entries whose triggers are pairwise distinct are as many
/// as the entries.
proof fn lemma_injective_count(es: Seq<Entry>)
    requires
        forall|i: int, j: int|
            0 <= i < es.len() && 0 <= j < es.len() && i != j ==> (#[trigger] es[i]).trigger@
                != (#[trigger] es[j]).trigger@,
    ensures
        Set::new(|i: int| 0 <= i < es.len()).map(|i: int| es[i].trigger@).len() == es.len(),
        Set::new(|i: int| 0 <= i < es.len()).map(|i: int| es[i].trigger@).finite(),
    decreases es.len(),
{
    let f = |i: int| es[i].trigger@;
    let idx = Set::new(|i: int| 0 <= i < es.len());
    assert(idx =~= vstd::set_lib::set_int_range(0, es.len() as int));
    vstd::set_lib::lemma_int_range(0, es.len() as int);
    assert(vstd::relations::injective_on(f, idx)) by {}
    vstd::set_lib::lemma_map_size(idx, idx.map(f), f);
}

} // verus!
