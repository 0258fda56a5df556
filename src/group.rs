//! The whole configuration: the top-level table and the tables of the modes.

use vstd::prelude::*;
use crate::action::{Action, ActionView, MapAction, MapActionView, MapKind, resolved};
use crate::keys::{HeadphoneButton, KeyboardKey, KeyboardKeyWithModifiers, Modifiers, NXKey};
use crate::table::{MapCollection, same_trigger};

verus! {

/// One declaration of a `map` or `cmd` line: its trigger, its action text and
/// its kind.
#[derive(Debug, PartialEq, Eq)]
pub struct Mapping {
    pub trigger: Vec<HeadphoneButton>,
    pub action: Action,
    pub kind: MapKind,
}

pub struct MappingView {
    pub trigger: Seq<HeadphoneButton>,
    pub action: ActionView,
    pub kind: MapKind,
}

impl View for Mapping {
    type V = MappingView;

    open spec fn view(&self) -> MappingView {
        MappingView { trigger: self.trigger@, action: self.action@, kind: self.kind }
    }
}

/// A mode: the trigger that enters and leaves it, and the table that holds
/// while it is active.
pub struct Mode {
    pub trigger: Vec<HeadphoneButton>,
    pub maps: MapCollection,
}

pub struct ModeView {
    pub trigger: Seq<HeadphoneButton>,
    pub maps: Map<Seq<HeadphoneButton>, MapActionView>,
}

impl View for Mode {
    type V = ModeView;

    open spec fn view(&self) -> ModeView {
        ModeView { trigger: self.trigger@, maps: self.maps@ }
    }
}

/// A top-level declaration: a `map` or `cmd` line, or a mode block.
pub enum Definition {
    Mapping(Mapping),
    Mode(Mode),
}

pub enum DefinitionView {
    Mapping(MappingView),
    Mode(ModeView),
}

impl View for Definition {
    type V = DefinitionView;

    open spec fn view(&self) -> DefinitionView {
        match self {
            Definition::Mapping(m) => DefinitionView::Mapping(m@),
            Definition::Mode(m) => DefinitionView::Mode(m@),
        }
    }
}

impl Definition {
    pub open spec fn wf(&self) -> bool {
        match self {
            Definition::Mapping(_) => true,
            Definition::Mode(m) => m.maps.wf(),
        }
    }
}

/// The entry that a declaration puts in its table.
pub open spec fn entry_of(m: MappingView) -> MapActionView {
    MapActionView { action: m.action, kind: m.kind }
}

/// The table that declarations give, read in order: a later declaration of a
/// trigger replaces an earlier one.
pub open spec fn table_of(ms: Seq<MappingView>) -> Map<Seq<HeadphoneButton>, MapActionView>
    decreases ms.len(),
{
    if ms.len() == 0 {
        Map::empty()
    } else {
        table_of(ms.drop_last()).insert(ms.last().trigger, entry_of(ms.last()))
    }
}

pub struct MapGroupView {
    pub maps: Map<Seq<HeadphoneButton>, MapActionView>,
    pub modes: Map<Seq<HeadphoneButton>, Map<Seq<HeadphoneButton>, MapActionView>>,
}

/// The action that presses one system key without modifiers.
pub open spec fn media_key(k: NXKey) -> MapActionView {
    MapActionView {
        action: ActionView::Keys(
            seq![KeyboardKeyWithModifiers { key: KeyboardKey::NXKey(k), flags: Modifiers::empty() }],
        ),
        kind: MapKind::Keys,
    }
}

/// The configuration of an empty mapping file: up raises the volume, play
/// plays or pauses, down lowers the volume; no modes.
pub open spec fn default_group() -> MapGroupView {
    MapGroupView {
        maps: Map::empty().insert(seq![HeadphoneButton::Up], media_key(NXKey::SoundUp)).insert(
            seq![HeadphoneButton::Play],
            media_key(NXKey::Play),
        ).insert(seq![HeadphoneButton::Down], media_key(NXKey::SoundDown)),
        modes: Map::empty(),
    }
}

/// The group after one more declaration.
pub open spec fn apply_definition(g: MapGroupView, d: DefinitionView) -> MapGroupView {
    match d {
        DefinitionView::Mapping(m) => MapGroupView { maps: g.maps.insert(m.trigger, entry_of(m)), ..g },
        DefinitionView::Mode(m) => MapGroupView { modes: g.modes.insert(m.trigger, m.maps), ..g },
    }
}

/// The group after the declarations `ds`, in order.
pub open spec fn apply_definitions(g: MapGroupView, ds: Seq<DefinitionView>) -> MapGroupView
    decreases ds.len(),
{
    if ds.len() == 0 {
        g
    } else {
        apply_definition(apply_definitions(g, ds.drop_last()), ds.last())
    }
}

/// The group with every `map` action resolved into keystrokes.
pub open spec fn resolved_group(g: MapGroupView) -> MapGroupView {
    MapGroupView {
        maps: g.maps.map_values(|a: MapActionView| resolved(a)),
        modes: g.modes.map_values(
            |t: Map<Seq<HeadphoneButton>, MapActionView>| t.map_values(|a: MapActionView| resolved(a)),
        ),
    }
}

/// The whole configuration read from a mapping file.
pub struct MapGroup {
    maps: MapCollection,
    modes: Vec<Mode>,
    modes_view: Ghost<Map<Seq<HeadphoneButton>, Map<Seq<HeadphoneButton>, MapActionView>>>,
}

impl View for MapGroup {
    type V = MapGroupView;

    closed spec fn view(&self) -> MapGroupView {
        MapGroupView { maps: self.maps@, modes: self.modes_view@ }
    }
}

fn media_key_action(k: NXKey) -> (r: MapAction)
    ensures
        r@ == media_key(k),
{
    let mut keys: Vec<KeyboardKeyWithModifiers> = Vec::new();
    keys.push(KeyboardKeyWithModifiers { key: KeyboardKey::NXKey(k), flags: Modifiers::none() });
    MapAction { action: Action::Keys(keys), kind: MapKind::Keys }
}

impl MapGroup {
    /// Every table is well formed, and a mode trigger stands at most once.
    pub closed spec fn wf(&self) -> bool {
        &&& self.maps.wf()
        &&& forall|i: int, j: int|
            0 <= i < self.modes@.len() && 0 <= j < self.modes@.len() && i != j
                ==> (#[trigger] self.modes@[i]).trigger@ != (#[trigger] self.modes@[j]).trigger@
        &&& forall|i: int|
            0 <= i < self.modes@.len() ==> (#[trigger] self.modes@[i]).maps.wf()
                && self.modes_view@.contains_key(self.modes@[i].trigger@)
                && self.modes_view@[self.modes@[i].trigger@] == self.modes@[i].maps@
        &&& forall|t: Seq<HeadphoneButton>|
            #[trigger] self.modes_view@.contains_key(t) ==> exists|i: int|
                0 <= i < self.modes@.len() && (#[trigger] self.modes@[i]).trigger@ == t
    }

    /// The configuration of an empty mapping file.
    pub fn new_default() -> (r: MapGroup)
        ensures
            r.wf(),
            r@ == default_group(),
    {
        let mut maps = MapCollection::new();
        let mut up: Vec<HeadphoneButton> = Vec::new();
        up.push(HeadphoneButton::Up);
        maps.insert(up, media_key_action(NXKey::SoundUp));
        let mut play: Vec<HeadphoneButton> = Vec::new();
        play.push(HeadphoneButton::Play);
        maps.insert(play, media_key_action(NXKey::Play));
        let mut down: Vec<HeadphoneButton> = Vec::new();
        down.push(HeadphoneButton::Down);
        maps.insert(down, media_key_action(NXKey::SoundDown));
        let r = MapGroup { maps, modes: Vec::new(), modes_view: Ghost(Map::empty()) };
        assert(r@.maps =~= default_group().maps);
        r
    }

    /// The top-level table.
    pub fn maps(&self) -> (r: &MapCollection)
        requires
            self.wf(),
        ensures
            r@ == self@.maps,
            r.wf(),
    {
        &self.maps
    }

    /// The modes, in no particular order; no trigger stands twice.
    pub fn modes(&self) -> (r: &[Mode])
        requires
            self.wf(),
        ensures
            forall|i: int|
                0 <= i < r@.len() ==> self@.modes.contains_key((#[trigger] r@[i]).trigger@)
                    && self@.modes[r@[i].trigger@] == r@[i].maps@ && r@[i].maps.wf(),
            forall|t: Seq<HeadphoneButton>|
                #[trigger] self@.modes.contains_key(t) ==> exists|i: int| 0 <= i < r@.len() && (#[trigger] r@[i]).trigger@ == t,
            forall|i: int, j: int|
                0 <= i < r@.len() && 0 <= j < r@.len() && i != j ==> (#[trigger] r@[i]).trigger@ != (#[trigger] r@[j]).trigger@,
    {
        self.modes.as_slice()
    }

    /// The number of modes.
    pub fn mode_count(&self) -> (r: usize)
        requires
            self.wf(),
        ensures
            r == self@.modes.len(),
    {
        proof {
            let keys = Set::new(|i: int| 0 <= i < self.modes@.len()).map(
                |i: int| self.modes@[i].trigger@,
            );
            assert(self@.modes.dom() =~= keys) by {
                assert forall|t| #[trigger] self@.modes.dom().contains(t) implies keys.contains(t) by {
                    let i = choose|i: int|
                        0 <= i < self.modes@.len() && (#[trigger] self.modes@[i]).trigger@ == t;
                    assert(Set::new(|i: int| 0 <= i < self.modes@.len()).contains(i));
                }
            }
            lemma_distinct_mode_count(self.modes@);
        }
        self.modes.len()
    }

    /// The table of the mode that `trigger` enters, if there is one.
    pub fn mode(&self, trigger: &[HeadphoneButton]) -> (r: Option<&MapCollection>)
        requires
            self.wf(),
        ensures
            match r {
                Some(t) => self@.modes.contains_key(trigger@) && t@ == self@.modes[trigger@] && t.wf(),
                None => !self@.modes.contains_key(trigger@),
            },
    {
        let mut i: usize = 0;
        while i < self.modes.len()
            invariant
                self.wf(),
                i <= self.modes@.len(),
                forall|k: int| 0 <= k < i ==> (#[trigger] self.modes@[k]).trigger@ != trigger@,
            decreases self.modes@.len() - i,
        {
            if same_trigger(self.modes[i].trigger.as_slice(), trigger) {
                return Some(&self.modes[i].maps);
            }
            i = i + 1;
        }
        None
    }

    /// Adds `mode`, in place of a mode with the same trigger.
    pub fn insert_mode(&mut self, mode: Mode)
        requires
            old(self).wf(),
            mode.maps.wf(),
        ensures
            final(self).wf(),
            final(self)@ == (MapGroupView { modes: old(self)@.modes.insert(mode.trigger@, mode.maps@), ..old(self)@ }),
    {
        let ghost key = mode.trigger@;
        let ghost val = mode.maps@;
        let mut i: usize = 0;
        while i < self.modes.len()
            invariant
                self.wf(),
                self@ == old(self)@,
                i <= self.modes@.len(),
                key == mode.trigger@,
                val == mode.maps@,
                mode.maps.wf(),
                forall|k: int| 0 <= k < i ==> (#[trigger] self.modes@[k]).trigger@ != key,
            decreases self.modes@.len() - i,
        {
            if same_trigger(self.modes[i].trigger.as_slice(), mode.trigger.as_slice()) {
                let ghost before = self.modes@;
                self.modes.set(i, mode);
                self.modes_view = Ghost(self.modes_view@.insert(key, val));
                proof {
                    assert forall|k: int| 0 <= k < self.modes@.len() && k != i implies
                        (#[trigger] self.modes@[k]) == before[k] by {}
                    assert forall|t| #[trigger] self.modes_view@.contains_key(t) implies exists|j: int|
                        0 <= j < self.modes@.len() && (#[trigger] self.modes@[j]).trigger@ == t by {
                        if t != key {
                            let j = choose|j: int|
                                0 <= j < before.len() && (#[trigger] before[j]).trigger@ == t;
                            assert(self.modes@[j].trigger@ == t);
                        } else {
                            assert(self.modes@[i as int].trigger@ == t);
                        }
                    }
                }
                return;
            }
            i = i + 1;
        }
        let ghost before = self.modes@;
        self.modes.push(mode);
        self.modes_view = Ghost(self.modes_view@.insert(key, val));
        proof {
            let n = before.len() as int;
            assert(self.modes@[n].trigger@ == key);
            assert forall|k: int| 0 <= k < n implies (#[trigger] self.modes@[k]) == before[k] by {}
            assert forall|t| #[trigger] self.modes_view@.contains_key(t) implies exists|j: int|
                0 <= j < self.modes@.len() && (#[trigger] self.modes@[j]).trigger@ == t by {
                if t != key {
                    let j = choose|j: int| 0 <= j < before.len() && (#[trigger] before[j]).trigger@ == t;
                    assert(self.modes@[j].trigger@ == t);
                }
            }
        }
    }

    /// Adds one top-level declaration.
    pub fn apply(&mut self, d: Definition)
        requires
            old(self).wf(),
            d.wf(),
        ensures
            final(self).wf(),
            final(self)@ == apply_definition(old(self)@, d@),
    {
        match d {
            Definition::Mapping(m) => {
                self.maps.insert(m.trigger, MapAction { action: m.action, kind: m.kind });
            },
            Definition::Mode(m) => {
                self.insert_mode(m);
            },
        }
    }

    /// Resolves the text of every `map` action, at the top level and in every
    /// mode, into keystrokes.
    pub fn parse_actions(&mut self)
        requires
            old(self).wf(),
        ensures
            final(self).wf(),
            final(self)@ == resolved_group(old(self)@),
    {
        self.maps.parse_actions();
        let ghost before = self.modes@;
        let ghost n = before.len() as int;
        let mut out: Vec<Mode> = Vec::new();
        while self.modes.len() > 0
            invariant
                old(self).wf(),
                before == old(self).modes@,
                n == before.len(),
                self.modes_view == old(self).modes_view,
                self.maps.wf(),
                self.maps@ == old(self).maps@.map_values(|a: MapActionView| resolved(a)),
                self.modes@.len() + out@.len() == n,
                self.modes@ == before.subrange(0, self.modes@.len() as int),
                forall|k: int|
                    0 <= k < out@.len() ==> (#[trigger] out@[k]).trigger@ == before[n - 1 - k].trigger@
                        && out@[k].maps.wf()
                        && out@[k].maps@ == before[n - 1 - k].maps@.map_values(|a: MapActionView| resolved(a)),
            decreases self.modes@.len(),
        {
            let ghost m = self.modes@.len() as int;
            assert(self.modes@[m - 1] == before[m - 1]);
            let mut e = self.modes.pop().unwrap();
            assert(self.modes@ =~= before.subrange(0, m - 1));
            e.maps.parse_actions();
            out.push(e);
        }
        let ghost old_map = self.modes_view@;
        self.modes = out;
        self.modes_view = Ghost(
            old_map.map_values(
                |t: Map<Seq<HeadphoneButton>, MapActionView>| t.map_values(|a: MapActionView| resolved(a)),
            ),
        );
        proof {
            assert forall|i: int, j: int|
                0 <= i < self.modes@.len() && 0 <= j < self.modes@.len() && i != j implies
                (#[trigger] self.modes@[i]).trigger@ != (#[trigger] self.modes@[j]).trigger@ by {
                assert(before[n - 1 - i].trigger@ != before[n - 1 - j].trigger@);
            }
            assert forall|i: int| 0 <= i < self.modes@.len() implies (#[trigger] self.modes@[i]).maps.wf()
                && self.modes_view@.contains_key(self.modes@[i].trigger@)
                && self.modes_view@[self.modes@[i].trigger@] == self.modes@[i].maps@ by {
                assert(old_map.contains_key(before[n - 1 - i].trigger@));
            }
            assert forall|t| #[trigger] self.modes_view@.contains_key(t) implies exists|j: int|
                0 <= j < self.modes@.len() && (#[trigger] self.modes@[j]).trigger@ == t by {
                let k = choose|k: int| 0 <= k < before.len() && (#[trigger] before[k]).trigger@ == t;
                assert(self.modes@[n - 1 - k].trigger@ == t);
            }
            assert(self@ =~= resolved_group(old(self)@));
        }
    }
}

impl Default for MapGroup {
    /// The configuration of an empty mapping file.
    fn default() -> (r: MapGroup)
        ensures
            r.wf(),
            r@ == default_group(),
    {
        MapGroup::new_default()
    }
}

/// Modes whose triggers are pairwise distinct have as many triggers as modes.
proof fn lemma_distinct_mode_count(ms: Seq<Mode>)
    requires
        forall|i: int, j: int|
            0 <= i < ms.len() && 0 <= j < ms.len() && i != j ==> (#[trigger] ms[i]).trigger@
                != (#[trigger] ms[j]).trigger@,
    ensures
        Set::new(|i: int| 0 <= i < ms.len()).map(|i: int| ms[i].trigger@).len() == ms.len(),
        Set::new(|i: int| 0 <= i < ms.len()).map(|i: int| ms[i].trigger@).finite(),
{
    let f = |i: int| ms[i].trigger@;
    let idx = Set::new(|i: int| 0 <= i < ms.len());
    assert(idx =~= vstd::set_lib::set_int_range(0, ms.len() as int));
    vstd::set_lib::lemma_int_range(0, ms.len() as int);
    assert(vstd::relations::injective_on(f, idx)) by {}
    vstd::set_lib::lemma_map_size(idx, idx.map(f), f);
}

} // verus!
