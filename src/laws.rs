//! Laws of the mapping tables and of dispatch.

use vstd::prelude::*;
use crate::dispatch::{ModeChange, Outcome, step};
use crate::group::{
    DefinitionView, MapGroupView, MappingView, apply_definitions, entry_of, table_of,
};
use crate::keys::HeadphoneButton;

verus! {

/// Within one table, the last declaration of a trigger is the one that
/// holds: whatever came before it for the same trigger is gone.
pub proof fn lemma_last_declaration_wins(ms: Seq<MappingView>, j: int)
    requires
        0 <= j < ms.len(),
        forall|k: int| j < k < ms.len() ==> (#[trigger] ms[k]).trigger != ms[j].trigger,
    ensures
        table_of(ms).contains_key(ms[j].trigger),
        table_of(ms)[ms[j].trigger] == entry_of(ms[j]),
    decreases ms.len(),
{
    if j < ms.len() - 1 {
        let init = ms.drop_last();
        assert forall|k: int| j < k < init.len() implies (#[trigger] init[k]).trigger != init[j].trigger by {
            assert(init[k] == ms[k]);
        }
        lemma_last_declaration_wins(init, j);
        assert(ms.last() == ms[ms.len() - 1]);
    }
}

/// At the top level of a mapping file, the last `map` or `cmd` declaration
/// of a trigger is the one that holds.
pub proof fn lemma_last_top_level_declaration_wins(g: MapGroupView, ds: Seq<DefinitionView>, j: int)
    requires
        0 <= j < ds.len(),
        ds[j] is Mapping,
        forall|k: int| #![trigger ds[k]]
            j < k < ds.len() && ds[k] is Mapping ==> ds[k]->Mapping_0.trigger != ds[j]->Mapping_0.trigger,
    ensures
        apply_definitions(g, ds).maps.contains_key(ds[j]->Mapping_0.trigger),
        apply_definitions(g, ds).maps[ds[j]->Mapping_0.trigger] == entry_of(ds[j]->Mapping_0),
    decreases ds.len(),
{
    if j < ds.len() - 1 {
        let init = ds.drop_last();
        assert forall|k: int| #![trigger init[k]]
            j < k < init.len() && init[k] is Mapping implies init[k]->Mapping_0.trigger != init[j]->Mapping_0.trigger by {
            assert(init[k] == ds[k]);
        }
        lemma_last_top_level_declaration_wins(g, init, j);
        assert(ds.last() == ds[ds.len() - 1]);
    }
}

/// The last mode block of a trigger is the one that holds.
pub proof fn lemma_last_mode_wins(g: MapGroupView, ds: Seq<DefinitionView>, j: int)
    requires
        0 <= j < ds.len(),
        ds[j] is Mode,
        forall|k: int| #![trigger ds[k]]
            j < k < ds.len() && ds[k] is Mode ==> ds[k]->Mode_0.trigger != ds[j]->Mode_0.trigger,
    ensures
        apply_definitions(g, ds).modes.contains_key(ds[j]->Mode_0.trigger),
        apply_definitions(g, ds).modes[ds[j]->Mode_0.trigger] == ds[j]->Mode_0.maps,
    decreases ds.len(),
{
    if j < ds.len() - 1 {
        let init = ds.drop_last();
        assert forall|k: int| #![trigger init[k]]
            j < k < init.len() && init[k] is Mode implies init[k]->Mode_0.trigger != init[j]->Mode_0.trigger by {
            assert(init[k] == ds[k]);
        }
        lemma_last_mode_wins(g, init, j);
        assert(ds.last() == ds[ds.len() - 1]);
    }
}

/// With no mode active, a trigger that nothing maps and that enters no mode
/// does nothing and leaves no mode active.
pub proof fn lemma_unmapped_trigger_does_nothing(g: MapGroupView, t: Seq<HeadphoneButton>)
    requires
        !g.maps.contains_key(t),
        !g.modes.contains_key(t),
    ensures
        step(g, None, t) == (None::<Seq<HeadphoneButton>>, Outcome { action: None, mode_change: None }),
{
}

/// With no mode active, a mode's trigger enters that mode; pressed again at
/// once, it leaves the mode, runs nothing, and no mode is active.
pub proof fn lemma_mode_round_trip(g: MapGroupView, t: Seq<HeadphoneButton>)
    requires
        g.modes.contains_key(t),
    ensures
        step(g, None, t).0 == Some(t),
        step(g, None, t).1.mode_change == Some(ModeChange::Activated),
        step(g, Some(t), t) == (
            None::<Seq<HeadphoneButton>>,
            Outcome { action: None, mode_change: Some(ModeChange::Deactivated) },
        ),
{
}

/// Pressing triggers never makes active a trigger that enters no mode: if the
/// active mode, if any, is one of the group's modes, so is the next one.
pub proof fn lemma_active_mode_is_a_mode(
    g: MapGroupView,
    state: Option<Seq<HeadphoneButton>>,
    t: Seq<HeadphoneButton>,
)
    requires
        state matches Some(m) ==> g.modes.contains_key(m),
    ensures
        step(g, state, t).0 matches Some(m) ==> g.modes.contains_key(m),
{
}

} // verus!
