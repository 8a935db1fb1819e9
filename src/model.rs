use vstd::prelude::*;
use crate::zone::{Zone, OPERATOR_ZONE_INDEX, ZONE_TYPE_HOLDER};

verus! {

/// The views of a sequence of strings.
pub open spec fn views(v: Seq<String>) -> Seq<Seq<char>> {
    v.map_values(|s: String| s@)
}

/// Two zones of one metaverse may stand side by side: distinct indices,
/// disjoint ranges, and one external collection for holder-gated zones.
pub open spec fn compatible(a: Zone, b: Zone) -> bool {
    &&& a.zone_index != b.zone_index
    &&& !a.overlaps(b)
    &&& (a.type_zone == ZONE_TYPE_HOLDER && b.type_zone == ZONE_TYPE_HOLDER)
        ==> a.collection_addr@ == b.collection_addr@
}

/// The zone leaves room for the operator zone: another index, and a range above unit 1.
pub open spec fn clear_of_operator_zone(z: Zone) -> bool {
    z.zone_index != OPERATOR_ZONE_INDEX && z.rock_index_from > 1
}

/// Any two distinct zones of the sequence are compatible.
pub open spec fn pairwise_compatible(zs: Seq<Zone>) -> bool {
    forall|i: int, j: int|
        0 <= i < zs.len() && 0 <= j < zs.len() && i != j ==> compatible(
            #[trigger] zs[i],
            #[trigger] zs[j],
        )
}

/// The number of units in all the zones together.
pub open spec fn total_size(zs: Seq<Zone>) -> int
    decreases zs.len(),
{
    if zs.len() == 0 {
        0
    } else {
        total_size(zs.drop_last()) + zs.last().size()
    }
}

/// What the engine knows of one metaverse.
pub struct MetaverseModel {
    pub metaverse_id: Seq<char>,
    pub owner_id: Seq<char>,
    /// The operator zone first, then the zones in the order they were added.
    pub zones: Seq<Zone>,
    /// The ids of the units minted so far.
    pub minted: Seq<Seq<char>>,
    /// The external units that have authorized a mint so far.
    pub spent: Seq<Seq<char>>,
}

impl MetaverseModel {
    pub open spec fn has_zone(self, zone_index: u16) -> bool {
        exists|i: int| 0 <= i < self.zones.len() && (#[trigger] self.zones[i]).zone_index == zone_index
    }

    pub open spec fn zone_pos(self, zone_index: u16) -> int {
        choose|i: int| 0 <= i < self.zones.len() && (#[trigger] self.zones[i]).zone_index == zone_index
    }

    /// The zone with index `zone_index`; meaningful where `has_zone` holds.
    pub open spec fn zone(self, zone_index: u16) -> Zone {
        self.zones[self.zone_pos(zone_index)]
    }

    /// The zones are the operator zone followed by well-formed, pairwise
    /// compatible zones (holder-gated ones only where `allow_holder` holds).
    pub open spec fn wf(self, allow_holder: bool) -> bool {
        &&& self.zones.len() >= 1
        &&& self.zones[0].zone_index == OPERATOR_ZONE_INDEX
        &&& self.zones[0].rock_index_from == 1
        &&& self.zones[0].rock_index_to == 1
        &&& self.zones[0].type_zone == crate::zone::ZONE_TYPE_OPERATOR
        &&& forall|i: int|
            1 <= i < self.zones.len() ==> zone_allowed(#[trigger] self.zones[i], allow_holder)
        &&& pairwise_compatible(self.zones)
    }

    pub open spec fn with_zones(self, zones: Seq<Zone>) -> MetaverseModel {
        MetaverseModel { zones, ..self }
    }

    pub open spec fn with_minted(self, token_id: Seq<char>) -> MetaverseModel {
        MetaverseModel { minted: self.minted.push(token_id), ..self }
    }

    pub open spec fn with_spent(self, unit: Seq<char>) -> MetaverseModel {
        MetaverseModel { spent: self.spent.push(unit), ..self }
    }
}

/// A zone a metaverse owner may declare under the engine's configuration.
pub open spec fn zone_allowed(z: Zone, allow_holder: bool) -> bool {
    z.well_formed() && (z.type_zone == ZONE_TYPE_HOLDER ==> allow_holder)
}

/// Every metaverse of `a` is still in `b`, with at least the minted units and
/// spent external units it had: nothing is ever un-minted or un-spent.
pub open spec fn records_grow(a: Seq<MetaverseModel>, b: Seq<MetaverseModel>) -> bool {
    &&& a.len() <= b.len()
    &&& forall|i: int|
        0 <= i < a.len() ==> {
            &&& (#[trigger] b[i]).metaverse_id == a[i].metaverse_id
            &&& b[i].minted.len() >= a[i].minted.len()
            &&& b[i].minted.subrange(0, a[i].minted.len() as int) == a[i].minted
            &&& b[i].spent.len() >= a[i].spent.len()
            &&& b[i].spent.subrange(0, a[i].spent.len() as int) == a[i].spent
        }
}

/// Growth of the records composes: a run of calls, each of which grows the
/// records, grows them.
pub proof fn lemma_records_grow_trans(
    a: Seq<MetaverseModel>,
    b: Seq<MetaverseModel>,
    c: Seq<MetaverseModel>,
)
    requires
        records_grow(a, b),
        records_grow(b, c),
    ensures
        records_grow(a, c),
{
    assert forall|i: int| 0 <= i < a.len() implies {
        &&& (#[trigger] c[i]).metaverse_id == a[i].metaverse_id
        &&& c[i].minted.len() >= a[i].minted.len()
        &&& c[i].minted.subrange(0, a[i].minted.len() as int) == a[i].minted
        &&& c[i].spent.len() >= a[i].spent.len()
        &&& c[i].spent.subrange(0, a[i].spent.len() as int) == a[i].spent
    } by {
        assert(b[i].metaverse_id == a[i].metaverse_id);
        assert(c[i].metaverse_id == b[i].metaverse_id);
        let n = a[i].minted.len() as int;
        let k = a[i].spent.len() as int;
        assert(c[i].minted.subrange(0, n) =~= c[i].minted.subrange(0, b[i].minted.len() as int).subrange(0, n));
        assert(c[i].spent.subrange(0, k) =~= c[i].spent.subrange(0, b[i].spent.len() as int).subrange(0, k));
    }
}

/// Every metaverse of `a` is still in `b`, at the same place, with the same
/// zones; `b` may hold more metaverses.
pub open spec fn zones_kept(a: Seq<MetaverseModel>, b: Seq<MetaverseModel>) -> bool {
    &&& a.len() <= b.len()
    &&& forall|i: int|
        0 <= i < a.len() ==> (#[trigger] b[i]).metaverse_id == a[i].metaverse_id && b[i].zones
            == a[i].zones
}

/// Any sequence keeps its own zones.
pub proof fn lemma_zones_kept_refl(a: Seq<MetaverseModel>)
    ensures
        zones_kept(a, a),
{
}

/// Keeping zones composes: a run of calls, each of which keeps the zones, keeps them.
pub proof fn lemma_zones_kept_trans(
    a: Seq<MetaverseModel>,
    b: Seq<MetaverseModel>,
    c: Seq<MetaverseModel>,
)
    requires
        zones_kept(a, b),
        zones_kept(b, c),
    ensures
        zones_kept(a, c),
{
    assert forall|i: int| 0 <= i < a.len() implies (#[trigger] c[i]).metaverse_id
        == a[i].metaverse_id && c[i].zones == a[i].zones by {
        assert(b[i].metaverse_id == a[i].metaverse_id && b[i].zones == a[i].zones);
    }
}

/// The two sequences hold the same metaverses with the same zones.
pub open spec fn same_zones(a: Seq<MetaverseModel>, b: Seq<MetaverseModel>) -> bool {
    &&& a.len() == b.len()
    &&& forall|i: int|
        0 <= i < a.len() ==> (#[trigger] b[i]).metaverse_id == a[i].metaverse_id && b[i].zones
            == a[i].zones
}

} // verus!
