use vstd::prelude::*;

verus! {

/// Zone type restricted to one privileged account; its units are free.
pub const ZONE_TYPE_OPERATOR: u8 = 1;
/// Zone type open to holders of a unit of an external collection.
pub const ZONE_TYPE_HOLDER: u8 = 2;
/// Zone type open to anyone paying the listed price.
pub const ZONE_TYPE_PUBLIC: u8 = 3;
/// The index of the operator zone that every metaverse starts with.
pub const OPERATOR_ZONE_INDEX: u16 = 1;

/// A sub-range `[rock_index_from, rock_index_to]` of a metaverse's units, with
/// one type, one price and one authorization rule.
#[derive(Debug, PartialEq, Eq)]
pub struct Zone {
    pub zone_index: u16,
    pub price: u128,
    /// The account allowed to mint in an operator zone.
    pub core_team_addr: String,
    /// The external collection whose units open a holder-gated zone.
    pub collection_addr: String,
    pub type_zone: u8,
    pub rock_index_from: u128,
    pub rock_index_to: u128,
}

impl Zone {
    /// `rock_index` lies in the zone's range.
    pub open spec fn covers(self, rock_index: int) -> bool {
        self.rock_index_from <= rock_index <= self.rock_index_to
    }

    /// The two zones' ranges share a unit.
    pub open spec fn overlaps(self, other: Zone) -> bool {
        self.rock_index_from <= other.rock_index_to && other.rock_index_from
            <= self.rock_index_to
    }

    /// The number of units in the zone.
    pub open spec fn size(self) -> int {
        self.rock_index_to - self.rock_index_from + 1
    }

    /// A zone a metaverse owner may declare: holder-gated or public, a
    /// non-empty range starting above 0, a collection for a holder-gated
    /// zone and a price for a public one.
    pub open spec fn well_formed(self) -> bool {
        &&& self.type_zone == ZONE_TYPE_HOLDER || self.type_zone == ZONE_TYPE_PUBLIC
        &&& 0 < self.rock_index_from <= self.rock_index_to
        &&& self.type_zone == ZONE_TYPE_HOLDER ==> self.collection_addr@.len() > 0
        &&& self.type_zone == ZONE_TYPE_PUBLIC ==> self.price > 0
    }

    /// Whether the zone is one a metaverse owner may declare.
    pub fn check_zone(&self) -> (r: bool)
        ensures
            r == self.well_formed(),
    {
        if self.type_zone != ZONE_TYPE_HOLDER && self.type_zone != ZONE_TYPE_PUBLIC {
            return false;
        }
        if self.rock_index_from == 0 || self.rock_index_from > self.rock_index_to {
            return false;
        }
        if self.type_zone == ZONE_TYPE_HOLDER {
            !self.collection_addr.as_str().is_empty()
        } else {
            self.price > 0
        }
    }

    /// Whether the two zones' ranges share a unit.
    pub fn overlaps_zone(&self, other: &Zone) -> (r: bool)
        ensures
            r == self.overlaps(*other),
    {
        self.rock_index_from <= other.rock_index_to && other.rock_index_from <= self.rock_index_to
    }

    /// A copy of the zone.
    pub fn copy(&self) -> (r: Zone)
        ensures
            r == *self,
    {
        Zone {
            zone_index: self.zone_index,
            price: self.price,
            core_team_addr: self.core_team_addr.clone(),
            collection_addr: self.collection_addr.clone(),
            type_zone: self.type_zone,
            rock_index_from: self.rock_index_from,
            rock_index_to: self.rock_index_to,
        }
    }

    /// The operator zone every metaverse starts with: index 1, the single unit
    /// 1, free, minted only by `operator_id`.
    pub fn operator_zone(operator_id: &String) -> (r: Zone)
        ensures
            r.is_operator_zone_of(operator_id@),
    {
        Zone {
            zone_index: OPERATOR_ZONE_INDEX,
            price: 0,
            core_team_addr: operator_id.clone(),
            collection_addr: String::new(),
            type_zone: ZONE_TYPE_OPERATOR,
            rock_index_from: 1,
            rock_index_to: 1,
        }
    }

    /// The zone is the operator zone of a metaverse created while
    /// `operator_id` was the operator.
    pub open spec fn is_operator_zone_of(self, operator_id: Seq<char>) -> bool {
        &&& self.zone_index == OPERATOR_ZONE_INDEX
        &&& self.price == 0
        &&& self.core_team_addr@ == operator_id
        &&& self.collection_addr@.len() == 0
        &&& self.type_zone == ZONE_TYPE_OPERATOR
        &&& self.rock_index_from == 1
        &&& self.rock_index_to == 1
    }
}

} // verus!
