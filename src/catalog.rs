use vstd::prelude::*;
use crate::admin::auth_error;
use crate::contract::{
    fits_beside, lemma_records_grow_push, lemma_records_grow_refl, lemma_records_grow_update,
    lemma_replace_metaverse, Contract, ImoReceipt, Metaverse,
};
use crate::error::RockError;
use crate::model::{
    clear_of_operator_zone, compatible, pairwise_compatible, records_grow, total_size,
    zone_allowed, zones_kept,
};
use crate::zone::{Zone, OPERATOR_ZONE_INDEX, ZONE_TYPE_HOLDER};

verus! {

impl Contract {
    /// The zone `zone_index` of metaverse `metaverse_id`.
    pub fn get_zone_info(&self, metaverse_id: &String, zone_index: u16) -> (r: Result<
        Zone,
        RockError,
    >)
        requires
            self@.wf(),
        ensures
            self@.has_mv(metaverse_id@) && self@.mv(metaverse_id@).has_zone(zone_index) ==> r
                == Ok::<Zone, RockError>(self@.mv(metaverse_id@).zone(zone_index)),
            !(self@.has_mv(metaverse_id@) && self@.mv(metaverse_id@).has_zone(zone_index)) ==> r
                == Err::<Zone, RockError>(RockError::NotFound),
    {
        match self.find_metaverse(metaverse_id) {
            None => Err(RockError::NotFound),
            Some(i) => {
                let m = &self.metaverses[i];
                proof {
                    assert(self@.metaverses[i as int].wf(self@.allow_holder_zones));
                }
                match m.find_zone(zone_index) {
                    None => Err(RockError::NotFound),
                    Some(k) => Ok(m.zones[k].copy()),
                }
            }
        }
    }

    /// Creates metaverse `metaverse_id`, owned by `owner_id`, with the operator
    /// zone and `zones`, charging `init_imo_fee` for each of their units out of
    /// `deposit`.
    pub fn init_metaverse(
        &mut self,
        metaverse_id: String,
        owner_id: String,
        zones: Vec<Zone>,
        deposit: u128,
    ) -> (r: Result<ImoReceipt, RockError>)
        requires
            old(self)@.wf(),
        ensures
            final(self)@.wf(),
            records_grow(old(self)@.metaverses, final(self)@.metaverses),
            zones_kept(old(self)@.metaverses, final(self)@.metaverses),
            old(self)@.has_mv(metaverse_id@) ==> r == Err::<ImoReceipt, RockError>(
                RockError::DuplicateMetaverse,
            ),
            !old(self)@.has_mv(metaverse_id@) && !old(self)@.zones_acceptable(zones@) ==> r
                == Err::<ImoReceipt, RockError>(RockError::InvalidZone),
            !old(self)@.has_mv(metaverse_id@) && old(self)@.zones_acceptable(zones@)
                && old(self).init_imo_fee * total_size(zones@) > deposit ==> r == Err::<
                ImoReceipt,
                RockError,
            >(RockError::InsufficientDeposit),
            !old(self)@.has_mv(metaverse_id@) && old(self)@.zones_acceptable(zones@)
                && old(self).init_imo_fee * total_size(zones@) <= deposit ==> r is Ok,
            r.is_err() ==> *final(self) == *old(self),
            r matches Ok(receipt) ==> {
                let size = total_size(zones@);
                let fee = old(self).init_imo_fee * size;
                let ms = final(self)@.metaverses;
                &&& !old(self)@.has_mv(metaverse_id@)
                &&& old(self)@.zones_acceptable(zones@)
                &&& fee <= deposit
                &&& receipt == (ImoReceipt {
                    rock_size: size as u128,
                    fee: fee as u128,
                    refund: (deposit - fee) as u128,
                })
                &&& final(self)@ == old(self)@.with_metaverses(ms)
                &&& ms == old(self)@.metaverses.push(ms.last())
                &&& ms.last().metaverse_id == metaverse_id@
                &&& ms.last().owner_id == owner_id@
                &&& ms.last().zones[0].is_operator_zone_of(old(self).operator_id@)
                &&& ms.last().zones.drop_first() == zones@
                &&& ms.last().minted.len() == 0
                &&& ms.last().spent.len() == 0
            },
    {
        proof {
            lemma_records_grow_refl(self@.metaverses);
        }
        if self.find_metaverse(&metaverse_id).is_some() {
            return Err(RockError::DuplicateMetaverse);
        }
        let ghost zs = zones@;
        let allow = self.allow_holder_zones;
        let mut acc: Vec<Zone> = Vec::new();
        acc.push(Zone::operator_zone(&self.operator_id));
        let mut total: u128 = 0;
        let mut overflow = false;
        let mut k: usize = 0;
        while k < zones.len()
            invariant
                *self == *old(self),
                old(self)@.wf(),
                records_grow(old(self)@.metaverses, old(self)@.metaverses),
                !old(self)@.has_mv(metaverse_id@),
                zs == zones@,
                allow == old(self)@.allow_holder_zones,
                k <= zs.len(),
                acc@.len() == k + 1,
                acc@[0].is_operator_zone_of(old(self).operator_id@),
                forall|j: int| 0 <= j < k ==> acc@[j + 1] == #[trigger] zs[j],
                forall|j: int|
                    0 <= j < k ==> zone_allowed(#[trigger] zs[j], allow) && clear_of_operator_zone(
                        zs[j],
                    ),
                pairwise_compatible(zs.take(k as int)),
                !overflow ==> total == total_size(zs.take(k as int)),
                overflow ==> total_size(zs.take(k as int)) > u128::MAX,
            decreases zs.len() - k,
        {
            let z = &zones[k];
            let allowed = z.check_zone() && (z.type_zone != ZONE_TYPE_HOLDER || allow);
            if !allowed || z.zone_index == OPERATOR_ZONE_INDEX || z.rock_index_from <= 1 {
                return Err(RockError::InvalidZone);
            }
            if !fits_beside(&acc, z) {
                proof {
                    let i = choose|i: int| 0 <= i < acc@.len() && !compatible(acc@[i], *z);
                    assert(i != 0);
                    assert(acc@[i] == zs[i - 1]);
                    assert(!compatible(zs[i - 1], zs[k as int]));
                    assert(!pairwise_compatible(zs));
                }
                return Err(RockError::InvalidZone);
            }
            let ghost before = zs.take(k as int);
            proof {
                let next = zs.take(k as int + 1);
                assert(next.drop_last() =~= before);
                assert forall|i: int, j: int|
                    0 <= i < next.len() && 0 <= j < next.len() && i != j implies compatible(
                    #[trigger] next[i],
                    #[trigger] next[j],
                ) by {
                    if i < k && j < k {
                        assert(before[i] == next[i] && before[j] == next[j]);
                    } else if i == k {
                        assert(compatible(acc@[j + 1], *z));
                    } else {
                        assert(compatible(acc@[i + 1], *z));
                    }
                }
            }
            let size = z.rock_index_to - z.rock_index_from + 1;
            if !overflow {
                match total.checked_add(size) {
                    Some(t) => {
                        total = t;
                    },
                    None => {
                        overflow = true;
                    },
                }
            }
            acc.push(z.copy());
            k += 1;
        }
        assert(zs.take(zs.len() as int) =~= zs);
        if overflow {
            return Err(RockError::InvalidZone);
        }
        let fee = match self.init_imo_fee.checked_mul(total) {
            Some(f) => f,
            None => {
                return Err(RockError::InsufficientDeposit);
            },
        };
        if fee > deposit {
            return Err(RockError::InsufficientDeposit);
        }
        proof {
            assert(acc@.drop_first() =~= zs);
        }
        let m = Metaverse {
            metaverse_id,
            owner_id,
            zones: acc,
            tokens_minted: Vec::new(),
            nft_checker: Vec::new(),
        };
        proof {
            assert(m@.minted =~= Seq::<Seq<char>>::empty());
            assert(m@.spent =~= Seq::<Seq<char>>::empty());
            assert forall|i: int, j: int|
                0 <= i < m@.zones.len() && 0 <= j < m@.zones.len() && i != j implies compatible(
                #[trigger] m@.zones[i],
                #[trigger] m@.zones[j],
            ) by {
                if i > 0 && j > 0 {
                    assert(m@.zones[i] == zs[i - 1] && m@.zones[j] == zs[j - 1]);
                } else if i == 0 {
                    assert(m@.zones[j] == zs[j - 1]);
                } else {
                    assert(m@.zones[i] == zs[i - 1]);
                }
            }
            assert forall|i: int| 1 <= i < m@.zones.len() implies zone_allowed(
                #[trigger] m@.zones[i],
                allow,
            ) by {
                assert(m@.zones[i] == zs[i - 1]);
            }
            assert(m@.wf(allow));
        }
        let ghost old_ms = self@.metaverses;
        self.metaverses.push(m);
        proof {
            assert(self@.metaverses =~= old_ms.push(m@));
            lemma_records_grow_push(old_ms, m@);
            assert forall|i: int| 0 <= i < old_ms.len() implies #[trigger] self@.metaverses[i]
                == old_ms[i] by {}
            assert(self@.metaverses.last() == m@);
            assert forall|i: int, j: int|
                0 <= i < self@.metaverses.len() && 0 <= j < self@.metaverses.len() && i != j
                    implies (#[trigger] self@.metaverses[i]).metaverse_id
                != (#[trigger] self@.metaverses[j]).metaverse_id by {
                if i < old_ms.len() && j < old_ms.len() {
                    assert(old_ms[i] == self@.metaverses[i] && old_ms[j] == self@.metaverses[j]);
                } else if i == old_ms.len() {
                    assert(old_ms[j] == self@.metaverses[j]);
                } else {
                    assert(old_ms[i] == self@.metaverses[i]);
                }
            }
            assert forall|i: int| 0 <= i < self@.metaverses.len() implies (
            #[trigger] self@.metaverses[i]).wf(self@.allow_holder_zones) by {
                if i < old_ms.len() {
                    assert(old_ms[i] == self@.metaverses[i]);
                } else {
                    assert(self@.metaverses[i] == m@);
                }
            }
            assert(self@.pending == old(self)@.pending);
            assert(self@.rock_purchase_fee <= 10000);
            assert(self@.next_ticket == old(self)@.next_ticket);
        }
        Ok(ImoReceipt { rock_size: total, fee, refund: deposit - fee })
    }

    /// Adds `zone` to metaverse `metaverse_id` on behalf of its owner `caller`,
    /// charging `init_imo_fee` for each of its units out of `deposit`.
    pub fn add_zone(&mut self, caller: &String, metaverse_id: &String, zone: Zone, deposit: u128)
        -> (r: Result<ImoReceipt, RockError>)
        requires
            old(self)@.wf(),
        ensures
            final(self)@.wf(),
            records_grow(old(self)@.metaverses, final(self)@.metaverses),
            r.is_err() ==> *final(self) == *old(self),
            ({
                let s = old(self)@;
                let m = s.mv(metaverse_id@);
                let fee = s.init_imo_fee * zone.size();
                &&& !s.has_mv(metaverse_id@) ==> r == Err::<ImoReceipt, RockError>(
                    RockError::NotFound,
                )
                &&& s.has_mv(metaverse_id@) && m.has_zone(zone.zone_index) ==> r == Err::<
                    ImoReceipt,
                    RockError,
                >(RockError::ZoneIndexTaken)
                &&& s.has_mv(metaverse_id@) && !m.has_zone(zone.zone_index) && caller@
                    != m.owner_id ==> r == Err::<ImoReceipt, RockError>(RockError::Unauthorized)
                &&& s.has_mv(metaverse_id@) && !m.has_zone(zone.zone_index) && caller@
                    == m.owner_id && !s.zone_fits(m, zone) ==> r == Err::<ImoReceipt, RockError>(
                    RockError::InvalidZone,
                )
                &&& s.has_mv(metaverse_id@) && !m.has_zone(zone.zone_index) && caller@
                    == m.owner_id && s.zone_fits(m, zone) && fee > deposit ==> r == Err::<
                    ImoReceipt,
                    RockError,
                >(RockError::InsufficientDeposit)
                &&& s.has_mv(metaverse_id@) && !m.has_zone(zone.zone_index) && caller@
                    == m.owner_id && s.zone_fits(m, zone) && fee <= deposit ==> r is Ok
                &&& r matches Ok(receipt) ==> {
                    &&& s.has_mv(metaverse_id@)
                    &&& !m.has_zone(zone.zone_index)
                    &&& caller@ == m.owner_id
                    &&& s.zone_fits(m, zone)
                    &&& fee <= deposit
                    &&& receipt == (ImoReceipt {
                        rock_size: zone.size() as u128,
                        fee: fee as u128,
                        refund: (deposit - fee) as u128,
                    })
                    &&& final(self)@ == s.with_metaverses(
                        s.metaverses.update(s.mv_pos(metaverse_id@), m.with_zones(m.zones.push(zone))),
                    )
                }
            }),
    {
        proof {
            lemma_records_grow_refl(self@.metaverses);
        }
        let i = match self.find_metaverse(metaverse_id) {
            None => {
                return Err(RockError::NotFound);
            },
            Some(i) => i,
        };
        proof {
            assert(self@.metaverses[i as int].wf(self@.allow_holder_zones));
        }
        if self.metaverses[i].find_zone(zone.zone_index).is_some() {
            return Err(RockError::ZoneIndexTaken);
        }
        if *caller != self.metaverses[i].owner_id {
            return Err(RockError::Unauthorized);
        }
        let allowed = zone.check_zone() && (zone.type_zone != ZONE_TYPE_HOLDER
            || self.allow_holder_zones);
        if !allowed || !fits_beside(&self.metaverses[i].zones, &zone) {
            return Err(RockError::InvalidZone);
        }
        let size = zone.rock_index_to - zone.rock_index_from + 1;
        let fee = match self.init_imo_fee.checked_mul(size) {
            Some(f) => f,
            None => {
                return Err(RockError::InsufficientDeposit);
            },
        };
        if fee > deposit {
            return Err(RockError::InsufficientDeposit);
        }
        let ghost old_m = self@.metaverses[i as int];
        let ghost z = zone;
        let mut mv = self.metaverses.remove(i);
        proof {
            assert(mv@ == old_m);
        }
        mv.zones.push(zone);
        proof {
            assert(mv@ =~= old_m.with_zones(old_m.zones.push(z)));
            assert forall|a: int, b: int|
                0 <= a < mv@.zones.len() && 0 <= b < mv@.zones.len() && a != b implies compatible(
                #[trigger] mv@.zones[a],
                #[trigger] mv@.zones[b],
            ) by {
                if a < old_m.zones.len() && b < old_m.zones.len() {
                    assert(old_m.zones[a] == mv@.zones[a] && old_m.zones[b] == mv@.zones[b]);
                } else if a == old_m.zones.len() {
                    assert(compatible(old_m.zones[b], z));
                } else {
                    assert(compatible(old_m.zones[a], z));
                }
            }
            assert forall|a: int| 1 <= a < mv@.zones.len() implies zone_allowed(
                #[trigger] mv@.zones[a],
                self@.allow_holder_zones,
            ) by {
                if a < old_m.zones.len() {
                    assert(old_m.zones[a] == mv@.zones[a]);
                }
            }
        }
        let ghost new_m = mv@;
        self.metaverses.insert(i, mv);
        proof {
            lemma_replace_metaverse(old(self)@, self@, i as int, new_m);
            assert(new_m.minted.subrange(0, old_m.minted.len() as int) =~= old_m.minted);
            assert(new_m.spent.subrange(0, old_m.spent.len() as int) =~= old_m.spent);
            lemma_records_grow_update(old(self)@.metaverses, i as int, new_m);
        }
        Ok(ImoReceipt { rock_size: size, fee, refund: deposit - fee })
    }

    /// Sets the price of holder-gated zone `zone_index` of `metaverse_id`;
    /// only the metaverse's owner may.
    pub fn change_nft_collection_rock_price(
        &mut self,
        caller: &String,
        deposit: u128,
        metaverse_id: &String,
        zone_index: u16,
        price: u128,
    ) -> (r: Result<(), RockError>)
        requires
            old(self)@.wf(),
        ensures
            final(self)@.wf(),
            records_grow(old(self)@.metaverses, final(self)@.metaverses),
            r.is_err() ==> *final(self) == *old(self),
            ({
                let s = old(self)@;
                let m = s.mv(metaverse_id@);
                let z = m.zone(zone_index);
                &&& deposit < 1 ==> r == Err::<(), RockError>(RockError::InsufficientDeposit)
                &&& deposit >= 1 && !s.has_mv(metaverse_id@) ==> r == Err::<(), RockError>(
                    RockError::NotFound,
                )
                &&& deposit >= 1 && s.has_mv(metaverse_id@) && caller@ != m.owner_id ==> r
                    == Err::<(), RockError>(RockError::Unauthorized)
                &&& auth_error(caller@, deposit, m.owner_id) is None && s.has_mv(metaverse_id@)
                    && !m.has_zone(zone_index) ==> r == Err::<(), RockError>(RockError::NotFound)
                &&& auth_error(caller@, deposit, m.owner_id) is None && s.has_mv(metaverse_id@)
                    && m.has_zone(zone_index) && z.type_zone != ZONE_TYPE_HOLDER ==> r == Err::<
                    (),
                    RockError,
                >(RockError::InvalidZone)
                &&& auth_error(caller@, deposit, m.owner_id) is None && s.has_mv(metaverse_id@)
                    && m.has_zone(zone_index) && z.type_zone == ZONE_TYPE_HOLDER ==> r is Ok
                    && final(self)@ == s.with_metaverses(
                    s.metaverses.update(
                        s.mv_pos(metaverse_id@),
                        m.with_zones(m.zones.update(m.zone_pos(zone_index), Zone { price, ..z })),
                    ),
                )
            }),
    {
        proof {
            lemma_records_grow_refl(self@.metaverses);
        }
        if deposit < 1 {
            return Err(RockError::InsufficientDeposit);
        }
        let i = match self.find_metaverse(metaverse_id) {
            None => {
                return Err(RockError::NotFound);
            },
            Some(i) => i,
        };
        if *caller != self.metaverses[i].owner_id {
            return Err(RockError::Unauthorized);
        }
        proof {
            assert(self@.metaverses[i as int].wf(self@.allow_holder_zones));
        }
        let k = match self.metaverses[i].find_zone(zone_index) {
            None => {
                return Err(RockError::NotFound);
            },
            Some(k) => k,
        };
        if self.metaverses[i].zones[k].type_zone != ZONE_TYPE_HOLDER {
            return Err(RockError::InvalidZone);
        }
        let ghost old_m = self@.metaverses[i as int];
        let mut zone = self.metaverses[i].zones[k].copy();
        zone.price = price;
        let ghost nz = zone;
        let mut mv = self.metaverses.remove(i);
        mv.zones.set(k, zone);
        proof {
            assert(mv@ == old_m.with_zones(old_m.zones.update(k as int, nz)));
            assert(k > 0);
            assert forall|a: int, b: int|
                0 <= a < mv@.zones.len() && 0 <= b < mv@.zones.len() && a != b implies compatible(
                #[trigger] mv@.zones[a],
                #[trigger] mv@.zones[b],
            ) by {
                assert(compatible(old_m.zones[a], old_m.zones[b]));
            }
            assert forall|a: int| 1 <= a < mv@.zones.len() implies zone_allowed(
                #[trigger] mv@.zones[a],
                self@.allow_holder_zones,
            ) by {
                assert(zone_allowed(old_m.zones[a], self@.allow_holder_zones));
            }
        }
        let ghost new_m = mv@;
        self.metaverses.insert(i, mv);
        proof {
            lemma_replace_metaverse(old(self)@, self@, i as int, new_m);
            assert(new_m.minted.subrange(0, old_m.minted.len() as int) =~= old_m.minted);
            assert(new_m.spent.subrange(0, old_m.spent.len() as int) =~= old_m.spent);
            lemma_records_grow_update(old(self)@.metaverses, i as int, new_m);
        }
        Ok(())
    }
}

} // verus!
