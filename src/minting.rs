use vstd::prelude::*;
use crate::contract::{
    holds, lemma_records_grow_refl, lemma_records_grow_update, lemma_same_zones_refl,
    first_unspent, is_first_unspent, Contract, ContractModel, MintReceipt, MintStep, PendingMint,
    GAS_FOR_COMMON_OPERATIONS, GAS_FOR_DISPATCH, GAS_RESERVED_FOR_CURRENT_CALL,
};
use crate::account::is_valid_account_id;
use crate::error::RockError;
use crate::model::{records_grow, same_zones, views, zone_allowed, zones_kept};
use crate::reply::{decode_reply, reply_outcome, QueryOutcome, QueryReply};
use crate::token_id::{gen_token_id, token_id_of};
use crate::zone::{ZONE_TYPE_HOLDER, ZONE_TYPE_OPERATOR, ZONE_TYPE_PUBLIC};

verus! {

impl Contract {
    /// Mints unit `rock_index` of zone `zone_index` of `metaverse_id` for
    /// `receiver_id` on behalf of `caller`, who attached `deposit` and left
    /// `gas_left` of compute budget. An operator or public zone mints at once;
    /// a holder-gated zone records a pending mint whose external query the
    /// caller must now send.
    ///
    /// An operator mint is free and accepts any deposit, which settlement then
    /// refunds in full. A holder-gated mint checks its deposit against the
    /// zone's price in the resumed step, where the price is read again.
    pub fn mint_rock(
        &mut self,
        caller: &String,
        metaverse_id: &String,
        zone_index: u16,
        rock_index: u128,
        receiver_id: &String,
        deposit: u128,
        gas_left: u64,
    ) -> (r: Result<MintStep, RockError>)
        requires
            old(self)@.wf(),
        ensures
            final(self)@.wf(),
            records_grow(old(self)@.metaverses, final(self)@.metaverses),
            same_zones(old(self)@.metaverses, final(self)@.metaverses),
            zones_kept(old(self)@.metaverses, final(self)@.metaverses),
            ({
                let m = old(self)@.mv(metaverse_id@);
                old(self)@.has_mv(metaverse_id@) && m.has_zone(zone_index) && !m.zone(
                    zone_index,
                ).covers(rock_index as int) ==> r == Err::<MintStep, RockError>(
                    RockError::OutOfRange,
                ) && *final(self) == *old(self)
            }),
            old(self)@.mint_error(caller@, metaverse_id@, zone_index, rock_index, deposit, gas_left)
                matches Some(e) ==> r == Err::<MintStep, RockError>(e) && *final(self)
                == *old(self),
            ({
                let s = old(self)@;
                let m = s.mv(metaverse_id@);
                let z = m.zone(zone_index);
                let tok = token_id_of(metaverse_id@, zone_index, rock_index);
                s.mint_error(caller@, metaverse_id@, zone_index, rock_index, deposit, gas_left)
                    is None ==> if z.type_zone != ZONE_TYPE_HOLDER {
                    &&& r matches Ok(MintStep::Minted(rc))
                    &&& r->Ok_0->Minted_0.token_id@ == tok
                    &&& r->Ok_0->Minted_0.receiver_id@ == receiver_id@
                    &&& r->Ok_0->Minted_0.owner_id@ == m.owner_id
                    &&& r->Ok_0->Minted_0.price == (if z.type_zone == ZONE_TYPE_OPERATOR {
                        0
                    } else {
                        z.price
                    })
                    &&& r->Ok_0->Minted_0.deposit == deposit
                    &&& final(self)@ == s.minted_into(metaverse_id@, tok)
                } else {
                    &&& r matches Ok(MintStep::Dispatched(p))
                    &&& final(self)@ == (ContractModel {
                        pending: s.pending.push(r->Ok_0->Dispatched_0),
                        next_ticket: (s.next_ticket + 1) as u64,
                        ..s
                    })
                    &&& r->Ok_0->Dispatched_0.ticket == s.next_ticket
                    &&& r->Ok_0->Dispatched_0.metaverse_id@ == metaverse_id@
                    &&& r->Ok_0->Dispatched_0.zone_index == zone_index
                    &&& r->Ok_0->Dispatched_0.rock_index == rock_index
                    &&& r->Ok_0->Dispatched_0.receiver_id@ == receiver_id@
                    &&& r->Ok_0->Dispatched_0.holder_id@ == caller@
                    &&& r->Ok_0->Dispatched_0.collection_addr@ == z.collection_addr@
                    &&& r->Ok_0->Dispatched_0.deposit == deposit
                    &&& r->Ok_0->Dispatched_0.query_gas == GAS_FOR_COMMON_OPERATIONS
                    &&& r->Ok_0->Dispatched_0.resume_gas == gas_left - GAS_FOR_COMMON_OPERATIONS
                        - GAS_RESERVED_FOR_CURRENT_CALL
                }
            }),
    {
        proof {
            lemma_records_grow_refl(self@.metaverses);
            lemma_same_zones_refl(self@.metaverses);
        }
        let i = match self.find_metaverse(metaverse_id) {
            None => {
                return Err(RockError::NotFound);
            },
            Some(i) => i,
        };
        proof {
            assert(self@.metaverses[i as int].wf(self@.allow_holder_zones));
        }
        let k = match self.metaverses[i].find_zone(zone_index) {
            None => {
                return Err(RockError::NotFound);
            },
            Some(k) => k,
        };
        let zone = self.metaverses[i].zones[k].copy();
        proof {
            let zs = self@.metaverses[i as int].zones;
            if k > 0 {
                assert(zone_allowed(zs[k as int], self@.allow_holder_zones));
            }
        }
        if rock_index < zone.rock_index_from || rock_index > zone.rock_index_to {
            return Err(RockError::OutOfRange);
        }
        let token_id = gen_token_id(metaverse_id, zone_index, rock_index);
        if holds(&self.metaverses[i].tokens_minted, &token_id) {
            return Err(RockError::AlreadyMinted);
        }
        if zone.type_zone == ZONE_TYPE_OPERATOR || zone.type_zone == ZONE_TYPE_PUBLIC {
            let price = if zone.type_zone == ZONE_TYPE_OPERATOR {
                if *caller != zone.core_team_addr {
                    return Err(RockError::Unauthorized);
                }
                0
            } else {
                if zone.price == 0 {
                    return Err(RockError::MissingPrice);
                }
                if deposit < zone.price {
                    return Err(RockError::InsufficientDeposit);
                }
                zone.price
            };
            let owner_id = self.metaverses[i].owner_id.clone();
            self.record_mint(i, token_id.clone());
            Ok(
                MintStep::Minted(
                    MintReceipt {
                        token_id,
                        receiver_id: receiver_id.clone(),
                        owner_id,
                        price,
                        deposit,
                    },
                ),
            )
        } else {
            if !is_valid_account_id(&zone.collection_addr) {
                return Err(RockError::InvalidZone);
            }
            if gas_left < GAS_FOR_DISPATCH {
                return Err(RockError::InsufficientGas);
            }
            if self.next_ticket == u64::MAX {
                return Err(RockError::ProtocolViolation);
            }
            let p = PendingMint {
                ticket: self.next_ticket,
                metaverse_id: metaverse_id.clone(),
                zone_index,
                rock_index,
                receiver_id: receiver_id.clone(),
                holder_id: caller.clone(),
                collection_addr: zone.collection_addr.clone(),
                deposit,
                query_gas: GAS_FOR_COMMON_OPERATIONS,
                resume_gas: gas_left - GAS_FOR_COMMON_OPERATIONS - GAS_RESERVED_FOR_CURRENT_CALL,
            };
            let out = p.copy();
            let ghost old_pending = self@.pending;
            self.pending.push(p);
            self.next_ticket = self.next_ticket + 1;
            proof {
                assert(self@.pending == old_pending.push(out));
                assert forall|a: int, b: int|
                    0 <= a < self@.pending.len() && 0 <= b < self@.pending.len() && a != b implies (
                    #[trigger] self@.pending[a]).ticket != (#[trigger] self@.pending[b]).ticket by {
                    if a < old_pending.len() && b < old_pending.len() {
                        assert(old_pending[a] == self@.pending[a]);
                        assert(old_pending[b] == self@.pending[b]);
                    } else if a < old_pending.len() {
                        assert(old_pending[a] == self@.pending[a]);
                    } else if b < old_pending.len() {
                        assert(old_pending[b] == self@.pending[b]);
                    }
                }
                assert forall|a: int| 0 <= a < self@.pending.len() implies (
                #[trigger] self@.pending[a]).ticket < self@.next_ticket by {
                    if a < old_pending.len() {
                        assert(old_pending[a] == self@.pending[a]);
                    }
                }
                assert(self@.metaverses == old(self)@.metaverses);
            }
            Ok(MintStep::Dispatched(out))
        }
    }

    /// The resumed step of the holder-gated mint `ticket`, given how its
    /// external query resolved.
    pub fn resume_holder_mint(&mut self, ticket: u64, outcome: &QueryOutcome) -> (r: Result<
        MintReceipt,
        RockError,
    >)
        requires
            old(self)@.wf(),
        ensures
            final(self)@.wf(),
            records_grow(old(self)@.metaverses, final(self)@.metaverses),
            same_zones(old(self)@.metaverses, final(self)@.metaverses),
            zones_kept(old(self)@.metaverses, final(self)@.metaverses),
            old(self)@.resume_post(final(self)@, ticket, outcome@, r),
    {
        proof {
            lemma_records_grow_refl(self@.metaverses);
            lemma_same_zones_refl(self@.metaverses);
        }
        let pos = match self.find_ticket(ticket) {
            None => {
                return Err(RockError::ProtocolViolation);
            },
            Some(pos) => pos,
        };
        let ghost old_pending = self@.pending;
        let p = self.pending.remove(pos);
        proof {
            assert(p == old(self)@.pending[old(self)@.ticket_pos(ticket)]);
            assert(self@ == old(self)@.without_ticket(ticket));
            assert forall|a: int, b: int|
                0 <= a < self@.pending.len() && 0 <= b < self@.pending.len() && a != b implies (
                #[trigger] self@.pending[a]).ticket != (#[trigger] self@.pending[b]).ticket by {
                let a0 = if a < pos { a } else { a + 1 };
                let b0 = if b < pos { b } else { b + 1 };
                assert(self@.pending[a] == old_pending[a0]);
                assert(self@.pending[b] == old_pending[b0]);
            }
            assert forall|a: int| 0 <= a < self@.pending.len() implies (
            #[trigger] self@.pending[a]).ticket < self@.next_ticket by {
                let a0 = if a < pos { a } else { a + 1 };
                assert(self@.pending[a] == old_pending[a0]);
            }
        }
        let units = match outcome {
            QueryOutcome::NotReady => {
                return Err(RockError::ExternalQueryPending);
            },
            QueryOutcome::Failed => {
                return Err(RockError::ExternalQueryFailed);
            },
            QueryOutcome::Units(units) => units,
        };
        if units.len() == 0 {
            return Err(RockError::NoQualifyingUnit);
        }
        let i = match self.find_metaverse(&p.metaverse_id) {
            None => {
                proof {
                    assert(self@.metaverses == old(self)@.metaverses);
                }
                return Err(RockError::NotFound);
            },
            Some(i) => i,
        };
        proof {
            assert(self@.metaverses[i as int].wf(self@.allow_holder_zones));
        }
        let ghost spent = self@.metaverses[i as int].spent;
        let ghost uv = views(units@);
        let mut j: usize = 0;
        while j < units.len()
            invariant
                j <= units@.len(),
                uv == views(units@),
                spent == self@.metaverses[i as int].spent,
                i < self.metaverses@.len(),
                forall|jj: int| 0 <= jj < j ==> spent.contains(#[trigger] uv[jj]),
            ensures
                j <= units@.len(),
                forall|jj: int| 0 <= jj < j ==> spent.contains(#[trigger] uv[jj]),
                j < units@.len() ==> !spent.contains(uv[j as int]),
            decreases units@.len() - j,
        {
            if !holds(&self.metaverses[i].nft_checker, &units[j]) {
                break;
            }
            j += 1;
        }
        if j == units.len() {
            return Err(RockError::AllUnitsSpent);
        }
        proof {
            assert(is_first_unspent(uv, spent, j as int));
            let k = first_unspent(uv, spent);
            assert(is_first_unspent(uv, spent, k));
            if k < j {
                assert(spent.contains(uv[k]));
            } else if k > j {
                assert(spent.contains(uv[j as int]));
            }
        }
        let k = match self.metaverses[i].find_zone(p.zone_index) {
            None => {
                return Err(RockError::NotFound);
            },
            Some(k) => k,
        };
        let price = self.metaverses[i].zones[k].price;
        if p.rock_index < self.metaverses[i].zones[k].rock_index_from || p.rock_index
            > self.metaverses[i].zones[k].rock_index_to {
            return Err(RockError::OutOfRange);
        }
        let token_id = gen_token_id(&p.metaverse_id, p.zone_index, p.rock_index);
        if holds(&self.metaverses[i].tokens_minted, &token_id) {
            return Err(RockError::AlreadyMinted);
        }
        if p.deposit < price {
            return Err(RockError::InsufficientDeposit);
        }
        let owner_id = self.metaverses[i].owner_id.clone();
        let ghost mid = self@;
        self.record_spent(i, units[j].clone());
        self.record_mint(i, token_id.clone());
        proof {
            assert(self@.metaverses =~= mid.metaverses.update(
                i as int,
                mid.metaverses[i as int].with_spent(uv[j as int]).with_minted(token_id@),
            ));
            let m0 = mid.metaverses[i as int];
            let m2 = m0.with_spent(uv[j as int]).with_minted(token_id@);
            assert(m2.minted.subrange(0, m0.minted.len() as int) =~= m0.minted);
            assert(m2.spent.subrange(0, m0.spent.len() as int) =~= m0.spent);
            lemma_records_grow_update(old(self)@.metaverses, i as int, m2);
        }
        Ok(MintReceipt { token_id, receiver_id: p.receiver_id, owner_id, price, deposit: p.deposit })
    }

    /// The resumed step of the holder-gated mint `ticket`, given the external
    /// collection's reply.
    pub fn mint_nft_checker_rock(&mut self, ticket: u64, reply: QueryReply) -> (r: Result<
        MintReceipt,
        RockError,
    >)
        requires
            old(self)@.wf(),
        ensures
            final(self)@.wf(),
            records_grow(old(self)@.metaverses, final(self)@.metaverses),
            same_zones(old(self)@.metaverses, final(self)@.metaverses),
            zones_kept(old(self)@.metaverses, final(self)@.metaverses),
            old(self)@.resume_post(final(self)@, ticket, reply_outcome(reply), r),
    {
        let outcome = decode_reply(reply);
        self.resume_holder_mint(ticket, &outcome)
    }

}

} // verus!
