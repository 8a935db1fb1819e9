use vstd::prelude::*;
use crate::account::account_id_valid;
use crate::error::RockError;
use crate::model::{
    clear_of_operator_zone, compatible, pairwise_compatible, records_grow, same_zones, total_size,
    views, zone_allowed, MetaverseModel,
};
use crate::reply::OutcomeModel;
use crate::royalty::{accounts_unique, bps_total, RoyaltyTable};
use crate::token_id::token_id_of;
use crate::zone::{Zone, ZONE_TYPE_HOLDER, ZONE_TYPE_OPERATOR, ZONE_TYPE_PUBLIC};

verus! {

/// The budget a holder-gated mint sends its external query with.
pub const GAS_FOR_COMMON_OPERATIONS: u64 = 30_000_000_000_000;
/// The budget a holder-gated mint keeps for its own dispatching step.
pub const GAS_RESERVED_FOR_CURRENT_CALL: u64 = 20_000_000_000_000;
/// The least budget reserved for the resumed step of a holder-gated mint.
pub const GAS_FOR_RESUME: u64 = 30_000_000_000_000;
/// The least budget a holder-gated mint must be given to be dispatched: the
/// query's, the dispatching step's, and the least for the resumed step.
pub const GAS_FOR_DISPATCH: u64 = GAS_FOR_COMMON_OPERATIONS + GAS_RESERVED_FOR_CURRENT_CALL
    + GAS_FOR_RESUME;

/// One metaverse: its owner, its zones, and its two insert-only sets.
pub struct Metaverse {
    pub metaverse_id: String,
    pub owner_id: String,
    /// The operator zone first, then the zones in the order they were added.
    pub zones: Vec<Zone>,
    /// The ids of the units minted so far.
    pub tokens_minted: Vec<String>,
    /// The external units that have authorized a mint so far.
    pub nft_checker: Vec<String>,
}

impl View for Metaverse {
    type V = MetaverseModel;

    open spec fn view(&self) -> MetaverseModel {
        MetaverseModel {
            metaverse_id: self.metaverse_id@,
            owner_id: self.owner_id@,
            zones: self.zones@,
            minted: self.tokens_minted@.map_values(|s: String| s@),
            spent: self.nft_checker@.map_values(|s: String| s@),
        }
    }
}

/// A holder-gated mint waiting for the external collection's answer: what the
/// resumed step needs, and what the query must be sent with.
#[derive(Debug, PartialEq, Eq)]
pub struct PendingMint {
    pub ticket: u64,
    pub metaverse_id: String,
    pub zone_index: u16,
    pub rock_index: u128,
    pub receiver_id: String,
    /// The account whose units the external collection is asked for.
    pub holder_id: String,
    pub collection_addr: String,
    pub deposit: u128,
    /// The budget the query is sent with.
    pub query_gas: u64,
    /// The budget reserved for the resumed step.
    pub resume_gas: u64,
}

impl PendingMint {
    /// A copy of the record.
    pub fn copy(&self) -> (r: PendingMint)
        ensures
            r == *self,
    {
        PendingMint {
            ticket: self.ticket,
            metaverse_id: self.metaverse_id.clone(),
            zone_index: self.zone_index,
            rock_index: self.rock_index,
            receiver_id: self.receiver_id.clone(),
            holder_id: self.holder_id.clone(),
            collection_addr: self.collection_addr.clone(),
            deposit: self.deposit,
            query_gas: self.query_gas,
            resume_gas: self.resume_gas,
        }
    }
}

/// A unit that was minted: what the asset ledger must create, and what
/// settlement needs.
#[derive(Debug, PartialEq, Eq)]
pub struct MintReceipt {
    pub token_id: String,
    pub receiver_id: String,
    /// The metaverse's owner, who receives the owner's share of the price.
    pub owner_id: String,
    pub price: u128,
    pub deposit: u128,
}

/// What a mint request led to: a unit minted at once, or a holder-gated mint
/// whose external query must now be sent.
#[derive(Debug, PartialEq, Eq)]
pub enum MintStep {
    Minted(MintReceipt),
    Dispatched(PendingMint),
}

/// `units[k]` is the first of `units` that `spent` does not hold.
pub open spec fn is_first_unspent(units: Seq<Seq<char>>, spent: Seq<Seq<char>>, k: int) -> bool {
    &&& 0 <= k < units.len()
    &&& !spent.contains(units[k])
    &&& forall|j: int| 0 <= j < k ==> spent.contains(#[trigger] units[j])
}

/// The position of the first of `units` that `spent` does not hold; meaningful
/// where one is not spent.
pub open spec fn first_unspent(units: Seq<Seq<char>>, spent: Seq<Seq<char>>) -> int {
    choose|k: int| is_first_unspent(units, spent, k)
}

/// `spent` holds every one of `units`.
pub open spec fn all_spent(units: Seq<Seq<char>>, spent: Seq<Seq<char>>) -> bool {
    forall|j: int| 0 <= j < units.len() ==> spent.contains(#[trigger] units[j])
}

/// What a creation of a metaverse or an addition of a zone charges.
#[derive(Debug, Clone, Copy, PartialEq, Eq, Structural)]
pub struct ImoReceipt {
    /// The number of units the new zones hold.
    pub rock_size: u128,
    /// `init_imo_fee` for each of them.
    pub fee: u128,
    /// What is left of the deposit once the fee is taken.
    pub refund: u128,
}

/// The engine: its settings, its metaverses, and the holder-gated mints that
/// wait for the external collection.
pub struct Contract {
    pub admin_id: String,
    pub operator_id: String,
    pub treasury_id: String,
    /// The fee for each unit of a new zone.
    pub init_imo_fee: u128,
    /// The treasury's share of a sale, in basis points.
    pub rock_purchase_fee: u32,
    /// Whether metaverses may hold holder-gated zones.
    pub allow_holder_zones: bool,
    pub metaverses: Vec<Metaverse>,
    pub pending: Vec<PendingMint>,
    pub next_ticket: u64,
    /// The royalties of every sale of a unit.
    pub royalties: RoyaltyTable,
}

/// What the engine knows, as mathematical values.
pub struct ContractModel {
    pub admin_id: Seq<char>,
    pub operator_id: Seq<char>,
    pub treasury_id: Seq<char>,
    pub init_imo_fee: u128,
    pub rock_purchase_fee: u32,
    pub allow_holder_zones: bool,
    pub metaverses: Seq<MetaverseModel>,
    pub pending: Seq<PendingMint>,
    pub next_ticket: u64,
    pub royalties: Seq<(String, u16)>,
}

impl View for Contract {
    type V = ContractModel;

    open spec fn view(&self) -> ContractModel {
        ContractModel {
            admin_id: self.admin_id@,
            operator_id: self.operator_id@,
            treasury_id: self.treasury_id@,
            init_imo_fee: self.init_imo_fee,
            rock_purchase_fee: self.rock_purchase_fee,
            allow_holder_zones: self.allow_holder_zones,
            metaverses: self.metaverses@.map_values(|m: Metaverse| m@),
            pending: self.pending@,
            next_ticket: self.next_ticket,
            royalties: self.royalties.entries@,
        }
    }
}

impl ContractModel {
    pub open spec fn has_mv(self, metaverse_id: Seq<char>) -> bool {
        exists|i: int|
            0 <= i < self.metaverses.len() && (#[trigger] self.metaverses[i]).metaverse_id
                == metaverse_id
    }

    pub open spec fn mv_pos(self, metaverse_id: Seq<char>) -> int {
        choose|i: int|
            0 <= i < self.metaverses.len() && (#[trigger] self.metaverses[i]).metaverse_id
                == metaverse_id
    }

    /// The metaverse with id `metaverse_id`; meaningful where `has_mv` holds.
    pub open spec fn mv(self, metaverse_id: Seq<char>) -> MetaverseModel {
        self.metaverses[self.mv_pos(metaverse_id)]
    }

    pub open spec fn has_ticket(self, ticket: u64) -> bool {
        exists|i: int| 0 <= i < self.pending.len() && (#[trigger] self.pending[i]).ticket == ticket
    }

    pub open spec fn ticket_pos(self, ticket: u64) -> int {
        choose|i: int| 0 <= i < self.pending.len() && (#[trigger] self.pending[i]).ticket == ticket
    }

    /// The engine's invariant: ids of metaverses and tickets are unique, every
    /// metaverse is well formed, a ticket still to be issued is above every
    /// pending one, and the treasury's share and the royalties are each at
    /// most the whole, the royalties naming no account twice.
    pub open spec fn wf(self) -> bool {
        &&& self.rock_purchase_fee <= 10000
        &&& accounts_unique(self.royalties)
        &&& bps_total(self.royalties) <= 10000
        &&& forall|i: int, j: int|
            0 <= i < self.metaverses.len() && 0 <= j < self.metaverses.len() && i != j
                ==> (#[trigger] self.metaverses[i]).metaverse_id
                != (#[trigger] self.metaverses[j]).metaverse_id
        &&& forall|i: int|
            0 <= i < self.metaverses.len() ==> (#[trigger] self.metaverses[i]).wf(
                self.allow_holder_zones,
            )
        &&& forall|i: int, j: int|
            0 <= i < self.pending.len() && 0 <= j < self.pending.len() && i != j
                ==> (#[trigger] self.pending[i]).ticket != (#[trigger] self.pending[j]).ticket
        &&& forall|i: int| 0 <= i < self.pending.len() ==> (#[trigger] self.pending[i]).ticket
            < self.next_ticket
    }

    pub open spec fn with_metaverses(self, metaverses: Seq<MetaverseModel>) -> ContractModel {
        ContractModel { metaverses, ..self }
    }

    /// Why a mint of unit `rock_index` of zone `zone_index` of `metaverse_id`
    /// by `caller` is refused, if it is; for a holder-gated zone this covers the
    /// dispatch only.
    pub open spec fn mint_error(
        self,
        caller: Seq<char>,
        metaverse_id: Seq<char>,
        zone_index: u16,
        rock_index: u128,
        deposit: u128,
        gas_left: u64,
    ) -> Option<RockError> {
        let m = self.mv(metaverse_id);
        let z = m.zone(zone_index);
        if !self.has_mv(metaverse_id) || !m.has_zone(zone_index) {
            Some(RockError::NotFound)
        } else if !z.covers(rock_index as int) {
            Some(RockError::OutOfRange)
        } else if m.minted.contains(token_id_of(metaverse_id, zone_index, rock_index)) {
            Some(RockError::AlreadyMinted)
        } else if z.type_zone == ZONE_TYPE_OPERATOR {
            if caller != z.core_team_addr@ {
                Some(RockError::Unauthorized)
            } else {
                None
            }
        } else if z.type_zone == ZONE_TYPE_PUBLIC {
            if z.price == 0 {
                Some(RockError::MissingPrice)
            } else if deposit < z.price {
                Some(RockError::InsufficientDeposit)
            } else {
                None
            }
        } else if !account_id_valid(z.collection_addr@) {
            Some(RockError::InvalidZone)
        } else if gas_left < GAS_FOR_DISPATCH {
            Some(RockError::InsufficientGas)
        } else if self.next_ticket == u64::MAX {
            Some(RockError::ProtocolViolation)
        } else {
            None
        }
    }

    /// The state after unit `token_id` is minted in metaverse `metaverse_id`.
    pub open spec fn minted_into(self, metaverse_id: Seq<char>, token_id: Seq<char>) -> ContractModel {
        let m = self.mv(metaverse_id);
        self.with_metaverses(self.metaverses.update(self.mv_pos(metaverse_id), m.with_minted(token_id)))
    }

    /// The state once the pending mint `ticket` is taken out.
    pub open spec fn without_ticket(self, ticket: u64) -> ContractModel {
        ContractModel { pending: self.pending.remove(self.ticket_pos(ticket)), ..self }
    }

    /// Why the resumed step of pending mint `ticket`, given the query's
    /// outcome `o`, is refused, if it is.
    pub open spec fn resume_error(self, ticket: u64, o: OutcomeModel) -> Option<RockError> {
        let p = self.pending[self.ticket_pos(ticket)];
        let m = self.mv(p.metaverse_id@);
        let z = m.zone(p.zone_index);
        if !self.has_ticket(ticket) {
            Some(RockError::ProtocolViolation)
        } else {
            match o {
                OutcomeModel::NotReady => Some(RockError::ExternalQueryPending),
                OutcomeModel::Failed => Some(RockError::ExternalQueryFailed),
                OutcomeModel::Units(units) => {
                    if units.len() == 0 {
                        Some(RockError::NoQualifyingUnit)
                    } else if !self.has_mv(p.metaverse_id@) {
                        Some(RockError::NotFound)
                    } else if all_spent(units, m.spent) {
                        Some(RockError::AllUnitsSpent)
                    } else if !m.has_zone(p.zone_index) {
                        Some(RockError::NotFound)
                    } else if !z.covers(p.rock_index as int) {
                        Some(RockError::OutOfRange)
                    } else if m.minted.contains(
                        token_id_of(p.metaverse_id@, p.zone_index, p.rock_index),
                    ) {
                        Some(RockError::AlreadyMinted)
                    } else if p.deposit < z.price {
                        Some(RockError::InsufficientDeposit)
                    } else {
                        None
                    }
                },
            }
        }
    }

    /// What the resumed step of pending mint `ticket` does from this state,
    /// given the query's outcome `o`: `new` is the state after it and `r` its
    /// result. An unknown ticket changes nothing; any other refusal only
    /// consumes the ticket; success also spends the first unspent unit of the
    /// holder and mints the unit.
    pub open spec fn resume_post(
        self,
        new: ContractModel,
        ticket: u64,
        o: OutcomeModel,
        r: Result<MintReceipt, RockError>,
    ) -> bool {
        let p = self.pending[self.ticket_pos(ticket)];
        let m = self.mv(p.metaverse_id@);
        let z = m.zone(p.zone_index);
        let tok = token_id_of(p.metaverse_id@, p.zone_index, p.rock_index);
        match self.resume_error(ticket, o) {
            Some(e) => {
                &&& r == Err::<MintReceipt, RockError>(e)
                &&& e == RockError::ProtocolViolation ==> new == self
                &&& e != RockError::ProtocolViolation ==> new == self.without_ticket(ticket)
            },
            None => {
                let units = o->Units_0;
                let unit = units[first_unspent(units, m.spent)];
                &&& r matches Ok(rc)
                &&& r->Ok_0.token_id@ == tok
                &&& r->Ok_0.receiver_id@ == p.receiver_id@
                &&& r->Ok_0.owner_id@ == m.owner_id
                &&& r->Ok_0.price == z.price
                &&& r->Ok_0.deposit == p.deposit
                &&& new == self.without_ticket(ticket).with_metaverses(
                    self.metaverses.update(
                        self.mv_pos(p.metaverse_id@),
                        m.with_spent(unit).with_minted(tok),
                    ),
                )
            },
        }
    }

    /// The zones of a new metaverse that the engine accepts: each allowed and
    /// clear of the operator zone, any two compatible, and their units countable.
    pub open spec fn zones_acceptable(self, zs: Seq<Zone>) -> bool {
        &&& forall|k: int|
            0 <= k < zs.len() ==> zone_allowed(#[trigger] zs[k], self.allow_holder_zones)
                && clear_of_operator_zone(zs[k])
        &&& pairwise_compatible(zs)
        &&& total_size(zs) <= u128::MAX
    }

    /// A zone that may join the metaverse `m`.
    pub open spec fn zone_fits(self, m: MetaverseModel, z: Zone) -> bool {
        &&& zone_allowed(z, self.allow_holder_zones)
        &&& forall|i: int| 0 <= i < m.zones.len() ==> compatible(#[trigger] m.zones[i], z)
    }
}

/// Putting a well-formed metaverse with the same id in place of metaverse `i`
/// keeps the engine's invariant.
pub(crate) proof fn lemma_replace_metaverse(s: ContractModel, t: ContractModel, i: int, m: MetaverseModel)
    requires
        s.wf(),
        0 <= i < s.metaverses.len(),
        m.metaverse_id == s.metaverses[i].metaverse_id,
        m.wf(s.allow_holder_zones),
        t.metaverses =~= s.metaverses.update(i, m),
        t == s.with_metaverses(t.metaverses),
    ensures
        t.wf(),
        t == s.with_metaverses(s.metaverses.update(i, m)),
{
    assert forall|a: int, b: int|
        0 <= a < t.metaverses.len() && 0 <= b < t.metaverses.len() && a != b implies (
        #[trigger] t.metaverses[a]).metaverse_id != (#[trigger] t.metaverses[b]).metaverse_id by {
        assert(s.metaverses[a].metaverse_id == t.metaverses[a].metaverse_id);
        assert(s.metaverses[b].metaverse_id == t.metaverses[b].metaverse_id);
    }
    assert forall|a: int| 0 <= a < t.metaverses.len() implies (#[trigger] t.metaverses[a]).wf(
        t.allow_holder_zones,
    ) by {
        if a != i {
            assert(s.metaverses[a] == t.metaverses[a]);
        }
    }
}

/// A model's records only grow into themselves.
pub(crate) proof fn lemma_records_grow_refl(a: Seq<MetaverseModel>)
    ensures
        records_grow(a, a),
{
    assert forall|i: int| 0 <= i < a.len() implies {
        &&& (#[trigger] a[i]).metaverse_id == a[i].metaverse_id
        &&& a[i].minted.subrange(0, a[i].minted.len() as int) == a[i].minted
        &&& a[i].spent.subrange(0, a[i].spent.len() as int) == a[i].spent
    } by {
        assert(a[i].minted.subrange(0, a[i].minted.len() as int) =~= a[i].minted);
        assert(a[i].spent.subrange(0, a[i].spent.len() as int) =~= a[i].spent);
    }
}

pub(crate) proof fn lemma_same_zones_refl(a: Seq<MetaverseModel>)
    ensures
        same_zones(a, a),
{
}

/// Adding a metaverse grows the records.
pub(crate) proof fn lemma_records_grow_push(a: Seq<MetaverseModel>, m: MetaverseModel)
    ensures
        records_grow(a, a.push(m)),
{
    lemma_records_grow_refl(a);
    assert forall|i: int| 0 <= i < a.len() implies #[trigger] a.push(m)[i] == a[i] by {}
}

/// Replacing one metaverse by one with the same id and grown records grows the records.
pub(crate) proof fn lemma_records_grow_update(a: Seq<MetaverseModel>, i: int, m: MetaverseModel)
    requires
        0 <= i < a.len(),
        m.metaverse_id == a[i].metaverse_id,
        m.minted.len() >= a[i].minted.len(),
        m.minted.subrange(0, a[i].minted.len() as int) == a[i].minted,
        m.spent.len() >= a[i].spent.len(),
        m.spent.subrange(0, a[i].spent.len() as int) == a[i].spent,
    ensures
        records_grow(a, a.update(i, m)),
{
    lemma_records_grow_refl(a);
}

/// Whether `v` holds `s`.
pub(crate) fn holds(v: &Vec<String>, s: &String) -> (r: bool)
    ensures
        r == views(v@).contains(s@),
{
    let mut i: usize = 0;
    while i < v.len()
        invariant
            i <= v@.len(),
            forall|j: int| 0 <= j < i ==> (#[trigger] v@[j])@ != s@,
        decreases v@.len() - i,
    {
        if v[i] == *s {
            assert(views(v@)[i as int] == s@);
            return true;
        }
        i += 1;
    }
    proof {
        if views(v@).contains(s@) {
            let k = choose|k: int| 0 <= k < views(v@).len() && views(v@)[k] == s@;
            assert(v@[k]@ == s@);
        }
    }
    false
}

/// Whether `z` is compatible with each of `zones`.
pub(crate) fn fits_beside(zones: &Vec<Zone>, z: &Zone) -> (r: bool)
    ensures
        r == forall|i: int| 0 <= i < zones@.len() ==> compatible(#[trigger] zones@[i], *z),
{
    let mut i: usize = 0;
    while i < zones.len()
        invariant
            i <= zones@.len(),
            forall|j: int| 0 <= j < i ==> compatible(#[trigger] zones@[j], *z),
        decreases zones@.len() - i,
    {
        let y = &zones[i];
        if y.zone_index == z.zone_index || y.overlaps_zone(z) {
            return false;
        }
        if y.type_zone == ZONE_TYPE_HOLDER && z.type_zone == ZONE_TYPE_HOLDER
            && y.collection_addr != z.collection_addr {
            return false;
        }
        i += 1;
    }
    true
}

impl Metaverse {
    /// The position of the zone `zone_index`, if the metaverse has one.
    pub fn find_zone(&self, zone_index: u16) -> (r: Option<usize>)
        requires
            pairwise_compatible(self@.zones),
        ensures
            match r {
                Some(i) => self@.has_zone(zone_index) && i == self@.zone_pos(zone_index) && i
                    < self.zones@.len(),
                None => !self@.has_zone(zone_index),
            },
    {
        let mut i: usize = 0;
        while i < self.zones.len()
            invariant
                pairwise_compatible(self@.zones),
                i <= self.zones@.len(),
                forall|j: int| 0 <= j < i ==> (#[trigger] self@.zones[j]).zone_index != zone_index,
            decreases self.zones@.len() - i,
        {
            if self.zones[i].zone_index == zone_index {
                proof {
                    let k = self@.zone_pos(zone_index);
                    assert(self@.has_zone(zone_index));
                    assert(self@.zones[k].zone_index == zone_index);
                    if k != i as int {
                        assert(compatible(self@.zones[k], self@.zones[i as int]));
                    }
                }
                return Some(i);
            }
            i += 1;
        }
        None
    }
}

impl Contract {
    /// The position of the metaverse `metaverse_id`, if there is one.
    pub fn find_metaverse(&self, metaverse_id: &String) -> (r: Option<usize>)
        requires
            self@.wf(),
        ensures
            match r {
                Some(i) => self@.has_mv(metaverse_id@) && i == self@.mv_pos(metaverse_id@) && i
                    < self.metaverses@.len(),
                None => !self@.has_mv(metaverse_id@),
            },
    {
        let mut i: usize = 0;
        while i < self.metaverses.len()
            invariant
                self@.wf(),
                i <= self.metaverses@.len(),
                forall|j: int| 0 <= j < i ==> (#[trigger] self@.metaverses[j]).metaverse_id
                    != metaverse_id@,
            decreases self.metaverses@.len() - i,
        {
            if self.metaverses[i].metaverse_id == *metaverse_id {
                proof {
                    assert(self@.metaverses[i as int].metaverse_id == metaverse_id@);
                    let k = self@.mv_pos(metaverse_id@);
                    assert(self@.has_mv(metaverse_id@));
                    assert(self@.metaverses[k].metaverse_id == metaverse_id@);
                    if k != i as int {
                        assert(self@.metaverses[k].metaverse_id
                            != self@.metaverses[i as int].metaverse_id);
                    }
                }
                return Some(i);
            }
            i += 1;
        }
        None
    }

    /// Records unit `token_id` as minted in metaverse `i`.
    pub(crate) fn record_mint(&mut self, i: usize, token_id: String)
        requires
            old(self)@.wf(),
            i < old(self).metaverses@.len(),
        ensures
            final(self)@.wf(),
            final(self)@ == old(self)@.with_metaverses(
                old(self)@.metaverses.update(
                    i as int,
                    old(self)@.metaverses[i as int].with_minted(token_id@),
                ),
            ),
            records_grow(old(self)@.metaverses, final(self)@.metaverses),
            same_zones(old(self)@.metaverses, final(self)@.metaverses),
    {
        let ghost old_m = self@.metaverses[i as int];
        let ghost tv = token_id@;
        let mut mv = self.metaverses.remove(i);
        mv.tokens_minted.push(token_id);
        assert(mv@.minted =~= old_m.minted.push(tv));
        assert(mv@ == old_m.with_minted(tv));
        let ghost nm = mv@;
        self.metaverses.insert(i, mv);
        proof {
            lemma_replace_metaverse(old(self)@, self@, i as int, nm);
            assert(nm.minted.subrange(0, old_m.minted.len() as int) =~= old_m.minted);
            assert(nm.spent.subrange(0, old_m.spent.len() as int) =~= old_m.spent);
            lemma_records_grow_update(old(self)@.metaverses, i as int, nm);
        }
    }

    /// Records external unit `unit` as spent in metaverse `i`.
    pub(crate) fn record_spent(&mut self, i: usize, unit: String)
        requires
            old(self)@.wf(),
            i < old(self).metaverses@.len(),
        ensures
            final(self)@.wf(),
            final(self)@ == old(self)@.with_metaverses(
                old(self)@.metaverses.update(
                    i as int,
                    old(self)@.metaverses[i as int].with_spent(unit@),
                ),
            ),
            records_grow(old(self)@.metaverses, final(self)@.metaverses),
            same_zones(old(self)@.metaverses, final(self)@.metaverses),
    {
        let ghost old_m = self@.metaverses[i as int];
        let ghost uv = unit@;
        let mut mv = self.metaverses.remove(i);
        mv.nft_checker.push(unit);
        assert(mv@.spent =~= old_m.spent.push(uv));
        assert(mv@ == old_m.with_spent(uv));
        let ghost nm = mv@;
        self.metaverses.insert(i, mv);
        proof {
            lemma_replace_metaverse(old(self)@, self@, i as int, nm);
            assert(nm.minted.subrange(0, old_m.minted.len() as int) =~= old_m.minted);
            assert(nm.spent.subrange(0, old_m.spent.len() as int) =~= old_m.spent);
            lemma_records_grow_update(old(self)@.metaverses, i as int, nm);
        }
    }

    /// The position of pending mint `ticket`, if it is pending.
    pub(crate) fn find_ticket(&self, ticket: u64) -> (r: Option<usize>)
        requires
            self@.wf(),
        ensures
            match r {
                Some(i) => self@.has_ticket(ticket) && i == self@.ticket_pos(ticket) && i
                    < self.pending@.len(),
                None => !self@.has_ticket(ticket),
            },
    {
        let mut i: usize = 0;
        while i < self.pending.len()
            invariant
                self@.wf(),
                i <= self.pending@.len(),
                forall|j: int| 0 <= j < i ==> (#[trigger] self@.pending[j]).ticket != ticket,
            decreases self.pending@.len() - i,
        {
            if self.pending[i].ticket == ticket {
                proof {
                    let k = self@.ticket_pos(ticket);
                    assert(self@.has_ticket(ticket));
                    assert(self@.pending[k].ticket == ticket);
                    if k != i as int {
                        assert(self@.pending[k].ticket != self@.pending[i as int].ticket);
                    }
                }
                return Some(i);
            }
            i += 1;
        }
        None
    }

}

} // verus!
