use vstd::prelude::*;
use crate::contract::{all_spent, first_unspent, ContractModel, MintReceipt};
use crate::error::RockError;
use crate::model::{records_grow, zones_kept};
use crate::reply::OutcomeModel;
use crate::royalty::{
    lemma_others_payout_bound, lemma_others_within_total, others_bps, others_payout, payout_of,
    sum_amounts, RoyaltyTable,
};
use crate::settlement::bps_share;
use crate::token_id::token_id_of;

verus! {

/// A payout hands out exactly the balance: every other account its share of
/// it, rounded down, and the owner the rest, which is never less than the
/// owner's own share rounded down.
pub proof fn law_payout_within_balance(table: RoyaltyTable, owner: Seq<char>, balance: u128)
    requires
        table.wf(),
    ensures
        sum_amounts(payout_of(table.entries@, owner, balance as int)) == balance,
        payout_of(table.entries@, owner, balance as int).last().1 == balance - sum_amounts(
            others_payout(table.entries@, owner, balance as int),
        ),
        payout_of(table.entries@, owner, balance as int).last().1 >= bps_share(
            balance as int,
            10000 - others_bps(table.entries@, owner),
        ),
{
    let es = table.entries@;
    let b = balance as int;
    let others = others_payout(es, owner, b);
    let t = others_bps(es, owner);
    let w = bps_share(b, 10000 - t);
    let s = sum_amounts(others);
    lemma_others_payout_bound(es, owner, b);
    lemma_others_within_total(es, owner);
    assert(payout_of(es, owner, b).drop_last() =~= others);
    assert(sum_amounts(payout_of(es, owner, b)) == s + (b - s));
    assert(10000 * w <= (10000 - t) * b) by (nonlinear_arith)
        requires
            w == b * (10000 - t) / 10000,
            t <= 10000,
            b >= 0,
    ;
    assert(w <= b - s) by (nonlinear_arith)
        requires
            10000 * s <= t * b,
            10000 * w <= (10000 - t) * b,
    ;
}

/// Once unit `(metaverse_id, zone_index, rock_index)` is minted, it stays
/// minted in every later state, and no later request mints it again: neither
/// a direct mint nor the resumed step of any holder-gated mint of it succeeds.
pub proof fn law_minted_unit_never_minted_again(
    s1: ContractModel,
    s2: ContractModel,
    metaverse_id: Seq<char>,
    zone_index: u16,
    rock_index: u128,
    caller: Seq<char>,
    deposit: u128,
    gas_left: u64,
    ticket: u64,
    o: OutcomeModel,
)
    requires
        s1.wf(),
        s2.wf(),
        s1.has_mv(metaverse_id),
        s1.mv(metaverse_id).minted.contains(token_id_of(metaverse_id, zone_index, rock_index)),
        records_grow(s1.metaverses, s2.metaverses),
    ensures
        s2.has_mv(metaverse_id),
        s2.mv(metaverse_id).minted.contains(token_id_of(metaverse_id, zone_index, rock_index)),
        s2.mint_error(caller, metaverse_id, zone_index, rock_index, deposit, gas_left) is Some,
        ({
            let p = s2.pending[s2.ticket_pos(ticket)];
            p.metaverse_id@ == metaverse_id && p.zone_index == zone_index && p.rock_index
                == rock_index ==> s2.resume_error(ticket, o) is Some
        }),
{
    let tok = token_id_of(metaverse_id, zone_index, rock_index);
    let i = s1.mv_pos(metaverse_id);
    let m1 = s1.metaverses[i];
    let m2 = s2.metaverses[i];
    assert(m2.metaverse_id == metaverse_id);
    assert(s2.has_mv(metaverse_id));
    let k = s2.mv_pos(metaverse_id);
    if k != i {
        assert(s2.metaverses[k].metaverse_id != s2.metaverses[i].metaverse_id);
    }
    let j = choose|j: int| 0 <= j < m1.minted.len() && m1.minted[j] == tok;
    assert(m2.minted.subrange(0, m1.minted.len() as int)[j] == tok);
    assert(m2.minted[j] == tok);
}

/// Every call but `add_zone` and a price change keeps the zones of every
/// existing metaverse (`zones_kept`, which composes over a run of calls): a
/// zone lookup then gives the same answer before and after any such run.
pub proof fn law_zone_info_stable(
    s1: ContractModel,
    s2: ContractModel,
    metaverse_id: Seq<char>,
    zone_index: u16,
)
    requires
        s1.wf(),
        s2.wf(),
        zones_kept(s1.metaverses, s2.metaverses),
        s1.has_mv(metaverse_id),
    ensures
        s2.has_mv(metaverse_id),
        s1.mv(metaverse_id).zones == s2.mv(metaverse_id).zones,
        s1.mv(metaverse_id).has_zone(zone_index) == s2.mv(metaverse_id).has_zone(zone_index),
        s1.mv(metaverse_id).zone(zone_index) == s2.mv(metaverse_id).zone(zone_index),
{
    let i = s1.mv_pos(metaverse_id);
    assert(s2.metaverses[i].metaverse_id == metaverse_id);
    let k = s2.mv_pos(metaverse_id);
    if k != i {
        assert(s2.metaverses[k].metaverse_id != s2.metaverses[i].metaverse_id);
    }
}

/// The resumed step that mints a unit leaves it minted, and the zones as they were.
proof fn lemma_resume_records_unit(
    s0: ContractModel,
    s1: ContractModel,
    ticket: u64,
    o: OutcomeModel,
    r: Result<MintReceipt, RockError>,
)
    requires
        s0.wf(),
        s1.wf(),
        s0.resume_post(s1, ticket, o, r),
        r is Ok,
    ensures
        ({
            let p = s0.pending[s0.ticket_pos(ticket)];
            let tok = token_id_of(p.metaverse_id@, p.zone_index, p.rock_index);
            &&& s1.has_mv(p.metaverse_id@)
            &&& s1.mv(p.metaverse_id@).minted.contains(tok)
            &&& s1.mv(p.metaverse_id@).has_zone(p.zone_index)
            &&& s1.mv(p.metaverse_id@).zone(p.zone_index).covers(p.rock_index as int)
        }),
{
    let p = s0.pending[s0.ticket_pos(ticket)];
    let id = p.metaverse_id@;
    let tok = token_id_of(id, p.zone_index, p.rock_index);
    let i = s0.mv_pos(id);
    let m = s0.mv(id);
    assert(s0.resume_error(ticket, o) is None);
    let units = o->Units_0;
    let m2 = m.with_spent(units[first_unspent(units, m.spent)]).with_minted(tok);
    assert(s1.metaverses == s0.metaverses.update(i, m2));
    assert(s1.metaverses[i] == m2);
    assert(s1.has_mv(id));
    let k = s1.mv_pos(id);
    if k != i {
        assert(s1.metaverses[k].metaverse_id != s1.metaverses[i].metaverse_id);
    }
    assert(m2.minted[m2.minted.len() - 1] == tok);
    assert(m2.zones == m.zones);
}

/// Two resumed steps for one unit mint it at most once, whatever ran between
/// them: once the first has minted it, the second is refused, leaves every
/// metaverse as it was (no unit minted, no external unit spent), and where
/// the holder still shows an unspent unit the refusal is `AlreadyMinted`.
pub proof fn law_resumed_steps_mint_once(
    s0: ContractModel,
    s1: ContractModel,
    s2: ContractModel,
    s3: ContractModel,
    t1: u64,
    o1: OutcomeModel,
    r1: Result<MintReceipt, RockError>,
    t2: u64,
    o2: OutcomeModel,
    r2: Result<MintReceipt, RockError>,
)
    requires
        s0.wf(),
        s1.wf(),
        s2.wf(),
        s0.resume_post(s1, t1, o1, r1),
        r1 is Ok,
        records_grow(s1.metaverses, s2.metaverses),
        zones_kept(s1.metaverses, s2.metaverses),
        s2.has_ticket(t2),
        ({
            let p1 = s0.pending[s0.ticket_pos(t1)];
            let p2 = s2.pending[s2.ticket_pos(t2)];
            p1.metaverse_id@ == p2.metaverse_id@ && p1.zone_index == p2.zone_index
                && p1.rock_index == p2.rock_index
        }),
        s2.resume_post(s3, t2, o2, r2),
    ensures
        r2 is Err,
        s3.metaverses == s2.metaverses,
        ({
            let p = s2.pending[s2.ticket_pos(t2)];
            o2 matches OutcomeModel::Units(units) && units.len() > 0 && !all_spent(
                units,
                s2.mv(p.metaverse_id@).spent,
            ) ==> r2 == Err::<MintReceipt, RockError>(RockError::AlreadyMinted)
        }),
{
    let p = s0.pending[s0.ticket_pos(t1)];
    let id = p.metaverse_id@;
    lemma_resume_records_unit(s0, s1, t1, o1, r1);
    law_minted_unit_never_minted_again(
        s1,
        s2,
        id,
        p.zone_index,
        p.rock_index,
        Seq::empty(),
        0,
        0,
        t2,
        o2,
    );
    law_zone_info_stable(s1, s2, id, p.zone_index);
}

} // verus!
