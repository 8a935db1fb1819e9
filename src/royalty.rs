use vstd::prelude::*;
use crate::error::RockError;
use crate::settlement::{bps_share, share_of};

verus! {

/// The basis points of all the entries together.
pub open spec fn bps_total(es: Seq<(String, u16)>) -> int
    decreases es.len(),
{
    if es.len() == 0 {
        0
    } else {
        bps_total(es.drop_last()) + es.last().1
    }
}

/// The basis points of the entries that do not name `owner`.
pub open spec fn others_bps(es: Seq<(String, u16)>, owner: Seq<char>) -> int
    decreases es.len(),
{
    if es.len() == 0 {
        0
    } else {
        others_bps(es.drop_last(), owner) + if es.last().0@ == owner {
            0
        } else {
            es.last().1 as int
        }
    }
}

/// The share of `balance` of each entry that does not name `owner`, in order.
pub open spec fn others_payout(es: Seq<(String, u16)>, owner: Seq<char>, balance: int) -> Seq<
    (Seq<char>, int),
>
    decreases es.len(),
{
    if es.len() == 0 {
        Seq::empty()
    } else {
        let prev = others_payout(es.drop_last(), owner, balance);
        if es.last().0@ == owner {
            prev
        } else {
            prev.push((es.last().0@, bps_share(balance, es.last().1 as int)))
        }
    }
}

/// The payout of `balance`: each other account's share, then the owner's,
/// which is all the others leave of the balance, rounding remainders included.
pub open spec fn payout_of(es: Seq<(String, u16)>, owner: Seq<char>, balance: int) -> Seq<
    (Seq<char>, int),
> {
    let others = others_payout(es, owner, balance);
    others.push((owner, balance - sum_amounts(others)))
}

/// The amounts of a payout added up.
pub open spec fn sum_amounts(s: Seq<(Seq<char>, int)>) -> int
    decreases s.len(),
{
    if s.len() == 0 {
        0
    } else {
        sum_amounts(s.drop_last()) + s.last().1
    }
}

/// No account is named twice.
pub open spec fn accounts_unique(es: Seq<(String, u16)>) -> bool {
    forall|i: int, j: int|
        0 <= i < es.len() && 0 <= j < es.len() && i != j ==> (#[trigger] es[i]).0@ != (
        #[trigger] es[j]).0@
}

/// Accounts and their royalties, in basis points of a sale.
#[derive(Debug)]
pub struct RoyaltyTable {
    pub entries: Vec<(String, u16)>,
}

/// What each account is to be paid out of a sale.
#[derive(Debug)]
pub struct Payout {
    pub payout: Vec<(String, u128)>,
}

impl View for Payout {
    type V = Seq<(Seq<char>, int)>;

    open spec fn view(&self) -> Seq<(Seq<char>, int)> {
        self.payout@.map_values(|e: (String, u128)| (e.0@, e.1 as int))
    }
}

proof fn lemma_bps_total_prefix(es: Seq<(String, u16)>, k: int)
    requires
        0 <= k <= es.len(),
    ensures
        bps_total(es.take(k)) <= bps_total(es),
        others_bps(es.take(k), es[0].0@) >= 0,
    decreases es.len(),
{
    if k < es.len() {
        assert(es.drop_last().take(k) =~= es.take(k));
        lemma_bps_total_prefix(es.drop_last(), k);
    } else {
        assert(es.take(k) =~= es);
    }
    lemma_others_within_total(es.take(k), es[0].0@);
}

pub proof fn lemma_others_within_total(es: Seq<(String, u16)>, owner: Seq<char>)
    ensures
        0 <= others_bps(es, owner) <= bps_total(es),
    decreases es.len(),
{
    if es.len() > 0 {
        lemma_others_within_total(es.drop_last(), owner);
    }
}

/// The other accounts' shares, rounded down, never add up to more than their
/// basis points of the balance.
pub proof fn lemma_others_payout_bound(es: Seq<(String, u16)>, owner: Seq<char>, balance: int)
    requires
        balance >= 0,
    ensures
        sum_amounts(others_payout(es, owner, balance)) >= 0,
        10000 * sum_amounts(others_payout(es, owner, balance)) <= others_bps(es, owner) * balance,
    decreases es.len(),
{
    if es.len() > 0 {
        let prev = es.drop_last();
        lemma_others_payout_bound(prev, owner, balance);
        if es.last().0@ != owner {
            let b = es.last().1 as int;
            let share = bps_share(balance, b);
            let p = others_payout(prev, owner, balance);
            assert(p.push((es.last().0@, share)).drop_last() =~= p);
            assert(share >= 0 && 10000 * share <= b * balance) by (nonlinear_arith)
                requires
                    share == balance * b / 10000,
                    b >= 0,
                    balance >= 0,
            ;
            assert(others_bps(es, owner) * balance == others_bps(prev, owner) * balance + b
                * balance) by (nonlinear_arith)
                requires
                    others_bps(es, owner) == others_bps(prev, owner) + b,
            ;
        }
    }
}

/// The other accounts' shares add up to at most the balance, where the table's
/// shares add up to at most the whole.
proof fn lemma_others_within_balance(es: Seq<(String, u16)>, owner: Seq<char>, balance: int)
    requires
        balance >= 0,
        bps_total(es) <= 10000,
    ensures
        0 <= sum_amounts(others_payout(es, owner, balance)) <= balance,
{
    lemma_others_payout_bound(es, owner, balance);
    lemma_others_within_total(es, owner);
    let s = sum_amounts(others_payout(es, owner, balance));
    let t = others_bps(es, owner);
    assert(s <= balance) by (nonlinear_arith)
        requires
            10000 * s <= t * balance,
            t <= 10000,
            balance >= 0,
    ;
}

impl RoyaltyTable {
    /// The shares add up to at most the whole, and no account is named twice.
    pub open spec fn wf(&self) -> bool {
        accounts_unique(self.entries@) && bps_total(self.entries@) <= 10000
    }

    /// A table of `entries`, refused where an account is named twice or the
    /// shares add up to more than the whole.
    pub fn new(entries: Vec<(String, u16)>) -> (r: Result<RoyaltyTable, RockError>)
        ensures
            accounts_unique(entries@) && bps_total(entries@) <= 10000 ==> (r matches Ok(t)
                && t.entries@ == entries@),
            !(accounts_unique(entries@) && bps_total(entries@) <= 10000) ==> r == Err::<
                RoyaltyTable,
                RockError,
            >(RockError::InvalidRoyalty),
            r matches Ok(t) ==> t.wf(),
    {
        let mut total: u64 = 0;
        let mut k: usize = 0;
        while k < entries.len()
            invariant
                k <= entries@.len(),
                total == bps_total(entries@.take(k as int)),
                total <= 10000,
                accounts_unique(entries@.take(k as int)),
            decreases entries@.len() - k,
        {
            let mut j: usize = 0;
            while j < k
                invariant
                    j <= k < entries@.len(),
                    forall|a: int| 0 <= a < j ==> (#[trigger] entries@[a]).0@ != entries@[k as int].0@,
                decreases k - j,
            {
                if entries[j].0 == entries[k].0 {
                    assert(!accounts_unique(entries@)) by {
                        assert(entries@[j as int].0@ == entries@[k as int].0@);
                    }
                    return Err(RockError::InvalidRoyalty);
                }
                j += 1;
            }
            let ghost before = entries@.take(k as int);
            total = total + entries[k].1 as u64;
            proof {
                assert(entries@.take(k + 1).drop_last() =~= before);
                let next = entries@.take(k + 1);
                assert forall|a: int, b: int|
                    0 <= a < next.len() && 0 <= b < next.len() && a != b implies (
                    #[trigger] next[a]).0@ != (#[trigger] next[b]).0@ by {
                    if a < k && b < k {
                        assert(before[a] == next[a] && before[b] == next[b]);
                    }
                }
            }
            if total > 10000 {
                proof {
                    lemma_bps_total_prefix(entries@, k + 1);
                }
                return Err(RockError::InvalidRoyalty);
            }
            k += 1;
        }
        assert(entries@.take(entries@.len() as int) =~= entries@);
        Ok(RoyaltyTable { entries })
    }

    /// The payout of `balance` for a unit owned by `owner_id`: each other
    /// account of the table gets its share, rounded down, and the owner all
    /// that they leave of the balance.
    pub fn nft_payout(&self, owner_id: &Option<String>, balance: u128, max_len_payout: u32) -> (r:
        Result<Payout, RockError>)
        requires
            self.wf(),
        ensures
            owner_id is None ==> r == Err::<Payout, RockError>(RockError::NotFound),
            owner_id is Some && self.entries@.len() > max_len_payout ==> r == Err::<
                Payout,
                RockError,
            >(RockError::TooManyRecipients),
            owner_id is Some && self.entries@.len() <= max_len_payout ==> (r matches Ok(p) && p@
                == payout_of(self.entries@, owner_id->Some_0@, balance as int)),
    {
        let owner = match owner_id {
            None => {
                return Err(RockError::NotFound);
            },
            Some(o) => o,
        };
        if self.entries.len() as u64 > max_len_payout as u64 {
            return Err(RockError::TooManyRecipients);
        }
        let ghost es = self.entries@;
        let mut payout: Vec<(String, u128)> = Vec::new();
        let mut total: u16 = 0;
        let mut paid: u128 = 0;
        let mut k: usize = 0;
        while k < self.entries.len()
            invariant
                self.wf(),
                es == self.entries@,
                k <= es.len(),
                total == others_bps(es.take(k as int), owner@),
                total <= 10000,
                paid == sum_amounts(others_payout(es.take(k as int), owner@, balance as int)),
                payout@.map_values(|e: (String, u128)| (e.0@, e.1 as int)) == others_payout(
                    es.take(k as int),
                    owner@,
                    balance as int,
                ),
            decreases es.len() - k,
        {
            let ghost before = es.take(k as int);
            let ghost old_payout = payout@;
            proof {
                assert(es.take(k + 1).drop_last() =~= before);
                lemma_others_within_total(es.take(k + 1), owner@);
                lemma_bps_total_prefix(es, k + 1);
                lemma_others_within_balance(es.take(k + 1), owner@, balance as int);
            }
            let entry = &self.entries[k];
            if entry.0 != *owner {
                let amount = share_of(balance, entry.1 as u128);
                proof {
                    let prev = others_payout(before, owner@, balance as int);
                    assert(prev.push((entry.0@, amount as int)).drop_last() =~= prev);
                }
                paid = paid + amount;
                payout.push((entry.0.clone(), amount));
                total = total + entry.1;
                proof {
                    assert(payout@.map_values(|e: (String, u128)| (e.0@, e.1 as int))
                        =~= old_payout.map_values(|e: (String, u128)| (e.0@, e.1 as int)).push(
                        (entry.0@, amount as int),
                    ));
                }
            }
            k += 1;
        }
        assert(es.take(es.len() as int) =~= es);
        proof {
            lemma_others_within_balance(es, owner@, balance as int);
        }
        let rest = balance - paid;
        let ghost old_payout = payout@;
        payout.push((owner.clone(), rest));
        proof {
            assert(payout@.map_values(|e: (String, u128)| (e.0@, e.1 as int)) =~= old_payout.map_values(
                |e: (String, u128)| (e.0@, e.1 as int),
            ).push((owner@, rest as int)));
        }
        Ok(Payout { payout })
    }

    /// The payout of a sale that transfers the unit: the same as `nft_payout`,
    /// but only for a call that carries exactly one unit of value, as a
    /// one-time authorization. The transfer itself is the ledger's.
    pub fn nft_transfer_payout(
        &self,
        deposit: u128,
        owner_id: &Option<String>,
        balance: u128,
        max_len_payout: u32,
    ) -> (r: Result<Payout, RockError>)
        requires
            self.wf(),
        ensures
            deposit != 1 ==> r == Err::<Payout, RockError>(RockError::Unauthorized),
            deposit == 1 && owner_id is None ==> r == Err::<Payout, RockError>(
                RockError::NotFound,
            ),
            deposit == 1 && owner_id is Some && self.entries@.len() > max_len_payout ==> r
                == Err::<Payout, RockError>(RockError::TooManyRecipients),
            deposit == 1 && owner_id is Some && self.entries@.len() <= max_len_payout ==> (
            r matches Ok(p) && p@ == payout_of(self.entries@, owner_id->Some_0@, balance as int)),
    {
        if deposit != 1 {
            return Err(RockError::Unauthorized);
        }
        self.nft_payout(owner_id, balance, max_len_payout)
    }
}

} // verus!
