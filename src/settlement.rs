use vstd::prelude::*;
use crate::error::RockError;

verus! {

/// The whole, in basis points.
pub const ONE_HUNDRED_PERCENT_IN_BPS: u128 = 10_000;

/// `bps` basis points of `amount`, rounded down.
pub open spec fn bps_share(amount: int, bps: int) -> int {
    amount * bps / 10000
}

/// What is left of `amount` once `cost` is paid, and nothing where the cost is larger.
pub open spec fn remainder_after(amount: int, cost: int) -> int {
    if cost >= amount {
        0
    } else {
        amount - cost
    }
}

/// `bps` basis points of `amount`, rounded down, without overflow.
pub fn share_of(amount: u128, bps: u128) -> (r: u128)
    requires
        bps <= 10000,
    ensures
        r == bps_share(amount as int, bps as int),
        r <= amount,
{
    let q = amount / ONE_HUNDRED_PERCENT_IN_BPS;
    let rem = amount % ONE_HUNDRED_PERCENT_IN_BPS;
    proof {
        let a = amount as int;
        let b = bps as int;
        let qi = q as int;
        let ri = rem as int;
        assert(a == qi * 10000 + ri);
        assert(a * b == (qi * b) * 10000 + ri * b) by (nonlinear_arith)
            requires
                a == qi * 10000 + ri,
        ;
        assert((qi * b * 10000 + ri * b) / 10000 == qi * b + (ri * b) / 10000) by (nonlinear_arith)
            requires
                ri >= 0,
                b >= 0,
                qi >= 0,
        ;
        assert(qi * b <= qi * 10000) by (nonlinear_arith)
            requires
                b <= 10000,
                qi >= 0,
        ;
        assert(ri * b <= ri * 10000) by (nonlinear_arith)
            requires
                b <= 10000,
                ri >= 0,
        ;
        assert((ri * b) / 10000 <= ri) by (nonlinear_arith)
            requires
                ri * b <= ri * 10000,
                ri >= 0,
        ;
    }
    q * bps + rem * bps / ONE_HUNDRED_PERCENT_IN_BPS
}

/// What is left of `amount` once `storage_bytes` bytes at `byte_cost` each are paid.
pub fn remainder_after_storage(amount: u128, storage_bytes: u64, byte_cost: u128) -> (r: u128)
    ensures
        r == remainder_after(amount as int, storage_bytes * byte_cost),
{
    match (storage_bytes as u128).checked_mul(byte_cost) {
        Some(cost) => {
            if cost >= amount {
                0
            } else {
                amount - cost
            }
        },
        None => 0,
    }
}

/// How the value attached to a mint is distributed.
#[derive(Debug, Clone, Copy, PartialEq, Eq, Structural)]
pub struct Settlement {
    /// The price less the storage cost, and nothing where storage costs more.
    pub remainder: u128,
    /// The treasury's share of the remainder.
    pub treasury_amount: u128,
    /// The metaverse owner's share of the remainder.
    pub owner_amount: u128,
    /// What is returned to the payer: the deposit less the price.
    pub refund: u128,
}

/// Distributes a sale at `price`, paid with `deposit`, after a mint that grew
/// storage by `storage_bytes` bytes at `byte_cost` each: the storage cost is
/// kept, the treasury takes `fee_bps` of the remainder and the metaverse owner
/// the rest, and the payer gets back what exceeds the price. The storage cost
/// comes out of the price, never out of the refund.
pub fn settle(price: u128, storage_bytes: u64, byte_cost: u128, deposit: u128, fee_bps: u32) -> (r:
    Result<Settlement, RockError>)
    requires
        fee_bps <= 10000,
    ensures
        deposit < price ==> r == Err::<Settlement, RockError>(RockError::InsufficientDeposit),
        deposit >= price ==> {
            let rem = remainder_after(price as int, storage_bytes * byte_cost);
            let treasury = bps_share(rem, fee_bps as int);
            r == Ok::<Settlement, RockError>(
                Settlement {
                    remainder: rem as u128,
                    treasury_amount: treasury as u128,
                    owner_amount: (rem - treasury) as u128,
                    refund: (deposit - price) as u128,
                },
            )
        },
{
    if deposit < price {
        return Err(RockError::InsufficientDeposit);
    }
    let remainder = remainder_after_storage(price, storage_bytes, byte_cost);
    let treasury_amount = share_of(remainder, fee_bps as u128);
    Ok(
        Settlement {
            remainder,
            treasury_amount,
            owner_amount: remainder - treasury_amount,
            refund: deposit - price,
        },
    )
}

} // verus!
