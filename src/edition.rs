use vstd::prelude::*;
use crate::error::RockError;
use crate::token_id::{decimal, decimal_string};

verus! {

/// A collection of numbered editions, sold at one price up to a maximum
/// supply, that its operator mints for free.
#[derive(Debug)]
pub struct EditionSale {
    pub operator_id: String,
    pub max_supply: u64,
    pub token_price: u128,
}

/// One edition to mint: its id and what it costs the caller.
#[derive(Debug, PartialEq, Eq)]
pub struct EditionMint {
    pub token_id: String,
    pub price: u128,
    pub by_operator: bool,
}

impl EditionSale {
    /// The next edition, when `minted` have been minted already, for `caller`
    /// who attached `deposit`: its id is its number, counting from 0; the
    /// operator pays nothing but must attach at least one unit of value.
    pub fn nft_create(&self, caller: &String, minted: u64, deposit: u128) -> (r: Result<
        EditionMint,
        RockError,
    >)
        ensures
            minted >= self.max_supply ==> r == Err::<EditionMint, RockError>(
                RockError::SupplyExhausted,
            ),
            minted < self.max_supply && caller@ == self.operator_id@ && deposit < 1 ==> r
                == Err::<EditionMint, RockError>(RockError::InsufficientDeposit),
            minted < self.max_supply && !(caller@ == self.operator_id@ && deposit < 1) ==> (
            r matches Ok(e) && e.token_id@ == decimal(minted as nat) && e.by_operator == (caller@
                == self.operator_id@) && e.price == (if e.by_operator {
                0
            } else {
                self.token_price
            })),
    {
        if minted >= self.max_supply {
            return Err(RockError::SupplyExhausted);
        }
        let by_operator = *caller == self.operator_id;
        if by_operator && deposit < 1 {
            return Err(RockError::InsufficientDeposit);
        }
        let price = if by_operator {
            0
        } else {
            self.token_price
        };
        Ok(EditionMint { token_id: decimal_string(minted as u128), price, by_operator })
    }

    /// Sets the price of the editions still to be sold; only the operator may.
    pub fn update_token_price(&mut self, caller: &String, deposit: u128, updated_price: u128) -> (r:
        Result<(), RockError>)
        ensures
            deposit < 1 ==> r == Err::<(), RockError>(RockError::InsufficientDeposit) && *final(self)
                == *old(self),
            deposit >= 1 && caller@ != old(self).operator_id@ ==> r == Err::<(), RockError>(
                RockError::Unauthorized,
            ) && *final(self) == *old(self),
            deposit >= 1 && caller@ == old(self).operator_id@ ==> r is Ok && final(self).token_price
                == updated_price && final(self).operator_id == old(self).operator_id
                && final(self).max_supply == old(self).max_supply,
    {
        if deposit < 1 {
            return Err(RockError::InsufficientDeposit);
        }
        if *caller != self.operator_id {
            return Err(RockError::Unauthorized);
        }
        self.token_price = updated_price;
        Ok(())
    }
}

impl EditionMint {
    /// What the treasury receives once the edition is minted and storage grew
    /// by `storage_bytes` bytes at `byte_cost` each: the deposit must cover the
    /// storage cost and the price; a sale sends the treasury all the deposit
    /// but the storage cost, an operator's mint nothing.
    pub fn settle(&self, storage_bytes: u64, byte_cost: u128, deposit: u128) -> (r: Result<
        u128,
        RockError,
    >)
        ensures
            deposit < storage_bytes * byte_cost + self.price ==> r == Err::<u128, RockError>(
                RockError::InsufficientDeposit,
            ),
            deposit >= storage_bytes * byte_cost + self.price ==> r == Ok::<u128, RockError>(
                if self.by_operator {
                    0
                } else {
                    (deposit - storage_bytes * byte_cost) as u128
                },
            ),
    {
        let cost = match (storage_bytes as u128).checked_mul(byte_cost) {
            Some(c) => c,
            None => {
                return Err(RockError::InsufficientDeposit);
            },
        };
        if deposit < cost || deposit - cost < self.price {
            return Err(RockError::InsufficientDeposit);
        }
        if self.by_operator {
            Ok(0)
        } else {
            Ok(deposit - cost)
        }
    }
}

} // verus!
