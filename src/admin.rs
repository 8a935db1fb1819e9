use vstd::prelude::*;
use crate::contract::{Contract, ContractModel};
use crate::error::RockError;
use crate::royalty::{payout_of, Payout, RoyaltyTable};

verus! {

/// A privileged call: it carries at least one unit of value, and comes from `who`.
fn authorize(caller: &String, deposit: u128, who: &String) -> (r: Result<(), RockError>)
    ensures
        deposit < 1 ==> r == Err::<(), RockError>(RockError::InsufficientDeposit),
        deposit >= 1 && caller@ != who@ ==> r == Err::<(), RockError>(RockError::Unauthorized),
        deposit >= 1 && caller@ == who@ ==> r is Ok,
{
    if deposit < 1 {
        return Err(RockError::InsufficientDeposit);
    }
    if *caller != *who {
        return Err(RockError::Unauthorized);
    }
    Ok(())
}

/// Why a privileged call by `caller` with `deposit`, reserved to `who`, is refused, if it is.
pub open spec fn auth_error(caller: Seq<char>, deposit: u128, who: Seq<char>) -> Option<RockError> {
    if deposit < 1 {
        Some(RockError::InsufficientDeposit)
    } else if caller != who {
        Some(RockError::Unauthorized)
    } else {
        None
    }
}

impl Contract {
    /// An engine with no metaverse yet; refused where the treasury's share is
    /// above the whole.
    pub fn new(
        admin_id: String,
        operator_id: String,
        treasury_id: String,
        init_imo_fee: u128,
        rock_purchase_fee: u32,
        allow_holder_zones: bool,
    ) -> (r: Result<Contract, RockError>)
        ensures
            rock_purchase_fee > 10000 ==> r == Err::<Contract, RockError>(RockError::InvalidFee),
            rock_purchase_fee <= 10000 ==> (r matches Ok(c) && c@ == (ContractModel {
                admin_id: admin_id@,
                operator_id: operator_id@,
                treasury_id: treasury_id@,
                init_imo_fee,
                rock_purchase_fee,
                allow_holder_zones,
                metaverses: Seq::empty(),
                pending: Seq::empty(),
                next_ticket: 0,
                royalties: Seq::empty(),
            })),
            r matches Ok(c) ==> c@.wf(),
    {
        if rock_purchase_fee > 10000 {
            return Err(RockError::InvalidFee);
        }
        let c = Contract {
            admin_id,
            operator_id,
            treasury_id,
            init_imo_fee,
            rock_purchase_fee,
            allow_holder_zones,
            metaverses: Vec::new(),
            pending: Vec::new(),
            next_ticket: 0,
            royalties: RoyaltyTable { entries: Vec::new() },
        };
        assert(c@.metaverses =~= Seq::empty());
        assert(c@.royalties =~= Seq::empty());
        Ok(c)
    }

    /// Hands the admin role to `new_admin_id`; only the admin may.
    pub fn change_admin(&mut self, caller: &String, deposit: u128, new_admin_id: String) -> (r:
        Result<(), RockError>)
        requires
            old(self)@.wf(),
        ensures
            final(self)@.wf(),
            auth_error(caller@, deposit, old(self)@.admin_id) matches Some(e) ==> r == Err::<
                (),
                RockError,
            >(e) && *final(self) == *old(self),
            auth_error(caller@, deposit, old(self)@.admin_id) is None ==> r is Ok && final(self)@
                == (ContractModel { admin_id: new_admin_id@, ..old(self)@ }),
    {
        authorize(caller, deposit, &self.admin_id)?;
        self.admin_id = new_admin_id;
        Ok(())
    }

    /// Hands the operator role to `new_operator_id`; only the admin may.
    pub fn change_operator(&mut self, caller: &String, deposit: u128, new_operator_id: String)
        -> (r: Result<(), RockError>)
        requires
            old(self)@.wf(),
        ensures
            final(self)@.wf(),
            auth_error(caller@, deposit, old(self)@.admin_id) matches Some(e) ==> r == Err::<
                (),
                RockError,
            >(e) && *final(self) == *old(self),
            auth_error(caller@, deposit, old(self)@.admin_id) is None ==> r is Ok && final(self)@
                == (ContractModel { operator_id: new_operator_id@, ..old(self)@ }),
    {
        authorize(caller, deposit, &self.admin_id)?;
        self.operator_id = new_operator_id;
        Ok(())
    }

    /// Sends the treasury's shares to `new_treasury_id` from now on; only the admin may.
    pub fn change_treasury(&mut self, caller: &String, deposit: u128, new_treasury_id: String)
        -> (r: Result<(), RockError>)
        requires
            old(self)@.wf(),
        ensures
            final(self)@.wf(),
            auth_error(caller@, deposit, old(self)@.admin_id) matches Some(e) ==> r == Err::<
                (),
                RockError,
            >(e) && *final(self) == *old(self),
            auth_error(caller@, deposit, old(self)@.admin_id) is None ==> r is Ok && final(self)@
                == (ContractModel { treasury_id: new_treasury_id@, ..old(self)@ }),
    {
        authorize(caller, deposit, &self.admin_id)?;
        self.treasury_id = new_treasury_id;
        Ok(())
    }

    /// Sets the treasury's share of a sale, in basis points; only the operator
    /// may, and never above the whole.
    pub fn change_rock_purchase_fee(&mut self, caller: &String, deposit: u128, rock_purchase_fee: u32)
        -> (r: Result<(), RockError>)
        requires
            old(self)@.wf(),
        ensures
            final(self)@.wf(),
            auth_error(caller@, deposit, old(self)@.operator_id) matches Some(e) ==> r == Err::<
                (),
                RockError,
            >(e) && *final(self) == *old(self),
            auth_error(caller@, deposit, old(self)@.operator_id) is None && rock_purchase_fee
                > 10000 ==> r == Err::<(), RockError>(RockError::InvalidFee) && *final(self)
                == *old(self),
            auth_error(caller@, deposit, old(self)@.operator_id) is None && rock_purchase_fee
                <= 10000 ==> r is Ok && final(self)@ == (ContractModel {
                rock_purchase_fee,
                ..old(self)@
            }),
    {
        authorize(caller, deposit, &self.operator_id)?;
        if rock_purchase_fee > 10000 {
            return Err(RockError::InvalidFee);
        }
        self.rock_purchase_fee = rock_purchase_fee;
        Ok(())
    }

    /// Sets the fee for each unit of a new zone; only the operator may.
    pub fn change_init_imo_fee(&mut self, caller: &String, deposit: u128, init_imo_fee: u128)
        -> (r: Result<(), RockError>)
        requires
            old(self)@.wf(),
        ensures
            final(self)@.wf(),
            auth_error(caller@, deposit, old(self)@.operator_id) matches Some(e) ==> r == Err::<
                (),
                RockError,
            >(e) && *final(self) == *old(self),
            auth_error(caller@, deposit, old(self)@.operator_id) is None ==> r is Ok
                && final(self)@ == (ContractModel { init_imo_fee, ..old(self)@ }),
    {
        authorize(caller, deposit, &self.operator_id)?;
        self.init_imo_fee = init_imo_fee;
        Ok(())
    }

    /// Sets the fee for each unit of a new zone, as `change_init_imo_fee` does.
    pub fn update_init_imo_fee(&mut self, caller: &String, deposit: u128, init_imo_fee: u128)
        -> (r: Result<(), RockError>)
        requires
            old(self)@.wf(),
        ensures
            final(self)@.wf(),
            auth_error(caller@, deposit, old(self)@.operator_id) matches Some(e) ==> r == Err::<
                (),
                RockError,
            >(e) && *final(self) == *old(self),
            auth_error(caller@, deposit, old(self)@.operator_id) is None ==> r is Ok
                && final(self)@ == (ContractModel { init_imo_fee, ..old(self)@ }),
    {
        self.change_init_imo_fee(caller, deposit, init_imo_fee)
    }

    /// Replaces the royalty table; only the admin may.
    pub fn update_royalties(&mut self, caller: &String, deposit: u128, royalties: RoyaltyTable)
        -> (r: Result<(), RockError>)
        requires
            old(self)@.wf(),
            royalties.wf(),
        ensures
            final(self)@.wf(),
            auth_error(caller@, deposit, old(self)@.admin_id) matches Some(e) ==> r == Err::<
                (),
                RockError,
            >(e) && *final(self) == *old(self),
            auth_error(caller@, deposit, old(self)@.admin_id) is None ==> r is Ok && final(self)@
                == (ContractModel { royalties: royalties.entries@, ..old(self)@ }),
    {
        authorize(caller, deposit, &self.admin_id)?;
        self.royalties = royalties;
        Ok(())
    }

    /// The payout of `balance` for a unit owned by `owner_id`, by the
    /// engine's royalty table.
    pub fn nft_payout(&self, owner_id: &Option<String>, balance: u128, max_len_payout: u32) -> (r:
        Result<Payout, RockError>)
        requires
            self@.wf(),
        ensures
            owner_id is None ==> r == Err::<Payout, RockError>(RockError::NotFound),
            owner_id is Some && self@.royalties.len() > max_len_payout ==> r == Err::<
                Payout,
                RockError,
            >(RockError::TooManyRecipients),
            owner_id is Some && self@.royalties.len() <= max_len_payout ==> (r matches Ok(p) && p@
                == payout_of(self@.royalties, owner_id->Some_0@, balance as int)),
    {
        self.royalties.nft_payout(owner_id, balance, max_len_payout)
    }

    /// The payout of a sale that transfers a unit owned by `owner_id`, by the
    /// engine's royalty table, for a call carrying exactly one unit of value.
    pub fn nft_transfer_payout(
        &self,
        deposit: u128,
        owner_id: &Option<String>,
        balance: u128,
        max_len_payout: u32,
    ) -> (r: Result<Payout, RockError>)
        requires
            self@.wf(),
        ensures
            deposit != 1 ==> r == Err::<Payout, RockError>(RockError::Unauthorized),
            deposit == 1 && owner_id is None ==> r == Err::<Payout, RockError>(
                RockError::NotFound,
            ),
            deposit == 1 && owner_id is Some && self@.royalties.len() > max_len_payout ==> r
                == Err::<Payout, RockError>(RockError::TooManyRecipients),
            deposit == 1 && owner_id is Some && self@.royalties.len() <= max_len_payout ==> (
            r matches Ok(p) && p@ == payout_of(self@.royalties, owner_id->Some_0@, balance as int)),
    {
        self.royalties.nft_transfer_payout(deposit, owner_id, balance, max_len_payout)
    }

    pub fn get_admin(&self) -> (r: &String)
        ensures
            r@ == self@.admin_id,
    {
        &self.admin_id
    }

    pub fn get_operator(&self) -> (r: &String)
        ensures
            r@ == self@.operator_id,
    {
        &self.operator_id
    }

    pub fn get_treasury(&self) -> (r: &String)
        ensures
            r@ == self@.treasury_id,
    {
        &self.treasury_id
    }

    pub fn get_init_imo_fee(&self) -> (r: u128)
        ensures
            r == self.init_imo_fee,
    {
        self.init_imo_fee
    }
}

} // verus!
