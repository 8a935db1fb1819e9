use vstd::prelude::*;
use vstd::string::*;
use crate::contract::{ImoReceipt, MintReceipt};
use crate::zone::Zone;

verus! {

/// The event standard of unit mints and transfers.
pub const NFT_STANDARD_NAME: &'static str = "nep171";
/// The version of that standard.
pub const NFT_METADATA_SPEC: &'static str = "1.0.0";

/// Units minted for one owner.
#[derive(Debug)]
pub struct NftMintLog {
    pub owner_id: String,
    pub token_ids: Vec<String>,
    pub memo: Option<String>,
}

/// Units moved from one owner to another.
#[derive(Debug)]
pub struct NftTransferLog {
    pub authorized_id: Option<String>,
    pub old_owner_id: String,
    pub new_owner_id: String,
    pub token_ids: Vec<String>,
    pub memo: Option<String>,
}

/// A metaverse created, with the number of units of its zones.
#[derive(Debug)]
pub struct ImoInitLog {
    pub metaverse_id: String,
    pub owner_id: String,
    pub rock_size: u128,
    pub memo: Option<String>,
}

/// A zone added to a metaverse.
#[derive(Debug)]
pub struct ImoAddZoneLog {
    pub metaverse_id: String,
    pub owner_id: String,
    pub zone_index: u16,
    pub price: u128,
    pub core_team_addr: String,
    pub collection_addr: String,
    pub type_zone: u8,
    pub rock_index_from: u128,
    pub rock_index_to: u128,
    pub rock_size: u128,
    pub memo: Option<String>,
}

/// A zone's price changed.
#[derive(Debug)]
pub struct ImoChangeZonePrice {
    pub metaverse_id: String,
    pub zone_index: u16,
    pub new_price: u128,
    pub memo: Option<String>,
}

/// What an event reports.
#[derive(Debug)]
pub enum EventLogVariant {
    NftMint(Vec<NftMintLog>),
    NftTransfer(Vec<NftTransferLog>),
    ImoInit(Vec<ImoInitLog>),
    ImoAddZone(Vec<ImoAddZoneLog>),
    ImoChangeZonePrice(Vec<ImoChangeZonePrice>),
}

/// An event for indexers: its standard, the standard's version, and what happened.
#[derive(Debug)]
pub struct EventLog {
    pub standard: String,
    pub version: String,
    pub event: EventLogVariant,
}

impl ImoChangeZonePrice {
    /// The event of zone `zone_index` of `metaverse_id` getting the price `new_price`.
    pub fn new(metaverse_id: &String, zone_index: u16, new_price: u128) -> (r: ImoChangeZonePrice)
        ensures
            r.metaverse_id@ == metaverse_id@,
            r.zone_index == zone_index,
            r.new_price == new_price,
            r.memo is None,
    {
        ImoChangeZonePrice { metaverse_id: metaverse_id.clone(), zone_index, new_price, memo: None }
    }
}

impl MintReceipt {
    /// The event of this mint: the unit, for its receiver.
    pub fn mint_log(&self) -> (r: EventLog)
        ensures
            r.standard@ == NFT_STANDARD_NAME@,
            r.version@ == NFT_METADATA_SPEC@,
            r.event matches EventLogVariant::NftMint(logs) && logs@.len() == 1 && logs@[0].owner_id@
                == self.receiver_id@ && logs@[0].token_ids@.len() == 1
                && logs@[0].token_ids@[0]@ == self.token_id@ && logs@[0].memo is None,
    {
        let log = NftMintLog {
            owner_id: self.receiver_id.clone(),
            token_ids: vec![self.token_id.clone()],
            memo: None,
        };
        EventLog {
            standard: String::from_str(NFT_STANDARD_NAME),
            version: String::from_str(NFT_METADATA_SPEC),
            event: EventLogVariant::NftMint(vec![log]),
        }
    }
}

impl ImoReceipt {
    /// The event of the creation of `metaverse_id` by `owner_id` that this receipt charged.
    pub fn init_log(&self, metaverse_id: &String, owner_id: &String) -> (r: ImoInitLog)
        ensures
            r.metaverse_id@ == metaverse_id@,
            r.owner_id@ == owner_id@,
            r.rock_size == self.rock_size,
            r.memo is None,
    {
        ImoInitLog {
            metaverse_id: metaverse_id.clone(),
            owner_id: owner_id.clone(),
            rock_size: self.rock_size,
            memo: None,
        }
    }

    /// The event of the addition of `zone` to `metaverse_id` by `owner_id`
    /// that this receipt charged.
    pub fn add_zone_log(&self, metaverse_id: &String, owner_id: &String, zone: &Zone) -> (r:
        ImoAddZoneLog)
        ensures
            r.metaverse_id@ == metaverse_id@,
            r.owner_id@ == owner_id@,
            r.zone_index == zone.zone_index,
            r.price == zone.price,
            r.core_team_addr == zone.core_team_addr,
            r.collection_addr == zone.collection_addr,
            r.type_zone == zone.type_zone,
            r.rock_index_from == zone.rock_index_from,
            r.rock_index_to == zone.rock_index_to,
            r.rock_size == self.rock_size,
            r.memo is None,
    {
        ImoAddZoneLog {
            metaverse_id: metaverse_id.clone(),
            owner_id: owner_id.clone(),
            zone_index: zone.zone_index,
            price: zone.price,
            core_team_addr: zone.core_team_addr.clone(),
            collection_addr: zone.collection_addr.clone(),
            type_zone: zone.type_zone,
            rock_index_from: zone.rock_index_from,
            rock_index_to: zone.rock_index_to,
            rock_size: self.rock_size,
            memo: None,
        }
    }
}

} // verus!
