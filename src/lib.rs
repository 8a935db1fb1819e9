//! A zone-based issuance engine for "rocks": uniquely numbered units grouped
//! into metaverses, minted through operator, holder-gated and public zones,
//! with settlement of the attached value and royalty splits.
//!
//! The engine decides; its caller acts. A mint request either mints at once
//! or, for a holder-gated zone, records a pending mint whose external query
//! the caller sends; the caller then hands the reply back to the resumed step.
//! Value transfers, storage measurement and the asset ledger stay with the
//! caller, who is told what to pay and to whom.

pub mod account;
pub mod admin;
pub mod catalog;
pub mod contract;
pub mod edition;
pub mod error;
pub mod events;
pub mod laws;
pub mod minting;
pub mod model;
pub mod reply;
pub mod royalty;
pub mod settlement;
pub mod token_id;
pub mod zone;

pub use account::is_valid_account_id;
pub use contract::{
    Contract, ImoReceipt, Metaverse, MintReceipt, MintStep, PendingMint, GAS_FOR_COMMON_OPERATIONS,
    GAS_FOR_DISPATCH, GAS_FOR_RESUME, GAS_RESERVED_FOR_CURRENT_CALL,
};
pub use edition::{EditionMint, EditionSale};
pub use error::RockError;
pub use events::{
    EventLog, EventLogVariant, ImoAddZoneLog, ImoChangeZonePrice, ImoInitLog, NftMintLog,
    NftTransferLog, NFT_METADATA_SPEC, NFT_STANDARD_NAME,
};
pub use reply::{decode_reply, QueryOutcome, QueryReply};
pub use royalty::{Payout, RoyaltyTable};
pub use settlement::{
    remainder_after_storage, settle, share_of, Settlement, ONE_HUNDRED_PERCENT_IN_BPS,
};
pub use token_id::{decimal_string, gen_token_id};
pub use zone::{Zone, OPERATOR_ZONE_INDEX, ZONE_TYPE_HOLDER, ZONE_TYPE_OPERATOR, ZONE_TYPE_PUBLIC};
