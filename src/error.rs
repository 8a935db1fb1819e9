use vstd::prelude::*;

verus! {

/// Every way a request to the engine can be refused.
#[derive(Debug, Clone, Copy, PartialEq, Eq, Structural)]
pub enum RockError {
    /// A metaverse with this id already exists.
    DuplicateMetaverse,
    /// A zone fails its geometry or type checks, or overlaps another zone.
    InvalidZone,
    /// The metaverse already has a zone with this index.
    ZoneIndexTaken,
    /// The metaverse, the zone or the unit does not exist.
    NotFound,
    /// The rock index lies outside the zone's range.
    OutOfRange,
    /// The unit derived from the request was minted before.
    AlreadyMinted,
    /// The caller may not perform this action.
    Unauthorized,
    /// A public zone has no price.
    MissingPrice,
    /// The attached value does not cover the amount due.
    InsufficientDeposit,
    /// Not enough compute budget was attached to dispatch the external query.
    InsufficientGas,
    /// A resumed step that was never dispatched, or was already resumed.
    ProtocolViolation,
    /// The external query has not resolved.
    ExternalQueryPending,
    /// The external query failed or returned an unreadable reply.
    ExternalQueryFailed,
    /// The caller holds no unit of the external collection.
    NoQualifyingUnit,
    /// Every external unit the caller holds has already authorized a mint.
    AllUnitsSpent,
    /// The royalty table has more entries than the caller can pay out.
    TooManyRecipients,
    /// A royalty table whose shares exceed the whole, or name an account twice.
    InvalidRoyalty,
    /// A fee share above the whole.
    InvalidFee,
    /// Every edition of the collection has been minted.
    SupplyExhausted,
}

} // verus!
