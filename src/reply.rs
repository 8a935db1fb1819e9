use vstd::prelude::*;
use crate::model::views;

verus! {

/// How the external collection's query for a holder's units resolved.
#[derive(Debug)]
pub enum QueryReply {
    NotReady,
    Failed,
    /// The reply's bytes: a JSON list of tokens.
    Successful(Vec<u8>),
}

/// A resolved query, read: the ids of the holder's units in the order returned.
#[derive(Debug)]
pub enum QueryOutcome {
    NotReady,
    Failed,
    Units(Vec<String>),
}

/// A resolved query as mathematical values.
pub enum OutcomeModel {
    NotReady,
    Failed,
    Units(Seq<Seq<char>>),
}

impl View for QueryOutcome {
    type V = OutcomeModel;

    open spec fn view(&self) -> OutcomeModel {
        match self {
            QueryOutcome::NotReady => OutcomeModel::NotReady,
            QueryOutcome::Failed => OutcomeModel::Failed,
            QueryOutcome::Units(v) => OutcomeModel::Units(views(v@)),
        }
    }
}

/// The token ids that a reply's bytes list, in order, where the bytes are a
/// JSON list of tokens; `None` where they are not.
pub uninterp spec fn reply_token_ids(bytes: Seq<u8>) -> Option<Seq<Seq<char>>>;

/// What a reply reads as: an unreadable reply counts as a failed query.
pub open spec fn reply_outcome(reply: QueryReply) -> OutcomeModel {
    match reply {
        QueryReply::NotReady => OutcomeModel::NotReady,
        QueryReply::Failed => OutcomeModel::Failed,
        QueryReply::Successful(bytes) => match reply_token_ids(bytes@) {
            Some(ids) => OutcomeModel::Units(ids),
            None => OutcomeModel::Failed,
        },
    }
}

/// Relies on `serde_json::from_slice` reading the bytes as a list of
/// near-contract-standards `Token`s, whose ids are kept in order; the result
/// depends on the bytes alone.
#[verifier::external_body]
fn parse_token_ids(bytes: &[u8]) -> (r: Option<Vec<String>>)
    ensures
        r matches Some(v) ==> reply_token_ids(bytes@) == Some(views(v@)),
        r is None ==> reply_token_ids(bytes@) is None,
{
    match serde_json::from_slice::<Vec<near_contract_standards::non_fungible_token::Token>>(bytes) {
        Ok(tokens) => Some(tokens.into_iter().map(|t| t.token_id).collect()),
        Err(_) => None,
    }
}

/// Reads the external collection's reply.
pub fn decode_reply(reply: QueryReply) -> (r: QueryOutcome)
    ensures
        r@ == reply_outcome(reply),
{
    match reply {
        QueryReply::NotReady => QueryOutcome::NotReady,
        QueryReply::Failed => QueryOutcome::Failed,
        QueryReply::Successful(bytes) => match parse_token_ids(bytes.as_slice()) {
            Some(ids) => QueryOutcome::Units(ids),
            None => QueryOutcome::Failed,
        },
    }
}

} // verus!
