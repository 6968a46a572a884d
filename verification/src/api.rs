//! Read queries on the ledger, and what a proof of a subject's state covers.

use vstd::prelude::*;

use crate::crypto::{Digest, PublicKey};
use crate::schema::{lists, SwarmSchema};
use crate::voting::Voting;

verus! {

/// Names the subject that a query is about.
#[derive(Clone, Copy, Debug)]
pub struct VotingQuery {
    pub pub_key: PublicKey,
}

/// Why a query has no answer.
#[derive(Debug)]
pub enum ApiError {
    /// What was asked for is not in the ledger.
    NotFound(String),
}

/// The message of a query for a subject without a record.
pub const VOTING_NOT_FOUND: &'static str = "\"Voting not found\"";

/// The history layer of a proof: the range of the subject's history log that
/// is to be proved, and the transaction references in it, oldest first.
#[derive(Debug)]
pub struct VotingHistory {
    pub from: u64,
    pub to: u64,
    pub transactions: Vec<Digest>,
}

/// What a proof of one subject's state covers: the record, or its absence,
/// and for a record its whole history log. The host adds to each layer the
/// evidence from its authenticated storage.
#[derive(Debug)]
pub struct VotingInfo {
    pub voting: Option<Voting>,
    pub voting_history: Option<VotingHistory>,
}

/// The read side of the voting service.
#[derive(Clone, Copy, Debug)]
pub struct VotingApi;

impl VotingApi {
    /// The record of the subject that `query` names, or `NotFound`.
    pub fn get_voting(schema: &SwarmSchema, query: VotingQuery) -> (result: Result<
        Voting,
        ApiError,
    >)
        ensures
            result is Ok <==> schema@.votings.contains_key(query.pub_key),
            result is Ok ==> result->Ok_0@ == schema@.votings[query.pub_key],
            result is Err ==> (result->Err_0 matches ApiError::NotFound(message) && message@
                == VOTING_NOT_FOUND@),
    {
        match schema.voting(&query.pub_key) {
            Some(voting) => Ok(voting),
            None => Err(ApiError::NotFound(VOTING_NOT_FOUND.to_owned())),
        }
    }

    /// All records of the ledger, each exactly once.
    pub fn get_votings(schema: &SwarmSchema) -> (result: Result<Vec<Voting>, ApiError>)
        ensures
            result is Ok,
            lists(result->Ok_0@.map_values(|v: Voting| v@), schema@.votings),
    {
        Ok(schema.votings())
    }

    /// The height of the latest block, when `block_count` blocks are
    /// committed.
    pub fn max_height(block_count: u64) -> (height: u64)
        requires
            block_count > 0,
        ensures
            height == block_count - 1,
    {
        block_count - 1
    }

    /// The range of the history log that a proof of `voting` has to cover,
    /// when the log holds `history_len` entries: all of it for a record,
    /// nothing for the absence of one.
    pub fn history_range(voting: &Option<Voting>, history_len: u64) -> (range: Option<(u64, u64)>)
        ensures
            range == if voting is Some {
                Some((0u64, history_len))
            } else {
                None
            },
    {
        if voting.is_some() {
            Some((0, history_len))
        } else {
            None
        }
    }

    /// What a proof of the state of the subject that `query` names covers:
    /// the exact record if there is one, and then the whole history log with
    /// its transaction references in order; the absence of a record, and then
    /// nothing more.
    pub fn voting_info(schema: &SwarmSchema, query: VotingQuery) -> (result: Result<
        VotingInfo,
        ApiError,
    >)
        ensures
            result is Ok,
            ({
                let info = result->Ok_0;
                let key = query.pub_key;
                &&& info.voting is Some <==> schema@.votings.contains_key(key)
                &&& info.voting is Some ==> info.voting->0@ == schema@.votings[key]
                &&& info.voting_history is Some <==> info.voting is Some
                &&& info.voting_history is Some ==> {
                    &&& info.voting_history->0.from == 0
                    &&& info.voting_history->0.to == schema@.history(key).len()
                    &&& info.voting_history->0.transactions@ == schema@.history(key)
                }
            }),
    {
        let voting = schema.voting(&query.pub_key);
        let history_len = schema.history_len(&query.pub_key);
        let voting_history = match Self::history_range(&voting, history_len) {
            Some((from, to)) => Some(
                VotingHistory { from, to, transactions: schema.voting_history(&query.pub_key) },
            ),
            None => None,
        };
        Ok(VotingInfo { voting, voting_history })
    }
}

} // verus!
