//! The messages of the protocol: rounds, values, instance names, the
//! acceptor's record and the proposer's request, and the errors of a round.
use vstd::prelude::*;

verus! {

/// Identifies a proposal round. Rounds are ordered by `number`, then by
/// `proposer_id`, which tells apart proposers that picked the same number.
#[derive(Clone, Copy, Debug, PartialEq, Eq, Structural)]
pub struct RoundNum {
    pub number: i64,
    pub proposer_id: i64,
}

/// The payload that the acceptors agree on.
#[derive(Clone, Copy, Debug, PartialEq, Eq, Structural)]
pub struct Value {
    pub value: i64,
}

/// Names one consensus instance. Acceptors store instances by `key`;
/// `version` is carried for the caller's own sequencing.
#[derive(Clone, Debug)]
pub struct PaxosInstanceId {
    pub key: String,
    pub version: i64,
}

/// What an acceptor holds for one instance: `round` is the round in which
/// `value` was written, `last_round` the highest round it has promised.
#[derive(Clone, Copy, Debug, PartialEq, Eq, Structural)]
pub struct Acceptor {
    pub round: RoundNum,
    pub last_round: RoundNum,
    pub value: Option<Value>,
}

/// A proposer's request to an acceptor: the instance, the round and the
/// value it carries.
#[derive(Clone, Debug)]
pub struct Proposer {
    pub id: PaxosInstanceId,
    pub round: RoundNum,
    pub value: Option<Value>,
}

/// Why a phase of a round, or a call on an acceptor, did not succeed.
#[derive(Clone, Copy, Debug, PartialEq, Eq, Structural)]
pub enum PaxosError {
    /// An acceptor has already promised a later round.
    RoundSuperseded,
    /// An acceptor promised exactly this round but accepted nothing in it.
    RoundAcceptedMismatch,
    /// Too few acceptors honoured the accept request.
    QuorumNotReached,
    /// An accept request named an instance that was never prepared.
    InstanceNotFound,
}

/// The round that every record starts from.
pub open spec fn zero_round() -> RoundNum {
    RoundNum { number: 0, proposer_id: 0 }
}

/// The record of an instance that an acceptor has never seen.
pub open spec fn empty_record() -> Acceptor {
    Acceptor { round: zero_round(), last_round: zero_round(), value: None }
}

impl Default for RoundNum {
    fn default() -> (r: RoundNum)
        ensures
            r == zero_round(),
    {
        RoundNum { number: 0, proposer_id: 0 }
    }
}

impl Acceptor {
    /// The record of an instance that an acceptor has never seen.
    pub fn empty() -> (r: Acceptor)
        ensures
            r == empty_record(),
    {
        Acceptor { round: RoundNum::default(), last_round: RoundNum::default(), value: None }
    }
}

} // verus!
