//! The proposer's side of a round: its working state, and the decisions it
//! takes on the acceptors' replies. Sending the requests is left to the
//! caller, which hands the replies back.
use crate::paxos::{Acceptor, PaxosError, PaxosInstanceId, Proposer, RoundNum, Value};
use crate::round::{
    check_quorum, choose_value, gather_quorum, majority, phase1_outcome, reached_quorum,
    successes, successful_replies,
};
use vstd::prelude::*;
use vstd::std_specs::vec::vec_clone_deep_view_proof;

verus! {

/// One proposal attempt: the request it sends and the acceptors it may
/// address, by position.
pub struct Propose {
    pub proposer: Proposer,
    pub servers: Vec<String>,
}

/// The servers at positions `svr`, all of them when `svr` is `None`; `None`
/// when a position is out of range.
pub open spec fn selected_servers(servers: Seq<Seq<char>>, svr: Option<Seq<i32>>) -> Option<
    Seq<Seq<char>>,
> {
    match svr {
        None => Some(servers),
        Some(s) => if forall|i: int| 0 <= i < s.len() ==> 0 <= #[trigger] s[i] < servers.len() {
            Some(s.map_values(|p: i32| servers[p as int]))
        } else {
            None
        },
    }
}

impl Propose {
    /// A proposal of `value` for instance `key` by proposer `id`, starting at
    /// round number zero.
    pub fn new(servers: Vec<String>, key: String, value: Option<Value>, id: i64) -> (r: Propose)
        ensures
            r.servers == servers,
            r.proposer.id.key == key,
            r.proposer.id.version == 0,
            r.proposer.round == (RoundNum { number: 0, proposer_id: id }),
            r.proposer.value == value,
    {
        Propose {
            servers,
            proposer: Proposer {
                id: PaxosInstanceId { key, version: 0 },
                round: RoundNum { number: 0, proposer_id: id },
                value,
            },
        }
    }

    /// Replaces the request this attempt sends.
    pub fn set_proposer(&mut self, proposer: Proposer)
        ensures
            final(self).proposer == proposer,
            final(self).servers == old(self).servers,
    {
        self.proposer = proposer;
    }

    /// The request this attempt sends.
    pub fn proposer(&self) -> (r: &Proposer)
        ensures
            *r == self.proposer,
    {
        &self.proposer
    }

    /// The addresses of the servers at positions `svr`, or of all of them;
    /// `None` when a position is out of range.
    pub fn target_servers(&self, svr: &Option<Vec<i32>>) -> (r: Option<Vec<String>>)
        ensures
            r matches Some(v) ==> selected_servers(self.servers.deep_view(), svr.deep_view())
                == Some(v.deep_view()),
            r is None ==> selected_servers(self.servers.deep_view(), svr.deep_view()) is None,
    {
        broadcast use vec_clone_deep_view_proof;

        match svr {
            None => Some(self.servers.clone()),
            Some(positions) => {
                let mut out: Vec<String> = Vec::new();
                let mut i: usize = 0;
                while i < positions.len()
                    invariant
                        0 <= i <= positions.len(),
                        svr.deep_view() == Some(positions.deep_view()),
                        out@.len() == i,
                        forall|j: int| 0 <= j < i ==> 0 <= #[trigger] positions@[j] < self.servers@.len(),
                        forall|j: int|
                            0 <= j < i ==> #[trigger] out@[j]@ == self.servers@[positions@[j] as int]@,
                    decreases positions.len() - i,
                {
                    let p = positions[i];
                    if p < 0 || p as usize >= self.servers.len() {
                        assert(positions.deep_view()[i as int] == p);
                        return None;
                    }
                    out.push(self.servers[p as usize].clone());
                    i += 1;
                }
                assert(positions.deep_view() =~= positions@);
                assert(out.deep_view() =~= positions@.map_values(
                    |p: i32| self.servers.deep_view()[p as int],
                ));
                Some(out)
            },
        }
    }

    /// Phase one: applies the value adoption rule to the replies of the
    /// prepare requests. On success the request carries the adopted value,
    /// which is returned; on failure nothing changes.
    pub fn phase1_with_replies(&mut self, replies: &Vec<Acceptor>) -> (r: Result<
        Option<Value>,
        PaxosError,
    >)
        ensures
            r == phase1_outcome(old(self).proposer.round, old(self).proposer.value, replies@),
            final(self).servers == old(self).servers,
            final(self).proposer.id == old(self).proposer.id,
            final(self).proposer.round == old(self).proposer.round,
            r matches Ok(v) ==> final(self).proposer.value == v,
            r is Err ==> final(self).proposer.value == old(self).proposer.value,
    {
        let outcome = choose_value(self.proposer.round, self.proposer.value, replies);
        if let Ok(v) = outcome {
            self.proposer.value = v;
        }
        outcome
    }

    /// Phase one on the outcome of the prepare call to each of `targets`
    /// acceptors (`None` for a call that failed): fails unless the calls that
    /// succeeded are a quorum, and otherwise decides on their replies.
    pub fn phase1_with_outcomes(&mut self, targets: usize, outcomes: &Vec<Option<Acceptor>>) -> (r:
        Result<Option<Value>, PaxosError>)
        ensures
            successes(outcomes@).len() < majority(targets as int) ==> r == Err::<
                Option<Value>,
                PaxosError,
            >(PaxosError::QuorumNotReached) && *final(self) == *old(self),
            successes(outcomes@).len() >= majority(targets as int) ==> r == phase1_outcome(
                old(self).proposer.round,
                old(self).proposer.value,
                successes(outcomes@),
            ),
            final(self).servers == old(self).servers,
            final(self).proposer.id == old(self).proposer.id,
            final(self).proposer.round == old(self).proposer.round,
            r matches Ok(v) ==> final(self).proposer.value == v,
            r is Err ==> final(self).proposer.value == old(self).proposer.value,
    {
        match gather_quorum(targets, outcomes) {
            Ok(replies) => self.phase1_with_replies(&replies),
            Err(e) => Err(e),
        }
    }

    /// Phase two: decides on the replies of the accept requests sent to
    /// `targets` acceptors. Success returns the value the request carried.
    pub fn phase2_with_replies(&self, targets: usize, replies: &Vec<Acceptor>) -> (r: Result<
        Option<Value>,
        PaxosError,
    >)
        ensures
            reached_quorum(self.proposer.round, targets as nat, replies@) ==> r == Ok::<
                Option<Value>,
                PaxosError,
            >(self.proposer.value),
            !reached_quorum(self.proposer.round, targets as nat, replies@) ==> r == Err::<
                Option<Value>,
                PaxosError,
            >(PaxosError::QuorumNotReached),
    {
        match check_quorum(self.proposer.round, targets, replies) {
            Ok(()) => Ok(self.proposer.value),
            Err(e) => Err(e),
        }
    }
}

impl Propose {
    /// Phase two on the outcome of the accept call to each of `targets`
    /// acceptors (`None` for a call that failed): a failed call does not
    /// count toward the quorum.
    pub fn phase2_with_outcomes(&self, targets: usize, outcomes: &Vec<Option<Acceptor>>) -> (r:
        Result<Option<Value>, PaxosError>)
        ensures
            reached_quorum(self.proposer.round, targets as nat, successes(outcomes@)) ==> r
                == Ok::<Option<Value>, PaxosError>(self.proposer.value),
            !reached_quorum(self.proposer.round, targets as nat, successes(outcomes@)) ==> r
                == Err::<Option<Value>, PaxosError>(PaxosError::QuorumNotReached),
    {
        let replies = successful_replies(outcomes);
        self.phase2_with_replies(targets, &replies)
    }
}

/// A proposer identity bound to a list of acceptor addresses.
pub struct Client {
    pub id: i64,
    pub servers: Vec<String>,
}

impl Client {
    /// A client for proposer `id` over the acceptors at `servers`.
    pub fn new(servers: Vec<String>, id: i64) -> (r: Client)
        ensures
            r.id == id,
            r.servers == servers,
    {
        Client { id, servers }
    }

    /// Whether `connected` reachable acceptors make a quorum of all of them.
    pub fn check_connected(&self, connected: usize) -> (r: Result<(), PaxosError>)
        ensures
            r is Ok <==> connected >= majority(self.servers@.len() as int),
            r is Err ==> r == Err::<(), PaxosError>(PaxosError::QuorumNotReached),
    {
        if connected >= crate::round::quorum_size(self.servers.len()) {
            Ok(())
        } else {
            Err(PaxosError::QuorumNotReached)
        }
    }

    /// A fresh proposal attempt of `value` for instance `key` over this
    /// client's acceptors.
    pub fn new_propose(&self, key: String, value: Option<Value>) -> (r: Propose)
        ensures
            r.servers.deep_view() == self.servers.deep_view(),
            r.proposer.id.key == key,
            r.proposer.id.version == 0,
            r.proposer.round == (RoundNum { number: 0, proposer_id: self.id }),
            r.proposer.value == value,
    {
        broadcast use vec_clone_deep_view_proof;

        Propose::new(self.servers.clone(), key, value, self.id)
    }
}

} // verus!
