//! The acceptor: one record per instance key, changed by `prepare` and
//! `accept` requests, each of which answers with the record as it stood
//! before the request.
use crate::paxos::{empty_record, zero_round, Acceptor, PaxosError, Proposer, RoundNum, Value};
use crate::round::{round_le, round_less, round_lt};
use vstd::hash_map::StringHashMap;
use vstd::prelude::*;

verus! {

/// The record stored under `key`, if any.
pub open spec fn record_of(store: Map<Seq<char>, Acceptor>, key: Seq<char>) -> Option<Acceptor> {
    if store.contains_key(key) {
        Some(store[key])
    } else {
        None
    }
}

/// The reply to a prepare request: the stored record, or the empty record
/// for an instance never seen.
pub open spec fn prepare_reply(old: Option<Acceptor>) -> Acceptor {
    match old {
        Some(a) => a,
        None => empty_record(),
    }
}

/// The record after a prepare request in `round` carrying `value`. A new
/// instance records the promise only; a known one whose value was written
/// in an earlier round takes the request's round and value.
pub open spec fn prepared(old: Option<Acceptor>, round: RoundNum, value: Option<Value>) -> Acceptor {
    match old {
        None => Acceptor { round: zero_round(), last_round: round, value: None },
        Some(a) => if round_lt(a.round, round) {
            Acceptor { round: round, last_round: round, value: value }
        } else {
            a
        },
    }
}

/// The record after an accept request in `round` carrying `value`: taken
/// unless a later round has been promised.
pub open spec fn accepted(old: Acceptor, round: RoundNum, value: Option<Value>) -> Acceptor {
    if round_le(old.last_round, round) {
        Acceptor { round: round, last_round: round, value: value }
    } else {
        old
    }
}

/// Every record's value was written in a round no later than its promise.
pub open spec fn records_ordered(store: Map<Seq<char>, Acceptor>) -> bool {
    forall|k: Seq<char>| #[trigger]
        store.contains_key(k) ==> round_le(store[k].round, store[k].last_round)
}

/// A request that an acceptor serves for one instance key.
pub enum Call {
    Prepare { round: RoundNum, value: Option<Value> },
    Accept { round: RoundNum, value: Option<Value> },
}

/// The record of one key after the acceptor serves `call`; an accept of an
/// unknown key is refused and leaves it unknown.
pub open spec fn serve(rec: Option<Acceptor>, call: Call) -> Option<Acceptor> {
    match call {
        Call::Prepare { round, value } => Some(prepared(rec, round, value)),
        Call::Accept { round, value } => match rec {
            Some(a) => Some(accepted(a, round, value)),
            None => None,
        },
    }
}

/// The record of one key after the acceptor serves `calls` in order.
pub open spec fn serve_all(rec: Option<Acceptor>, calls: Seq<Call>) -> Option<Acceptor>
    decreases calls.len(),
{
    if calls.len() == 0 {
        rec
    } else {
        serve(serve_all(rec, calls.drop_last()), calls.last())
    }
}

/// The promised round the acceptor reports for a key in this state: that of
/// the stored record, or of the empty one.
pub open spec fn promised(rec: Option<Acceptor>) -> RoundNum {
    prepare_reply(rec).last_round
}

/// Whether `call` would set the promise below the one already reported: a
/// first prepare in a round before the zero round, or a prepare whose round
/// lies strictly between the recorded accepted and promised rounds.
pub open spec fn lowers_promise(rec: Option<Acceptor>, call: Call) -> bool {
    match call {
        Call::Prepare { round, value: _ } => match rec {
            None => round_lt(round, zero_round()),
            Some(a) => round_lt(a.round, round) && round_lt(round, a.last_round),
        },
        Call::Accept { .. } => false,
    }
}

/// The value that `call` carries.
pub open spec fn call_value(call: Call) -> Option<Value> {
    match call {
        Call::Prepare { value, .. } => value,
        Call::Accept { value, .. } => value,
    }
}

/// An acceptor process: the records of all the instances it has seen.
pub struct PaxosService {
    pub storage: StringHashMap<Acceptor>,
}

impl View for PaxosService {
    type V = Map<Seq<char>, Acceptor>;

    open spec fn view(&self) -> Map<Seq<char>, Acceptor> {
        self.storage@
    }
}

impl PaxosService {
    /// An acceptor that has seen no instance.
    pub fn new() -> (r: PaxosService)
        ensures
            r@ == Map::<Seq<char>, Acceptor>::empty(),
    {
        PaxosService { storage: StringHashMap::new() }
    }

    /// The record held for `key`, if any.
    pub fn record(&self, key: &str) -> (r: Option<Acceptor>)
        ensures
            r == record_of(self@, key@),
    {
        match self.storage.get(key) {
            Some(a) => Some(*a),
            None => None,
        }
    }

    /// Serves a prepare request and answers with the record as it was
    /// before.
    pub fn prepare(&mut self, proposer: &Proposer) -> (r: Acceptor)
        ensures
            r == prepare_reply(record_of(old(self)@, proposer.id.key@)),
            final(self)@ == old(self)@.insert(
                proposer.id.key@,
                prepared(record_of(old(self)@, proposer.id.key@), proposer.round, proposer.value),
            ),
            records_ordered(old(self)@) && round_le(zero_round(), proposer.round) ==> records_ordered(
                final(self)@,
            ),
    {
        let found = self.record(proposer.id.key.as_str());
        match found {
            Some(old_record) => {
                if round_less(&old_record.round, &proposer.round) {
                    let next = Acceptor {
                        round: proposer.round,
                        last_round: proposer.round,
                        value: proposer.value,
                    };
                    self.storage.insert(proposer.id.key.clone(), next);
                } else {
                    assert(self@ =~= old(self)@.insert(proposer.id.key@, old_record));
                }
                old_record
            },
            None => {
                let next = Acceptor {
                    round: RoundNum::default(),
                    last_round: proposer.round,
                    value: None,
                };
                self.storage.insert(proposer.id.key.clone(), next);
                Acceptor::empty()
            },
        }
    }

    /// Serves an accept request and answers with the record as it was
    /// before. An instance that was never prepared is refused.
    pub fn accept(&mut self, proposer: &Proposer) -> (r: Result<Acceptor, PaxosError>)
        ensures
            !old(self)@.contains_key(proposer.id.key@) ==> r == Err::<Acceptor, PaxosError>(
                PaxosError::InstanceNotFound,
            ) && final(self)@ == old(self)@,
            old(self)@.contains_key(proposer.id.key@) ==> r == Ok::<Acceptor, PaxosError>(
                old(self)@[proposer.id.key@],
            ) && final(self)@ == old(self)@.insert(
                proposer.id.key@,
                accepted(old(self)@[proposer.id.key@], proposer.round, proposer.value),
            ),
            old(self)@.contains_key(proposer.id.key@) && round_lt(
                proposer.round,
                old(self)@[proposer.id.key@].last_round,
            ) ==> final(self)@ == old(self)@,
            records_ordered(old(self)@) ==> records_ordered(final(self)@),
    {
        let found = self.record(proposer.id.key.as_str());
        match found {
            Some(old_record) => {
                if !round_less(&proposer.round, &old_record.last_round) {
                    let next = Acceptor {
                        round: proposer.round,
                        last_round: proposer.round,
                        value: proposer.value,
                    };
                    self.storage.insert(proposer.id.key.clone(), next);
                } else {
                    assert(self@ =~= old(self)@.insert(proposer.id.key@, old_record));
                }
                Ok(old_record)
            },
            None => Err(PaxosError::InstanceNotFound),
        }
    }
}

} // verus!
