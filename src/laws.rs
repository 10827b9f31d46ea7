//! Properties of the protocol that relate several calls.
use crate::paxos::{Acceptor, PaxosError, RoundNum, Value};
use crate::round::{
    higher_promise, honours, later_accepted, latest_accepted, leading, phase1_outcome,
    reached_quorum, round_le,
};
use crate::server::{
    accepted, call_value, lowers_promise, prepare_reply, promised, serve, serve_all, Call,
};
use vstd::prelude::*;

verus! {

/// Whether `v` is absent or one of the `proposed` values.
pub open spec fn from_proposals(v: Option<Value>, proposed: Set<Value>) -> bool {
    match v {
        Some(x) => proposed.contains(x),
        None => true,
    }
}

proof fn lemma_serve_keeps_promise(rec: Option<Acceptor>, call: Call)
    requires
        !lowers_promise(rec, call),
    ensures
        round_le(promised(rec), promised(serve(rec, call))),
{
}

/// The promised round that an acceptor reports for a key never goes down
/// over a run of calls, as long as no call in it is a prepare that lowers
/// the promise (a first prepare in a negative round, or one whose round lies
/// strictly between the recorded accepted and promised rounds). The round
/// numbers reported therefore never go down either.
pub proof fn lemma_promise_monotonic(start: Option<Acceptor>, calls: Seq<Call>, i: int, j: int)
    requires
        0 <= i <= j <= calls.len(),
        forall|k: int|
            0 <= k < calls.len() ==> !lowers_promise(
                serve_all(start, calls.take(k)),
                #[trigger] calls[k],
            ),
    ensures
        round_le(promised(serve_all(start, calls.take(i))), promised(serve_all(start, calls.take(j)))),
        promised(serve_all(start, calls.take(i))).number <= promised(
            serve_all(start, calls.take(j)),
        ).number,
    decreases j - i,
{
    if i < j {
        lemma_promise_monotonic(start, calls, i, j - 1);
        assert(calls.take(j).drop_last() =~= calls.take(j - 1));
        assert(calls.take(j).last() == calls[j - 1]);
        lemma_serve_keeps_promise(serve_all(start, calls.take(j - 1)), calls[j - 1]);
    }
}

/// An acceptor stores, and so replies with, only values that some request
/// carried: when every call carries a proposed value or none, every record
/// along the run holds a proposed value or none.
pub proof fn lemma_stored_values_proposed(
    start: Option<Acceptor>,
    calls: Seq<Call>,
    proposed: Set<Value>,
)
    requires
        from_proposals(prepare_reply(start).value, proposed),
        forall|k: int| 0 <= k < calls.len() ==> from_proposals(call_value(#[trigger] calls[k]), proposed),
    ensures
        from_proposals(prepare_reply(serve_all(start, calls)).value, proposed),
    decreases calls.len(),
{
    if calls.len() > 0 {
        let rest = calls.drop_last();
        assert forall|k: int| 0 <= k < rest.len() implies from_proposals(
            call_value(#[trigger] rest[k]),
            proposed,
        ) by {
            assert(rest[k] == calls[k]);
        }
        lemma_stored_values_proposed(start, rest, proposed);
        assert(from_proposals(call_value(calls[calls.len() - 1]), proposed));
    }
}

proof fn lemma_leading_proposed(
    replies: Seq<Acceptor>,
    best: Option<Acceptor>,
    proposed: Set<Value>,
)
    requires
        best matches Some(b) ==> from_proposals(b.value, proposed),
        forall|i: int| 0 <= i < replies.len() ==> from_proposals(#[trigger] replies[i].value, proposed),
    ensures
        leading(replies, best) matches Some(l) ==> from_proposals(l.value, proposed),
    decreases replies.len(),
{
    if replies.len() > 0 {
        let rest = replies.skip(1);
        assert forall|i: int| 0 <= i < rest.len() implies from_proposals(
            #[trigger] rest[i].value,
            proposed,
        ) by {
            assert(rest[i] == replies[i + 1]);
        }
        assert(from_proposals(replies[0].value, proposed));
        lemma_leading_proposed(rest, higher_promise(best, replies[0]), proposed);
    }
}

proof fn lemma_latest_proposed(
    replies: Seq<Acceptor>,
    found: Option<Acceptor>,
    proposed: Set<Value>,
)
    requires
        found matches Some(f) ==> from_proposals(f.value, proposed),
        forall|i: int| 0 <= i < replies.len() ==> from_proposals(#[trigger] replies[i].value, proposed),
    ensures
        latest_accepted(replies, found) matches Some(a) ==> from_proposals(a.value, proposed),
    decreases replies.len(),
{
    if replies.len() > 0 {
        let rest = replies.skip(1);
        assert forall|i: int| 0 <= i < rest.len() implies from_proposals(
            #[trigger] rest[i].value,
            proposed,
        ) by {
            assert(rest[i] == replies[i + 1]);
        }
        assert(from_proposals(replies[0].value, proposed));
        lemma_latest_proposed(rest, later_accepted(found, replies[0]), proposed);
    }
}

/// A proposer carries out of phase one either its own value or one that an
/// acceptor replied with: when both are proposed values (or none), so is
/// the value it goes on with, and so the value a successful round returns.
pub proof fn lemma_carried_value_proposed(
    round: RoundNum,
    own: Option<Value>,
    replies: Seq<Acceptor>,
    proposed: Set<Value>,
)
    requires
        from_proposals(own, proposed),
        forall|i: int| 0 <= i < replies.len() ==> from_proposals(#[trigger] replies[i].value, proposed),
    ensures
        phase1_outcome(round, own, replies) matches Ok(v) ==> from_proposals(v, proposed),
{
    lemma_leading_proposed(replies, None, proposed);
    lemma_latest_proposed(replies, None, proposed);
}

/// The outcome of one proposal attempt in `round` by a proposer holding
/// `own`: phase one on `prepared`, the prepare replies; then, with the value
/// it carries, phase two on `acks`, the accept replies of `targets`
/// acceptors.
pub open spec fn attempt_outcome(
    round: RoundNum,
    own: Option<Value>,
    prepared: Seq<Acceptor>,
    targets: nat,
    acks: Seq<Acceptor>,
) -> Result<Option<Value>, PaxosError> {
    match phase1_outcome(round, own, prepared) {
        Ok(v) => if reached_quorum(round, targets, acks) {
            Ok(v)
        } else {
            Err(PaxosError::QuorumNotReached)
        },
        Err(e) => Err(e),
    }
}

/// No fabricated values. Take acceptors that started empty and have each
/// served a run of calls carrying only proposed values (or none), and a
/// proposer whose own value is proposed (or none) and that read its
/// phase-one replies from them. Then the value it sends in phase two, and
/// the value the attempt returns on success, is a proposed value or none;
/// so every later call again carries only proposed values.
pub proof fn lemma_attempt_value_proposed(
    round: RoundNum,
    own: Option<Value>,
    runs: Seq<Seq<Call>>,
    prepared: Seq<Acceptor>,
    targets: nat,
    acks: Seq<Acceptor>,
    proposed: Set<Value>,
)
    requires
        from_proposals(own, proposed),
        prepared.len() == runs.len(),
        forall|i: int, k: int|
            0 <= i < runs.len() && 0 <= k < runs[i].len() ==> from_proposals(
                call_value(#[trigger] runs[i][k]),
                proposed,
            ),
        forall|i: int|
            0 <= i < prepared.len() ==> #[trigger] prepared[i] == prepare_reply(
                serve_all(None, runs[i]),
            ),
    ensures
        phase1_outcome(round, own, prepared) matches Ok(v) ==> from_proposals(v, proposed),
        attempt_outcome(round, own, prepared, targets, acks) matches Ok(v) ==> from_proposals(
            v,
            proposed,
        ),
{
    assert forall|i: int| 0 <= i < prepared.len() implies from_proposals(
        #[trigger] prepared[i].value,
        proposed,
    ) by {
        let calls = runs[i];
        assert forall|k: int| 0 <= k < calls.len() implies from_proposals(
            call_value(#[trigger] calls[k]),
            proposed,
        ) by {
            assert(calls[k] == runs[i][k]);
        }
        lemma_stored_values_proposed(None, calls, proposed);
    }
    lemma_carried_value_proposed(round, own, prepared, proposed);
}

/// A reply to an accept request counts toward the quorum exactly when the
/// acceptor stored the request's round and value: phase two succeeds only
/// when a majority of the addressed acceptors took them.
pub proof fn lemma_honoured_means_stored(old: Acceptor, round: RoundNum, value: Option<Value>)
    ensures
        honours(round, old) <==> accepted(old, round, value) == (Acceptor {
            round: round,
            last_round: round,
            value: value,
        }),
{
}

} // verus!
