//! Agreement among proposal attempts that run one after another, each to
//! completion, against every acceptor of a cluster.
use crate::paxos::{zero_round, Acceptor, PaxosError, RoundNum, Value};
use crate::round::{
    first_fault, higher_promise, honouring_count, honours, later_accepted, latest_accepted,
    leading, majority, phase1_outcome, reached_quorum, reply_fault, round_le, round_lt,
};
use crate::server::{prepare_reply, serve, Call};
use vstd::prelude::*;

verus! {

/// The records of one key across a cluster after every acceptor serves `call`.
pub open spec fn serve_each(recs: Seq<Option<Acceptor>>, call: Call) -> Seq<Option<Acceptor>> {
    recs.map_values(|r: Option<Acceptor>| serve(r, call))
}

/// What each acceptor answers in this state: its record before the call.
pub open spec fn replies_of(recs: Seq<Option<Acceptor>>) -> Seq<Acceptor> {
    recs.map_values(|r: Option<Acceptor>| prepare_reply(r))
}

/// One attempt in `round` by a proposer holding `own`, addressing every
/// acceptor in both phases with no call failing: the records afterwards,
/// and what the attempt returns.
pub open spec fn full_attempt(recs: Seq<Option<Acceptor>>, round: RoundNum, own: Option<Value>) -> (
    Seq<Option<Acceptor>>,
    Result<Option<Value>, PaxosError>,
) {
    let prepared = serve_each(recs, Call::Prepare { round, value: own });
    match phase1_outcome(round, own, replies_of(recs)) {
        Err(e) => (prepared, Err(e)),
        Ok(v) => (
            serve_each(prepared, Call::Accept { round, value: v }),
            if reached_quorum(round, recs.len(), replies_of(prepared)) {
                Ok(v)
            } else {
                Err(PaxosError::QuorumNotReached)
            },
        ),
    }
}

/// The records of `n` acceptors that have seen nothing.
pub open spec fn empty_cluster(n: nat) -> Seq<Option<Acceptor>> {
    Seq::new(n, |i: int| None)
}

/// The records of `n` acceptors after the `attempts` (round and value of
/// each) ran in order.
pub open spec fn cluster_after(n: nat, attempts: Seq<(RoundNum, Value)>) -> Seq<Option<Acceptor>>
    decreases attempts.len(),
{
    if attempts.len() == 0 {
        empty_cluster(n)
    } else {
        full_attempt(
            cluster_after(n, attempts.drop_last()),
            attempts.last().0,
            Some(attempts.last().1),
        ).0
    }
}

/// What attempt `k` returned.
pub open spec fn attempt_result(n: nat, attempts: Seq<(RoundNum, Value)>, k: int) -> Result<
    Option<Value>,
    PaxosError,
> {
    full_attempt(cluster_after(n, attempts.take(k)), attempts[k].0, Some(attempts[k].1)).1
}

proof fn lemma_const_scan(
    round: RoundNum,
    s: Seq<Acceptor>,
    a: Acceptor,
    best: Option<Acceptor>,
    found: Option<Acceptor>,
)
    requires
        s.len() >= 1,
        forall|i: int| 0 <= i < s.len() ==> #[trigger] s[i] == a,
    ensures
        first_fault(round, s) == reply_fault(round, a),
        leading(s, best) == higher_promise(best, a),
        latest_accepted(s, found) == later_accepted(found, a),
    decreases s.len(),
{
    if s.len() > 1 {
        let rest = s.skip(1);
        assert(forall|i: int| 0 <= i < rest.len() ==> #[trigger] rest[i] == s[i + 1]);
        assert(s[0] == a);
        lemma_const_scan(round, rest, a, higher_promise(best, a), later_accepted(found, a));
        assert(higher_promise(higher_promise(best, a), a) == higher_promise(best, a));
        assert(later_accepted(later_accepted(found, a), a) == later_accepted(found, a));
        assert(leading(s, best) == leading(rest, higher_promise(best, a)));
        assert(latest_accepted(s, found) == latest_accepted(rest, later_accepted(found, a)));
    } else {
        let rest = s.skip(1);
        assert(rest.len() == 0);
        assert(s[0] == a);
        assert(first_fault(round, rest) is None);
        assert(leading(rest, higher_promise(best, a)) == higher_promise(best, a));
        assert(leading(s, best) == leading(rest, higher_promise(best, a)));
        assert(latest_accepted(rest, later_accepted(found, a)) == later_accepted(found, a));
        assert(latest_accepted(s, found) == latest_accepted(rest, later_accepted(found, a)));
    }
}

proof fn lemma_all_honour(round: RoundNum, s: Seq<Acceptor>)
    requires
        forall|i: int| 0 <= i < s.len() ==> honours(round, #[trigger] s[i]),
    ensures
        honouring_count(round, s) == s.len(),
    decreases s.len(),
{
    if s.len() > 0 {
        let rest = s.skip(1);
        assert(forall|i: int| 0 <= i < rest.len() ==> #[trigger] rest[i] == s[i + 1]);
        assert(honours(round, s[0]));
        lemma_all_honour(round, rest);
    }
}

/// An attempt on a cluster whose records all equal `r0`: every record after
/// it equals `next`, and what it returns is stated below.
proof fn lemma_attempt_on_constant(
    recs: Seq<Option<Acceptor>>,
    r0: Option<Acceptor>,
    round: RoundNum,
    own: Value,
) -> (next: Option<Acceptor>)
    requires
        recs.len() >= 1,
        forall|i: int| 0 <= i < recs.len() ==> #[trigger] recs[i] == r0,
        round_lt(zero_round(), round),
        r0 matches Some(a) ==> a.round == a.last_round && a.value is Some,
    ensures
        forall|i: int| 0 <= i < recs.len() ==> #[trigger] full_attempt(recs, round, Some(own)).0[i]
            == next,
        full_attempt(recs, round, Some(own)).0.len() == recs.len(),
        next is Some,
        next.unwrap().round == next.unwrap().last_round,
        next.unwrap().value is Some,
        r0 is None ==> full_attempt(recs, round, Some(own)).1 == Ok::<Option<Value>, PaxosError>(
            Some(own),
        ) && next == Some(Acceptor { round: round, last_round: round, value: Some(own) }),
        r0 matches Some(a) ==> (full_attempt(recs, round, Some(own)).1 is Err && next == r0) || (
        full_attempt(recs, round, Some(own)).1 == Ok::<Option<Value>, PaxosError>(a.value)
            && next.unwrap().value == a.value),
{
    let ownv = Some(own);
    let reps = replies_of(recs);
    let rep = prepare_reply(r0);
    assert(forall|i: int| 0 <= i < reps.len() ==> #[trigger] reps[i] == rep);
    lemma_const_scan(round, reps, rep, None, None);
    let prepared = serve_each(recs, Call::Prepare { round, value: ownv });
    let p0 = serve(r0, Call::Prepare { round, value: ownv });
    assert(forall|i: int| 0 <= i < prepared.len() ==> #[trigger] prepared[i] == p0);
    match phase1_outcome(round, ownv, reps) {
        Err(e) => {
            p0
        },
        Ok(v) => {
            let after = serve_each(prepared, Call::Accept { round, value: v });
            let acks = replies_of(prepared);
            assert(forall|i: int| 0 <= i < acks.len() ==> #[trigger] acks[i] == prepare_reply(p0));
            assert(forall|i: int| 0 <= i < acks.len() ==> honours(round, #[trigger] acks[i]));
            lemma_all_honour(round, acks);
            assert(majority(recs.len() as int) <= recs.len());
            let n0 = serve(p0, Call::Accept { round, value: v });
            assert(forall|i: int| 0 <= i < after.len() ==> #[trigger] after[i] == n0);
            n0
        },
    }
}

proof fn lemma_cluster_settled(n: nat, attempts: Seq<(RoundNum, Value)>, k: int) -> (a: Acceptor)
    requires
        n >= 1,
        1 <= k <= attempts.len(),
        forall|m: int| 0 <= m < attempts.len() ==> round_lt(zero_round(), #[trigger] attempts[m].0),
    ensures
        cluster_after(n, attempts.take(k)).len() == n,
        forall|i: int| 0 <= i < n ==> #[trigger] cluster_after(n, attempts.take(k))[i] == Some(a),
        a.round == a.last_round,
        a.value == Some(attempts[0].1),
        attempt_result(n, attempts, 0) == Ok::<Option<Value>, PaxosError>(Some(attempts[0].1)),
        k < attempts.len() ==> attempt_result(n, attempts, k) is Err || attempt_result(n, attempts, k)
            == Ok::<Option<Value>, PaxosError>(Some(attempts[0].1)),
    decreases k,
{
    let first = attempts.take(1);
    assert(first.drop_last() =~= attempts.take(0));
    assert(attempts.take(0) =~= Seq::<(RoundNum, Value)>::empty());
    let empty = empty_cluster(n);
    assert(forall|i: int| 0 <= i < empty.len() ==> #[trigger] empty[i] == None::<Acceptor>);
    let r1 = lemma_attempt_on_constant(empty, None, attempts[0].0, attempts[0].1);
    let a: Acceptor;
    if k == 1 {
        a = r1.unwrap();
    } else {
        let prev = lemma_cluster_settled(n, attempts, k - 1);
        assert(attempts.take(k).drop_last() =~= attempts.take(k - 1));
        let recs = cluster_after(n, attempts.take(k - 1));
        let next = lemma_attempt_on_constant(recs, Some(prev), attempts[k - 1].0, attempts[k - 1].1);
        a = next.unwrap();
    }
    if k < attempts.len() {
        let recs = cluster_after(n, attempts.take(k));
        lemma_attempt_on_constant(recs, Some(a), attempts[k].0, attempts[k].1);
    }
    a
}

/// Agreement among attempts for one key that run one after another against
/// the same `n >= 1` acceptors, starting empty, each addressing every
/// acceptor in both phases with no call failing, each with a value of its
/// own and a round after the zero round: any two that succeed return the
/// same value, the value of the first attempt.
pub proof fn lemma_sequential_agreement(
    n: nat,
    attempts: Seq<(RoundNum, Value)>,
    i: int,
    j: int,
)
    requires
        n >= 1,
        0 <= i < j < attempts.len(),
        forall|m: int| 0 <= m < attempts.len() ==> round_lt(zero_round(), #[trigger] attempts[m].0),
        attempt_result(n, attempts, i) is Ok,
        attempt_result(n, attempts, j) is Ok,
    ensures
        attempt_result(n, attempts, i) == attempt_result(n, attempts, j),
        attempt_result(n, attempts, j) == Ok::<Option<Value>, PaxosError>(Some(attempts[0].1)),
{
    lemma_cluster_settled(n, attempts, j);
    if i > 0 {
        lemma_cluster_settled(n, attempts, i);
    }
}

} // verus!
