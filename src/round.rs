//! Round arbitration: the order of rounds, the size of a quorum, the value
//! adoption rule of phase one and the quorum count of phase two.
use core::cmp::Ordering;
use crate::paxos::{Acceptor, PaxosError, RoundNum, Value};
use vstd::prelude::*;

verus! {

/// Whether round `a` comes before round `b`: by number, then by proposer.
pub open spec fn round_lt(a: RoundNum, b: RoundNum) -> bool {
    a.number < b.number || (a.number == b.number && a.proposer_id < b.proposer_id)
}

/// Whether round `a` comes before round `b` or is the same round.
pub open spec fn round_le(a: RoundNum, b: RoundNum) -> bool {
    round_lt(a, b) || a == b
}

/// Whether round `a` comes strictly before round `b`.
pub fn round_less(a: &RoundNum, b: &RoundNum) -> (r: bool)
    ensures
        r == round_lt(*a, *b),
{
    a.number < b.number || (a.number == b.number && a.proposer_id < b.proposer_id)
}

/// How `a` stands to `b` in the order of rounds.
pub open spec fn round_order(a: RoundNum, b: RoundNum) -> Ordering {
    if round_lt(a, b) {
        Ordering::Less
    } else if a == b {
        Ordering::Equal
    } else {
        Ordering::Greater
    }
}

/// Compares two rounds by number, then by proposer.
pub fn compare_rounds(a: &RoundNum, b: &RoundNum) -> (r: Ordering)
    ensures
        r == round_order(*a, *b),
{
    if round_less(a, b) {
        Ordering::Less
    } else if *a == *b {
        Ordering::Equal
    } else {
        Ordering::Greater
    }
}

/// The smallest majority of `n` acceptors.
pub open spec fn majority(n: int) -> int {
    n / 2 + 1
}

/// The number of acceptors that make a quorum among `n`: `floor(n / 2) + 1`.
pub fn quorum_size(n: usize) -> (r: usize)
    ensures
        r == majority(n as int),
        2 * r > n,
        2 * (r - 1) <= n,
{
    n / 2 + 1
}

/// The replies of the calls that succeeded, in order; `None` stands for a
/// call that failed.
pub open spec fn successes(outcomes: Seq<Option<Acceptor>>) -> Seq<Acceptor>
    decreases outcomes.len(),
{
    if outcomes.len() == 0 {
        Seq::empty()
    } else {
        match outcomes[0] {
            Some(a) => seq![a] + successes(outcomes.skip(1)),
            None => successes(outcomes.skip(1)),
        }
    }
}

/// The replies of the calls that succeeded, in order.
pub fn successful_replies(outcomes: &Vec<Option<Acceptor>>) -> (r: Vec<Acceptor>)
    ensures
        r@ == successes(outcomes@),
{
    let mut out: Vec<Acceptor> = Vec::new();
    let mut i: usize = 0;
    assert(outcomes@.skip(0) =~= outcomes@);
    while i < outcomes.len()
        invariant
            0 <= i <= outcomes.len(),
            successes(outcomes@) == out@ + successes(outcomes@.skip(i as int)),
        decreases outcomes.len() - i,
    {
        assert(outcomes@.skip(i as int).skip(1) =~= outcomes@.skip(i + 1));
        assert(outcomes@.skip(i as int)[0] == outcomes@[i as int]);
        if let Some(a) = outcomes[i] {
            assert(out@ + (seq![a] + successes(outcomes@.skip(i + 1))) =~= out@.push(a)
                + successes(outcomes@.skip(i + 1)));
            out.push(a);
        }
        i += 1;
    }
    assert(outcomes@.skip(i as int).len() == 0);
    assert(out@ + Seq::<Acceptor>::empty() =~= out@);
    out
}

/// The replies of the calls that succeeded, provided they are a quorum of
/// the `targets` acceptors addressed.
pub fn gather_quorum(targets: usize, outcomes: &Vec<Option<Acceptor>>) -> (r: Result<
    Vec<Acceptor>,
    PaxosError,
>)
    ensures
        successes(outcomes@).len() >= majority(targets as int) ==> (r matches Ok(v) && v@
            == successes(outcomes@)),
        successes(outcomes@).len() < majority(targets as int) ==> r == Err::<
            Vec<Acceptor>,
            PaxosError,
        >(PaxosError::QuorumNotReached),
{
    let replies = successful_replies(outcomes);
    if replies.len() >= quorum_size(targets) {
        Ok(replies)
    } else {
        Err(PaxosError::QuorumNotReached)
    }
}

/// The reason a single phase-one reply forbids going on in `round`, if any:
/// the acceptor promised a later round, or promised exactly this round
/// while its value was written in an earlier one.
pub open spec fn reply_fault(round: RoundNum, reply: Acceptor) -> Option<PaxosError> {
    if round_lt(round, reply.last_round) {
        Some(PaxosError::RoundSuperseded)
    } else if reply.last_round == round && round_lt(reply.round, round) {
        Some(PaxosError::RoundAcceptedMismatch)
    } else {
        None
    }
}

/// The fault of the first faulty reply, if any.
pub open spec fn first_fault(round: RoundNum, replies: Seq<Acceptor>) -> Option<PaxosError>
    decreases replies.len(),
{
    if replies.len() == 0 {
        None
    } else {
        match reply_fault(round, replies[0]) {
            Some(e) => Some(e),
            None => first_fault(round, replies.skip(1)),
        }
    }
}

/// Of the leader so far and `reply`, the one with the later promised round;
/// the later `reply` wins a tie, and leads when there is none so far.
pub open spec fn higher_promise(best: Option<Acceptor>, reply: Acceptor) -> Option<Acceptor> {
    match best {
        Some(b) => if round_le(b.last_round, reply.last_round) {
            Some(reply)
        } else {
            best
        },
        None => Some(reply),
    }
}

/// The reply with the latest promised round (the last of them on a tie),
/// `best` if none is later; `None` only when there are no replies and no
/// leader so far.
pub open spec fn leading(replies: Seq<Acceptor>, best: Option<Acceptor>) -> Option<Acceptor>
    decreases replies.len(),
{
    if replies.len() == 0 {
        best
    } else {
        leading(replies.skip(1), higher_promise(best, replies[0]))
    }
}

/// Of `found` and `reply`, the one holding a value that was accepted in the
/// later round; the later `reply` wins a tie.
pub open spec fn later_accepted(found: Option<Acceptor>, reply: Acceptor) -> Option<Acceptor> {
    if reply.value is None {
        found
    } else {
        match found {
            Some(f) => if round_le(f.round, reply.round) {
                Some(reply)
            } else {
                found
            },
            None => Some(reply),
        }
    }
}

/// Among the replies that hold a value, the one accepted in the latest
/// round (the last of them on a tie), `found` if none is later.
pub open spec fn latest_accepted(replies: Seq<Acceptor>, found: Option<Acceptor>) -> Option<
    Acceptor,
>
    decreases replies.len(),
{
    if replies.len() == 0 {
        found
    } else {
        latest_accepted(replies.skip(1), later_accepted(found, replies[0]))
    }
}

/// Whether `leader` is a reply that was promised and accepted in `round`.
pub open spec fn leads_in_round(round: RoundNum, leader: Option<Acceptor>) -> bool {
    match leader {
        Some(l) => l.last_round == round && l.round == round,
        None => false,
    }
}

/// The value a proposer carries into phase two: the leading reply's value
/// (present or not) when that reply was promised and accepted in `round`;
/// else the value accepted in the latest round among the replies; else the
/// proposer's own.
pub open spec fn adopted_value(
    round: RoundNum,
    own: Option<Value>,
    leader: Option<Acceptor>,
    latest: Option<Acceptor>,
) -> Option<Value> {
    if leads_in_round(round, leader) {
        leader.unwrap().value
    } else {
        match latest {
            Some(a) => a.value,
            None => own,
        }
    }
}

/// The outcome of phase one in `round` for a proposer holding `own`, given
/// the acceptors' replies in the order they were examined.
pub open spec fn phase1_outcome(round: RoundNum, own: Option<Value>, replies: Seq<Acceptor>) -> Result<
    Option<Value>,
    PaxosError,
> {
    match first_fault(round, replies) {
        Some(e) => Err(e),
        None => Ok(
            adopted_value(
                round,
                own,
                leading(replies, None),
                latest_accepted(replies, None),
            ),
        ),
    }
}

/// Applies the value adoption rule to the phase-one replies.
pub fn choose_value(round: RoundNum, own: Option<Value>, replies: &Vec<Acceptor>) -> (r: Result<
    Option<Value>,
    PaxosError,
>)
    ensures
        r == phase1_outcome(round, own, replies@),
{
    let mut best: Option<Acceptor> = None;
    let mut found: Option<Acceptor> = None;
    let mut i: usize = 0;
    assert(replies@.skip(0) =~= replies@);
    while i < replies.len()
        invariant
            0 <= i <= replies.len(),
            first_fault(round, replies@) == first_fault(round, replies@.skip(i as int)),
            leading(replies@, None) == leading(replies@.skip(i as int), best),
            latest_accepted(replies@, None) == latest_accepted(replies@.skip(i as int), found),
        decreases replies.len() - i,
    {
        let reply = replies[i];
        assert(replies@.skip(i as int).skip(1) =~= replies@.skip(i + 1));
        assert(replies@.skip(i as int)[0] == reply);
        if round_less(&round, &reply.last_round) {
            return Err(PaxosError::RoundSuperseded);
        }
        if reply.last_round == round && round_less(&reply.round, &round) {
            return Err(PaxosError::RoundAcceptedMismatch);
        }
        match best {
            Some(b) => {
                if !round_less(&reply.last_round, &b.last_round) {
                    best = Some(reply);
                }
            },
            None => {
                best = Some(reply);
            },
        }
        if reply.value.is_some() {
            match found {
                Some(f) => {
                    if !round_less(&reply.round, &f.round) {
                        found = Some(reply);
                    }
                },
                None => {
                    found = Some(reply);
                },
            }
        }
        i += 1;
    }
    match best {
        Some(b) => {
            if b.last_round == round && b.round == round {
                return Ok(b.value);
            }
        },
        None => {},
    }
    match found {
        Some(a) => Ok(a.value),
        None => Ok(own),
    }
}

/// Whether a phase-two reply honoured the accept request of `round`: the
/// acceptor had promised no later round before it.
pub open spec fn honours(round: RoundNum, reply: Acceptor) -> bool {
    round_le(reply.last_round, round)
}

/// How many of the phase-two replies honoured the accept request of `round`.
pub open spec fn honouring_count(round: RoundNum, replies: Seq<Acceptor>) -> nat
    decreases replies.len(),
{
    if replies.len() == 0 {
        0
    } else {
        (if honours(round, replies[0]) {
            1nat
        } else {
            0nat
        }) + honouring_count(round, replies.skip(1))
    }
}

/// Whether phase two in `round` succeeded against `targets` acceptors.
pub open spec fn reached_quorum(round: RoundNum, targets: nat, replies: Seq<Acceptor>) -> bool {
    honouring_count(round, replies) >= majority(targets as int)
}

/// Counts the replies that honoured the accept request of `round` and
/// decides whether they make a quorum of the `targets` acceptors addressed.
pub fn check_quorum(round: RoundNum, targets: usize, replies: &Vec<Acceptor>) -> (r: Result<
    (),
    PaxosError,
>)
    ensures
        r is Ok <==> reached_quorum(round, targets as nat, replies@),
        r is Err ==> r == Err::<(), PaxosError>(PaxosError::QuorumNotReached),
{
    let quorum = quorum_size(targets);
    let mut count: usize = 0;
    let mut i: usize = 0;
    assert(replies@.skip(0) =~= replies@);
    while i < replies.len()
        invariant
            0 <= i <= replies.len(),
            count <= i,
            count < quorum,
            quorum == majority(targets as int),
            honouring_count(round, replies@) == count + honouring_count(
                round,
                replies@.skip(i as int),
            ),
        decreases replies.len() - i,
    {
        assert(replies@.skip(i as int).skip(1) =~= replies@.skip(i + 1));
        assert(replies@.skip(i as int)[0] == replies@[i as int]);
        if !round_less(&round, &replies[i].last_round) {
            assert(honouring_count(round, replies@.skip(i as int)) == 1 + honouring_count(
                round,
                replies@.skip(i + 1),
            ));
            count += 1;
            if count >= quorum {
                return Ok(());
            }
        }
        i += 1;
    }
    Err(PaxosError::QuorumNotReached)
}

} // verus!
