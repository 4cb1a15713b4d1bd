//! Properties of the ledger that relate several operations or hold of every
//! state.

use vstd::prelude::*;
use crate::contract::{execute_step, GatewayInstructionView};
use crate::decimal::{digit_value, digits_value, lemma_decimal_round_trip, parse_unsigned};
use crate::ledger::{
    ballot_keys, ballot_votes, deadline_of, entry_error, first_entry_error, proposal_query, proposal_step,
    vote_step, votes_query, ContractError, ProposalInputView, VoteInputView,
};
use crate::state::{lookup, max_key, next_key, votes_for, votes_total, LedgerView, ProposalView};

verus! {

/// The proposals carry the identifiers 1, 2, ..., n in creation order.
pub open spec fn keys_sequential(ps: Seq<(u32, ProposalView)>) -> bool {
    forall|i: int| 0 <= i < ps.len() ==> #[trigger] ps[i].0 == i + 1
}

proof fn lemma_max_of_sequential(ps: Seq<(u32, ProposalView)>)
    requires
        keys_sequential(ps),
    ensures
        max_key(ps) == ps.len(),
    decreases ps.len(),
{
    if ps.len() > 0 {
        let t = ps.drop_last();
        assert forall|i: int| 0 <= i < t.len() implies #[trigger] t[i].0 == i + 1 by {
            assert(t[i] == ps[i]);
        }
        lemma_max_of_sequential(t);
        assert(ps[ps.len() - 1].0 == ps.len());
    }
}

/// Identifiers are assigned one after another: when the proposals carry
/// 1..n, the next one created, whatever its name and description, gets n + 1,
/// and the proposals then carry 1..n + 1. An empty registry carries 1..0.
pub proof fn lemma_sequential_ids(l: LedgerView, height: u64, p: ProposalInputView)
    requires
        keys_sequential(l.proposals),
        l.proposals.len() < u32::MAX,
    ensures
        next_key(l.proposals) == l.proposals.len() + 1,
        proposal_step(l, height, p) matches Ok(next) ==> keys_sequential(next.proposals)
            && next.proposals.len() == l.proposals.len() + 1,
{
    lemma_max_of_sequential(l.proposals);
    if let Ok(next) = proposal_step(l, height, p) {
        let ps = next.proposals;
        assert forall|i: int| 0 <= i < ps.len() implies #[trigger] ps[i].0 == i + 1 by {
            if i < l.proposals.len() {
                assert(ps[i] == l.proposals[i]);
            }
        }
    }
}

/// A proposal open for 60 minutes closes 600 blocks after the height at which
/// it was created.
pub proof fn lemma_hour_deadline(height: u64)
    requires
        height + 600 <= u64::MAX,
    ensures
        deadline_of(height, "60"@) == Some((height + 600) as u64),
{
    reveal_strlit("60");
    let s = "60"@;
    assert(s.drop_last() =~= seq!['6']);
    assert(seq!['6'].drop_last() =~= Seq::<char>::empty());
    assert(digits_value(Seq::<char>::empty()) == 0);
    assert(digit_value('6') == 6);
    assert(digit_value('0') == 0);
    assert(digits_value(seq!['6']) == 6);
    assert(digits_value(s) == 60);
    assert(parse_unsigned(s, u64::MAX as nat) == Some(60nat));
}

proof fn lemma_first_error_closed(
    ps: Seq<(u32, ProposalView)>,
    height: u64,
    keys: Seq<Seq<char>>,
)
    requires
        forall|j: int|
            0 <= j < keys.len() ==> #[trigger] entry_error(ps, height, keys[j]) is None
                || entry_error(ps, height, keys[j]) == Some(ContractError::VotingClosed),
    ensures
        first_entry_error(ps, height, keys) is None <==> forall|j: int|
            0 <= j < keys.len() ==> #[trigger] entry_error(ps, height, keys[j]) is None,
        first_entry_error(ps, height, keys) is Some ==> first_entry_error(ps, height, keys)
            == Some(ContractError::VotingClosed),
    decreases keys.len(),
{
    if keys.len() > 0 {
        let t = keys.drop_last();
        assert forall|j: int| 0 <= j < t.len() implies #[trigger] entry_error(ps, height, t[j]) is None
            || entry_error(ps, height, t[j]) == Some(ContractError::VotingClosed) by {
            assert(t[j] == keys[j]);
        }
        lemma_first_error_closed(ps, height, t);
        if first_entry_error(ps, height, keys) is None {
            assert forall|j: int| 0 <= j < keys.len() implies #[trigger] entry_error(
                ps,
                height,
                keys[j],
            ) is None by {
                if j < t.len() {
                    assert(t[j] == keys[j]);
                }
            }
        }
        if forall|j: int| 0 <= j < keys.len() ==> #[trigger] entry_error(ps, height, keys[j]) is None {
            assert forall|j: int| 0 <= j < t.len() implies #[trigger] entry_error(ps, height, t[j])
                is None by {
                assert(t[j] == keys[j]);
            }
            assert(entry_error(ps, height, keys[keys.len() - 1]) is None);
        }
    }
}

/// A ballot whose entries all name existing proposals, one of them past its
/// deadline at `height`, is refused with `VotingClosed`: no vote of it is
/// recorded.
pub proof fn lemma_late_vote_rejected(l: LedgerView, height: u64, v: VoteInputView, late: int)
    requires
        forall|j: int|
            0 <= j < v.votes.len() ==> #[trigger] parse_unsigned(v.votes[j].0, u32::MAX as nat)
                is Some && lookup(
                l.proposals,
                parse_unsigned(v.votes[j].0, u32::MAX as nat)->Some_0 as u32,
            ) is Some,
        0 <= late < v.votes.len(),
        height > lookup(
            l.proposals,
            parse_unsigned(v.votes[late].0, u32::MAX as nat)->Some_0 as u32,
        )->Some_0.end_time,
    ensures
        vote_step(l, height, v) == Err::<LedgerView, ContractError>(ContractError::VotingClosed),
{
    let keys = ballot_keys(v);
    assert forall|j: int| 0 <= j < keys.len() implies #[trigger] entry_error(
        l.proposals,
        height,
        keys[j],
    ) is None || entry_error(l.proposals, height, keys[j]) == Some(ContractError::VotingClosed) by {
        assert(keys[j] == v.votes[j].0);
        assert(parse_unsigned(v.votes[j].0, u32::MAX as nat) is Some);
    }
    lemma_first_error_closed(l.proposals, height, keys);
    assert(keys[late] == v.votes[late].0);
    assert(parse_unsigned(v.votes[late].0, u32::MAX as nat) is Some);
    assert(entry_error(l.proposals, height, keys[late]) is Some);
}

/// A proposal identifier with no proposal behind it: querying it, or voting on
/// it alone, fails with `NotFound`.
pub proof fn lemma_unknown_proposal(l: LedgerView, height: u64, key: u32, v: VoteInputView)
    requires
        lookup(l.proposals, key) is None,
    ensures
        proposal_query(l, key) is Err && proposal_query(l, key)->Err_0 == ContractError::NotFound,
        votes_query(l, height, key) is Err && votes_query(l, height, key)->Err_0
            == ContractError::NotFound,
        v.votes.len() == 1 && parse_unsigned(v.votes[0].0, u32::MAX as nat) == Some(key as nat)
            ==> vote_step(l, height, v) == Err::<LedgerView, ContractError>(
            ContractError::NotFound,
        ),
{
    if v.votes.len() == 1 && parse_unsigned(v.votes[0].0, u32::MAX as nat) == Some(key as nat) {
        let keys = ballot_keys(v);
        assert(keys.drop_last() =~= Seq::<Seq<char>>::empty());
        assert(keys.last() == v.votes[0].0);
        assert(first_entry_error(l.proposals, height, keys.drop_last()) is None);
        assert(entry_error(l.proposals, height, keys.last()) == Some(ContractError::NotFound));
    }
}

/// Votes accumulate: once a one-entry ballot is recorded, the votes of its
/// proposal are those from before followed by the new one, which names the
/// ballot's wallet and magnitude, and their total has grown by that magnitude.
pub proof fn lemma_vote_accumulates(l: LedgerView, height: u64, v: VoteInputView, next: LedgerView)
    requires
        v.votes.len() == 1,
        vote_step(l, height, v) == Ok::<LedgerView, ContractError>(next),
    ensures
        ballot_votes(v)[0].wallet_address == v.wallet_address,
        votes_for(next.votes, ballot_votes(v)[0].index) == votes_for(
            l.votes,
            ballot_votes(v)[0].index,
        ).push(ballot_votes(v)[0]),
        votes_total(votes_for(next.votes, ballot_votes(v)[0].index)) == votes_total(
            votes_for(l.votes, ballot_votes(v)[0].index),
        ) + v.votes[0].1,
{
    let x = ballot_votes(v)[0];
    let k = x.index;
    assert(ballot_votes(v) =~= seq![x]);
    assert(next.votes =~= l.votes.push(x));
    assert(next.votes.drop_last() =~= l.votes);
    let before = votes_for(l.votes, k);
    assert(before.push(x).drop_last() =~= before);
    lemma_decimal_round_trip(v.votes[0].1 as nat, u32::MAX as nat);
}

/// No instruction whose signature fails against the gateway key does
/// anything, whatever its handle and payload.
pub proof fn lemma_signature_gate(l: LedgerView, height: u64, msg: GatewayInstructionView)
    ensures
        execute_step(l, height, false, msg) == Err::<(LedgerView, Seq<char>), ContractError>(
            ContractError::SignatureInvalid,
        ),
{
}

/// Reads depend on the state, the key and the height alone, and change
/// nothing: repeated with no write between them, they answer the same.
pub proof fn lemma_reads_repeatable(first: LedgerView, second: LedgerView, height: u64, key: u32)
    requires
        first == second,
    ensures
        proposal_query(first, key) == proposal_query(second, key),
        votes_query(first, height, key) == votes_query(second, height, key),
{
}

} // verus!
