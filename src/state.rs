//! The ledger's data: configuration, proposals and votes, with their
//! mathematical views.

use vstd::prelude::*;
use crate::decimal::{decimal, parse_unsigned};

verus! {

/// Set once when the module starts; the sole trust anchor.
pub struct Config {
    pub gateway_address: String,
    pub gateway_hash: String,
    pub gateway_key: Vec<u8>,
}

pub struct Proposal {
    pub name: String,
    pub description: String,
    /// Block height after which voting closes.
    pub end_time: u64,
}

pub struct ProposalView {
    pub name: Seq<char>,
    pub description: Seq<char>,
    pub end_time: u64,
}

impl View for Proposal {
    type V = ProposalView;

    open spec fn view(&self) -> ProposalView {
        ProposalView { name: self.name@, description: self.description@, end_time: self.end_time }
    }
}

/// One weighted vote; several from one wallet are all kept.
pub struct Vote {
    /// The magnitude, as decimal text.
    pub vote: String,
    pub wallet_address: String,
    /// The proposal this vote belongs to.
    pub index: u32,
}

pub struct VoteView {
    pub vote: Seq<char>,
    pub wallet_address: Seq<char>,
    pub index: u32,
}

impl View for Vote {
    type V = VoteView;

    open spec fn view(&self) -> VoteView {
        VoteView { vote: self.vote@, wallet_address: self.wallet_address@, index: self.index }
    }
}

/// The stored state: proposals keyed by identifier, in creation order, and
/// every vote, in the order it was recorded.
pub struct Ledger {
    pub config: Config,
    pub proposals: Vec<(u32, Proposal)>,
    pub votes: Vec<Vote>,
}

pub struct LedgerView {
    pub proposals: Seq<(u32, ProposalView)>,
    pub votes: Seq<VoteView>,
}

impl View for Ledger {
    type V = LedgerView;

    open spec fn view(&self) -> LedgerView {
        LedgerView {
            proposals: self.proposals@.map_values(|e: (u32, Proposal)| (e.0, e.1@)),
            votes: self.votes@.map_values(|v: Vote| v@),
        }
    }
}

/// The proposal stored under `key`: the latest entry with that key.
pub open spec fn lookup(ps: Seq<(u32, ProposalView)>, key: u32) -> Option<ProposalView>
    decreases ps.len(),
{
    if ps.len() == 0 {
        None
    } else if ps.last().0 == key {
        Some(ps.last().1)
    } else {
        lookup(ps.drop_last(), key)
    }
}

/// The largest stored key, 0 when there is none.
pub open spec fn max_key(ps: Seq<(u32, ProposalView)>) -> u32
    decreases ps.len(),
{
    if ps.len() == 0 {
        0
    } else {
        let m = max_key(ps.drop_last());
        if ps.last().0 > m {
            ps.last().0
        } else {
            m
        }
    }
}

/// The identifier the next proposal receives.
pub open spec fn next_key(ps: Seq<(u32, ProposalView)>) -> int {
    max_key(ps) + 1
}

/// The votes recorded for proposal `key`, in the order they were recorded.
pub open spec fn votes_for(vs: Seq<VoteView>, key: u32) -> Seq<VoteView>
    decreases vs.len(),
{
    if vs.len() == 0 {
        Seq::empty()
    } else if vs.last().index == key {
        votes_for(vs.drop_last(), key).push(vs.last())
    } else {
        votes_for(vs.drop_last(), key)
    }
}

/// A vote's magnitude as the tally reads it: text that is no `u32` counts 0.
pub open spec fn magnitude(v: VoteView) -> nat {
    match parse_unsigned(v.vote, u32::MAX as nat) {
        Some(n) => n,
        None => 0,
    }
}

pub open spec fn votes_total(vs: Seq<VoteView>) -> nat
    decreases vs.len(),
{
    if vs.len() == 0 {
        0
    } else {
        votes_total(vs.drop_last()) + magnitude(vs.last())
    }
}

/// The text of a vote stored with magnitude `m`.
pub open spec fn vote_text(m: u32) -> Seq<char> {
    decimal(m as nat)
}

pub open spec fn keys_unique(ps: Seq<(u32, ProposalView)>) -> bool {
    forall|i: int, j: int|
        0 <= i < ps.len() && 0 <= j < ps.len() && #[trigger] ps[i].0 == #[trigger] ps[j].0 ==> i
            == j
}

impl LedgerView {
    /// Each identifier names one proposal, and every vote belongs to a
    /// proposal that exists.
    pub open spec fn wf(self) -> bool {
        &&& keys_unique(self.proposals)
        &&& forall|i: int|
            0 <= i < self.votes.len() ==> (#[trigger] lookup(self.proposals, self.votes[i].index)) is Some
    }
}

pub proof fn lemma_keys_le_max(ps: Seq<(u32, ProposalView)>)
    ensures
        forall|i: int| 0 <= i < ps.len() ==> #[trigger] ps[i].0 <= max_key(ps),
    decreases ps.len(),
{
    if ps.len() > 0 {
        lemma_keys_le_max(ps.drop_last());
        assert forall|i: int| 0 <= i < ps.len() implies #[trigger] ps[i].0 <= max_key(ps) by {
            if i < ps.len() - 1 {
                assert(ps[i] == ps.drop_last()[i]);
            }
        }
    }
}

} // verus!
