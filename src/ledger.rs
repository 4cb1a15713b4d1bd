//! The proposal registry and the vote ledger: the state transitions and the
//! read queries.

use vstd::prelude::*;
use crate::decimal::{decimal, decimal_text, parse_u32, parse_u64, parse_unsigned, push_decimal};
use crate::state::{
    lemma_keys_le_max, lookup, magnitude, max_key,
    next_key, vote_text, votes_for, votes_total, Config, Ledger, LedgerView, Proposal,
    ProposalView, Vote, VoteView,
};

verus! {

/// Why an instruction or a query failed. Every failure aborts the whole
/// instruction, with no write kept.
#[derive(Clone, Copy, Debug, PartialEq, Eq, Structural)]
pub enum ContractError {
    SignatureInvalid,
    UnknownHandle,
    InvalidInput,
    NotFound,
    VotingClosed,
    EncodingError,
}

/// The payload of a `create_proposal` instruction.
pub struct ProposalInput {
    pub name: String,
    pub description: String,
    /// Minutes from now until voting closes, as decimal text.
    pub end_time: String,
}

pub struct ProposalInputView {
    pub name: Seq<char>,
    pub description: Seq<char>,
    pub end_time: Seq<char>,
}

impl View for ProposalInput {
    type V = ProposalInputView;

    open spec fn view(&self) -> ProposalInputView {
        ProposalInputView { name: self.name@, description: self.description@, end_time: self.end_time@ }
    }
}

/// The payload of a `create_vote` instruction: a magnitude for each proposal
/// identifier (as text), all cast by one wallet.
pub struct VoteInput {
    pub votes: Vec<(String, u32)>,
    pub wallet_address: String,
}

pub struct VoteInputView {
    pub votes: Seq<(Seq<char>, u32)>,
    pub wallet_address: Seq<char>,
}

impl View for VoteInput {
    type V = VoteInputView;

    open spec fn view(&self) -> VoteInputView {
        VoteInputView {
            votes: self.votes@.map_values(|e: (String, u32)| (e.0@, e.1)),
            wallet_address: self.wallet_address@,
        }
    }
}

pub struct ProposalResponse {
    pub message: String,
    pub name: String,
    pub description: String,
    pub end_time: u64,
}

pub struct ProposalResponseView {
    pub message: Seq<char>,
    pub name: Seq<char>,
    pub description: Seq<char>,
    pub end_time: u64,
}

impl View for ProposalResponse {
    type V = ProposalResponseView;

    open spec fn view(&self) -> ProposalResponseView {
        ProposalResponseView {
            message: self.message@,
            name: self.name@,
            description: self.description@,
            end_time: self.end_time,
        }
    }
}

pub struct VotesResponse {
    pub message: String,
    pub vote_count: usize,
    pub vote_details: Vec<String>,
    /// The sum of the magnitudes, held at `u64::MAX` should it pass it.
    pub total_votes: u64,
}

pub struct VotesResponseView {
    pub message: Seq<char>,
    pub vote_count: nat,
    pub vote_details: Seq<Seq<char>>,
    pub total_votes: u64,
}

impl View for VotesResponse {
    type V = VotesResponseView;

    open spec fn view(&self) -> VotesResponseView {
        VotesResponseView {
            message: self.message@,
            vote_count: self.vote_count as nat,
            vote_details: self.vote_details@.map_values(|s: String| s@),
            total_votes: self.total_votes,
        }
    }
}

/// Blocks are taken to come every six seconds.
pub const AVERAGE_BLOCK_SECONDS: u64 = 6;

/// The block height `minutes` from `height`: whole blocks only.
pub open spec fn future_height(height: u64, minutes: nat) -> int {
    height + (minutes * 60) / (AVERAGE_BLOCK_SECONDS as nat)
}

/// The absolute deadline that an `end_time` text asks for, where it reads as a
/// `u64` and the arithmetic fits in one.
pub open spec fn deadline_of(height: u64, end_time: Seq<char>) -> Option<u64> {
    match parse_unsigned(end_time, u64::MAX as nat) {
        Some(m) => if m * 60 <= u64::MAX && future_height(height, m) <= u64::MAX {
            Some(future_height(height, m) as u64)
        } else {
            None
        },
        None => None,
    }
}

/// Creating a proposal: the new state, or why it fails.
pub open spec fn proposal_step(l: LedgerView, height: u64, p: ProposalInputView) -> Result<
    LedgerView,
    ContractError,
> {
    match deadline_of(height, p.end_time) {
        Some(e) => Ok(
            LedgerView {
                proposals: l.proposals.push(
                    (
                        next_key(l.proposals) as u32,
                        ProposalView { name: p.name, description: p.description, end_time: e },
                    ),
                ),
                votes: l.votes,
            },
        ),
        None => Err(ContractError::InvalidInput),
    }
}

/// What is wrong with one entry of a ballot, if anything.
pub open spec fn entry_error(ps: Seq<(u32, ProposalView)>, height: u64, key: Seq<char>) -> Option<
    ContractError,
> {
    match parse_unsigned(key, u32::MAX as nat) {
        None => Some(ContractError::InvalidInput),
        Some(k) => match lookup(ps, k as u32) {
            None => Some(ContractError::NotFound),
            Some(p) => if height > p.end_time {
                Some(ContractError::VotingClosed)
            } else {
                None
            },
        },
    }
}

/// The error of the first faulty entry among `keys`.
pub open spec fn first_entry_error(
    ps: Seq<(u32, ProposalView)>,
    height: u64,
    keys: Seq<Seq<char>>,
) -> Option<ContractError>
    decreases keys.len(),
{
    if keys.len() == 0 {
        None
    } else {
        match first_entry_error(ps, height, keys.drop_last()) {
            Some(e) => Some(e),
            None => entry_error(ps, height, keys.last()),
        }
    }
}

pub open spec fn ballot_keys(v: VoteInputView) -> Seq<Seq<char>> {
    v.votes.map_values(|e: (Seq<char>, u32)| e.0)
}

/// The votes that a valid ballot appends, one per entry, in its order.
pub open spec fn ballot_votes(v: VoteInputView) -> Seq<VoteView> {
    Seq::new(
        v.votes.len(),
        |j: int|
            VoteView {
                vote: vote_text(v.votes[j].1),
                wallet_address: v.wallet_address,
                index: parse_unsigned(v.votes[j].0, u32::MAX as nat)->Some_0 as u32,
            },
    )
}

/// Recording a ballot: all of it, or nothing and the first entry's fault.
pub open spec fn vote_step(l: LedgerView, height: u64, v: VoteInputView) -> Result<
    LedgerView,
    ContractError,
> {
    match first_entry_error(l.proposals, height, ballot_keys(v)) {
        Some(e) => Err(e),
        None => Ok(LedgerView { proposals: l.proposals, votes: l.votes + ballot_votes(v) }),
    }
}

pub open spec fn proposal_query(l: LedgerView, key: u32) -> Result<
    ProposalResponseView,
    ContractError,
> {
    match lookup(l.proposals, key) {
        None => Err(ContractError::NotFound),
        Some(p) => Ok(
            ProposalResponseView {
                message: "Retrieved value successfully"@,
                name: p.name,
                description: p.description,
                end_time: p.end_time,
            },
        ),
    }
}

/// The line that describes one vote.
pub open spec fn detail_line(v: VoteView) -> Seq<char> {
    "Address: "@ + v.wallet_address + ", Votes: "@ + v.vote
}

pub open spec fn saturate(n: nat) -> u64 {
    if n <= u64::MAX {
        n as u64
    } else {
        u64::MAX
    }
}

pub open spec fn tally_message(height: u64, end_time: u64, total: u64) -> Seq<char> {
    if height > end_time {
        "Voting ended. Total votes: "@ + decimal(total as nat)
    } else {
        "Voting in progress. Current total votes: "@ + decimal(total as nat)
    }
}

pub open spec fn votes_query(l: LedgerView, height: u64, key: u32) -> Result<
    VotesResponseView,
    ContractError,
> {
    let vs = votes_for(l.votes, key);
    if vs.len() == 0 {
        Err(ContractError::NotFound)
    } else {
        match lookup(l.proposals, key) {
            None => Err(ContractError::NotFound),
            Some(p) => Ok(
                VotesResponseView {
                    message: tally_message(height, p.end_time, saturate(votes_total(vs))),
                    vote_count: vs.len(),
                    vote_details: vs.map_values(|v: VoteView| detail_line(v)),
                    total_votes: saturate(votes_total(vs)),
                },
            ),
        }
    }
}

/// Once some prefix of a ballot has a fault, the whole ballot has that fault.
proof fn lemma_first_error_prefix(
    ps: Seq<(u32, ProposalView)>,
    height: u64,
    keys: Seq<Seq<char>>,
    j: int,
)
    requires
        0 <= j <= keys.len(),
        first_entry_error(ps, height, keys.subrange(0, j)) is Some,
    ensures
        first_entry_error(ps, height, keys) == first_entry_error(ps, height, keys.subrange(0, j)),
    decreases keys.len(),
{
    if j == keys.len() {
        assert(keys.subrange(0, j) =~= keys);
    } else {
        assert(keys.drop_last().subrange(0, j) =~= keys.subrange(0, j));
        lemma_first_error_prefix(ps, height, keys.drop_last(), j);
    }
}

/// The block height `minutes_into_future` minutes after `current_block_height`.
pub fn calculate_future_block_height(current_block_height: u64, minutes_into_future: u64) -> (r:
    u64)
    requires
        minutes_into_future * 60 <= u64::MAX,
        future_height(current_block_height, minutes_into_future as nat) <= u64::MAX,
    ensures
        r == future_height(current_block_height, minutes_into_future as nat),
{
    let seconds_into_future = minutes_into_future * 60;
    let blocks_to_be_added = seconds_into_future / AVERAGE_BLOCK_SECONDS;
    current_block_height + blocks_to_be_added
}

impl Ledger {
    /// A ledger with no proposal and no vote.
    pub fn new(config: Config) -> (r: Ledger)
        ensures
            r.config == config,
            r@.proposals.len() == 0,
            r@.votes.len() == 0,
            r@.wf(),
    {
        Ledger { config, proposals: Vec::new(), votes: Vec::new() }
    }

    /// The largest proposal identifier in use, 0 when there is none.
    pub fn max_proposal_key(&self) -> (r: u32)
        ensures
            r == max_key(self@.proposals),
    {
        let mut m: u32 = 0;
        let mut i: usize = 0;
        while i < self.proposals.len()
            invariant
                i <= self.proposals.len(),
                m == max_key(self@.proposals.subrange(0, i as int)),
            decreases self.proposals.len() - i,
        {
            let k = self.proposals[i].0;
            proof {
                assert(self@.proposals.subrange(0, i + 1).drop_last() =~= self@.proposals.subrange(
                    0,
                    i as int,
                ));
            }
            if k > m {
                m = k;
            }
            i = i + 1;
        }
        proof {
            assert(self@.proposals.subrange(0, i as int) =~= self@.proposals);
        }
        m
    }

    /// The position of the proposal stored under `key`.
    fn find_proposal(&self, key: u32) -> (r: Option<usize>)
        ensures
            r is None ==> lookup(self@.proposals, key) is None,
            r matches Some(i) ==> i < self.proposals.len() && lookup(self@.proposals, key) == Some(
                self@.proposals[i as int].1,
            ),
    {
        let mut i: usize = self.proposals.len();
        proof {
            assert(self@.proposals.subrange(0, i as int) =~= self@.proposals);
        }
        while i > 0
            invariant
                i <= self.proposals.len(),
                lookup(self@.proposals.subrange(0, i as int), key) == lookup(self@.proposals, key),
            decreases i,
        {
            let ghost pre = self@.proposals.subrange(0, i as int);
            proof {
                assert(pre.drop_last() =~= self@.proposals.subrange(0, i - 1));
                assert(pre.last() == self@.proposals[i - 1]);
            }
            if self.proposals[i - 1].0 == key {
                return Some(i - 1);
            }
            i = i - 1;
        }
        None
    }

    /// Registers a proposal under the next identifier, with a deadline
    /// `end_time` minutes of blocks from `height`, and returns the identifier.
    pub fn create_proposal(&mut self, height: u64, input: ProposalInput) -> (r: Result<
        u32,
        ContractError,
    >)
        requires
            max_key(old(self)@.proposals) < u32::MAX,
        ensures
            final(self).config == old(self).config,
            match proposal_step(old(self)@, height, input@) {
                Ok(l) => r == Ok::<u32, ContractError>(next_key(old(self)@.proposals) as u32)
                    && final(self)@ == l,
                Err(e) => r == Err::<u32, ContractError>(e) && final(self)@ == old(self)@,
            },
            old(self)@.wf() ==> final(self)@.wf(),
    {
        let minutes = match parse_u64(input.end_time.as_str()) {
            Some(m) => m,
            None => {
                return Err(ContractError::InvalidInput);
            },
        };
        if minutes > u64::MAX / 60 {
            return Err(ContractError::InvalidInput);
        }
        if (minutes * 60) / AVERAGE_BLOCK_SECONDS > u64::MAX - height {
            return Err(ContractError::InvalidInput);
        }
        let end_time = calculate_future_block_height(height, minutes);
        let key = self.max_proposal_key() + 1;
        let ghost old_view = self@;
        let proposal = Proposal { name: input.name, description: input.description, end_time };
        self.proposals.push((key, proposal));
        proof {
            assert(self@.proposals =~= old_view.proposals.push(
                (key, ProposalView { name: input@.name, description: input@.description, end_time }),
            ));
            assert(self@.votes =~= old_view.votes);
            if old_view.wf() {
                lemma_keys_le_max(old_view.proposals);
                let ps = self@.proposals;
                assert(ps.drop_last() =~= old_view.proposals);
                assert forall|i: int, j: int|
                    0 <= i < ps.len() && 0 <= j < ps.len() && #[trigger] ps[i].0
                        == #[trigger] ps[j].0 implies i == j by {
                    if i < ps.len() - 1 {
                        assert(ps[i] == old_view.proposals[i]);
                    }
                    if j < ps.len() - 1 {
                        assert(ps[j] == old_view.proposals[j]);
                    }
                }
                assert forall|i: int| 0 <= i < self@.votes.len() implies (#[trigger] lookup(
                    ps,
                    self@.votes[i].index,
                )) is Some by {
                    assert(lookup(old_view.proposals, old_view.votes[i].index) is Some);
                }
            }
        }
        Ok(key)
    }

    /// Records one vote per ballot entry, all cast by the ballot's wallet, or
    /// none at all when some entry names no proposal or a closed one.
    pub fn create_vote(&mut self, height: u64, input: VoteInput) -> (r: Result<(), ContractError>)
        ensures
            final(self).config == old(self).config,
            match vote_step(old(self)@, height, input@) {
                Ok(l) => r == Ok::<(), ContractError>(()) && final(self)@ == l,
                Err(e) => r == Err::<(), ContractError>(e) && final(self)@ == old(self)@,
            },
            old(self)@.wf() ==> final(self)@.wf(),
    {
        let n = input.votes.len();
        let ghost bk = ballot_keys(input@);
        let ghost ps = self@.proposals;
        let mut keys: Vec<u32> = Vec::new();
        let mut i: usize = 0;
        assert(bk.subrange(0, 0) =~= Seq::<Seq<char>>::empty());
        while i < n
            invariant
                i <= n,
                n == input.votes.len(),
                bk == ballot_keys(input@),
                bk.len() == n,
                ps == self@.proposals,
                first_entry_error(ps, height, bk.subrange(0, i as int)) is None,
                keys@.len() == i,
                forall|j: int|
                    0 <= j < i ==> parse_unsigned(#[trigger] bk[j], u32::MAX as nat) == Some(
                        keys@[j] as nat,
                    ),
                forall|j: int| 0 <= j < i ==> (#[trigger] lookup(ps, keys@[j])) is Some,
            decreases n - i,
        {
            let ghost pre = bk.subrange(0, i + 1);
            proof {
                assert(pre.drop_last() =~= bk.subrange(0, i as int));
                assert(pre.last() == bk[i as int]);
                assert(bk[i as int] == input.votes@[i as int].0@);
            }
            let key = match parse_u32(input.votes[i].0.as_str()) {
                Some(k) => k,
                None => {
                    proof {
                        lemma_first_error_prefix(ps, height, bk, i + 1);
                    }
                    return Err(ContractError::InvalidInput);
                },
            };
            match self.find_proposal(key) {
                None => {
                    proof {
                        lemma_first_error_prefix(ps, height, bk, i + 1);
                    }
                    return Err(ContractError::NotFound);
                },
                Some(pi) => {
                    if height > self.proposals[pi].1.end_time {
                        proof {
                            lemma_first_error_prefix(ps, height, bk, i + 1);
                        }
                        return Err(ContractError::VotingClosed);
                    }
                },
            }
            keys.push(key);
            i = i + 1;
        }
        proof {
            assert(bk.subrange(0, n as int) =~= bk);
        }
        let ghost old_view = self@;
        let ghost old_config = self.config;
        let ghost added = ballot_votes(input@);
        let mut j: usize = 0;
        while j < n
            invariant
                j <= n,
                n == input.votes.len(),
                keys@.len() == n,
                bk == ballot_keys(input@),
                added == ballot_votes(input@),
                forall|k: int|
                    0 <= k < n ==> parse_unsigned(#[trigger] bk[k], u32::MAX as nat) == Some(
                        keys@[k] as nat,
                    ),
                self.config == old_config,
                self@.proposals == old_view.proposals,
                self@.votes =~= old_view.votes + added.subrange(0, j as int),
            decreases n - j,
        {
            let vote = Vote {
                vote: decimal_text(input.votes[j].1 as u64),
                wallet_address: input.wallet_address.clone(),
                index: keys[j],
            };
            proof {
                assert(bk[j as int] == input.votes@[j as int].0@);
                assert(vote@ == added[j as int]);
            }
            let ghost vv = vote@;
            let ghost prev = self@.votes;
            self.votes.push(vote);
            proof {
                assert(self@.votes =~= prev.push(vv));
                assert(added.subrange(0, j + 1) =~= added.subrange(0, j as int).push(added[j as int]));
            }
            j = j + 1;
        }
        proof {
            assert(added.subrange(0, n as int) =~= added);
            if old_view.wf() {
                let vs = self@.votes;
                assert forall|k: int| 0 <= k < vs.len() implies (#[trigger] lookup(
                    self@.proposals,
                    vs[k].index,
                )) is Some by {
                    if k < old_view.votes.len() {
                        assert(vs[k] == old_view.votes[k]);
                    } else {
                        let t = k - old_view.votes.len();
                        assert(vs[k] == added[t]);
                        assert(parse_unsigned(bk[t], u32::MAX as nat) == Some(keys@[t] as nat));
                        assert(lookup(ps, keys@[t]) is Some);
                    }
                }
            }
        }
        Ok(())
    }

    /// The proposal stored under `key`.
    pub fn retrieve_proposal(&self, key: u32) -> (r: Result<ProposalResponse, ContractError>)
        ensures
            match r {
                Ok(resp) => proposal_query(self@, key) == Ok::<
                    ProposalResponseView,
                    ContractError,
                >(resp@),
                Err(e) => proposal_query(self@, key) == Err::<ProposalResponseView, ContractError>(
                    e,
                ),
            },
    {
        match self.find_proposal(key) {
            None => Err(ContractError::NotFound),
            Some(i) => {
                let p = &self.proposals[i].1;
                Ok(
                    ProposalResponse {
                        message: String::from_str("Retrieved value successfully"),
                        name: p.name.clone(),
                        description: p.description.clone(),
                        end_time: p.end_time,
                    },
                )
            },
        }
    }

    /// The tally of the votes recorded for proposal `key`, read at block
    /// `height`.
    pub fn retrieve_votes(&self, height: u64, key: u32) -> (r: Result<VotesResponse, ContractError>)
        ensures
            match r {
                Ok(resp) => votes_query(self@, height, key) == Ok::<
                    VotesResponseView,
                    ContractError,
                >(resp@),
                Err(e) => votes_query(self@, height, key) == Err::<VotesResponseView, ContractError>(
                    e,
                ),
            },
    {
        let ghost vs = self@.votes;
        let mut count: usize = 0;
        let mut total: u64 = 0;
        let mut details: Vec<String> = Vec::new();
        let mut i: usize = 0;
        assert(vs.subrange(0, 0) =~= Seq::<VoteView>::empty());
        assert(details@.map_values(|s: String| s@) =~= Seq::<Seq<char>>::empty());
        while i < self.votes.len()
            invariant
                i <= self.votes.len(),
                vs == self@.votes,
                count <= i,
                count == votes_for(vs.subrange(0, i as int), key).len(),
                total == saturate(votes_total(votes_for(vs.subrange(0, i as int), key))),
                details@.map_values(|s: String| s@) == votes_for(
                    vs.subrange(0, i as int),
                    key,
                ).map_values(|v: VoteView| detail_line(v)),
            decreases self.votes.len() - i,
        {
            let v = &self.votes[i];
            let ghost pre = vs.subrange(0, i + 1);
            let ghost before = votes_for(vs.subrange(0, i as int), key);
            proof {
                assert(pre.drop_last() =~= vs.subrange(0, i as int));
                assert(pre.last() == v@);
            }
            if v.index == key {
                let mut line = String::from_str("Address: ");
                line.append(v.wallet_address.as_str());
                line.append(", Votes: ");
                line.append(v.vote.as_str());
                proof {
                    assert(line@ == detail_line(v@));
                    assert(details@.push(line).map_values(|s: String| s@) =~= details@.map_values(
                        |s: String| s@,
                    ).push(line@));
                    assert(before.push(v@).map_values(|w: VoteView| detail_line(w)) =~= before.map_values(
                        |w: VoteView| detail_line(w),
                    ).push(detail_line(v@)));
                    assert(before.push(v@).drop_last() =~= before);
                }
                details.push(line);
                let m: u64 = match parse_u32(v.vote.as_str()) {
                    Some(x) => x as u64,
                    None => 0,
                };
                assert(m == magnitude(v@));
                if total > u64::MAX - m {
                    total = u64::MAX;
                } else {
                    total = total + m;
                }
                count = count + 1;
            }
            i = i + 1;
        }
        proof {
            assert(vs.subrange(0, i as int) =~= vs);
        }
        if count == 0 {
            return Err(ContractError::NotFound);
        }
        match self.find_proposal(key) {
            None => Err(ContractError::NotFound),
            Some(pi) => {
                let end_time = self.proposals[pi].1.end_time;
                let mut message = if height > end_time {
                    String::from_str("Voting ended. Total votes: ")
                } else {
                    String::from_str("Voting in progress. Current total votes: ")
                };
                push_decimal(&mut message, total);
                Ok(
                    VotesResponse {
                        message,
                        vote_count: count,
                        vote_details: details,
                        total_votes: total,
                    },
                )
            },
        }
    }
}

} // verus!
