//! Authenticated instructions from the gateway: the signature gate, dispatch
//! by handle, and the callback that reports the result.

use vstd::prelude::*;
use crate::callback::{callback_result, encode_result};
use crate::ledger::{
    proposal_step, vote_step, ContractError, ProposalInput, ProposalInputView, VoteInput,
    VoteInputView,
};
use crate::state::{max_key, Ledger, LedgerView};

verus! {

/// The state transitions an instruction can ask for.
#[derive(Clone, Copy, Debug, PartialEq, Eq, Structural)]
pub enum Handle {
    CreateProposal,
    CreateVote,
}

pub open spec fn handle_of(tag: Seq<char>) -> Result<Handle, ContractError> {
    if tag == "create_proposal"@ {
        Ok(Handle::CreateProposal)
    } else if tag == "create_vote"@ {
        Ok(Handle::CreateVote)
    } else {
        Err(ContractError::UnknownHandle)
    }
}

/// The handle that a tag names; no other tag is accepted.
pub fn parse_handle(tag: &String) -> (r: Result<Handle, ContractError>)
    ensures
        r == handle_of(tag@),
{
    let create_proposal = String::from_str("create_proposal");
    let create_vote = String::from_str("create_vote");
    if tag.eq(&create_proposal) {
        Ok(Handle::CreateProposal)
    } else if tag.eq(&create_vote) {
        Ok(Handle::CreateVote)
    } else {
        Err(ContractError::UnknownHandle)
    }
}

/// The gateway's correlation token, echoed back in the callback.
pub struct Task {
    pub network: String,
    pub task_id: String,
}

/// An instruction relayed by the gateway. Its JSON input is carried already
/// decoded as each kind of payload: `None` where it is not that payload.
pub struct GatewayInstruction {
    pub handle: String,
    pub proposal_input: Option<ProposalInput>,
    pub vote_input: Option<VoteInput>,
    pub task: Task,
    pub input_hash: Vec<u8>,
}

pub struct GatewayInstructionView {
    pub handle: Seq<char>,
    pub proposal_input: Option<ProposalInputView>,
    pub vote_input: Option<VoteInputView>,
}

impl View for GatewayInstruction {
    type V = GatewayInstructionView;

    open spec fn view(&self) -> GatewayInstructionView {
        GatewayInstructionView {
            handle: self.handle@,
            proposal_input: match self.proposal_input {
                Some(p) => Some(p@),
                None => None,
            },
            vote_input: match self.vote_input {
                Some(v) => Some(v@),
                None => None,
            },
        }
    }
}

/// The message sent back to the gateway after a successful instruction.
pub struct Callback {
    pub gateway_address: String,
    pub gateway_hash: String,
    pub result: String,
    pub task: Task,
    pub input_hash: Vec<u8>,
}

pub open spec fn proposal_stored_message() -> Seq<char> {
    "Value store completed successfully"@
}

pub open spec fn votes_stored_message() -> Seq<char> {
    "Votes stored successfully"@
}

/// An instruction's effect: the new state and the message to report, or why it
/// fails.
pub open spec fn execute_step(
    l: LedgerView,
    height: u64,
    signature_valid: bool,
    msg: GatewayInstructionView,
) -> Result<(LedgerView, Seq<char>), ContractError> {
    if !signature_valid {
        Err(ContractError::SignatureInvalid)
    } else {
        match handle_of(msg.handle) {
            Err(e) => Err(e),
            Ok(Handle::CreateProposal) => match msg.proposal_input {
                None => Err(ContractError::InvalidInput),
                Some(p) => match proposal_step(l, height, p) {
                    Ok(next) => Ok((next, proposal_stored_message())),
                    Err(e) => Err(e),
                },
            },
            Ok(Handle::CreateVote) => match msg.vote_input {
                None => Err(ContractError::InvalidInput),
                Some(v) => match vote_step(l, height, v) {
                    Ok(next) => Ok((next, votes_stored_message())),
                    Err(e) => Err(e),
                },
            },
        }
    }
}

impl Ledger {
    /// Applies an instruction whose signature check against the gateway key
    /// gave `signature_valid`, at block `height`, and builds the callback.
    pub fn execute(&mut self, height: u64, signature_valid: bool, msg: GatewayInstruction) -> (r:
        Result<Callback, ContractError>)
        requires
            max_key(old(self)@.proposals) < u32::MAX,
        ensures
            final(self).config == old(self).config,
            match execute_step(old(self)@, height, signature_valid, msg@) {
                Err(e) => r == Err::<Callback, ContractError>(e) && final(self)@ == old(self)@,
                Ok((next, m)) => final(self)@ == next && r is Ok && r->Ok_0.result@
                    == callback_result(m) && r->Ok_0.task == msg.task && r->Ok_0.input_hash
                    == msg.input_hash && r->Ok_0.gateway_address@
                    == old(self).config.gateway_address@ && r->Ok_0.gateway_hash@
                    == old(self).config.gateway_hash@,
            },
            old(self)@.wf() ==> final(self)@.wf(),
    {
        if !signature_valid {
            return Err(ContractError::SignatureInvalid);
        }
        let handle = match parse_handle(&msg.handle) {
            Ok(h) => h,
            Err(e) => {
                return Err(e);
            },
        };
        let message = match handle {
            Handle::CreateProposal => match msg.proposal_input {
                None => {
                    return Err(ContractError::InvalidInput);
                },
                Some(p) => match self.create_proposal(height, p) {
                    Ok(_) => "Value store completed successfully",
                    Err(e) => {
                        return Err(e);
                    },
                },
            },
            Handle::CreateVote => match msg.vote_input {
                None => {
                    return Err(ContractError::InvalidInput);
                },
                Some(v) => match self.create_vote(height, v) {
                    Ok(_) => "Votes stored successfully",
                    Err(e) => {
                        return Err(e);
                    },
                },
            },
        };
        let result = match encode_result(message) {
            Ok(t) => t,
            Err(e) => {
                return Err(e);
            },
        };
        Ok(
            Callback {
                gateway_address: self.config.gateway_address.clone(),
                gateway_hash: self.config.gateway_hash.clone(),
                result,
                task: msg.task,
                input_hash: msg.input_hash,
            },
        )
    }
}

} // verus!
