use base64::engine::general_purpose::STANDARD;
use base64::Engine;
use voting_contract::callback::encode_result;
use voting_contract::contract::{parse_handle, GatewayInstruction, Handle, Task};
use voting_contract::ledger::{
    calculate_future_block_height, ContractError, ProposalInput, VoteInput,
};
use voting_contract::state::{Config, Ledger, Vote};

const HEIGHT: u64 = 12_345;

fn ledger() -> Ledger {
    Ledger::new(Config {
        gateway_address: "gateway".to_string(),
        gateway_hash: "hash".to_string(),
        gateway_key: STANDARD.decode("aGFzaA==").unwrap(),
    })
}

fn proposal(name: &str, description: &str, end_time: &str) -> ProposalInput {
    ProposalInput {
        name: name.to_string(),
        description: description.to_string(),
        end_time: end_time.to_string(),
    }
}

fn ballot(entries: &[(&str, u32)], wallet: &str) -> VoteInput {
    VoteInput {
        votes: entries.iter().map(|(k, m)| (k.to_string(), *m)).collect(),
        wallet_address: wallet.to_string(),
    }
}

fn task() -> Task {
    Task { network: "network".to_string(), task_id: "task_id".to_string() }
}

fn instruction(
    handle: &str,
    proposal_input: Option<ProposalInput>,
    vote_input: Option<VoteInput>,
) -> GatewayInstruction {
    GatewayInstruction {
        handle: handle.to_string(),
        proposal_input,
        vote_input,
        task: task(),
        input_hash: STANDARD.decode("aGFzaA==").unwrap(),
    }
}

#[test]
fn test_create_proposal_and_vote() {
    let mut l = ledger();
    l.create_proposal(HEIGHT, proposal("Test Proposal", "This is a test proposal", "60"))
        .unwrap();

    let p = l.retrieve_proposal(1).unwrap();
    assert_eq!(p.name, "Test Proposal");
    assert_eq!(p.description, "This is a test proposal");
    assert!(p.end_time > HEIGHT);

    l.create_vote(HEIGHT, ballot(&[("1", 5)], "voter1")).unwrap();
    l.create_vote(HEIGHT, ballot(&[("1", 3)], "voter2")).unwrap();

    let votes = l.retrieve_votes(HEIGHT, 1).unwrap();
    assert_eq!(votes.vote_count, 2);
    assert_eq!(votes.total_votes, 8);
    assert!(votes.vote_details.contains(&"Address: voter1, Votes: 5".to_string()));
    assert!(votes.vote_details.contains(&"Address: voter2, Votes: 3".to_string()));
}

#[test]
fn identifiers_are_sequential() {
    let mut l = ledger();
    assert_eq!(l.create_proposal(1, proposal("a", "x", "1")), Ok(1));
    assert_eq!(l.create_proposal(2, proposal("a", "x", "1")), Ok(2));
    assert_eq!(l.create_proposal(3, proposal("zzz", "", "0")), Ok(3));
    assert_eq!(l.max_proposal_key(), 3);
    assert_eq!(l.retrieve_proposal(3).unwrap().name, "zzz");
}

#[test]
fn deadline_is_ten_blocks_per_minute() {
    let mut l = ledger();
    l.create_proposal(1000, proposal("p", "d", "60")).unwrap();
    assert_eq!(l.retrieve_proposal(1).unwrap().end_time, 1600);
    assert_eq!(calculate_future_block_height(100, 1), 110);
    assert_eq!(calculate_future_block_height(0, 0), 0);
    assert_eq!(calculate_future_block_height(7, 5), 57);
}

#[test]
fn end_time_must_be_a_u64_that_fits() {
    let mut l = ledger();
    for bad in ["", "x", "-1", "1.5", "18446744073709551616", "+", "307445734561825861"] {
        assert_eq!(
            l.create_proposal(HEIGHT, proposal("p", "d", bad)),
            Err(ContractError::InvalidInput),
            "{bad}"
        );
    }
    assert_eq!(l.max_proposal_key(), 0);
    assert_eq!(l.create_proposal(5, proposal("p", "d", "+2")), Ok(1));
    assert_eq!(l.retrieve_proposal(1).unwrap().end_time, 25);
}

#[test]
fn retrieve_proposal_message() {
    let mut l = ledger();
    l.create_proposal(0, proposal("n", "d", "1")).unwrap();
    assert_eq!(l.retrieve_proposal(1).unwrap().message, "Retrieved value successfully");
}

#[test]
fn vote_after_deadline_is_rejected() {
    let mut l = ledger();
    l.create_proposal(100, proposal("p", "d", "1")).unwrap();
    assert_eq!(
        l.create_vote(111, ballot(&[("1", 4)], "late")),
        Err(ContractError::VotingClosed)
    );
    assert_eq!(l.retrieve_votes(111, 1).err(), Some(ContractError::NotFound));
    assert!(l.votes.is_empty());

    // The last open block still accepts votes.
    l.create_vote(110, ballot(&[("1", 4)], "on_time")).unwrap();
    assert_eq!(l.retrieve_votes(110, 1).unwrap().vote_count, 1);
}

#[test]
fn tally_message_follows_the_deadline() {
    let mut l = ledger();
    l.create_proposal(100, proposal("p", "d", "1")).unwrap();
    l.create_vote(100, ballot(&[("1", 5)], "a")).unwrap();
    l.create_vote(101, ballot(&[("1", 3)], "b")).unwrap();
    assert_eq!(
        l.retrieve_votes(110, 1).unwrap().message,
        "Voting in progress. Current total votes: 8"
    );
    assert_eq!(l.retrieve_votes(111, 1).unwrap().message, "Voting ended. Total votes: 8");
}

#[test]
fn unknown_proposal_is_not_found() {
    let mut l = ledger();
    l.create_proposal(0, proposal("p", "d", "1")).unwrap();
    assert_eq!(l.create_vote(0, ballot(&[("7", 1)], "w")), Err(ContractError::NotFound));
    assert_eq!(l.retrieve_proposal(7).err(), Some(ContractError::NotFound));
    assert_eq!(l.retrieve_votes(0, 7).err(), Some(ContractError::NotFound));
}

#[test]
fn proposal_without_votes_has_no_tally() {
    let mut l = ledger();
    l.create_proposal(0, proposal("p", "d", "1")).unwrap();
    assert_eq!(l.retrieve_votes(0, 1).err(), Some(ContractError::NotFound));
}

#[test]
fn unparsable_key_is_invalid_input() {
    let mut l = ledger();
    l.create_proposal(0, proposal("p", "d", "1")).unwrap();
    assert_eq!(l.create_vote(0, ballot(&[("one", 1)], "w")), Err(ContractError::InvalidInput));
    assert_eq!(
        l.create_vote(0, ballot(&[("4294967296", 1)], "w")),
        Err(ContractError::InvalidInput)
    );
}

#[test]
fn ballot_is_all_or_nothing() {
    let mut l = ledger();
    l.create_proposal(0, proposal("p", "d", "1")).unwrap();
    assert_eq!(
        l.create_vote(0, ballot(&[("1", 2), ("9", 3)], "w")),
        Err(ContractError::NotFound)
    );
    assert!(l.votes.is_empty());
    // The first faulty entry decides the error.
    assert_eq!(
        l.create_vote(0, ballot(&[("x", 2), ("9", 3)], "w")),
        Err(ContractError::InvalidInput)
    );
}

#[test]
fn one_ballot_votes_on_several_proposals() {
    let mut l = ledger();
    l.create_proposal(0, proposal("a", "d", "1")).unwrap();
    l.create_proposal(0, proposal("b", "d", "1")).unwrap();
    l.create_vote(0, ballot(&[("1", 2), ("2", 7), ("01", 1)], "w")).unwrap();
    let first = l.retrieve_votes(0, 1).unwrap();
    assert_eq!(first.vote_count, 2);
    assert_eq!(first.total_votes, 3);
    assert_eq!(
        first.vote_details,
        vec!["Address: w, Votes: 2".to_string(), "Address: w, Votes: 1".to_string()]
    );
    assert_eq!(l.retrieve_votes(0, 2).unwrap().total_votes, 7);
}

#[test]
fn same_wallet_votes_are_all_kept() {
    let mut l = ledger();
    l.create_proposal(0, proposal("a", "d", "1")).unwrap();
    l.create_vote(0, ballot(&[("1", 1)], "w")).unwrap();
    l.create_vote(0, ballot(&[("1", 1)], "w")).unwrap();
    let t = l.retrieve_votes(0, 1).unwrap();
    assert_eq!(t.vote_count, 2);
    assert_eq!(t.total_votes, 2);
}

#[test]
fn non_numeric_magnitude_counts_zero() {
    let mut l = ledger();
    l.create_proposal(0, proposal("a", "d", "1")).unwrap();
    l.create_vote(0, ballot(&[("1", 4)], "w")).unwrap();
    l.votes.push(Vote { vote: "many".to_string(), wallet_address: "odd".to_string(), index: 1 });
    let t = l.retrieve_votes(0, 1).unwrap();
    assert_eq!(t.vote_count, 2);
    assert_eq!(t.total_votes, 4);
    assert!(t.vote_details.contains(&"Address: odd, Votes: many".to_string()));
}

#[test]
fn repeated_reads_agree() {
    let mut l = ledger();
    l.create_proposal(0, proposal("a", "d", "1")).unwrap();
    l.create_vote(0, ballot(&[("1", 4)], "w")).unwrap();
    let a = l.retrieve_proposal(1).unwrap();
    let b = l.retrieve_proposal(1).unwrap();
    assert_eq!((a.message, a.name, a.description, a.end_time), (b.message, b.name, b.description, b.end_time));
    let x = l.retrieve_votes(3, 1).unwrap();
    let y = l.retrieve_votes(3, 1).unwrap();
    assert_eq!(
        (x.message, x.vote_count, x.vote_details, x.total_votes),
        (y.message, y.vote_count, y.vote_details, y.total_votes)
    );
}

#[test]
fn handles_are_a_closed_set() {
    assert_eq!(parse_handle(&"create_proposal".to_string()), Ok(Handle::CreateProposal));
    assert_eq!(parse_handle(&"create_vote".to_string()), Ok(Handle::CreateVote));
    assert_eq!(parse_handle(&"create_votes".to_string()), Err(ContractError::UnknownHandle));
    assert_eq!(parse_handle(&"".to_string()), Err(ContractError::UnknownHandle));
}

#[test]
fn bad_signature_is_rejected_for_every_handle() {
    let mut l = ledger();
    for handle in ["create_proposal", "create_vote", "other"] {
        let msg = instruction(
            handle,
            Some(proposal("p", "d", "1")),
            Some(ballot(&[("1", 1)], "w")),
        );
        assert_eq!(l.execute(0, false, msg).err(), Some(ContractError::SignatureInvalid));
    }
    assert!(l.proposals.is_empty());
    assert!(l.votes.is_empty());
}

#[test]
fn unknown_handle_is_rejected() {
    let mut l = ledger();
    let msg = instruction("delete", Some(proposal("p", "d", "1")), None);
    assert_eq!(l.execute(0, true, msg).err(), Some(ContractError::UnknownHandle));
}

#[test]
fn undecodable_payload_is_invalid_input() {
    let mut l = ledger();
    let msg = instruction("create_proposal", None, Some(ballot(&[("1", 1)], "w")));
    assert_eq!(l.execute(0, true, msg).err(), Some(ContractError::InvalidInput));
    let msg = instruction("create_vote", Some(proposal("p", "d", "1")), None);
    assert_eq!(l.execute(0, true, msg).err(), Some(ContractError::InvalidInput));
}

#[test]
fn execute_reports_back_to_the_gateway() {
    let mut l = ledger();
    let msg = instruction("create_proposal", Some(proposal("p", "d", "60")), None);
    let cb = l.execute(10, true, msg).unwrap();
    assert_eq!(
        cb.result,
        STANDARD.encode(r#"{"message":"Value store completed successfully"}"#)
    );
    assert_eq!(cb.result, "eyJtZXNzYWdlIjoiVmFsdWUgc3RvcmUgY29tcGxldGVkIHN1Y2Nlc3NmdWxseSJ9");
    assert_eq!(cb.gateway_address, "gateway");
    assert_eq!(cb.gateway_hash, "hash");
    assert_eq!(cb.task.network, "network");
    assert_eq!(cb.task.task_id, "task_id");
    assert_eq!(cb.input_hash, b"hash".to_vec());
    assert_eq!(l.retrieve_proposal(1).unwrap().end_time, 610);

    let msg = instruction("create_vote", None, Some(ballot(&[("1", 5)], "voter1")));
    let cb = l.execute(10, true, msg).unwrap();
    assert_eq!(cb.result, STANDARD.encode(r#"{"message":"Votes stored successfully"}"#));
    assert_eq!(l.retrieve_votes(10, 1).unwrap().total_votes, 5);
}

#[test]
fn result_payload_is_base64_json() {
    assert_eq!(
        encode_result("say \"hi\"").unwrap(),
        STANDARD.encode(r#"{"message":"say \"hi\""}"#)
    );
    assert_eq!(encode_result("").unwrap(), STANDARD.encode(r#"{"message":""}"#));
}
