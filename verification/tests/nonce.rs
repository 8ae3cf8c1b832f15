use world_id_deployer::ethers_utils::check_receipt;
use world_id_deployer::ethers_utils::judge;
use world_id_deployer::ethers_utils::Submission;
use world_id_deployer::ethers_utils::Call;
use world_id_deployer::ethers_utils::Transaction;
use world_id_deployer::ethers_utils::TransactionBuilder;
use world_id_deployer::ethers_utils::TransactionRequest;
use world_id_deployer::error::ConfigIssue;
use world_id_deployer::error::DeployError;
use world_id_deployer::nonce::NonceSequencer;
use world_id_deployer::types::Address;

#[test]
fn nonces_are_contiguous_from_the_seed() {
    let mut sequencer = NonceSequencer::new(41);

    let issued: Vec<u64> = (0..5).map(|_| sequencer.next_nonce()).collect();

    assert_eq!(issued, vec![41, 42, 43, 44, 45]);
    assert_eq!(sequencer.peek(), 46);
}

#[test]
fn nonces_are_never_issued_twice() {
    let mut sequencer = NonceSequencer::new(0);

    let mut issued: Vec<u64> = (0..100).map(|_| sequencer.next_nonce()).collect();
    issued.sort();
    issued.dedup();

    assert_eq!(issued.len(), 100);
    assert_eq!(issued[0], 0);
    assert_eq!(issued[99], 99);
}

#[test]
fn nonce_counter_wraps_at_the_top() {
    let mut sequencer = NonceSequencer::new(u64::MAX);

    assert_eq!(sequencer.next_nonce(), u64::MAX);
    assert_eq!(sequencer.next_nonce(), 0);
    assert_eq!(sequencer.next_nonce(), 1);
}

#[test]
fn peek_does_not_issue() {
    let mut sequencer = NonceSequencer::new(7);

    assert_eq!(sequencer.peek(), 7);
    assert_eq!(sequencer.peek(), 7);
    assert_eq!(sequencer.next_nonce(), 7);
}

#[test]
fn transactions_take_their_nonce_when_sent() {
    let mut sequencer = NonceSequencer::new(10);
    let to = Address([1; 20]);
    let call = Call::DisableGroup { group_id: 3 };

    let first = Transaction { to, call }.send(&mut sequencer);
    let second = Transaction { to, call }.send(&mut sequencer);

    assert_eq!(first, TransactionRequest { to, call, nonce: 10 });
    assert_eq!(second, TransactionRequest { to, call, nonce: 11 });
}

#[test]
fn builder_needs_all_parts() {
    let to = Address([2; 20]);
    let call = Call::AddGroup { target: Address([3; 20]) };
    let incomplete = Err(DeployError::Config(ConfigIssue::IncompleteRequest));

    assert_eq!(TransactionBuilder::new().build(), incomplete);
    assert_eq!(TransactionBuilder::new().to(to).build(), incomplete);
    assert_eq!(TransactionBuilder::new().args(call).build(), incomplete);
    assert_eq!(
        TransactionBuilder::new().args(call).to(to).build(),
        Ok(Transaction { to, call })
    );
}

#[test]
fn receipt_must_report_success() {
    assert_eq!(check_receipt(Some(1)), Ok(()));
    assert_eq!(check_receipt(Some(0)), Err(DeployError::TransactionFailed));
    assert_eq!(check_receipt(Some(2)), Err(DeployError::TransactionFailed));
    assert_eq!(check_receipt(None), Err(DeployError::TransactionFailed));
}

#[test]
fn submissions_without_receipt_are_chain_errors() {
    assert_eq!(judge(Submission::NotSent), Err(DeployError::ChainError));
    assert_eq!(judge(Submission::NoReceipt), Err(DeployError::ChainError));
    assert_eq!(judge(Submission::Receipt(Some(1))), Ok(()));
    assert_eq!(judge(Submission::Receipt(Some(0))), Err(DeployError::TransactionFailed));
    assert_eq!(judge(Submission::Receipt(None)), Err(DeployError::TransactionFailed));
}
