use swarm_voting::api::{ApiError, VotingApi, VotingQuery, VOTING_NOT_FOUND};
use swarm_voting::crypto::{Digest, PublicKey, HASH_SIZE, PUBLIC_KEY_LENGTH};
use swarm_voting::schema::{
    SwarmSchema, VOTINGS_TABLE, VOTINGS_TABLE_INDEX, VOTING_HISTORY_TABLE,
};
use swarm_voting::service::{ServiceFactory, VotingService, SERVICE_ID, SERVICE_NAME};
use swarm_voting::transactions::{CreateVoting, Error, Vote, VotingTransactions};
use swarm_voting::voting::{Voting, VotingAction, INITIAL_AMOUNT};

fn key(n: u8) -> PublicKey {
    PublicKey::new([n; 32])
}

fn wide_key(n: u16) -> PublicKey {
    let mut bytes = [0u8; 32];
    bytes[0] = (n & 0xff) as u8;
    bytes[1] = (n >> 8) as u8;
    bytes[31] = 0xee;
    PublicKey::new(bytes)
}

fn digest(n: u8) -> Digest {
    Digest::new([n; 32])
}

fn opened(schema: &mut SwarmSchema, subject: u8, drone: u8, tx: u8, root: u8) {
    let create = CreateVoting::new(&key(subject), &key(drone));
    assert_eq!(create.execute(schema, &digest(tx), &digest(root)), Ok(()));
}

fn same_record(a: &Voting, b: &Voting) -> bool {
    a == b
}

#[test]
fn keys_compare_by_bytes() {
    assert_eq!(key(1), PublicKey::new([1; 32]));
    assert_ne!(key(1), key(2));
    let mut bytes = [7u8; 32];
    bytes[31] = 8;
    assert_ne!(PublicKey::new(bytes), key(7));
    assert_eq!(digest(3), Digest::new([3; 32]));
    assert_ne!(digest(3), digest(4));
    assert_eq!(PublicKey::zero(), key(0));
    assert_eq!(Digest::zero(), digest(0));
}

#[test]
fn keys_from_slices_need_32_bytes() {
    assert_eq!(PUBLIC_KEY_LENGTH, 32);
    assert_eq!(HASH_SIZE, 32);
    let bytes: Vec<u8> = (0u8..32).collect();
    let k = PublicKey::from_slice(&bytes).unwrap();
    assert_eq!(k.bytes.to_vec(), bytes);
    let d = Digest::from_slice(&bytes).unwrap();
    assert_eq!(d.bytes.to_vec(), bytes);
    assert!(PublicKey::from_slice(&bytes[..31]).is_none());
    assert!(Digest::from_slice(&bytes[..31]).is_none());
    assert!(PublicKey::from_slice(&[0u8; 33]).is_none());
    assert!(Digest::from_slice(&[]).is_none());
}

#[test]
fn error_codes_are_stable() {
    assert_eq!(Error::VotingAlreadyExists.code(), 0);
    assert_eq!(Error::VotingNotFound.code(), 1);
    assert_eq!(Error::ValidatorNotFound.code(), 2);
    assert_eq!(Error::ValidatorAlreadyVoted.code(), 3);
}

#[test]
fn error_descriptions() {
    assert_eq!(Error::VotingAlreadyExists.description(), "Voting already exists");
    assert_eq!(Error::VotingNotFound.description(), "Voting doesn't exist");
    assert_eq!(Error::ValidatorNotFound.description(), "Validator doesn't exist");
    assert_eq!(Error::ValidatorAlreadyVoted.description(), "Validator already voted");
}

#[test]
fn new_record_holds_what_it_was_given() {
    let actions = vec![VotingAction::new(5, &key(3), true)];
    let v = Voting::new(&key(1), &key(2), actions, 1, 2, &digest(9));
    assert_eq!(*v.pub_key(), key(1));
    assert_eq!(*v.drone(), key(2));
    assert_eq!(v.actions().len(), 1);
    assert_eq!(v.actions()[0].action_id(), 5);
    assert_eq!(*v.actions()[0].validator(), key(3));
    assert!(v.actions()[0].voting_status());
    assert_eq!(v.amount(), 1);
    assert_eq!(v.history_len(), 2);
    assert_eq!(*v.history_hash(), digest(9));
}

#[test]
fn set_amount_keeps_subject_and_drone_and_grows_history() {
    let v = Voting::new(&key(1), &key(2), Vec::new(), 0, 4, &digest(9));
    let actions = vec![VotingAction::new(5, &key(3), true), VotingAction::new(6, &key(4), false)];
    let w = v.set_amount(actions, 7, &digest(10));
    assert_eq!(*w.pub_key(), key(1));
    assert_eq!(*w.drone(), key(2));
    assert_eq!(w.actions().len(), 2);
    assert_eq!(w.actions()[1].action_id(), 6);
    assert_eq!(w.amount(), 7);
    assert_eq!(w.history_len(), 5);
    assert_eq!(*w.history_hash(), digest(10));
}

#[test]
fn opened_record_is_empty() {
    let v = Voting::opened(&key(1), &key(2), 1, &digest(9));
    assert_eq!(*v.pub_key(), key(1));
    assert_eq!(*v.drone(), key(2));
    assert!(v.actions().is_empty());
    assert_eq!(v.amount(), INITIAL_AMOUNT);
    assert_eq!(v.amount(), 0);
    assert_eq!(v.history_len(), 1);
    assert_eq!(*v.history_hash(), digest(9));
}

#[test]
fn voted_counts_approvals_only() {
    let v = Voting::opened(&key(1), &key(2), 1, &digest(9));
    let v = v.voted(VotingAction::new(1, &key(3), false), &digest(10));
    assert_eq!(v.amount(), 0);
    assert_eq!(v.actions().len(), 1);
    assert_eq!(v.history_len(), 2);
    assert_eq!(*v.history_hash(), digest(10));
    let v = v.voted(VotingAction::new(2, &key(4), true), &digest(11));
    assert_eq!(v.amount(), 1);
    assert_eq!(v.actions().len(), 2);
    assert_eq!(*v.actions()[0].validator(), key(3));
    assert_eq!(*v.actions()[1].validator(), key(4));
    assert_eq!(v.history_len(), 3);
    assert_eq!(*v.history_hash(), digest(11));
    assert_eq!(*v.drone(), key(2));
}

#[test]
fn has_voted_finds_validators() {
    let v = Voting::opened(&key(1), &key(2), 1, &digest(9));
    assert!(!v.has_voted(&key(3)));
    let v = v.voted(VotingAction::new(1, &key(3), false), &digest(10));
    let v = v.voted(VotingAction::new(2, &key(4), true), &digest(11));
    assert!(v.has_voted(&key(3)));
    assert!(v.has_voted(&key(4)));
    assert!(!v.has_voted(&key(5)));
    assert!(!v.has_voted(&key(1)));
}

#[test]
fn clone_copies_the_record() {
    let v = Voting::opened(&key(1), &key(2), 1, &digest(9));
    let v = v.voted(VotingAction::new(1, &key(3), true), &digest(10));
    let c = v.clone();
    assert!(same_record(&v, &c));
}

#[test]
fn transactions_pass_verification() {
    let create = CreateVoting::new(&key(1), &key(2));
    let vote = Vote::new(1, &key(1), &key(3), true, 0);
    assert!(create.verify());
    assert!(vote.verify());
    assert!(VotingTransactions::CreateVoting(create).verify());
    assert!(VotingTransactions::Vote(vote).verify());
}

#[test]
fn transaction_fields() {
    let create = CreateVoting::new(&key(1), &key(2));
    assert_eq!(*create.pub_key(), key(1));
    assert_eq!(*create.drone(), key(2));
    let vote = Vote::new(11, &key(1), &key(3), true, 99);
    assert_eq!(vote.action_id(), 11);
    assert_eq!(*vote.pub_key(), key(1));
    assert_eq!(*vote.validator(), key(3));
    assert!(vote.voting_status());
    assert_eq!(vote.seed(), 99);
    let action = vote.action();
    assert_eq!(action.action_id(), 11);
    assert_eq!(*action.validator(), key(3));
    assert!(action.voting_status());
}

#[test]
fn check_create_decides_on_existing_record() {
    let create = CreateVoting::new(&key(1), &key(2));
    assert_eq!(create.check(&None), Ok(()));
    let existing = Some(Voting::opened(&key(1), &key(7), 1, &digest(9)));
    assert_eq!(create.check(&existing), Err(Error::VotingAlreadyExists));
}

#[test]
fn check_vote_decides_on_existing_record() {
    let vote = Vote::new(1, &key(1), &key(3), true, 0);
    assert_eq!(vote.check(None).err(), Some(Error::VotingNotFound));
    let record = Voting::opened(&key(1), &key(2), 1, &digest(9));
    let accepted = vote.check(Some(record.clone())).unwrap();
    assert!(same_record(&accepted, &record));
    let record = record.voted(vote.action(), &digest(10));
    assert_eq!(vote.check(Some(record.clone())).err(), Some(Error::ValidatorAlreadyVoted));
    let other = Vote::new(2, &key(1), &key(4), false, 0);
    assert!(other.check(Some(record)).is_ok());
}

#[test]
fn new_schema_is_empty() {
    let schema = SwarmSchema::new();
    assert!(schema.voting(&key(1)).is_none());
    assert!(schema.votings().is_empty());
    assert!(schema.voting_history(&key(1)).is_empty());
    assert_eq!(schema.history_len(&key(1)), 0);
}

#[test]
fn create_voting_files_an_empty_record() {
    let mut schema = SwarmSchema::new();
    schema.create_voting(&key(1), &key(2), &digest(50), &digest(60));
    let v = schema.voting(&key(1)).unwrap();
    assert_eq!(*v.pub_key(), key(1));
    assert_eq!(*v.drone(), key(2));
    assert!(v.actions().is_empty());
    assert_eq!(v.amount(), 0);
    assert_eq!(v.history_len(), 1);
    assert_eq!(*v.history_hash(), digest(60));
    assert_eq!(schema.voting_history(&key(1)), vec![digest(50)]);
    assert_eq!(schema.history_len(&key(1)), 1);
    assert!(schema.voting(&key(2)).is_none());
}

#[test]
fn vote_supersedes_the_record() {
    let mut schema = SwarmSchema::new();
    schema.create_voting(&key(1), &key(2), &digest(50), &digest(60));
    let v = schema.voting(&key(1)).unwrap();
    schema.vote(v, VotingAction::new(9, &key(3), true), &digest(51), &digest(61));
    let v = schema.voting(&key(1)).unwrap();
    assert_eq!(*v.drone(), key(2));
    assert_eq!(v.actions().len(), 1);
    assert_eq!(v.actions()[0].action_id(), 9);
    assert_eq!(v.amount(), 1);
    assert_eq!(v.history_len(), 2);
    assert_eq!(*v.history_hash(), digest(61));
    assert_eq!(schema.voting_history(&key(1)), vec![digest(50), digest(51)]);
}

#[test]
fn create_on_existing_key_fails_and_changes_nothing() {
    let mut schema = SwarmSchema::new();
    opened(&mut schema, 1, 2, 50, 60);
    let vote = Vote::new(1, &key(1), &key(3), true, 0);
    assert_eq!(vote.execute(&mut schema, &digest(51), &digest(61)), Ok(()));
    let before = schema.voting(&key(1)).unwrap();
    let log = schema.voting_history(&key(1));
    let again = CreateVoting::new(&key(1), &key(9));
    assert_eq!(
        again.execute(&mut schema, &digest(52), &digest(62)),
        Err(Error::VotingAlreadyExists)
    );
    let after = schema.voting(&key(1)).unwrap();
    assert!(same_record(&before, &after));
    assert_eq!(*after.drone(), key(2));
    assert_eq!(schema.voting_history(&key(1)), log);
    assert_eq!(schema.votings().len(), 1);
}

#[test]
fn vote_on_absent_key_fails_and_creates_no_history() {
    let mut schema = SwarmSchema::new();
    opened(&mut schema, 1, 2, 50, 60);
    let vote = Vote::new(1, &key(7), &key(3), true, 0);
    assert_eq!(
        vote.execute(&mut schema, &digest(51), &digest(61)),
        Err(Error::VotingNotFound)
    );
    assert!(schema.voting(&key(7)).is_none());
    assert!(schema.voting_history(&key(7)).is_empty());
    assert_eq!(schema.history_len(&key(7)), 0);
    assert_eq!(schema.votings().len(), 1);
    assert_eq!(schema.voting_history(&key(1)), vec![digest(50)]);
}

#[test]
fn second_vote_of_a_validator_fails_and_changes_nothing() {
    let mut schema = SwarmSchema::new();
    opened(&mut schema, 1, 2, 50, 60);
    let first = Vote::new(1, &key(1), &key(3), false, 0);
    assert_eq!(first.execute(&mut schema, &digest(51), &digest(61)), Ok(()));
    let before = schema.voting(&key(1)).unwrap();
    let second = Vote::new(2, &key(1), &key(3), true, 1);
    assert_eq!(
        second.execute(&mut schema, &digest(52), &digest(62)),
        Err(Error::ValidatorAlreadyVoted)
    );
    let after = schema.voting(&key(1)).unwrap();
    assert!(same_record(&before, &after));
    assert_eq!(after.amount(), 0);
    assert_eq!(after.actions().len(), 1);
    assert_eq!(after.history_len(), 2);
    assert_eq!(schema.voting_history(&key(1)), vec![digest(50), digest(51)]);
}

#[test]
fn scenario_two_votes_then_a_repeated_one() {
    let (k1, d1) = (key(1), key(2));
    let (v1, v2) = (key(11), key(12));
    let mut schema = SwarmSchema::new();
    let create = VotingTransactions::CreateVoting(CreateVoting::new(&k1, &d1));
    assert_eq!(create.execute(&mut schema, &digest(100), &digest(200)), Ok(()));

    let vote1 = VotingTransactions::Vote(Vote::new(1, &k1, &v1, true, 71));
    assert_eq!(vote1.execute(&mut schema, &digest(101), &digest(201)), Ok(()));
    assert_eq!(schema.voting(&k1).unwrap().amount(), 1);

    let vote2 = VotingTransactions::Vote(Vote::new(2, &k1, &v2, false, 72));
    assert_eq!(vote2.execute(&mut schema, &digest(102), &digest(202)), Ok(()));
    let record = schema.voting(&k1).unwrap();
    assert_eq!(record.amount(), 1);
    assert_eq!(record.actions().len(), 2);

    let vote3 = VotingTransactions::Vote(Vote::new(3, &k1, &v1, true, 73));
    assert_eq!(
        vote3.execute(&mut schema, &digest(103), &digest(203)),
        Err(Error::ValidatorAlreadyVoted)
    );
    let record = schema.voting(&k1).unwrap();
    assert_eq!(record.amount(), 1);
    assert_eq!(record.actions().len(), 2);
    assert_eq!(record.history_len(), 3);
    assert_eq!(*record.history_hash(), digest(202));
    assert_eq!(*record.drone(), d1);
    assert_eq!(
        schema.voting_history(&k1),
        vec![digest(100), digest(101), digest(102)]
    );
}

#[test]
fn votes_of_distinct_validators_are_tallied() {
    let mut schema = SwarmSchema::new();
    opened(&mut schema, 1, 2, 0, 0);
    let n: u8 = 40;
    let mut approving = 0u64;
    for i in 0..n {
        let decision = i % 3 == 0;
        if decision {
            approving += 1;
        }
        let vote = Vote::new(i as u64, &key(1), &key(100 + i), decision, i as u64);
        assert_eq!(vote.execute(&mut schema, &digest(i + 1), &digest(i + 1)), Ok(()));
    }
    let record = schema.voting(&key(1)).unwrap();
    assert_eq!(record.amount(), approving);
    assert_eq!(record.amount(), 14);
    assert_eq!(record.actions().len(), n as usize);
    assert_eq!(record.history_len(), n as u64 + 1);
    assert_eq!(schema.history_len(&key(1)), n as u64 + 1);
    assert_eq!(*record.history_hash(), digest(n));
    for (i, action) in record.actions().iter().enumerate() {
        assert_eq!(action.action_id(), i as u64);
        assert_eq!(*action.validator(), key(100 + i as u8));
    }
}

#[test]
fn seed_does_not_reach_the_ledger() {
    let mut a = SwarmSchema::new();
    let mut b = SwarmSchema::new();
    opened(&mut a, 1, 2, 50, 60);
    opened(&mut b, 1, 2, 50, 60);
    let va = Vote::new(1, &key(1), &key(3), true, 0);
    let vb = Vote::new(1, &key(1), &key(3), true, 12345);
    assert_eq!(va.execute(&mut a, &digest(51), &digest(61)), Ok(()));
    assert_eq!(vb.execute(&mut b, &digest(51), &digest(61)), Ok(()));
    assert!(same_record(&a.voting(&key(1)).unwrap(), &b.voting(&key(1)).unwrap()));
    assert_eq!(a.voting_history(&key(1)), b.voting_history(&key(1)));
}

#[test]
fn replay_on_two_stores_gives_the_same_ledger() {
    let txs = vec![
        VotingTransactions::CreateVoting(CreateVoting::new(&key(1), &key(2))),
        VotingTransactions::Vote(Vote::new(1, &key(1), &key(3), true, 0)),
        VotingTransactions::CreateVoting(CreateVoting::new(&key(5), &key(2))),
        VotingTransactions::Vote(Vote::new(2, &key(1), &key(3), true, 0)),
        VotingTransactions::Vote(Vote::new(3, &key(5), &key(3), false, 0)),
        VotingTransactions::Vote(Vote::new(4, &key(6), &key(3), false, 0)),
    ];
    let mut a = SwarmSchema::new();
    let mut b = SwarmSchema::new();
    for (i, tx) in txs.iter().enumerate() {
        let (hash, root) = (digest(i as u8), digest(100 + i as u8));
        let ra = tx.execute(&mut a, &hash, &root);
        let rb = tx.execute(&mut b, &hash, &root);
        assert_eq!(ra, rb);
    }
    for subject in [key(1), key(5), key(6)] {
        match (a.voting(&subject), b.voting(&subject)) {
            (Some(x), Some(y)) => assert!(same_record(&x, &y)),
            (None, None) => {}
            _ => panic!("the stores differ"),
        }
        assert_eq!(a.voting_history(&subject), b.voting_history(&subject));
    }
    assert_eq!(a.voting_history(&key(1)), vec![digest(0), digest(1)]);
    assert_eq!(a.voting_history(&key(5)), vec![digest(2), digest(4)]);
    assert_eq!(*a.voting(&key(1)).unwrap().history_hash(), digest(101));
    assert_eq!(*a.voting(&key(5)).unwrap().history_hash(), digest(104));
    assert!(a.voting(&key(6)).is_none());
}

#[test]
fn votings_lists_every_record_once() {
    let mut schema = SwarmSchema::new();
    opened(&mut schema, 1, 2, 50, 60);
    opened(&mut schema, 3, 2, 51, 61);
    opened(&mut schema, 5, 4, 52, 62);
    let vote = Vote::new(1, &key(3), &key(9), true, 0);
    assert_eq!(vote.execute(&mut schema, &digest(53), &digest(63)), Ok(()));
    let records = schema.votings();
    assert_eq!(records.len(), 3);
    for subject in [key(1), key(3), key(5)] {
        let found: Vec<&Voting> = records.iter().filter(|r| *r.pub_key() == subject).collect();
        assert_eq!(found.len(), 1);
        assert!(same_record(found[0], &schema.voting(&subject).unwrap()));
    }
}

#[test]
fn subjects_do_not_touch_each_other() {
    let mut schema = SwarmSchema::new();
    opened(&mut schema, 1, 2, 50, 60);
    opened(&mut schema, 3, 4, 51, 61);
    let before = schema.voting(&key(1)).unwrap();
    let vote = Vote::new(1, &key(3), &key(9), true, 0);
    assert_eq!(vote.execute(&mut schema, &digest(52), &digest(62)), Ok(()));
    assert!(same_record(&before, &schema.voting(&key(1)).unwrap()));
    assert_eq!(schema.voting_history(&key(1)), vec![digest(50)]);
    assert_eq!(schema.voting_history(&key(3)), vec![digest(51), digest(52)]);
}

#[test]
fn a_validator_may_vote_on_several_subjects() {
    let mut schema = SwarmSchema::new();
    opened(&mut schema, 1, 2, 50, 60);
    opened(&mut schema, 3, 2, 51, 61);
    let on_first = Vote::new(1, &key(1), &key(9), true, 0);
    let on_second = Vote::new(2, &key(3), &key(9), true, 0);
    assert_eq!(on_first.execute(&mut schema, &digest(52), &digest(62)), Ok(()));
    assert_eq!(on_second.execute(&mut schema, &digest(53), &digest(63)), Ok(()));
    assert_eq!(schema.voting(&key(1)).unwrap().amount(), 1);
    assert_eq!(schema.voting(&key(3)).unwrap().amount(), 1);
}

#[test]
fn get_voting_finds_the_record_or_reports_not_found() {
    let mut schema = SwarmSchema::new();
    opened(&mut schema, 1, 2, 50, 60);
    let found = VotingApi::get_voting(&schema, VotingQuery { pub_key: key(1) }).unwrap();
    assert!(same_record(&found, &schema.voting(&key(1)).unwrap()));
    match VotingApi::get_voting(&schema, VotingQuery { pub_key: key(2) }) {
        Err(ApiError::NotFound(message)) => assert_eq!(message, "\"Voting not found\""),
        Ok(_) => panic!("a record was found"),
    }
}

#[test]
fn get_votings_lists_all_records() {
    let mut schema = SwarmSchema::new();
    assert!(VotingApi::get_votings(&schema).unwrap().is_empty());
    opened(&mut schema, 1, 2, 50, 60);
    opened(&mut schema, 3, 2, 51, 61);
    let records = VotingApi::get_votings(&schema).unwrap();
    assert_eq!(records.len(), 2);
    assert!(records.iter().any(|r| *r.pub_key() == key(1)));
    assert!(records.iter().any(|r| *r.pub_key() == key(3)));
}

#[test]
fn max_height_is_the_last_block() {
    assert_eq!(VotingApi::max_height(1), 0);
    assert_eq!(VotingApi::max_height(10), 9);
    assert_eq!(VotingApi::max_height(u64::MAX), u64::MAX - 1);
}

#[test]
fn history_range_covers_the_whole_log_of_a_record() {
    let record = Some(Voting::opened(&key(1), &key(2), 1, &digest(9)));
    assert_eq!(VotingApi::history_range(&record, 1), Some((0, 1)));
    assert_eq!(VotingApi::history_range(&record, 17), Some((0, 17)));
    assert_eq!(VotingApi::history_range(&None, 0), None);
    assert_eq!(VotingApi::history_range(&None, 5), None);
}

#[test]
fn voting_info_of_a_record_holds_record_and_history() {
    let mut schema = SwarmSchema::new();
    opened(&mut schema, 1, 2, 50, 60);
    let vote = Vote::new(1, &key(1), &key(3), true, 0);
    assert_eq!(vote.execute(&mut schema, &digest(51), &digest(61)), Ok(()));
    let info = VotingApi::voting_info(&schema, VotingQuery { pub_key: key(1) }).unwrap();
    let record = info.voting.unwrap();
    assert!(same_record(&record, &schema.voting(&key(1)).unwrap()));
    let history = info.voting_history.unwrap();
    assert_eq!(history.from, 0);
    assert_eq!(history.to, 2);
    assert_eq!(history.to, record.history_len());
    assert_eq!(history.transactions, vec![digest(50), digest(51)]);
}

#[test]
fn voting_info_of_an_absent_key_has_no_further_layers() {
    let mut schema = SwarmSchema::new();
    opened(&mut schema, 1, 2, 50, 60);
    let info = VotingApi::voting_info(&schema, VotingQuery { pub_key: key(4) }).unwrap();
    assert!(info.voting.is_none());
    assert!(info.voting_history.is_none());
}

#[test]
fn service_identity() {
    assert_eq!(SERVICE_ID, 128);
    assert_eq!(SERVICE_NAME, "voting");
    let service = VotingService;
    assert_eq!(service.service_id(), 128);
    assert_eq!(service.service_name(), "voting");
    let factory = ServiceFactory;
    assert_eq!(factory.service_name(), "voting");
}

#[test]
fn state_hash_is_exactly_the_table_root() {
    let service = VotingService;
    assert_eq!(service.state_hash(&digest(77)), vec![digest(77)]);
    assert_eq!(SwarmSchema::state_hash(&digest(78)), vec![digest(78)]);
}

#[test]
fn records_are_equal_iff_their_content_is() {
    let base = || {
        Voting::new(
            &key(1),
            &key(2),
            vec![VotingAction::new(5, &key(3), true)],
            1,
            2,
            &digest(9),
        )
    };
    assert_eq!(base(), base());
    assert_eq!(base(), base().clone());
    let other_key = Voting::new(&key(8), &key(2), base().actions(), 1, 2, &digest(9));
    let other_drone = Voting::new(&key(1), &key(8), base().actions(), 1, 2, &digest(9));
    let no_actions = Voting::new(&key(1), &key(2), Vec::new(), 1, 2, &digest(9));
    let other_action = Voting::new(
        &key(1),
        &key(2),
        vec![VotingAction::new(5, &key(3), false)],
        1,
        2,
        &digest(9),
    );
    let other_amount = Voting::new(&key(1), &key(2), base().actions(), 0, 2, &digest(9));
    let other_len = Voting::new(&key(1), &key(2), base().actions(), 1, 3, &digest(9));
    let other_root = Voting::new(&key(1), &key(2), base().actions(), 1, 2, &digest(8));
    for different in [
        other_key,
        other_drone,
        no_actions,
        other_action,
        other_amount,
        other_len,
        other_root,
    ] {
        assert_ne!(base(), different);
    }
    assert_eq!(VotingAction::new(5, &key(3), true), VotingAction::new(5, &key(3), true));
    assert_ne!(VotingAction::new(5, &key(3), true), VotingAction::new(6, &key(3), true));
    assert_ne!(VotingAction::new(5, &key(3), true), VotingAction::new(5, &key(4), true));
}

#[test]
fn has_room_ends_at_the_integer_limits() {
    let full = Voting::new(&key(1), &key(2), Vec::new(), u64::MAX, 2, &digest(9));
    assert!(!full.has_room(true));
    assert!(full.has_room(false));
    let nearly = Voting::new(&key(1), &key(2), Vec::new(), u64::MAX - 1, 2, &digest(9));
    assert!(nearly.has_room(true));
    let w = nearly.voted(VotingAction::new(1, &key(3), true), &digest(1));
    assert_eq!(w.amount(), u64::MAX);
    let long = Voting::new(&key(1), &key(2), Vec::new(), 0, u64::MAX, &digest(9));
    assert!(!long.has_room(true));
    assert!(!long.has_room(false));
    let nearly_long = Voting::new(&key(1), &key(2), Vec::new(), 0, u64::MAX - 1, &digest(9));
    assert!(nearly_long.has_room(false));
    let w = nearly_long.voted(VotingAction::new(1, &key(3), true), &digest(1));
    assert_eq!(w.history_len(), u64::MAX);
    assert_eq!(w.amount(), 1);
}

#[test]
fn the_256th_approval_is_counted() {
    let mut schema = SwarmSchema::new();
    opened(&mut schema, 1, 2, 0, 0);
    for i in 0..255u16 {
        let vote = Vote::new(i as u64, &key(1), &wide_key(i), true, 0);
        assert!(vote.fits_in(&schema));
        assert_eq!(vote.execute(&mut schema, &digest(1), &digest(2)), Ok(()));
    }
    let record = schema.voting(&key(1)).unwrap();
    assert_eq!(record.amount(), 255);
    assert!(record.has_room(true));
    let vote = Vote::new(255, &key(1), &wide_key(255), true, 0);
    assert!(vote.fits_in(&schema));
    assert!(VotingTransactions::Vote(vote).fits_in(&schema));
    assert_eq!(vote.execute(&mut schema, &digest(3), &digest(4)), Ok(()));
    let record = schema.voting(&key(1)).unwrap();
    assert_eq!(record.amount(), 256);
    assert_eq!(record.actions().len(), 256);
    assert_eq!(record.history_len(), 257);
    assert_eq!(*record.history_hash(), digest(4));
    assert_eq!(*record.actions()[255].validator(), wide_key(255));
}

#[test]
fn many_approvals_are_counted() {
    let mut schema = SwarmSchema::new();
    opened(&mut schema, 1, 2, 0, 0);
    let n: u16 = 600;
    let mut approving = 0u64;
    for i in 0..n {
        let decision = i % 4 != 0;
        if decision {
            approving += 1;
        }
        let vote = Vote::new(i as u64, &key(1), &wide_key(i), decision, 0);
        assert_eq!(vote.execute(&mut schema, &digest(1), &digest(2)), Ok(()));
    }
    let record = schema.voting(&key(1)).unwrap();
    assert_eq!(approving, 450);
    assert_eq!(record.amount(), 450);
    assert_eq!(record.actions().len(), 600);
    assert_eq!(record.history_len(), 601);
    assert_eq!(schema.history_len(&key(1)), 601);
    let repeated = Vote::new(0, &key(1), &wide_key(300), true, 0);
    assert_eq!(
        repeated.execute(&mut schema, &digest(1), &digest(2)),
        Err(Error::ValidatorAlreadyVoted)
    );
    assert_eq!(schema.voting(&key(1)).unwrap().amount(), 450);
}

#[test]
fn refused_transactions_always_fit() {
    let mut schema = SwarmSchema::new();
    let vote = Vote::new(1, &key(1), &key(3), true, 0);
    assert!(vote.fits_in(&schema));
    let create = VotingTransactions::CreateVoting(CreateVoting::new(&key(1), &key(2)));
    assert!(create.fits_in(&schema));
    assert_eq!(create.execute(&mut schema, &digest(1), &digest(1)), Ok(()));
    assert!(create.fits_in(&schema));
    assert!(VotingTransactions::Vote(vote).fits_in(&schema));
}

#[test]
fn create_voting_on_a_subject_with_a_log_counts_the_whole_log() {
    let mut schema = SwarmSchema::new();
    schema.create_voting(&key(1), &key(2), &digest(50), &digest(60));
    let v = schema.voting(&key(1)).unwrap();
    schema.vote(v, VotingAction::new(9, &key(3), true), &digest(51), &digest(61));
    schema.create_voting(&key(1), &key(4), &digest(52), &digest(62));
    let v = schema.voting(&key(1)).unwrap();
    assert_eq!(*v.drone(), key(4));
    assert!(v.actions().is_empty());
    assert_eq!(v.amount(), 0);
    assert_eq!(v.history_len(), 3);
    assert_eq!(*v.history_hash(), digest(62));
    assert_eq!(
        schema.voting_history(&key(1)),
        vec![digest(50), digest(51), digest(52)]
    );
    assert_eq!(schema.votings().len(), 1);
}

#[test]
fn vote_files_the_record_it_was_given() {
    let mut schema = SwarmSchema::new();
    let given = Voting::new(&key(1), &key(2), Vec::new(), 3, 7, &digest(9));
    schema.vote(given, VotingAction::new(9, &key(3), true), &digest(51), &digest(61));
    let v = schema.voting(&key(1)).unwrap();
    assert_eq!(v.amount(), 4);
    assert_eq!(v.history_len(), 8);
    assert_eq!(v.actions().len(), 1);
    assert_eq!(*v.history_hash(), digest(61));
    assert_eq!(schema.voting_history(&key(1)), vec![digest(51)]);
}

#[test]
fn names_of_the_tables() {
    assert_eq!(VOTINGS_TABLE, "swarm.votings");
    assert_eq!(VOTING_HISTORY_TABLE, "swarm.voting_history");
    assert_eq!(VOTINGS_TABLE_INDEX, 0);
    assert_eq!(VOTING_NOT_FOUND, "\"Voting not found\"");
    assert_eq!(SwarmSchema::state_hash(&digest(5))[VOTINGS_TABLE_INDEX], digest(5));
}
