use voting::{Address, VotingContract, VotingError};

fn addr(bytes: &[u8]) -> Address {
    Address(bytes.to_vec())
}

fn options(texts: &[&str]) -> Vec<String> {
    texts.iter().map(|t| t.to_string()).collect()
}

#[test]
fn new_registry_has_one_bootstrap_admin() {
    let contract = VotingContract::new();
    assert_eq!(contract.admins.len(), 1);
    assert_eq!(contract.admins[0].0, vec![0u8]);
    assert!(contract.get_active_polls().is_empty());
}

#[test]
fn address_formats_as_lowercase_hex() {
    assert_eq!(addr(&[1, 2, 3]).to_hex_string(), "0x010203");
    assert_eq!(addr(&[0xab, 0x0f, 0xff]).to_hex_string(), "0xab0fff");
    assert_eq!(addr(&[]).to_hex_string(), "0x");
}

#[test]
fn address_equality_is_bytewise() {
    assert!(addr(&[1, 2]) == addr(&[1, 2]));
    assert!(addr(&[1, 2]) != addr(&[1, 3]));
    assert!(addr(&[1]) != addr(&[1, 0]));
    let a = addr(&[7, 8, 9]);
    assert!(a.clone() == a);
}

#[test]
fn vote_then_results_scenario() {
    let mut contract = VotingContract::new();
    let bootstrap = contract.admins[0].clone();
    let a = addr(&[1]);
    let v = addr(&[2]);
    contract.add_admin(&bootstrap, a.clone()).unwrap();
    let id = contract
        .create_poll(&a, "Best".to_string(), "Pick one".to_string(), options(&["Rust", "Go"]), 86400)
        .unwrap();
    contract.cast_vote(&v, id, 0).unwrap();
    let results = contract.get_poll_results(id).unwrap();
    assert_eq!(results, vec![("Rust".to_string(), 1), ("Go".to_string(), 0)]);
}

#[test]
fn non_admin_cannot_create_poll_scenario() {
    let mut contract = VotingContract::new();
    let outsider = addr(&[9]);
    let r = contract.create_poll(&outsider, "T".to_string(), "D".to_string(), options(&["x"]), 10);
    assert_eq!(r, Err(VotingError::Unauthorized));
    assert_eq!(contract.get_poll_details(1).err(), Some(VotingError::PollNotFound));
    assert!(contract.get_active_polls().is_empty());
    assert_eq!(contract.admins.len(), 1);
}

#[test]
fn vote_on_ended_poll_scenario() {
    let mut contract = VotingContract::new();
    let admin = contract.admins[0].clone();
    let id = contract
        .create_poll(&admin, "T".to_string(), "D".to_string(), options(&["only"]), 5)
        .unwrap();
    contract.end_poll(&admin, id).unwrap();
    assert_eq!(contract.cast_vote(&addr(&[3]), id, 0), Err(VotingError::PollInactive));
    assert!(contract.get_active_polls().is_empty());
    assert_eq!(contract.get_poll_results(id).unwrap(), vec![("only".to_string(), 0)]);
}

#[test]
fn new_poll_results_are_zero() {
    let mut contract = VotingContract::new();
    let admin = contract.admins[0].clone();
    let id = contract
        .create_poll(&admin, "T".to_string(), "D".to_string(), options(&["a", "b", "a"]), 0)
        .unwrap();
    let results = contract.get_poll_results(id).unwrap();
    assert_eq!(results, vec![("a".to_string(), 0), ("b".to_string(), 0), ("a".to_string(), 0)]);
}

#[test]
fn poll_with_no_options_is_allowed() {
    let mut contract = VotingContract::new();
    let admin = contract.admins[0].clone();
    let id = contract.create_poll(&admin, String::new(), String::new(), Vec::new(), 0).unwrap();
    assert!(contract.get_poll_results(id).unwrap().is_empty());
    assert_eq!(contract.cast_vote(&addr(&[4]), id, 0), Err(VotingError::InvalidOption));
}

#[test]
fn poll_fields_are_stored() {
    let mut contract = VotingContract::new();
    let admin = contract.admins[0].clone();
    let id = contract
        .create_poll(&admin, "Title".to_string(), "Desc".to_string(), options(&["x", "y"]), 123)
        .unwrap();
    let poll = contract.get_poll_details(id).unwrap();
    assert_eq!(poll.title, "Title");
    assert_eq!(poll.description, "Desc");
    assert_eq!(poll.end_time, 123);
    assert_eq!(poll.creator.0, vec![0u8]);
    assert!(poll.votes.is_empty());
}

#[test]
fn identifiers_are_sequential() {
    let mut contract = VotingContract::new();
    let admin = contract.admins[0].clone();
    let first = contract.create_poll(&admin, "a".to_string(), "".to_string(), options(&["x"]), 1).unwrap();
    let second = contract.create_poll(&admin, "b".to_string(), "".to_string(), options(&["x"]), 1).unwrap();
    let third = contract.create_poll(&admin, "c".to_string(), "".to_string(), options(&["x"]), 1).unwrap();
    assert_eq!((first, second, third), (1, 2, 3));
}

#[test]
fn first_vote_changes_only_its_counter() {
    let mut contract = VotingContract::new();
    let admin = contract.admins[0].clone();
    let id = contract
        .create_poll(&admin, "T".to_string(), "D".to_string(), options(&["a", "b", "c"]), 1)
        .unwrap();
    let v = addr(&[5]);
    contract.cast_vote(&v, id, 1).unwrap();
    assert_eq!(contract.get_poll_details(id).unwrap().vote_counts, vec![0, 1, 0]);
    assert_eq!(contract.cast_vote(&v, id, 2), Err(VotingError::AlreadyVoted));
    assert_eq!(contract.cast_vote(&v, id, 1), Err(VotingError::AlreadyVoted));
    assert_eq!(contract.get_poll_details(id).unwrap().vote_counts, vec![0, 1, 0]);
    contract.cast_vote(&addr(&[6]), id, 1).unwrap();
    contract.cast_vote(&addr(&[7]), id, 2).unwrap();
    assert_eq!(contract.get_poll_details(id).unwrap().vote_counts, vec![0, 2, 1]);
}

#[test]
fn out_of_range_option_is_invalid() {
    let mut contract = VotingContract::new();
    let admin = contract.admins[0].clone();
    let id = contract
        .create_poll(&admin, "T".to_string(), "D".to_string(), options(&["a", "b"]), 1)
        .unwrap();
    let v = addr(&[5]);
    assert_eq!(contract.cast_vote(&v, id, 2), Err(VotingError::InvalidOption));
    assert_eq!(contract.cast_vote(&v, id, usize::MAX), Err(VotingError::InvalidOption));
    assert_eq!(contract.get_poll_details(id).unwrap().vote_counts, vec![0, 0]);
    contract.cast_vote(&v, id, 1).unwrap();
}

#[test]
fn error_order_in_cast_vote() {
    let mut contract = VotingContract::new();
    let admin = contract.admins[0].clone();
    let id = contract
        .create_poll(&admin, "T".to_string(), "D".to_string(), options(&["a"]), 1)
        .unwrap();
    let v = addr(&[5]);
    assert_eq!(contract.cast_vote(&v, 0, 0), Err(VotingError::PollNotFound));
    assert_eq!(contract.cast_vote(&v, 2, 0), Err(VotingError::PollNotFound));
    contract.cast_vote(&v, id, 0).unwrap();
    assert_eq!(contract.cast_vote(&v, id, 9), Err(VotingError::AlreadyVoted));
    contract.end_poll(&admin, id).unwrap();
    assert_eq!(contract.cast_vote(&v, id, 9), Err(VotingError::PollInactive));
}

#[test]
fn end_poll_errors_and_idempotence() {
    let mut contract = VotingContract::new();
    let admin = contract.admins[0].clone();
    let outsider = addr(&[8]);
    assert_eq!(contract.end_poll(&admin, 1), Err(VotingError::PollNotFound));
    let id = contract
        .create_poll(&admin, "T".to_string(), "D".to_string(), options(&["a"]), 1)
        .unwrap();
    assert_eq!(contract.end_poll(&outsider, id), Err(VotingError::Unauthorized));
    assert!(contract.get_poll_details(id).unwrap().is_active);
    assert_eq!(contract.end_poll(&admin, id), Ok(()));
    assert_eq!(contract.end_poll(&admin, id), Ok(()));
    assert!(!contract.get_poll_details(id).unwrap().is_active);
}

#[test]
fn any_admin_may_end_a_poll() {
    let mut contract = VotingContract::new();
    let bootstrap = contract.admins[0].clone();
    let other = addr(&[1]);
    contract.add_admin(&bootstrap, other.clone()).unwrap();
    let id = contract
        .create_poll(&bootstrap, "T".to_string(), "D".to_string(), options(&["a"]), 1)
        .unwrap();
    contract.end_poll(&other, id).unwrap();
    assert!(contract.get_active_polls().is_empty());
}

#[test]
fn added_admins_may_repeat_and_add_others() {
    let mut contract = VotingContract::new();
    let bootstrap = contract.admins[0].clone();
    let a = addr(&[1]);
    contract.add_admin(&bootstrap, a.clone()).unwrap();
    contract.add_admin(&bootstrap, a.clone()).unwrap();
    contract.add_admin(&a, addr(&[2])).unwrap();
    assert_eq!(contract.admins.len(), 4);
    assert_eq!(contract.admins[3].0, vec![2u8]);
}

#[test]
fn participation_counts_active_and_ended_polls() {
    let mut contract = VotingContract::new();
    let admin = contract.admins[0].clone();
    let v = addr(&[5]);
    let w = addr(&[6]);
    let p1 = contract.create_poll(&admin, "1".to_string(), "".to_string(), options(&["a"]), 1).unwrap();
    let p2 = contract.create_poll(&admin, "2".to_string(), "".to_string(), options(&["a"]), 1).unwrap();
    let p3 = contract.create_poll(&admin, "3".to_string(), "".to_string(), options(&["a"]), 1).unwrap();
    assert_eq!(contract.get_voter_participation(&v), 0);
    contract.cast_vote(&v, p1, 0).unwrap();
    contract.cast_vote(&v, p2, 0).unwrap();
    contract.cast_vote(&w, p3, 0).unwrap();
    contract.end_poll(&admin, p1).unwrap();
    assert_eq!(contract.get_voter_participation(&v), 2);
    assert_eq!(contract.get_voter_participation(&w), 1);
    assert_eq!(contract.get_voter_participation(&addr(&[7])), 0);
}

#[test]
fn active_polls_are_listed_in_id_order() {
    let mut contract = VotingContract::new();
    let admin = contract.admins[0].clone();
    let p1 = contract.create_poll(&admin, "1".to_string(), "".to_string(), options(&["a"]), 1).unwrap();
    let p2 = contract.create_poll(&admin, "2".to_string(), "".to_string(), options(&["a"]), 1).unwrap();
    let p3 = contract.create_poll(&admin, "3".to_string(), "".to_string(), options(&["a"]), 1).unwrap();
    contract.end_poll(&admin, p2).unwrap();
    let active = contract.get_active_polls();
    let ids: Vec<u64> = active.iter().map(|(id, _)| *id).collect();
    assert_eq!(ids, vec![p1, p3]);
    assert_eq!(active[1].1.title, "3");
}

#[test]
fn results_of_missing_poll() {
    let contract = VotingContract::new();
    assert_eq!(contract.get_poll_results(1), Err(VotingError::PollNotFound));
    assert_eq!(contract.get_poll_results(0), Err(VotingError::PollNotFound));
}
