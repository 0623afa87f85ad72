use minghe_sip::sip::transaction::{TransactionManager, TransactionState};
use std::time::{Duration, Instant};

fn manager() -> TransactionManager {
    let mut manager = TransactionManager::new();
    for (branch, method) in [("z9hG4bK-1", "INVITE"), ("z9hG4bK-2", "BYE"), ("z9hG4bK-3", "ACK")] {
        let key = manager.create_transaction(branch.to_string(), method.to_string(), "call-1".to_string());
        assert_eq!(key, branch);
    }
    manager
}

#[test]
fn life_of_a_transaction() {
    let mut manager = manager();
    let found = manager.find_transaction("z9hG4bK-2").unwrap();
    assert_eq!(found.branch, "z9hG4bK-2");
    assert_eq!(found.method, "BYE");
    assert_eq!(found.call_id, "call-1");
    assert_eq!(found.state, TransactionState::Proceeding);
    assert!(found.created_at.elapsed().as_secs() < 20);

    manager.update_state("z9hG4bK-2", TransactionState::Completed);
    manager.update_state("unknown", TransactionState::Terminated);
    assert_eq!(manager.find_transaction("z9hG4bK-2").unwrap().state, TransactionState::Completed);
    assert_eq!(manager.find_transaction("z9hG4bK-1").unwrap().state, TransactionState::Proceeding);
    assert!(manager.find_transaction("unknown").is_none());

    manager.remove_transaction("z9hG4bK-2");
    manager.remove_transaction("z9hG4bK-2");
    assert!(manager.find_transaction("z9hG4bK-2").is_none());
    assert!(manager.find_transaction("z9hG4bK-3").is_some());
}

#[test]
fn a_new_transaction_takes_the_place_of_one_with_its_branch() {
    let mut manager = manager();
    manager.update_state("z9hG4bK-1", TransactionState::Terminated);
    manager.create_transaction("z9hG4bK-1".to_string(), "CANCEL".to_string(), "call-2".to_string());
    let found = manager.find_transaction("z9hG4bK-1").unwrap();
    assert_eq!((found.method.as_str(), found.call_id.as_str()), ("CANCEL", "call-2"));
    assert_eq!(found.state, TransactionState::Proceeding);
}

#[test]
fn cleanup_goes_by_age() {
    let start = Instant::now();
    let seconds = Duration::from_secs;
    let mut manager = TransactionManager::new();
    let states = [
        ("a", 0, TransactionState::Proceeding),
        ("b", 1, TransactionState::Completed),
        ("c", 2, TransactionState::Terminated),
    ];
    for (branch, at, state) in states {
        manager.create_transaction_at(branch.to_string(), "BYE".to_string(), "c".to_string(), start + seconds(at));
        manager.update_state(branch, state);
    }
    // At the age of 32 whole seconds it is kept, at 33 it is not, whatever its state.
    manager.cleanup_expired_at(&(start + Duration::from_millis(33_999)));
    assert!(manager.find_transaction("a").is_none());
    let kept = manager.find_transaction("b").unwrap();
    assert_eq!(kept.state, TransactionState::Completed);
    assert_eq!(kept.created_at, start + seconds(1));
    assert!(manager.find_transaction("c").is_some());
    manager.cleanup_expired_at(&start);
    assert!(manager.find_transaction("b").is_some());
    manager.cleanup_expired_at(&(start + seconds(35)));
    assert!(manager.find_transaction("b").is_none());
    assert!(manager.find_transaction("c").is_none());
}

#[test]
fn the_last_creation_and_the_last_update_count() {
    let start = Instant::now();
    let mut manager = TransactionManager::new();
    assert!(manager.find_transaction("a").is_none());
    let create = |manager: &mut TransactionManager, method: &str, at: u64| {
        let created_at = start + Duration::from_secs(at);
        manager.create_transaction_at("a".to_string(), method.to_string(), "c".to_string(), created_at);
    };
    manager.update_state("a", TransactionState::Terminated);
    create(&mut manager, "INVITE", 0);
    manager.update_state("a", TransactionState::Terminated);
    create(&mut manager, "BYE", 10);
    assert_eq!(manager.find_transaction("a").unwrap().state, TransactionState::Proceeding);
    manager.update_state("a", TransactionState::Terminated);
    manager.update_state("b", TransactionState::Proceeding);
    manager.update_state("a", TransactionState::Completed);
    manager.cleanup_expired_at(&(start + Duration::from_secs(42)));
    let found = manager.find_transaction("a").unwrap();
    assert_eq!((found.branch.as_str(), found.method.as_str()), ("a", "BYE"));
    assert_eq!(found.state, TransactionState::Completed);
    manager.remove_transaction("a");
    create(&mut manager, "ACK", 20);
    assert_eq!(manager.find_transaction("a").unwrap().method, "ACK");
}

#[test]
fn cleanup_reads_the_clock() {
    let mut manager = TransactionManager::new();
    let now = Instant::now();
    // Where the clock does not reach back far enough there is nothing to see.
    if let Some(long_ago) = now.checked_sub(Duration::from_secs(100)) {
        manager.create_transaction_at("old".to_string(), "BYE".to_string(), "c".to_string(), long_ago);
        manager.create_transaction_at("new".to_string(), "BYE".to_string(), "c".to_string(), now);
        manager.cleanup_expired();
        assert!(manager.find_transaction("old").is_none());
        assert!(manager.find_transaction("new").is_some());
    }
}
