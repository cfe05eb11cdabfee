use lint_pipeline::cache_state::{CacheState, CacheStateEntry, Interest};

#[test]
fn ready_state_does_not_block() {
    assert!(!CacheStateEntry::ReadyToConstruct.must_wait());
    assert!(CacheStateEntry::PendingStore(1).must_wait());
    assert!(CacheStateEntry::PendingStore(7).must_wait());
}

#[test]
fn registering_for_an_uncached_path_counts_one_more_builder() {
    let (next, notify) = CacheStateEntry::ReadyToConstruct.register_interest(false);
    assert_eq!(next, CacheStateEntry::PendingStore(1));
    assert!(!notify);
    let (next, notify) = CacheStateEntry::PendingStore(2).register_interest(false);
    assert_eq!(next, CacheStateEntry::PendingStore(3));
    assert!(!notify);
}

#[test]
fn registering_for_a_cached_path_leaves_it_ready_and_wakes_a_waiter() {
    let (next, notify) = CacheStateEntry::ReadyToConstruct.register_interest(true);
    assert_eq!(next, CacheStateEntry::ReadyToConstruct);
    assert!(notify);
    let (next, notify) = CacheStateEntry::PendingStore(2).register_interest(true);
    assert_eq!(next, CacheStateEntry::PendingStore(2));
    assert!(!notify);
}

#[test]
fn completing_counts_down_and_wakes_a_waiter_at_zero() {
    let (next, notify) = CacheStateEntry::PendingStore(3).complete_construction();
    assert_eq!(next, CacheStateEntry::PendingStore(2));
    assert!(!notify);
    let (next, notify) = CacheStateEntry::PendingStore(1).complete_construction();
    assert_eq!(next, CacheStateEntry::ReadyToConstruct);
    assert!(notify);
    let (next, notify) = CacheStateEntry::ReadyToConstruct.complete_construction();
    assert_eq!(next, CacheStateEntry::ReadyToConstruct);
    assert!(!notify);
}

#[test]
fn a_pending_state_without_builders_completes_to_ready() {
    let (next, notify) = CacheStateEntry::PendingStore(0).complete_construction();
    assert_eq!(next, CacheStateEntry::ReadyToConstruct);
    assert!(notify);
}

#[test]
fn table_creates_entries_on_first_reference() {
    let mut table = CacheState::new();
    assert_eq!(table.state("a.js"), CacheStateEntry::ReadyToConstruct);
    assert_eq!(table.register_interest("a.js", false), Interest::Registered { notify: false });
    assert_eq!(table.state("a.js"), CacheStateEntry::PendingStore(1));
    assert_eq!(table.state("b.js"), CacheStateEntry::ReadyToConstruct);
}

#[test]
fn table_makes_a_second_requester_wait_until_completion() {
    let mut table = CacheState::new();
    assert_eq!(table.register_interest("a.js", false), Interest::Registered { notify: false });
    assert_eq!(table.register_interest("a.js", false), Interest::Wait);
    assert_eq!(table.state("a.js"), CacheStateEntry::PendingStore(1));
    assert!(table.complete_construction("a.js"));
    assert_eq!(table.state("a.js"), CacheStateEntry::ReadyToConstruct);
    assert_eq!(table.register_interest("a.js", true), Interest::Registered { notify: true });
    assert_eq!(table.state("a.js"), CacheStateEntry::ReadyToConstruct);
}

#[test]
fn waiting_on_one_path_does_not_block_another() {
    let mut table = CacheState::new();
    assert_eq!(table.register_interest("a.js", false), Interest::Registered { notify: false });
    assert_eq!(table.register_interest("b.js", false), Interest::Registered { notify: false });
    assert_eq!(table.register_interest("a.js", false), Interest::Wait);
}

#[test]
fn completing_an_unknown_path_changes_nothing() {
    let mut table = CacheState::new();
    assert!(!table.complete_construction("never-seen.js"));
    assert_eq!(table.state("never-seen.js"), CacheStateEntry::ReadyToConstruct);
}
