use abbreviation_lookup::dedup::DedupTracker;

#[test]
fn first_claim_is_granted_and_later_ones_are_not() {
    let mut tracker = DedupTracker::new();
    let mut granted = 0;
    for _ in 0..10 {
        if tracker.try_claim("NASA") {
            granted += 1;
        }
    }
    assert_eq!(granted, 1);
    assert_eq!(tracker.len(), 1);
}

#[test]
fn new_tracker_holds_nothing() {
    let tracker = DedupTracker::new();
    assert_eq!(tracker.len(), 0);
    assert!(!tracker.contains("NASA"));
    assert!(!tracker.contains(""));
}

#[test]
fn claims_of_different_abbreviations_are_all_granted() {
    let mut tracker = DedupTracker::new();
    assert!(tracker.try_claim("NASA"));
    assert!(tracker.try_claim("ESA"));
    assert!(tracker.try_claim("nasa"));
    assert!(tracker.try_claim(""));
    assert!(!tracker.try_claim("ESA"));
    assert!(!tracker.try_claim(""));
    assert_eq!(tracker.len(), 4);
    assert!(tracker.contains("NASA"));
    assert!(tracker.contains("nasa"));
    assert!(!tracker.contains("Nasa"));
}

#[test]
fn refused_claim_leaves_the_abbreviation_claimed() {
    let mut tracker = DedupTracker::new();
    assert!(tracker.try_claim("A"));
    assert!(!tracker.try_claim("A"));
    assert!(tracker.contains("A"));
    assert_eq!(tracker.len(), 1);
}

#[test]
fn claims_behind_a_lock_grant_one() {
    let tracker = std::sync::Mutex::new(DedupTracker::new());
    let grants: Vec<bool> = (0..8).map(|_| tracker.lock().unwrap().try_claim("NASA")).collect();
    assert_eq!(grants.iter().filter(|granted| **granted).count(), 1);
    assert!(grants[0]);
}
