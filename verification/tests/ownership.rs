use stroke_engine::ledger::Ledger;

#[test]
fn matched_pairs_balance() {
    let mut ledger = Ledger::new();
    assert!(ledger.is_balanced());
    ledger.record_alloc(0x1000, 64);
    ledger.record_alloc(0x2000, 16);
    assert_eq!(ledger.outstanding_count(), 2);
    assert!(ledger.record_release(0x2000, 16));
    assert!(ledger.record_release(0x1000, 64));
    assert!(ledger.is_balanced());
}

#[test]
fn double_release_is_refused() {
    let mut ledger = Ledger::new();
    ledger.record_alloc(0x1000, 64);
    assert!(ledger.record_release(0x1000, 64));
    assert!(!ledger.record_release(0x1000, 64));
    assert!(ledger.is_balanced());
}

#[test]
fn mismatched_size_is_refused_and_leaks() {
    let mut ledger = Ledger::new();
    ledger.record_alloc(0x1000, 64);
    assert!(!ledger.record_release(0x1000, 32));
    assert_eq!(ledger.outstanding_count(), 1);
    assert!(!ledger.is_balanced());
}

#[test]
fn unknown_address_is_refused() {
    let mut ledger = Ledger::new();
    ledger.record_alloc(0x1000, 64);
    assert!(!ledger.record_release(0x3000, 64));
    assert_eq!(ledger.outstanding_count(), 1);
}

#[test]
fn null_or_zero_size_release_is_a_no_op() {
    let mut ledger = Ledger::new();
    ledger.record_alloc(0x1000, 64);
    assert!(ledger.record_release(0, 64));
    assert!(ledger.record_release(0x1000, 0));
    assert_eq!(ledger.outstanding_count(), 1);
    assert!(ledger.record_release(0x1000, 64));
    assert!(ledger.is_balanced());
}
