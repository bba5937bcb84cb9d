use onchainmsc_backend::{split_payment, ArtistLedger, CollabRequestStatus, CollabRequests, Split};

#[test]
fn shares_total_at_most_amount_with_truncation_accounted() {
    let splits = vec![Split { id: 1, pct: 33 }, Split { id: 2, pct: 33 }, Split { id: 3, pct: 34 }];
    let shares = split_payment(101, &splits);
    assert_eq!(shares, vec![(1, 33), (2, 33), (3, 34)]);
    let total: u64 = shares.iter().map(|s| s.1).sum();
    let truncation: u64 = splits.iter().map(|s| (101 * s.pct as u64) % 100).sum();
    assert!(total <= 101);
    assert_eq!(100 * (101 - total), truncation);
}

#[test]
fn share_of_large_amount_does_not_overflow() {
    let shares = split_payment(u64::MAX, &vec![Split { id: 1, pct: 50 }, Split { id: 2, pct: 200 }]);
    assert_eq!(shares[0], (1, u64::MAX / 2));
    assert_eq!(shares[1], (2, u64::MAX));
}

#[test]
fn ledger_credit_saturates_and_skips_unknown() {
    let mut l = ArtistLedger::new();
    assert_eq!(l.open_account(), Some(1));
    l.credit(1, u64::MAX - 1);
    l.credit(1, 5);
    assert_eq!(l.get_royalty_balance(1), u64::MAX);
    l.credit(2, 5);
    assert_eq!(l.get_royalty_balance(2), 0);
    assert!(!l.withdraw_royalties(2, 1));
}

#[test]
fn duplicate_pending_request_is_refused() {
    let mut c = CollabRequests::new();
    let r = c.send_collab_request(1, 2, 10, Some("join?".to_string()), 5).unwrap();
    assert_eq!(r.id, 1);
    assert_eq!(r.status, CollabRequestStatus::Pending);
    assert!(c.send_collab_request(1, 2, 10, None, 6).is_none());
    let r2 = c.send_collab_request(2, 1, 10, None, 6).unwrap();
    assert_eq!(r2.id, 2);
    let done = c.respond_collab_request(1, true).unwrap();
    assert_eq!(done.status, CollabRequestStatus::Accepted);
    assert!(c.respond_collab_request(1, false).is_none());
    assert!(c.respond_collab_request(3, false).is_none());
    assert!(c.send_collab_request(1, 2, 10, None, 7).is_some());
    assert_eq!(c.list_collab_requests_for_user(1).len(), 3);
    assert_eq!(c.list_collab_requests_for_user(5).len(), 0);
}

#[test]
fn ranking_puts_largest_first_and_keeps_ties_in_order() {
    let r = onchainmsc_backend::rank_by_amount(vec![(1u64, 5u64), (2, 9), (3, 5), (4, 0), (5, 9)]);
    assert_eq!(r, vec![(2, 9), (5, 9), (1, 5), (3, 5), (4, 0)]);
    let empty: Vec<(u64, u64)> = Vec::new();
    assert_eq!(onchainmsc_backend::rank_by_amount(empty), Vec::new());
}
