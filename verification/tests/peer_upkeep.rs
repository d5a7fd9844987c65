use rubic::peer_upkeep::{
    dial_candidates, first_ids, holds, keep_peer, register_target, unanswered, upkeep, FailedPeers, Upkeep,
};

fn strings(v: &[&str]) -> Vec<String> {
    v.iter().map(|s| s.to_string()).collect()
}

fn rows(ips: &[&str]) -> Vec<Vec<String>> {
    ips.iter().enumerate().map(|(i, ip)| vec![format!("id{}", i), ip.to_string(), "0".to_string()]).collect()
}

#[test]
fn upkeep_follows_the_bounds() {
    assert_eq!(upkeep(2, 3, 8), Upkeep::Connect);
    assert_eq!(upkeep(3, 3, 8), Upkeep::Hold);
    assert_eq!(upkeep(8, 3, 8), Upkeep::Hold);
    assert_eq!(upkeep(11, 3, 8), Upkeep::Disconnect(3));
}

#[test]
fn dropping_stops_at_the_maximum() {
    match upkeep(20, 3, 12) {
        Upkeep::Disconnect(n) => assert_eq!(20 - n, 12),
        other => panic!("expected a disconnect, got {:?}", other),
    }
}

#[test]
fn registering_aims_at_the_larger_bound() {
    assert_eq!(register_target(3, 8), 8);
    assert_eq!(register_target(9, 8), 9);
}

#[test]
fn first_ids_takes_at_most_n() {
    let ids = strings(&["a", "b", "c"]);
    assert_eq!(first_ids(&ids, 2), strings(&["a", "b"]));
    assert_eq!(first_ids(&ids, 5), ids);
    assert_eq!(first_ids(&ids, 0), Vec::<String>::new());
}

#[test]
fn holds_finds_texts() {
    let ids = strings(&["a", "b"]);
    assert!(holds(&ids, "b"));
    assert!(!holds(&ids, "c"));
}

#[test]
fn dialed_addresses_are_new_and_few() {
    let stored = rows(&["1", "2", "3", "4", "5", "6", "7", "8", "9", "10", "11", "12"]);
    let current = strings(&["2"]);
    let mut failed = FailedPeers::new();
    failed.note_failed("4", 1_000);
    let c = dial_candidates(&stored, &current, &failed);
    assert_eq!(c, strings(&["1", "3", "5", "6", "7", "8", "9", "10"]));
}

#[test]
fn no_candidates_when_everything_is_taken() {
    let stored = rows(&["1", "2"]);
    let current = strings(&["1", "2"]);
    let failed = FailedPeers::new();
    assert!(dial_candidates(&stored, &current, &failed).is_empty());
}

#[test]
fn unanswered_keeps_the_order_of_the_candidates() {
    let candidates = strings(&["a", "b", "c", "d"]);
    let answered = strings(&["c", "a"]);
    assert_eq!(unanswered(&candidates, &answered), strings(&["b", "d"]));
}

#[test]
fn refused_address_is_skipped_within_backoff() {
    let mut failed = FailedPeers::new();
    failed.note_failed("1.2.3.4:21841", 10_000);
    failed.forget_stale(69_999);
    assert!(failed.holds("1.2.3.4:21841"));
    failed.forget_stale(70_000);
    assert!(!failed.holds("1.2.3.4:21841"));
}

#[test]
fn a_new_failure_renews_the_backoff() {
    let mut failed = FailedPeers::new();
    failed.note_failed("x", 0);
    failed.note_failed("x", 50_000);
    failed.forget_stale(100_000);
    assert!(failed.holds("x"));
}

#[test]
fn peers_stay_only_while_connected_and_not_removed() {
    assert!(keep_peer(Some("1"), Some("0")));
    assert!(keep_peer(Some("1"), None));
    assert!(!keep_peer(Some("0"), None));
    assert!(!keep_peer(None, None));
    assert!(!keep_peer(Some("1"), Some("-1")));
}
