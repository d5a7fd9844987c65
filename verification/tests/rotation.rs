use std::time::Duration;
use rubic::rotation::Rotation;

fn ids(n: usize) -> Vec<String> {
    (0..n).map(|i| format!("id{}", i)).collect()
}

/// A rotation past its first pass, which polls the whole list at once.
fn primed(list: &[String]) -> Rotation {
    let mut rotation = Rotation::new();
    assert_eq!(rotation.take(list, Duration::from_secs(10), Duration::from_secs(1)), list, "the first pass covers everything");
    rotation
}

#[test]
fn every_identity_once_per_interval() {
    let list = ids(20);
    let mut rotation = primed(&list);
    let mut seen: Vec<String> = vec![];
    for _ in 0..10 {
        seen.extend(rotation.take(&list, Duration::from_secs(10), Duration::from_secs(1)));
    }
    assert_eq!(seen, list, "ten one-second passes cover the whole list exactly once");
}

#[test]
fn small_wallets_are_not_polled_faster() {
    let list = ids(3);
    let mut rotation = primed(&list);
    let mut taken = 0;
    for _ in 0..30 {
        taken += rotation.take(&list, Duration::from_secs(10), Duration::from_secs(1)).len();
    }
    assert_eq!(taken, 9, "three identities over 30 s is three rounds");
}

#[test]
fn stall_is_capped_to_one_round() {
    let list = ids(5);
    let mut rotation = primed(&list);
    let burst = rotation.take(&list, Duration::from_secs(10), Duration::from_secs(600));
    assert_eq!(burst.len(), 5);
    assert!(rotation.take(&list, Duration::from_secs(10), Duration::from_secs(1)).is_empty());
}

#[test]
fn empty_list_resets() {
    let mut rotation = Rotation::new();
    assert!(rotation.take(&[], Duration::from_secs(10), Duration::from_secs(1)).is_empty());
    let list = ids(2);
    assert_eq!(rotation.take(&list, Duration::from_secs(10), Duration::from_secs(1)), list);
}

#[test]
fn rounds_wrap_around_the_list() {
    let list = ids(4);
    let mut rotation = primed(&list);
    // 4 identities per 10 s: 5 s earns two of them.
    assert_eq!(rotation.take(&list, Duration::from_secs(10), Duration::from_secs(5)), vec!["id0", "id1"]);
    assert_eq!(rotation.take(&list, Duration::from_secs(10), Duration::from_secs(5)), vec!["id2", "id3"]);
    assert_eq!(rotation.take(&list, Duration::from_secs(10), Duration::from_millis(7500)), vec!["id0", "id1", "id2"]);
}

#[test]
fn a_zero_interval_counts_as_one_millisecond() {
    let list = ids(2);
    let mut rotation = primed(&list);
    assert_eq!(rotation.take(&list, Duration::from_millis(0), Duration::from_millis(0)).len(), 0);
    assert_eq!(rotation.take(&list, Duration::from_millis(0), Duration::from_millis(3)).len(), 2);
}

#[test]
fn checked_pass_absorbs_the_longest_stall() {
    let list = ids(3);
    let mut rotation = primed(&list);
    assert_eq!(rotation.take_checked(&list, Duration::from_secs(10), Duration::MAX).unwrap().len(), 3);
    assert_eq!(rotation.take_checked(&list, Duration::from_secs(10), Duration::from_secs(5)).unwrap(), vec!["id0"]);
}
