use rubic::monitors::{
    queue_provider_status_check, request_priority_refresh, sweep_due, sweep_pick, viewed_due, StatusChecks,
    ViewedAssets,
};

#[test]
fn status_checks_are_handed_out_once() {
    let mut c = StatusChecks::new();
    queue_provider_status_check(&mut c, "A");
    queue_provider_status_check(&mut c, "B");
    queue_provider_status_check(&mut c, "A");
    let mut out = c.drain();
    out.sort();
    assert_eq!(out, vec!["A".to_string(), "B".to_string()]);
    assert!(c.drain().is_empty());
}

#[test]
fn viewed_assets_lapse_after_the_lease() {
    let mut v = ViewedAssets::new();
    request_priority_refresh(&mut v, "CFB", 1_000);
    request_priority_refresh(&mut v, "QX", 5_000);
    assert_eq!(v.current(10_999), vec!["CFB".to_string(), "QX".to_string()]);
    assert_eq!(v.current(11_000), vec!["QX".to_string()]);
    request_priority_refresh(&mut v, "QX", 14_000);
    assert_eq!(v.current(20_000), vec!["QX".to_string()]);
    assert!(v.current(24_000).is_empty());
}

#[test]
fn books_fall_due() {
    assert!(viewed_due(None, 0, 0));
    assert!(!viewed_due(Some((1_000, 5)), 1_499, 6));
    assert!(viewed_due(Some((1_000, 5)), 1_500, 6));
    assert!(!viewed_due(Some((1_000, 5)), 3_999, 5));
    assert!(viewed_due(Some((1_000, 5)), 4_000, 5));
    assert!(sweep_due(None, 0));
    assert!(!sweep_due(Some(1_000), 1_999));
    assert!(sweep_due(Some(1_000), 2_000));
    assert_eq!(sweep_pick(3, 3), (0, 1));
    assert_eq!(sweep_pick(1, 3), (1, 2));
}
