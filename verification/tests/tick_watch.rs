use rubic::tick_watch::{drop_peer, due, BalanceLoop, BalancePass, PeerLoop, PeerPass};

#[test]
fn balance_pass_follows_the_tick() {
    let mut b = BalanceLoop::new();
    assert_eq!(b.pass(0), None);
    assert_eq!(b.pass(50), Some(BalancePass { delete_before: None }));
    assert_eq!(b.pass(50), None);
    assert_eq!(b.pass(120), Some(BalancePass { delete_before: None }));
    // The tick acted on was 120, 120 - 0 > 100: delete before 20.
    assert_eq!(b.pass(130), Some(BalancePass { delete_before: Some(20) }));
    // The last deletion counted to 120; 130 - 120 is not over 100.
    assert_eq!(b.pass(300), Some(BalancePass { delete_before: None }));
    // 300 - 120 > 100: delete before 200.
    assert_eq!(b.pass(301), Some(BalancePass { delete_before: Some(200) }));
}

#[test]
fn balances_refresh_when_the_tick_moves_past_fifteen() {
    let mut p = PeerLoop::new(100);
    assert_eq!(p.pass(115), PeerPass { refresh_balances: false, drop_all_peers: false });
    assert_eq!(p.pass(116), PeerPass { refresh_balances: true, drop_all_peers: false });
    assert_eq!(p.pass(120), PeerPass { refresh_balances: false, drop_all_peers: false });
}

#[test]
fn peer_loop_never_drops_every_peer() {
    let mut p = PeerLoop::new(0);
    for t in 1..500u32 {
        let pass = p.pass(t);
        assert!(!pass.drop_all_peers);
    }
}

#[test]
fn single_thread_loop_drops_disconnected_peers() {
    assert!(drop_peer(true, Some("1")));
    assert!(drop_peer(false, Some("0")));
    assert!(!drop_peer(false, Some("1")));
    assert!(!drop_peer(false, None));
}

#[test]
fn timed_requests_fall_due() {
    assert!(due(None, 0, 900));
    assert!(!due(Some(1_000), 1_899, 900));
    assert!(due(Some(1_000), 1_900, 900));
    assert!(due(Some(u64::MAX), u64::MAX, 0));
    assert!(!due(Some(u64::MAX - 1), u64::MAX, 86_400_000));
}
