use rubic::settings::{host_setting, min_peers_setting, port_setting};

#[test]
fn settings_fall_back_to_their_defaults() {
    assert_eq!(host_setting(None), "127.0.0.1");
    assert_eq!(host_setting(Some("0.0.0.0")), "0.0.0.0");
    assert_eq!(port_setting(None), "3000");
    assert_eq!(port_setting(Some("9000")), "9000");
}

#[test]
fn min_peers_reads_a_number_or_defaults_to_three() {
    assert_eq!(min_peers_setting(None), 3);
    assert_eq!(min_peers_setting(Some("5")), 5);
    assert_eq!(min_peers_setting(Some("+7")), 7);
    assert_eq!(min_peers_setting(Some("five")), 3);
    assert_eq!(min_peers_setting(Some("-1")), 3);
}
