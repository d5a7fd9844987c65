use rubic::confirm::{
    confirm_action, included, parse_valid, settle_from_entity_report, split_digests, stored_digests,
    ConfirmAction, Settled, TickRecord, TickRequests,
};

const DIGESTS_70: &str = "AAECAwQFBgcICQoLDA0ODxAREhMUFRYXGBkaGxwdHh8gISIjJCUmJygpKissLS4vMDEyMzQ1Njc4OTo7PD0+P0BBQkNERQ";

#[test]
fn no_report_leaves_a_transfer_open() {
    assert_eq!(settle_from_entity_report(None, 100), Settled::Undecided);
}

#[test]
fn one_peer_never_settles_a_transfer() {
    assert_eq!(settle_from_entity_report(Some((200, 100, 1)), 100), Settled::Undecided);
}

#[test]
fn only_later_reports_settle() {
    assert_eq!(settle_from_entity_report(Some((100, 100, 3)), 100), Settled::Undecided);
    assert_eq!(settle_from_entity_report(Some((99, 90, 3)), 100), Settled::Undecided);
}

#[test]
fn an_outgoing_transfer_at_the_tick_confirms() {
    assert_eq!(settle_from_entity_report(Some((101, 100, 2)), 100), Settled::Confirmed);
}

#[test]
fn no_outgoing_transfer_after_the_grace_fails() {
    assert_eq!(settle_from_entity_report(Some((106, 90, 2)), 100), Settled::Failed);
    // Within the grace ticks it stays open.
    assert_eq!(settle_from_entity_report(Some((105, 90, 2)), 100), Settled::Undecided);
}

#[test]
fn a_later_outgoing_transfer_leaves_it_open() {
    assert_eq!(settle_from_entity_report(Some((200, 150, 4)), 100), Settled::Undecided);
}

fn record(valid: i32, hash_len: usize, digests_len: usize) -> Option<TickRecord> {
    Some(TickRecord { valid, digests_hash_len: hash_len, digests_len })
}

#[test]
fn confirmed_transfers_refresh_their_source_unless_sent_to_the_contract() {
    assert_eq!(confirm_action(Settled::Confirmed, false, 500, 100, None), ConfirmAction::Confirmed { refresh_source: true });
    assert_eq!(confirm_action(Settled::Confirmed, true, 500, 100, None), ConfirmAction::Confirmed { refresh_source: false });
    assert_eq!(confirm_action(Settled::Failed, false, 500, 100, None), ConfirmAction::Failed);
}

#[test]
fn transfers_far_behind_are_given_up() {
    assert_eq!(confirm_action(Settled::Undecided, false, 35101, 100, record(1, 64, 64)), ConfirmAction::TooOld);
    assert_eq!(confirm_action(Settled::Undecided, false, 35100, 100, record(1, 64, 64)), ConfirmAction::CheckDigests);
}

#[test]
fn missing_tick_data_is_asked_for() {
    assert_eq!(confirm_action(Settled::Undecided, false, 200, 100, None), ConfirmAction::RequestTickData);
    assert_eq!(confirm_action(Settled::Undecided, false, 200, 100, record(0, 64, 64)), ConfirmAction::RequestTickData);
    assert_eq!(confirm_action(Settled::Undecided, false, 200, 100, record(1, 7, 64)), ConfirmAction::RequestTickData);
    assert_eq!(confirm_action(Settled::Undecided, false, 200, 100, record(1, 8, 7)), ConfirmAction::RequestTickData);
    assert_eq!(confirm_action(Settled::Undecided, false, 200, 100, record(1, 8, 8)), ConfirmAction::CheckDigests);
}

#[test]
fn valid_column_reads_as_a_number() {
    assert_eq!(parse_valid("1"), Some(1));
    assert_eq!(parse_valid("0"), Some(0));
    assert_eq!(parse_valid("-3"), Some(-3));
    assert_eq!(parse_valid("true"), None);
    assert_eq!(parse_valid("2147483648"), None);
}

#[test]
fn digests_split_into_whole_32_byte_pieces() {
    let bytes: Vec<u8> = (0u8..70).collect();
    let d = split_digests(&bytes);
    assert_eq!(d.len(), 2);
    assert_eq!(d[0], (0u8..32).collect::<Vec<u8>>());
    assert_eq!(d[1], (32u8..64).collect::<Vec<u8>>());
}

#[test]
fn stored_digests_are_decoded_then_split() {
    let d = stored_digests(DIGESTS_70).unwrap();
    assert_eq!(d.len(), 2);
    assert_eq!(d[1], (32u8..64).collect::<Vec<u8>>());
    assert_eq!(stored_digests("AQID").unwrap().len(), 0);
    assert_eq!(stored_digests("not base64!"), None);
}

#[test]
fn inclusion_ignores_case() {
    let ids = vec!["abcdef".to_string(), "QRSTUV".to_string()];
    assert!(included("ABCDEF", &ids));
    assert!(included("qrstuv", &ids));
    assert!(!included("abcdeg", &ids));
    assert!(!included("abcdef", &vec![]));
}

#[test]
fn tick_data_not_asked_twice_within_interval() {
    let mut r = TickRequests::new();
    assert!(r.note_request(7, 1_000));
    assert!(!r.note_request(7, 10_999));
    assert!(r.note_request(8, 10_999));
    assert!(r.note_request(7, 11_000));
    assert!(!r.note_request(7, 5_000));
}

#[test]
fn tick_requests_are_forgotten_after_an_hour() {
    let mut r = TickRequests::new();
    assert!(r.note_request(7, 0));
    assert!(r.note_request(9, 3_595_000));
    r.forget_old(3_600_000);
    // Tick 7 was forgotten: even a clock reading just after its request lets it through.
    assert!(r.note_request(7, 5));
    // Tick 9 was kept.
    assert!(!r.note_request(9, 3_600_001));
}
