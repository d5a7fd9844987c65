use rubic::broadcast::{record_send, send_action, SendAction, SendPriority};
use rubic::confirm::{loop_action, loop_record_send, loop_status, LoopAction};
use rubic::rotation::Rotation;
use rubic::session_store::Statement;
use rubic::tick_watch::{BalancePass, BalanceRound};
use rubic::transfer_store::{
    set_broadcasted_transfer_as_failure, set_broadcasted_transfer_as_success, set_transfer_as_broadcast,
    settle_statement, SQL_SET_BROADCAST, SQL_SET_BROADCAST_AT, SQL_SET_FAILURE, SQL_SET_SUCCESS,
};

fn bind<'a>(st: &'a Statement, name: &str) -> &'a str {
    st.binds.iter().find(|b| b.0 == name).map(|b| b.1.as_str()).unwrap()
}

fn ids(names: &[&str]) -> Vec<String> {
    names.iter().map(|n| n.to_string()).collect()
}

#[test]
fn the_broadcast_mark_carries_the_send_tick() {
    let st = set_transfer_as_broadcast("TX", Some(1234));
    assert_eq!(st.sql, SQL_SET_BROADCAST_AT);
    assert_eq!(bind(&st, ":txid"), "TX");
    assert_eq!(bind(&st, ":tick"), "1234");
    let st = set_transfer_as_broadcast("TX", None);
    assert_eq!(st.sql, SQL_SET_BROADCAST);
    assert_eq!(st.binds.len(), 1);
}

#[test]
fn settled_statuses_become_their_statements() {
    assert_eq!(set_broadcasted_transfer_as_success("A").sql, SQL_SET_SUCCESS);
    assert_eq!(set_broadcasted_transfer_as_failure("A").sql, SQL_SET_FAILURE);
    assert_eq!(settle_statement("A", Some(0)).unwrap().sql, SQL_SET_SUCCESS);
    let failed = settle_statement("B", Some(1)).unwrap();
    assert_eq!(failed.sql, SQL_SET_FAILURE);
    assert_eq!(bind(&failed, ":txid"), "B");
    assert!(settle_statement("A", None).is_none());
    assert!(settle_statement("A", Some(-1)).is_none());
}

#[test]
fn a_pass_picks_wait_or_send() {
    // First sends go out urgently, whatever they are.
    assert_eq!(send_action(true, Some("0"), Some("99"), 100), SendAction::Send(SendPriority::Urgent));
    assert_eq!(send_action(false, None, None, 100), SendAction::Send(SendPriority::Urgent));
    // A resent session step waits for its pace: 98 + 3 > 100.
    assert_eq!(send_action(true, Some("1"), Some("98"), 100), SendAction::Wait);
    assert_eq!(send_action(true, Some("1"), Some("97"), 100), SendAction::Send(SendPriority::High));
    // Other resends are never held back.
    assert_eq!(send_action(false, Some("1"), Some("99"), 100), SendAction::Send(SendPriority::Routine));
}

#[test]
fn a_transfer_is_marked_only_once_its_request_was_taken() {
    let sent = SendAction::Send(SendPriority::High);
    let st = record_send(sent, true, "TX", 100).unwrap();
    assert_eq!(st.sql, SQL_SET_BROADCAST_AT);
    assert_eq!(bind(&st, ":tick"), "100");
    assert!(record_send(sent, false, "TX", 100).is_none());
    assert!(record_send(SendAction::Wait, true, "TX", 100).is_none());
}

#[test]
fn the_single_loop_marks_after_its_request_and_settles_on_evidence() {
    let st = loop_record_send(true, "TX").unwrap();
    assert_eq!(st.sql, SQL_SET_BROADCAST);
    assert_eq!(bind(&st, ":txid"), "TX");
    assert!(loop_record_send(false, "TX").is_none());
    let too_old = loop_action(400_001, 50_000, None);
    assert_eq!(too_old, LoopAction::TooOld);
    assert_eq!(loop_status(too_old, false), Some(1));
    let ask = loop_action(400_000, 50_000, None);
    assert_eq!(ask, LoopAction::RequestQuorumTick);
    assert_eq!(loop_status(ask, true), None);
    assert_eq!(loop_status(LoopAction::CheckDigests, true), Some(0));
    assert_eq!(loop_status(LoopAction::CheckDigests, false), Some(1));
    assert_eq!(loop_status(LoopAction::RequestTickData, true), None);
}

#[test]
fn a_round_without_a_new_tick_asks_nothing() {
    let list = ids(&["A", "B", "C"]);
    let mut r = BalanceRound::new();
    assert!(r.fits(list.len(), 0));
    assert!(r.round(0, &list, 0).is_none());
    // The first round with a new tick asks for every identity, both ways.
    let a = r.round(5, &list, 0).unwrap();
    assert_eq!(a.pass, BalancePass { delete_before: None });
    assert_eq!(a.balances, list);
    assert_eq!(a.holdings, list);
    // No new tick: nothing asked, however much time went by.
    assert!(r.round(5, &list, 10_000).is_none());
    assert!(r.round(4, &list, 10_000).is_none());
    // Then 10 s later: one full round of balances, no holdings yet.
    let a = r.round(6, &list, 10_000).unwrap();
    assert_eq!(a.balances, list);
    assert!(a.holdings.is_empty());
    // 20 s more: holdings have earned 3 * 30 000 / 60 000 = 1 identity.
    let a = r.round(7, &list, 20_000).unwrap();
    assert_eq!(a.holdings, ids(&["A"]));
}

#[test]
fn a_round_paces_balances_over_the_interval() {
    let list = ids(&["A", "B", "C", "D", "E"]);
    let mut r = BalanceRound::new();
    r.round(1, &list, 0).unwrap();
    // 2 s of a 10 s interval over five identities: one is due.
    let a = r.round(2, &list, 2_000).unwrap();
    assert_eq!(a.balances, ids(&["A"]));
    let a = r.round(3, &list, 4_000).unwrap();
    assert_eq!(a.balances, ids(&["B", "C"]));
}

#[test]
fn the_counters_refuse_a_pass_they_cannot_hold() {
    let r = Rotation::new();
    assert!(r.fits_millis(0, u128::MAX, u128::MAX));
    assert!(r.fits_millis(3, 10_000, 1_000));
    assert!(!r.fits_millis(3, 10_000, u128::MAX / 2));
    let round = BalanceRound::new();
    assert!(!round.fits(2, u128::MAX));
}
