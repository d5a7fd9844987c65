use rubic::broadcast::{rebuild_kind, TxKind};
use rubic::confirm::{
    confirm_action, loop_action, status_after, ConfirmAction, LoopAction, Settled, TickRecord,
};
use rubic::rotation::Rotation;
use rubic::routes::miner::random::{
    sent_through, step_list, stop_random_session, stop_reply, StopPlan, NOT_RUNNING, UNKNOWN_SESSION,
};
use rubic::session::SessionInfo;
use rubic::session_store::{step_sent, Statement, SQL_SET_AUTO_RESTART, SQL_SET_PROGRESS, SQL_SET_STATUS};

fn row(pairs: &[(&str, &str)]) -> Vec<(String, String)> {
    pairs.iter().map(|(k, v)| (k.to_string(), v.to_string())).collect()
}

fn bind<'a>(st: &'a Statement, name: &str) -> &'a str {
    st.binds.iter().find(|b| b.0 == name).map(|b| b.1.as_str()).unwrap()
}

#[test]
fn stopping_a_session_is_planned() {
    match stop_random_session(4, &vec![]) {
        StopPlan::Refuse(t) => assert_eq!(t, UNKNOWN_SESSION),
        other => panic!("{:?}", other),
    }
    match stop_random_session(4, &vec![row(&[("status", "2")])]) {
        StopPlan::Refuse(t) => assert_eq!(t, NOT_RUNNING),
        other => panic!("{:?}", other),
    }
    match stop_random_session(4, &vec![row(&[("status", "0")])]) {
        StopPlan::Stop { request_stop, keep_mining_off } => {
            assert_eq!(request_stop.sql, SQL_SET_STATUS);
            assert_eq!(bind(&request_stop, ":status"), "1");
            assert_eq!(bind(&request_stop, ":id"), "4");
            assert_eq!(keep_mining_off.sql, SQL_SET_AUTO_RESTART);
            assert_eq!(bind(&keep_mining_off, ":on"), "0");
        },
        other => panic!("{:?}", other),
    }
    assert_eq!(stop_reply(&Ok(())), "Stop Requested");
    assert_eq!(stop_reply(&Err("locked".to_string())), "Failed To Stop Session: locked");
}

#[test]
fn the_step_list_shows_newest_first() {
    let session = row(&[("broadcast_through", "3"), ("leave_step", "3"), ("last_accepted_tick", "1003"), ("first_tick", "1000")]);
    assert_eq!(sent_through(&session), 3);
    assert_eq!(sent_through(&row(&[])), -1);
    let steps: Vec<Vec<(String, String)>> = (0..4)
        .map(|k| {
            let tick = (1000 + 3 * k).to_string();
            row(&[("step", &k.to_string()), ("tick", &tick), ("stay_txid", "S"), ("leave_txid", "L")])
        })
        .collect();
    let list = step_list(&session, &steps, Some(2));
    assert_eq!(list.len(), 2);
    assert_eq!(list[0].step, 3);
    assert_eq!(list[0].kind, "leave");
    assert_eq!(list[0].txid, "L");
    assert_eq!(list[0].accepted, "0");
    assert_eq!(list[1].step, 2);
    assert_eq!(list[1].kind, "reveal");
    assert_eq!(step_list(&session, &steps, None).len(), 4);
    assert_eq!(step_list(&session, &steps, None)[3].kind, "commit");
}

#[test]
fn a_pass_settles_a_transfer_only_on_evidence() {
    let stored = Some(TickRecord { valid: 1, digests_hash_len: 64, digests_len: 64 });
    assert_eq!(status_after(confirm_action(Settled::Undecided, false, 200, 100, stored), true), Some(0));
    assert_eq!(status_after(confirm_action(Settled::Undecided, false, 200, 100, stored), false), Some(1));
    assert_eq!(status_after(confirm_action(Settled::Undecided, false, 200, 100, None), false), None);
    assert_eq!(status_after(confirm_action(Settled::Undecided, false, 40_000, 100, None), false), Some(1));
    assert_eq!(status_after(confirm_action(Settled::Confirmed, true, 200, 100, None), false), Some(0));
    assert_eq!(status_after(ConfirmAction::Failed, true), Some(1));
}

#[test]
fn single_loop_gives_up_only_far_behind() {
    assert_eq!(loop_action(350_100, 100, None), LoopAction::RequestQuorumTick);
    assert_eq!(loop_action(350_101, 100, None), LoopAction::TooOld);
    let t = |valid, h, d| Some(TickRecord { valid, digests_hash_len: h, digests_len: d });
    assert_eq!(loop_action(500, 100, t(0, 64, 64)), LoopAction::RequestQuorumTick);
    assert_eq!(loop_action(500, 100, t(1, 4, 64)), LoopAction::RequestQuorumTick);
    assert_eq!(loop_action(500, 100, t(1, 64, 4)), LoopAction::RequestTickData);
    assert_eq!(loop_action(500, 100, t(1, 64, 64)), LoopAction::CheckDigests);
}

#[test]
fn resent_transactions_are_rebuilt_by_kind() {
    assert_eq!(rebuild_kind(None, Some(true), true), None);
    assert_eq!(rebuild_kind(Some(true), None, true), Some(TxKind::AssetTransfer));
    assert_eq!(rebuild_kind(Some(false), None, true), None);
    assert_eq!(rebuild_kind(Some(false), Some(true), true), Some(TxKind::QxOrder));
    assert_eq!(rebuild_kind(Some(false), Some(false), true), Some(TxKind::SessionStep));
    assert_eq!(rebuild_kind(Some(false), Some(false), false), Some(TxKind::Transfer));
}

#[test]
fn a_leave_ends_the_broadcasts() {
    let info = SessionInfo {
        id: 9,
        identity: "ID".to_string(),
        tier: 1,
        status: 1,
        first_tick: 1000,
        through: 2,
        leave_step: -1,
        last_accepted: 0,
        total: 11,
    };
    let sts = step_sent(&info, 3, true);
    assert_eq!(sts.len(), 2);
    assert_eq!(sts[0].sql, SQL_SET_STATUS);
    assert_eq!(bind(&sts[0], ":status"), "2");
    assert_eq!(sts[1].sql, SQL_SET_PROGRESS);
    assert_eq!(bind(&sts[1], ":through"), "3");
    assert_eq!(bind(&sts[1], ":leave"), "3");
    let sts = step_sent(&info, 3, false);
    assert_eq!(sts.len(), 1);
    assert_eq!(bind(&sts[0], ":leave"), "-1");
}

#[test]
fn passes_hand_out_the_cycle() {
    let list: Vec<String> = (0..5).map(|i| format!("id{}", i)).collect();
    let mut r = Rotation::new();
    assert_eq!(r.take_millis(&list, 10_000, 1_000), list);
    let mut seen: Vec<String> = Vec::new();
    for _ in 0..13 {
        seen.extend(r.take_millis(&list, 10_000, 1_000));
    }
    // 13 s at five identities per 10 s is six and a half identities: six handed out.
    let cycle: Vec<String> = list.iter().cycle().take(6).cloned().collect();
    assert_eq!(seen, cycle);
}
