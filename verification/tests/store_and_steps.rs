use rubic::random::{is_tier, tier_amount_of, tier_index, ProviderSlot};
use rubic::row::{get, num_i64, num_u32, num_u64, position};
use rubic::routes::miner::random::session_summary;
use rubic::session::{session_info, DEFAULT_STEPS};
use rubic::session_store::set_session_accepted;
use rubic::session_store::{
    count_of, fetch_session, fetch_sessions, first_row, insert_session, insert_step, prune_steps, pruned_count,
    provider_status_of, set_session_failed, set_session_progress, NewStep, Statement, SQL_INSERT_SESSION,
    SQL_INSERT_STEP, SQL_PRUNE_STEPS, SQL_SESSION, SQL_SESSIONS, SQL_SET_FAILED, SQL_SET_PROGRESS,
};
use rubic::step::{first_status, is_leave_txid, step_parts, step_transfer};

fn row(pairs: &[(&str, &str)]) -> Vec<(String, String)> {
    pairs.iter().map(|(k, v)| (k.to_string(), v.to_string())).collect()
}

fn bind<'a>(st: &'a Statement, name: &str) -> &'a str {
    st.binds.iter().find(|b| b.0 == name).map(|b| b.1.as_str()).unwrap()
}

#[test]
fn tiers_are_powers_of_ten() {
    assert_eq!(tier_amount_of(0), 1);
    assert_eq!(tier_amount_of(3), 1000);
    assert_eq!(tier_amount_of(9), 1_000_000_000);
    assert_eq!(tier_amount_of(10), 0);
    assert_eq!(tier_index(1000), Some(3));
    assert_eq!(tier_index(5), None);
    assert!(is_tier(1_000_000_000));
    assert!(!is_tier(0));
    let slot = ProviderSlot { stream: 1, tier: 2, locked: 100, contributed: false, last_update_tick: 9 };
    assert_eq!(slot.tier_amount(), 100);
}

#[test]
fn rows_are_read_by_column() {
    let r = row(&[("a", "12"), ("b", "-4"), ("c", "x"), ("a", "13")]);
    assert_eq!(position(&r, "a"), Some(0));
    assert_eq!(position(&r, "z"), None);
    assert_eq!(get(&r, "c"), "x");
    assert_eq!(get(&r, "z"), "");
    assert_eq!(num_u32(&r, "a"), Some(12));
    assert_eq!(num_u64(&r, "c"), None);
    assert_eq!(num_i64(&r, "b"), Some(-4));
    assert_eq!(num_u32(&r, "b"), None);
}

#[test]
fn session_statements_carry_their_parameters() {
    let st = fetch_sessions(20);
    assert!(st.columns.contains(&"total_steps"));
    assert_eq!(st.sql, SQL_SESSIONS);
    assert_eq!(bind(&st, ":limit"), "20");
    assert_eq!(fetch_session(-3).sql, SQL_SESSION);
    assert_eq!(bind(&fetch_session(-3), ":id"), "-3");
    let st = set_session_failed(9, 1200, "late");
    assert_eq!(st.sql, SQL_SET_FAILED);
    assert_eq!(bind(&st, ":status"), "3");
    assert_eq!(bind(&st, ":failed_tick"), "1200");
    assert_eq!(bind(&st, ":reason"), "late");
    let st = set_session_progress(9, 4, -1);
    assert_eq!(st.sql, SQL_SET_PROGRESS);
    assert_eq!(bind(&st, ":through"), "4");
    assert_eq!(bind(&st, ":leave"), "-1");
    let st = insert_session("ID", 1000, 55, true, 2, 40);
    assert_eq!(st.sql, SQL_INSERT_SESSION);
    assert_eq!(bind(&st, ":auto_restart"), "1");
    assert_eq!(bind(&st, ":fail_streak"), "2");
    assert_eq!(bind(&st, ":total_steps"), "40");
}

#[test]
fn a_step_stores_both_variants() {
    let s = NewStep {
        step: 2,
        tick: 1006,
        reveal_secret: "aa".to_string(),
        commit_secret: "bb".to_string(),
        stay: Some(("stx".to_string(), "ssig".to_string())),
        leave: None,
    };
    let st = insert_step(4, &s);
    assert_eq!(st.sql, SQL_INSERT_STEP);
    assert_eq!(bind(&st, ":step"), "2");
    assert_eq!(bind(&st, ":stay_txid"), "stx");
    assert_eq!(bind(&st, ":leave_txid"), "");
    assert_eq!(bind(&st, ":leave_sig"), "");
}

#[test]
fn the_step_table_is_pruned_beyond_its_bound() {
    assert!(prune_steps(100, 100).is_none());
    let st = prune_steps(100, 130).unwrap();
    assert_eq!(st.sql, SQL_PRUNE_STEPS);
    assert_eq!(bind(&st, ":excess"), "30");
    assert_eq!(pruned_count(130, 100), 30);
    assert_eq!(pruned_count(100, 130), 0);
}

#[test]
fn counts_and_provider_rows_are_read() {
    assert_eq!(count_of(&vec![], 7), 7);
    assert_eq!(count_of(&vec![row(&[("n", "12")])], 7), 12);
    assert_eq!(count_of(&vec![row(&[("n", "?")])], 7), 7);
    assert_eq!(provider_status_of(&vec![]), None);
    assert_eq!(provider_status_of(&vec![row(&[("checked_tick", "55"), ("slots", "[]")])]), Some((55, "[]".to_string())));
    assert_eq!(first_row(vec![row(&[("a", "1")]), row(&[("a", "2")])]), Some(row(&[("a", "1")])));
    assert_eq!(first_row(vec![]), None);
}

#[test]
fn stored_steps_rebuild_their_transfer() {
    let session = row(&[("identity", "SRC"), ("tier", "100")]);
    let step = row(&[
        ("tick", "1003"),
        ("reveal_secret", "0a0b"),
        ("commit_secret", "ff"),
        ("stay_sig", "0102"),
        ("leave_sig", ""),
        ("stay_txid", "STAY"),
        ("leave_txid", "LEAVE"),
    ]);
    let parts = step_parts(&session, &step, false).unwrap();
    assert_eq!(parts.source, "SRC");
    assert_eq!(parts.amount, 100);
    assert_eq!(parts.tick, 1003);
    assert_eq!(parts.reveal, vec![10, 11]);
    assert_eq!(parts.commit_secret, Some(vec![255]));
    assert_eq!(parts.signature, vec![1, 2]);
    // The leave variant was never signed.
    assert!(step_parts(&session, &step, true).is_none());
    let t = step_transfer(&step, &parts, false);
    assert_eq!(t.signature, "0102");
    assert_eq!(t.txid, "STAY");
    assert!(is_leave_txid(&step, "LEAVE"));
    assert!(!is_leave_txid(&step, "STAY"));
    assert_eq!(first_status(&vec![row(&[("status", "0")])]), Some("0".to_string()));
    assert_eq!(first_status(&vec![]), None);
}

#[test]
fn stored_progress_reads_back() {
    let progress = set_session_progress(-12, 41, 42);
    let accepted = set_session_accepted(-12, 4_000_000_000);
    let r = row(&[
        ("id", bind(&progress, ":id")),
        ("broadcast_through", bind(&progress, ":through")),
        ("leave_step", bind(&progress, ":leave")),
        ("last_accepted_tick", bind(&accepted, ":tick")),
    ]);
    let info = session_info(&r, 5).unwrap();
    assert_eq!(info.id, -12);
    assert_eq!(info.through, 41);
    assert_eq!(info.leave_step, 42);
    assert_eq!(info.last_accepted, 4_000_000_000);
}

#[test]
fn the_signed_step_count_reads_back() {
    let st = insert_session("ID", 1000, 55, false, 0, 40);
    let stored = bind(&st, ":total_steps").to_string();
    let r = row(&[("id", "3"), ("first_tick", "55"), ("total_steps", stored.as_str())]);
    assert_eq!(session_info(&r, DEFAULT_STEPS).unwrap().total, 41);
    assert_eq!(session_summary(&r, DEFAULT_STEPS).steps, 41);
    let none = row(&[("id", "3"), ("first_tick", "55")]);
    assert_eq!(session_info(&none, DEFAULT_STEPS).unwrap().total, 1001);
    assert_eq!(session_summary(&none, DEFAULT_STEPS).steps, 1001);
}
