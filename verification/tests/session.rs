use rubic::judge::{Gone, Verdict};
use rubic::session::{
    broadcast_plan, chain_plan, check_pass_fits, judge_leave, needed_peers, reason_text, restart_note, restart_plan,
    session_info, settle, FailReason, LeaveOutcome, Restart, SessionInfo, Settlement, StepPlan, STATUS_RUNNING,
    STATUS_STOP_REQUESTED,
};

fn row(pairs: &[(&str, &str)]) -> Vec<(String, String)> {
    pairs.iter().map(|(k, v)| (k.to_string(), v.to_string())).collect()
}

fn info(status: i64, through: i64, leave_step: i64, last_accepted: u32) -> SessionInfo {
    SessionInfo {
        id: 7,
        identity: "ID".to_string(),
        tier: 1000,
        status,
        first_tick: 1000,
        through,
        leave_step,
        last_accepted,
        total: 11,
    }
}

#[test]
fn a_session_row_is_read_with_defaults() {
    let r = row(&[("id", "7"), ("identity", "ID"), ("tier", "1000"), ("first_tick", "1000"), ("total_steps", "10")]);
    let s = session_info(&r, 50).unwrap();
    assert_eq!(s.id, 7);
    assert_eq!(s.identity, "ID");
    assert_eq!(s.status, STATUS_RUNNING);
    assert_eq!(s.through, -1);
    assert_eq!(s.leave_step, -1);
    assert_eq!(s.last_accepted, 0);
    assert_eq!(s.total, 11);
    assert_eq!(session_info(&row(&[("id", "x")]), 50).is_none(), true);
    assert_eq!(session_info(&row(&[("id", "3")]), 50).unwrap().total, 51);
}

#[test]
fn two_peers_must_agree_unless_fewer_are_connected() {
    assert_eq!(needed_peers(0), 1);
    assert_eq!(needed_peers(1), 1);
    assert_eq!(needed_peers(2), 2);
    assert_eq!(needed_peers(9), 2);
}

#[test]
fn pass_arithmetic_is_checked() {
    assert!(check_pass_fits(&info(STATUS_RUNNING, -1, -1, 0), 0, 1000));
    assert!(!check_pass_fits(&info(STATUS_RUNNING, 11, -1, 0), 0, 1000));
    assert!(!check_pass_fits(&info(STATUS_RUNNING, -1, 0, 0), 0, 1000));
}

#[test]
fn a_gone_slot_before_the_first_commit_fails_it() {
    let v = Verdict { last_accepted: 0, gone: Some(Gone { judged: 0, newest: 1010, peers: 2 }), not_accepted: None };
    let (acc, s) = settle(&info(STATUS_RUNNING, 3, -1, 0), &v);
    assert_eq!(acc, None);
    assert_eq!(s, Settlement::Fail { tick: 1000, reason: FailReason::FirstCommitNotAccepted { first_tick: 1000 } });
}

#[test]
fn a_gone_slot_after_progress_is_an_eviction() {
    let v = Verdict { last_accepted: 1006, gone: Some(Gone { judged: 4, newest: 1020, peers: 3 }), not_accepted: None };
    let (acc, s) = settle(&info(STATUS_RUNNING, 4, -1, 1003), &v);
    assert_eq!(acc, Some(1006));
    assert_eq!(s, Settlement::Fail { tick: 1009, reason: FailReason::Evicted { missed_tick: 1009, peers: 3, tier: 1000 } });
}

#[test]
fn a_gone_slot_after_the_leave_checks_the_leave() {
    let v = Verdict { last_accepted: 1006, gone: Some(Gone { judged: 5, newest: 1020, peers: 2 }), not_accepted: None };
    let (_, s) = settle(&info(STATUS_RUNNING, 5, 5, 1006), &v);
    assert_eq!(s, Settlement::CheckLeave { leave_tick: 1015, absent_newest: 1020 });
}

#[test]
fn a_step_not_accepted_ends_the_session() {
    let v = Verdict { last_accepted: 1003, gone: None, not_accepted: Some((1009, 2)) };
    let (_, s) = settle(&info(STATUS_RUNNING, 5, -1, 1003), &v);
    assert_eq!(s, Settlement::Fail { tick: 1009, reason: FailReason::StepNotAccepted { due_tick: 1009, last_accepted: 1003, peers: 2 } });
    let quiet = Verdict { last_accepted: 1003, gone: None, not_accepted: None };
    assert_eq!(settle(&info(STATUS_RUNNING, 5, -1, 1003), &quiet).1, Settlement::Continue);
}

#[test]
fn leaves_are_judged() {
    let s = info(STATUS_RUNNING, 5, 5, 0);
    let included = Some("0".to_string());
    let missing = Some("1".to_string());
    assert_eq!(judge_leave(&s, 0, 1015, 1016, &included, false), LeaveOutcome::Left { leave_tick: 1015 });
    assert_eq!(judge_leave(&s, 1012, 1015, 1016, &None, false), LeaveOutcome::Left { leave_tick: 1015 });
    assert_eq!(judge_leave(&s, 1009, 1015, 1016, &None, true), LeaveOutcome::Wait { ask: true });
    assert_eq!(
        judge_leave(&s, 1009, 1015, 1016, &missing, false),
        LeaveOutcome::Failed { tick: 1015, reason: FailReason::LeaveNotIncluded { leave_tick: 1015, tier: 1000 } }
    );
    assert_eq!(
        judge_leave(&s, 1009, 1015, 1045, &None, false),
        LeaveOutcome::Failed { tick: 1015, reason: FailReason::LeaveUnverified { leave_tick: 1015 } }
    );
}

#[test]
fn steps_go_out_as_their_ticks_come_near() {
    let (steps, fail) = broadcast_plan(&info(STATUS_RUNNING, 0, -1, 0), 990, true);
    // Steps 1.. at ticks 1003, 1006, ...; the window reaches tick 1014.
    assert_eq!(steps, vec![(1, false), (2, false), (3, false), (4, false)]);
    assert_eq!(fail, None);
    let (steps, _) = broadcast_plan(&info(STATUS_RUNNING, 0, -1, 0), 990, false);
    assert!(steps.is_empty());
}

#[test]
fn a_stop_request_leaves_at_the_next_step() {
    let (steps, _) = broadcast_plan(&info(STATUS_STOP_REQUESTED, 2, -1, 0), 990, true);
    assert_eq!(steps, vec![(3, true)]);
}

#[test]
fn the_last_step_only_leaves() {
    let (steps, _) = broadcast_plan(&info(STATUS_RUNNING, 8, -1, 0), 1010, true);
    assert_eq!(steps, vec![(9, false), (10, true)]);
}

#[test]
fn a_step_too_close_to_its_tick_fails_the_session() {
    let (steps, fail) = broadcast_plan(&info(STATUS_RUNNING, 0, -1, 0), 1001, true);
    assert!(steps.is_empty());
    assert_eq!(fail, Some((1003, FailReason::SentTooLate { step: 1, tick: 1003, latest: 1001 })));
}

#[test]
fn reasons_read_as_sentences() {
    assert_eq!(
        reason_text(&FailReason::FirstCommitNotAccepted { first_tick: 12 }),
        "the first commit at tick 12 was not accepted by the contract (wrong amount, stream full, or not included)"
    );
    assert_eq!(
        reason_text(&FailReason::LeaveUnverified { leave_tick: 40 }),
        "the reveal-and-leave at tick 40 could not be verified: peers did not report on it within 30 ticks"
    );
    assert_eq!(
        reason_text(&FailReason::SentTooLate { step: 3, tick: 9, latest: 8 }),
        "step 3 (tick 9) could not be sent in time; the latest tick was already 8"
    );
}

#[test]
fn keep_mining_restarts_until_the_streak_gives_up() {
    let base = [("auto_restart", "1"), ("tier", "10"), ("first_tick", "100"), ("last_accepted_tick", "0"), ("total_steps", "20")];
    let r = row(&base);
    assert_eq!(restart_plan(&r, true, 500, 50), Restart::Start { streak: 1, tier: 10, first_tick: 530, steps: 20 });
    assert_eq!(restart_plan(&r, false, 500, 50), Restart::SeedGone);
    let mut tired = base.to_vec();
    tired.push(("fail_streak", "2"));
    assert_eq!(restart_plan(&row(&tired), true, 500, 50), Restart::GaveUp { streak: 3 });
    let progressed = row(&[("auto_restart", "1"), ("first_tick", "100"), ("last_accepted_tick", "103"), ("fail_streak", "2")]);
    assert_eq!(restart_plan(&progressed, true, 500, 50), Restart::Start { streak: 0, tier: 0, first_tick: 530, steps: 50 });
    assert_eq!(restart_plan(&row(&[("auto_restart", "0")]), true, 500, 50), Restart::Off);
}

#[test]
fn restart_notes() {
    let start = Restart::Start { streak: 0, tier: 1, first_tick: 2, steps: 3 };
    assert_eq!(restart_note(&start, &Some(Ok(42))), "; continued as session 42");
    assert_eq!(restart_note(&start, &Some(Err("busy".to_string()))), "; could not start a new session: busy");
    assert_eq!(restart_note(&Restart::Off, &None), "");
    assert_eq!(
        restart_note(&Restart::GaveUp { streak: 3 }, &None),
        "; not restarted after 3 failures in a row without an accepted step"
    );
}

#[test]
fn chains_link_up() {
    let plan = chain_plan(1000, 3, 100);
    assert_eq!(plan.len(), 4);
    assert_eq!(plan[0], StepPlan { step: 0, tick: 1000, reveal: None, commit: Some(0), stay: true, leave: false });
    assert_eq!(plan[1], StepPlan { step: 1, tick: 1003, reveal: Some(0), commit: Some(1), stay: true, leave: true });
    assert_eq!(plan[3], StepPlan { step: 3, tick: 1009, reveal: Some(2), commit: None, stay: false, leave: true });
    assert_eq!(chain_plan(1000, 0, 100).len(), 2);
    assert_eq!(chain_plan(1000, 500, 100).len(), 101);
}
