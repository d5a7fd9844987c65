use rubic::judge::{judge_reports, Gone, REPORT_MAX_AGE_TICKS};
use rubic::random::ProviderSlot;

const FIRST: u32 = 1000;
const TIER: u64 = 1;

fn slot(last_update: u32) -> Vec<ProviderSlot> {
    vec![ProviderSlot { stream: 0, tier: 0, locked: 1, contributed: true, last_update_tick: last_update }]
}

fn report(peer: &str, checked: u32, slots: Vec<ProviderSlot>) -> (String, u32, Vec<ProviderSlot>) {
    (peer.to_string(), checked, slots)
}

#[test]
fn one_peer_saying_gone_is_not_enough() {
    let reports = vec![report("a", 1030, vec![])];
    let v = judge_reports(&reports, TIER, FIRST, 10, -1, 1021, 1030, 2);
    assert_eq!(v.gone, None);
    assert_eq!(v.not_accepted, None);
}

#[test]
fn two_peers_over_a_stream_period_mean_gone() {
    let reports = vec![report("a", 1030, vec![]), report("b", 1033, vec![])];
    let v = judge_reports(&reports, TIER, FIRST, 10, -1, 1021, 1033, 2);
    assert_eq!(v.gone, Some(Gone { judged: 10, newest: 1033, peers: 2 }));
}

#[test]
fn two_peers_at_the_same_tick_must_wait() {
    let reports = vec![report("a", 1030, vec![]), report("b", 1030, vec![])];
    let v = judge_reports(&reports, TIER, FIRST, 10, -1, 1021, 1030, 2);
    assert_eq!(v.gone, None);
}

#[test]
fn a_newer_sighting_of_the_slot_outranks_older_empty_reports() {
    let reports = vec![report("a", 1030, vec![]), report("b", 1033, vec![]), report("c", 1036, slot(1033))];
    let v = judge_reports(&reports, TIER, FIRST, 12, -1, 1021, 1036, 2);
    assert_eq!(v.gone, None);
    assert_eq!(v.last_accepted, 1033, "the sighting also advances the accepted tick");
}

#[test]
fn stale_empty_reports_do_not_count() {
    let reports = vec![report("a", 1030, vec![]), report("b", 1033, vec![])];
    let v = judge_reports(&reports, TIER, FIRST, 10, -1, 1021, 1033 + REPORT_MAX_AGE_TICKS + 1, 2);
    assert_eq!(v.gone, None);
}

#[test]
fn after_a_leave_no_span_is_needed() {
    // Leave at step 10 (tick 1030): reports from tick 1033 on settle it.
    let reports = vec![report("a", 1033, vec![]), report("b", 1033, vec![])];
    let v = judge_reports(&reports, TIER, FIRST, 10, 10, 1027, 1033, 2);
    assert_eq!(v.gone, Some(Gone { judged: 10, newest: 1033, peers: 2 }));
}

#[test]
fn a_step_left_unrecorded_needs_two_peers_too() {
    // Step 8 (tick 1024) is due; reports dated 1030 or later still show 1018
    // as the last accepted tick, two stream periods on.
    let one = vec![report("a", 1031, slot(1018))];
    let v = judge_reports(&one, TIER, FIRST, 8, -1, 1018, 1031, 2);
    assert_eq!(v.not_accepted, None);
    let two = vec![report("a", 1031, slot(1018)), report("b", 1030, slot(1018))];
    let v = judge_reports(&two, TIER, FIRST, 8, -1, 1018, 1031, 2);
    assert_eq!(v.not_accepted, Some((1024, 2)));
}

#[test]
fn a_lagging_peer_cannot_call_a_step_missing() {
    // Peer b is dated well behind: its old last-accepted tick is no news.
    let reports = vec![report("a", 1031, slot(1018)), report("b", 1022, slot(1018))];
    let v = judge_reports(&reports, TIER, FIRST, 8, -1, 1018, 1031, 2);
    assert_eq!(v.not_accepted, None);
}

#[test]
fn a_single_peer_wallet_judges_on_one() {
    let reports = vec![report("a", 1033, vec![])];
    let v = judge_reports(&reports, TIER, FIRST, 10, -1, 1021, 1033, 1);
    assert_eq!(v.gone, None, "one report cannot span a stream period");
    let reports = vec![report("a", 1036, vec![]), report("a", 1030, vec![])];
    let v = judge_reports(&reports, TIER, FIRST, 10, -1, 1021, 1036, 1);
    assert!(v.gone.is_some());
}

#[test]
fn one_peer_repeating_itself_counts_once() {
    let reports = vec![report("a", 1030, vec![]), report("a", 1033, vec![])];
    let v = judge_reports(&reports, TIER, FIRST, 10, -1, 1021, 1033, 2);
    assert_eq!(v.gone, None);
}

#[test]
fn a_slot_at_another_tier_is_no_sighting() {
    let other = vec![ProviderSlot { stream: 0, tier: 1, locked: 10, contributed: true, last_update_tick: 1030 }];
    let reports = vec![report("a", 1030, other.clone()), report("b", 1033, other)];
    let v = judge_reports(&reports, TIER, FIRST, 10, -1, 1021, 1033, 2);
    assert_eq!(v.gone, Some(Gone { judged: 10, newest: 1033, peers: 2 }));
    assert_eq!(v.last_accepted, 1021);
}

#[test]
fn gone_before_any_judged_step_gives_no_verdict() {
    // Nothing sent yet: no step is late enough to judge.
    let reports = vec![report("a", 1030, vec![]), report("b", 1033, vec![])];
    let v = judge_reports(&reports, TIER, FIRST, -1, -1, 0, 1033, 2);
    assert_eq!(v.gone, None);
    assert_eq!(v.not_accepted, None);
}

#[test]
fn accepted_ticks_before_the_first_tick_are_ignored() {
    let reports = vec![report("a", 1030, slot(990))];
    let v = judge_reports(&reports, TIER, FIRST, 3, -1, 0, 1030, 1);
    assert_eq!(v.last_accepted, 0);
}
