//! The statements of the RANDOM session store: which SQL runs for each
//! operation, with which named parameters, and how the rows read back are
//! interpreted. Running them against the database is the caller's part.
use vstd::prelude::*;
use crate::row::{lookup, position, text_of};
use crate::routes::miner::random::spec_session_summary;
use crate::session::{
    opt_u32, opt_u64, pass_fits, plan_from, plan_shape, spec_broadcast_plan, spec_session_info, SessionInfo,
    STATUS_FAILED, STATUS_LEAVING,
};
use crate::text::{
    decimal, decimal_text, i64_text_reads_back, parse_u32, parse_u64, parsed_u32, parsed_u64, signed_decimal,
    signed_decimal_text, u32_text_reads_back,
};

verus! {

pub const SQL_INSERT_SESSION: &'static str = "INSERT INTO random_session (identity, tier, first_tick, status, broadcast_through, leave_step, auto_restart, fail_streak, total_steps) VALUES (:identity, :tier, :first_tick, 0, -1, -1, CAST(:auto_restart AS INTEGER), CAST(:fail_streak AS INTEGER), CAST(:total_steps AS INTEGER));";
pub const SQL_LAST_ID: &'static str = "SELECT last_insert_rowid() AS id;";
pub const SQL_INSERT_STEP: &'static str = "INSERT INTO random_step (session_id, step, tick, reveal_secret, commit_secret, stay_txid, stay_sig, leave_txid, leave_sig) VALUES (:session_id, :step, :tick, :reveal_secret, :commit_secret, :stay_txid, :stay_sig, :leave_txid, :leave_sig);";
pub const SQL_SESSIONS: &'static str = "SELECT * FROM random_session ORDER BY id DESC LIMIT CAST(:limit AS INTEGER);";
pub const SQL_ACTIVE_SESSIONS: &'static str = "SELECT * FROM random_session WHERE status IN (0, 1, 2) ORDER BY id ASC;";
pub const SQL_SESSION: &'static str = "SELECT * FROM random_session WHERE id = CAST(:id AS INTEGER);";
pub const SQL_SET_STATUS: &'static str = "UPDATE random_session SET status = CAST(:status AS INTEGER) WHERE id = CAST(:id AS INTEGER);";
pub const SQL_SET_FAILED: &'static str = "UPDATE random_session SET status = CAST(:status AS INTEGER), failed_tick = CAST(:failed_tick AS INTEGER), reason = :reason WHERE id = CAST(:id AS INTEGER);";
pub const SQL_SET_AUTO_RESTART: &'static str = "UPDATE random_session SET auto_restart = CAST(:on AS INTEGER) WHERE id = CAST(:id AS INTEGER);";
pub const SQL_SET_CONTINUED: &'static str = "UPDATE random_session SET continued_by = CAST(:continued_by AS INTEGER) WHERE id = CAST(:id AS INTEGER);";
pub const SQL_SET_ACCEPTED: &'static str = "UPDATE random_session SET last_accepted_tick = CAST(:tick AS INTEGER) WHERE id = CAST(:id AS INTEGER);";
pub const SQL_SET_PROVIDER: &'static str = "INSERT INTO random_provider (identity, checked_tick, slots, updated) VALUES (:identity, :checked_tick, :slots, CURRENT_TIMESTAMP) ON CONFLICT(identity) DO UPDATE SET checked_tick = excluded.checked_tick, slots = excluded.slots, updated = excluded.updated;";
pub const SQL_PROVIDER: &'static str = "SELECT checked_tick, slots FROM random_provider WHERE identity = :identity;";
pub const SQL_SET_PROGRESS: &'static str = "UPDATE random_session SET broadcast_through = CAST(:through AS INTEGER), leave_step = CAST(:leave AS INTEGER) WHERE id = CAST(:id AS INTEGER);";
pub const SQL_STEP: &'static str = "SELECT * FROM random_step WHERE session_id = CAST(:session_id AS INTEGER) AND step = CAST(:step AS INTEGER);";
pub const SQL_STEPS_BETWEEN: &'static str = "SELECT * FROM random_step WHERE session_id = CAST(:session_id AS INTEGER) AND step >= CAST(:from AS INTEGER) AND step <= CAST(:through AS INTEGER) ORDER BY step ASC;";
pub const SQL_STEP_BY_TXID: &'static str = "SELECT * FROM random_step WHERE stay_txid = :txid OR leave_txid = :txid LIMIT 1;";
pub const SQL_COUNT_ALL_STEPS: &'static str = "SELECT COUNT(*) AS n FROM random_step;";
pub const SQL_PRUNE_STEPS: &'static str = "DELETE FROM random_step WHERE rowid IN (         SELECT s.rowid FROM random_step s JOIN random_session ss ON ss.id = s.session_id         WHERE ss.status >= 3 ORDER BY s.session_id ASC, s.step ASC LIMIT CAST(:excess AS INTEGER));";
pub const SQL_COUNT_STEPS: &'static str = "SELECT COUNT(*) AS n FROM random_step WHERE session_id = CAST(:session_id AS INTEGER);";

/// A statement to run: its SQL, its named parameters and, for a query, the
/// columns read from each row.
#[derive(Debug)]
pub struct Statement {
    pub sql: &'static str,
    pub binds: Vec<(&'static str, String)>,
    pub columns: Vec<&'static str>,
}

/// The parameters as (name, text) pairs.
pub open spec fn binds_of(st: Statement) -> Seq<(Seq<char>, Seq<char>)> {
    st.binds@.map_values(|b: (&'static str, String)| (b.0@, b.1@))
}

/// The columns' names.
pub open spec fn columns_of(st: Statement) -> Seq<Seq<char>> {
    st.columns@.map_values(|c: &'static str| c@)
}

/// The columns of a session row.
pub open spec fn session_columns() -> Seq<Seq<char>> {
    seq![
        "id"@,
        "identity"@,
        "tier"@,
        "first_tick"@,
        "status"@,
        "broadcast_through"@,
        "leave_step"@,
        "last_accepted_tick"@,
        "reason"@,
        "auto_restart"@,
        "fail_streak"@,
        "continued_by"@,
        "failed_tick"@,
        "total_steps"@,
        "created"@,
    ]
}

/// The columns of a step row.
pub open spec fn step_columns() -> Seq<Seq<char>> {
    seq![
        "session_id"@,
        "step"@,
        "tick"@,
        "reveal_secret"@,
        "commit_secret"@,
        "stay_txid"@,
        "stay_sig"@,
        "leave_txid"@,
        "leave_sig"@,
    ]
}

fn session_column_list() -> (c: Vec<&'static str>)
    ensures
        c@.map_values(|c: &'static str| c@) == session_columns(),
{
    let c = vec![
        "id",
        "identity",
        "tier",
        "first_tick",
        "status",
        "broadcast_through",
        "leave_step",
        "last_accepted_tick",
        "reason",
        "auto_restart",
        "fail_streak",
        "continued_by",
        "failed_tick",
        "total_steps",
        "created",
    ];
    assert(c@.map_values(|c: &'static str| c@) =~= session_columns());
    c
}

fn step_column_list() -> (c: Vec<&'static str>)
    ensures
        c@.map_values(|c: &'static str| c@) == step_columns(),
{
    let c = vec![
        "session_id",
        "step",
        "tick",
        "reveal_secret",
        "commit_secret",
        "stay_txid",
        "stay_sig",
        "leave_txid",
        "leave_sig",
    ];
    assert(c@.map_values(|c: &'static str| c@) =~= step_columns());
    c
}

/// A statement that reads nothing back.
fn command(sql: &'static str, binds: Vec<(&'static str, String)>) -> (st: Statement)
    ensures
        st.sql == sql,
        st.binds == binds,
        st.columns@.len() == 0,
{
    Statement { sql, binds, columns: Vec::new() }
}

/// The newest `limit` sessions, newest first.
pub fn fetch_sessions(limit: u32) -> (st: Statement)
    ensures
        st.sql == SQL_SESSIONS,
        binds_of(st) == seq![(":limit"@, decimal(limit as nat))],
        columns_of(st) == session_columns(),
{
    let binds = vec![(":limit", decimal_text(limit as u64))];
    let st = Statement { sql: SQL_SESSIONS, binds, columns: session_column_list() };
    assert(binds_of(st) =~= seq![(":limit"@, decimal(limit as nat))]);
    st
}

/// The sessions still acting on the network: running, stop requested, or leaving.
pub fn fetch_active_sessions() -> (st: Statement)
    ensures
        st.sql == SQL_ACTIVE_SESSIONS,
        binds_of(st) == Seq::<(Seq<char>, Seq<char>)>::empty(),
        columns_of(st) == session_columns(),
{
    let st = Statement { sql: SQL_ACTIVE_SESSIONS, binds: Vec::new(), columns: session_column_list() };
    assert(binds_of(st) =~= Seq::<(Seq<char>, Seq<char>)>::empty());
    st
}

/// The session with this id (the first row read, if any).
pub fn fetch_session(id: i64) -> (st: Statement)
    ensures
        st.sql == SQL_SESSION,
        binds_of(st) == seq![(":id"@, signed_decimal(id as int))],
        columns_of(st) == session_columns(),
{
    let binds = vec![(":id", signed_decimal_text(id))];
    let st = Statement { sql: SQL_SESSION, binds, columns: session_column_list() };
    assert(binds_of(st) =~= seq![(":id"@, signed_decimal(id as int))]);
    st
}

/// Sets a session's status.
pub fn set_session_status(id: i64, status: i64) -> (st: Statement)
    ensures
        st.sql == SQL_SET_STATUS,
        binds_of(st) == seq![(":status"@, signed_decimal(status as int)), (":id"@, signed_decimal(id as int))],
        st.columns@.len() == 0,
{
    let st = command(SQL_SET_STATUS, vec![(":status", signed_decimal_text(status)), (":id", signed_decimal_text(id))]);
    assert(binds_of(st) =~= seq![(":status"@, signed_decimal(status as int)), (":id"@, signed_decimal(id as int))]);
    st
}

/// Ends a session: failed status, the tick it failed at, and the reason shown on hover.
pub fn set_session_failed(id: i64, failed_tick: u32, reason: &str) -> (st: Statement)
    ensures
        st.sql == SQL_SET_FAILED,
        binds_of(st) == seq![
            (":status"@, signed_decimal(STATUS_FAILED as int)),
            (":failed_tick"@, decimal(failed_tick as nat)),
            (":reason"@, reason@),
            (":id"@, signed_decimal(id as int)),
        ],
        st.columns@.len() == 0,
{
    let st = command(
        SQL_SET_FAILED,
        vec![
            (":status", signed_decimal_text(STATUS_FAILED)),
            (":failed_tick", decimal_text(failed_tick as u64)),
            (":reason", String::from_str(reason)),
            (":id", signed_decimal_text(id)),
        ],
    );
    assert(binds_of(st) =~= seq![
        (":status"@, signed_decimal(STATUS_FAILED as int)),
        (":failed_tick"@, decimal(failed_tick as nat)),
        (":reason"@, reason@),
        (":id"@, signed_decimal(id as int)),
    ]);
    st
}

/// Turns "keep mining" on or off.
pub fn set_session_auto_restart(id: i64, on: bool) -> (st: Statement)
    ensures
        st.sql == SQL_SET_AUTO_RESTART,
        binds_of(st) == seq![(":on"@, if on { "1"@ } else { "0"@ }), (":id"@, signed_decimal(id as int))],
        st.columns@.len() == 0,
{
    let flag = if on { String::from_str("1") } else { String::from_str("0") };
    let st = command(SQL_SET_AUTO_RESTART, vec![(":on", flag), (":id", signed_decimal_text(id))]);
    assert(binds_of(st) =~= seq![(":on"@, if on { "1"@ } else { "0"@ }), (":id"@, signed_decimal(id as int))]);
    st
}

/// Links a failed session to the one started in its place.
pub fn set_session_continued(id: i64, continued_by: i64) -> (st: Statement)
    ensures
        st.sql == SQL_SET_CONTINUED,
        binds_of(st) == seq![(":continued_by"@, signed_decimal(continued_by as int)), (":id"@, signed_decimal(id as int))],
        st.columns@.len() == 0,
{
    let st = command(SQL_SET_CONTINUED, vec![(":continued_by", signed_decimal_text(continued_by)), (":id", signed_decimal_text(id))]);
    assert(binds_of(st) =~= seq![(":continued_by"@, signed_decimal(continued_by as int)), (":id"@, signed_decimal(id as int))]);
    st
}

/// The tick of the last step the contract accepted for this session.
pub fn set_session_accepted(id: i64, tick: u32) -> (st: Statement)
    ensures
        st.sql == SQL_SET_ACCEPTED,
        binds_of(st) == seq![(":tick"@, decimal(tick as nat)), (":id"@, signed_decimal(id as int))],
        st.columns@.len() == 0,
{
    let st = command(SQL_SET_ACCEPTED, vec![(":tick", decimal_text(tick as u64)), (":id", signed_decimal_text(id))]);
    assert(binds_of(st) =~= seq![(":tick"@, decimal(tick as nat)), (":id"@, signed_decimal(id as int))]);
    st
}

/// Records what the contract reported for an identity's provider slots and
/// the tick it was asked at, replacing an earlier report.
pub fn set_provider_status(identity: &str, checked_tick: u32, slots: &str) -> (st: Statement)
    ensures
        st.sql == SQL_SET_PROVIDER,
        binds_of(st) == seq![(":identity"@, identity@), (":checked_tick"@, decimal(checked_tick as nat)), (":slots"@, slots@)],
        st.columns@.len() == 0,
{
    let st = command(
        SQL_SET_PROVIDER,
        vec![(":identity", String::from_str(identity)), (":checked_tick", decimal_text(checked_tick as u64)), (":slots", String::from_str(slots))],
    );
    assert(binds_of(st) =~= seq![(":identity"@, identity@), (":checked_tick"@, decimal(checked_tick as nat)), (":slots"@, slots@)]);
    st
}

/// The latest provider report of an identity.
pub fn fetch_provider_status(identity: &str) -> (st: Statement)
    ensures
        st.sql == SQL_PROVIDER,
        binds_of(st) == seq![(":identity"@, identity@)],
        columns_of(st) == seq!["checked_tick"@, "slots"@],
{
    let st = Statement { sql: SQL_PROVIDER, binds: vec![(":identity", String::from_str(identity))], columns: vec!["checked_tick", "slots"] };
    assert(binds_of(st) =~= seq![(":identity"@, identity@)]);
    assert(columns_of(st) =~= seq!["checked_tick"@, "slots"@]);
    st
}

/// The report a provider-status query read: the first row's tick (0 when
/// unreadable) and its slots text (empty when missing).
pub fn provider_status_of(rows: &Vec<Vec<(String, String)>>) -> (r: Option<(u32, String)>)
    ensures
        rows@.len() == 0 ==> r is None,
        rows@.len() > 0 ==> (r matches Some((tick, slots)) && tick == (match opt_u32(rows@[0]@, "checked_tick"@) {
            Some(t) => t,
            None => 0,
        }) && slots@ == text_of(rows@[0]@, "slots"@)),
{
    if rows.len() == 0 {
        return None;
    }
    let row = &rows[0];
    let tick = match crate::row::num_u32(row, "checked_tick") {
        Some(t) => t,
        None => 0,
    };
    Some((tick, crate::row::get(row, "slots")))
}

/// Records how far the driver has broadcast, and which step (if any) leaves.
pub fn set_session_progress(id: i64, broadcast_through: i64, leave_step: i64) -> (st: Statement)
    ensures
        st.sql == SQL_SET_PROGRESS,
        binds_of(st) == seq![(":through"@, signed_decimal(broadcast_through as int)), (":leave"@, signed_decimal(leave_step as int)), (":id"@, signed_decimal(id as int))],
        st.columns@.len() == 0,
{
    let st = command(
        SQL_SET_PROGRESS,
        vec![(":through", signed_decimal_text(broadcast_through)), (":leave", signed_decimal_text(leave_step)), (":id", signed_decimal_text(id))],
    );
    assert(binds_of(st) =~= seq![(":through"@, signed_decimal(broadcast_through as int)), (":leave"@, signed_decimal(leave_step as int)), (":id"@, signed_decimal(id as int))]);
    st
}

/// Step `step` of a session (the first row read, if any).
pub fn fetch_step(session_id: i64, step: u32) -> (st: Statement)
    ensures
        st.sql == SQL_STEP,
        binds_of(st) == seq![(":session_id"@, signed_decimal(session_id as int)), (":step"@, decimal(step as nat))],
        columns_of(st) == step_columns(),
{
    let st = Statement {
        sql: SQL_STEP,
        binds: vec![(":session_id", signed_decimal_text(session_id)), (":step", decimal_text(step as u64))],
        columns: step_column_list(),
    };
    assert(binds_of(st) =~= seq![(":session_id"@, signed_decimal(session_id as int)), (":step"@, decimal(step as nat))]);
    st
}

/// Steps `from..=through` of a session, in order.
pub fn fetch_steps_between(session_id: i64, from: i64, through: i64) -> (st: Statement)
    ensures
        st.sql == SQL_STEPS_BETWEEN,
        binds_of(st) == seq![(":session_id"@, signed_decimal(session_id as int)), (":from"@, signed_decimal(from as int)), (":through"@, signed_decimal(through as int))],
        columns_of(st) == step_columns(),
{
    let st = Statement {
        sql: SQL_STEPS_BETWEEN,
        binds: vec![(":session_id", signed_decimal_text(session_id)), (":from", signed_decimal_text(from)), (":through", signed_decimal_text(through))],
        columns: step_column_list(),
    };
    assert(binds_of(st) =~= seq![(":session_id"@, signed_decimal(session_id as int)), (":from"@, signed_decimal(from as int)), (":through"@, signed_decimal(through as int))]);
    st
}

/// The step whose stay or leave transaction has this id.
pub fn fetch_step_by_txid(txid: &str) -> (st: Statement)
    ensures
        st.sql == SQL_STEP_BY_TXID,
        binds_of(st) == seq![(":txid"@, txid@)],
        columns_of(st) == step_columns(),
{
    let st = Statement { sql: SQL_STEP_BY_TXID, binds: vec![(":txid", String::from_str(txid))], columns: step_column_list() };
    assert(binds_of(st) =~= seq![(":txid"@, txid@)]);
    st
}

/// Counts every stored step.
pub fn count_all_steps() -> (st: Statement)
    ensures
        st.sql == SQL_COUNT_ALL_STEPS,
        binds_of(st) == Seq::<(Seq<char>, Seq<char>)>::empty(),
        columns_of(st) == seq!["n"@],
{
    let st = Statement { sql: SQL_COUNT_ALL_STEPS, binds: Vec::new(), columns: vec!["n"] };
    assert(binds_of(st) =~= Seq::<(Seq<char>, Seq<char>)>::empty());
    assert(columns_of(st) =~= seq!["n"@]);
    st
}

/// The count a counting query read: the first row's `n`, or `default` when
/// there is no row or it is unreadable.
pub fn count_of(rows: &Vec<Vec<(String, String)>>, default: u64) -> (n: u64)
    ensures
        rows@.len() == 0 ==> n == default,
        rows@.len() > 0 ==> n == match opt_u64(rows@[0]@, "n"@) {
            Some(v) => v,
            None => default,
        },
{
    if rows.len() == 0 {
        return default;
    }
    match crate::row::num_u64(&rows[0], "n") {
        Some(v) => v,
        None => default,
    }
}

/// The parameters of a prune of `excess` rows.
pub open spec fn excess_binds(excess: nat) -> Seq<(Seq<char>, Seq<char>)> {
    seq![(":excess"@, decimal(excess))]
}

/// Keeps the step table bounded: with `total` rows stored and `keep`
/// allowed, the deletion of the `total - keep` oldest steps of finished
/// sessions (failed or stopped), or nothing when the table is within bounds.
/// Steps of sessions still running are never touched.
pub fn prune_steps(keep: u64, total: u64) -> (st: Option<Statement>)
    ensures
        total <= keep ==> st is None,
        total > keep ==> (st matches Some(s) && s.sql == SQL_PRUNE_STEPS && binds_of(s) == excess_binds((total - keep) as nat) && s.columns@.len() == 0),
{
    if total <= keep {
        return None;
    }
    let excess = total - keep;
    let st = command(SQL_PRUNE_STEPS, vec![(":excess", decimal_text(excess))]);
    assert(binds_of(st) =~= seq![(":excess"@, decimal(excess as nat))]);
    Some(st)
}

/// How many rows a prune removed: the count before less the count after
/// (none if the table grew meanwhile).
pub fn pruned_count(total: u64, after: u64) -> (n: u64)
    ensures
        n == if after <= total { total - after } else { 0 },
{
    if after <= total { total - after } else { 0 }
}

/// Counts the steps of a session.
pub fn count_steps(session_id: i64) -> (st: Statement)
    ensures
        st.sql == SQL_COUNT_STEPS,
        binds_of(st) == seq![(":session_id"@, signed_decimal(session_id as int))],
        columns_of(st) == seq!["n"@],
{
    let st = Statement { sql: SQL_COUNT_STEPS, binds: vec![(":session_id", signed_decimal_text(session_id))], columns: vec!["n"] };
    assert(binds_of(st) =~= seq![(":session_id"@, signed_decimal(session_id as int))]);
    assert(columns_of(st) =~= seq!["n"@]);
    st
}

/// A step ready to be stored: secrets as hex, transactions as (txid, signature hex).
#[derive(Debug, Clone)]
pub struct NewStep {
    pub step: u32,
    pub tick: u32,
    pub reveal_secret: String,
    pub commit_secret: String,
    pub stay: Option<(String, String)>,
    pub leave: Option<(String, String)>,
}

/// The (txid, signature) of a variant, both empty when it was never signed.
pub open spec fn pair_text(p: Option<(String, String)>) -> (Seq<char>, Seq<char>) {
    match p {
        Some((a, b)) => (a@, b@),
        None => (Seq::empty(), Seq::empty()),
    }
}

/// The insert of a new session (running, nothing sent, no leave) that signed
/// `total_steps` reveal steps.
pub fn insert_session(identity: &str, tier: u64, first_tick: u32, auto_restart: bool, fail_streak: u32, total_steps: u32) -> (st: Statement)
    ensures
        st.sql == SQL_INSERT_SESSION,
        binds_of(st) == seq![
            (":identity"@, identity@),
            (":tier"@, decimal(tier as nat)),
            (":first_tick"@, decimal(first_tick as nat)),
            (":auto_restart"@, if auto_restart { "1"@ } else { "0"@ }),
            (":fail_streak"@, decimal(fail_streak as nat)),
            (":total_steps"@, decimal(total_steps as nat)),
        ],
        st.columns@.len() == 0,
{
    let flag = if auto_restart { String::from_str("1") } else { String::from_str("0") };
    let st = command(
        SQL_INSERT_SESSION,
        vec![
            (":identity", String::from_str(identity)),
            (":tier", decimal_text(tier)),
            (":first_tick", decimal_text(first_tick as u64)),
            (":auto_restart", flag),
            (":fail_streak", decimal_text(fail_streak as u64)),
            (":total_steps", decimal_text(total_steps as u64)),
        ],
    );
    assert(binds_of(st) =~= seq![
        (":identity"@, identity@),
        (":tier"@, decimal(tier as nat)),
        (":first_tick"@, decimal(first_tick as nat)),
        (":auto_restart"@, if auto_restart { "1"@ } else { "0"@ }),
        (":fail_streak"@, decimal(fail_streak as nat)),
        (":total_steps"@, decimal(total_steps as nat)),
    ]);
    st
}

/// Reads back the id of the session just inserted.
pub fn last_session_id() -> (st: Statement)
    ensures
        st.sql == SQL_LAST_ID,
        binds_of(st) == Seq::<(Seq<char>, Seq<char>)>::empty(),
        columns_of(st) == seq!["id"@],
{
    let st = Statement { sql: SQL_LAST_ID, binds: Vec::new(), columns: vec!["id"] };
    assert(binds_of(st) =~= Seq::<(Seq<char>, Seq<char>)>::empty());
    assert(columns_of(st) =~= seq!["id"@]);
    st
}

fn pair_or_empty(p: &Option<(String, String)>) -> (r: (String, String))
    ensures
        (r.0@, r.1@) == pair_text(*p),
{
    match p {
        Some((a, b)) => (a.clone(), b.clone()),
        None => (String::new(), String::new()),
    }
}

/// The insert of one step of session `session_id`.
pub fn insert_step(session_id: i64, s: &NewStep) -> (st: Statement)
    ensures
        st.sql == SQL_INSERT_STEP,
        binds_of(st) == seq![
            (":session_id"@, signed_decimal(session_id as int)),
            (":step"@, decimal(s.step as nat)),
            (":tick"@, decimal(s.tick as nat)),
            (":reveal_secret"@, s.reveal_secret@),
            (":commit_secret"@, s.commit_secret@),
            (":stay_txid"@, pair_text(s.stay).0),
            (":stay_sig"@, pair_text(s.stay).1),
            (":leave_txid"@, pair_text(s.leave).0),
            (":leave_sig"@, pair_text(s.leave).1),
        ],
        st.columns@.len() == 0,
{
    let (stay_txid, stay_sig) = pair_or_empty(&s.stay);
    let (leave_txid, leave_sig) = pair_or_empty(&s.leave);
    let st = command(
        SQL_INSERT_STEP,
        vec![
            (":session_id", signed_decimal_text(session_id)),
            (":step", decimal_text(s.step as u64)),
            (":tick", decimal_text(s.tick as u64)),
            (":reveal_secret", s.reveal_secret.clone()),
            (":commit_secret", s.commit_secret.clone()),
            (":stay_txid", stay_txid),
            (":stay_sig", stay_sig),
            (":leave_txid", leave_txid),
            (":leave_sig", leave_sig),
        ],
    );
    assert(binds_of(st) =~= seq![
        (":session_id"@, signed_decimal(session_id as int)),
        (":step"@, decimal(s.step as nat)),
        (":tick"@, decimal(s.tick as nat)),
        (":reveal_secret"@, s.reveal_secret@),
        (":commit_secret"@, s.commit_secret@),
        (":stay_txid"@, pair_text(s.stay).0),
        (":stay_sig"@, pair_text(s.stay).1),
        (":leave_txid"@, pair_text(s.leave).0),
        (":leave_sig"@, pair_text(s.leave).1),
    ]);
    st
}

/// The first row a query read, if any.
pub fn first_row(rows: Vec<Vec<(String, String)>>) -> (r: Option<Vec<(String, String)>>)
    ensures
        rows@.len() == 0 ==> r is None,
        rows@.len() > 0 ==> r == Some(rows@[0]),
{
    let mut rows = rows;
    if rows.len() == 0 {
        None
    } else {
        Some(rows.swap_remove(0))
    }
}

/// What the progress and accepted-tick statements store reads back through
/// `session_info`: a row holding, under the columns those statements set,
/// the texts they bind gives back the same id, steps sent, leave step and
/// accepted tick.
pub proof fn stored_progress_reads_back(
    row: Seq<(String, String)>,
    id: i64,
    through: i64,
    leave: i64,
    accepted: u32,
    default_steps: u32,
)
    requires
        lookup(row, "id"@) == Some(signed_decimal(id as int)),
        lookup(row, "broadcast_through"@) == Some(signed_decimal(through as int)),
        lookup(row, "leave_step"@) == Some(signed_decimal(leave as int)),
        lookup(row, "last_accepted_tick"@) == Some(decimal(accepted as nat)),
    ensures
        spec_session_info(row, default_steps) matches Some(info) && {
            &&& info.id == id
            &&& info.through == through
            &&& info.leave_step == leave
            &&& info.last_accepted == accepted
        },
{
    i64_text_reads_back(id);
    i64_text_reads_back(through);
    i64_text_reads_back(leave);
    u32_text_reads_back(accepted);
}

/// The signed step count that `insert_session` stores reads back: a session
/// row holding, under `total_steps`, the text the insert binds has a chain of
/// that many reveal steps plus the first commit, for the driver and for the
/// session list alike, whatever the default for rows that hold none.
pub proof fn signed_steps_read_back(row: Seq<(String, String)>, total_steps: u32, default_steps: u32)
    requires
        lookup(row, "total_steps"@) == Some(decimal(total_steps as nat)),
    ensures
        spec_session_summary(row, default_steps).steps == total_steps + 1,
        spec_session_info(row, default_steps) matches Some(info) ==> info.total == total_steps + 1,
{
    u32_text_reads_back(total_steps);
}

/// The session as the driver knows it once step `step` went out, as the
/// leave when `leave`: sent through that step, and leaving at it.
pub open spec fn progress_after(info: SessionInfo, step: u64, leave: bool) -> SessionInfo {
    SessionInfo {
        through: step as i64,
        leave_step: if leave { step as i64 } else { info.leave_step },
        status: if leave { STATUS_LEAVING } else { info.status },
        ..info
    }
}

/// What the driver records once step `step` went out: the leaving status
/// first when it was the leave, then how far the session was sent and which
/// step leaves.
pub fn step_sent(info: &SessionInfo, step: u64, leave: bool) -> (sts: Vec<Statement>)
    requires
        pass_fits(*info, 0, 0),
        step < info.total,
    ensures
        sts@.len() == (if leave { 2int } else { 1int }),
        leave ==> sts@[0].sql == SQL_SET_STATUS && binds_of(sts@[0]) == seq![
            (":status"@, signed_decimal(STATUS_LEAVING as int)),
            (":id"@, signed_decimal(info.id as int)),
        ],
        sts@[sts@.len() - 1].sql == SQL_SET_PROGRESS,
        binds_of(sts@[sts@.len() - 1]) == seq![
            (":through"@, signed_decimal(progress_after(*info, step, leave).through as int)),
            (":leave"@, signed_decimal(progress_after(*info, step, leave).leave_step as int)),
            (":id"@, signed_decimal(info.id as int)),
        ],
        forall|i: int| 0 <= i < sts@.len() ==> (#[trigger] sts@[i]).columns@.len() == 0,
{
    let mut sts: Vec<Statement> = Vec::new();
    let k = step as i64;
    if leave {
        sts.push(set_session_status(info.id, STATUS_LEAVING));
        sts.push(set_session_progress(info.id, k, k));
    } else {
        sts.push(set_session_progress(info.id, k, info.leave_step));
    }
    sts
}

/// Once the leave went out, no later step of the session is ever sent: the
/// session is leaving at that step, sent through it, and every later pass
/// plans nothing and fails nothing.
pub proof fn a_leave_ends_the_broadcasts(info: SessionInfo, k: u64, latest: u32, tick_moved: bool)
    requires
        k < info.total,
        info.first_tick + 3 * info.total <= u32::MAX,
    ensures
        progress_after(info, k, true).leave_step == k,
        progress_after(info, k, true).through == k,
        progress_after(info, k, true).status == STATUS_LEAVING,
        spec_broadcast_plan(progress_after(info, k, true), latest, tick_moved).0.len() == 0,
        spec_broadcast_plan(progress_after(info, k, true), latest, tick_moved).1 is None,
{
}

/// No step goes out twice: after a pass sent steps up to `k` (not leaving),
/// the next pass plans only steps after `k`, in order from `k + 1`.
pub proof fn later_passes_send_later_steps(info: SessionInfo, k: u64, latest: u32, tick_moved: bool)
    requires
        k < info.total,
        info.first_tick + 3 * info.total <= u32::MAX,
    ensures
        ({
            let steps = spec_broadcast_plan(progress_after(info, k, false), latest, tick_moved).0;
            forall|j: int| 0 <= j < steps.len() ==> (#[trigger] steps[j]).0 == k + 1 + j
        }),
{
    let next = progress_after(info, k, false);
    crate::session::broadcast_window_shape(next, latest, tick_moved);
}

} // verus!
