//! The statements that mark a stored transfer as sent and record how it
//! settled.
use vstd::prelude::*;
use crate::session_store::{binds_of, Statement};
use crate::text::{decimal, decimal_text};

verus! {

pub const SQL_SET_BROADCAST: &'static str = "UPDATE transfer SET broadcast = true WHERE txid = :txid;";
pub const SQL_SET_BROADCAST_AT: &'static str = "UPDATE transfer SET broadcast = true, last_broadcast_tick = CAST(:tick AS INTEGER) WHERE txid = :txid;";
pub const SQL_SET_SUCCESS: &'static str = "UPDATE transfer SET status = 0 WHERE txid = :txid AND broadcast = true;";
pub const SQL_SET_FAILURE: &'static str = "UPDATE transfer SET status = 1 WHERE txid = :txid AND broadcast = true;";

/// Marks transfer `txid` as broadcast; with `at_tick`, also records the tick
/// it was last sent at.
pub fn set_transfer_as_broadcast(txid: &str, at_tick: Option<u32>) -> (st: Statement)
    ensures
        st.columns@.len() == 0,
        match at_tick {
            None => st.sql == SQL_SET_BROADCAST && binds_of(st) == seq![(":txid"@, txid@)],
            Some(t) => st.sql == SQL_SET_BROADCAST_AT && binds_of(st) == seq![
                (":txid"@, txid@),
                (":tick"@, decimal(t as nat)),
            ],
        },
{
    match at_tick {
        None => {
            let st = Statement {
                sql: SQL_SET_BROADCAST,
                binds: vec![(":txid", String::from_str(txid))],
                columns: Vec::new(),
            };
            assert(binds_of(st) =~= seq![(":txid"@, txid@)]);
            st
        },
        Some(t) => {
            let st = Statement {
                sql: SQL_SET_BROADCAST_AT,
                binds: vec![(":txid", String::from_str(txid)), (":tick", decimal_text(t as u64))],
                columns: Vec::new(),
            };
            assert(binds_of(st) =~= seq![(":txid"@, txid@), (":tick"@, decimal(t as nat))]);
            st
        },
    }
}

/// Records that the sent transfer `txid` executed (status 0).
pub fn set_broadcasted_transfer_as_success(txid: &str) -> (st: Statement)
    ensures
        st.sql == SQL_SET_SUCCESS,
        binds_of(st) == seq![(":txid"@, txid@)],
        st.columns@.len() == 0,
{
    let st = Statement { sql: SQL_SET_SUCCESS, binds: vec![(":txid", String::from_str(txid))], columns: Vec::new() };
    assert(binds_of(st) =~= seq![(":txid"@, txid@)]);
    st
}

/// Records that the sent transfer `txid` failed (status 1).
pub fn set_broadcasted_transfer_as_failure(txid: &str) -> (st: Statement)
    ensures
        st.sql == SQL_SET_FAILURE,
        binds_of(st) == seq![(":txid"@, txid@)],
        st.columns@.len() == 0,
{
    let st = Statement { sql: SQL_SET_FAILURE, binds: vec![(":txid", String::from_str(txid))], columns: Vec::new() };
    assert(binds_of(st) =~= seq![(":txid"@, txid@)]);
    st
}

/// The statement that stores a settled status of the sent transfer `txid`:
/// 0 confirmed, 1 failed; none while the status stays pending (`None`) or
/// for any other value.
pub fn settle_statement(txid: &str, status: Option<i64>) -> (st: Option<Statement>)
    ensures
        st is Some <==> (status == Some(0i64) || status == Some(1i64)),
        status == Some(0i64) ==> st.unwrap().sql == SQL_SET_SUCCESS,
        status == Some(1i64) ==> st.unwrap().sql == SQL_SET_FAILURE,
        st matches Some(s) ==> binds_of(s) == seq![(":txid"@, txid@)],
{
    match status {
        Some(0) => Some(set_broadcasted_transfer_as_success(txid)),
        Some(1) => Some(set_broadcasted_transfer_as_failure(txid)),
        _ => None,
    }
}

} // verus!
