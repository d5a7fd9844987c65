use rubic::records::{
    computors_record, create_peer_response, fetch_computors_by_epoch, fetch_latest_computors,
    fetch_peer_response_by_type, insert_computors_from_bytes, insert_computors_from_parts, latest_computors_record,
    response_bytes, set_tick_transaction_digests, KEYS_LEN, RECORD_LEN, SQL_COMPUTORS_BY_EPOCH, SQL_INSERT_COMPUTORS,
    SQL_INSERT_COMPUTORS_FROM_PEER, SQL_INSERT_RESPONSE, SQL_LATEST_COMPUTORS, SQL_RESPONSES_BY_TYPE,
    SQL_SET_TICK_DIGESTS,
};
use rubic::session_store::Statement;

const SIG_0_TO_63: &str = "AAECAwQFBgcICQoLDA0ODxAREhMUFRYXGBkaGxwdHh8gISIjJCUmJygpKissLS4vMDEyMzQ1Njc4OTo7PD0+Pw";

fn bind<'a>(st: &'a Statement, name: &str) -> &'a str {
    st.binds.iter().find(|b| b.0 == name).map(|b| b.1.as_str()).unwrap()
}

fn record_bytes() -> Vec<u8> {
    let mut bytes = vec![0u8; RECORD_LEN];
    bytes[0] = 0x2c;
    bytes[1] = 0x01;
    for i in 0..64 {
        bytes[2 + KEYS_LEN + i] = i as u8;
    }
    bytes
}

#[test]
fn computor_list_is_stored_as_base64() {
    let st = insert_computors_from_bytes("1.2.3.4", &record_bytes());
    assert_eq!(st.sql, SQL_INSERT_COMPUTORS_FROM_PEER);
    assert_eq!(bind(&st, ":peer"), "1.2.3.4");
    assert_eq!(bind(&st, ":epoch"), "300");
    assert_eq!(bind(&st, ":keys"), "A".repeat(28843));
    assert_eq!(bind(&st, ":sig"), SIG_0_TO_63);
}

#[test]
fn computor_list_reads_back_as_stored() {
    let bytes = record_bytes();
    let st = insert_computors_from_bytes("peer", &bytes);
    let back = computors_record(bind(&st, ":epoch"), bind(&st, ":keys"), bind(&st, ":sig")).unwrap();
    assert_eq!(back, bytes);
}

#[test]
fn unreadable_computor_rows_are_refused() {
    let keys = "A".repeat(28843);
    assert_eq!(computors_record("70000", &keys, SIG_0_TO_63), None);
    assert_eq!(computors_record("12", "@@", SIG_0_TO_63), None);
    assert_eq!(computors_record("12", &keys, "AQID"), None);
}

#[test]
fn latest_row_is_laid_out_two_bytes_short_of_the_keys() {
    let keys = "A".repeat(28843);
    // Keys of 21632 bytes do not fit the 21630 that the latest row is read into.
    assert_eq!(latest_computors_record("12", &keys, SIG_0_TO_63), None);
}

#[test]
fn computors_from_parts_fill_the_rest_with_zeros() {
    let keys = vec![vec![0u8; 32], vec![0u8; 32]];
    let st = insert_computors_from_parts(7, &keys, &vec![1, 2, 3]);
    assert_eq!(st.sql, SQL_INSERT_COMPUTORS);
    assert_eq!(bind(&st, ":epoch"), "7");
    assert_eq!(bind(&st, ":keys"), "A".repeat(28843));
    assert_eq!(bind(&st, ":sig"), "AQID");
}

#[test]
fn computor_queries() {
    let st = fetch_computors_by_epoch(99);
    assert_eq!(st.sql, SQL_COMPUTORS_BY_EPOCH);
    assert_eq!(bind(&st, ":epoch"), "99");
    assert_eq!(st.columns, vec!["epoch", "pub_keys", "signature"]);
    assert_eq!(fetch_latest_computors().sql, SQL_LATEST_COMPUTORS);
}

#[test]
fn create_response_and_insert_and_fetch() {
    let data: Vec<u8> = vec![80, 3, 0, 167, 8, 105, 98, 32, 80, 3, 0, 167, 8, 105, 98, 32, 1, 0, 0, 0, 225, 245, 5];
    let st = create_peer_response("127.0.0.1", &data);
    assert_eq!(st.sql, SQL_INSERT_RESPONSE);
    assert_eq!(bind(&st, ":header"), "UAMApwhpYiA=");
    assert_eq!(bind(&st, ":response_type"), "32");
    let back = response_bytes(bind(&st, ":header"), bind(&st, ":data")).unwrap();
    assert_eq!(back, data);
    let q = fetch_peer_response_by_type(32);
    assert_eq!(q.sql, SQL_RESPONSES_BY_TYPE);
    assert_eq!(bind(&q, ":response_type"), "32");
}

#[test]
fn unreadable_responses_are_refused() {
    assert_eq!(response_bytes("UAMApwhpYiA=", "%%"), None);
}

#[test]
fn tick_digests_are_stored_unpadded() {
    let st = set_tick_transaction_digests(5, &vec![0xff, 0xee]);
    assert_eq!(st.sql, SQL_SET_TICK_DIGESTS);
    assert_eq!(bind(&st, ":digests"), "/+4");
    assert_eq!(bind(&st, ":tick"), "5");
}
