use rubic::qx_store::{
    create_qx_orderbook, fetch_qx_orderbook, BookOrder, SQL_DELETE_STALE_BOOK, SQL_INSERT_BOOK_ORDER,
    SQL_MARK_BOOK_STALE,
};
use rubic::session_store::Statement;

fn bind<'a>(st: &'a Statement, name: &str) -> &'a str {
    st.binds.iter().find(|b| b.0 == name).map(|b| b.1.as_str()).unwrap()
}

fn order(entity: &str, price: i64, num_shares: i64) -> BookOrder {
    BookOrder { entity: entity.to_string(), price, num_shares }
}

#[test]
fn a_book_side_is_replaced_in_one_go() {
    let orders = vec![order("E1", 5, 10), order("E2", 5, 3), order("E3", 5, 1), order("E4", 7, 2), order("E5", 7, 9)];
    let sts = create_qx_orderbook("CFB", "A", &orders);
    assert_eq!(sts.len(), 7);
    assert_eq!(sts[0].sql, SQL_MARK_BOOK_STALE);
    assert_eq!(bind(&sts[0], ":side"), "A");
    assert_eq!(bind(&sts[0], ":asset"), "CFB");
    let offsets: Vec<&str> = sts[1..6].iter().map(|s| bind(s, ":offset_at_price")).collect();
    assert_eq!(offsets, vec!["0", "1", "2", "0", "1"]);
    assert_eq!(sts[1].sql, SQL_INSERT_BOOK_ORDER);
    assert_eq!(bind(&sts[2], ":entity"), "E2");
    assert_eq!(bind(&sts[2], ":price"), "5");
    assert_eq!(bind(&sts[2], ":num_shares"), "3");
    assert_eq!(sts[6].sql, SQL_DELETE_STALE_BOOK);
}

#[test]
fn orders_at_price_zero_start_their_run_at_zero() {
    let sts = create_qx_orderbook("QX", "B", &vec![order("E", 0, 1), order("F", -4, 1)]);
    assert_eq!(bind(&sts[1], ":offset_at_price"), "0");
    assert_eq!(bind(&sts[2], ":offset_at_price"), "0");
    assert_eq!(bind(&sts[2], ":price"), "-4");
}

#[test]
fn an_empty_book_only_marks_and_deletes() {
    let sts = create_qx_orderbook("QX", "B", &vec![]);
    assert_eq!(sts.len(), 2);
}

#[test]
fn asks_are_read_by_rising_price_and_bids_by_falling_price() {
    let q = fetch_qx_orderbook("CFB", "ASK", 10, 20);
    assert_eq!(q.sql, "SELECT * FROM qx_orderbook WHERE asset=:asset AND side=:side ORDER BY price ASC LIMIT 10 OFFSET 20;");
    assert_eq!(q.binds[1].1, "A");
    let q = fetch_qx_orderbook("CFB", "BID", -1, 0);
    assert_eq!(q.sql, "SELECT * FROM qx_orderbook WHERE asset=:asset AND side=:side ORDER BY price DESC LIMIT -1 OFFSET 0;");
    assert_eq!(q.binds[1].1, "B");
    assert_eq!(q.columns, vec!["asset", "entity", "price", "num_shares", "side"]);
}

#[test]
fn long_runs_at_one_price_count_up_one_by_one() {
    let orders: Vec<BookOrder> = (0..40).map(|i| order("E", 9, i)).collect();
    let sts = create_qx_orderbook("QX", "A", &orders);
    assert_eq!(bind(&sts[40], ":offset_at_price"), "39");
}
