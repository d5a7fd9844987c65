//! The stored QX order books: replacing one side of an asset's book with a
//! fresh copy from the network, and reading a side back.
use vstd::prelude::*;
use crate::session_store::{binds_of, Statement};
use crate::text::{decimal, decimal_text, same_text, signed_decimal, signed_decimal_text};

verus! {

pub const SQL_MARK_BOOK_STALE: &'static str = "UPDATE qx_orderbook SET stale = 1 WHERE side=:side AND asset = :asset;";
pub const SQL_INSERT_BOOK_ORDER: &'static str = "INSERT INTO qx_orderbook (asset, side, entity, price, num_shares, stale, offset_at_price) VALUES (:asset, :side, :entity, :price, :num_shares, 0, :offset_at_price) ON CONFLICT DO UPDATE SET stale = 0 WHERE asset=:asset AND side=:side AND entity=:entity AND price=:price AND num_shares=:num_shares;";
pub const SQL_DELETE_STALE_BOOK: &'static str = "DELETE FROM qx_orderbook WHERE stale=1 AND side=:side AND asset = :asset;";

/// An order of a book as the network lists it, its entity given as an identity.
#[derive(Debug, Clone)]
pub struct BookOrder {
    pub entity: String,
    pub price: i64,
    pub num_shares: i64,
}

/// The `offset_at_price` stored with the `i`-th order: its place, counted
/// from 0, in its run of consecutive orders at the same price, so that the
/// orders at one price keep the order the network listed them in.
pub open spec fn run_position(prices: Seq<i64>, i: int) -> nat
    decreases i,
{
    if i <= 0 {
        0
    } else if prices[i] == prices[i - 1] {
        run_position(prices, i - 1) + 1
    } else {
        0
    }
}

pub open spec fn prices_of(orders: Seq<BookOrder>) -> Seq<i64> {
    orders.map_values(|o: BookOrder| o.price)
}

/// The parameters of the insert for one order.
pub open spec fn order_binds(asset: Seq<char>, side: Seq<char>, o: BookOrder, offset: nat) -> Seq<(Seq<char>, Seq<char>)> {
    seq![
        (":asset"@, asset),
        (":side"@, side),
        (":entity"@, o.entity@),
        (":price"@, signed_decimal(o.price as int)),
        (":num_shares"@, signed_decimal(o.num_shares as int)),
        (":offset_at_price"@, decimal(offset)),
    ]
}

/// The statements, run in one transaction, that replace one side of an
/// asset's stored book: mark its orders stale, insert (or keep) each order
/// listed with its place among the orders at its price, then delete what
/// stayed stale.
pub fn create_qx_orderbook(asset: &str, side: &str, orders: &Vec<BookOrder>) -> (sts: Vec<Statement>)
    ensures
        sts@.len() == orders@.len() + 2,
        sts@[0].sql == SQL_MARK_BOOK_STALE,
        binds_of(sts@[0]) == seq![(":side"@, side@), (":asset"@, asset@)],
        forall|i: int| 0 <= i < orders@.len() ==> {
            &&& (#[trigger] sts@[i + 1]).sql == SQL_INSERT_BOOK_ORDER
            &&& binds_of(sts@[i + 1]) == order_binds(asset@, side@, orders@[i], run_position(prices_of(orders@), i))
        },
        sts@[orders@.len() as int + 1].sql == SQL_DELETE_STALE_BOOK,
        binds_of(sts@[orders@.len() as int + 1]) == seq![(":side"@, side@), (":asset"@, asset@)],
        forall|i: int| 0 <= i < sts@.len() ==> (#[trigger] sts@[i]).columns@.len() == 0,
{
    let ghost prices = prices_of(orders@);
    let mut sts: Vec<Statement> = Vec::new();
    let first = Statement {
        sql: SQL_MARK_BOOK_STALE,
        binds: vec![(":side", String::from_str(side)), (":asset", String::from_str(asset))],
        columns: Vec::new(),
    };
    assert(binds_of(first) =~= seq![(":side"@, side@), (":asset"@, asset@)]);
    sts.push(first);
    let mut offset: usize = 0;
    let mut previous: i64 = 0;
    let mut i: usize = 0;
    while i < orders.len()
        invariant
            i <= orders@.len(),
            prices == prices_of(orders@),
            i > 0 ==> offset as nat == run_position(prices, i - 1) && previous == prices[i - 1],
            offset <= i,
            sts@.len() == i + 1,
            sts@[0].sql == SQL_MARK_BOOK_STALE,
            binds_of(sts@[0]) == seq![(":side"@, side@), (":asset"@, asset@)],
            forall|k: int| 0 <= k < i ==> {
                &&& (#[trigger] sts@[k + 1]).sql == SQL_INSERT_BOOK_ORDER
                &&& binds_of(sts@[k + 1]) == order_binds(asset@, side@, orders@[k], run_position(prices, k))
            },
            forall|k: int| 0 <= k < sts@.len() ==> (#[trigger] sts@[k]).columns@.len() == 0,
        decreases orders.len() - i,
    {
        let o = &orders[i];
        assert(prices[i as int] == o.price);
        if i == 0 || o.price != previous {
            offset = 0;
        } else {
            offset = offset + 1;
        }
        previous = o.price;
        let binds = vec![
            (":asset", String::from_str(asset)),
            (":side", String::from_str(side)),
            (":entity", o.entity.clone()),
            (":price", signed_decimal_text(o.price)),
            (":num_shares", signed_decimal_text(o.num_shares)),
            (":offset_at_price", decimal_text(offset as u64)),
        ];
        let st = Statement { sql: SQL_INSERT_BOOK_ORDER, binds, columns: Vec::new() };
        assert(binds_of(st) =~= order_binds(asset@, side@, orders@[i as int], run_position(prices, i as int)));
        let ghost before = sts@;
        sts.push(st);
        assert(sts@[i + 1] == st);
        assert(forall|k: int| 0 <= k < i + 1 ==> sts@[k] == before[k]);
        i = i + 1;
    }
    let last = Statement {
        sql: SQL_DELETE_STALE_BOOK,
        binds: vec![(":side", String::from_str(side)), (":asset", String::from_str(asset))],
        columns: Vec::new(),
    };
    assert(binds_of(last) =~= seq![(":side"@, side@), (":asset"@, asset@)]);
    sts.push(last);
    sts
}

/// A query whose text carries its order and page.
#[derive(Debug)]
pub struct BookQuery {
    pub sql: String,
    pub binds: Vec<(&'static str, String)>,
    pub columns: Vec<&'static str>,
}

/// The stored side code of a requested side: `A` for `ASK`, else `B`.
pub open spec fn side_code(side: Seq<char>) -> Seq<char> {
    if side == "ASK"@ { "A"@ } else { "B"@ }
}

/// The query text for a page of one side: asks by rising price, bids by
/// falling price.
pub open spec fn book_query_text(side: Seq<char>, limit: i32, offset: u32) -> Seq<char> {
    "SELECT * FROM qx_orderbook WHERE asset=:asset AND side=:side ORDER BY price "@
        + (if side_code(side) == "A"@ { "ASC"@ } else { "DESC"@ })
        + " LIMIT "@ + signed_decimal(limit as int) + " OFFSET "@ + decimal(offset as nat) + ";"@
}

/// A page of one side of an asset's stored book.
pub fn fetch_qx_orderbook(asset: &str, side: &str, limit: i32, offset: u32) -> (q: BookQuery)
    ensures
        q.sql@ == book_query_text(side@, limit, offset),
        q.binds@.map_values(|b: (&'static str, String)| (b.0@, b.1@)) == seq![(":asset"@, asset@), (":side"@, side_code(side@))],
        q.columns@.map_values(|c: &'static str| c@) == seq!["asset"@, "entity"@, "price"@, "num_shares"@, "side"@],
{
    let ask = same_text(side, "ASK");
    let code = if ask { "A" } else { "B" };
    proof {
        reveal_strlit("A");
    }
    let asc = if same_text(code, "A") { "ASC" } else { "DESC" };
    let mut sql = String::from_str("SELECT * FROM qx_orderbook WHERE asset=:asset AND side=:side ORDER BY price ");
    sql.append(asc);
    sql.append(" LIMIT ");
    let l = signed_decimal_text(limit as i64);
    sql.append(l.as_str());
    sql.append(" OFFSET ");
    let o = decimal_text(offset as u64);
    sql.append(o.as_str());
    sql.append(";");
    let q = BookQuery {
        sql,
        binds: vec![(":asset", String::from_str(asset)), (":side", String::from_str(code))],
        columns: vec!["asset", "entity", "price", "num_shares", "side"],
    };
    assert(q.binds@.map_values(|b: (&'static str, String)| (b.0@, b.1@)) =~= seq![(":asset"@, asset@), (":side"@, side_code(side@))]);
    assert(q.columns@.map_values(|c: &'static str| c@) =~= seq!["asset"@, "entity"@, "price"@, "num_shares"@, "side"@]);
    q
}

} // verus!
