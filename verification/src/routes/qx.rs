//! The QX routes.
use vstd::prelude::*;
use crate::case_text::{to_upper, uppercase};
use crate::routes::transaction::IDENTITY_LEN;
use crate::text::{decimal, decimal_text, same_text};

verus! {

/// Body of `POST /qx/order`; `side` is ASK, BID, REMOVEASK or REMOVEBID
/// (any case), a `tick` of 0 means the latest known tick.
#[derive(Debug, Clone)]
pub struct QxOrderRequest {
    pub tick: u32,
    pub issuer: String,
    pub asset: String,
    pub side: String,
    pub address: String,
    pub price: u64,
    pub amount: u64,
    pub password: String,
}

pub const INVALID_ASSET: &'static str = "Invalid Asset!";
pub const INVALID_IDENTITY: &'static str = "Invalid Identity!";
pub const INVALID_ORDER_TYPE: &'static str = "Invalid QX Order Type!";

/// What is wrong with an order's asset name or identity.
pub fn order_error(asset: &str, address: &str) -> (r: Option<&'static str>)
    ensures
        r == if asset.len() > 8 {
            Some(INVALID_ASSET)
        } else if address.len() != IDENTITY_LEN {
            Some(INVALID_IDENTITY)
        } else {
            None
        },
{
    if asset.len() > 8 {
        Some(INVALID_ASSET)
    } else if address.len() != IDENTITY_LEN {
        Some(INVALID_IDENTITY)
    } else {
        None
    }
}

/// The QX procedure an order calls.
#[derive(Debug, Clone, Copy, PartialEq, Eq)]
pub enum QxSide {
    AddAsk,
    AddBid,
    RemoveAsk,
    RemoveBid,
}

/// The procedure named by an order's side, matched on its uppercase form.
pub open spec fn spec_order_side(side: Seq<char>) -> Option<QxSide> {
    let up = uppercase(side);
    if up == "ASK"@ {
        Some(QxSide::AddAsk)
    } else if up == "BID"@ {
        Some(QxSide::AddBid)
    } else if up == "REMOVEASK"@ {
        Some(QxSide::RemoveAsk)
    } else if up == "REMOVEBID"@ {
        Some(QxSide::RemoveBid)
    } else {
        None
    }
}

/// The procedure an order's side names (`None`: "Invalid QX Order Type!").
pub fn order_side(side: &str) -> (r: Option<QxSide>)
    ensures
        r == spec_order_side(side@),
{
    let up = to_upper(side);
    if same_text(up.as_str(), "ASK") {
        Some(QxSide::AddAsk)
    } else if same_text(up.as_str(), "BID") {
        Some(QxSide::AddBid)
    } else if same_text(up.as_str(), "REMOVEASK") {
        Some(QxSide::RemoveAsk)
    } else if same_text(up.as_str(), "REMOVEBID") {
        Some(QxSide::RemoveBid)
    } else {
        None
    }
}

/// The tick an order is signed for: the one asked for, or the latest known tick for 0.
pub fn order_tick(tick: u32, latest: u32) -> (t: u32)
    ensures
        t == if tick == 0 { latest } else { tick },
{
    if tick == 0 { latest } else { tick }
}

/// Seconds as JSON: the number, or `null` for never.
pub open spec fn json_seconds(v: Option<u64>) -> Seq<char> {
    match v {
        Some(s) => decimal(s as nat),
        None => "null"@,
    }
}

fn seconds_text(v: Option<u64>) -> (t: String)
    ensures
        t@ == json_seconds(v),
{
    match v {
        Some(s) => decimal_text(s),
        None => String::from_str("null"),
    }
}

/// The answer of `/qx/book_age`: seconds since each side of an asset's
/// book was last received, `null` for never.
pub fn book_age_json(asset: &str, ask: Option<u64>, bid: Option<u64>) -> (t: String)
    ensures
        t@ == "{\"asset\": \""@ + asset@ + "\", \"ask\": "@ + json_seconds(ask) + ", \"bid\": "@
            + json_seconds(bid) + "}"@,
{
    let mut t = String::from_str("{\"asset\": \"");
    t.append(asset);
    t.append("\", \"ask\": ");
    let a = seconds_text(ask);
    t.append(a.as_str());
    t.append(", \"bid\": ");
    let b = seconds_text(bid);
    t.append(b.as_str());
    t.append("}");
    t
}

} // verus!
