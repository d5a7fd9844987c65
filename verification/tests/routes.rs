use rubic::api_request::{find_route, get_routes, info, request, Handler};
use rubic::routes::asset::{asset_transfer_error, holds_balance, INVALID_ASSET_NAME};
use rubic::routes::identity::{
    delete_plan, extend_seed, identity_listing, seed_error, store_plan, DeletePlan, StorePlan, DELETE_NEEDS_PASSWORD,
    SEED_LENGTH_ERROR, SEED_LETTERS_ERROR,
};
use rubic::routes::info::health_json;
use rubic::routes::peer::{peer_limit_plan, LimitPlan, INVALID_LIMIT, INVALID_OPTION, MAX_UNDER_MIN, MIN_OVER_MAX};
use rubic::routes::qx::{book_age_json, order_error, order_side, order_tick, QxSide, INVALID_ASSET, INVALID_IDENTITY};
use rubic::routes::transaction::{
    listing_order, seed_access, transfer_error, SeedAccess, INVALID_DESTINATION, INVALID_SOURCE, NEED_PASSWORD,
};
use rubic::routes::wallet::{
    new_password_error, unlock_error, wallet_file, WalletEntry, PASSWORD_TOO_LONG, PASSWORD_TOO_SHORT, TIMEOUT_TOO_LONG,
};
use rubic::routes::{cors_allowed_origin, same_ignoring_ascii_case};

const ID: &str = "EPYWDREDNLHXOFYVGQUKPHJGOMPBSLDDGZDPKVQUMFXAIQYMZGEHPZTAAWON";

fn row(pairs: &[(&str, &str)]) -> Vec<(String, String)> {
    pairs.iter().map(|(k, v)| (k.to_string(), v.to_string())).collect()
}

#[test]
fn only_known_origins_are_allowed() {
    assert_eq!(cors_allowed_origin(Some("tauri://localhost")), Some("tauri://localhost"));
    assert_eq!(cors_allowed_origin(Some("HTTP://LOCALHOST:5173")), Some("http://localhost:5173"));
    assert_eq!(cors_allowed_origin(Some("http://evil.example")), None);
    assert_eq!(cors_allowed_origin(None), None);
    assert!(same_ignoring_ascii_case("AbC", "aBc"));
    assert!(!same_ignoring_ascii_case("abc", "abd"));
}

#[test]
fn info_route_reports_connected_peers() {
    let routes = get_routes();
    assert_eq!(routes.len(), 1);
    assert_eq!(find_route(&routes, "/info"), Some(0));
    assert_eq!(find_route(&routes, "/nope"), None);
    assert_eq!(routes[0].function, Some(Handler::Info));
    assert_eq!(info(Ok(4)), "4");
    assert_eq!(info(Err("no peers".to_string())), "Error! : no peers");
    let r = request::new("/x", None, None);
    assert_eq!(r.path, "/x");
}

#[test]
fn seeds_are_checked() {
    let good = "a".repeat(55);
    assert_eq!(seed_error(&good), None);
    assert_eq!(seed_error("abc"), Some(SEED_LENGTH_ERROR));
    let bad = format!("{}A", "a".repeat(54));
    assert_eq!(seed_error(&bad), Some(SEED_LETTERS_ERROR));
}

#[test]
fn random_seeds_take_only_lowercase_letters() {
    let mut seed = String::from("ab");
    extend_seed(&mut seed, &[b'c', b'1', b'Z', b'd']);
    assert_eq!(seed, "abcd");
    let mut long = "a".repeat(54);
    extend_seed(&mut long, &[b'x', b'y']);
    assert_eq!(long.len(), 55);
    assert!(long.ends_with('x'));
}

#[test]
fn identities_are_listed_with_their_flag() {
    let ids = vec![("A".to_string(), true), ("B".to_string(), false)];
    assert_eq!(identity_listing(&ids), vec!["A", "true", "B", "false"]);
}

#[test]
fn identities_are_stored_and_deleted_as_the_wallet_allows() {
    assert_eq!(store_plan(true, ""), StorePlan::EncryptWithUnlocked);
    assert_eq!(store_plan(false, "secret"), StorePlan::VerifyThenEncrypt);
    assert_eq!(store_plan(false, "abc"), StorePlan::StorePlain);
    assert_eq!(delete_plan(true, true, ""), DeletePlan::Delete);
    assert_eq!(delete_plan(false, true, "abc"), DeletePlan::Refuse(DELETE_NEEDS_PASSWORD));
    assert_eq!(delete_plan(false, true, "abcde"), DeletePlan::DecryptThenDelete);
    assert_eq!(delete_plan(false, false, ""), DeletePlan::Delete);
}

#[test]
fn transfers_are_checked() {
    assert_eq!(transfer_error(ID, ID), None);
    assert_eq!(transfer_error("short", ID), Some(INVALID_SOURCE));
    assert_eq!(transfer_error(ID, "short"), Some(INVALID_DESTINATION));
    assert_eq!(listing_order(1, 0), ("ASC", -1));
    assert_eq!(listing_order(0, 25), ("DESC", 25));
    assert_eq!(seed_access(false, false, ""), SeedAccess::AsStored);
    assert_eq!(seed_access(true, true, ""), SeedAccess::DecryptUnlocked);
    assert_eq!(seed_access(true, false, "12345"), SeedAccess::VerifyThenDecrypt);
    assert_eq!(seed_access(true, false, "1234"), SeedAccess::Refuse(NEED_PASSWORD));
}

#[test]
fn asset_transfers_are_checked() {
    assert_eq!(asset_transfer_error("QX", ID, ID), None);
    assert_eq!(asset_transfer_error("TOOLONGNAME", ID, ID), Some(INVALID_ASSET_NAME));
    assert_eq!(asset_transfer_error("QX", "x", ID), Some(INVALID_SOURCE));
    assert!(holds_balance(&row(&[("balance", "12")])));
    assert!(!holds_balance(&row(&[("balance", "0")])));
    assert!(!holds_balance(&row(&[("balance", "")])));
    assert!(!holds_balance(&row(&[("other", "5")])));
}

#[test]
fn qx_orders_are_checked() {
    assert_eq!(order_error("CFB", ID), None);
    assert_eq!(order_error("NINECHARS", ID), Some(INVALID_ASSET));
    assert_eq!(order_error("CFB", "x"), Some(INVALID_IDENTITY));
    assert_eq!(order_side("ask"), Some(QxSide::AddAsk));
    assert_eq!(order_side("Bid"), Some(QxSide::AddBid));
    assert_eq!(order_side("REMOVEASK"), Some(QxSide::RemoveAsk));
    assert_eq!(order_side("removebid"), Some(QxSide::RemoveBid));
    assert_eq!(order_side("sell"), None);
    assert_eq!(order_tick(0, 900), 900);
    assert_eq!(order_tick(5, 900), 5);
    assert_eq!(book_age_json("CFB", Some(3), None), "{\"asset\": \"CFB\", \"ask\": 3, \"bid\": null}");
}

#[test]
fn health_reports_the_queue() {
    assert_eq!(
        health_json(10, 4, 50, 3, "1234"),
        "{\"backlog\": 10, \"tick_backlog\": 4, \"routine_backlog\": 6, \"routine_limit\": 50, \"peers\": 3, \"latest_tick\": 1234}"
    );
    assert_eq!(
        health_json(1, 4, 50, 0, "no tick"),
        "{\"backlog\": 1, \"tick_backlog\": 4, \"routine_backlog\": 0, \"routine_limit\": 50, \"peers\": 0, \"latest_tick\": null}"
    );
}

#[test]
fn peer_limits_are_checked() {
    assert_eq!(peer_limit_plan("min", 0, 3, 8), LimitPlan::Refuse(INVALID_LIMIT));
    assert_eq!(peer_limit_plan("MIN", 4, 3, 8), LimitPlan::SetMin(4));
    assert_eq!(peer_limit_plan("min", 9, 3, 8), LimitPlan::Refuse(MIN_OVER_MAX));
    assert_eq!(peer_limit_plan("max", 2, 3, 8), LimitPlan::Refuse(MAX_UNDER_MIN));
    assert_eq!(peer_limit_plan("Max", 12, 3, 8), LimitPlan::SetMax(12));
    assert_eq!(peer_limit_plan("both", 4, 3, 8), LimitPlan::Refuse(INVALID_OPTION));
}

#[test]
fn unlocking_is_checked() {
    assert_eq!(unlock_error("abcd", 10), Some(PASSWORD_TOO_SHORT));
    assert_eq!(unlock_error(&"a".repeat(65), 10), Some(PASSWORD_TOO_LONG));
    assert_eq!(unlock_error("abcde", 100_000), Some(TIMEOUT_TOO_LONG));
    assert_eq!(unlock_error("abcde", 99_999), None);
    assert_eq!(new_password_error("abcd"), Some(PASSWORD_TOO_SHORT));
    assert_eq!(new_password_error("abcde"), None);
}

fn entry(identity: &str, encrypted: bool, decrypted: Option<(&str, &str, &str)>) -> WalletEntry {
    WalletEntry {
        identity: identity.to_string(),
        seed: "seed".to_string(),
        salt: "salt".to_string(),
        hash: "hash".to_string(),
        encrypted,
        decrypted: decrypted.map(|(a, b, c)| (a.to_string(), b.to_string(), c.to_string())),
    }
}

#[test]
fn the_wallet_file_lists_usable_seeds() {
    let entries = vec![entry("A", false, None), entry("B", true, Some(("s", "t", "h"))), entry("C", true, None)];
    assert_eq!(wallet_file(&entries, 8), "A,seed,salt,hash\nB,s,t,h\nC,,,\n");
    assert_eq!(wallet_file(&entries, 2), "A,seed,,\nB,seed,,\nC,seed,,\n");
    assert_eq!(wallet_file(&vec![entry("C", true, None)], 8), "Invalid Password!");
}
