use rubic::book_watch::{issuer_of, viewed_pass, BookRefreshes};

fn assets() -> Vec<(String, String)> {
    ["A", "B", "C", "D", "E", "F"].iter().map(|n| (n.to_string(), format!("ISSUER_{}", n))).collect()
}

fn names(v: &[&str]) -> Vec<String> {
    v.iter().map(|s| s.to_string()).collect()
}

#[test]
fn issuers_are_looked_up_by_name() {
    let a = assets();
    assert_eq!(issuer_of(&a, "C"), Some("ISSUER_C".to_string()));
    assert_eq!(issuer_of(&a, "Z"), None);
}

#[test]
fn viewed_pass_is_bounded() {
    let mut r = BookRefreshes::new();
    let asked = viewed_pass(&names(&["A", "Z", "B", "C", "D", "E"]), &assets(), &mut r, 10_000, 50);
    let got: Vec<&str> = asked.iter().map(|p| p.0.as_str()).collect();
    assert_eq!(got, vec!["A", "B", "C", "D"]);
    assert_eq!(asked[0].1, "ISSUER_A");
    assert_eq!(r.last("A"), Some((10_000, 50)));
    assert_eq!(r.last("E"), None);
}

#[test]
fn a_viewed_book_waits_for_a_new_tick_or_three_seconds() {
    let mut r = BookRefreshes::new();
    r.record("A", 10_000, 50);
    let a = assets();
    assert!(viewed_pass(&names(&["A"]), &a, &mut r, 10_400, 51).is_empty());
    assert!(viewed_pass(&names(&["A"]), &a, &mut r, 10_600, 50).is_empty());
    assert_eq!(viewed_pass(&names(&["A"]), &a, &mut r, 10_600, 51).len(), 1);
    assert_eq!(r.last("A"), Some((10_600, 51)));
    assert_eq!(viewed_pass(&names(&["A"]), &a, &mut r, 13_600, 51).len(), 1);
}
