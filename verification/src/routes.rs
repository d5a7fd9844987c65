//! The checks and answers of the wallet's HTTP routes.
use vstd::prelude::*;

pub mod identity;
pub mod wallet;
pub mod transaction;
pub mod asset;
pub mod qx;
pub mod info;
pub mod peer;
pub mod miner;

verus! {

/// Passwords shorter than this (in bytes) are refused.
pub const MINPASSWORDLEN: usize = 5;

/// Origins allowed to call the local API from a browser context: the Tauri
/// window and the Vite dev server.
pub open spec fn allowed_origins() -> Seq<Seq<char>> {
    seq![
        "tauri://localhost"@,
        "http://tauri.localhost"@,
        "https://tauri.localhost"@,
        "http://localhost:5173"@,
        "http://127.0.0.1:5173"@,
        "http://localhost:1420"@,
    ]
}

/// The allowed origins, in order.
pub fn allowed_origin_list() -> (v: Vec<&'static str>)
    ensures
        v@.map_values(|s: &'static str| s@) == allowed_origins(),
{
    let v = vec![
        "tauri://localhost",
        "http://tauri.localhost",
        "https://tauri.localhost",
        "http://localhost:5173",
        "http://127.0.0.1:5173",
        "http://localhost:1420",
    ];
    assert(v@.map_values(|s: &'static str| s@) =~= allowed_origins());
    v
}

/// ASCII lowercase of a character; other characters unchanged.
pub open spec fn ascii_lower(c: char) -> char {
    if 'A' <= c <= 'Z' {
        ((c as int) + 32) as char
    } else {
        c
    }
}

/// Two texts equal up to ASCII case.
pub open spec fn eq_ignore_ascii_case(a: Seq<char>, b: Seq<char>) -> bool {
    a.len() == b.len() && forall|i: int| 0 <= i < a.len() ==> ascii_lower(#[trigger] a[i]) == ascii_lower(b[i])
}

fn lower_char(c: char) -> (l: char)
    ensures
        l == ascii_lower(c),
{
    if 'A' <= c && c <= 'Z' {
        let v = (c as u32) + 32;
        assert(v < 0xD800);
        proof {
            assert((v as char) == ((c as int) + 32) as char);
        }
        char_of_ascii(v)
    } else {
        c
    }
}

fn char_of_ascii(v: u32) -> (c: char)
    requires
        v < 128,
    ensures
        c == v as char,
{
    let b = v as u8;
    b as char
}

/// Whether two texts are equal up to ASCII case.
pub fn same_ignoring_ascii_case(a: &str, b: &str) -> (eq: bool)
    ensures
        eq == eq_ignore_ascii_case(a@, b@),
{
    let n = a.unicode_len();
    if n != b.unicode_len() {
        return false;
    }
    let mut i: usize = 0;
    while i < n
        invariant
            n == a@.len() == b@.len(),
            i <= n,
            forall|j: int| 0 <= j < i ==> ascii_lower(#[trigger] a@[j]) == ascii_lower(b@[j]),
        decreases n - i,
    {
        if lower_char(a.get_char(i)) != lower_char(b.get_char(i)) {
            return false;
        }
        i = i + 1;
    }
    true
}

/// The origin to echo back in Access-Control-Allow-Origin, if the request's
/// Origin is one of ours (compared ignoring ASCII case): the allowed spelling.
pub fn cors_allowed_origin(origin: Option<&str>) -> (r: Option<&'static str>)
    ensures
        origin is None ==> r is None,
        origin matches Some(o) ==> match r {
            Some(a) => exists|i: int|
                0 <= i < allowed_origins().len() && allowed_origins()[i] == a@ && eq_ignore_ascii_case(
                    a@,
                    o@,
                ) && forall|j: int| 0 <= j < i ==> !eq_ignore_ascii_case(allowed_origins()[j], o@),
            None => forall|i: int|
                0 <= i < allowed_origins().len() ==> !eq_ignore_ascii_case(allowed_origins()[i], o@),
        },
{
    let o = match origin {
        Some(o) => o,
        None => return None,
    };
    let list = allowed_origin_list();
    let mut i: usize = 0;
    while i < list.len()
        invariant
            list@.map_values(|s: &'static str| s@) == allowed_origins(),
            i <= list@.len(),
            origin == Some(o),
            forall|j: int| 0 <= j < i ==> !eq_ignore_ascii_case(allowed_origins()[j], o@),
        decreases list.len() - i,
    {
        assert(list@.map_values(|s: &'static str| s@)[i as int] == list@[i as int]@);
        if same_ignoring_ascii_case(list[i], o) {
            return Some(list[i]);
        }
        i = i + 1;
    }
    None
}

} // verus!
