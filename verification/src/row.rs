//! A stored row as its columns' text, and reading typed values from it.
//!
//! A row is the list of `(column, text)` pairs a query returned; a column
//! that is missing reads as empty text.
use vstd::prelude::*;
use crate::text::{parse_i64, parse_u32, parse_u64, parsed_i64, parsed_u32, parsed_u64, same_text};

verus! {

/// The text stored under `key`: the first pair naming that column.
pub open spec fn lookup(row: Seq<(String, String)>, key: Seq<char>) -> Option<Seq<char>>
    decreases row.len(),
{
    if row.len() == 0 {
        None
    } else if row[0].0@ == key {
        Some(row[0].1@)
    } else {
        lookup(row.drop_first(), key)
    }
}

/// The text of a column, empty when the row lacks it.
pub open spec fn text_of(row: Seq<(String, String)>, key: Seq<char>) -> Seq<char> {
    match lookup(row, key) {
        Some(v) => v,
        None => Seq::empty(),
    }
}

/// The index of the pair naming `key`, if any.
pub fn position(row: &Vec<(String, String)>, key: &str) -> (p: Option<usize>)
    ensures
        match p {
            Some(i) => i < row@.len() && lookup(row@, key@) == Some(row@[i as int].1@),
            None => lookup(row@, key@) is None,
        },
{
    let mut i: usize = 0;
    assert(row@.subrange(0, row@.len() as int) =~= row@);
    while i < row.len()
        invariant
            i <= row@.len(),
            lookup(row@, key@) == lookup(row@.subrange(i as int, row@.len() as int), key@),
        decreases row.len() - i,
    {
        let ghost rest = row@.subrange(i as int, row@.len() as int);
        assert(rest.drop_first() =~= row@.subrange(i + 1, row@.len() as int));
        assert(rest[0] == row@[i as int]);
        if same_text(row[i].0.as_str(), key) {
            return Some(i);
        }
        i = i + 1;
    }
    assert(row@.subrange(i as int, row@.len() as int).len() == 0);
    None
}

/// The text of a column (empty when the row lacks it).
pub fn get(row: &Vec<(String, String)>, key: &str) -> (v: String)
    ensures
        v@ == text_of(row@, key@),
{
    match position(row, key) {
        Some(i) => row[i].1.clone(),
        None => String::new(),
    }
}

/// A column read as a `u32`; `None` when missing or not such a number.
pub fn num_u32(row: &Vec<(String, String)>, key: &str) -> (v: Option<u32>)
    ensures
        v == match lookup(row@, key@) {
            Some(t) => parsed_u32(t),
            None => None,
        },
{
    match position(row, key) {
        Some(i) => parse_u32(row[i].1.as_str()),
        None => None,
    }
}

/// A column read as a `u64`; `None` when missing or not such a number.
pub fn num_u64(row: &Vec<(String, String)>, key: &str) -> (v: Option<u64>)
    ensures
        v == match lookup(row@, key@) {
            Some(t) => parsed_u64(t),
            None => None,
        },
{
    match position(row, key) {
        Some(i) => parse_u64(row[i].1.as_str()),
        None => None,
    }
}

/// A column read as an `i64`; `None` when missing or not such a number.
pub fn num_i64(row: &Vec<(String, String)>, key: &str) -> (v: Option<i64>)
    ensures
        v == match lookup(row@, key@) {
            Some(t) => parsed_i64(t),
            None => None,
        },
{
    match position(row, key) {
        Some(i) => parse_i64(row[i].1.as_str()),
        None => None,
    }
}

} // verus!
