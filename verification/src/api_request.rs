//! The API requests the wallet answers by name.
use vstd::prelude::*;
use std::collections::HashMap;
use crate::text::{decimal, decimal_text, same_text};

verus! {

/// The work a request runs.
#[derive(Debug, Clone, Copy, PartialEq, Eq)]
pub enum Handler {
    /// `/info`: how many peers are connected.
    Info,
}

/// A request the wallet knows: its path, options, and the work it runs.
#[allow(non_camel_case_types)]
#[derive(Debug, Clone)]
pub struct request {
    pub path: String,
    pub ops: Option<HashMap<String, String>>,
    pub function: Option<Handler>,
}

impl request {
    pub fn new(path: &str, ops: Option<HashMap<String, String>>, func: Option<Handler>) -> (r: Self)
        ensures
            r.path@ == path@,
            r.ops == ops,
            r.function == func,
    {
        request { path: String::from_str(path), ops, function: func }
    }
}

fn get_info_request() -> (r: request)
    ensures
        r.path@ == "/info"@,
        r.ops is None,
        r.function == Some(Handler::Info),
{
    request::new("/info", None, Some(Handler::Info))
}

/// The requests the wallet answers: `/info` alone.
pub fn get_routes() -> (routes: Vec<request>)
    ensures
        routes@.len() == 1,
        routes@[0].path@ == "/info"@,
        routes@[0].ops is None,
        routes@[0].function == Some(Handler::Info),
{
    vec![get_info_request()]
}

/// The position of the first request with this path.
pub fn find_route(routes: &Vec<request>, path: &str) -> (r: Option<usize>)
    ensures
        match r {
            Some(i) => i < routes@.len() && routes@[i as int].path@ == path@ && forall|j: int|
                0 <= j < i ==> routes@[j].path@ != path@,
            None => forall|j: int| 0 <= j < routes@.len() ==> routes@[j].path@ != path@,
        },
{
    let mut i: usize = 0;
    while i < routes.len()
        invariant
            i <= routes@.len(),
            forall|j: int| 0 <= j < i ==> routes@[j].path@ != path@,
        decreases routes.len() - i,
    {
        if same_text(routes[i].path.as_str(), path) {
            return Some(i);
        }
        i = i + 1;
    }
    None
}

/// The answer of `/info`, from the count of connected peers or the error
/// reading them.
pub fn info(connected: Result<usize, String>) -> (answer: String)
    ensures
        connected matches Ok(n) ==> answer@ == decimal(n as nat),
        connected matches Err(e) ==> answer@ == "Error! : "@ + e@,
{
    match connected {
        Ok(n) => decimal_text(n as u64),
        Err(e) => {
            let mut s = String::from_str("Error! : ");
            s.append(e.as_str());
            s
        },
    }
}

} // verus!
