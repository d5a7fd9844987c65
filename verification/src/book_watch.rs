//! The order-book monitor's pass: which viewed books are asked for, at most
//! a few per pass, and when each book was last asked for.
use vstd::prelude::*;
use crate::monitors::{spec_viewed_due, viewed_due};
use crate::text::same_text;

verus! {

/// At most this many viewed books are asked for per pass.
pub const VIEWED_PER_PASS: usize = 4;
/// The list of issued assets is reloaded this often (ms).
pub const ASSET_LIST_REFRESH_MS: u64 = 60_000;

/// An asset's issuer in the list of (name, issuer) pairs: that of its first entry.
pub open spec fn issuer_in(assets: Seq<(Seq<char>, Seq<char>)>, name: Seq<char>) -> Option<Seq<char>>
    decreases assets.len(),
{
    if assets.len() == 0 {
        None
    } else if assets[0].0 == name {
        Some(assets[0].1)
    } else {
        issuer_in(assets.subrange(1, assets.len() as int), name)
    }
}

/// The texts of (name, issuer) pairs.
pub open spec fn pair_texts(v: Seq<(String, String)>) -> Seq<(Seq<char>, Seq<char>)> {
    v.map_values(|p: (String, String)| (p.0@, p.1@))
}

pub fn issuer_of(assets: &Vec<(String, String)>, name: &str) -> (r: Option<String>)
    ensures
        match issuer_in(pair_texts(assets@), name@) {
            Some(i) => r is Some && r->0@ == i,
            None => r is None,
        },
{
    let ghost all = pair_texts(assets@);
    let mut i: usize = 0;
    assert(all.subrange(0, all.len() as int) =~= all);
    while i < assets.len()
        invariant
            i <= assets@.len(),
            all == pair_texts(assets@),
            issuer_in(all, name@) == issuer_in(all.subrange(i as int, all.len() as int), name@),
        decreases assets.len() - i,
    {
        let ghost rest = all.subrange(i as int, all.len() as int);
        assert(rest[0] == (assets@[i as int].0@, assets@[i as int].1@));
        if same_text(assets[i].0.as_str(), name) {
            return Some(assets[i].1.clone());
        }
        assert(rest.subrange(1, rest.len() as int) =~= all.subrange(i + 1, all.len() as int));
        i = i + 1;
    }
    assert(all.subrange(i as int, all.len() as int) =~= Seq::<(Seq<char>, Seq<char>)>::empty());
    None
}

/// `k` is the first entry for `name`.
pub open spec fn first_entry(s: Seq<(Seq<char>, (u64, u32))>, name: Seq<char>, k: int) -> bool {
    0 <= k < s.len() && s[k].0 == name && forall|j: int| 0 <= j < k ==> s[j].0 != name
}

/// The first entry for `name`, if any.
pub open spec fn entry_of(s: Seq<(Seq<char>, (u64, u32))>, name: Seq<char>) -> Option<int> {
    if exists|k: int| first_entry(s, name, k) {
        Some(choose|k: int| first_entry(s, name, k))
    } else {
        None
    }
}

/// When a book was last asked for, and the tick known then.
pub open spec fn last_of(s: Seq<(Seq<char>, (u64, u32))>, name: Seq<char>) -> Option<(u64, u32)> {
    match entry_of(s, name) {
        Some(k) => Some(s[k].1),
        None => None,
    }
}

/// The list after recording that `name` was asked for as `v`: its first
/// entry renewed, or a new entry last.
pub open spec fn recorded(s: Seq<(Seq<char>, (u64, u32))>, name: Seq<char>, v: (u64, u32)) -> Seq<(Seq<char>, (u64, u32))> {
    match entry_of(s, name) {
        Some(k) => s.update(k, (name, v)),
        None => s.push((name, v)),
    }
}

/// When each book was last asked for (ms), with the tick known then.
pub struct BookRefreshes {
    entries: Vec<(String, (u64, u32))>,
}

impl View for BookRefreshes {
    type V = Seq<(Seq<char>, (u64, u32))>;

    closed spec fn view(&self) -> Seq<(Seq<char>, (u64, u32))> {
        self.entries@.map_values(|e: (String, (u64, u32))| (e.0@, e.1))
    }
}

impl BookRefreshes {
    pub fn new() -> (b: Self)
        ensures
            b@ == Seq::<(Seq<char>, (u64, u32))>::empty(),
    {
        let b = BookRefreshes { entries: Vec::new() };
        assert(b@ =~= Seq::<(Seq<char>, (u64, u32))>::empty());
        b
    }

    /// Where the first entry for `name` stands, if any.
    fn find(&self, name: &str) -> (r: Option<usize>)
        ensures
            match entry_of(self@, name@) {
                Some(k) => r is Some && r->0 as int == k,
                None => r is None,
            },
    {
        let mut i: usize = 0;
        while i < self.entries.len()
            invariant
                i <= self@.len(),
                self@.len() == self.entries@.len(),
                forall|j: int| 0 <= j < i ==> self@[j].0 != name@,
            decreases self.entries.len() - i,
        {
            assert(self@[i as int].0 == self.entries@[i as int].0@);
            if same_text(self.entries[i].0.as_str(), name) {
                proof {
                    assert(first_entry(self@, name@, i as int));
                    let k = choose|k: int| first_entry(self@, name@, k);
                    assert(k == i);
                }
                return Some(i);
            }
            i = i + 1;
        }
        None
    }

    /// When `name`'s book was last asked for.
    pub fn last(&self, name: &str) -> (r: Option<(u64, u32)>)
        ensures
            r == last_of(self@, name@),
    {
        match self.find(name) {
            Some(i) => {
                assert(self@[i as int].1 == self.entries@[i as int].1);
                Some(self.entries[i].1)
            },
            None => None,
        }
    }

    /// Records that `name`'s book was asked for at `now_ms`, at `tick`.
    pub fn record(&mut self, name: &str, now_ms: u64, tick: u32)
        ensures
            final(self)@ == recorded(old(self)@, name@, (now_ms, tick)),
    {
        match self.find(name) {
            Some(i) => {
                let ghost before = self@;
                let n = self.entries[i].0.clone();
                self.entries.set(i, (n, (now_ms, tick)));
                assert(self@ =~= before.update(i as int, (name@, (now_ms, tick))));
            },
            None => {
                let ghost before = self@;
                self.entries.push((String::from_str(name), (now_ms, tick)));
                assert(self@ =~= before.push((name@, (now_ms, tick))));
            },
        }
    }
}

/// The viewed books asked for by a pass, as (name, issuer), and the refresh
/// list after it: in the order viewed, each book due and with a known issuer,
/// until `VIEWED_PER_PASS` are asked for.
pub open spec fn viewed_pass_spec(
    viewed: Seq<Seq<char>>,
    assets: Seq<(Seq<char>, Seq<char>)>,
    refreshes: Seq<(Seq<char>, (u64, u32))>,
    now_ms: u64,
    tick: u32,
) -> (Seq<(Seq<char>, Seq<char>)>, Seq<(Seq<char>, (u64, u32))>)
    decreases viewed.len(),
{
    if viewed.len() == 0 {
        (Seq::empty(), refreshes)
    } else {
        let (asked, r) = viewed_pass_spec(viewed.drop_last(), assets, refreshes, now_ms, tick);
        let name = viewed.last();
        if asked.len() >= VIEWED_PER_PASS {
            (asked, r)
        } else if spec_viewed_due(last_of(r, name), now_ms, tick) && issuer_in(assets, name) is Some {
            (asked.push((name, issuer_in(assets, name)->0)), recorded(r, name, (now_ms, tick)))
        } else {
            (asked, r)
        }
    }
}

/// Picks the viewed books to ask for this pass and records them as asked
/// for at `now_ms` and `tick`.
pub fn viewed_pass(
    viewed: &Vec<String>,
    assets: &Vec<(String, String)>,
    refreshes: &mut BookRefreshes,
    now_ms: u64,
    tick: u32,
) -> (asked: Vec<(String, String)>)
    ensures
        (pair_texts(asked@), final(refreshes)@) == viewed_pass_spec(
            viewed@.map_values(|s: String| s@),
            pair_texts(assets@),
            old(refreshes)@,
            now_ms,
            tick,
        ),
{
    let ghost names = viewed@.map_values(|s: String| s@);
    let ghost start = refreshes@;
    let mut asked: Vec<(String, String)> = Vec::new();
    let mut i: usize = 0;
    while i < viewed.len()
        invariant
            i <= viewed@.len(),
            names == viewed@.map_values(|s: String| s@),
            start == old(refreshes)@,
            (pair_texts(asked@), refreshes@) == viewed_pass_spec(names.take(i as int), pair_texts(assets@), start, now_ms, tick),
        decreases viewed.len() - i,
    {
        assert(names.take(i + 1).drop_last() =~= names.take(i as int));
        assert(names.take(i + 1).last() == viewed@[i as int]@);
        let name = viewed[i].as_str();
        if asked.len() < VIEWED_PER_PASS {
            let last = refreshes.last(name);
            if viewed_due(last, now_ms, tick) {
                match issuer_of(assets, name) {
                    Some(issuer) => {
                        let ghost before = asked@;
                        asked.push((String::from_str(name), issuer));
                        assert(pair_texts(asked@) =~= pair_texts(before).push((name@, issuer_in(pair_texts(assets@), name@)->0)));
                        refreshes.record(name, now_ms, tick);
                    },
                    None => {},
                }
            }
        }
        i = i + 1;
    }
    assert(names.take(viewed@.len() as int) =~= names);
    asked
}

/// A pass asks for at most `VIEWED_PER_PASS` viewed books, each one viewed
/// and asked for with its issuer.
pub proof fn viewed_pass_is_bounded(
    viewed: Seq<Seq<char>>,
    assets: Seq<(Seq<char>, Seq<char>)>,
    refreshes: Seq<(Seq<char>, (u64, u32))>,
    now_ms: u64,
    tick: u32,
)
    ensures
        viewed_pass_spec(viewed, assets, refreshes, now_ms, tick).0.len() <= VIEWED_PER_PASS,
        forall|k: int| 0 <= k < viewed_pass_spec(viewed, assets, refreshes, now_ms, tick).0.len() ==> {
            let (name, issuer) = #[trigger] viewed_pass_spec(viewed, assets, refreshes, now_ms, tick).0[k];
            viewed.contains(name) && issuer_in(assets, name) == Some(issuer)
        },
    decreases viewed.len(),
{
    if viewed.len() > 0 {
        let shorter = viewed.drop_last();
        viewed_pass_is_bounded(shorter, assets, refreshes, now_ms, tick);
        let asked = viewed_pass_spec(shorter, assets, refreshes, now_ms, tick).0;
        let all = viewed_pass_spec(viewed, assets, refreshes, now_ms, tick).0;
        assert forall|k: int| 0 <= k < all.len() implies {
            let (name, issuer) = #[trigger] all[k];
            viewed.contains(name) && issuer_in(assets, name) == Some(issuer)
        } by {
            if k < asked.len() {
                assert(all[k] == asked[k]);
                let m = choose|m: int| 0 <= m < shorter.len() && shorter[m] == all[k].0;
                assert(viewed[m] == all[k].0);
            } else {
                assert(all[k].0 == viewed.last());
                assert(viewed[viewed.len() - 1] == all[k].0);
            }
        }
    }
}

} // verus!
