//! State the background monitors keep between passes, and what they decide
//! each pass: provider-status checks asked for by the routes, the order
//! books the UI is viewing, and when a book is due for a refresh.
use vstd::prelude::*;
use crate::text::same_text;

verus! {

/// Identities whose provider status should be fetched on the next pass.
pub struct StatusChecks {
    pending: Vec<String>,
}

impl View for StatusChecks {
    type V = Set<Seq<char>>;

    closed spec fn view(&self) -> Set<Seq<char>> {
        Set::new(|s: Seq<char>| exists|i: int| 0 <= i < self.pending@.len() && #[trigger] self.pending@[i]@ == s)
    }
}

impl StatusChecks {
    #[verifier::type_invariant]
    closed spec fn no_repeats(&self) -> bool {
        forall|i: int, j: int|
            0 <= i < j < self.pending@.len() ==> #[trigger] self.pending@[i]@ != #[trigger] self.pending@[j]@
    }

    /// No check asked for yet.
    pub fn new() -> (c: Self)
        ensures
            c@ == Set::<Seq<char>>::empty(),
    {
        let c = StatusChecks { pending: Vec::new() };
        assert(c@ =~= Set::<Seq<char>>::empty());
        c
    }

    /// Hands out every identity asked for, each once, and forgets them.
    pub fn drain(&mut self) -> (out: Vec<String>)
        ensures
            final(self)@ == Set::<Seq<char>>::empty(),
            forall|s: Seq<char>| old(self)@.contains(s) <==> exists|i: int| 0 <= i < out@.len() && #[trigger] out@[i]@ == s,
            forall|i: int, j: int| 0 <= i < j < out@.len() ==> #[trigger] out@[i]@ != #[trigger] out@[j]@,
    {
        proof {
            use_type_invariant(&*self);
        }
        let mut out: Vec<String> = Vec::new();
        std::mem::swap(&mut out, &mut self.pending);
        assert(self@ =~= Set::<Seq<char>>::empty());
        out
    }
}

/// Asks the driver to fetch the contract's provider status for an identity
/// on its next pass.
pub fn queue_provider_status_check(checks: &mut StatusChecks, identity: &str)
    ensures
        final(checks)@ == old(checks)@.insert(identity@),
{
    proof {
        use_type_invariant(&*checks);
    }
    let mut i: usize = 0;
    while i < checks.pending.len()
        invariant
            i <= checks.pending@.len(),
            checks.pending == old(checks).pending,
            forall|j: int| 0 <= j < i ==> checks.pending@[j]@ != identity@,
        decreases checks.pending.len() - i,
    {
        if same_text(checks.pending[i].as_str(), identity) {
            assert(old(checks)@.insert(identity@) =~= old(checks)@);
            return;
        }
        i = i + 1;
    }
    let ghost before = checks.pending@;
    let mut pending: Vec<String> = Vec::new();
    std::mem::swap(&mut pending, &mut checks.pending);
    pending.push(String::from_str(identity));
    std::mem::swap(&mut pending, &mut checks.pending);
    assert(checks@ =~= old(checks)@.insert(identity@)) by {
        assert forall|s: Seq<char>| checks@.contains(s) <==> old(checks)@.insert(identity@).contains(s) by {
            if old(checks)@.contains(s) {
                let k = choose|k: int| 0 <= k < before.len() && #[trigger] before[k]@ == s;
                assert(checks.pending@[k] == before[k]);
            }
            if s == identity@ {
                assert(checks.pending@[before.len() as int]@ == s);
            }
            if checks@.contains(s) {
                let k = choose|k: int| 0 <= k < checks.pending@.len() && #[trigger] checks.pending@[k]@ == s;
                if k < before.len() {
                    assert(before[k] == checks.pending@[k]);
                }
            }
        }
    }
}

/// When each viewed asset was last reported by the order-book route.
pub struct ViewedAssets {
    entries: Vec<(String, u64)>,
}

/// An asset stays viewed this long (ms) after the route last reported it.
pub const VIEW_LEASE_MS: u64 = 10_000;

/// Whether a report at `at` is still within the lease at `now`.
pub open spec fn within_lease(at: u64, now: u64) -> bool {
    now < at || now - at < VIEW_LEASE_MS
}

/// The entries still within the lease, in order.
pub open spec fn keep_fresh(s: Seq<(Seq<char>, u64)>, now: u64) -> Seq<(Seq<char>, u64)>
    decreases s.len(),
{
    if s.len() == 0 {
        s
    } else {
        let rest = keep_fresh(s.drop_last(), now);
        if within_lease(s.last().1, now) {
            rest.push(s.last())
        } else {
            rest
        }
    }
}

impl View for ViewedAssets {
    type V = Seq<(Seq<char>, u64)>;

    closed spec fn view(&self) -> Seq<(Seq<char>, u64)> {
        self.entries@.map_values(|e: (String, u64)| (e.0@, e.1))
    }
}

impl ViewedAssets {
    pub fn new() -> (v: Self)
        ensures
            v@ == Seq::<(Seq<char>, u64)>::empty(),
    {
        let v = ViewedAssets { entries: Vec::new() };
        assert(v@ =~= Seq::<(Seq<char>, u64)>::empty());
        v
    }

    /// Drops the assets not reported within the lease before `now_ms`, and
    /// names the rest.
    pub fn current(&mut self, now_ms: u64) -> (names: Vec<String>)
        ensures
            final(self)@ == keep_fresh(old(self)@, now_ms),
            names@.map_values(|s: String| s@) == final(self)@.map_values(|e: (Seq<char>, u64)| e.0),
    {
        let ghost old_view = self@;
        let mut kept: Vec<(String, u64)> = Vec::new();
        let mut names: Vec<String> = Vec::new();
        let mut i: usize = 0;
        while i < self.entries.len()
            invariant
                i <= self.entries@.len(),
                self@ == old_view,
                kept@.map_values(|e: (String, u64)| (e.0@, e.1)) == keep_fresh(old_view.take(i as int), now_ms),
                names@.map_values(|s: String| s@) == kept@.map_values(|e: (String, u64)| e.0@),
            decreases self.entries.len() - i,
        {
            assert(old_view.take(i + 1).drop_last() =~= old_view.take(i as int));
            assert(old_view[i as int] == (self.entries@[i as int].0@, self.entries@[i as int].1));
            let at = self.entries[i].1;
            if now_ms < at || now_ms - at < VIEW_LEASE_MS {
                let name = self.entries[i].0.clone();
                let ghost names_before = names@;
                let ghost kept_before = kept@;
                kept.push((name.clone(), at));
                names.push(name);
                assert(names@ == names_before.push(name));
                assert(kept@ == kept_before.push((name, at)));
                assert(names@.map_values(|s: String| s@) =~= names_before.map_values(|s: String| s@).push(name@));
                assert(kept@.map_values(|e: (String, u64)| e.0@) =~= kept_before.map_values(|e: (String, u64)| e.0@).push(name@));
                assert(kept@.map_values(|e: (String, u64)| (e.0@, e.1)) =~= keep_fresh(old_view.take(i as int), now_ms).push(old_view[i as int]));
                assert(names@.map_values(|s: String| s@) =~= kept@.map_values(|e: (String, u64)| e.0@));
            }
            i = i + 1;
        }
        assert(old_view.take(self.entries@.len() as int) =~= old_view);
        self.entries = kept;
        assert(names@.map_values(|s: String| s@) =~= self@.map_values(|e: (Seq<char>, u64)| e.0));
        names
    }
}

/// Called by the order-book route: the asset it served is what the UI shows,
/// as of `now_ms`. A known asset's time is renewed; a new one is added last.
pub fn request_priority_refresh(viewed: &mut ViewedAssets, asset: &str, now_ms: u64)
    ensures
        (exists|k: int| 0 <= k < old(viewed)@.len() && old(viewed)@[k].0 == asset@) ==> {
            let k = choose|k: int| 0 <= k < old(viewed)@.len() && old(viewed)@[k].0 == asset@ && forall|j: int| 0 <= j < k ==> old(viewed)@[j].0 != asset@;
            final(viewed)@ == old(viewed)@.update(k, (asset@, now_ms))
        },
        (forall|k: int| 0 <= k < old(viewed)@.len() ==> old(viewed)@[k].0 != asset@) ==> final(viewed)@ == old(viewed)@.push((asset@, now_ms)),
{
    let mut i: usize = 0;
    while i < viewed.entries.len()
        invariant
            i <= viewed.entries@.len(),
            viewed.entries == old(viewed).entries,
            forall|j: int| 0 <= j < i ==> viewed@[j].0 != asset@,
        decreases viewed.entries.len() - i,
    {
        assert(viewed@[i as int].0 == viewed.entries@[i as int].0@);
        if same_text(viewed.entries[i].0.as_str(), asset) {
            let ghost before = viewed@;
            let name = viewed.entries[i].0.clone();
            viewed.entries.set(i, (name, now_ms));
            let ghost k = i as int;
            assert(forall|j: int| 0 <= j < k ==> before[j].0 != asset@);
            assert(viewed@ =~= before.update(k, (asset@, now_ms)));
            return;
        }
        i = i + 1;
    }
    let ghost before = viewed@;
    viewed.entries.push((String::from_str(asset), now_ms));
    assert(viewed@ =~= before.push((asset@, now_ms)));
}

/// A viewed book is due for a refresh: never asked for, or asked for at least
/// half a second ago and either the tick moved since or three seconds passed.
pub open spec fn spec_viewed_due(last: Option<(u64, u32)>, now_ms: u64, tick: u32) -> bool {
    match last {
        None => true,
        Some((at, at_tick)) => {
            let elapsed = if now_ms >= at { now_ms - at } else { 0 };
            elapsed >= 500 && (tick > at_tick || elapsed >= 3000)
        },
    }
}

pub fn viewed_due(last: Option<(u64, u32)>, now_ms: u64, tick: u32) -> (b: bool)
    ensures
        b == spec_viewed_due(last, now_ms, tick),
{
    match last {
        None => true,
        Some((at, at_tick)) => {
            let elapsed = if now_ms >= at { now_ms - at } else { 0 };
            elapsed >= 500 && (tick > at_tick || elapsed >= 3000)
        },
    }
}

/// The background sweep refreshes a book at most once a second.
pub fn sweep_due(last_ms: Option<u64>, now_ms: u64) -> (b: bool)
    ensures
        b == match last_ms {
            None => true,
            Some(at) => (if now_ms >= at { now_ms - at } else { 0 }) >= 1000,
        },
{
    match last_ms {
        None => true,
        Some(at) => (if now_ms >= at { now_ms - at } else { 0 }) >= 1000,
    }
}

/// The sweep's asset this pass and the index of the next one: round robin,
/// wrapping past the end.
pub fn sweep_pick(next_index: usize, len: usize) -> (r: (usize, usize))
    requires
        len > 0,
    ensures
        r.0 == (if next_index >= len { 0 } else { next_index }),
        r.1 == r.0 + 1,
        r.0 < len,
{
    let pick = if next_index >= len { 0 } else { next_index };
    (pick, pick + 1)
}

/// An entry within its lease survives forgetting.
proof fn fresh_entry_kept(s: Seq<(Seq<char>, u64)>, k: int, now: u64)
    requires
        0 <= k < s.len(),
        within_lease(s[k].1, now),
    ensures
        keep_fresh(s, now).contains(s[k]),
    decreases s.len(),
{
    let rest = keep_fresh(s.drop_last(), now);
    if k == s.len() - 1 {
        assert(keep_fresh(s, now)[rest.len() as int] == s[k]);
    } else {
        assert(s.drop_last()[k] == s[k]);
        fresh_entry_kept(s.drop_last(), k, now);
        let i = choose|i: int| 0 <= i < rest.len() && rest[i] == s[k];
        if within_lease(s.last().1, now) {
            assert(keep_fresh(s, now)[i] == s[k]);
        }
    }
}

/// Forgetting keeps only entries within their lease.
proof fn kept_entries_are_fresh(s: Seq<(Seq<char>, u64)>, now: u64)
    ensures
        forall|i: int| 0 <= i < keep_fresh(s, now).len() ==> within_lease(#[trigger] keep_fresh(s, now)[i].1, now),
    decreases s.len(),
{
    if s.len() > 0 {
        kept_entries_are_fresh(s.drop_last(), now);
        let rest = keep_fresh(s.drop_last(), now);
        assert forall|i: int| 0 <= i < keep_fresh(s, now).len() implies within_lease(#[trigger] keep_fresh(s, now)[i].1, now) by {
            if i < rest.len() {
                assert(keep_fresh(s, now)[i] == rest[i]);
            }
        }
    }
}

/// The lease keeps an asset viewed across the route's polls and lets it
/// lapse once the route stops reporting it: an asset reported at
/// `reported` is still viewed at any time within the lease after, and every
/// asset still viewed was reported within the lease.
pub proof fn viewed_asset_lease(s: Seq<(Seq<char>, u64)>, asset: Seq<char>, reported: u64, now: u64)
    requires
        reported <= now < reported + VIEW_LEASE_MS,
    ensures
        ({
            let noted = if exists|k: int| 0 <= k < s.len() && s[k].0 == asset {
                let k = choose|k: int| 0 <= k < s.len() && s[k].0 == asset && forall|j: int| 0 <= j < k ==> s[j].0 != asset;
                s.update(k, (asset, reported))
            } else {
                s.push((asset, reported))
            };
            keep_fresh(noted, now).map_values(|e: (Seq<char>, u64)| e.0).contains(asset)
        }),
        forall|i: int| 0 <= i < keep_fresh(s, now).len() ==> within_lease(#[trigger] keep_fresh(s, now)[i].1, now),
{
    kept_entries_are_fresh(s, now);
    let noted = if exists|k: int| 0 <= k < s.len() && s[k].0 == asset {
        let k = choose|k: int| 0 <= k < s.len() && s[k].0 == asset && forall|j: int| 0 <= j < k ==> s[j].0 != asset;
        s.update(k, (asset, reported))
    } else {
        s.push((asset, reported))
    };
    let at: int = if exists|k: int| 0 <= k < s.len() && s[k].0 == asset {
        choose|k: int| 0 <= k < s.len() && s[k].0 == asset && forall|j: int| 0 <= j < k ==> s[j].0 != asset
    } else {
        s.len() as int
    };
    if exists|k: int| 0 <= k < s.len() && s[k].0 == asset {
        let j = choose|k: int| 0 <= k < s.len() && s[k].0 == asset;
        first_name_exists(s, asset, j);
    }
    assert(noted[at] == (asset, reported));
    fresh_entry_kept(noted, at, now);
    let kept = keep_fresh(noted, now);
    let i = choose|i: int| 0 <= i < kept.len() && kept[i] == (asset, reported);
    assert(kept.map_values(|e: (Seq<char>, u64)| e.0)[i] == asset);
}

/// An entry for `name` means there is a first one.
proof fn first_name_exists(s: Seq<(Seq<char>, u64)>, name: Seq<char>, j: int)
    requires
        0 <= j < s.len(),
        s[j].0 == name,
    ensures
        exists|k: int| 0 <= k < s.len() && s[k].0 == name && forall|i: int| 0 <= i < k ==> s[i].0 != name,
    decreases j,
{
    if exists|i: int| 0 <= i < j && s[i].0 == name {
        let i = choose|i: int| 0 <= i < j && s[i].0 == name;
        first_name_exists(s, name, i);
    }
}

} // verus!
