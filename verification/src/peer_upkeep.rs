//! Keeping the peer set between its bounds: which stored peers to dial when
//! it runs short, which to drop when it runs over, which addresses to leave
//! alone for a while after they refused, and which peers the database says
//! to let go.
use vstd::prelude::*;
use crate::text::same_text;

verus! {

/// How many addresses are dialed at once per pass.
pub const DIAL_BATCH: usize = 8;
/// An address that did not answer is not dialed again for this long (ms).
pub const FAILED_PEER_BACKOFF_MS: u64 = 60_000;

/// What a pass does about the size of the peer set.
#[derive(Debug, Clone, Copy, PartialEq, Eq, Structural)]
pub enum Upkeep {
    /// Below the minimum: dial stored peers.
    Connect,
    /// Above the maximum: drop this many peers.
    Disconnect(usize),
    /// Within bounds.
    Hold,
}

pub open spec fn spec_upkeep(num_peers: usize, min_peers: usize, max_peers: usize) -> Upkeep {
    if num_peers < min_peers {
        Upkeep::Connect
    } else if num_peers > max_peers {
        Upkeep::Disconnect((num_peers - max_peers) as usize)
    } else {
        Upkeep::Hold
    }
}

pub fn upkeep(num_peers: usize, min_peers: usize, max_peers: usize) -> (u: Upkeep)
    ensures
        u == spec_upkeep(num_peers, min_peers, max_peers),
{
    if num_peers < min_peers {
        Upkeep::Connect
    } else if num_peers > max_peers {
        Upkeep::Disconnect(num_peers - max_peers)
    } else {
        Upkeep::Hold
    }
}

/// Dialed peers are registered until the set holds this many.
pub fn register_target(min_peers: usize, max_peers: usize) -> (t: usize)
    ensures
        t == if max_peers >= min_peers { max_peers } else { min_peers },
{
    if max_peers >= min_peers { max_peers } else { min_peers }
}

/// The texts of a list of strings.
pub open spec fn texts(v: Seq<String>) -> Seq<Seq<char>> {
    v.map_values(|s: String| s@)
}

/// Whether a list of strings holds a text.
pub fn holds(list: &Vec<String>, s: &str) -> (b: bool)
    ensures
        b == texts(list@).contains(s@),
{
    let mut i: usize = 0;
    while i < list.len()
        invariant
            i <= list@.len(),
            forall|k: int| 0 <= k < i ==> list@[k]@ != s@,
        decreases list.len() - i,
    {
        if same_text(list[i].as_str(), s) {
            assert(texts(list@)[i as int] == s@);
            return true;
        }
        i = i + 1;
    }
    assert forall|k: int| 0 <= k < texts(list@).len() implies texts(list@)[k] != s@ by {
        assert(texts(list@)[k] == list@[k]@);
    }
    false
}

/// The first `n` peer ids, or all of them when there are fewer.
pub fn first_ids(ids: &Vec<String>, n: usize) -> (out: Vec<String>)
    ensures
        texts(out@) == texts(ids@).take(if n < ids@.len() { n as int } else { ids@.len() as int }),
{
    let m: usize = if n < ids.len() { n } else { ids.len() };
    let mut out: Vec<String> = Vec::new();
    let mut i: usize = 0;
    while i < m
        invariant
            m <= ids@.len(),
            i <= m,
            texts(out@) == texts(ids@).take(i as int),
        decreases m - i,
    {
        let ghost before = out@;
        out.push(ids[i].clone());
        assert(texts(out@) =~= texts(ids@).take(i + 1)) by {
            assert(texts(out@) =~= texts(before).push(out@[i as int]@));
        }
        i = i + 1;
    }
    out
}

/// The stored addresses that may be dialed, in order: not already in the
/// set and not backed off.
pub open spec fn eligible(ips: Seq<Seq<char>>, current: Seq<Seq<char>>, failed: Seq<Seq<char>>) -> Seq<Seq<char>>
    decreases ips.len(),
{
    if ips.len() == 0 {
        Seq::empty()
    } else {
        let rest = eligible(ips.drop_last(), current, failed);
        if !current.contains(ips.last()) && !failed.contains(ips.last()) {
            rest.push(ips.last())
        } else {
            rest
        }
    }
}

/// Eligible addresses of a prefix are a prefix of those of the whole list.
proof fn eligible_prefix(ips: Seq<Seq<char>>, current: Seq<Seq<char>>, failed: Seq<Seq<char>>, i: int)
    requires
        0 <= i <= ips.len(),
    ensures
        eligible(ips.take(i), current, failed).len() <= eligible(ips, current, failed).len(),
        eligible(ips.take(i), current, failed) == eligible(ips, current, failed).take(
            eligible(ips.take(i), current, failed).len() as int,
        ),
    decreases ips.len(),
{
    if i == ips.len() {
        assert(ips.take(i) =~= ips);
    } else {
        let shorter = ips.drop_last();
        assert(ips.take(i) =~= shorter.take(i));
        eligible_prefix(shorter, current, failed, i);
        let e = eligible(shorter, current, failed);
        assert(e.push(ips.last()).take(e.len() as int) =~= e);
        let p = eligible(shorter.take(i), current, failed);
        assert(e.push(ips.last()).take(p.len() as int) =~= e.take(p.len() as int));
    }
}

/// The addresses dialed this pass: the first `DIAL_BATCH` eligible ones.
pub open spec fn spec_candidates(ips: Seq<Seq<char>>, current: Seq<Seq<char>>, failed: Seq<Seq<char>>) -> Seq<Seq<char>> {
    let e = eligible(ips, current, failed);
    if e.len() <= DIAL_BATCH { e } else { e.take(DIAL_BATCH as int) }
}

/// The address column of stored peer rows (id, address, ...).
pub open spec fn addresses(rows: Seq<Vec<String>>) -> Seq<Seq<char>> {
    rows.map_values(|r: Vec<String>| r@[1]@)
}

/// The stored disconnected peers (rows of id, address, ..., best first) to
/// dial this pass, given the addresses already in the set and those backed off.
pub fn dial_candidates(rows: &Vec<Vec<String>>, current: &Vec<String>, failed: &FailedPeers) -> (out: Vec<String>)
    requires
        forall|k: int| 0 <= k < rows@.len() ==> #[trigger] rows@[k]@.len() > 1,
    ensures
        texts(out@) == spec_candidates(addresses(rows@), texts(current@), failed.addresses()),
{
    let ghost ips = addresses(rows@);
    let mut out: Vec<String> = Vec::new();
    let mut i: usize = 0;
    while i < rows.len() && out.len() < DIAL_BATCH
        invariant
            i <= rows@.len(),
            ips == addresses(rows@),
            forall|k: int| 0 <= k < rows@.len() ==> #[trigger] rows@[k]@.len() > 1,
            texts(out@) == eligible(ips.take(i as int), texts(current@), failed.addresses()),
            out@.len() <= DIAL_BATCH,
        decreases rows.len() - i,
    {
        assert(ips.take(i + 1).drop_last() =~= ips.take(i as int));
        assert(ips[i as int] == rows@[i as int]@[1]@);
        let ip = &rows[i][1];
        let taken = holds(current, ip.as_str());
        let backed_off = failed.holds(ip.as_str());
        if !taken && !backed_off {
            let ghost before = out@;
            out.push(ip.clone());
            assert(texts(out@) =~= texts(before).push(ip@));
        }
        i = i + 1;
    }
    proof {
        let c = texts(current@);
        let f = failed.addresses();
        eligible_prefix(ips, c, f, i as int);
        if i == rows@.len() {
            assert(ips.take(i as int) =~= ips);
        }
    }
    out
}

/// The texts of `s` that `other` lacks, in order.
pub open spec fn missing_from(s: Seq<Seq<char>>, other: Seq<Seq<char>>) -> Seq<Seq<char>>
    decreases s.len(),
{
    if s.len() == 0 {
        Seq::empty()
    } else {
        let rest = missing_from(s.drop_last(), other);
        if !other.contains(s.last()) {
            rest.push(s.last())
        } else {
            rest
        }
    }
}

/// The candidates that did not answer, in order: they are backed off.
pub fn unanswered(candidates: &Vec<String>, answered: &Vec<String>) -> (out: Vec<String>)
    ensures
        texts(out@) == missing_from(texts(candidates@), texts(answered@)),
{
    let ghost all = texts(candidates@);
    let mut out: Vec<String> = Vec::new();
    let mut i: usize = 0;
    while i < candidates.len()
        invariant
            i <= candidates@.len(),
            all == texts(candidates@),
            texts(out@) == missing_from(all.take(i as int), texts(answered@)),
        decreases candidates.len() - i,
    {
        assert(all.take(i + 1).drop_last() =~= all.take(i as int));
        assert(all[i as int] == candidates@[i as int]@);
        let c = &candidates[i];
        if !holds(answered, c.as_str()) {
            let ghost before = out@;
            out.push(c.clone());
            assert(texts(out@) =~= texts(before).push(c@));
        }
        i = i + 1;
    }
    assert(all.take(candidates@.len() as int) =~= all);
    out
}

/// Addresses that did not answer, with when they were last dialed (ms).
pub struct FailedPeers {
    entries: Vec<(String, u64)>,
}

/// Whether a failure at `at` still backs its address off at `now`.
pub open spec fn backed_off(at: u64, now: u64) -> bool {
    now < at || now - at < FAILED_PEER_BACKOFF_MS
}

/// The failures that still back their address off at `now`, in order.
pub open spec fn keep_backed_off(s: Seq<(Seq<char>, u64)>, now: u64) -> Seq<(Seq<char>, u64)>
    decreases s.len(),
{
    if s.len() == 0 {
        s
    } else {
        let rest = keep_backed_off(s.drop_last(), now);
        if backed_off(s.last().1, now) {
            rest.push(s.last())
        } else {
            rest
        }
    }
}

impl View for FailedPeers {
    type V = Seq<(Seq<char>, u64)>;

    closed spec fn view(&self) -> Seq<(Seq<char>, u64)> {
        self.entries@.map_values(|e: (String, u64)| (e.0@, e.1))
    }
}

impl FailedPeers {
    /// The backed-off addresses.
    pub open spec fn addresses(&self) -> Seq<Seq<char>> {
        self@.map_values(|e: (Seq<char>, u64)| e.0)
    }

    pub fn new() -> (f: Self)
        ensures
            f@ == Seq::<(Seq<char>, u64)>::empty(),
    {
        let f = FailedPeers { entries: Vec::new() };
        assert(f@ =~= Seq::<(Seq<char>, u64)>::empty());
        f
    }

    /// Whether an address is backed off.
    pub fn holds(&self, ip: &str) -> (b: bool)
        ensures
            b == self.addresses().contains(ip@),
    {
        let mut i: usize = 0;
        while i < self.entries.len()
            invariant
                i <= self.entries@.len(),
                forall|k: int| 0 <= k < i ==> self.entries@[k].0@ != ip@,
            decreases self.entries.len() - i,
        {
            if same_text(self.entries[i].0.as_str(), ip) {
                assert(self.addresses()[i as int] == ip@);
                return true;
            }
            i = i + 1;
        }
        assert forall|k: int| 0 <= k < self.addresses().len() implies self.addresses()[k] != ip@ by {
            assert(self.addresses()[k] == self.entries@[k].0@);
        }
        false
    }

    /// Forgets the failures a minute or more before `now_ms`.
    pub fn forget_stale(&mut self, now_ms: u64)
        ensures
            final(self)@ == keep_backed_off(old(self)@, now_ms),
    {
        let ghost before = self@;
        let mut kept: Vec<(String, u64)> = Vec::new();
        let mut i: usize = 0;
        while i < self.entries.len()
            invariant
                i <= self.entries@.len(),
                self@ == before,
                kept@.map_values(|e: (String, u64)| (e.0@, e.1)) == keep_backed_off(before.take(i as int), now_ms),
            decreases self.entries.len() - i,
        {
            assert(before.take(i + 1).drop_last() =~= before.take(i as int));
            assert(before[i as int] == (self.entries@[i as int].0@, self.entries@[i as int].1));
            let at = self.entries[i].1;
            if now_ms < at || now_ms - at < FAILED_PEER_BACKOFF_MS {
                let ghost kept_before = kept@;
                let name = self.entries[i].0.clone();
                kept.push((name, at));
                assert(kept@.map_values(|e: (String, u64)| (e.0@, e.1)) =~= kept_before.map_values(
                    |e: (String, u64)| (e.0@, e.1),
                ).push(before[i as int]));
            }
            i = i + 1;
        }
        assert(before.take(self.entries@.len() as int) =~= before);
        self.entries = kept;
    }

    /// Records that `ip` did not answer at `now_ms`: its time is renewed, or
    /// it is added last.
    pub fn note_failed(&mut self, ip: &str, now_ms: u64)
        ensures
            (exists|k: int| 0 <= k < old(self)@.len() && old(self)@[k].0 == ip@) ==> {
                let k = choose|k: int| 0 <= k < old(self)@.len() && old(self)@[k].0 == ip@ && forall|j: int| 0 <= j < k ==> old(self)@[j].0 != ip@;
                final(self)@ == old(self)@.update(k, (ip@, now_ms))
            },
            (forall|k: int| 0 <= k < old(self)@.len() ==> old(self)@[k].0 != ip@) ==> final(self)@ == old(self)@.push((ip@, now_ms)),
    {
        let mut i: usize = 0;
        while i < self.entries.len()
            invariant
                i <= self.entries@.len(),
                self.entries == old(self).entries,
                forall|j: int| 0 <= j < i ==> self@[j].0 != ip@,
            decreases self.entries.len() - i,
        {
            assert(self@[i as int].0 == self.entries@[i as int].0@);
            if same_text(self.entries[i].0.as_str(), ip) {
                let ghost before = self@;
                let name = self.entries[i].0.clone();
                self.entries.set(i, (name, now_ms));
                assert(self@ =~= before.update(i as int, (ip@, now_ms)));
                return;
            }
            i = i + 1;
        }
        let ghost before = self@;
        self.entries.push((String::from_str(ip), now_ms));
        assert(self@ =~= before.push((ip@, now_ms)));
    }
}

/// A peer stays in the set only while the database has it connected and not
/// removed by the user (a missing column counts as not connected, and as
/// not removed).
pub open spec fn spec_keep_peer(connected: Option<Seq<char>>, whitelisted: Option<Seq<char>>) -> bool {
    let is_connected = match connected {
        Some(c) => c == "1"@,
        None => false,
    };
    let removed = match whitelisted {
        Some(w) => w == "-1"@,
        None => false,
    };
    is_connected && !removed
}

pub fn keep_peer(connected: Option<&str>, whitelisted: Option<&str>) -> (b: bool)
    ensures
        b == spec_keep_peer(
            match connected {
                Some(c) => Some(c@),
                None => None,
            },
            match whitelisted {
                Some(w) => Some(w@),
                None => None,
            },
        ),
{
    let is_connected = match connected {
        Some(c) => same_text(c, "1"),
        None => false,
    };
    let removed = match whitelisted {
        Some(w) => same_text(w, "-1"),
        None => false,
    };
    is_connected && !removed
}

/// A peer stays in the set exactly when its row says it is connected ("1")
/// and its whitelisted column is anything but "-1", the mark of a peer the
/// user removed; a missing column counts as not removed. So a connected peer
/// the user trusted ("1") or never marked ("0") stays, a removed one or one
/// not connected goes.
pub proof fn only_connected_unremoved_peers_stay(connected: Option<Seq<char>>, whitelisted: Option<Seq<char>>)
    ensures
        spec_keep_peer(connected, whitelisted) <==> (connected == Some("1"@) && whitelisted != Some("-1"@)),
        spec_keep_peer(Some("1"@), Some("1"@)),
        spec_keep_peer(Some("1"@), Some("0"@)),
        spec_keep_peer(Some("1"@), None),
        !spec_keep_peer(Some("1"@), Some("-1"@)),
        !spec_keep_peer(Some("0"@), Some("1"@)),
        !spec_keep_peer(None, Some("1"@)),
{
    reveal_strlit("1");
    reveal_strlit("0");
    reveal_strlit("-1");
    assert("1"@.len() == 1 && "0"@.len() == 1 && "-1"@.len() == 2);
    assert("1"@ != "-1"@);
    assert("0"@ != "-1"@);
    assert("0"@[0] != "1"@[0]);
    assert("0"@ != "1"@);
}

/// Dropping peers brings the set down to its maximum, never below it.
pub proof fn dropping_stops_at_the_maximum(num_peers: usize, min_peers: usize, max_peers: usize)
    ensures
        match spec_upkeep(num_peers, min_peers, max_peers) {
            Upkeep::Disconnect(n) => n > 0 && num_peers - n == max_peers && num_peers >= min_peers,
            Upkeep::Connect => num_peers < min_peers,
            Upkeep::Hold => min_peers <= num_peers <= max_peers,
        },
{
}

/// Every eligible address is one of the stored ones, not in the set and not
/// backed off.
proof fn eligible_members(ips: Seq<Seq<char>>, current: Seq<Seq<char>>, failed: Seq<Seq<char>>)
    ensures
        forall|k: int| 0 <= k < eligible(ips, current, failed).len() ==> {
            let a = #[trigger] eligible(ips, current, failed)[k];
            ips.contains(a) && !current.contains(a) && !failed.contains(a)
        },
    decreases ips.len(),
{
    if ips.len() > 0 {
        let shorter = ips.drop_last();
        eligible_members(shorter, current, failed);
        let e = eligible(shorter, current, failed);
        assert forall|k: int| 0 <= k < eligible(ips, current, failed).len() implies {
            let a = #[trigger] eligible(ips, current, failed)[k];
            ips.contains(a) && !current.contains(a) && !failed.contains(a)
        } by {
            let a = eligible(ips, current, failed)[k];
            if k < e.len() {
                assert(a == e[k]);
                let m = choose|m: int| 0 <= m < shorter.len() && shorter[m] == a;
                assert(ips[m] == a);
            } else {
                assert(a == ips.last());
                assert(ips[ips.len() - 1] == a);
            }
        }
    }
}

/// A pass dials at most `DIAL_BATCH` addresses, each a stored one that is
/// neither in the set already nor backed off.
pub proof fn dialed_addresses_are_new_and_few(ips: Seq<Seq<char>>, current: Seq<Seq<char>>, failed: Seq<Seq<char>>)
    ensures
        spec_candidates(ips, current, failed).len() <= DIAL_BATCH,
        forall|k: int| 0 <= k < spec_candidates(ips, current, failed).len() ==> {
            let a = #[trigger] spec_candidates(ips, current, failed)[k];
            ips.contains(a) && !current.contains(a) && !failed.contains(a)
        },
{
    eligible_members(ips, current, failed);
    let e = eligible(ips, current, failed);
    assert forall|k: int| 0 <= k < spec_candidates(ips, current, failed).len() implies {
        let a = #[trigger] spec_candidates(ips, current, failed)[k];
        ips.contains(a) && !current.contains(a) && !failed.contains(a)
    } by {
        assert(spec_candidates(ips, current, failed)[k] == e[k]);
    }
}

/// A failure still within the backoff survives forgetting.
proof fn backed_off_entry_kept(s: Seq<(Seq<char>, u64)>, k: int, now: u64)
    requires
        0 <= k < s.len(),
        backed_off(s[k].1, now),
    ensures
        keep_backed_off(s, now).contains(s[k]),
    decreases s.len(),
{
    let rest = keep_backed_off(s.drop_last(), now);
    if k == s.len() - 1 {
        assert(keep_backed_off(s, now) == rest.push(s.last()));
        assert(keep_backed_off(s, now)[rest.len() as int] == s[k]);
    } else {
        assert(s.drop_last()[k] == s[k]);
        backed_off_entry_kept(s.drop_last(), k, now);
        let i = choose|i: int| 0 <= i < rest.len() && rest[i] == s[k];
        if backed_off(s.last().1, now) {
            assert(keep_backed_off(s, now)[i] == s[k]);
        }
    }
}

/// An address that did not answer at `failed_at` is still backed off, and
/// so skipped, at any time within the backoff after it.
pub proof fn refused_address_is_skipped_within_backoff(s: Seq<(Seq<char>, u64)>, ip: Seq<char>, failed_at: u64, now: u64)
    requires
        failed_at <= now < failed_at + FAILED_PEER_BACKOFF_MS,
    ensures
        ({
            let noted = if exists|k: int| 0 <= k < s.len() && s[k].0 == ip {
                let k = choose|k: int| 0 <= k < s.len() && s[k].0 == ip && forall|j: int| 0 <= j < k ==> s[j].0 != ip;
                s.update(k, (ip, failed_at))
            } else {
                s.push((ip, failed_at))
            };
            keep_backed_off(noted, now).map_values(|e: (Seq<char>, u64)| e.0).contains(ip)
        }),
{
    let noted = if exists|k: int| 0 <= k < s.len() && s[k].0 == ip {
        let k = choose|k: int| 0 <= k < s.len() && s[k].0 == ip && forall|j: int| 0 <= j < k ==> s[j].0 != ip;
        s.update(k, (ip, failed_at))
    } else {
        s.push((ip, failed_at))
    };
    let at: int = if exists|k: int| 0 <= k < s.len() && s[k].0 == ip {
        choose|k: int| 0 <= k < s.len() && s[k].0 == ip && forall|j: int| 0 <= j < k ==> s[j].0 != ip
    } else {
        s.len() as int
    };
    if exists|k: int| 0 <= k < s.len() && s[k].0 == ip {
        let j = choose|k: int| 0 <= k < s.len() && s[k].0 == ip;
        first_match_exists(s, ip, j);
    }
    assert(noted[at] == (ip, failed_at));
    backed_off_entry_kept(noted, at, now);
    let kept = keep_backed_off(noted, now);
    let i = choose|i: int| 0 <= i < kept.len() && kept[i] == (ip, failed_at);
    assert(kept.map_values(|e: (Seq<char>, u64)| e.0)[i] == ip);
}

/// An entry for `ip` means there is a first one.
proof fn first_match_exists(s: Seq<(Seq<char>, u64)>, ip: Seq<char>, j: int)
    requires
        0 <= j < s.len(),
        s[j].0 == ip,
    ensures
        exists|k: int| 0 <= k < s.len() && s[k].0 == ip && forall|i: int| 0 <= i < k ==> s[i].0 != ip,
    decreases j,
{
    if exists|i: int| 0 <= i < j && s[i].0 == ip {
        let i = choose|i: int| 0 <= i < j && s[i].0 == ip;
        first_match_exists(s, ip, i);
    }
}

} // verus!
