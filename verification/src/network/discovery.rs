//! Node discovery: the nodes a node knows of, the ones it contacted lately,
//! a blacklist, boot nodes, and the rules for taking in, evicting and
//! choosing nodes. Times are seconds, read by the caller; the exchange of
//! requests and responses is the caller's too.
use vstd::prelude::*;

use crate::collections::StringMap;
use crate::network::node::select_nodes;
use crate::network::{DiscoveryResponse, NodeInfo};
use crate::text::{clone_strings, str_eq};

verus! {

/// How often discovery runs, in seconds.
pub const DISCOVERY_INTERVAL_SECS: u64 = 30;

/// How long a contacted node is left alone, in seconds.
pub const RECONTACT_AFTER_SECS: u64 = 60;

/// How many boot nodes are kept at most.
pub const MAX_BOOT_NODES: usize = 10;

/// How many nodes are known at most before the stalest are evicted.
pub const MAX_KNOWN_NODES: usize = 1000;

/// Discovery statistics.
#[derive(Debug)]
pub struct DiscoveryStats {
    pub known_nodes: usize,
    pub boot_nodes: usize,
    pub recently_contacted: usize,
    pub blacklisted: usize,
    /// Seconds since the last discovery run, if there was one.
    pub last_discovery: Option<u64>,
}

/// What one node knows for discovery.
#[derive(Debug)]
pub struct NodeDiscovery {
    pub node_id: String,
    pub network_id: u64,
    /// Addresses of the boot nodes, as `host:port`.
    pub boot_nodes: Vec<String>,
    pub known_nodes: StringMap<NodeInfo>,
    /// When each contacted node was last contacted.
    pub recent_contacts: StringMap<u64>,
    pub blacklist: StringMap<()>,
    pub capabilities: Vec<String>,
    /// When discovery last ran.
    pub last_discovery: Option<u64>,
    pub max_known_nodes: usize,
}

/// Seconds from `then` to `now`, or 0 when `then` is later.
pub open spec fn seconds_since(then: u64, now: u64) -> u64 {
    if now >= then { (now - then) as u64 } else { 0 }
}

/// How long ago node `id` was contacted; the most for one never contacted.
pub open spec fn staleness(contacts: Map<Seq<char>, u64>, id: Seq<char>, now: u64) -> u64 {
    if contacts.contains_key(id) { seconds_since(contacts[id], now) } else { u64::MAX }
}

/// Whether `after` is what evicting the stalest nodes of `before` down to
/// `target` nodes can leave: some of its nodes, unchanged, as many as
/// `target` (or all, if there were no more), and no kept node staler than
/// an evicted one.
pub open spec fn evicted(
    before: Map<Seq<char>, NodeInfo>,
    after: Map<Seq<char>, NodeInfo>,
    contacts: Map<Seq<char>, u64>,
    now: u64,
    target: nat,
) -> bool {
    &&& forall|k: Seq<char>| #[trigger] after.contains_key(k) ==> before.contains_key(k) && after[k] == before[k]
    &&& after.dom().len() == if before.dom().len() > target { target } else { before.dom().len() }
    &&& forall|r: Seq<char>, k: Seq<char>|
        #![trigger before.contains_key(r), after.contains_key(k)]
        before.contains_key(r) && !after.contains_key(r) && after.contains_key(k) ==> staleness(contacts, r, now)
            >= staleness(contacts, k, now)
}

/// Whether a node is eligible to be contacted at `now`: not blacklisted,
/// and never contacted or contacted more than a minute ago.
pub open spec fn eligible(
    blacklist: Map<Seq<char>, ()>,
    contacts: Map<Seq<char>, u64>,
    id: Seq<char>,
    now: u64,
) -> bool {
    &&& !blacklist.contains_key(id)
    &&& (!contacts.contains_key(id) || seconds_since(contacts[id], now) > RECONTACT_AFTER_SECS)
}

/// Whether a list of names holds `name`.
pub open spec fn lists(names: Seq<String>, name: Seq<char>) -> bool {
    exists|i: int| 0 <= i < names.len() && names[i]@ == name
}

/// Whether `names` holds `name`.
fn holds(names: &Vec<String>, name: &str) -> (r: bool)
    ensures
        r == lists(names@, name@),
{
    let mut i: usize = 0;
    while i < names.len()
        invariant
            i <= names@.len(),
            forall|j: int| 0 <= j < i ==> names@[j]@ != name@,
        decreases names@.len() - i,
    {
        if str_eq(names[i].as_str(), name) {
            return true;
        }
        i = i + 1;
    }
    false
}

/// Puts the positions in a random order (`rand`'s `SliceRandom::shuffle`
/// with the thread's generator). Claimed: the result holds the same
/// positions, each as often as before; the order is random.
#[verifier::external_body]
fn shuffle_positions(v: &mut Vec<usize>)
    ensures
        final(v)@.to_multiset() == old(v)@.to_multiset(),
{
    rand::seq::SliceRandom::shuffle(v.as_mut_slice(), &mut rand::thread_rng());
}

/// Whether `r` lists distinct entries of `all`: `r[i]` is `all[p[i]]` for
/// distinct positions `p`.
pub open spec fn distinct_picks(r: Seq<NodeInfo>, all: Seq<NodeInfo>) -> bool {
    exists|p: Seq<usize>| {
        &&& p.len() == r.len()
        &&& p.no_duplicates()
        &&& forall|i: int| 0 <= i < p.len() ==> (#[trigger] p[i]) < all.len() && r[i] == all[p[i] as int]
    }
}

/// Whether taking in `node` at `now` can turn the known nodes `before` into
/// `after`, with answer `added`: a blacklisted node is refused and nothing
/// changes; otherwise, with `max` or more known, the stalest are evicted
/// down to half of `max` (see `evicted`), and the node is added if it is not
/// known then.
pub open spec fn takes_in(
    before: Map<Seq<char>, NodeInfo>,
    after: Map<Seq<char>, NodeInfo>,
    added: bool,
    node: NodeInfo,
    blacklist: Map<Seq<char>, ()>,
    contacts: Map<Seq<char>, u64>,
    max: usize,
    now: u64,
) -> bool {
    if blacklist.contains_key(node.id@) {
        !added && after == before
    } else {
        exists|mid: Map<Seq<char>, NodeInfo>| {
            &&& if before.dom().len() >= max {
                evicted(before, mid, contacts, now, (max / 2) as nat)
            } else {
                mid == before
            }
            &&& added == !mid.contains_key(node.id@)
            &&& after == if added { mid.insert(node.id@, node) } else { mid }
        }
    }
}

/// A reported node as it is taken in: seen at the response's time.
pub open spec fn reported(node: NodeInfo, timestamp: u64) -> NodeInfo {
    NodeInfo { last_seen: timestamp, ..node }
}

/// The ids of the nodes whose flag is set, in order.
pub open spec fn flagged_ids(nodes: Seq<NodeInfo>, flags: Seq<bool>) -> Seq<Seq<char>>
    decreases nodes.len(),
{
    if nodes.len() == 0 || flags.len() == 0 {
        Seq::empty()
    } else {
        let rest = flagged_ids(nodes.drop_last(), flags.drop_last());
        if flags.last() {
            rest.push(nodes.last().id@)
        } else {
            rest
        }
    }
}

proof fn lemma_shuffled_positions(before: Seq<usize>, after: Seq<usize>, n: nat)
    requires
        before.len() == n,
        forall|i: int| 0 <= i < n ==> before[i] == i,
        after.to_multiset() == before.to_multiset(),
    ensures
        after.no_duplicates(),
        after.len() == n,
        forall|i: int| 0 <= i < after.len() ==> #[trigger] after[i] < n,
{
    broadcast use vstd::seq_lib::group_to_multiset_ensures;
    assert(before.no_duplicates());
    before.to_multiset_ensures();
    after.to_multiset_ensures();
    before.lemma_multiset_has_no_duplicates();
    after.lemma_multiset_has_no_duplicates_conv();
    assert forall|i: int| 0 <= i < after.len() implies #[trigger] after[i] < n by {
        assert(after.contains(after[i]));
        assert(before.to_multiset().count(after[i]) > 0);
        assert(before.contains(after[i]));
    }
}

impl NodeDiscovery {
    /// A node `node_id` of network `network_id` that knows nothing yet but
    /// its boot nodes, offering execution, consensus, governance and state.
    pub fn new(node_id: String, network_id: u64, boot_nodes: Vec<String>) -> (d: Self)
        ensures
            d.node_id == node_id,
            d.network_id == network_id,
            d.boot_nodes@ == boot_nodes@,
            d.known_nodes@ == Map::<Seq<char>, NodeInfo>::empty(),
            d.recent_contacts@ == Map::<Seq<char>, u64>::empty(),
            d.blacklist@ == Map::<Seq<char>, ()>::empty(),
            d.capabilities@.map_values(|s: String| s@) == seq!["execution"@, "consensus"@, "governance"@, "state"@],
            d.last_discovery is None,
            d.max_known_nodes == MAX_KNOWN_NODES,
    {
        let mut capabilities: Vec<String> = Vec::new();
        capabilities.push(String::from_str("execution"));
        capabilities.push(String::from_str("consensus"));
        capabilities.push(String::from_str("governance"));
        capabilities.push(String::from_str("state"));
        let d = NodeDiscovery {
            node_id,
            network_id,
            boot_nodes,
            known_nodes: StringMap::new(),
            recent_contacts: StringMap::new(),
            blacklist: StringMap::new(),
            capabilities,
            last_discovery: None,
            max_known_nodes: MAX_KNOWN_NODES,
        };
        assert(d.capabilities@.map_values(|s: String| s@) =~= seq!["execution"@, "consensus"@, "governance"@, "state"@]);
        d
    }

    /// The known node that was contacted longest ago (never contacted counts
    /// as longest), with how long ago.
    fn stalest(&self, now: u64) -> (r: (String, u64))
        requires
            self.known_nodes.keys().len() > 0,
        ensures
            self.known_nodes@.contains_key(r.0@),
            r.1 == staleness(self.recent_contacts@, r.0@, now),
            forall|k: Seq<char>| #[trigger] self.known_nodes@.contains_key(k) ==> staleness(self.recent_contacts@, k, now) <= r.1,
    {
        let n = self.known_nodes.len();
        let (k0, _) = self.known_nodes.entry_at(0);
        assert(self.known_nodes.keys().contains(self.known_nodes.keys()[0]));
        let mut best: String = k0.clone();
        let mut best_age: u64 = match self.recent_contacts.get(k0.as_str()) {
            Some(t) => if now >= *t { now - *t } else { 0 },
            None => u64::MAX,
        };
        let mut i: usize = 1;
        while i < n
            invariant
                1 <= i <= n,
                n == self.known_nodes.keys().len(),
                forall|k: Seq<char>| #[trigger] self.known_nodes@.contains_key(k) <==> self.known_nodes.keys().contains(k),
                self.known_nodes@.contains_key(best@),
                best_age == staleness(self.recent_contacts@, best@, now),
                forall|j: int| 0 <= j < i ==> staleness(self.recent_contacts@, #[trigger] self.known_nodes.keys()[j], now) <= best_age,
            decreases n - i,
        {
            let (k, _) = self.known_nodes.entry_at(i);
            assert(self.known_nodes.keys().contains(self.known_nodes.keys()[i as int]));
            let age: u64 = match self.recent_contacts.get(k.as_str()) {
                Some(t) => if now >= *t { now - *t } else { 0 },
                None => u64::MAX,
            };
            if age > best_age {
                best = k.clone();
                best_age = age;
            }
            i = i + 1;
        }
        proof {
            assert forall|k: Seq<char>| #[trigger] self.known_nodes@.contains_key(k) implies staleness(
                self.recent_contacts@,
                k,
                now,
            ) <= best_age by {
                let j = choose|j: int| 0 <= j < self.known_nodes.keys().len() && self.known_nodes.keys()[j] == k;
                assert(staleness(self.recent_contacts@, self.known_nodes.keys()[j], now) <= best_age);
            }
        }
        (best, best_age)
    }

    /// Evicts the stalest known nodes until half the maximum remain (see
    /// `evicted`); nothing else changes.
    pub fn evict_oldest_nodes(&mut self, now: u64)
        ensures
            evicted(old(self).known_nodes@, final(self).known_nodes@, old(self).recent_contacts@, now, (old(self).max_known_nodes / 2) as nat),
            final(self).recent_contacts == old(self).recent_contacts,
            final(self).blacklist == old(self).blacklist,
            final(self).boot_nodes == old(self).boot_nodes,
            final(self).max_known_nodes == old(self).max_known_nodes,
            final(self).last_discovery == old(self).last_discovery,
            final(self).node_id == old(self).node_id,
            final(self).network_id == old(self).network_id,
            final(self).capabilities == old(self).capabilities,
    {
        let target = self.max_known_nodes / 2;
        let ghost before = self.known_nodes@;
        let ghost contacts = self.recent_contacts@;
        let start_len = self.known_nodes.len();
        while self.known_nodes.len() > target
            invariant
                target == old(self).max_known_nodes / 2,
                before == old(self).known_nodes@,
                contacts == self.recent_contacts@,
                self.recent_contacts == old(self).recent_contacts,
                self.blacklist == old(self).blacklist,
                self.boot_nodes == old(self).boot_nodes,
                self.max_known_nodes == old(self).max_known_nodes,
                self.last_discovery == old(self).last_discovery,
                self.node_id == old(self).node_id,
                self.network_id == old(self).network_id,
                self.capabilities == old(self).capabilities,
                start_len == before.dom().len(),
                start_len > target ==> self.known_nodes@.dom().len() >= target,
                start_len <= target ==> self.known_nodes@ == before,
                forall|k: Seq<char>| #[trigger] self.known_nodes@.contains_key(k) ==> before.contains_key(k)
                    && self.known_nodes@[k] == before[k],
                forall|r: Seq<char>, k: Seq<char>|
                    #![trigger before.contains_key(r), self.known_nodes@.contains_key(k)]
                    before.contains_key(r) && !self.known_nodes@.contains_key(r) && self.known_nodes@.contains_key(k)
                        ==> staleness(contacts, r, now) >= staleness(contacts, k, now),
            decreases self.known_nodes.keys().len(),
        {
            let ghost prev = self.known_nodes@;
            let (victim, _age) = self.stalest(now);
            let removed = self.known_nodes.remove(victim.as_str());
            proof {
                assert(self.known_nodes@ == prev.remove(victim@));
                assert forall|r: Seq<char>, k: Seq<char>|
                    #![trigger before.contains_key(r), self.known_nodes@.contains_key(k)]
                    before.contains_key(r) && !self.known_nodes@.contains_key(r) && self.known_nodes@.contains_key(k)
                        implies staleness(contacts, r, now) >= staleness(contacts, k, now) by {
                    assert(prev.contains_key(k));
                    if r == victim@ {
                    } else {
                        assert(!prev.contains_key(r));
                    }
                }
            }
            let _n = self.known_nodes.len();
        }
        let _end = self.known_nodes.len();
    }

    /// Takes in `node_info` at `now`: a blacklisted node is refused; with
    /// the maximum known, the stalest nodes are evicted first (see
    /// `evict_oldest_nodes`); a node not yet known is added. The answer is
    /// whether it was added.
    pub fn add_node_if_new(&mut self, node_info: NodeInfo, now: u64) -> (added: bool)
        ensures
            old(self).blacklist@.contains_key(node_info.id@) ==> *final(self) == *old(self),
            takes_in(
                old(self).known_nodes@,
                final(self).known_nodes@,
                added,
                node_info,
                old(self).blacklist@,
                old(self).recent_contacts@,
                old(self).max_known_nodes,
                now,
            ),
            old(self).known_nodes@.dom().len() <= old(self).max_known_nodes && old(self).max_known_nodes >= 1
                ==> final(self).known_nodes@.dom().len() <= old(self).max_known_nodes,
            final(self).recent_contacts == old(self).recent_contacts,
            final(self).blacklist == old(self).blacklist,
            final(self).boot_nodes == old(self).boot_nodes,
            final(self).max_known_nodes == old(self).max_known_nodes,
    {
        if self.blacklist.contains_key(node_info.id.as_str()) {
            return false;
        }
        let n = self.known_nodes.len();
        if n >= self.max_known_nodes {
            self.evict_oldest_nodes(now);
        }
        let ghost mid = self.known_nodes@;
        let mid_len = self.known_nodes.len();
        if !self.known_nodes.contains_key(node_info.id.as_str()) {
            let key = node_info.id.clone();
            self.known_nodes.insert(key, node_info);
            let _after = self.known_nodes.len();
            return true;
        }
        false
    }

    /// Takes in the nodes a peer reported, in order, each seen at the
    /// response's time (see `add_node_if_new` and `takes_in`); the answer
    /// lists the ids of those added, in order.
    pub fn absorb_response(&mut self, response: DiscoveryResponse, now: u64) -> (added: Vec<String>)
        ensures
            final(self).blacklist == old(self).blacklist,
            final(self).recent_contacts == old(self).recent_contacts,
            final(self).boot_nodes == old(self).boot_nodes,
            final(self).max_known_nodes == old(self).max_known_nodes,
            exists|chain: Seq<Map<Seq<char>, NodeInfo>>, flags: Seq<bool>| {
                &&& chain.len() == response.nodes@.len() + 1
                &&& flags.len() == response.nodes@.len()
                &&& chain[0] == old(self).known_nodes@
                &&& chain.last() == final(self).known_nodes@
                &&& forall|j: int| #![trigger flags[j]] 0 <= j < flags.len() ==> takes_in(
                    chain[j],
                    chain[j + 1],
                    flags[j],
                    reported(response.nodes@[j], response.timestamp),
                    old(self).blacklist@,
                    old(self).recent_contacts@,
                    old(self).max_known_nodes,
                    now,
                )
                &&& added@.map_values(|s: String| s@) == flagged_ids(response.nodes@, flags)
            },
    {
        let timestamp = response.timestamp;
        let ghost all = response.nodes@;
        let mut rest = response.nodes;
        let total = rest.len();
        let mut added: Vec<String> = Vec::new();
        let ghost mut chain: Seq<Map<Seq<char>, NodeInfo>> = seq![self.known_nodes@];
        let ghost mut flags: Seq<bool> = Seq::empty();
        let mut i: usize = 0;
        while rest.len() > 0
            invariant
                i <= all.len(),
                all.len() == total,
                rest@ == all.subrange(i as int, all.len() as int),
                chain.len() == i + 1,
                flags.len() == i,
                chain[0] == old(self).known_nodes@,
                chain.last() == self.known_nodes@,
                self.blacklist == old(self).blacklist,
                self.recent_contacts == old(self).recent_contacts,
                self.boot_nodes == old(self).boot_nodes,
                self.max_known_nodes == old(self).max_known_nodes,
                forall|j: int| #![trigger flags[j]] 0 <= j < flags.len() ==> takes_in(
                    chain[j],
                    chain[j + 1],
                    flags[j],
                    reported(all[j], timestamp),
                    old(self).blacklist@,
                    old(self).recent_contacts@,
                    old(self).max_known_nodes,
                    now,
                ),
                added@.map_values(|s: String| s@) == flagged_ids(all.take(i as int), flags),
            decreases rest@.len(),
        {
            let node = rest.remove(0);
            assert(node == all[i as int]);
            let info = NodeInfo { last_seen: timestamp, ..node };
            let id = info.id.clone();
            let ghost before_chain = chain;
            let ghost before_flags = flags;
            let ghost before_added = added@.map_values(|s: String| s@);
            let ok = self.add_node_if_new(info, now);
            if ok {
                added.push(id);
            }
            proof {
                chain = before_chain.push(self.known_nodes@);
                flags = before_flags.push(ok);
                assert(all.take(i + 1).drop_last() =~= all.take(i as int));
                assert(all.take(i + 1).last() == all[i as int]);
                assert(flags.drop_last() =~= before_flags);
                assert forall|j: int| #![trigger flags[j]] 0 <= j < flags.len() implies takes_in(
                    chain[j],
                    chain[j + 1],
                    flags[j],
                    reported(all[j], timestamp),
                    old(self).blacklist@,
                    old(self).recent_contacts@,
                    old(self).max_known_nodes,
                    now,
                ) by {
                    if j < i {
                        assert(before_flags[j] == flags[j]);
                        assert(chain[j] == before_chain[j]);
                        assert(chain[j + 1] == before_chain[j + 1]);
                    } else {
                        assert(chain[j] == before_chain.last());
                    }
                }
                if ok {
                    assert(added@.map_values(|s: String| s@) =~= before_added.push(all[i as int].id@));
                } else {
                    assert(added@.map_values(|s: String| s@) =~= before_added);
                }
            }
            i = i + 1;
        }
        assert(all.take(i as int) =~= all);
        added
    }

    /// The known nodes, in the order they became known, that may be
    /// contacted at `now` (see `eligible`).
    pub fn eligible_nodes(&self, now: u64) -> (r: Vec<&NodeInfo>)
        ensures
            r@.map_values(|n: &NodeInfo| *n) == select_nodes(
                self.known_nodes.keys(),
                self.known_nodes@,
                |id: Seq<char>| eligible(self.blacklist@, self.recent_contacts@, id, now),
            ),
    {
        let ghost keep = |id: Seq<char>| eligible(self.blacklist@, self.recent_contacts@, id, now);
        let n = self.known_nodes.len();
        let mut out: Vec<&NodeInfo> = Vec::new();
        let mut i: usize = 0;
        while i < n
            invariant
                i <= n,
                n == self.known_nodes.keys().len(),
                keep == (|id: Seq<char>| eligible(self.blacklist@, self.recent_contacts@, id, now)),
                out@.map_values(|x: &NodeInfo| *x) == select_nodes(self.known_nodes.keys().take(i as int), self.known_nodes@, keep),
            decreases n - i,
        {
            let (key, node) = self.known_nodes.entry_at(i);
            let ghost before = out@;
            assert(self.known_nodes.keys().take(i + 1).drop_last() =~= self.known_nodes.keys().take(i as int));
            let ok = !self.blacklist.contains_key(key.as_str()) && match self.recent_contacts.get(key.as_str()) {
                Some(t) => (if now >= *t { now - *t } else { 0 }) > RECONTACT_AFTER_SECS,
                None => true,
            };
            if ok {
                out.push(node);
                assert(out@.map_values(|x: &NodeInfo| *x) =~= before.map_values(|x: &NodeInfo| *x).push(*node));
            }
            i = i + 1;
        }
        assert(self.known_nodes.keys().take(n as int) =~= self.known_nodes.keys());
        out
    }

    /// Up to `count` of the eligible nodes (see `eligible_nodes`), distinct
    /// and chosen at random.
    pub fn get_random_nodes(&self, count: usize, now: u64) -> (r: Vec<&NodeInfo>)
        ensures
            ({
                let all = select_nodes(
                    self.known_nodes.keys(),
                    self.known_nodes@,
                    |id: Seq<char>| eligible(self.blacklist@, self.recent_contacts@, id, now),
                );
                &&& r@.len() == if all.len() < count { all.len() } else { count as nat }
                &&& distinct_picks(r@.map_values(|n: &NodeInfo| *n), all)
            }),
    {
        let pool = self.eligible_nodes(now);
        let ghost all = pool@.map_values(|n: &NodeInfo| *n);
        let n = pool.len();
        let mut order: Vec<usize> = Vec::new();
        let mut i: usize = 0;
        while i < n
            invariant
                i <= n,
                order@.len() == i,
                forall|j: int| 0 <= j < i ==> order@[j] == j,
            decreases n - i,
        {
            order.push(i);
            i = i + 1;
        }
        let ghost before = order@;
        shuffle_positions(&mut order);
        proof {
            lemma_shuffled_positions(before, order@, n as nat);
        }
        let take = if n < count { n } else { count };
        let mut out: Vec<&NodeInfo> = Vec::new();
        let mut k: usize = 0;
        while k < take
            invariant
                k <= take <= n,
                n == pool@.len(),
                order@.len() == n,
                forall|j: int| 0 <= j < n ==> #[trigger] order@[j] < n,
                out@.len() == k,
                forall|j: int| 0 <= j < k ==> *out@[j] == *pool@[order@[j] as int],
            decreases take - k,
        {
            out.push(pool[order[k]]);
            k = k + 1;
        }
        proof {
            let p = order@.take(take as int);
            assert(p.no_duplicates()) by {
                assert forall|a: int, b: int| 0 <= a < p.len() && 0 <= b < p.len() && a != b implies p[a] != p[b] by {
                    assert(order@[a] != order@[b]);
                }
            }
            let rv = out@.map_values(|x: &NodeInfo| *x);
            assert forall|i: int| 0 <= i < p.len() implies (#[trigger] p[i]) < all.len() && rv[i] == all[p[i] as int] by {
                assert(order@[i] < n);
            }
            assert(distinct_picks(rv, all));
        }
        out
    }

    /// Notes a contact with `node_id` at `now`.
    pub fn update_recent_contact(&mut self, node_id: String, now: u64)
        ensures
            final(self).recent_contacts@ == old(self).recent_contacts@.insert(node_id@, now),
            final(self).known_nodes == old(self).known_nodes,
            final(self).blacklist == old(self).blacklist,
    {
        self.recent_contacts.insert(node_id, now);
    }

    /// The known nodes, in the order they became known.
    pub fn get_known_nodes(&self) -> (r: Vec<&NodeInfo>)
        ensures
            r@.map_values(|n: &NodeInfo| *n) == select_nodes(
                self.known_nodes.keys(),
                self.known_nodes@,
                |id: Seq<char>| true,
            ),
    {
        let ghost keep = |id: Seq<char>| true;
        let n = self.known_nodes.len();
        let mut out: Vec<&NodeInfo> = Vec::new();
        let mut i: usize = 0;
        while i < n
            invariant
                i <= n,
                n == self.known_nodes.keys().len(),
                keep == (|id: Seq<char>| true),
                out@.map_values(|x: &NodeInfo| *x) == select_nodes(self.known_nodes.keys().take(i as int), self.known_nodes@, keep),
            decreases n - i,
        {
            let (_key, node) = self.known_nodes.entry_at(i);
            let ghost before = out@;
            assert(self.known_nodes.keys().take(i + 1).drop_last() =~= self.known_nodes.keys().take(i as int));
            out.push(node);
            assert(out@.map_values(|x: &NodeInfo| *x) =~= before.map_values(|x: &NodeInfo| *x).push(*node));
            i = i + 1;
        }
        assert(self.known_nodes.keys().take(n as int) =~= self.known_nodes.keys());
        out
    }

    /// The known nodes, in the order they became known, that offer
    /// `capability`.
    pub fn get_nodes_by_capability(&self, capability: &str) -> (r: Vec<&NodeInfo>)
        ensures
            r@.map_values(|n: &NodeInfo| *n) == select_nodes(
                self.known_nodes.keys(),
                self.known_nodes@,
                |id: Seq<char>| lists(self.known_nodes@[id].capabilities@, capability@),
            ),
    {
        let ghost keep = |id: Seq<char>| lists(self.known_nodes@[id].capabilities@, capability@);
        let n = self.known_nodes.len();
        let mut out: Vec<&NodeInfo> = Vec::new();
        let mut i: usize = 0;
        while i < n
            invariant
                i <= n,
                n == self.known_nodes.keys().len(),
                keep == (|id: Seq<char>| lists(self.known_nodes@[id].capabilities@, capability@)),
                out@.map_values(|x: &NodeInfo| *x) == select_nodes(self.known_nodes.keys().take(i as int), self.known_nodes@, keep),
            decreases n - i,
        {
            let (_key, node) = self.known_nodes.entry_at(i);
            let ghost before = out@;
            assert(self.known_nodes.keys().take(i + 1).drop_last() =~= self.known_nodes.keys().take(i as int));
            if holds(&node.capabilities, capability) {
                out.push(node);
                assert(out@.map_values(|x: &NodeInfo| *x) =~= before.map_values(|x: &NodeInfo| *x).push(*node));
            }
            i = i + 1;
        }
        assert(self.known_nodes.keys().take(n as int) =~= self.known_nodes.keys());
        out
    }

    /// The boot nodes' addresses.
    pub fn get_boot_nodes(&self) -> (r: &[String])
        ensures
            r@ == self.boot_nodes@,
    {
        self.boot_nodes.as_slice()
    }

    /// Adds the boot node `addr`, unless it is one already or there are
    /// `MAX_BOOT_NODES` of them.
    pub fn add_boot_node(&mut self, addr: String)
        ensures
            if !lists(old(self).boot_nodes@, addr@) && old(self).boot_nodes@.len() < MAX_BOOT_NODES {
                final(self).boot_nodes@ == old(self).boot_nodes@.push(addr)
            } else {
                final(self).boot_nodes@ == old(self).boot_nodes@
            },
            final(self).known_nodes == old(self).known_nodes,
    {
        if !holds(&self.boot_nodes, addr.as_str()) && self.boot_nodes.len() < MAX_BOOT_NODES {
            self.boot_nodes.push(addr);
        }
    }

    /// Blacklists `node_id`.
    pub fn blacklist_node(&mut self, node_id: String)
        ensures
            final(self).blacklist@ == old(self).blacklist@.insert(node_id@, ()),
            final(self).known_nodes == old(self).known_nodes,
    {
        self.blacklist.insert(node_id, ());
    }

    /// Takes `node_id` off the blacklist.
    pub fn unblacklist_node(&mut self, node_id: &str)
        ensures
            final(self).blacklist@ == old(self).blacklist@.remove(node_id@),
            final(self).known_nodes == old(self).known_nodes,
    {
        self.blacklist.remove(node_id);
    }

    /// Notes that discovery ran at `now`.
    pub fn mark_discovery_run(&mut self, now: u64)
        ensures
            final(self).last_discovery == Some(now),
            final(self).known_nodes == old(self).known_nodes,
    {
        self.last_discovery = Some(now);
    }

    /// The statistics at `now`.
    pub fn get_stats(&self, now: u64) -> (s: DiscoveryStats)
        ensures
            s.known_nodes == self.known_nodes@.dom().len(),
            s.boot_nodes == self.boot_nodes@.len(),
            s.recently_contacted == self.recent_contacts@.dom().len(),
            s.blacklisted == self.blacklist@.dom().len(),
            s.last_discovery == match self.last_discovery {
                Some(t) => Some(seconds_since(t, now)),
                None => None,
            },
    {
        DiscoveryStats {
            known_nodes: self.known_nodes.len(),
            boot_nodes: self.boot_nodes.len(),
            recently_contacted: self.recent_contacts.len(),
            blacklisted: self.blacklist.len(),
            last_discovery: match self.last_discovery {
                Some(t) => Some(if now >= t { now - t } else { 0 }),
                None => None,
            },
        }
    }

    /// Whether discovery is due at `now`: it never ran, or ran more than
    /// `DISCOVERY_INTERVAL_SECS` ago.
    pub fn should_run_discovery(&self, now: u64) -> (r: bool)
        ensures
            r == match self.last_discovery {
                Some(t) => seconds_since(t, now) > DISCOVERY_INTERVAL_SECS,
                None => true,
            },
    {
        match self.last_discovery {
            Some(t) => (if now >= t { now - t } else { 0 }) > DISCOVERY_INTERVAL_SECS,
            None => true,
        }
    }
}

} // verus!
