//! Node management: the nodes a peer knows, their connection status and
//! failed connection attempts.
use vstd::prelude::*;

use crate::collections::StringMap;
use crate::network::NodeInfo;

verus! {

/// The connection status of a node.
#[derive(Debug, Clone, Copy, PartialEq, Eq, Structural)]
pub enum NodeStatus {
    Connected,
    Disconnected,
    Connecting,
    Unreachable,
}

/// The nodes a peer knows, their status and connection attempts.
#[derive(Debug)]
pub struct NodeManager {
    nodes: StringMap<NodeInfo>,
    node_statuses: StringMap<NodeStatus>,
    connection_attempts: StringMap<u32>,
    max_connection_attempts: u32,
}

/// How many nodes are in each status.
#[derive(Debug, Clone, Copy)]
pub struct NodeStatistics {
    pub total: usize,
    pub connected: usize,
    pub disconnected: usize,
    pub connecting: usize,
    pub unreachable: usize,
}

/// The nodes named by `keys`, in order, that `keep` selects.
pub open spec fn select_nodes(keys: Seq<Seq<char>>, nodes: Map<Seq<char>, NodeInfo>, keep: spec_fn(Seq<char>) -> bool) -> Seq<NodeInfo>
    decreases keys.len(),
{
    if keys.len() == 0 {
        Seq::empty()
    } else {
        let rest = select_nodes(keys.drop_last(), nodes, keep);
        if keep(keys.last()) {
            rest.push(nodes[keys.last()])
        } else {
            rest
        }
    }
}

/// Whether node `id` has status `s`.
pub open spec fn has_status(statuses: Map<Seq<char>, NodeStatus>, id: Seq<char>, s: NodeStatus) -> bool {
    statuses.contains_key(id) && statuses[id] == s
}

/// How many of `statuses` are `s`.
pub open spec fn count_status(statuses: Seq<NodeStatus>, s: NodeStatus) -> nat
    decreases statuses.len(),
{
    if statuses.len() == 0 {
        0
    } else {
        count_status(statuses.drop_last(), s) + if statuses.last() == s { 1nat } else { 0nat }
    }
}

proof fn lemma_count_status_bound(statuses: Seq<NodeStatus>, s: NodeStatus)
    ensures
        count_status(statuses, s) <= statuses.len(),
    decreases statuses.len(),
{
    if statuses.len() > 0 {
        lemma_count_status_bound(statuses.drop_last(), s);
    }
}

/// The statuses after a connectivity probe of node `id`: an unreachable node
/// keeps its status; a reachable node becomes connected; a node that cannot
/// be reached and was connected becomes disconnected.
pub open spec fn probed(statuses: Map<Seq<char>, NodeStatus>, id: Seq<char>, reachable: bool) -> Map<Seq<char>, NodeStatus> {
    if has_status(statuses, id, NodeStatus::Unreachable) {
        statuses
    } else if reachable {
        statuses.insert(id, NodeStatus::Connected)
    } else if has_status(statuses, id, NodeStatus::Connected) {
        statuses.insert(id, NodeStatus::Disconnected)
    } else {
        statuses
    }
}

impl NodeManager {
    /// The known nodes, by id.
    pub closed spec fn nodes(&self) -> Map<Seq<char>, NodeInfo> {
        self.nodes@
    }

    /// The order in which nodes were first registered.
    pub closed spec fn node_order(&self) -> Seq<Seq<char>> {
        self.nodes.keys()
    }

    /// The status of each node.
    pub closed spec fn statuses(&self) -> Map<Seq<char>, NodeStatus> {
        self.node_statuses@
    }

    /// The statuses, in the order in which they were first set.
    pub closed spec fn status_values(&self) -> Seq<NodeStatus> {
        self.node_statuses.values()
    }

    /// The failed connection attempts of each node.
    pub closed spec fn attempts(&self) -> Map<Seq<char>, u32> {
        self.connection_attempts@
    }

    /// Attempts after which a node is unreachable.
    pub closed spec fn max_attempts(&self) -> u32 {
        self.max_connection_attempts
    }

    /// A manager with no nodes, giving up on a node after 3 attempts.
    pub fn new() -> (m: Self)
        ensures
            m.nodes() == Map::<Seq<char>, NodeInfo>::empty(),
            m.statuses() == Map::<Seq<char>, NodeStatus>::empty(),
            m.attempts() == Map::<Seq<char>, u32>::empty(),
            m.max_attempts() == 3,
    {
        NodeManager {
            nodes: StringMap::new(),
            node_statuses: StringMap::new(),
            connection_attempts: StringMap::new(),
            max_connection_attempts: 3,
        }
    }

    /// Registers `node_info` under its id, disconnected.
    pub fn register_node(&mut self, node_info: NodeInfo)
        ensures
            final(self).nodes() == old(self).nodes().insert(node_info.id@, node_info),
            final(self).statuses() == old(self).statuses().insert(node_info.id@, NodeStatus::Disconnected),
            final(self).attempts() == old(self).attempts(),
            final(self).max_attempts() == old(self).max_attempts(),
    {
        let node_id = node_info.id.clone();
        self.nodes.insert(node_id.clone(), node_info);
        self.node_statuses.insert(node_id, NodeStatus::Disconnected);
    }

    /// Forgets node `node_id`, its status and its attempts; the answer is the
    /// node, if it was known.
    pub fn remove_node(&mut self, node_id: &str) -> (r: Option<NodeInfo>)
        ensures
            final(self).nodes() == old(self).nodes().remove(node_id@),
            final(self).statuses() == old(self).statuses().remove(node_id@),
            final(self).attempts() == old(self).attempts().remove(node_id@),
            final(self).max_attempts() == old(self).max_attempts(),
            match r {
                Some(n) => old(self).nodes().contains_key(node_id@) && n == old(self).nodes()[node_id@],
                None => !old(self).nodes().contains_key(node_id@),
            },
    {
        self.node_statuses.remove(node_id);
        self.connection_attempts.remove(node_id);
        self.nodes.remove(node_id)
    }

    /// Sets the status of `node_id`; a connected node's attempts are
    /// forgotten.
    pub fn update_node_status(&mut self, node_id: &str, status: NodeStatus)
        ensures
            final(self).statuses() == old(self).statuses().insert(node_id@, status),
            final(self).attempts() == if status == NodeStatus::Connected {
                old(self).attempts().remove(node_id@)
            } else {
                old(self).attempts()
            },
            final(self).nodes() == old(self).nodes(),
            final(self).max_attempts() == old(self).max_attempts(),
    {
        self.node_statuses.insert(String::from_str(node_id), status);
        if status == NodeStatus::Connected {
            self.connection_attempts.remove(node_id);
        }
    }

    /// Counts a failed connection attempt to `node_id`; once the attempts
    /// reach the maximum the node is unreachable.
    pub fn mark_connection_attempt(&mut self, node_id: &str)
        requires
            old(self).attempts().contains_key(node_id@) ==> old(self).attempts()[node_id@] < u32::MAX,
        ensures
            ({
                let n = (if old(self).attempts().contains_key(node_id@) { old(self).attempts()[node_id@] } else { 0 }) + 1;
                &&& final(self).attempts() == old(self).attempts().insert(node_id@, n as u32)
                &&& final(self).statuses() == if n >= old(self).max_attempts() {
                    old(self).statuses().insert(node_id@, NodeStatus::Unreachable)
                } else {
                    old(self).statuses()
                }
            }),
            final(self).nodes() == old(self).nodes(),
            final(self).max_attempts() == old(self).max_attempts(),
    {
        let attempts: u32 = match self.connection_attempts.get(node_id) {
            Some(a) => *a,
            None => 0,
        } + 1;
        self.connection_attempts.insert(String::from_str(node_id), attempts);
        if attempts >= self.max_connection_attempts {
            self.node_statuses.insert(String::from_str(node_id), NodeStatus::Unreachable);
        }
    }

    /// The node `node_id`, if known.
    pub fn get_node(&self, node_id: &str) -> (r: Option<&NodeInfo>)
        ensures
            match r {
                Some(n) => self.nodes().contains_key(node_id@) && *n == self.nodes()[node_id@],
                None => !self.nodes().contains_key(node_id@),
            },
    {
        self.nodes.get(node_id)
    }

    /// The status of `node_id`, if it has one.
    pub fn get_node_status(&self, node_id: &str) -> (r: Option<&NodeStatus>)
        ensures
            match r {
                Some(s) => self.statuses().contains_key(node_id@) && *s == self.statuses()[node_id@],
                None => !self.statuses().contains_key(node_id@),
            },
    {
        self.node_statuses.get(node_id)
    }

    /// The nodes, in registration order, whose status is `status`.
    pub fn get_nodes_by_status(&self, status: NodeStatus) -> (r: Vec<&NodeInfo>)
        ensures
            r@.map_values(|n: &NodeInfo| *n) == select_nodes(
                self.node_order(),
                self.nodes(),
                |id: Seq<char>| has_status(self.statuses(), id, status),
            ),
    {
        let ghost keep = |id: Seq<char>| has_status(self.statuses(), id, status);
        let n = self.nodes.len();
        let mut out: Vec<&NodeInfo> = Vec::new();
        let mut i: usize = 0;
        while i < n
            invariant
                i <= n,
                n == self.nodes.keys().len(),
                keep == (|id: Seq<char>| has_status(self.statuses(), id, status)),
                out@.map_values(|x: &NodeInfo| *x) == select_nodes(self.nodes.keys().take(i as int), self.nodes@, keep),
            decreases n - i,
        {
            let (key, node) = self.nodes.entry_at(i);
            let ghost before = out@;
            assert(self.nodes.keys().take(i + 1).drop_last() =~= self.nodes.keys().take(i as int));
            let matched = match self.node_statuses.get(key.as_str()) {
                Some(s) => *s == status,
                None => false,
            };
            if matched {
                out.push(node);
                assert(out@.map_values(|x: &NodeInfo| *x) =~= before.map_values(|x: &NodeInfo| *x).push(*node));
            }
            i = i + 1;
        }
        assert(self.nodes.keys().take(n as int) =~= self.nodes.keys());
        out
    }

    /// The connected nodes, in registration order.
    pub fn get_connected_nodes(&self) -> (r: Vec<&NodeInfo>)
        ensures
            r@.map_values(|n: &NodeInfo| *n) == select_nodes(
                self.node_order(),
                self.nodes(),
                |id: Seq<char>| has_status(self.statuses(), id, NodeStatus::Connected),
            ),
    {
        self.get_nodes_by_status(NodeStatus::Connected)
    }

    /// The disconnected nodes, in registration order.
    pub fn get_disconnected_nodes(&self) -> (r: Vec<&NodeInfo>)
        ensures
            r@.map_values(|n: &NodeInfo| *n) == select_nodes(
                self.node_order(),
                self.nodes(),
                |id: Seq<char>| has_status(self.statuses(), id, NodeStatus::Disconnected),
            ),
    {
        self.get_nodes_by_status(NodeStatus::Disconnected)
    }

    /// The nodes, in registration order, not known to be unreachable (a node
    /// with no status counts as reachable).
    pub fn get_reachable_nodes(&self) -> (r: Vec<&NodeInfo>)
        ensures
            r@.map_values(|n: &NodeInfo| *n) == select_nodes(
                self.node_order(),
                self.nodes(),
                |id: Seq<char>| !has_status(self.statuses(), id, NodeStatus::Unreachable),
            ),
    {
        let ghost keep = |id: Seq<char>| !has_status(self.statuses(), id, NodeStatus::Unreachable);
        let n = self.nodes.len();
        let mut out: Vec<&NodeInfo> = Vec::new();
        let mut i: usize = 0;
        while i < n
            invariant
                i <= n,
                n == self.nodes.keys().len(),
                keep == (|id: Seq<char>| !has_status(self.statuses(), id, NodeStatus::Unreachable)),
                out@.map_values(|x: &NodeInfo| *x) == select_nodes(self.nodes.keys().take(i as int), self.nodes@, keep),
            decreases n - i,
        {
            let (key, node) = self.nodes.entry_at(i);
            let ghost before = out@;
            assert(self.nodes.keys().take(i + 1).drop_last() =~= self.nodes.keys().take(i as int));
            let reachable = match self.node_statuses.get(key.as_str()) {
                Some(s) => *s != NodeStatus::Unreachable,
                None => true,
            };
            if reachable {
                out.push(node);
                assert(out@.map_values(|x: &NodeInfo| *x) =~= before.map_values(|x: &NodeInfo| *x).push(*node));
            }
            i = i + 1;
        }
        assert(self.nodes.keys().take(n as int) =~= self.nodes.keys());
        out
    }

    /// All nodes, in registration order.
    pub fn get_all_nodes(&self) -> (r: Vec<&NodeInfo>)
        ensures
            r@.map_values(|n: &NodeInfo| *n) == select_nodes(self.node_order(), self.nodes(), |id: Seq<char>| true),
    {
        let ghost keep = |id: Seq<char>| true;
        let n = self.nodes.len();
        let mut out: Vec<&NodeInfo> = Vec::new();
        let mut i: usize = 0;
        while i < n
            invariant
                i <= n,
                n == self.nodes.keys().len(),
                keep == (|id: Seq<char>| true),
                out@.map_values(|x: &NodeInfo| *x) == select_nodes(self.nodes.keys().take(i as int), self.nodes@, keep),
            decreases n - i,
        {
            let (key, node) = self.nodes.entry_at(i);
            let ghost before = out@;
            assert(self.nodes.keys().take(i + 1).drop_last() =~= self.nodes.keys().take(i as int));
            out.push(node);
            assert(out@.map_values(|x: &NodeInfo| *x) =~= before.map_values(|x: &NodeInfo| *x).push(*node));
            i = i + 1;
        }
        assert(self.nodes.keys().take(n as int) =~= self.nodes.keys());
        out
    }

    /// Whether node `node_id` is to be probed in a health check: every node
    /// not known to be unreachable is.
    pub fn needs_health_check(&self, node_id: &str) -> (r: bool)
        ensures
            r == !has_status(self.statuses(), node_id@, NodeStatus::Unreachable),
    {
        match self.node_statuses.get(node_id) {
            Some(s) => *s != NodeStatus::Unreachable,
            None => true,
        }
    }

    /// Records the outcome of a connectivity probe of `node_id` (see
    /// `probed`).
    pub fn record_connectivity(&mut self, node_id: &str, reachable: bool)
        ensures
            final(self).statuses() == probed(old(self).statuses(), node_id@, reachable),
            final(self).nodes() == old(self).nodes(),
            final(self).attempts() == old(self).attempts(),
            final(self).max_attempts() == old(self).max_attempts(),
    {
        let current: Option<NodeStatus> = match self.node_statuses.get(node_id) {
            Some(s) => Some(*s),
            None => None,
        };
        if current == Some(NodeStatus::Unreachable) {
            return;
        }
        if reachable {
            if current != Some(NodeStatus::Connected) {
                self.node_statuses.insert(String::from_str(node_id), NodeStatus::Connected);
            } else {
                assert(self.node_statuses@.insert(node_id@, NodeStatus::Connected) =~= self.node_statuses@);
            }
        } else if current == Some(NodeStatus::Connected) {
            self.node_statuses.insert(String::from_str(node_id), NodeStatus::Disconnected);
        }
    }

    /// How many nodes there are, and how many statuses of each kind.
    pub fn get_statistics(&self) -> (s: NodeStatistics)
        ensures
            s.total == self.nodes().dom().len(),
            s.connected == count_status(self.status_values(), NodeStatus::Connected),
            s.disconnected == count_status(self.status_values(), NodeStatus::Disconnected),
            s.connecting == count_status(self.status_values(), NodeStatus::Connecting),
            s.unreachable == count_status(self.status_values(), NodeStatus::Unreachable),
    {
        let mut connected: usize = 0;
        let mut disconnected: usize = 0;
        let mut connecting: usize = 0;
        let mut unreachable: usize = 0;
        let n = self.node_statuses.len();
        let ghost vals = self.node_statuses.values();
        let mut i: usize = 0;
        while i < n
            invariant
                i <= n,
                n == self.node_statuses.keys().len(),
                vals == self.node_statuses.values(),
                vals.len() == n,
                connected == count_status(vals.take(i as int), NodeStatus::Connected),
                disconnected == count_status(vals.take(i as int), NodeStatus::Disconnected),
                connecting == count_status(vals.take(i as int), NodeStatus::Connecting),
                unreachable == count_status(vals.take(i as int), NodeStatus::Unreachable),
            decreases n - i,
        {
            let (_key, status) = self.node_statuses.entry_at(i);
            assert(vals.take(i + 1).drop_last() =~= vals.take(i as int));
            proof {
                lemma_count_status_bound(vals.take(i as int), NodeStatus::Connected);
                lemma_count_status_bound(vals.take(i as int), NodeStatus::Disconnected);
                lemma_count_status_bound(vals.take(i as int), NodeStatus::Connecting);
                lemma_count_status_bound(vals.take(i as int), NodeStatus::Unreachable);
            }
            match *status {
                NodeStatus::Connected => connected = connected + 1,
                NodeStatus::Disconnected => disconnected = disconnected + 1,
                NodeStatus::Connecting => connecting = connecting + 1,
                NodeStatus::Unreachable => unreachable = unreachable + 1,
            }
            i = i + 1;
        }
        assert(vals.take(n as int) =~= vals);
        NodeStatistics { total: self.nodes.len(), connected, disconnected, connecting, unreachable }
    }
}

impl Default for NodeManager {
    fn default() -> (m: Self)
        ensures
            m.nodes() == Map::<Seq<char>, NodeInfo>::empty(),
            m.statuses() == Map::<Seq<char>, NodeStatus>::empty(),
            m.attempts() == Map::<Seq<char>, u32>::empty(),
            m.max_attempts() == 3,
    {
        Self::new()
    }
}

} // verus!
