//! The aggregator: one cluster made of many node clients.
//!
//! The aggregator owns the registry of node clients. Reads fan out to every
//! node and merge what succeeded; writes go to one node, named by the caller
//! or picked as the healthy node with the fewest pods. The registry keeps the
//! order in which names were first registered, and that order decides probes
//! and ties.

use vstd::prelude::*;
use vstd::string::*;
use crate::clients::transport::{ClusterError, JsonReply, Method, Reply, Request};
use crate::models::k8s::{Node, Pod, PodList};
use crate::models::string_map::same_text;
use crate::models::views::{ClusterSummary, NodeSummary};
use crate::clients::{
    healthz_path, namespaced_pods_path, node_path, pod_log_path, pod_path, pods_path, NodeClient,
};
use crate::time::Timestamp;

verus! {

/// No two clients share a name.
pub open spec fn distinct_names(nodes: Seq<NodeClient>) -> bool {
    forall|i: int, j: int|
        0 <= i < j < nodes.len() ==> (#[trigger] nodes[i]).name@ != (#[trigger] nodes[j]).name@
}

/// No client is called `name`.
pub open spec fn none_named(nodes: Seq<NodeClient>, name: Seq<char>) -> bool {
    forall|j: int| 0 <= j < nodes.len() ==> (#[trigger] nodes[j]).name@ != name
}

/// Client `i` is the first that is called `name`.
pub open spec fn first_named(nodes: Seq<NodeClient>, name: Seq<char>, i: int) -> bool {
    &&& 0 <= i < nodes.len()
    &&& nodes[i].name@ == name
    &&& none_named(nodes.take(i), name)
}

/// The registry after `client` is registered: it takes the place of the
/// client of the same name, or the last place.
pub open spec fn registered(nodes: Seq<NodeClient>, client: NodeClient) -> Seq<NodeClient>
    decreases nodes.len(),
{
    if nodes.len() == 0 {
        seq![client]
    } else if nodes[0].name@ == client.name@ {
        seq![client] + nodes.drop_first()
    } else {
        seq![nodes[0]] + registered(nodes.drop_first(), client)
    }
}

/// The registry that comes of registering `clients` one after the other.
pub open spec fn registry_of(clients: Seq<NodeClient>) -> Seq<NodeClient>
    decreases clients.len(),
{
    if clients.len() == 0 {
        Seq::empty()
    } else {
        registered(registry_of(clients.drop_last()), clients.last())
    }
}

proof fn lemma_registered_at(nodes: Seq<NodeClient>, client: NodeClient, i: int)
    requires
        first_named(nodes, client.name@, i),
    ensures
        registered(nodes, client) == nodes.update(i, client),
    decreases nodes.len(),
{
    if i == 0 {
        assert(seq![client] + nodes.drop_first() =~= nodes.update(0, client));
    } else {
        assert(nodes.take(i)[0] == nodes[0]);
        let rest = nodes.drop_first();
        assert(none_named(rest.take(i - 1), client.name@)) by {
            assert forall|j: int| 0 <= j < i - 1 implies (#[trigger] rest.take(i - 1)[j]).name@
                != client.name@ by {
                assert(rest.take(i - 1)[j] == nodes.take(i)[j + 1]);
            }
        }
        lemma_registered_at(rest, client, i - 1);
        assert(seq![nodes[0]] + rest.update(i - 1, client) =~= nodes.update(i, client));
    }
}

proof fn lemma_registered_new(nodes: Seq<NodeClient>, client: NodeClient)
    requires
        none_named(nodes, client.name@),
    ensures
        registered(nodes, client) == nodes.push(client),
    decreases nodes.len(),
{
    if nodes.len() == 0 {
        assert(seq![client] =~= nodes.push(client));
    } else {
        let rest = nodes.drop_first();
        assert(nodes[0].name@ != client.name@);
        assert(none_named(rest, client.name@)) by {
            assert forall|j: int| 0 <= j < rest.len() implies (#[trigger] rest[j]).name@
                != client.name@ by {
                assert(rest[j] == nodes[j + 1]);
            }
        }
        lemma_registered_new(rest, client);
        assert(seq![nodes[0]] + rest.push(client) =~= nodes.push(client));
    }
}

/// The successes among `replies`, in order.
pub open spec fn successes<T>(replies: Seq<JsonReply<T>>) -> Seq<T>
    decreases replies.len(),
{
    if replies.len() == 0 {
        Seq::empty()
    } else {
        match replies.last().outcome() {
            Ok(v) => successes(replies.drop_last()).push(v),
            Err(_) => successes(replies.drop_last()),
        }
    }
}

/// The pods that node `i` reported: none where its call failed.
pub open spec fn reported(replies: Seq<JsonReply<PodList>>, i: int) -> Seq<Pod> {
    match replies[i].outcome() {
        Ok(list) => list.items@,
        Err(_) => Seq::empty(),
    }
}

/// The number of pods that the nodes reported, all together.
pub open spec fn total_reported(replies: Seq<JsonReply<PodList>>) -> nat
    decreases replies.len(),
{
    if replies.len() == 0 {
        0
    } else {
        total_reported(replies.drop_last()) + reported(replies, replies.len() - 1).len()
    }
}

/// A pod as a node reported it, with the index of that node.
pub struct Source {
    pub node: int,
    pub pod: Pod,
}

/// Every reported pod with its node: node by node in registry order, and
/// within a node in the order of its report.
pub open spec fn sources(replies: Seq<JsonReply<PodList>>) -> Seq<Source>
    decreases replies.len(),
{
    if replies.len() == 0 {
        Seq::empty()
    } else {
        let i = replies.len() - 1;
        sources(replies.drop_last()) + Seq::new(
            reported(replies, i).len(),
            |j: int| Source { node: i, pod: reported(replies, i)[j] },
        )
    }
}

/// Each source names a node whose call succeeded and a pod of its report,
/// and there is one source for each reported pod.
pub proof fn lemma_sources(replies: Seq<JsonReply<PodList>>)
    ensures
        sources(replies).len() == total_reported(replies),
        forall|k: int|
            0 <= k < sources(replies).len() ==> {
                let s = #[trigger] sources(replies)[k];
                &&& 0 <= s.node < replies.len()
                &&& replies[s.node].outcome() is Ok
                &&& reported(replies, s.node).contains(s.pod)
            },
    decreases replies.len(),
{
    if replies.len() > 0 {
        let i = replies.len() - 1;
        let before = replies.drop_last();
        lemma_sources(before);
        assert forall|k: int| 0 <= k < sources(replies).len() implies {
            let s = #[trigger] sources(replies)[k];
            &&& 0 <= s.node < replies.len()
            &&& replies[s.node].outcome() is Ok
            &&& reported(replies, s.node).contains(s.pod)
        } by {
            let s = sources(replies)[k];
            if k < sources(before).len() {
                assert(s == sources(before)[k]);
                assert(before[s.node] == replies[s.node]);
                assert(reported(before, s.node) == reported(replies, s.node));
            } else {
                let j = k - sources(before).len();
                assert(s.pod == reported(replies, i)[j]);
            }
        }
    }
}

/// What the aggregator answers to a fan-out over pods: `pods` holds one pod
/// for each source, stamped with the name of the node that reported it.
pub open spec fn merged(nodes: Seq<NodeClient>, replies: Seq<JsonReply<PodList>>, pods: Seq<Pod>)
    -> bool {
    &&& pods.len() == sources(replies).len()
    &&& forall|k: int|
        0 <= k < pods.len() ==> (#[trigger] pods[k]).stamped_from(
            sources(replies)[k].pod,
            nodes[sources(replies)[k].node].name@,
        )
}

/// Where a point lookup stands: which node to ask next, or how it ended.
pub enum Probe {
    Ask { node: int },
    Found { node: int },
    Missing,
}

/// The first step of a lookup over `n` nodes.
pub open spec fn first_probe(n: int) -> Probe {
    if n <= 0 {
        Probe::Missing
    } else {
        Probe::Ask { node: 0 }
    }
}

/// The step after node `node` of `n` answered: a hit ends the lookup there,
/// a miss moves on to the next node, and a miss of the last node ends it.
pub open spec fn next_probe(n: int, node: int, hit: bool) -> Probe {
    if hit {
        Probe::Found { node }
    } else if node + 1 < n {
        Probe::Ask { node: node + 1 }
    } else {
        Probe::Missing
    }
}

/// How a lookup ends that asks the nodes in turn from `node` on, where
/// `hits[i]` says whether node `i` has the pod.
pub open spec fn lookup_from(hits: Seq<bool>, node: int) -> Probe
    decreases hits.len() - node,
{
    if node < 0 || node >= hits.len() {
        Probe::Missing
    } else {
        match next_probe(hits.len() as int, node, hits[node]) {
            Probe::Ask { node: next } => lookup_from(hits, next),
            end => end,
        }
    }
}

/// The number of nodes that such a lookup asks.
pub open spec fn asked_from(hits: Seq<bool>, node: int) -> nat
    decreases hits.len() - node,
{
    if node < 0 || node >= hits.len() {
        0
    } else {
        match next_probe(hits.len() as int, node, hits[node]) {
            Probe::Ask { node: next } => 1 + asked_from(hits, next),
            _ => 1,
        }
    }
}

/// Node `i` may take a new pod: it is healthy and its pod count came back.
pub open spec fn eligible(nodes: Seq<NodeClient>, replies: Seq<JsonReply<PodList>>, i: int) -> bool {
    &&& 0 <= i < nodes.len()
    &&& i < replies.len()
    &&& nodes[i].healthy()
    &&& replies[i].outcome() is Ok
}

/// No node may take a new pod.
pub open spec fn none_eligible(nodes: Seq<NodeClient>, replies: Seq<JsonReply<PodList>>) -> bool {
    forall|j: int| !eligible(nodes, replies, j)
}

/// Node `i` is the eligible node with the fewest pods, and the first of
/// those in registry order.
pub open spec fn least_loaded(nodes: Seq<NodeClient>, replies: Seq<JsonReply<PodList>>, i: int)
    -> bool {
    &&& eligible(nodes, replies, i)
    &&& forall|j: int| #[trigger]
        eligible(nodes, replies, j) ==> {
            &&& reported(replies, i).len() <= reported(replies, j).len()
            &&& j < i ==> reported(replies, i).len() < reported(replies, j).len()
        }
}

/// The pod is in phase `Running`.
pub open spec fn is_running(pod: Pod) -> bool {
    pod.status.phase@ == "Running"@
}

/// The number of running pods among `pods`.
pub open spec fn running_among(pods: Seq<Pod>) -> nat
    decreases pods.len(),
{
    if pods.len() == 0 {
        0
    } else {
        running_among(pods.drop_last()) + if is_running(pods.last()) {
            1nat
        } else {
            0nat
        }
    }
}

/// The number of running pods that the nodes reported, all together.
pub open spec fn total_running(replies: Seq<JsonReply<PodList>>) -> nat
    decreases replies.len(),
{
    if replies.len() == 0 {
        0
    } else {
        total_running(replies.drop_last()) + running_among(reported(replies, replies.len() - 1))
    }
}

/// The number of healthy clients among `nodes`.
pub open spec fn healthy_among(nodes: Seq<NodeClient>) -> nat
    decreases nodes.len(),
{
    if nodes.len() == 0 {
        0
    } else {
        healthy_among(nodes.drop_last()) + if nodes.last().healthy() {
            1nat
        } else {
            0nat
        }
    }
}

/// A count held to what a `usize` can say.
pub open spec fn capped(x: nat) -> int {
    if x > usize::MAX {
        usize::MAX as int
    } else {
        x as int
    }
}

proof fn lemma_healthy_among_bound(nodes: Seq<NodeClient>)
    ensures
        healthy_among(nodes) <= nodes.len(),
    decreases nodes.len(),
{
    if nodes.len() > 0 {
        lemma_healthy_among_bound(nodes.drop_last());
    }
}

proof fn lemma_running_among_bound(pods: Seq<Pod>)
    ensures
        running_among(pods) <= pods.len(),
    decreases pods.len(),
{
    if pods.len() > 0 {
        lemma_running_among_bound(pods.drop_last());
    }
}

/// A call and the node that it goes to.
#[derive(Debug)]
pub struct Routed {
    pub node: usize,
    pub request: Request,
}

/// One step of a point lookup for a pod.
#[derive(Debug)]
pub enum PodLookup {
    /// Ask node `node` with `request`, and come back with its reply.
    Ask { node: usize, request: Request },
    /// Node `node`, called `node_name`, has the pod.
    Found { node: usize, pod: Pod, node_name: String },
    /// No node has the pod.
    Failed { error: ClusterError },
}

impl PodLookup {
    /// The step without what it carries.
    pub open spec fn probe(self) -> Probe {
        match self {
            PodLookup::Ask { node, .. } => Probe::Ask { node: node as int },
            PodLookup::Found { node, .. } => Probe::Found { node: node as int },
            PodLookup::Failed { .. } => Probe::Missing,
        }
    }
}

/// The outcome of one health probe and the time at which it came back.
#[derive(Debug, Clone)]
pub struct PingResult {
    pub reply: Reply,
    pub at: Timestamp,
}

/// Seconds between two rounds of health probes.
pub const HEALTH_CHECK_INTERVAL_SECS: u64 = 15;

/// Where the health checker stands.
#[derive(Debug, Clone, Copy, PartialEq, Eq, Structural)]
pub enum HealthState {
    /// Not yet started.
    Starting,
    /// Between two rounds.
    Running,
    /// Shut down for good.
    Stopped,
}

/// What the health checker is told.
#[derive(Debug, Clone, Copy, PartialEq, Eq, Structural)]
pub enum HealthEvent {
    /// The process has started.
    Started,
    /// The interval has passed.
    Tick,
    /// The process is shutting down.
    Shutdown,
}

/// What the health checker asks for.
#[derive(Debug, Clone, Copy, PartialEq, Eq, Structural)]
pub enum HealthAction {
    /// Ping every node, then wait for the next tick or the shutdown.
    PingAll,
    /// Wait for the next tick or the shutdown.
    Wait,
    /// Return: nothing is pinged any more.
    Stop,
}

/// The health checker's rule. It pings every node once when it starts and
/// once on every tick after that, and stops for good at the shutdown.
pub open spec fn health_step(state: HealthState, event: HealthEvent) -> (HealthState, HealthAction) {
    match state {
        HealthState::Stopped => (HealthState::Stopped, HealthAction::Stop),
        HealthState::Starting => match event {
            HealthEvent::Shutdown => (HealthState::Stopped, HealthAction::Stop),
            _ => (HealthState::Running, HealthAction::PingAll),
        },
        HealthState::Running => match event {
            HealthEvent::Shutdown => (HealthState::Stopped, HealthAction::Stop),
            HealthEvent::Tick => (HealthState::Running, HealthAction::PingAll),
            HealthEvent::Started => (HealthState::Running, HealthAction::Wait),
        },
    }
}

/// A merged answer holds as many pods as the succeeding nodes reported, and
/// each of them is annotated with the name of the node that reported it.
pub proof fn lemma_merged_pods(
    nodes: Seq<NodeClient>,
    replies: Seq<JsonReply<PodList>>,
    pods: Seq<Pod>,
)
    requires
        merged(nodes, replies, pods),
    ensures
        pods.len() == total_reported(replies),
        forall|k: int|
            0 <= k < pods.len() ==> {
                let s = sources(replies)[k];
                &&& replies[s.node].outcome() is Ok
                &&& reported(replies, s.node).contains(s.pod)
                &&& (#[trigger] pods[k]).owner() == Some(nodes[s.node].name@)
            },
{
    lemma_sources(replies);
    assert forall|k: int| 0 <= k < pods.len() implies {
        let s = sources(replies)[k];
        &&& replies[s.node].outcome() is Ok
        &&& reported(replies, s.node).contains(s.pod)
        &&& (#[trigger] pods[k]).owner() == Some(nodes[s.node].name@)
    } by {
        let s = sources(replies)[k];
        assert(pods[k].stamped_from(s.pod, nodes[s.node].name@));
    }
}

/// A node whose ping failed is not the target of scheduling, whatever the
/// nodes report.
pub proof fn lemma_failed_ping_excludes_node(
    nodes: Seq<NodeClient>,
    x: int,
    reply: Reply,
    now: Timestamp,
    replies: Seq<JsonReply<PodList>>,
    target: int,
)
    requires
        0 <= x < nodes.len(),
        !reply.succeeded(),
        least_loaded(nodes.update(x, nodes[x].after_ping(reply, now)), replies, target),
    ensures
        !nodes[x].after_ping(reply, now).healthy(),
        target != x,
{
    broadcast use crate::clients::ClientState::after_ping_facts;

}

/// Where no node is healthy, no node is eligible, so placing a pod that
/// names no node fails.
pub proof fn lemma_no_healthy_node_no_target(
    nodes: Seq<NodeClient>,
    replies: Seq<JsonReply<PodList>>,
)
    requires
        forall|i: int| 0 <= i < nodes.len() ==> !(#[trigger] nodes[i]).healthy(),
    ensures
        none_eligible(nodes, replies),
{
}

/// A lookup that starts at `node` and meets no hit asks every node from
/// there to the last, and ends without the pod.
pub proof fn lemma_lookup_without_hit(hits: Seq<bool>, node: int)
    requires
        0 <= node < hits.len(),
        forall|i: int| node <= i < hits.len() ==> !hits[i],
    ensures
        lookup_from(hits, node) == Probe::Missing,
        asked_from(hits, node) == hits.len() - node,
    decreases hits.len() - node,
{
    if node + 1 < hits.len() {
        lemma_lookup_without_hit(hits, node + 1);
    }
}

/// A lookup that starts at `node` stops at the first node from there on
/// that has the pod, and has asked no node after it.
pub proof fn lemma_lookup_first_hit(hits: Seq<bool>, node: int, hit: int)
    requires
        0 <= node <= hit < hits.len(),
        hits[hit],
        forall|i: int| node <= i < hit ==> !hits[i],
    ensures
        lookup_from(hits, node) == (Probe::Found { node: hit }),
        asked_from(hits, node) == hit - node + 1,
    decreases hit - node,
{
    if node < hit {
        lemma_lookup_first_hit(hits, node + 1, hit);
    }
}

/// Under a name there is a first client, or none.
pub proof fn lemma_first_or_none(nodes: Seq<NodeClient>, name: Seq<char>) -> (i: int)
    ensures
        if i < nodes.len() {
            first_named(nodes, name, i)
        } else {
            none_named(nodes, name)
        },
    decreases nodes.len(),
{
    if nodes.len() == 0 {
        0
    } else {
        let before = nodes.drop_last();
        let j = lemma_first_or_none(before, name);
        if j < before.len() {
            assert(before.take(j) =~= nodes.take(j));
            assert(before[j] == nodes[j]);
            j
        } else if nodes.last().name@ == name {
            assert(nodes.take(nodes.len() - 1) =~= before);
            nodes.len() - 1
        } else {
            assert forall|k: int| 0 <= k < nodes.len() implies (#[trigger] nodes[k]).name@
                != name by {
                if k < before.len() {
                    assert(before[k] == nodes[k]);
                }
            }
            nodes.len() as int
        }
    }
}

/// Registering a client keeps the names distinct.
pub proof fn lemma_registered_distinct(nodes: Seq<NodeClient>, client: NodeClient)
    requires
        distinct_names(nodes),
    ensures
        distinct_names(registered(nodes, client)),
{
    let i = lemma_first_or_none(nodes, client.name@);
    if i < nodes.len() {
        lemma_registered_at(nodes, client, i);
    } else {
        lemma_registered_new(nodes, client);
    }
}

/// In a registry no two clients share a name.
pub proof fn lemma_registry_distinct(clients: Seq<NodeClient>)
    ensures
        distinct_names(registry_of(clients)),
    decreases clients.len(),
{
    if clients.len() > 0 {
        lemma_registry_distinct(clients.drop_last());
        lemma_registered_distinct(registry_of(clients.drop_last()), clients.last());
    }
}

/// Clients with distinct names are registered as they come.
pub proof fn lemma_registry_of_distinct(clients: Seq<NodeClient>)
    requires
        distinct_names(clients),
    ensures
        registry_of(clients) == clients,
    decreases clients.len(),
{
    if clients.len() > 0 {
        let before = clients.drop_last();
        lemma_registry_of_distinct(before);
        lemma_registered_new(before, clients.last());
        assert(before.push(clients.last()) =~= clients);
    }
}

/// Where names are distinct, the call that deletes a pod found on node
/// `owner` goes to that node and to no other.
pub proof fn lemma_delete_goes_to_owner(nodes: Seq<NodeClient>, owner: int, routed: int)
    requires
        distinct_names(nodes),
        0 <= owner < nodes.len(),
        first_named(nodes, nodes[owner].name@, routed),
    ensures
        routed == owner,
{
}

/// Once stopped, the health checker stays stopped and asks for no ping; a
/// shutdown stops it from any state.
pub proof fn lemma_health_checker_stops(state: HealthState, event: HealthEvent)
    ensures
        health_step(HealthState::Stopped, event) == (HealthState::Stopped, HealthAction::Stop),
        health_step(state, HealthEvent::Shutdown) == (HealthState::Stopped, HealthAction::Stop),
        health_step(state, HealthEvent::Tick).1 == HealthAction::PingAll <==> state
            != HealthState::Stopped,
{
}

/// The registry of node clients.
#[derive(Debug)]
pub struct Aggregator {
    clients: Vec<NodeClient>,
}

impl View for Aggregator {
    type V = Seq<NodeClient>;

    /// The clients in registry order.
    closed spec fn view(&self) -> Seq<NodeClient> {
        self.clients@
    }
}

impl Aggregator {
    /// The position of the first client called `name`.
    pub fn find(&self, name: &str) -> (found: Option<usize>)
        ensures
            match found {
                Some(i) => first_named(self@, name@, i as int),
                None => none_named(self@, name@),
            },
    {
        let mut i: usize = 0;
        while i < self.clients.len()
            invariant
                i <= self.clients@.len(),
                none_named(self.clients@.take(i as int), name@),
            decreases self.clients@.len() - i,
        {
            if same_text(self.clients[i].name.as_str(), name) {
                return Some(i);
            }
            assert(none_named(self.clients@.take(i + 1), name@)) by {
                assert forall|j: int| 0 <= j < i + 1 implies (#[trigger] self.clients@.take(
                    i + 1,
                )[j]).name@ != name@ by {
                    if j < i {
                        assert(self.clients@.take(i as int)[j] == self.clients@.take(i + 1)[j]);
                    }
                }
            }
            i = i + 1;
        }
        assert(self.clients@.take(i as int) =~= self.clients@);
        None
    }

    /// Registers `client` under its name.
    fn register(&mut self, client: NodeClient)
        ensures
            final(self)@ == registered(old(self)@, client),
    {
        match self.find(client.name.as_str()) {
            Some(i) => {
                proof {
                    lemma_registered_at(self.clients@, client, i as int);
                }
                self.clients.set(i, client);
            },
            None => {
                proof {
                    lemma_registered_new(self.clients@, client);
                }
                self.clients.push(client);
            },
        }
    }

    /// The registry of `clients`. Of two clients with one name the later
    /// takes the place of the earlier.
    pub fn new(clients: Vec<NodeClient>) -> (agg: Self)
        ensures
            agg@ == registry_of(clients@),
    {
        let mut agg = Aggregator { clients: Vec::new() };
        for client in it: clients
            invariant
                it.seq() == clients@,
                agg@ == registry_of(clients@.take(it.index() as int)),
        {
            proof {
                let next = clients@.take(it.index() + 1);
                assert(next.drop_last() =~= clients@.take(it.index() as int));
                assert(next.last() == client);
            }
            agg.register(client);
        }
        assert(clients@.take(clients@.len() as int) =~= clients@);
        agg
    }

    /// The number of registered clients.
    pub fn node_count(&self) -> (n: usize)
        ensures
            n == self@.len(),
    {
        self.clients.len()
    }

    /// The client at place `i` of the registry.
    pub fn client(&self, i: usize) -> (c: &NodeClient)
        requires
            i < self@.len(),
        ensures
            *c == self@[i as int],
    {
        &self.clients[i]
    }

    /// A copy of the registry as it stands.
    pub fn snapshot(&self) -> (copy: Vec<NodeClient>)
        ensures
            copy@ == self@,
    {
        let mut copy: Vec<NodeClient> = Vec::new();
        let mut i: usize = 0;
        while i < self.clients.len()
            invariant
                i <= self.clients@.len(),
                copy@ == self.clients@.take(i as int),
            decreases self.clients@.len() - i,
        {
            copy.push(self.clients[i].clone());
            assert(copy@ =~= self.clients@.take(i + 1));
            i = i + 1;
        }
        assert(self.clients@.take(i as int) =~= self.clients@);
        copy
    }

    /// The call that lists the pods of each node, in registry order.
    pub fn list_all_pods_requests(&self) -> (requests: Vec<Request>)
        ensures
            requests@.len() == self@.len(),
            forall|i: int|
                0 <= i < self@.len() ==> {
                    &&& (#[trigger] requests@[i]).method == Method::Get
                    &&& requests@[i].url@ == self@[i].address@ + pods_path()
                    &&& requests@[i].accept_json
                    &&& !requests@[i].json_body
                },
    {
        let mut requests: Vec<Request> = Vec::new();
        let mut i: usize = 0;
        while i < self.clients.len()
            invariant
                i <= self.clients@.len(),
                requests@.len() == i,
                forall|k: int|
                    0 <= k < i ==> {
                        &&& (#[trigger] requests@[k]).method == Method::Get
                        &&& requests@[k].url@ == self.clients@[k].address@
                            + pods_path()
                        &&& requests@[k].accept_json
                        &&& !requests@[k].json_body
                    },
            decreases self.clients@.len() - i,
        {
            requests.push(self.clients[i].list_pods_request());
            i = i + 1;
        }
        requests
    }

    /// Merges what the nodes answered to `list_all_pods_requests`, one reply
    /// per node in registry order. The pods of a node whose call failed are
    /// left out; every other pod is stamped with the name of its node. The
    /// merge itself never fails.
    pub fn list_all_pods(&self, replies: Vec<JsonReply<PodList>>) -> (r: Result<
        Vec<Pod>,
        ClusterError,
    >)
        requires
            replies@.len() == self@.len(),
        ensures
            r is Ok,
            merged(self@, replies@, r->Ok_0@),
            r->Ok_0@.len() == total_reported(replies@),
            forall|k: int|
                0 <= k < r->Ok_0@.len() ==> (#[trigger] r->Ok_0@[k]).owner() == Some(
                    self@[sources(replies@)[k].node].name@,
                ),
    {
        let mut all_pods: Vec<Pod> = Vec::new();
        let mut node: usize = 0;
        for reply in it: replies
            invariant
                it.seq() == replies@,
                replies@.len() == self.clients@.len(),
                node == it.index(),
                merged(self.clients@, replies@.take(it.index() as int), all_pods@),
        {
            let ghost i = it.index() as int;
            let ghost before = replies@.take(i);
            let ghost upto = replies@.take(i + 1);
            proof {
                assert(upto.drop_last() =~= before);
                assert(upto.last() == reply);
            }
            match self.clients[node].list_pods(reply) {
                Ok(list) => {
                    let ghost items = list.items@;
                    let ghost base = all_pods@;
                    for pod in inner: list.items
                        invariant
                            inner.seq() == items,
                            node == i,
                            node < self.clients@.len(),
                            all_pods@.len() == base.len() + inner.index(),
                            forall|k: int| 0 <= k < base.len() ==> all_pods@[k] == base[k],
                            forall|j: int|
                                0 <= j < inner.index() ==> (#[trigger] all_pods@[base.len()
                                    + j]).stamped_from(items[j], self.clients@[i].name@),
                    {
                        let stamped = pod.stamp(self.clients[node].name.as_str());
                        all_pods.push(stamped);
                    }
                    proof {
                        assert(reported(upto, i) == items);
                        assert forall|k: int| 0 <= k < all_pods@.len() implies (
                        #[trigger] all_pods@[k]).stamped_from(
                            sources(upto)[k].pod,
                            self.clients@[sources(upto)[k].node].name@,
                        ) by {
                            if k < base.len() {
                                assert(all_pods@[k] == base[k]);
                                assert(sources(upto)[k] == sources(before)[k]);
                            } else {
                                let j = k - base.len();
                                assert(all_pods@[base.len() + j].stamped_from(
                                    items[j],
                                    self.clients@[i].name@,
                                ));
                            }
                        }
                    }
                },
                Err(_) => {
                    proof {
                        assert(reported(upto, i).len() == 0);
                        assert(sources(upto) =~= sources(before));
                    }
                },
            }
            assert(node < self.clients.len());
            node = node + 1;
        }
        proof {
            assert(replies@.take(replies@.len() as int) =~= replies@);
            lemma_sources(replies@);
        }
        Ok(all_pods)
    }

    /// The call that fetches the record of each node, in registry order.
    pub fn list_all_nodes_requests(&self) -> (requests: Vec<Request>)
        ensures
            requests@.len() == self@.len(),
            forall|i: int|
                0 <= i < self@.len() ==> {
                    &&& (#[trigger] requests@[i]).method == Method::Get
                    &&& requests@[i].url@ == self@[i].address@ + node_path(
                        self@[i].name@,
                    )
                    &&& requests@[i].accept_json
                    &&& !requests@[i].json_body
                },
    {
        let mut requests: Vec<Request> = Vec::new();
        let mut i: usize = 0;
        while i < self.clients.len()
            invariant
                i <= self.clients@.len(),
                requests@.len() == i,
                forall|k: int|
                    0 <= k < i ==> {
                        &&& (#[trigger] requests@[k]).method == Method::Get
                        &&& requests@[k].url@ == self.clients@[k].address@
                            + node_path(self.clients@[k].name@)
                        &&& requests@[k].accept_json
                        &&& !requests@[k].json_body
                    },
            decreases self.clients@.len() - i,
        {
            requests.push(self.clients[i].get_node_request());
            i = i + 1;
        }
        requests
    }

    /// Merges what the nodes answered to `list_all_nodes_requests`: the
    /// records that came back, in the order of the replies. The merge itself
    /// never fails.
    pub fn list_all_nodes(&self, replies: Vec<JsonReply<Node>>) -> (r: Result<
        Vec<Node>,
        ClusterError,
    >)
        ensures
            r is Ok,
            r->Ok_0@ == successes(replies@),
    {
        let mut nodes: Vec<Node> = Vec::new();
        for reply in it: replies
            invariant
                it.seq() == replies@,
                nodes@ == successes(replies@.take(it.index() as int)),
        {
            proof {
                let upto = replies@.take(it.index() + 1);
                assert(upto.drop_last() =~= replies@.take(it.index() as int));
                assert(upto.last() == reply);
            }
            match reply.read_json() {
                Ok(node) => {
                    nodes.push(node);
                },
                Err(_) => {},
            }
        }
        assert(replies@.take(replies@.len() as int) =~= replies@);
        Ok(nodes)
    }

    /// Starts a lookup for the pod `name` of namespace `ns`: asks the first
    /// node of the registry, or fails where there is none.
    pub fn get_pod_start(&self, ns: &str, name: &str) -> (step: PodLookup)
        ensures
            step.probe() == first_probe(self@.len() as int),
            match step {
                PodLookup::Ask { node, request } => request.is_call(
                    Method::Get,
                    self@[node as int].address@ + pod_path(ns@, name@),
                    true,
                    false,
                ),
                PodLookup::Found { .. } => false,
                PodLookup::Failed { error } => error matches ClusterError::PodNotFound {
                    namespace,
                    name: pod_name,
                } && namespace@ == ns@ && pod_name@ == name@,
            },
    {
        if self.clients.len() == 0 {
            PodLookup::Failed {
                error: ClusterError::PodNotFound {
                    namespace: String::from_str(ns),
                    name: String::from_str(name),
                },
            }
        } else {
            PodLookup::Ask { node: 0, request: self.clients[0].get_pod_request(ns, name) }
        }
    }

    /// Goes on with a lookup after node `node` answered. A pod that came
    /// back ends the lookup: it is stamped with the node's name. Any failure
    /// moves the lookup to the next node, and past the last node it fails
    /// with `PodNotFound`.
    pub fn get_pod(&self, ns: &str, name: &str, node: usize, reply: JsonReply<Pod>) -> (step:
        PodLookup)
        requires
            node < self@.len(),
        ensures
            step.probe() == next_probe(self@.len() as int, node as int, reply.outcome() is Ok),
            match step {
                PodLookup::Ask { node: next, request } => request.is_call(
                    Method::Get,
                    self@[next as int].address@ + pod_path(ns@, name@),
                    true,
                    false,
                ),
                PodLookup::Found { node: owner, pod, node_name } => {
                    &&& pod.stamped_from(reply.outcome()->Ok_0, self@[owner as int].name@)
                    &&& node_name == self@[owner as int].name
                },
                PodLookup::Failed { error } => error matches ClusterError::PodNotFound {
                    namespace,
                    name: pod_name,
                } && namespace@ == ns@ && pod_name@ == name@,
            },
    {
        let n = self.clients.len();
        assert(node < n);
        match self.clients[node].get_pod(reply) {
            Ok(pod) => {
                let node_name = self.clients[node].name.clone();
                let stamped = pod.stamp(node_name.as_str());
                PodLookup::Found { node, pod: stamped, node_name }
            },
            Err(_) => {
                if node + 1 < n {
                    PodLookup::Ask {
                        node: node + 1,
                        request: self.clients[node + 1].get_pod_request(ns, name),
                    }
                } else {
                    PodLookup::Failed {
                        error: ClusterError::PodNotFound {
                            namespace: String::from_str(ns),
                            name: String::from_str(name),
                        },
                    }
                }
            },
        }
    }

    /// The pod counts to ask for before `pod` is placed: the pod list of
    /// each healthy node where the pod names no node, and nothing at all
    /// where it names one.
    pub fn create_pod_survey(&self, pod: &Pod) -> (calls: Vec<Option<Request>>)
        ensures
            calls@.len() == self@.len(),
            forall|i: int|
                0 <= i < self@.len() ==> match #[trigger] calls@[i] {
                    Some(request) => {
                        &&& pod.spec.node_name@.len() == 0
                        &&& self@[i].healthy()
                        &&& request.is_call(
                            Method::Get,
                            self@[i].address@ + pods_path(),
                            true,
                            false,
                        )
                    },
                    None => pod.spec.node_name@.len() > 0 || !self@[i].healthy(),
                },
    {
        let scheduled = pod.spec.node_name.as_str().is_empty();
        let mut calls: Vec<Option<Request>> = Vec::new();
        let mut i: usize = 0;
        while i < self.clients.len()
            invariant
                i <= self.clients@.len(),
                calls@.len() == i,
                scheduled == (pod.spec.node_name@.len() == 0),
                forall|k: int|
                    0 <= k < i ==> match #[trigger] calls@[k] {
                        Some(request) => {
                            &&& pod.spec.node_name@.len() == 0
                            &&& self.clients@[k].healthy()
                            &&& request.is_call(
                                Method::Get,
                                self.clients@[k].address@ + pods_path(),
                                true,
                                false,
                            )
                        },
                        None => pod.spec.node_name@.len() > 0 || !self.clients@[k].healthy(),
                    },
            decreases self.clients@.len() - i,
        {
            if scheduled && self.clients[i].is_healthy() {
                calls.push(Some(self.clients[i].list_pods_request()));
            } else {
                calls.push(None);
            }
            i = i + 1;
        }
        calls
    }

    /// The eligible node with the fewest pods, the first of them in registry
    /// order.
    pub fn schedule(&self, replies: &Vec<JsonReply<PodList>>) -> (target: Option<usize>)
        requires
            replies@.len() == self@.len(),
        ensures
            match target {
                Some(i) => least_loaded(self@, replies@, i as int),
                None => none_eligible(self@, replies@),
            },
    {
        let mut target: Option<usize> = None;
        let mut min_pods: usize = usize::MAX;
        let mut i: usize = 0;
        while i < self.clients.len()
            invariant
                i <= self.clients@.len(),
                replies@.len() == self.clients@.len(),
                match target {
                    Some(t) => {
                        &&& t < i
                        &&& least_loaded(self.clients@.take(i as int), replies@.take(i as int), t as int)
                        &&& min_pods == reported(replies@, t as int).len()
                    },
                    None => none_eligible(self.clients@.take(i as int), replies@.take(i as int)),
                },
            decreases self.clients@.len() - i,
        {
            let ghost nodes = self.clients@.take(i as int);
            let ghost seen = replies@.take(i as int);
            let ghost nodes1 = self.clients@.take(i + 1);
            let ghost seen1 = replies@.take(i + 1);
            proof {
                assert forall|j: int| j < i implies eligible(nodes1, seen1, j) == eligible(
                    nodes,
                    seen,
                    j,
                ) by {
                    if 0 <= j {
                        assert(nodes1[j] == nodes[j]);
                        assert(seen1[j] == seen[j]);
                    }
                }
                assert forall|j: int| 0 <= j <= i implies reported(seen1, j) == reported(
                    replies@,
                    j,
                ) by {
                    assert(seen1[j] == replies@[j]);
                }
                assert forall|j: int| 0 <= j < i implies reported(seen, j) == reported(
                    replies@,
                    j,
                ) by {
                    assert(seen[j] == replies@[j]);
                }
                assert(nodes1[i as int] == self.clients@[i as int]);
                assert(seen1[i as int] == replies@[i as int]);
            }
            let mut taken = false;
            if self.clients[i].is_healthy() {
                match &replies[i].reply {
                    Reply::Lost => {},
                    Reply::Answer { status, .. } => {
                        if *status < 400 {
                            match &replies[i].value {
                                Some(list) => {
                                    assert(eligible(nodes1, seen1, i as int));
                                    assert(reported(replies@, i as int) == list.items@);
                                    if target.is_none() || list.items.len() < min_pods {
                                        min_pods = list.items.len();
                                        target = Some(i);
                                        taken = true;
                                    }
                                },
                                None => {},
                            }
                        }
                    },
                }
            }
            proof {
                if taken {
                    assert(least_loaded(nodes1, seen1, i as int)) by {
                        assert forall|j: int| #[trigger]
                            eligible(nodes1, seen1, j) implies {
                            &&& reported(seen1, i as int).len() <= reported(seen1, j).len()
                            &&& j < i ==> reported(seen1, i as int).len() < reported(
                                seen1,
                                j,
                            ).len()
                        } by {
                            if j < i {
                                assert(eligible(nodes, seen, j));
                            }
                        }
                    }
                } else {
                    match target {
                        Some(t) => {
                            assert(least_loaded(nodes1, seen1, t as int)) by {
                                assert(eligible(nodes, seen, t as int));
                                assert forall|j: int| #[trigger]
                                    eligible(nodes1, seen1, j) implies {
                                    &&& reported(seen1, t as int).len() <= reported(
                                        seen1,
                                        j,
                                    ).len()
                                    &&& j < t ==> reported(seen1, t as int).len() < reported(
                                        seen1,
                                        j,
                                    ).len()
                                } by {
                                    if j < i {
                                        assert(eligible(nodes, seen, j));
                                    }
                                }
                            }
                        },
                        None => {
                            assert forall|j: int| !eligible(nodes1, seen1, j) by {
                                if j < i {
                                    assert(!eligible(nodes, seen, j));
                                }
                            }
                        },
                    }
                }
            }
            i = i + 1;
        }
        proof {
            assert(self.clients@.take(i as int) =~= self.clients@);
            assert(replies@.take(i as int) =~= replies@);
        }
        target
    }

    /// Places `pod`. A pod that names its node goes to the first client of
    /// that name, and fails with `NodeNotFound` where there is none. Any
    /// other pod goes to the healthy node that reported the fewest pods in
    /// `replies` (one reply per node in registry order, as asked for by
    /// `create_pod_survey`), the first of those in registry order, and fails
    /// with `NoHealthyNodes` where no healthy node reported. A failure goes
    /// with no call to any node.
    pub fn create_pod(&self, pod: &Pod, replies: &Vec<JsonReply<PodList>>) -> (r: Result<
        Routed,
        ClusterError,
    >)
        requires
            replies@.len() == self@.len(),
        ensures
            match r {
                Ok(routed) => {
                    &&& routed.node < self@.len()
                    &&& routed.request.is_call(
                        Method::Post,
                        self@[routed.node as int].address@ + namespaced_pods_path(
                            pod.metadata.namespace@,
                        ),
                        true,
                        true,
                    )
                    &&& if pod.spec.node_name@.len() > 0 {
                        first_named(self@, pod.spec.node_name@, routed.node as int)
                    } else {
                        least_loaded(self@, replies@, routed.node as int)
                    }
                },
                Err(error) => if pod.spec.node_name@.len() > 0 {
                    &&& none_named(self@, pod.spec.node_name@)
                    &&& error matches ClusterError::NodeNotFound { name }
                    &&& name@ == pod.spec.node_name@
                } else {
                    &&& none_eligible(self@, replies@)
                    &&& error is NoHealthyNodes
                },
            },
    {
        let target = if !pod.spec.node_name.as_str().is_empty() {
            match self.find(pod.spec.node_name.as_str()) {
                Some(i) => i,
                None => {
                    return Err(ClusterError::NodeNotFound { name: pod.spec.node_name.clone() });
                },
            }
        } else {
            match self.schedule(replies) {
                Some(i) => i,
                None => {
                    return Err(ClusterError::NoHealthyNodes);
                },
            }
        };
        Ok(Routed { node: target, request: self.clients[target].create_pod_request(pod) })
    }

    /// The call that deletes the pod `name` of namespace `ns` on the node
    /// `owner`, which a lookup found to hold it: one call, to that node.
    pub fn delete_pod(&self, owner: &str, ns: &str, name: &str) -> (r: Result<Routed, ClusterError>)
        ensures
            match r {
                Ok(routed) => {
                    &&& first_named(self@, owner@, routed.node as int)
                    &&& routed.request.is_call(
                        Method::Delete,
                        self@[routed.node as int].address@ + pod_path(ns@, name@),
                        false,
                        false,
                    )
                },
                Err(error) => {
                    &&& none_named(self@, owner@)
                    &&& error matches ClusterError::NodeNotFound { name: missing }
                    &&& missing@ == owner@
                },
            },
    {
        match self.find(owner) {
            Some(i) => Ok(
                Routed { node: i, request: self.clients[i].delete_pod_request(ns, name) },
            ),
            None => Err(ClusterError::NodeNotFound { name: String::from_str(owner) }),
        }
    }

    /// The call that fetches the log of the pod `name` of namespace `ns`
    /// from the node `owner`, which a lookup found to hold it.
    pub fn get_pod_log(&self, owner: &str, ns: &str, name: &str) -> (r: Result<
        Routed,
        ClusterError,
    >)
        ensures
            match r {
                Ok(routed) => {
                    &&& first_named(self@, owner@, routed.node as int)
                    &&& routed.request.is_call(
                        Method::Get,
                        self@[routed.node as int].address@ + pod_log_path(ns@, name@),
                        false,
                        false,
                    )
                },
                Err(error) => {
                    &&& none_named(self@, owner@)
                    &&& error matches ClusterError::NodeNotFound { name: missing }
                    &&& missing@ == owner@
                },
            },
    {
        match self.find(owner) {
            Some(i) => Ok(
                Routed { node: i, request: self.clients[i].get_pod_log_request(ns, name) },
            ),
            None => Err(ClusterError::NodeNotFound { name: String::from_str(owner) }),
        }
    }

    /// The call that fetches the record of the node `name`.
    pub fn get_node(&self, name: &str) -> (r: Result<Routed, ClusterError>)
        ensures
            match r {
                Ok(routed) => {
                    &&& first_named(self@, name@, routed.node as int)
                    &&& routed.request.is_call(
                        Method::Get,
                        self@[routed.node as int].address@ + node_path(name@),
                        true,
                        false,
                    )
                },
                Err(error) => {
                    &&& none_named(self@, name@)
                    &&& error matches ClusterError::NodeNotFound { name: missing }
                    &&& missing@ == name@
                },
            },
    {
        match self.find(name) {
            Some(i) => Ok(Routed { node: i, request: self.clients[i].get_node_request() }),
            None => Err(ClusterError::NodeNotFound { name: String::from_str(name) }),
        }
    }

    /// The health probe of each node, in registry order.
    pub fn ping_all_requests(&self) -> (requests: Vec<Request>)
        ensures
            requests@.len() == self@.len(),
            forall|i: int|
                0 <= i < self@.len() ==> (#[trigger] requests@[i]).is_call(
                    Method::Get,
                    self@[i].address@ + healthz_path(),
                    false,
                    false,
                ),
    {
        let mut requests: Vec<Request> = Vec::new();
        let mut i: usize = 0;
        while i < self.clients.len()
            invariant
                i <= self.clients@.len(),
                requests@.len() == i,
                forall|k: int|
                    0 <= k < i ==> (#[trigger] requests@[k]).is_call(
                        Method::Get,
                        self.clients@[k].address@ + healthz_path(),
                        false,
                        false,
                    ),
            decreases self.clients@.len() - i,
        {
            requests.push(self.clients[i].ping_request());
            i = i + 1;
        }
        requests
    }

    /// Records one round of health probes, one result per node in registry
    /// order. Each result touches the liveness of its own node and nothing
    /// else.
    pub fn ping_all(&mut self, results: &Vec<PingResult>)
        requires
            results@.len() == old(self)@.len(),
        ensures
            final(self)@.len() == old(self)@.len(),
            forall|i: int|
                0 <= i < old(self)@.len() ==> #[trigger] final(self)@[i] == old(self)@[i].after_ping(
                    results@[i].reply,
                    results@[i].at,
                ),
            distinct_names(old(self)@) ==> distinct_names(final(self)@),
    {
        let mut i: usize = 0;
        while i < self.clients.len()
            invariant
                i <= self.clients@.len(),
                self.clients@.len() == old(self).clients@.len(),
                results@.len() == self.clients@.len(),
                forall|k: int|
                    0 <= k < i ==> #[trigger] self.clients@[k] == old(self).clients@[k].after_ping(
                        results@[k].reply,
                        results@[k].at,
                    ),
                forall|k: int|
                    i <= k < self.clients@.len() ==> #[trigger] self.clients@[k] == old(
                        self,
                    ).clients@[k],
            decreases self.clients@.len() - i,
        {
            let mut client = self.clients[i].clone();
            let _ = client.ping(&results[i].reply, results[i].at);
            self.clients.set(i, client);
            i = i + 1;
        }
        proof {
            if distinct_names(old(self).clients@) {
                assert forall|a: int, b: int| 0 <= a < b < self.clients@.len() implies (
                #[trigger] self.clients@[a]).name@ != (#[trigger] self.clients@[b]).name@ by {
                    assert(self.clients@[a].name == old(self).clients@[a].name);
                    assert(self.clients@[b].name == old(self).clients@[b].name);
                }
            }
        }
    }

    /// One step of the health checker: see `health_step`.
    pub fn run_health_checker(state: HealthState, event: HealthEvent) -> (next: (
        HealthState,
        HealthAction,
    ))
        ensures
            next == health_step(state, event),
    {
        match state {
            HealthState::Stopped => (HealthState::Stopped, HealthAction::Stop),
            HealthState::Starting => match event {
                HealthEvent::Shutdown => (HealthState::Stopped, HealthAction::Stop),
                _ => (HealthState::Running, HealthAction::PingAll),
            },
            HealthState::Running => match event {
                HealthEvent::Shutdown => (HealthState::Stopped, HealthAction::Stop),
                HealthEvent::Tick => (HealthState::Running, HealthAction::PingAll),
                HealthEvent::Started => (HealthState::Running, HealthAction::Wait),
            },
        }
    }

    /// The cluster at a glance, from what the nodes answered to
    /// `list_all_pods_requests` (one reply per node in registry order). A
    /// node whose call failed counts no pods; the summary is made all the
    /// same. The two totals stop at the largest `usize`.
    pub fn get_cluster_summary(&self, replies: &Vec<JsonReply<PodList>>) -> (summary:
        ClusterSummary)
        requires
            replies@.len() == self@.len(),
        ensures
            summary.node_count == self@.len(),
            summary.healthy_nodes == healthy_among(self@),
            summary.pod_count == capped(total_reported(replies@)),
            summary.running_pods == capped(total_running(replies@)),
            summary.nodes@.len() == self@.len(),
            forall|i: int|
                0 <= i < self@.len() ==> {
                    &&& (#[trigger] summary.nodes@[i]).name == self@[i].name
                    &&& summary.nodes@[i].healthy == self@[i].healthy()
                    &&& summary.nodes@[i].pod_count == reported(replies@, i).len()
                    &&& summary.nodes@[i].last_ping == self@[i].pinged_at()
                },
    {
        let mut healthy_nodes: usize = 0;
        let mut pod_count: usize = 0;
        let mut running_pods: usize = 0;
        let mut nodes: Vec<NodeSummary> = Vec::new();
        let mut i: usize = 0;
        while i < self.clients.len()
            invariant
                i <= self.clients@.len(),
                replies@.len() == self.clients@.len(),
                healthy_nodes == healthy_among(self.clients@.take(i as int)),
                pod_count == capped(total_reported(replies@.take(i as int))),
                running_pods == capped(total_running(replies@.take(i as int))),
                nodes@.len() == i,
                forall|k: int|
                    0 <= k < i ==> {
                        &&& (#[trigger] nodes@[k]).name == self.clients@[k].name
                        &&& nodes@[k].healthy == self.clients@[k].healthy()
                        &&& nodes@[k].pod_count == reported(replies@, k).len()
                        &&& nodes@[k].last_ping == self.clients@[k].pinged_at()
                    },
            decreases self.clients@.len() - i,
        {
            let ghost upto = replies@.take(i + 1);
            proof {
                assert(self.clients@.take(i + 1).drop_last() =~= self.clients@.take(i as int));
                assert(upto.drop_last() =~= replies@.take(i as int));
                assert(upto[i as int] == replies@[i as int]);
                assert(reported(upto, i as int) == reported(replies@, i as int));
                lemma_healthy_among_bound(self.clients@.take(i as int));
            }
            let c = &self.clients[i];
            let mut ns = NodeSummary {
                name: c.name.clone(),
                healthy: c.is_healthy(),
                pod_count: 0,
                last_ping: c.last_ping(),
            };
            if c.is_healthy() {
                healthy_nodes = healthy_nodes + 1;
            }
            match &replies[i].reply {
                Reply::Lost => {},
                Reply::Answer { status, .. } => {
                    if *status < 400 {
                        match &replies[i].value {
                            Some(list) => {
                                let running = count_running(&list.items);
                                ns.pod_count = list.items.len();
                                pod_count = pod_count.saturating_add(list.items.len());
                                running_pods = running_pods.saturating_add(running);
                            },
                            None => {},
                        }
                    }
                },
            }
            nodes.push(ns);
            i = i + 1;
        }
        proof {
            assert(self.clients@.take(i as int) =~= self.clients@);
            assert(replies@.take(i as int) =~= replies@);
        }
        ClusterSummary {
            node_count: self.clients.len(),
            healthy_nodes,
            pod_count,
            running_pods,
            nodes,
        }
    }
}

/// The number of running pods among `pods`.
pub fn count_running(pods: &Vec<Pod>) -> (n: usize)
    ensures
        n == running_among(pods@),
{
    let mut n: usize = 0;
    let mut i: usize = 0;
    while i < pods.len()
        invariant
            i <= pods@.len(),
            n == running_among(pods@.take(i as int)),
        decreases pods@.len() - i,
    {
        proof {
            assert(pods@.take(i + 1).drop_last() =~= pods@.take(i as int));
            lemma_running_among_bound(pods@.take(i as int));
        }
        if same_text(pods[i].status.phase.as_str(), "Running") {
            n = n + 1;
        }
        i = i + 1;
    }
    assert(pods@.take(i as int) =~= pods@);
    n
}

} // verus!
