//! The node client: the proxy for one node agent and its liveness.
//!
//! Every operation of a node is one HTTP call. For each of them the client
//! says which call to make (`.._request`) and reads what came back (the
//! function named after the operation). Only `ping` changes the liveness.

pub mod aggregator;
pub mod transport;

use vstd::prelude::*;
use vstd::string::*;
use crate::clients::transport::{ClusterError, JsonReply, Method, Reply, Request};
use crate::models::k8s::{Node, Pod, PodList};
use crate::time::Timestamp;

verus! {

/// The path of the health probe.
pub open spec fn healthz_path() -> Seq<char> {
    "/healthz"@
}

/// The path of all pods of a node.
pub open spec fn pods_path() -> Seq<char> {
    "/api/v1/pods"@
}

/// The path of the watch on all pods of a node.
pub open spec fn watch_path() -> Seq<char> {
    "/api/v1/pods?watch=true"@
}

/// The path of the pods of the namespace `ns`.
pub open spec fn namespaced_pods_path(ns: Seq<char>) -> Seq<char> {
    "/api/v1/namespaces/"@ + ns + "/pods"@
}

/// The path of the pod `name` of the namespace `ns`.
pub open spec fn pod_path(ns: Seq<char>, name: Seq<char>) -> Seq<char> {
    "/api/v1/namespaces/"@ + ns + "/pods/"@ + name
}

/// The path of the log of a pod.
pub open spec fn pod_log_path(ns: Seq<char>, name: Seq<char>) -> Seq<char> {
    pod_path(ns, name) + "/log"@
}

/// The path of the log of one container of a pod.
pub open spec fn container_log_path(ns: Seq<char>, pod: Seq<char>, container: Seq<char>) -> Seq<
    char,
> {
    pod_log_path(ns, pod) + "?container="@ + container
}

/// The path of the record of the node `name`.
pub open spec fn node_path(name: Seq<char>) -> Seq<char> {
    "/api/v1/nodes/"@ + name
}

/// The liveness of one node, changed by pings alone.
#[derive(Debug, Clone, Copy)]
pub struct ClientState {
    healthy: bool,
    last_ping: Option<Timestamp>,
}

impl ClientState {
    /// Whether the node answered its last ping.
    pub closed spec fn healthy(self) -> bool {
        self.healthy
    }

    /// When the node last answered a ping.
    pub closed spec fn pinged_at(self) -> Option<Timestamp> {
        self.last_ping
    }

    /// The state as a ping leaves it: healthy and stamped with `now` after a
    /// success, unhealthy with the old stamp after a failure.
    pub closed spec fn after_ping(self, success: bool, now: Timestamp) -> ClientState {
        if success {
            ClientState { healthy: true, last_ping: Some(now) }
        } else {
            ClientState { healthy: false, last_ping: self.last_ping }
        }
    }

    /// What `after_ping` sets and what it keeps.
    pub broadcast proof fn after_ping_facts(self, success: bool, now: Timestamp)
        ensures
            (#[trigger] self.after_ping(success, now)).healthy() == success,
            self.after_ping(success, now).pinged_at() == if success {
                Some(now)
            } else {
                self.pinged_at()
            },
    {
    }

    /// The state of a node that was never pinged: healthy.
    fn initial() -> (s: Self)
        ensures
            s.healthy(),
            s.pinged_at() is None,
    {
        ClientState { healthy: true, last_ping: None }
    }

    fn record(&mut self, success: bool, now: Timestamp)
        ensures
            *final(self) == old(self).after_ping(success, now),
    {
        if success {
            self.healthy = true;
            self.last_ping = Some(now);
        } else {
            self.healthy = false;
        }
    }

    fn is_healthy(&self) -> (b: bool)
        ensures
            b == self.healthy(),
    {
        self.healthy
    }

    fn last_ping(&self) -> (t: Option<Timestamp>)
        ensures
            t == self.pinged_at(),
    {
        self.last_ping
    }
}

/// The proxy for one node agent: where it is, and whether it answered the
/// last ping.
#[derive(Debug)]
pub struct NodeClient {
    pub name: String,
    pub address: String,
    pub state: ClientState,
}

impl Clone for NodeClient {
    fn clone(&self) -> (c: Self)
        ensures
            c == *self,
    {
        NodeClient { name: self.name.clone(), address: self.address.clone(), state: self.state }
    }
}

impl NodeClient {
    /// Whether the node answered its last ping.
    pub open spec fn healthy(self) -> bool {
        self.state.healthy()
    }

    /// When the node last answered a ping.
    pub open spec fn pinged_at(self) -> Option<Timestamp> {
        self.state.pinged_at()
    }

    /// The client as a ping leaves it.
    pub open spec fn after_ping(self, reply: Reply, now: Timestamp) -> NodeClient {
        NodeClient {
            name: self.name,
            address: self.address,
            state: self.state.after_ping(reply.succeeded(), now),
        }
    }

    /// A client for the node `name` at `address`: healthy, and never pinged.
    pub fn new(name: String, address: String) -> (c: Self)
        ensures
            c.name == name,
            c.address == address,
            c.healthy(),
            c.pinged_at() is None,
    {
        NodeClient { name, address, state: ClientState::initial() }
    }

    /// The call to `path` on this node.
    fn request(&self, method: Method, path: &str, accept_json: bool, json_body: bool) -> (r:
        Request)
        ensures
            r.method == method,
            r.url@ == self.address@ + path@,
            r.accept_json == accept_json,
            r.json_body == json_body,
    {
        let mut url = self.address.clone();
        url.append(path);
        Request { method, url, accept_json, json_body }
    }

    /// The GET of `path` that asks for JSON.
    fn get_json(&self, path: &str) -> (r: Request)
        ensures
            r.method == Method::Get,
            r.url@ == self.address@ + path@,
            r.accept_json,
            !r.json_body,
    {
        self.request(Method::Get, path, true, false)
    }

    /// The POST to `path` that carries JSON and asks for JSON.
    fn post_json(&self, path: &str) -> (r: Request)
        ensures
            r.method == Method::Post,
            r.url@ == self.address@ + path@,
            r.accept_json,
            r.json_body,
    {
        self.request(Method::Post, path, true, true)
    }

    /// The health probe.
    pub fn ping_request(&self) -> (r: Request)
        ensures
            r.method == Method::Get,
            r.url@ == self.address@ + healthz_path(),
            !r.accept_json,
            !r.json_body,
    {
        self.request(Method::Get, "/healthz", false, false)
    }

    /// Records the outcome of a health probe. A success status makes the node
    /// healthy and stamps it with `now`; anything else makes it unhealthy.
    pub fn ping(&mut self, reply: &Reply, now: Timestamp) -> (r: Result<(), ClusterError>)
        ensures
            *final(self) == old(self).after_ping(*reply, now),
            reply.succeeded() ==> r is Ok,
            !reply.succeeded() ==> r == Err::<(), ClusterError>(ClusterError::Unreachable),
    {
        let success = reply.is_success();
        self.state.record(success, now);
        if success {
            Ok(())
        } else {
            Err(ClusterError::Unreachable)
        }
    }

    /// Whether the node answered its last ping.
    pub fn is_healthy(&self) -> (b: bool)
        ensures
            b == self.healthy(),
    {
        self.state.is_healthy()
    }

    /// When the node last answered a ping.
    pub fn last_ping(&self) -> (t: Option<Timestamp>)
        ensures
            t == self.pinged_at(),
    {
        self.state.last_ping()
    }

    /// The call that lists the node's pods.
    pub fn list_pods_request(&self) -> (r: Request)
        ensures
            r.method == Method::Get,
            r.url@ == self.address@ + pods_path(),
            r.accept_json,
            !r.json_body,
    {
        self.get_json("/api/v1/pods")
    }

    /// Reads the answer to `list_pods_request`.
    pub fn list_pods(&self, reply: JsonReply<PodList>) -> (r: Result<PodList, ClusterError>)
        ensures
            r == reply.outcome(),
    {
        reply.read_json()
    }

    /// The call that fetches the pod `name` of namespace `ns`.
    pub fn get_pod_request(&self, ns: &str, name: &str) -> (r: Request)
        ensures
            r.method == Method::Get,
            r.url@ == self.address@ + pod_path(ns@, name@),
            r.accept_json,
            !r.json_body,
    {
        let mut path = String::from_str("/api/v1/namespaces/");
        path.append(ns);
        path.append("/pods/");
        path.append(name);
        assert(path@ =~= pod_path(ns@, name@));
        self.get_json(path.as_str())
    }

    /// Reads the answer to `get_pod_request`.
    pub fn get_pod(&self, reply: JsonReply<Pod>) -> (r: Result<Pod, ClusterError>)
        ensures
            r == reply.outcome(),
    {
        reply.read_json()
    }

    /// The call that creates `pod` in the pod's own namespace; the pod is the
    /// body.
    pub fn create_pod_request(&self, pod: &Pod) -> (r: Request)
        ensures
            r.method == Method::Post,
            r.url@ == self.address@ + namespaced_pods_path(pod.metadata.namespace@),
            r.accept_json,
            r.json_body,
    {
        let mut path = String::from_str("/api/v1/namespaces/");
        path.append(pod.metadata.namespace.as_str());
        path.append("/pods");
        assert(path@ =~= namespaced_pods_path(pod.metadata.namespace@));
        self.post_json(path.as_str())
    }

    /// Reads the answer to `create_pod_request`: the pod as the node holds it.
    pub fn create_pod(&self, reply: JsonReply<Pod>) -> (r: Result<Pod, ClusterError>)
        ensures
            r == reply.outcome(),
    {
        reply.read_json()
    }

    /// The call that deletes the pod `name` of namespace `ns`.
    pub fn delete_pod_request(&self, ns: &str, name: &str) -> (r: Request)
        ensures
            r.method == Method::Delete,
            r.url@ == self.address@ + pod_path(ns@, name@),
            !r.accept_json,
            !r.json_body,
    {
        let mut path = String::from_str("/api/v1/namespaces/");
        path.append(ns);
        path.append("/pods/");
        path.append(name);
        assert(path@ =~= pod_path(ns@, name@));
        self.request(Method::Delete, path.as_str(), false, false)
    }

    /// Reads the answer to `delete_pod_request`: any status that is not an
    /// error is a success.
    pub fn delete_pod(&self, reply: Reply) -> (r: Result<(), ClusterError>)
        ensures
            r == match reply.text_outcome() {
                Ok(_) => Ok::<(), ClusterError>(()),
                Err(e) => Err(e),
            },
    {
        match reply.read_text() {
            Ok(_) => Ok(()),
            Err(e) => Err(e),
        }
    }

    /// The call that fetches the log of the pod `name` of namespace `ns`.
    pub fn get_pod_log_request(&self, ns: &str, name: &str) -> (r: Request)
        ensures
            r.method == Method::Get,
            r.url@ == self.address@ + pod_log_path(ns@, name@),
            !r.accept_json,
            !r.json_body,
    {
        let mut path = String::from_str("/api/v1/namespaces/");
        path.append(ns);
        path.append("/pods/");
        path.append(name);
        path.append("/log");
        assert(path@ =~= pod_log_path(ns@, name@));
        self.request(Method::Get, path.as_str(), false, false)
    }

    /// Reads the answer to `get_pod_log_request`: the log as raw text.
    pub fn get_pod_log(&self, reply: Reply) -> (r: Result<String, ClusterError>)
        ensures
            r == reply.text_outcome(),
    {
        reply.read_text()
    }

    /// The call that fetches this node's own record.
    pub fn get_node_request(&self) -> (r: Request)
        ensures
            r.method == Method::Get,
            r.url@ == self.address@ + node_path(self.name@),
            r.accept_json,
            !r.json_body,
    {
        let mut path = String::from_str("/api/v1/nodes/");
        path.append(self.name.as_str());
        self.get_json(path.as_str())
    }

    /// Reads the answer to `get_node_request`.
    pub fn get_node(&self, reply: JsonReply<Node>) -> (r: Result<Node, ClusterError>)
        ensures
            r == reply.outcome(),
    {
        reply.read_json()
    }

    /// The call that opens a watch on the node's pods.
    pub fn watch_pods_request(&self) -> (r: Request)
        ensures
            r.method == Method::Get,
            r.url@ == self.address@ + watch_path(),
            r.accept_json,
            !r.json_body,
    {
        self.get_json("/api/v1/pods?watch=true")
    }

    /// Reads the answer to `watch_pods_request`: the change records that the
    /// node had buffered, one per line, still unparsed.
    pub fn watch_pods(&self, reply: Reply) -> (r: Result<String, ClusterError>)
        ensures
            r == reply.text_outcome(),
    {
        reply.read_text()
    }

    /// The call that fetches the log of one container of a pod.
    pub fn get_container_log_request(&self, ns: &str, pod_name: &str, container_name: &str) -> (r:
        Request)
        ensures
            r.method == Method::Get,
            r.url@ == self.address@ + container_log_path(ns@, pod_name@, container_name@),
            !r.accept_json,
            !r.json_body,
    {
        let mut path = String::from_str("/api/v1/namespaces/");
        path.append(ns);
        path.append("/pods/");
        path.append(pod_name);
        path.append("/log");
        path.append("?container=");
        path.append(container_name);
        assert(path@ =~= container_log_path(ns@, pod_name@, container_name@));
        self.request(Method::Get, path.as_str(), false, false)
    }

    /// Reads the answer to `get_container_log_request`: the log as raw text.
    pub fn get_container_log(&self, reply: Reply) -> (r: Result<String, ClusterError>)
        ensures
            r == reply.text_outcome(),
    {
        reply.read_text()
    }
}

} // verus!
