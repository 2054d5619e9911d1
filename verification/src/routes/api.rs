//! The bodies that the API answers with.

use vstd::prelude::*;
use vstd::string::*;
use crate::models::k8s::{
    ApiResource, ApiResourceList, ApiVersions, Node, NodeList, Pod, PodList,
    ServerAddressByClientCidr, Status, TypeMeta,
};
use crate::models::string_map::same_text;
use crate::text::{quote, quoted, texts};

verus! {

/// The pods of one namespace.
pub open spec fn in_namespace(namespace: Seq<char>) -> spec_fn(Pod) -> bool {
    |pod: Pod| pod.metadata.namespace@ == namespace
}

/// `resource` is the entry of the resource `name`.
pub open spec fn describes(
    resource: ApiResource,
    name: Seq<char>,
    namespaced: bool,
    kind: Seq<char>,
    verbs: Seq<Seq<char>>,
) -> bool {
    &&& resource.name@ == name
    &&& resource.namespaced == namespaced
    &&& resource.kind@ == kind
    &&& texts(resource.verbs@) == verbs
}

fn type_meta(kind: &str) -> (meta: TypeMeta)
    ensures
        meta.api_version@ == "v1"@,
        meta.kind@ == kind@,
{
    TypeMeta { api_version: String::from_str("v1"), kind: String::from_str(kind) }
}

/// The versions of the API: `v1`, served at `listen_addr` for every client.
pub fn api_versions(listen_addr: String) -> (versions: ApiVersions)
    ensures
        versions.kind@ == "APIVersions"@,
        texts(versions.versions@) == seq!["v1"@],
        versions.server_address_by_client_cidrs@.len() == 1,
        versions.server_address_by_client_cidrs@[0].client_cidr@ == "0.0.0.0/0"@,
        versions.server_address_by_client_cidrs@[0].server_address == listen_addr,
{
    let mut versions: Vec<String> = Vec::new();
    versions.push(String::from_str("v1"));
    assert(texts(versions@) =~= seq!["v1"@]);
    let mut cidrs: Vec<ServerAddressByClientCidr> = Vec::new();
    cidrs.push(
        ServerAddressByClientCidr {
            client_cidr: String::from_str("0.0.0.0/0"),
            server_address: listen_addr,
        },
    );
    ApiVersions {
        kind: String::from_str("APIVersions"),
        versions,
        server_address_by_client_cidrs: cidrs,
    }
}

fn resource(name: &str, namespaced: bool, kind: &str, first: &str, more: bool) -> (r: ApiResource)
    ensures
        describes(
            r,
            name@,
            namespaced,
            kind@,
            if more {
                seq![first@, "list"@]
            } else {
                seq![first@]
            },
        ),
{
    let mut verbs: Vec<String> = Vec::new();
    verbs.push(String::from_str(first));
    if more {
        verbs.push(String::from_str("list"));
        assert(texts(verbs@) =~= seq![first@, "list"@]);
    } else {
        assert(texts(verbs@) =~= seq![first@]);
    }
    ApiResource { name: String::from_str(name), namespaced, kind: String::from_str(kind), verbs }
}

/// The resources of the API: pods with their logs and status, namespaces
/// and nodes, each with the verbs that it takes.
pub fn api_resources() -> (list: ApiResourceList)
    ensures
        list.kind@ == "APIResourceList"@,
        list.group_version@ == "v1"@,
        list.api_resources@.len() == 5,
        describes(
            list.api_resources@[0],
            "pods"@,
            true,
            "Pod"@,
            seq!["get"@, "list"@, "create"@, "delete"@],
        ),
        describes(list.api_resources@[1], "pods/log"@, true, "Pod"@, seq!["get"@]),
        describes(list.api_resources@[2], "pods/status"@, true, "Pod"@, seq!["get"@]),
        describes(
            list.api_resources@[3],
            "namespaces"@,
            false,
            "Namespace"@,
            seq!["get"@, "list"@],
        ),
        describes(list.api_resources@[4], "nodes"@, false, "Node"@, seq!["get"@, "list"@]),
{
    let mut pod_verbs: Vec<String> = Vec::new();
    pod_verbs.push(String::from_str("get"));
    pod_verbs.push(String::from_str("list"));
    pod_verbs.push(String::from_str("create"));
    pod_verbs.push(String::from_str("delete"));
    assert(texts(pod_verbs@) =~= seq!["get"@, "list"@, "create"@, "delete"@]);
    let mut resources: Vec<ApiResource> = Vec::new();
    resources.push(
        ApiResource {
            name: String::from_str("pods"),
            namespaced: true,
            kind: String::from_str("Pod"),
            verbs: pod_verbs,
        },
    );
    resources.push(resource("pods/log", true, "Pod", "get", false));
    resources.push(resource("pods/status", true, "Pod", "get", false));
    resources.push(resource("namespaces", false, "Namespace", "get", true));
    resources.push(resource("nodes", false, "Node", "get", true));
    ApiResourceList {
        kind: String::from_str("APIResourceList"),
        group_version: String::from_str("v1"),
        api_resources: resources,
    }
}

/// The list that holds `pods`.
pub fn pod_list(pods: Vec<Pod>) -> (list: PodList)
    ensures
        list.type_meta.api_version@ == "v1"@,
        list.type_meta.kind@ == "PodList"@,
        list.items == pods,
{
    PodList { type_meta: type_meta("PodList"), items: pods }
}

/// The list that holds the pods of `namespace` among `pods`, in order.
pub fn namespaced_pod_list(pods: Vec<Pod>, namespace: &str) -> (list: PodList)
    ensures
        list.type_meta.api_version@ == "v1"@,
        list.type_meta.kind@ == "PodList"@,
        list.items@ == pods@.filter(in_namespace(namespace@)),
{
    let mut items: Vec<Pod> = Vec::new();
    proof {
        reveal(Seq::filter);
        assert(pods@.take(0).filter(in_namespace(namespace@)) =~= Seq::<Pod>::empty());
    }
    for pod in it: pods
        invariant
            it.seq() == pods@,
            items@ == pods@.take(it.index() as int).filter(in_namespace(namespace@)),
    {
        proof {
            reveal(Seq::filter);
            let upto = pods@.take(it.index() + 1);
            assert(upto.drop_last() =~= pods@.take(it.index() as int));
            assert(upto.last() == pod);
        }
        if same_text(pod.metadata.namespace.as_str(), namespace) {
            items.push(pod);
        }
    }
    assert(pods@.take(pods@.len() as int) =~= pods@);
    PodList { type_meta: type_meta("PodList"), items }
}

/// The list that holds `nodes`.
pub fn node_list(nodes: Vec<Node>) -> (list: NodeList)
    ensures
        list.type_meta.api_version@ == "v1"@,
        list.type_meta.kind@ == "NodeList"@,
        list.items == nodes,
{
    NodeList { type_meta: type_meta("NodeList"), items: nodes }
}

/// `pod` as it is created in `namespace`: the namespace of the call wins
/// over the one that the pod came with.
pub fn pod_for_namespace(pod: Pod, namespace: String) -> (placed: Pod)
    ensures
        placed.metadata.namespace == namespace,
        placed.metadata.name == pod.metadata.name,
        placed.metadata.labels == pod.metadata.labels,
        placed.metadata.annotations == pod.metadata.annotations,
        placed.metadata.creation_timestamp == pod.metadata.creation_timestamp,
        placed.type_meta == pod.type_meta,
        placed.spec == pod.spec,
        placed.status == pod.status,
{
    let mut placed = pod;
    placed.metadata.namespace = namespace;
    placed
}

/// The status that answers the deletion of the pod `name`.
pub fn deleted_status(name: &str) -> (status: Status)
    ensures
        status.api_version@ == "v1"@,
        status.kind@ == "Status"@,
        status.status@ == "Success"@,
        status.message@ == "pod "@ + quoted(name@) + " deleted"@,
{
    let mut message = String::from_str("pod ");
    let q = quote(name);
    message.append(q.as_str());
    message.append(" deleted");
    Status {
        api_version: String::from_str("v1"),
        kind: String::from_str("Status"),
        status: String::from_str("Success"),
        message,
    }
}

/// The body that answers a health probe of the console itself.
pub fn healthz() -> (body: &'static str)
    ensures
        body@ == "ok\n"@,
{
    "ok\n"
}

} // verus!
