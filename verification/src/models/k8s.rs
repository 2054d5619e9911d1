//! Lightweight resource types in the shape of the Kubernetes API.

use vstd::prelude::*;
use vstd::string::*;
use crate::models::string_map::StringMap;

verus! {

/// The annotation under which a pod carries the name of the node client that
/// produced it.
pub open spec fn node_annotation() -> Seq<char> {
    "mkube.io/node"@
}

/// The exec counterpart of [`node_annotation`].
pub fn node_annotation_key() -> (key: &'static str)
    ensures
        key@ == node_annotation(),
{
    "mkube.io/node"
}

#[derive(Debug, Clone, Default)]
pub struct TypeMeta {
    pub api_version: String,
    pub kind: String,
}

#[derive(Debug, Clone, Default)]
pub struct ObjectMeta {
    pub name: String,
    pub namespace: String,
    pub labels: Option<StringMap>,
    pub annotations: Option<StringMap>,
    pub creation_timestamp: Option<String>,
}

impl ObjectMeta {
    /// The annotations as a map; no annotations at all is the empty map.
    pub open spec fn annotation_map(self) -> Map<Seq<char>, Seq<char>> {
        match self.annotations {
            Some(a) => a@,
            None => Map::empty(),
        }
    }

    /// The value of the annotation `key`, if there is one.
    pub fn annotation(&self, key: &str) -> (value: Option<&String>)
        ensures
            match value {
                Some(v) => self.annotation_map().contains_key(key@) && v@
                    == self.annotation_map()[key@],
                None => !self.annotation_map().contains_key(key@),
            },
    {
        match &self.annotations {
            Some(a) => a.get(key),
            None => None,
        }
    }
}

#[derive(Debug, Clone, Default)]
pub struct Pod {
    pub type_meta: TypeMeta,
    pub metadata: ObjectMeta,
    pub spec: PodSpec,
    pub status: PodStatus,
}

impl Pod {
    /// The node that the pod is annotated with, if any.
    pub open spec fn owner(self) -> Option<Seq<char>> {
        if self.metadata.annotation_map().contains_key(node_annotation()) {
            Some(self.metadata.annotation_map()[node_annotation()])
        } else {
            None
        }
    }

    /// `self` is `source` with the owning-node annotation set to `node`, and
    /// nothing else changed.
    pub open spec fn stamped_from(self, source: Pod, node: Seq<char>) -> bool {
        &&& self.type_meta == source.type_meta
        &&& self.spec == source.spec
        &&& self.status == source.status
        &&& self.metadata.name == source.metadata.name
        &&& self.metadata.namespace == source.metadata.namespace
        &&& self.metadata.labels == source.metadata.labels
        &&& self.metadata.creation_timestamp == source.metadata.creation_timestamp
        &&& self.metadata.annotations is Some
        &&& self.metadata.annotation_map() == source.metadata.annotation_map().insert(
            node_annotation(),
            node,
        )
    }

    /// Records `node` as the owner of the pod.
    pub fn stamp(self, node: &str) -> (stamped: Pod)
        ensures
            stamped.stamped_from(self, node@),
            stamped.owner() == Some(node@),
    {
        let mut pod = self;
        let mut annotations = match pod.metadata.annotations {
            Some(a) => a,
            None => StringMap::new(),
        };
        annotations.insert(String::from_str(node_annotation_key()), String::from_str(node));
        pod.metadata.annotations = Some(annotations);
        pod
    }
}

#[derive(Debug, Clone, Default)]
pub struct PodSpec {
    pub node_name: String,
    pub containers: Vec<Container>,
    pub volumes: Vec<Volume>,
}

#[derive(Debug, Clone, Default)]
pub struct Container {
    pub name: String,
    pub image: String,
    pub volume_mounts: Vec<VolumeMount>,
}

#[derive(Debug, Clone, Default)]
pub struct Volume {
    pub name: String,
}

#[derive(Debug, Clone, Default)]
pub struct VolumeMount {
    pub name: String,
    pub mount_path: String,
}

#[derive(Debug, Clone, Default)]
pub struct PodStatus {
    pub phase: String,
    pub pod_ip: String,
    pub start_time: Option<String>,
    pub container_statuses: Vec<ContainerStatus>,
}

#[derive(Debug, Clone, Default)]
pub struct ContainerStatus {
    pub name: String,
    pub image: String,
    pub ready: bool,
    pub state: ContainerState,
}

#[derive(Debug, Clone, Default)]
pub struct ContainerState {
    pub running: Option<ContainerStateRunning>,
    pub waiting: Option<ContainerStateWaiting>,
    pub terminated: Option<ContainerStateTerminated>,
}

#[derive(Debug, Clone, Default)]
pub struct ContainerStateRunning {
    pub started_at: Option<String>,
}

#[derive(Debug, Clone, Default)]
pub struct ContainerStateWaiting {
    pub reason: String,
    pub message: String,
}

#[derive(Debug, Clone, Default)]
pub struct ContainerStateTerminated {
    pub reason: String,
    pub exit_code: i32,
}

#[derive(Debug, Clone)]
pub struct PodList {
    pub type_meta: TypeMeta,
    pub items: Vec<Pod>,
}

impl Default for PodList {
    fn default() -> (list: Self)
        ensures
            list.type_meta.api_version@ == "v1"@,
            list.type_meta.kind@ == "PodList"@,
            list.items@.len() == 0,
    {
        PodList {
            type_meta: TypeMeta {
                api_version: String::from_str("v1"),
                kind: String::from_str("PodList"),
            },
            items: Vec::new(),
        }
    }
}

#[derive(Debug, Clone, Default)]
pub struct Node {
    pub type_meta: TypeMeta,
    pub metadata: ObjectMeta,
    pub status: NodeStatus,
}

#[derive(Debug, Clone, Default)]
pub struct NodeStatus {
    pub conditions: Vec<NodeCondition>,
    pub capacity: StringMap,
    pub allocatable: StringMap,
    pub node_info: NodeSystemInfo,
}

#[derive(Debug, Clone, Default)]
pub struct NodeCondition {
    pub condition_type: String,
    pub status: String,
}

#[derive(Debug, Clone, Default)]
pub struct NodeSystemInfo {
    pub architecture: String,
    pub os_image: String,
}

#[derive(Debug, Clone)]
pub struct NodeList {
    pub type_meta: TypeMeta,
    pub items: Vec<Node>,
}

impl Default for NodeList {
    fn default() -> (list: Self)
        ensures
            list.type_meta.api_version@ == "v1"@,
            list.type_meta.kind@ == "NodeList"@,
            list.items@.len() == 0,
    {
        NodeList {
            type_meta: TypeMeta {
                api_version: String::from_str("v1"),
                kind: String::from_str("NodeList"),
            },
            items: Vec::new(),
        }
    }
}

#[derive(Debug)]
pub struct ApiVersions {
    pub kind: String,
    pub versions: Vec<String>,
    pub server_address_by_client_cidrs: Vec<ServerAddressByClientCidr>,
}

#[derive(Debug)]
pub struct ServerAddressByClientCidr {
    pub client_cidr: String,
    pub server_address: String,
}

#[derive(Debug)]
pub struct ApiResourceList {
    pub kind: String,
    pub group_version: String,
    pub api_resources: Vec<ApiResource>,
}

#[derive(Debug)]
pub struct ApiResource {
    pub name: String,
    pub namespaced: bool,
    pub kind: String,
    pub verbs: Vec<String>,
}

#[derive(Debug)]
pub struct Status {
    pub api_version: String,
    pub kind: String,
    pub status: String,
    pub message: String,
}

} // verus!
