use mkube_console::clients::aggregator::{
    Aggregator, HealthAction, HealthEvent, HealthState, PingResult, PodLookup,
};
use mkube_console::clients::transport::{ClusterError, JsonReply, Method, Reply};
use mkube_console::clients::NodeClient;
use mkube_console::models::k8s::{Pod, PodList};
use mkube_console::time::Timestamp;

fn client(name: &str) -> NodeClient {
    NodeClient::new(name.to_string(), format!("http://{}:8082", name))
}

fn pod(ns: &str, name: &str, phase: &str) -> Pod {
    let mut p = Pod::default();
    p.metadata.namespace = ns.to_string();
    p.metadata.name = name.to_string();
    p.status.phase = phase.to_string();
    p
}

fn listing(pods: Vec<Pod>) -> JsonReply<PodList> {
    let mut list = PodList::default();
    list.items = pods;
    JsonReply { reply: Reply::Answer { status: 200, body: String::new() }, value: Some(list) }
}

fn lost<T>() -> JsonReply<T> {
    JsonReply { reply: Reply::Lost, value: None }
}

fn ok_ping() -> PingResult {
    PingResult {
        reply: Reply::Answer { status: 200, body: "ok\n".to_string() },
        at: Timestamp { secs: 1_700_000_000, nanos: 5 },
    }
}

fn failed_ping() -> PingResult {
    PingResult { reply: Reply::Lost, at: Timestamp { secs: 1_700_000_000, nanos: 5 } }
}

fn owner(p: &Pod) -> String {
    p.metadata.annotation("mkube.io/node").cloned().unwrap_or_default()
}

fn three_nodes() -> Aggregator {
    Aggregator::new(vec![client("a"), client("b"), client("c")])
}

#[test]
fn registry_keeps_first_place_and_last_client_of_a_name() {
    let mut again = client("a");
    again.address = "http://elsewhere".to_string();
    let agg = Aggregator::new(vec![client("a"), client("b"), again]);
    assert_eq!(agg.node_count(), 2);
    assert_eq!(agg.client(0).name, "a");
    assert_eq!(agg.client(0).address, "http://elsewhere");
    assert_eq!(agg.client(1).name, "b");
    assert_eq!(agg.find("b"), Some(1));
    assert_eq!(agg.find("z"), None);
}

#[test]
fn list_all_pods_merges_successes_and_stamps_owner() {
    let agg = three_nodes();
    let replies = vec![
        listing(vec![pod("default", "p1", "Running"), pod("default", "p2", "Pending")]),
        lost(),
        listing(vec![pod("kube", "p3", "Running")]),
    ];
    let pods = agg.list_all_pods(replies).unwrap();
    assert_eq!(pods.len(), 3);
    assert_eq!(pods[0].metadata.name, "p1");
    assert_eq!(owner(&pods[0]), "a");
    assert_eq!(pods[1].metadata.name, "p2");
    assert_eq!(owner(&pods[1]), "a");
    assert_eq!(pods[2].metadata.name, "p3");
    assert_eq!(owner(&pods[2]), "c");
    assert_eq!(pods[2].status.phase, "Running");
}

#[test]
fn list_all_pods_is_empty_when_every_node_fails() {
    let agg = three_nodes();
    let upstream = JsonReply {
        reply: Reply::Answer { status: 500, body: "boom".to_string() },
        value: None,
    };
    let pods = agg.list_all_pods(vec![lost(), upstream, lost()]).unwrap();
    assert!(pods.is_empty());
}

#[test]
fn list_all_pods_replaces_an_older_owner_annotation() {
    let agg = Aggregator::new(vec![client("a")]);
    let stale = pod("default", "p", "Running").stamp("somewhere-else");
    let pods = agg.list_all_pods(vec![listing(vec![stale])]).unwrap();
    assert_eq!(owner(&pods[0]), "a");
}

#[test]
fn list_all_pods_requests_go_to_every_node() {
    let agg = three_nodes();
    let requests = agg.list_all_pods_requests();
    assert_eq!(requests.len(), 3);
    assert_eq!(requests[1].url, "http://b:8082/api/v1/pods");
    assert_eq!(requests[1].method, Method::Get);
    assert!(requests[1].accept_json);
}

#[test]
fn list_all_nodes_keeps_what_came_back() {
    let agg = three_nodes();
    let mut n = mkube_console::models::k8s::Node::default();
    n.metadata.name = "c".to_string();
    let replies = vec![
        lost(),
        lost(),
        JsonReply { reply: Reply::Answer { status: 200, body: String::new() }, value: Some(n) },
    ];
    let nodes = agg.list_all_nodes(replies).unwrap();
    assert_eq!(nodes.len(), 1);
    assert_eq!(nodes[0].metadata.name, "c");
    assert!(nodes[0].metadata.annotations.is_none());
}

#[test]
fn failed_ping_marks_node_unhealthy_and_scheduling_avoids_it() {
    let mut agg = three_nodes();
    agg.ping_all(&vec![failed_ping(), ok_ping(), ok_ping()]);
    assert!(!agg.client(0).is_healthy());
    assert!(agg.client(1).is_healthy());
    assert_eq!(agg.client(0).last_ping(), None);
    assert_eq!(agg.client(1).last_ping(), Some(Timestamp { secs: 1_700_000_000, nanos: 5 }));
    let replies = vec![listing(vec![]), listing(vec![pod("d", "x", "Running")]), lost()];
    let routed = agg.create_pod(&pod("d", "new", ""), &replies).unwrap();
    assert_eq!(routed.node, 1);
}

#[test]
fn create_pod_schedules_onto_least_loaded_healthy_node() {
    let mut agg = three_nodes();
    agg.ping_all(&vec![ok_ping(), failed_ping(), ok_ping()]);
    let replies = vec![
        listing(vec![pod("d", "a1", "Running"), pod("d", "a2", "Running")]),
        listing(vec![]),
        listing(vec![pod("d", "c1", "Running")]),
    ];
    let survey = agg.create_pod_survey(&pod("d", "new", ""));
    assert!(survey[0].is_some());
    assert!(survey[1].is_none());
    assert!(survey[2].is_some());
    assert_eq!(agg.schedule(&replies), Some(2));
    let routed = agg.create_pod(&pod("d", "new", ""), &replies).unwrap();
    assert_eq!(routed.node, 2);
    assert_eq!(routed.request.method, Method::Post);
    assert_eq!(routed.request.url, "http://c:8082/api/v1/namespaces/d/pods");
    assert!(routed.request.json_body);
}

#[test]
fn create_pod_breaks_ties_by_registry_order() {
    let agg = three_nodes();
    let replies = vec![
        listing(vec![pod("d", "a1", "Running")]),
        listing(vec![pod("d", "b1", "Running")]),
        listing(vec![pod("d", "c1", "Running")]),
    ];
    assert_eq!(agg.create_pod(&pod("d", "new", ""), &replies).unwrap().node, 0);
}

#[test]
fn create_pod_with_all_nodes_unhealthy_fails_without_a_call() {
    let mut agg = three_nodes();
    agg.ping_all(&vec![failed_ping(), failed_ping(), failed_ping()]);
    let survey = agg.create_pod_survey(&pod("d", "new", ""));
    assert!(survey.iter().all(|call| call.is_none()));
    let replies = vec![listing(vec![]), listing(vec![]), listing(vec![])];
    let r = agg.create_pod(&pod("d", "new", ""), &replies);
    assert!(matches!(r, Err(ClusterError::NoHealthyNodes)));
}

#[test]
fn create_pod_fails_when_no_healthy_node_reports() {
    let agg = three_nodes();
    let r = agg.create_pod(&pod("d", "new", ""), &vec![lost(), lost(), lost()]);
    assert!(matches!(r, Err(ClusterError::NoHealthyNodes)));
}

#[test]
fn create_pod_routes_to_named_node_even_when_unhealthy() {
    let mut agg = three_nodes();
    agg.ping_all(&vec![ok_ping(), failed_ping(), ok_ping()]);
    let mut p = pod("d", "new", "");
    p.spec.node_name = "b".to_string();
    assert!(agg.create_pod_survey(&p).iter().all(|call| call.is_none()));
    let routed = agg.create_pod(&p, &vec![lost(), lost(), lost()]).unwrap();
    assert_eq!(routed.node, 1);
    assert_eq!(routed.request.url, "http://b:8082/api/v1/namespaces/d/pods");
}

#[test]
fn create_pod_for_unknown_node_fails_with_node_not_found() {
    let agg = three_nodes();
    let mut p = pod("d", "new", "");
    p.spec.node_name = "nowhere".to_string();
    match agg.create_pod(&p, &vec![listing(vec![]), listing(vec![]), listing(vec![])]) {
        Err(ClusterError::NodeNotFound { name }) => assert_eq!(name, "nowhere"),
        other => panic!("unexpected: {:?}", other),
    }
}

#[test]
fn get_pod_probes_every_node_before_pod_not_found() {
    let agg = three_nodes();
    let mut asked = Vec::new();
    let mut step = agg.get_pod_start("default", "missing");
    let error = loop {
        match step {
            PodLookup::Ask { node, request } => {
                assert_eq!(
                    request.url,
                    format!(
                        "{}/api/v1/namespaces/default/pods/missing",
                        agg.client(node).address
                    )
                );
                asked.push(node);
                let miss = JsonReply {
                    reply: Reply::Answer { status: 404, body: "not found".to_string() },
                    value: None,
                };
                step = agg.get_pod("default", "missing", node, miss);
            }
            PodLookup::Found { .. } => panic!("found a pod that no node has"),
            PodLookup::Failed { error } => break error,
        }
    };
    assert_eq!(asked, vec![0, 1, 2]);
    match error {
        ClusterError::PodNotFound { namespace, name } => {
            assert_eq!(namespace, "default");
            assert_eq!(name, "missing");
        }
        other => panic!("unexpected: {:?}", other),
    }
}

#[test]
fn get_pod_stops_at_first_hit_and_stamps_owner() {
    let agg = three_nodes();
    let first = agg.get_pod_start("default", "web");
    assert!(matches!(first, PodLookup::Ask { node: 0, .. }));
    let second = agg.get_pod("default", "web", 0, lost());
    assert!(matches!(second, PodLookup::Ask { node: 1, .. }));
    let hit = JsonReply {
        reply: Reply::Answer { status: 200, body: String::new() },
        value: Some(pod("default", "web", "Running")),
    };
    match agg.get_pod("default", "web", 1, hit) {
        PodLookup::Found { node, pod, node_name } => {
            assert_eq!(node, 1);
            assert_eq!(node_name, "b");
            assert_eq!(owner(&pod), "b");
            assert_eq!(pod.metadata.name, "web");
        }
        other => panic!("unexpected: {:?}", other),
    }
}

#[test]
fn get_pod_on_empty_registry_fails_at_once() {
    let agg = Aggregator::new(Vec::new());
    assert!(matches!(
        agg.get_pod_start("default", "web"),
        PodLookup::Failed { error: ClusterError::PodNotFound { .. } }
    ));
}

#[test]
fn delete_pod_issues_one_delete_to_the_owner() {
    let agg = three_nodes();
    let routed = agg.delete_pod("c", "default", "web").unwrap();
    assert_eq!(routed.node, 2);
    assert_eq!(routed.request.method, Method::Delete);
    assert_eq!(routed.request.url, "http://c:8082/api/v1/namespaces/default/pods/web");
    assert!(matches!(
        agg.delete_pod("gone", "default", "web"),
        Err(ClusterError::NodeNotFound { .. })
    ));
}

#[test]
fn get_pod_log_goes_to_the_owner() {
    let agg = three_nodes();
    let routed = agg.get_pod_log("b", "default", "web").unwrap();
    assert_eq!(routed.node, 1);
    assert_eq!(routed.request.method, Method::Get);
    assert_eq!(routed.request.url, "http://b:8082/api/v1/namespaces/default/pods/web/log");
}

#[test]
fn get_node_looks_the_name_up() {
    let agg = three_nodes();
    let routed = agg.get_node("a").unwrap();
    assert_eq!(routed.node, 0);
    assert_eq!(routed.request.url, "http://a:8082/api/v1/nodes/a");
    match agg.get_node("zz") {
        Err(ClusterError::NodeNotFound { name }) => assert_eq!(name, "zz"),
        other => panic!("unexpected: {:?}", other),
    }
}

#[test]
fn cluster_summary_counts_nodes_and_pods() {
    let mut agg = three_nodes();
    agg.ping_all(&vec![ok_ping(), failed_ping(), ok_ping()]);
    let replies = vec![
        listing(vec![pod("d", "a1", "Running"), pod("d", "a2", "Pending")]),
        lost(),
        listing(vec![pod("d", "c1", "Running")]),
    ];
    let s = agg.get_cluster_summary(&replies);
    assert_eq!(s.node_count, 3);
    assert_eq!(s.healthy_nodes, 2);
    assert_eq!(s.pod_count, 3);
    assert_eq!(s.running_pods, 2);
    assert_eq!(s.nodes.len(), 3);
    assert_eq!(s.nodes[0].name, "a");
    assert_eq!(s.nodes[0].pod_count, 2);
    assert!(s.nodes[0].healthy);
    assert_eq!(s.nodes[0].last_ping, Some(Timestamp { secs: 1_700_000_000, nanos: 5 }));
    assert_eq!(s.nodes[1].pod_count, 0);
    assert!(!s.nodes[1].healthy);
    assert_eq!(s.nodes[1].last_ping, None);
    assert_eq!(s.nodes[2].pod_count, 1);
}

#[test]
fn ping_all_requests_probe_healthz() {
    let agg = three_nodes();
    let requests = agg.ping_all_requests();
    assert_eq!(requests.len(), 3);
    assert_eq!(requests[2].url, "http://c:8082/healthz");
}

#[test]
fn ping_recovers_a_node() {
    let mut agg = three_nodes();
    agg.ping_all(&vec![failed_ping(), failed_ping(), failed_ping()]);
    assert!(!agg.client(2).is_healthy());
    agg.ping_all(&vec![failed_ping(), ok_ping(), ok_ping()]);
    assert!(!agg.client(0).is_healthy());
    assert!(agg.client(2).is_healthy());
}

#[test]
fn snapshot_copies_the_registry() {
    let agg = three_nodes();
    let copy = agg.snapshot();
    assert_eq!(copy.len(), 3);
    assert_eq!(copy[1].name, "b");
    assert_eq!(copy[1].address, "http://b:8082");
    assert!(copy[1].is_healthy());
}

#[test]
fn health_checker_pings_at_start_and_on_every_tick_until_shutdown() {
    let (s, a) = Aggregator::run_health_checker(HealthState::Starting, HealthEvent::Started);
    assert_eq!((s, a), (HealthState::Running, HealthAction::PingAll));
    let (s, a) = Aggregator::run_health_checker(s, HealthEvent::Tick);
    assert_eq!((s, a), (HealthState::Running, HealthAction::PingAll));
    let (s, a) = Aggregator::run_health_checker(s, HealthEvent::Started);
    assert_eq!((s, a), (HealthState::Running, HealthAction::Wait));
    let (s, a) = Aggregator::run_health_checker(s, HealthEvent::Shutdown);
    assert_eq!((s, a), (HealthState::Stopped, HealthAction::Stop));
    let (s, a) = Aggregator::run_health_checker(s, HealthEvent::Tick);
    assert_eq!((s, a), (HealthState::Stopped, HealthAction::Stop));
    assert_eq!(
        Aggregator::run_health_checker(HealthState::Starting, HealthEvent::Shutdown),
        (HealthState::Stopped, HealthAction::Stop)
    );
    assert_eq!(mkube_console::clients::aggregator::HEALTH_CHECK_INTERVAL_SECS, 15);
}
