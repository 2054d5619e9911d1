use mkube_console::clients::transport::{
    ClusterError, JsonReply, Method, Reply, REQUEST_TIMEOUT_SECS,
};
use mkube_console::clients::NodeClient;
use mkube_console::models::k8s::{Node, Pod, PodList};
use mkube_console::time::Timestamp;

fn node() -> NodeClient {
    NodeClient::new("n1".to_string(), "http://10.0.0.1:8082".to_string())
}

fn now() -> Timestamp {
    Timestamp { secs: 1_700_000_000, nanos: 123 }
}

fn answer(status: u16, body: &str) -> Reply {
    Reply::Answer { status, body: body.to_string() }
}

#[test]
fn new_client_is_healthy_and_never_pinged() {
    let c = node();
    assert_eq!(c.name, "n1");
    assert_eq!(c.address, "http://10.0.0.1:8082");
    assert!(c.is_healthy());
    assert_eq!(c.last_ping(), None);
    assert_eq!(REQUEST_TIMEOUT_SECS, 10);
}

#[test]
fn ping_success_sets_healthy_and_stamp() {
    let mut c = node();
    assert!(c.ping(&Reply::Lost, now()).is_err());
    assert!(c.ping(&answer(204, ""), now()).is_ok());
    assert!(c.is_healthy());
    assert_eq!(c.last_ping(), Some(now()));
}

#[test]
fn ping_failure_sets_unhealthy_and_keeps_stamp() {
    let mut c = node();
    assert!(c.ping(&answer(200, "ok"), now()).is_ok());
    let later = Timestamp { secs: 1_700_000_015, nanos: 0 };
    for reply in [Reply::Lost, answer(500, "down"), answer(404, ""), answer(301, ""), answer(199, "")] {
        let mut d = c.clone();
        assert!(matches!(d.ping(&reply, later), Err(ClusterError::Unreachable)));
        assert!(!d.is_healthy());
        assert_eq!(d.last_ping(), Some(now()));
        assert_eq!(d.name, "n1");
        assert_eq!(d.address, "http://10.0.0.1:8082");
    }
    assert!(c.ping(&answer(299, ""), later).is_ok());
    assert_eq!(c.last_ping(), Some(later));
}

#[test]
fn requests_follow_the_rest_contract() {
    let c = node();
    let base = "http://10.0.0.1:8082";
    let r = c.ping_request();
    assert_eq!((r.method, r.url.as_str(), r.accept_json, r.json_body), (Method::Get, "http://10.0.0.1:8082/healthz", false, false));
    let r = c.list_pods_request();
    assert_eq!((r.method, r.url, r.accept_json, r.json_body), (Method::Get, format!("{}/api/v1/pods", base), true, false));
    let r = c.watch_pods_request();
    assert_eq!((r.method, r.url, r.accept_json), (Method::Get, format!("{}/api/v1/pods?watch=true", base), true));
    let r = c.get_pod_request("kube", "dns");
    assert_eq!((r.method, r.url, r.accept_json), (Method::Get, format!("{}/api/v1/namespaces/kube/pods/dns", base), true));
    let r = c.delete_pod_request("kube", "dns");
    assert_eq!((r.method, r.url, r.accept_json), (Method::Delete, format!("{}/api/v1/namespaces/kube/pods/dns", base), false));
    let r = c.get_pod_log_request("kube", "dns");
    assert_eq!((r.method, r.url), (Method::Get, format!("{}/api/v1/namespaces/kube/pods/dns/log", base)));
    let r = c.get_container_log_request("kube", "dns", "main");
    assert_eq!((r.method, r.url), (Method::Get, format!("{}/api/v1/namespaces/kube/pods/dns/log?container=main", base)));
    let r = c.get_node_request();
    assert_eq!((r.method, r.url, r.accept_json), (Method::Get, format!("{}/api/v1/nodes/n1", base), true));
    let mut p = Pod::default();
    p.metadata.namespace = "apps".to_string();
    let r = c.create_pod_request(&p);
    assert_eq!((r.method, r.url, r.accept_json, r.json_body), (Method::Post, format!("{}/api/v1/namespaces/apps/pods", base), true, true));
}

#[test]
fn json_replies_map_to_typed_results() {
    let c = node();
    let mut list = PodList::default();
    list.items.push(Pod::default());
    let ok = JsonReply { reply: answer(200, "{}"), value: Some(list) };
    assert_eq!(c.list_pods(ok).unwrap().items.len(), 1);
    let lost: JsonReply<PodList> = JsonReply { reply: Reply::Lost, value: None };
    assert!(matches!(c.list_pods(lost), Err(ClusterError::Unreachable)));
    let undecodable: JsonReply<Pod> = JsonReply { reply: answer(200, "not json"), value: None };
    assert!(matches!(c.get_pod(undecodable), Err(ClusterError::Unreachable)));
    let refused = JsonReply { reply: answer(404, "no such pod"), value: Some(Pod::default()) };
    match c.get_pod(refused) {
        Err(ClusterError::UpstreamError { status, body }) => {
            assert_eq!(status, 404);
            assert_eq!(body, "no such pod");
        }
        other => panic!("unexpected: {:?}", other),
    }
    let redirected = JsonReply { reply: answer(399, ""), value: Some(Node::default()) };
    assert!(c.get_node(redirected).is_ok());
    let mut created = Pod::default();
    created.status.phase = "Pending".to_string();
    let reply = JsonReply { reply: answer(201, ""), value: Some(created) };
    assert_eq!(c.create_pod(reply).unwrap().status.phase, "Pending");
    let failed: JsonReply<Pod> = JsonReply { reply: answer(400, "bad pod"), value: None };
    assert!(matches!(c.create_pod(failed), Err(ClusterError::UpstreamError { status: 400, .. })));
}

#[test]
fn text_replies_map_to_typed_results() {
    let c = node();
    assert!(c.delete_pod(answer(200, "")).is_ok());
    assert!(c.delete_pod(answer(399, "")).is_ok());
    assert!(matches!(c.delete_pod(answer(400, "no")), Err(ClusterError::UpstreamError { status: 400, .. })));
    assert!(matches!(c.delete_pod(Reply::Lost), Err(ClusterError::Unreachable)));
    assert_eq!(c.get_pod_log(answer(200, "line 1\nline 2\n")).unwrap(), "line 1\nline 2\n");
    assert!(matches!(c.get_pod_log(answer(500, "x")), Err(ClusterError::UpstreamError { status: 500, .. })));
    assert_eq!(c.get_container_log(answer(200, "log")).unwrap(), "log");
    assert!(matches!(c.get_container_log(Reply::Lost), Err(ClusterError::Unreachable)));
    assert_eq!(c.watch_pods(answer(200, "{}\n")).unwrap(), "{}\n");
    assert!(matches!(c.watch_pods(answer(404, "unsupported")), Err(ClusterError::UpstreamError { status: 404, .. })));
    assert!(answer(200, "").is_success());
    assert!(!answer(300, "").is_success());
    assert!(!Reply::Lost.is_success());
}

#[test]
fn errors_have_words_and_a_status() {
    assert_eq!(ClusterError::Unreachable.message(), "node unreachable");
    assert_eq!(ClusterError::Unreachable.status_code(), 500);
    let upstream = ClusterError::UpstreamError { status: 503, body: "try later".to_string() };
    assert_eq!(upstream.message(), "node returned error 503: try later");
    assert_eq!(upstream.status_code(), 500);
    let node = ClusterError::NodeNotFound { name: "n\"9".to_string() };
    assert_eq!(node.message(), "node \"n\\\"9\" not found");
    assert_eq!(node.status_code(), 404);
    let pod = ClusterError::PodNotFound { namespace: "kube".to_string(), name: "dns".to_string() };
    assert_eq!(pod.message(), "pod kube/dns not found on any node");
    assert_eq!(pod.status_code(), 404);
    assert_eq!(ClusterError::NoHealthyNodes.message(), "no healthy nodes available");
    assert_eq!(ClusterError::NoHealthyNodes.status_code(), 500);
}
